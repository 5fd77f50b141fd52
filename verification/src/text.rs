//! Text building blocks: decimal numbers and quoted string literals.

use vstd::prelude::*;

verus! {

pub assume_specification[ String::push ](s: &mut String, ch: char)
    ensures
        final(s)@ == old(s)@.push(ch),
;

/// The character that writes the hexadecimal digit `d`, in lower case.
pub open spec fn hex_digit_char(d: nat) -> char {
    if d < 10 {
        (48 + d) as char
    } else {
        (87 + d) as char
    }
}

/// How one character stands inside a JSON string literal: the double quote
/// and the backslash behind a backslash, the five control characters that
/// have a short escape as that escape, every other character below the
/// blank as `\u00` and two hexadecimal digits, and any other character as
/// it is.
pub open spec fn json_escape(c: char) -> Seq<char> {
    if c == '"' {
        seq!['\\', '"']
    } else if c == '\\' {
        seq!['\\', '\\']
    } else if c == '\u{8}' {
        seq!['\\', 'b']
    } else if c == '\t' {
        seq!['\\', 't']
    } else if c == '\n' {
        seq!['\\', 'n']
    } else if c == '\u{c}' {
        seq!['\\', 'f']
    } else if c == '\r' {
        seq!['\\', 'r']
    } else if (c as nat) < 0x20 {
        seq!['\\', 'u', '0', '0', hex_digit_char((c as nat) / 16), hex_digit_char((c as nat) % 16)]
    } else {
        seq![c]
    }
}

/// A text as it stands inside a JSON string literal: character by
/// character.
pub open spec fn json_escaped(text: Seq<char>) -> Seq<char>
    decreases text.len(),
{
    if text.len() == 0 {
        Seq::empty()
    } else {
        json_escaped(text.drop_last()) + json_escape(text.last())
    }
}

/// Whether a character stands inside a JSON string literal as it is.
pub open spec fn is_plain(c: char) -> bool {
    (c as nat) >= 0x20 && c != '"' && c != '\\'
}

/// Two texts joined are escaped as the two texts are, one behind the
/// other.
pub proof fn lemma_escaped_joined(a: Seq<char>, b: Seq<char>)
    ensures
        json_escaped(a + b) == json_escaped(a) + json_escaped(b),
    decreases b.len(),
{
    if b.len() == 0 {
        assert(a + b =~= a);
        assert(json_escaped(a) + json_escaped(b) =~= json_escaped(a));
    } else {
        assert((a + b).drop_last() =~= a + b.drop_last());
        assert((a + b).last() == b.last());
        lemma_escaped_joined(a, b.drop_last());
        assert(json_escaped(a + b) =~= json_escaped(a) + json_escaped(b));
    }
}

/// A text of plain characters is escaped as itself.
pub proof fn lemma_plain_text_stands(text: Seq<char>)
    requires
        forall|i: int| 0 <= i < text.len() ==> is_plain(#[trigger] text[i]),
    ensures
        json_escaped(text) == text,
    decreases text.len(),
{
    if text.len() > 0 {
        let front = text.drop_last();
        assert forall|i: int| 0 <= i < front.len() implies is_plain(#[trigger] front[i]) by {
            assert(front[i] == text[i]);
        }
        lemma_plain_text_stands(front);
        assert(is_plain(text[text.len() - 1]));
        assert(json_escape(text.last()) =~= seq![text.last()]);
        assert(front + seq![text.last()] =~= text);
    }
}

/// The JSON string literal for a text: the escaped text between double
/// quotes.
pub open spec fn json_string(text: Seq<char>) -> Seq<char> {
    seq!['"'] + json_escaped(text) + seq!['"']
}

/// The Rust string literal for a text: the text between double quotes, with
/// the escapes of the standard debug notation.
pub uninterp spec fn debug_string(text: Seq<char>) -> Seq<char>;

/// `serde_json`'s display of a `Value::String`: the text as one compact
/// JSON string literal, escaped as `serde_json` escapes.
#[verifier::external_body]
pub(crate) fn json_quote(text: &str) -> (quoted: String)
    ensures
        quoted@ == json_string(text@),
{
    serde_json::Value::String(text.to_owned()).to_string()
}

/// The standard library's debug notation of a `str`. The result depends on
/// the text alone.
#[verifier::external_body]
pub(crate) fn debug_quote(text: &str) -> (quoted: String)
    ensures
        quoted@ == debug_string(text@),
{
    format!("{:?}", text)
}

/// The UTF-8 form of two texts joined is the two UTF-8 forms joined.
pub proof fn lemma_encoding_of_joined(a: Seq<char>, b: Seq<char>)
    ensures
        vstd::utf8::encode_utf8(a + b) == vstd::utf8::encode_utf8(a) + vstd::utf8::encode_utf8(b),
    decreases a.len(),
{
    if a.len() == 0 {
        assert(a + b =~= b);
        assert(vstd::utf8::encode_utf8(a) + vstd::utf8::encode_utf8(b) =~= vstd::utf8::encode_utf8(
            b,
        ));
    } else {
        assert((a + b)[0] == a[0]);
        assert((a + b).drop_first() =~= a.drop_first() + b);
        lemma_encoding_of_joined(a.drop_first(), b);
        assert(vstd::utf8::encode_utf8(a + b) =~= vstd::utf8::encode_utf8(a)
            + vstd::utf8::encode_utf8(b));
    }
}

/// The character that writes the digit `d`.
pub open spec fn digit_char(d: nat) -> char {
    (48 + d) as char
}

/// The decimal notation of `n`, without leading zeros.
pub open spec fn decimal(n: nat) -> Seq<char>
    decreases n,
{
    if n < 10 {
        seq![digit_char(n)]
    } else {
        decimal(n / 10).push(digit_char(n % 10))
    }
}

fn digit(d: u8) -> (c: char)
    requires
        d < 10,
    ensures
        c == digit_char(d as nat),
{
    (48u8 + d) as char
}

/// Writes `n` in decimal notation.
pub fn decimal_string(n: u64) -> (text: String)
    ensures
        text@ == decimal(n as nat),
{
    let mut digits: Vec<char> = Vec::new();
    let mut rest: u64 = n;
    while rest >= 10
        invariant
            decimal(n as nat) == decimal(rest as nat) + digits@.reverse(),
        decreases rest,
    {
        let d: u8 = (rest % 10) as u8;
        proof {
            assert(decimal(rest as nat) == decimal((rest / 10) as nat).push(digit_char((rest % 10) as nat)));
            assert(digits@.push(digit_char(d as nat)).reverse() =~= seq![digit_char(d as nat)] + digits@.reverse());
        }
        digits.push(digit(d));
        rest = rest / 10;
    }
    let mut text = String::new();
    text.push(digit(rest as u8));
    let mut i: usize = digits.len();
    while i > 0
        invariant
            i <= digits.len(),
            text@ == decimal(rest as nat) + digits@.reverse().subrange(0, digits.len() - i),
        decreases i,
    {
        i = i - 1;
        text.push(digits[i]);
        proof {
            let r = digits@.reverse();
            assert(r.subrange(0, digits.len() - i) =~= r.subrange(0, digits.len() - i - 1).push(digits@[i as int]));
        }
    }
    proof {
        assert(digits@.reverse().subrange(0, digits.len() as int) =~= digits@.reverse());
    }
    text
}

} // verus!
