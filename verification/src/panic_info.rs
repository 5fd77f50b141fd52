//! The payload of a fatal syntax error and its serialized form.

use crate::diagnostic::{Loc, LocView};
use crate::text::{
    decimal,
    decimal_string,
    is_plain,
    json_escaped,
    json_quote,
    json_string,
    lemma_escaped_joined,
    lemma_plain_text_stands,
};
use vstd::prelude::*;
use vstd::string::StringExecFns;

verus! {

/// What a host learns from a parse that ended with a fatal syntax error:
/// the message, the source file, the 1-based line and the 0-based column.
/// Line and column are 0 where they are not known.
#[derive(Debug, PartialEq, Eq)]
pub struct PanicInfo {
    pub message: String,
    pub kcl_file: String,
    pub kcl_line: u64,
    pub kcl_col: u64,
}

/// The mathematical value of a [`PanicInfo`].
pub struct PanicInfoView {
    pub message: Seq<char>,
    pub kcl_file: Seq<char>,
    pub kcl_line: u64,
    pub kcl_col: u64,
}

impl View for PanicInfo {
    type V = PanicInfoView;

    open spec fn view(&self) -> PanicInfoView {
        PanicInfoView {
            message: self.message@,
            kcl_file: self.kcl_file@,
            kcl_line: self.kcl_line,
            kcl_col: self.kcl_col,
        }
    }
}

/// The payload for a syntax error with message `msg` at `loc`: the message
/// behind the mark of a syntax error, the position's file and line, and its
/// column, or 0 where the column is not known.
pub open spec fn syntax_panic(msg: Seq<char>, loc: LocView) -> PanicInfoView {
    PanicInfoView {
        message: "Invalid syntax: "@ + msg,
        kcl_file: loc.file,
        kcl_line: loc.line,
        kcl_col: match loc.column {
            Some(column) => column,
            None => 0,
        },
    }
}

/// The serialized payload: one JSON object with the members `kcl_file`,
/// `kcl_line`, `kcl_col` and `message`, in this order, without blanks.
pub open spec fn json_of(info: PanicInfoView) -> Seq<char> {
    "{\"kcl_file\":"@ + json_string(info.kcl_file) + ",\"kcl_line\":"@ + decimal(
        info.kcl_line as nat,
    ) + ",\"kcl_col\":"@ + decimal(info.kcl_col as nat) + ",\"message\":"@ + json_string(
        info.message,
    ) + "}"@
}

impl PanicInfo {
    /// A payload that holds a message and no position.
    pub fn from_message(message: String) -> (info: PanicInfo)
        ensures
            info@ == (PanicInfoView {
                message: message@,
                kcl_file: Seq::empty(),
                kcl_line: 0,
                kcl_col: 0,
            }),
    {
        PanicInfo { message, kcl_file: String::new(), kcl_line: 0, kcl_col: 0 }
    }

    /// The payload for a syntax error with message `msg` at `loc`.
    pub fn syntax_error(msg: &str, loc: &Loc) -> (info: PanicInfo)
        ensures
            info@ == syntax_panic(msg@, loc@),
    {
        let mut message = String::from_str("Invalid syntax: ");
        message.append(msg);
        let mut info = PanicInfo::from_message(message);
        info.kcl_file = loc.file.clone();
        info.kcl_line = loc.line;
        info.kcl_col = match loc.column {
            Some(column) => column,
            None => 0,
        };
        info
    }

    /// Serializes the payload.
    pub fn to_json_string(&self) -> (json: String)
        ensures
            json@ == json_of(self@),
    {
        let mut json = String::from_str("{\"kcl_file\":");
        json.append(json_quote(self.kcl_file.as_str()).as_str());
        json.append(",\"kcl_line\":");
        json.append(decimal_string(self.kcl_line).as_str());
        json.append(",\"kcl_col\":");
        json.append(decimal_string(self.kcl_col).as_str());
        json.append(",\"message\":");
        json.append(json_quote(self.message.as_str()).as_str());
        json.append("}");
        json
    }
}

/// In the serialized payload of a fatal syntax error the message member
/// reads: a double quote, the mark of a syntax error as it is, the error's
/// message as JSON escapes it, a double quote. The line and the column are
/// written in decimal, as the position has them.
pub proof fn law_payload_shows_message(msg: Seq<char>, loc: LocView)
    ensures
        json_string(syntax_panic(msg, loc).message) == seq!['"'] + "Invalid syntax: "@
            + json_escaped(msg) + seq!['"'],
        json_of(syntax_panic(msg, loc)) == "{\"kcl_file\":"@ + json_string(loc.file)
            + ",\"kcl_line\":"@ + decimal(loc.line as nat) + ",\"kcl_col\":"@ + decimal(
            syntax_panic(msg, loc).kcl_col as nat,
        ) + ",\"message\":"@ + (seq!['"'] + "Invalid syntax: "@ + json_escaped(msg) + seq!['"'])
            + "}"@,
{
    let mark = "Invalid syntax: "@;
    reveal_strlit("Invalid syntax: ");
    assert(mark.len() == 16);
    assert(is_plain(mark[0]) && is_plain(mark[1]) && is_plain(mark[2]) && is_plain(mark[3]));
    assert(is_plain(mark[4]) && is_plain(mark[5]) && is_plain(mark[6]) && is_plain(mark[7]));
    assert(is_plain(mark[8]) && is_plain(mark[9]) && is_plain(mark[10]) && is_plain(mark[11]));
    assert(is_plain(mark[12]) && is_plain(mark[13]) && is_plain(mark[14]) && is_plain(mark[15]));
    lemma_plain_text_stands(mark);
    lemma_escaped_joined(mark, msg);
    assert(seq!['"'] + (mark + json_escaped(msg)) + seq!['"'] =~= seq!['"'] + mark + json_escaped(
        msg,
    ) + seq!['"']);
}

} // verus!
