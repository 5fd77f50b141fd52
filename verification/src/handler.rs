//! The local diagnostic log of one parse session: ordered, duplicate-free,
//! classified by severity on demand.

use crate::diagnostic::{Diagnostic, DiagnosticView, Level};
use crate::ordered_set::{set_clone, set_get, set_insert, set_items, set_len, set_new};
use indexmap::IndexSet;
use vstd::prelude::*;

verus! {

/// The log after one diagnostic is reported: an entry already present stays
/// where it is, a new one goes last.
pub open spec fn log_insert(log: Seq<DiagnosticView>, d: DiagnosticView) -> Seq<DiagnosticView> {
    if log.contains(d) {
        log
    } else {
        log.push(d)
    }
}

/// The log after a batch is reported entry by entry, first to last.
pub open spec fn log_merge(log: Seq<DiagnosticView>, batch: Seq<DiagnosticView>) -> Seq<
    DiagnosticView,
>
    decreases batch.len(),
{
    if batch.len() == 0 {
        log
    } else {
        log_insert(log_merge(log, batch.drop_last()), batch.last())
    }
}

/// The errors of a log, in the log's order.
pub open spec fn errors_of(log: Seq<DiagnosticView>) -> Seq<DiagnosticView> {
    log.filter(|d: DiagnosticView| d.level == Level::Error)
}

/// The warnings of a log, in the log's order.
pub open spec fn warnings_of(log: Seq<DiagnosticView>) -> Seq<DiagnosticView> {
    log.filter(|d: DiagnosticView| d.level == Level::Warning)
}

/// The local diagnostic log of one parse session. Its entries are kept in
/// the order in which they were first reported, each once.
pub struct Handler {
    diagnostics: IndexSet<Diagnostic>,
}

impl View for Handler {
    type V = Seq<DiagnosticView>;

    closed spec fn view(&self) -> Seq<DiagnosticView> {
        set_items(self.diagnostics)
    }
}

impl Handler {
    /// No entry occurs twice.
    pub open spec fn wf(&self) -> bool {
        self@.no_duplicates()
    }

    /// A log without entries.
    pub fn new() -> (handler: Handler)
        ensures
            handler@ == Seq::<DiagnosticView>::empty(),
            handler.wf(),
    {
        Handler { diagnostics: set_new() }
    }

    /// The number of entries.
    pub fn len(&self) -> (n: usize)
        ensures
            n == self@.len(),
    {
        set_len(&self.diagnostics)
    }

    /// The entry at a position in report order, if there is one.
    pub fn get(&self, index: usize) -> (entry: Option<&Diagnostic>)
        ensures
            index < self@.len() ==> entry.is_some() && entry.unwrap()@ == self@[index as int],
            index >= self@.len() ==> entry.is_none(),
    {
        set_get(&self.diagnostics, index)
    }

    /// The entries as a set, in report order.
    pub fn diagnostics(&self) -> (set: &IndexSet<Diagnostic>)
        ensures
            set_items(*set) == self@,
    {
        &self.diagnostics
    }

    /// Reports one diagnostic: it goes last unless the log already holds it.
    pub fn add_diagnostic(&mut self, diagnostic: Diagnostic)
        requires
            old(self).wf(),
        ensures
            final(self).wf(),
            final(self)@ == log_insert(old(self)@, diagnostic@),
    {
        proof {
            lemma_insert_keeps(self@, diagnostic@);
        }
        set_insert(&mut self.diagnostics, diagnostic);
    }

    /// Reports every diagnostic of a batch, first to last. Entries that the
    /// log already holds are skipped; the others go last, in batch order.
    pub fn append(&mut self, batch: IndexSet<Diagnostic>)
        requires
            old(self).wf(),
        ensures
            final(self).wf(),
            final(self)@ == log_merge(old(self)@, set_items(batch)),
    {
        let n = set_len(&batch);
        let mut i: usize = 0;
        while i < n
            invariant
                i <= n,
                n == set_items(batch).len(),
                self.wf(),
                self@ == log_merge(old(self)@, set_items(batch).take(i as int)),
            decreases n - i,
        {
            if let Some(entry) = set_get(&batch, i) {
                proof {
                    let items = set_items(batch);
                    assert(items.take(i + 1).drop_last() =~= items.take(i as int));
                    assert(items.take(i + 1).last() == items[i as int]);
                }
                self.add_diagnostic(entry.clone());
            }
            i = i + 1;
        }
        proof {
            assert(set_items(batch).take(n as int) =~= set_items(batch));
        }
    }

    /// Splits the log by severity into its errors and its warnings, each in
    /// report order. The log itself is left as it is.
    pub fn classification(&self) -> (parts: (IndexSet<Diagnostic>, IndexSet<Diagnostic>))
        requires
            self.wf(),
        ensures
            set_items(parts.0) == errors_of(self@),
            set_items(parts.1) == warnings_of(self@),
    {
        let mut errors = set_new();
        let mut warnings = set_new();
        let n = self.len();
        let mut i: usize = 0;
        proof {
            assert(self@.take(0) =~= Seq::<DiagnosticView>::empty());
        }
        while i < n
            invariant
                i <= n,
                n == self@.len(),
                self@.no_duplicates(),
                set_items(errors) == errors_of(self@.take(i as int)),
                set_items(warnings) == warnings_of(self@.take(i as int)),
            decreases n - i,
        {
            if let Some(entry) = self.get(i) {
                proof {
                    let seen = self@.take(i as int);
                    let d = self@[i as int];
                    assert(self@.take(i + 1) =~= seen.push(d));
                    assert(!seen.contains(d));
                    if errors_of(seen).contains(d) {
                        seen.lemma_filter_contains_rev(|d: DiagnosticView| d.level == Level::Error, d);
                    }
                    if warnings_of(seen).contains(d) {
                        seen.lemma_filter_contains_rev(
                            |d: DiagnosticView| d.level == Level::Warning,
                            d,
                        );
                    }
                    seen.lemma_filter_push(d, |d: DiagnosticView| d.level == Level::Error);
                    seen.lemma_filter_push(d, |d: DiagnosticView| d.level == Level::Warning);
                }
                if entry.is_error() {
                    set_insert(&mut errors, entry.clone());
                } else {
                    set_insert(&mut warnings, entry.clone());
                }
            }
            i = i + 1;
        }
        proof {
            assert(self@.take(n as int) =~= self@);
        }
        (errors, warnings)
    }
}

impl Clone for Handler {
    fn clone(&self) -> (copy: Handler)
        ensures
            copy@ == self@,
    {
        Handler { diagnostics: set_clone(&self.diagnostics) }
    }
}

impl Default for Handler {
    fn default() -> (handler: Handler)
        ensures
            handler@ == Seq::<DiagnosticView>::empty(),
            handler.wf(),
    {
        Handler::new()
    }
}

/// A sequence with one more entry at its end holds what it held, and that
/// entry.
pub proof fn lemma_last_joins_set(batch: Seq<DiagnosticView>)
    requires
        batch.len() > 0,
    ensures
        batch.to_set() == batch.drop_last().to_set().insert(batch.last()),
{
    assert(batch.drop_last().push(batch.last()) =~= batch);
    batch.drop_last().lemma_push_to_set_commute(batch.last());
}

/// The log keeps what it held, in place, when one diagnostic is reported,
/// and stays free of duplicates.
pub proof fn lemma_insert_keeps(log: Seq<DiagnosticView>, d: DiagnosticView)
    ensures
        log_insert(log, d).contains(d),
        log.len() <= log_insert(log, d).len() <= log.len() + 1,
        log_insert(log, d).take(log.len() as int) == log,
        log.no_duplicates() ==> log_insert(log, d).no_duplicates(),
        log_insert(log, d).to_set() == log.to_set().insert(d),
{
    let after = log_insert(log, d);
    if log.contains(d) {
        assert(after.take(log.len() as int) =~= log);
        assert(after.to_set() =~= log.to_set().insert(d));
    } else {
        assert(after[log.len() as int] == d);
        assert(after.take(log.len() as int) =~= log);
        log.lemma_push_to_set_commute(d);
    }
}

/// Merging a batch keeps the log as a prefix, keeps it free of duplicates,
/// and makes it hold exactly what the log or the batch held.
pub proof fn lemma_merge_keeps(log: Seq<DiagnosticView>, batch: Seq<DiagnosticView>)
    ensures
        log.len() <= log_merge(log, batch).len() <= log.len() + batch.len(),
        log_merge(log, batch).take(log.len() as int) == log,
        log.no_duplicates() ==> log_merge(log, batch).no_duplicates(),
        log_merge(log, batch).to_set() == log.to_set().union(batch.to_set()),
    decreases batch.len(),
{
    if batch.len() == 0 {
        assert(log.take(log.len() as int) =~= log);
        assert(batch.to_set() =~= Set::<DiagnosticView>::empty());
        assert(log.to_set().union(batch.to_set()) =~= log.to_set());
    } else {
        let before = log_merge(log, batch.drop_last());
        lemma_merge_keeps(log, batch.drop_last());
        lemma_insert_keeps(before, batch.last());
        let after = log_merge(log, batch);
        assert(after.take(log.len() as int) =~= before.take(log.len() as int)) by {
            assert(after.take(before.len() as int) == before);
            assert(after.take(before.len() as int).take(log.len() as int) =~= after.take(
                log.len() as int,
            ));
        }
        lemma_last_joins_set(batch);
        assert(after.to_set() =~= log.to_set().union(batch.to_set()));
    }
}

/// Reporting the same diagnostic twice leaves exactly the entries that
/// reporting it once leaves; into an empty log, one entry.
pub proof fn law_repeated_report_is_one_entry(log: Seq<DiagnosticView>, d: DiagnosticView)
    ensures
        log_insert(log_insert(log, d), d) == log_insert(log, d),
        log_insert(log_insert(Seq::empty(), d), d).len() == 1,
{
    lemma_insert_keeps(log, d);
    let none = Seq::<DiagnosticView>::empty();
    assert(!none.contains(d));
    lemma_insert_keeps(none, d);
}

/// Reporting diagnostics that differ pairwise into an empty log keeps every
/// one of them, in the order in which they came: as many entries as reports.
pub proof fn law_distinct_reports_all_kept(batch: Seq<DiagnosticView>)
    requires
        batch.no_duplicates(),
    ensures
        log_merge(Seq::empty(), batch) == batch,
        log_merge(Seq::empty(), batch).len() == batch.len(),
    decreases batch.len(),
{
    if batch.len() == 0 {
        assert(log_merge(Seq::empty(), batch) =~= batch);
    } else {
        let front = batch.drop_last();
        law_distinct_reports_all_kept(front);
        assert(!front.contains(batch.last())) by {
            if front.contains(batch.last()) {
                let i = choose|i: int| 0 <= i < front.len() && front[i] == batch.last();
                assert(batch[i] == batch[batch.len() - 1]);
            }
        }
        assert(front.push(batch.last()) =~= batch);
    }
}

/// Merging a batch into a log lengthens the log by the number of distinct
/// entries of the batch that the log did not hold: entries it shares with
/// the batch, and repetitions inside the batch, add nothing.
pub proof fn law_merge_adds_new_entries(log: Seq<DiagnosticView>, batch: Seq<DiagnosticView>)
    ensures
        log_merge(log, batch).len() == log.len() + batch.to_set().difference(log.to_set()).len(),
    decreases batch.len(),
{
    broadcast use vstd::seq_lib::seq_to_set_is_finite;

    if batch.len() == 0 {
        assert(batch.to_set().difference(log.to_set()) =~= Set::<DiagnosticView>::empty());
    } else {
        let front = batch.drop_last();
        let x = batch.last();
        let before = log_merge(log, front);
        law_merge_adds_new_entries(log, front);
        lemma_merge_keeps(log, front);
        lemma_last_joins_set(batch);
        let new_front = front.to_set().difference(log.to_set());
        let new_batch = batch.to_set().difference(log.to_set());
        if before.contains(x) {
            assert(before.to_set().contains(x));
            assert(new_batch =~= new_front);
        } else {
            assert(!before.to_set().contains(x));
            assert(!new_front.contains(x));
            assert(new_batch =~= new_front.insert(x));
        }
    }
}

/// Classification splits a log in two: every entry is among the errors or
/// among the warnings and never among both, and the two parts together hold
/// each entry as often as the log does.
pub proof fn law_classification_partitions(log: Seq<DiagnosticView>)
    ensures
        forall|d: DiagnosticView|
            log.contains(d) ==> (errors_of(log).contains(d) != warnings_of(log).contains(d)),
        forall|d: DiagnosticView| errors_of(log).contains(d) ==> log.contains(d),
        forall|d: DiagnosticView| warnings_of(log).contains(d) ==> log.contains(d),
        errors_of(log).to_multiset().add(warnings_of(log).to_multiset()) == log.to_multiset(),
        errors_of(log).len() + warnings_of(log).len() == log.len(),
    decreases log.len(),
{
    broadcast use vstd::seq_lib::group_to_multiset_ensures;

    let is_error = |d: DiagnosticView| d.level == Level::Error;
    let is_warning = |d: DiagnosticView| d.level == Level::Warning;
    broadcast use vstd::seq_lib::group_filter_ensures;

    assert forall|d: DiagnosticView| errors_of(log).contains(d) implies log.contains(d) by {
        log.lemma_filter_contains_rev(is_error, d);
    }
    assert forall|d: DiagnosticView| warnings_of(log).contains(d) implies log.contains(d) by {
        log.lemma_filter_contains_rev(is_warning, d);
    }
    assert forall|d: DiagnosticView| log.contains(d) implies (errors_of(log).contains(d)
        != warnings_of(log).contains(d)) by {
        let i = choose|i: int| 0 <= i < log.len() && log[i] == d;
        if d.level == Level::Error {
            assert(is_error(log[i]));
            assert(errors_of(log).contains(d));
            if warnings_of(log).contains(d) {
                let j = choose|j: int|
                    0 <= j < warnings_of(log).len() && warnings_of(log)[j] == d;
                assert(is_warning(warnings_of(log)[j]));
            }
        } else {
            assert(is_warning(log[i]));
            assert(warnings_of(log).contains(d));
            if errors_of(log).contains(d) {
                let j = choose|j: int| 0 <= j < errors_of(log).len() && errors_of(log)[j] == d;
                assert(is_error(errors_of(log)[j]));
            }
        }
    }
    if log.len() == 0 {
        assert(errors_of(log).to_multiset().add(warnings_of(log).to_multiset())
            =~= log.to_multiset());
    } else {
        let front = log.drop_last();
        let x = log.last();
        law_classification_partitions(front);
        assert(front.push(x) =~= log);
        front.lemma_filter_push(x, is_error);
        front.lemma_filter_push(x, is_warning);
        assert(errors_of(log).to_multiset().add(warnings_of(log).to_multiset())
            =~= log.to_multiset());
    }
}

} // verus!
