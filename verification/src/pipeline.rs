//! The classification pass as a state machine: records are offered one by
//! one, buffered into batches, and each batch is classified against the
//! reference store. The caller reads the stream, writes the outputs and
//! commits when a report says so.

use vstd::prelude::*;
use vstd::hash_set::StringHashSet;
use crate::classify::{
    failed_at, failure_positions, possible_outcome, process_batch, seen_after, tally, Counters,
    Decision, LookupFailure, Tally,
};
use crate::extension::{extension_column, extension_column_of, retained, retains, ExtensionFilter};
use crate::record::{rows, Record};
use crate::store::Lookup;

verus! {

/// The number of records that fill a batch.
pub const BATCH_SIZE: usize = 10000;

/// The number of batches after which the open transaction is committed.
pub const COMMIT_INTERVAL: usize = 5;

/// The number of malformed rows that a run puts up with.
pub const MALFORMED_ROW_LIMIT: u64 = 100;

/// The fatal error of a run that met more malformed rows than it puts up
/// with.
#[derive(Debug)]
pub struct TooManyMalformedRows {
    /// The rows skipped so far, the last one included.
    pub skipped: u64,
}

/// The figures a run reports at its end.
#[derive(Debug, Clone, Copy, PartialEq, Eq, Structural)]
pub struct RunSummary {
    /// The counters of the classified records.
    pub counters: Counters,
    /// The malformed rows that were skipped.
    pub malformed_rows: u64,
}

/// What the classification of one batch gave.
#[derive(Debug)]
pub struct BatchReport {
    /// The records of the batch, in the order they were offered.
    pub records: Vec<Record>,
    /// The decision for each record of the batch.
    pub decisions: Vec<Decision>,
    /// The lookups that failed, in the order of their records.
    pub failures: Vec<LookupFailure>,
    /// Whether the open transaction is to be committed now.
    pub commit_due: bool,
}

/// The state of a classification pass as plain values.
pub ghost struct PassState {
    /// The entries of the extension filter, if there is one.
    pub filter: Option<Seq<Seq<char>>>,
    /// The column that holds the extension.
    pub extension_column: int,
    /// The records buffered for the next batch.
    pub pending: Seq<Seq<Seq<char>>>,
    /// The keys met in the batches classified so far.
    pub seen: Set<Seq<char>>,
    /// The counters of the batches classified so far.
    pub counters: Tally,
    /// The malformed rows skipped so far.
    pub malformed_rows: nat,
    /// The batches classified since the last commit.
    pub uncommitted_batches: nat,
}

/// A classification pass in progress.
pub struct Classifier {
    filter: Option<ExtensionFilter>,
    extension_column: usize,
    pending: Vec<Record>,
    seen: StringHashSet,
    counters: Counters,
    malformed_rows: u64,
    uncommitted_batches: usize,
}

/// Whether the batch that follows `uncommitted` batches since the last
/// commit and holds `size` records is followed by a commit.
pub open spec fn commit_follows(uncommitted: nat, size: nat) -> bool {
    size > 0 && uncommitted + 1 >= COMMIT_INTERVAL
}

/// The number of malformed rows after one more: the count stops one above
/// the limit, where the run is over.
pub open spec fn malformed_after(skipped: nat) -> nat {
    if skipped <= MALFORMED_ROW_LIMIT {
        skipped + 1
    } else {
        skipped
    }
}

/// A filter as plain text, where there is one.
pub open spec fn filter_view(filter: Option<ExtensionFilter>) -> Option<Seq<Seq<char>>> {
    match filter {
        Some(f) => Some(f@),
        None => None,
    }
}

impl View for Classifier {
    type V = PassState;

    closed spec fn view(&self) -> PassState {
        PassState {
            filter: filter_view(self.filter),
            extension_column: self.extension_column as int,
            pending: rows(self.pending@),
            seen: self.seen@,
            counters: self.counters@,
            malformed_rows: self.malformed_rows as nat,
            uncommitted_batches: self.uncommitted_batches as nat,
        }
    }
}

impl Classifier {
    /// What holds of a pass between any two of its steps.
    pub open spec fn wf(&self) -> bool {
        &&& self@.counters.balanced()
        &&& self@.seen.finite()
        &&& self@.counters.unique == self@.seen.len()
        &&& self@.counters.records + self@.pending.len() <= u64::MAX
        &&& self@.uncommitted_batches < COMMIT_INTERVAL
        &&& self@.malformed_rows <= MALFORMED_ROW_LIMIT + 1
    }

    /// Starts a pass over a stream with the given header row.
    pub fn new(filter: Option<ExtensionFilter>, headers: &Record) -> (c: Classifier)
        ensures
            c.wf(),
            c@ == (PassState {
                filter: filter_view(filter),
                extension_column: extension_column_of(headers@),
                pending: Seq::empty(),
                seen: Set::empty(),
                counters: Tally::zero(),
                malformed_rows: 0,
                uncommitted_batches: 0,
            }),
    {
        let c = Classifier {
            filter,
            extension_column: extension_column(headers),
            pending: Vec::new(),
            seen: StringHashSet::new(),
            counters: Counters::new(),
            malformed_rows: 0,
            uncommitted_batches: 0,
        };
        assert(c@.pending =~= Seq::empty());
        c
    }

    /// The counters of the batches classified so far.
    pub fn counters(&self) -> (c: Counters)
        ensures
            c@ == self@.counters,
    {
        self.counters
    }

    /// The malformed rows skipped so far.
    pub fn malformed_rows(&self) -> (n: u64)
        ensures
            n == self@.malformed_rows,
    {
        self.malformed_rows
    }

    /// The figures to report, as they stand.
    pub fn summary(&self) -> (s: RunSummary)
        requires
            self.wf(),
        ensures
            s.counters@ == self@.counters,
            s.malformed_rows == self@.malformed_rows,
            s.counters@.balanced(),
            s.counters@.unique == self@.seen.len(),
    {
        RunSummary { counters: self.counters, malformed_rows: self.malformed_rows }
    }

    /// The number of records buffered for the next batch.
    pub fn pending_len(&self) -> (n: usize)
        ensures
            n == self@.pending.len(),
    {
        self.pending.len()
    }

    /// Whether the pass can take one more record without a counter running
    /// over.
    pub fn has_room(&self) -> (r: bool)
        ensures
            r == (self@.counters.records + self@.pending.len() < u64::MAX),
    {
        (self.pending.len() as u64) < u64::MAX - self.counters.records
    }

    /// Takes the next well-formed record of the stream. A record that the
    /// extension filter rejects is discarded; any other joins the batch.
    /// The result says whether the batch is full and has to be flushed.
    pub fn offer(&mut self, record: Record) -> (flush_due: bool)
        requires
            old(self).wf(),
            old(self)@.counters.records + old(self)@.pending.len() < u64::MAX,
        ensures
            final(self).wf(),
            final(self)@ == (PassState {
                pending: if retained(
                    old(self)@.filter,
                    old(self)@.extension_column,
                    record@,
                ) {
                    old(self)@.pending.push(record@)
                } else {
                    old(self)@.pending
                },
                ..old(self)@
            }),
            flush_due == (final(self)@.pending.len() >= BATCH_SIZE),
    {
        if retains(&self.filter, self.extension_column, &record) {
            let ghost before = rows(self.pending@);
            self.pending.push(record);
            assert(rows(self.pending@) =~= before.push(record@));
        }
        self.pending.len() >= BATCH_SIZE
    }

    /// Takes note of a malformed row, which is skipped. The run is over
    /// with an error once more rows were skipped than it puts up with.
    pub fn note_malformed(&mut self) -> (r: Result<(), TooManyMalformedRows>)
        requires
            old(self).wf(),
        ensures
            final(self).wf(),
            final(self)@ == (PassState {
                malformed_rows: malformed_after(old(self)@.malformed_rows),
                ..old(self)@
            }),
            r is Err <==> final(self)@.malformed_rows > MALFORMED_ROW_LIMIT,
            r matches Err(e) ==> e.skipped == final(self)@.malformed_rows,
    {
        if self.malformed_rows <= MALFORMED_ROW_LIMIT {
            self.malformed_rows = self.malformed_rows + 1;
        }
        if self.malformed_rows > MALFORMED_ROW_LIMIT {
            Err(TooManyMalformedRows { skipped: self.malformed_rows })
        } else {
            Ok(())
        }
    }

    /// Classifies the buffered records and empties the buffer. The report
    /// asks for no commit.
    fn drain(&mut self, lookup: &mut Lookup<'_>) -> (report: BatchReport)
        requires
            old(self).wf(),
        ensures
            final(self).wf(),
            rows(report.records@) == old(self)@.pending,
            possible_outcome(old(self)@.seen, old(self)@.pending, report.decisions@),
            failure_positions(report.failures@) == failed_at(report.decisions@),
            !report.commit_due,
            final(self)@ == (PassState {
                pending: Seq::empty(),
                seen: seen_after(old(self)@.seen, old(self)@.pending),
                counters: old(self)@.counters.plus(tally(report.decisions@)),
                ..old(self)@
            }),
    {
        let mut batch: Vec<Record> = Vec::new();
        std::mem::swap(&mut self.pending, &mut batch);
        let outcome = process_batch(&batch, lookup, &mut self.counters, &mut self.seen);
        assert(rows(self.pending@) =~= Seq::empty());
        BatchReport {
            records: batch,
            decisions: outcome.decisions,
            failures: outcome.failures,
            commit_due: false,
        }
    }

    /// Classifies the buffered records as one batch. The report asks for a
    /// commit after every `COMMIT_INTERVAL` batches. With nothing buffered
    /// nothing happens.
    pub fn flush(&mut self, lookup: &mut Lookup<'_>) -> (report: BatchReport)
        requires
            old(self).wf(),
        ensures
            final(self).wf(),
            rows(report.records@) == old(self)@.pending,
            possible_outcome(old(self)@.seen, old(self)@.pending, report.decisions@),
            failure_positions(report.failures@) == failed_at(report.decisions@),
            report.commit_due == commit_follows(
                old(self)@.uncommitted_batches,
                old(self)@.pending.len(),
            ),
            final(self)@ == (PassState {
                pending: Seq::empty(),
                seen: seen_after(old(self)@.seen, old(self)@.pending),
                counters: old(self)@.counters.plus(tally(report.decisions@)),
                uncommitted_batches: if old(self)@.pending.len() == 0 {
                    old(self)@.uncommitted_batches
                } else if report.commit_due {
                    0
                } else {
                    old(self)@.uncommitted_batches + 1
                },
                ..old(self)@
            }),
    {
        let empty = self.pending.len() == 0;
        let mut report = self.drain(lookup);
        if !empty {
            if self.uncommitted_batches + 1 >= COMMIT_INTERVAL {
                report.commit_due = true;
                self.uncommitted_batches = 0;
            } else {
                self.uncommitted_batches = self.uncommitted_batches + 1;
            }
        }
        report
    }

    /// Classifies what is left in the buffer at the end of the stream. The
    /// report always asks for a commit.
    pub fn finish(&mut self, lookup: &mut Lookup<'_>) -> (report: BatchReport)
        requires
            old(self).wf(),
        ensures
            final(self).wf(),
            rows(report.records@) == old(self)@.pending,
            possible_outcome(old(self)@.seen, old(self)@.pending, report.decisions@),
            failure_positions(report.failures@) == failed_at(report.decisions@),
            report.commit_due,
            final(self)@ == (PassState {
                pending: Seq::empty(),
                seen: seen_after(old(self)@.seen, old(self)@.pending),
                counters: old(self)@.counters.plus(tally(report.decisions@)),
                uncommitted_batches: 0,
                ..old(self)@
            }),
    {
        let mut report = self.drain(lookup);
        self.uncommitted_batches = 0;
        report.commit_due = true;
        report
    }
}

} // verus!
