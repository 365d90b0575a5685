//! The classification of a stream of records: what is decided for each
//! record, what is counted, and what a batch of lookups leaves behind.

use vstd::prelude::*;
use vstd::hash_set::StringHashSet;
use crate::identity::{identity_of, key_of, record_identity, HashIdentity};
use crate::laws::lemma_new_keys_counted;
use crate::record::{rows, Record};
use crate::store::{query_pair, Lookup};

verus! {

/// What was decided for one record.
#[derive(Debug, Clone, Copy, PartialEq, Eq, Structural)]
pub enum Decision {
    /// The record carries no digest: unknown, and never looked up.
    NoIdentity,
    /// The record's key was seen before: it goes to neither output.
    Duplicate,
    /// The store holds the record's digests.
    Known,
    /// The store does not hold the record's digests.
    Unknown,
    /// The lookup failed: the record counts as unknown, and as an error.
    LookupFailed,
}

/// The output a record goes to.
#[derive(Debug, Clone, Copy, PartialEq, Eq, Structural)]
pub enum Route {
    Known,
    Unknown,
    Dropped,
}

/// What is to be done with a record before any lookup.
#[derive(Debug)]
pub enum Step {
    /// No digest: the record is unknown without a lookup.
    NoIdentity,
    /// A key seen before: the record is dropped without a lookup.
    Duplicate,
    /// A new key: the store is asked for this identity.
    Lookup(HashIdentity),
}

/// A lookup that the store did not answer.
#[derive(Debug)]
pub struct LookupFailure {
    /// The position in its batch of the record that was looked up.
    pub record: usize,
    /// What the store reported.
    pub error: rusqlite::Error,
}

/// What the classification of a batch gave.
#[derive(Debug)]
pub struct BatchOutcome {
    /// The decision for each record of the batch.
    pub decisions: Vec<Decision>,
    /// The lookups that failed, in the order of their records.
    pub failures: Vec<LookupFailure>,
}

/// The counters of a run as unbounded numbers.
pub ghost struct Tally {
    pub records: nat,
    pub unique: nat,
    pub empty_hash: nat,
    pub known: nat,
    pub unknown: nat,
    pub duplicates: nat,
    pub lookup_errors: nat,
}

/// The counters of a run.
#[derive(Debug, Clone, Copy, PartialEq, Eq, Structural)]
pub struct Counters {
    /// Records classified.
    pub records: u64,
    /// Keys met for the first time.
    pub unique: u64,
    /// Records without any digest.
    pub empty_hash: u64,
    /// Records routed to the known output.
    pub known: u64,
    /// Records routed to the unknown output.
    pub unknown: u64,
    /// Records dropped because their key was seen before.
    pub duplicates: u64,
    /// Lookups that failed.
    pub lookup_errors: u64,
}

impl View for Counters {
    type V = Tally;

    open spec fn view(&self) -> Tally {
        Tally {
            records: self.records as nat,
            unique: self.unique as nat,
            empty_hash: self.empty_hash as nat,
            known: self.known as nat,
            unknown: self.unknown as nat,
            duplicates: self.duplicates as nat,
            lookup_errors: self.lookup_errors as nat,
        }
    }
}

/// The output that a decision sends its record to.
pub open spec fn route_of(d: Decision) -> Route {
    match d {
        Decision::Known => Route::Known,
        Decision::Duplicate => Route::Dropped,
        Decision::NoIdentity => Route::Unknown,
        Decision::Unknown => Route::Unknown,
        Decision::LookupFailed => Route::Unknown,
    }
}

/// Whether a decision is one that follows a lookup.
pub open spec fn looked_up(d: Decision) -> bool {
    d == Decision::Known || d == Decision::Unknown || d == Decision::LookupFailed
}

/// What the answer of the store means for a record with a new key: known
/// only where the store said yes, a failure where it gave no answer.
pub open spec fn decision_for(answer: Result<bool, rusqlite::Error>) -> Decision {
    match answer {
        Ok(true) => Decision::Known,
        Ok(false) => Decision::Unknown,
        Err(_) => Decision::LookupFailed,
    }
}

impl Tally {
    pub open spec fn zero() -> Tally {
        Tally {
            records: 0,
            unique: 0,
            empty_hash: 0,
            known: 0,
            unknown: 0,
            duplicates: 0,
            lookup_errors: 0,
        }
    }

    /// The counters after one more decision.
    pub open spec fn bump(self, d: Decision) -> Tally {
        match d {
            Decision::NoIdentity => Tally {
                records: self.records + 1,
                unknown: self.unknown + 1,
                empty_hash: self.empty_hash + 1,
                ..self
            },
            Decision::Duplicate => Tally {
                records: self.records + 1,
                duplicates: self.duplicates + 1,
                ..self
            },
            Decision::Known => Tally {
                records: self.records + 1,
                unique: self.unique + 1,
                known: self.known + 1,
                ..self
            },
            Decision::Unknown => Tally {
                records: self.records + 1,
                unique: self.unique + 1,
                unknown: self.unknown + 1,
                ..self
            },
            Decision::LookupFailed => Tally {
                records: self.records + 1,
                unique: self.unique + 1,
                unknown: self.unknown + 1,
                lookup_errors: self.lookup_errors + 1,
                ..self
            },
        }
    }

    /// The counters of two stretches of a run, added up.
    pub open spec fn plus(self, other: Tally) -> Tally {
        Tally {
            records: self.records + other.records,
            unique: self.unique + other.unique,
            empty_hash: self.empty_hash + other.empty_hash,
            known: self.known + other.known,
            unknown: self.unknown + other.unknown,
            duplicates: self.duplicates + other.duplicates,
            lookup_errors: self.lookup_errors + other.lookup_errors,
        }
    }

    /// What holds of the counters of every run: each record is known,
    /// unknown or a duplicate; the records routed to an output are the
    /// first occurrences of a key and the records without a digest; a
    /// record without a digest or with a failed lookup is unknown.
    pub open spec fn balanced(self) -> bool {
        &&& self.records == self.known + self.unknown + self.duplicates
        &&& self.known + self.unknown == self.unique + self.empty_hash
        &&& self.empty_hash + self.lookup_errors <= self.unknown
    }
}

/// The counters that a sequence of decisions adds up to.
pub open spec fn tally(decisions: Seq<Decision>) -> Tally
    decreases decisions.len(),
{
    if decisions.len() == 0 {
        Tally::zero()
    } else {
        tally(decisions.drop_last()).bump(decisions.last())
    }
}

/// The keys seen once `record` has been met.
pub open spec fn seen_with(seen: Set<Seq<char>>, record: Seq<Seq<char>>) -> Set<Seq<char>> {
    match key_of(record) {
        Some(key) => seen.insert(key),
        None => seen,
    }
}

/// The keys seen once all of `records` have been met, in order.
pub open spec fn seen_after(seen: Set<Seq<char>>, records: Seq<Seq<Seq<char>>>) -> Set<Seq<char>>
    decreases records.len(),
{
    if records.len() == 0 {
        seen
    } else {
        seen_with(seen_after(seen, records.drop_last()), records.last())
    }
}

/// Whether `d` can be the decision for `record` when the keys in `seen`
/// were met before: the store has a say only for a key that is new.
pub open spec fn expected(seen: Set<Seq<char>>, record: Seq<Seq<char>>, d: Decision) -> bool {
    match identity_of(record) {
        None => d == Decision::NoIdentity,
        Some(id) => if seen.contains(id.key) {
            d == Decision::Duplicate
        } else {
            looked_up(d)
        },
    }
}

/// Whether `decisions` can be what a run decides for `records`, one by one
/// and in order, when it starts with the keys in `seen`.
pub open spec fn possible_outcome(
    seen: Set<Seq<char>>,
    records: Seq<Seq<Seq<char>>>,
    decisions: Seq<Decision>,
) -> bool {
    &&& decisions.len() == records.len()
    &&& forall|i: int|
        0 <= i < records.len() ==> expected(
            seen_after(seen, records.take(i)),
            records[i],
            #[trigger] decisions[i],
        )
}

/// The positions of the decisions that record a failed lookup, in order.
pub open spec fn failed_at(decisions: Seq<Decision>) -> Seq<int>
    decreases decisions.len(),
{
    if decisions.len() == 0 {
        Seq::empty()
    } else if decisions.last() == Decision::LookupFailed {
        failed_at(decisions.drop_last()).push(decisions.len() - 1)
    } else {
        failed_at(decisions.drop_last())
    }
}

/// The positions that a list of failures names, in order.
pub open spec fn failure_positions(failures: Seq<LookupFailure>) -> Seq<int> {
    Seq::new(failures.len(), |k: int| failures[k].record as int)
}

/// What the classification of a batch leaves behind: the decisions are a
/// possible outcome for its records, the keys of its records are seen, and
/// its decisions are counted.
pub open spec fn classified(
    seen: Set<Seq<char>>,
    counted: Tally,
    records: Seq<Seq<Seq<char>>>,
    decisions: Seq<Decision>,
    seen_then: Set<Seq<char>>,
    counted_then: Tally,
) -> bool {
    &&& possible_outcome(seen, records, decisions)
    &&& seen_then == seen_after(seen, records)
    &&& counted_then == counted.plus(tally(decisions))
}

impl Decision {
    /// The output that the record goes to.
    pub fn route(&self) -> (r: Route)
        ensures
            r == route_of(*self),
    {
        match self {
            Decision::Known => Route::Known,
            Decision::Duplicate => Route::Dropped,
            Decision::NoIdentity => Route::Unknown,
            Decision::Unknown => Route::Unknown,
            Decision::LookupFailed => Route::Unknown,
        }
    }
}

impl Counters {
    /// Counters of a run that has classified nothing yet.
    pub fn new() -> (c: Counters)
        ensures
            c@ == Tally::zero(),
            c@.balanced(),
    {
        Counters {
            records: 0,
            unique: 0,
            empty_hash: 0,
            known: 0,
            unknown: 0,
            duplicates: 0,
            lookup_errors: 0,
        }
    }

    /// Counts one decision.
    pub fn count(&mut self, d: Decision)
        requires
            old(self)@.balanced(),
            old(self).records < u64::MAX,
        ensures
            final(self)@ == old(self)@.bump(d),
            final(self)@.balanced(),
    {
        self.records = self.records + 1;
        match d {
            Decision::NoIdentity => {
                self.unknown = self.unknown + 1;
                self.empty_hash = self.empty_hash + 1;
            },
            Decision::Duplicate => {
                self.duplicates = self.duplicates + 1;
            },
            Decision::Known => {
                self.unique = self.unique + 1;
                self.known = self.known + 1;
            },
            Decision::Unknown => {
                self.unique = self.unique + 1;
                self.unknown = self.unknown + 1;
            },
            Decision::LookupFailed => {
                self.unique = self.unique + 1;
                self.unknown = self.unknown + 1;
                self.lookup_errors = self.lookup_errors + 1;
            },
        }
    }
}

/// Decides what is to be done with `record` before any lookup, and records
/// its key as seen.
pub fn next_step(record: &Record, seen: &mut StringHashSet) -> (step: Step)
    ensures
        final(seen)@ == seen_with(old(seen)@, record@),
        match step {
            Step::NoIdentity => identity_of(record@) is None,
            Step::Duplicate => identity_of(record@) matches Some(id) && old(seen)@.contains(
                id.key,
            ),
            Step::Lookup(found) => identity_of(record@) == Some(found@) && !old(seen)@.contains(
                found@.key,
            ),
        },
{
    match record_identity(record) {
        None => Step::NoIdentity,
        Some(identity) => {
            let fresh = seen.insert(identity.key.clone());
            if fresh {
                Step::Lookup(identity)
            } else {
                Step::Duplicate
            }
        },
    }
}

/// Turns the answer of the store into the decision for a record with a new
/// key.
pub fn settle(answer: &Result<bool, rusqlite::Error>) -> (d: Decision)
    ensures
        d == decision_for(*answer),
{
    match answer {
        Ok(present) => if *present {
            Decision::Known
        } else {
            Decision::Unknown
        },
        Err(_) => Decision::LookupFailed,
    }
}

/// Classifies the records of a batch in order. A record without a digest is
/// unknown and a record whose key was seen is dropped, both without a
/// lookup; for every other record the store is asked once, through
/// `lookup`, with the primary and the secondary digest of its identity. A lookup
/// that fails makes its record unknown and is handed back with its error;
/// it never ends the batch.
pub fn process_batch(
    batch: &Vec<Record>,
    lookup: &mut Lookup<'_>,
    counters: &mut Counters,
    processed_hashes: &mut StringHashSet,
) -> (outcome: BatchOutcome)
    requires
        old(counters)@.balanced(),
        old(counters).records + batch@.len() <= u64::MAX,
    ensures
        classified(
            old(processed_hashes)@,
            old(counters)@,
            rows(batch@),
            outcome.decisions@,
            final(processed_hashes)@,
            final(counters)@,
        ),
        final(counters)@.balanced(),
        failure_positions(outcome.failures@) == failed_at(outcome.decisions@),
        old(processed_hashes)@.finite() ==> final(processed_hashes)@.finite(),
        old(processed_hashes)@.finite() ==> final(processed_hashes)@.len() == old(
            processed_hashes,
        )@.len() + tally(outcome.decisions@).unique,
{
    let ghost records = rows(batch@);
    let ghost seen0 = processed_hashes@;
    let ghost counted0 = counters@;
    let mut decisions: Vec<Decision> = Vec::new();
    let mut failures: Vec<LookupFailure> = Vec::new();
    let mut i: usize = 0;
    assert(records.take(0) =~= Seq::empty());
    assert(failure_positions(failures@) =~= failed_at(decisions@));
    while i < batch.len()
        invariant
            0 <= i <= batch@.len(),
            records == rows(batch@),
            decisions@.len() == i,
            processed_hashes@ == seen_after(seen0, records.take(i as int)),
            forall|j: int|
                0 <= j < i ==> expected(
                    seen_after(seen0, records.take(j)),
                    records[j],
                    #[trigger] decisions@[j],
                ),
            counters@ == counted0.plus(tally(decisions@)),
            counters@.balanced(),
            tally(decisions@).records == i,
            failure_positions(failures@) == failed_at(decisions@),
            counted0.records + batch@.len() <= u64::MAX,
        decreases batch@.len() - i,
    {
        let ghost before = decisions@;
        let ghost failed_before = failures@;
        let record = &batch[i];
        assert(record@ == records[i as int]);
        let decision = match next_step(record, processed_hashes) {
            Step::NoIdentity => Decision::NoIdentity,
            Step::Duplicate => Decision::Duplicate,
            Step::Lookup(identity) => {
                let answer = query_pair(
                    lookup,
                    identity.primary.as_str(),
                    identity.secondary.as_str(),
                );
                let decision = settle(&answer);
                match answer {
                    Ok(_) => {},
                    Err(error) => {
                        failures.push(LookupFailure { record: i, error });
                    },
                }
                decision
            },
        };
        counters.count(decision);
        decisions.push(decision);
        proof {
            assert(records.take(i + 1).drop_last() =~= records.take(i as int));
            assert(records.take(i + 1).last() == records[i as int]);
            assert(decisions@.drop_last() =~= before);
            if decision == Decision::LookupFailed {
                assert(failure_positions(failures@) =~= failure_positions(failed_before).push(
                    i as int,
                ));
            } else {
                assert(failure_positions(failures@) =~= failure_positions(failed_before));
            }
        }
        i += 1;
    }
    proof {
        assert(records.take(batch@.len() as int) =~= records);
        if seen0.finite() {
            lemma_new_keys_counted(seen0, records, decisions@);
        }
    }
    BatchOutcome { decisions, failures }
}

} // verus!
