//! The scan that precedes classification: a first pass counts the records
//! and collects their keys, a second pass keeps the keys of the records
//! that an extension filter accepts.

use vstd::prelude::*;
use vstd::hash_set::StringHashSet;
use crate::classify::seen_with;
use crate::extension::{extension_column, extension_column_of, filter_matches, ExtensionFilter};
use crate::identity::{key_of, record_identity};
use crate::record::{field_at, Record};

verus! {

/// The state of the first pass as plain values.
pub ghost struct ScanState {
    /// The keys of the records met so far.
    pub unique: Set<Seq<char>>,
    /// The number of records met so far.
    pub total_records: nat,
}

/// The first pass in progress.
pub struct PreScan {
    unique: StringHashSet,
    total_records: u64,
}

/// The state of the second pass as plain values.
pub ghost struct NarrowState {
    /// The keys that the first pass found.
    pub unique: Set<Seq<char>>,
    /// The keys found so far on a record that the filter accepts.
    pub matching: Set<Seq<char>>,
    /// The entries of the extension filter.
    pub filter: Seq<Seq<char>>,
    /// The column that holds the extension.
    pub extension_column: int,
}

/// The second pass in progress.
pub struct Narrowing {
    unique: StringHashSet,
    matching: StringHashSet,
    filter: ExtensionFilter,
    extension_column: usize,
}

/// Whether the second pass keeps the key of `record`: the record has a key
/// that the first pass found, and the filter accepts its extension.
pub open spec fn qualifies(
    unique: Set<Seq<char>>,
    filter: Seq<Seq<char>>,
    column: int,
    record: Seq<Seq<char>>,
) -> bool {
    key_of(record) matches Some(key) && unique.contains(key) && filter_matches(
        filter,
        field_at(record, column),
    )
}

/// The keys kept once `record` has been met in the second pass.
pub open spec fn matching_with(
    matching: Set<Seq<char>>,
    unique: Set<Seq<char>>,
    filter: Seq<Seq<char>>,
    column: int,
    record: Seq<Seq<char>>,
) -> Set<Seq<char>> {
    if qualifies(unique, filter, column, record) {
        matching.insert(key_of(record)->0)
    } else {
        matching
    }
}

/// The keys kept once all of `records` have been met in the second pass,
/// in order.
pub open spec fn matching_after(
    matching: Set<Seq<char>>,
    unique: Set<Seq<char>>,
    filter: Seq<Seq<char>>,
    column: int,
    records: Seq<Seq<Seq<char>>>,
) -> Set<Seq<char>>
    decreases records.len(),
{
    if records.len() == 0 {
        matching
    } else {
        matching_with(
            matching_after(matching, unique, filter, column, records.drop_last()),
            unique,
            filter,
            column,
            records.last(),
        )
    }
}

impl View for PreScan {
    type V = ScanState;

    closed spec fn view(&self) -> ScanState {
        ScanState { unique: self.unique@, total_records: self.total_records as nat }
    }
}

impl View for Narrowing {
    type V = NarrowState;

    closed spec fn view(&self) -> NarrowState {
        NarrowState {
            unique: self.unique@,
            matching: self.matching@,
            filter: self.filter@,
            extension_column: self.extension_column as int,
        }
    }
}

impl PreScan {
    /// What holds of the first pass between any two records: no more keys
    /// than records.
    pub open spec fn wf(&self) -> bool {
        &&& self@.unique.finite()
        &&& self@.unique.len() <= self@.total_records
        &&& self@.total_records <= u64::MAX
    }

    /// Starts the first pass.
    pub fn new() -> (scan: PreScan)
        ensures
            scan.wf(),
            scan@ == (ScanState { unique: Set::empty(), total_records: 0 }),
    {
        PreScan { unique: StringHashSet::new(), total_records: 0 }
    }

    /// Takes the next record: counts it and collects its key, if it has
    /// one.
    pub fn observe(&mut self, record: &Record)
        requires
            old(self).wf(),
            old(self)@.total_records < u64::MAX,
        ensures
            final(self).wf(),
            final(self)@ == (ScanState {
                unique: seen_with(old(self)@.unique, record@),
                total_records: old(self)@.total_records + 1,
            }),
    {
        match record_identity(record) {
            Some(identity) => {
                self.unique.insert(identity.key);
            },
            None => {},
        }
        self.total_records = self.total_records + 1;
    }

    /// The number of records met so far.
    pub fn total_records(&self) -> (n: u64)
        ensures
            n == self@.total_records,
    {
        self.total_records
    }

    /// The number of distinct keys met so far.
    pub fn unique_count(&self) -> (n: usize)
        ensures
            n == self@.unique.len(),
    {
        self.unique.len()
    }

    /// Ends the first pass and starts the second one, over a stream with
    /// the given header row.
    pub fn narrow(self, filter: ExtensionFilter, headers: &Record) -> (pass: Narrowing)
        requires
            self.wf(),
        ensures
            pass.wf(),
            pass@ == (NarrowState {
                unique: self@.unique,
                matching: Set::empty(),
                filter: filter@,
                extension_column: extension_column_of(headers@),
            }),
    {
        Narrowing {
            unique: self.unique,
            matching: StringHashSet::new(),
            filter,
            extension_column: extension_column(headers),
        }
    }
}

impl Narrowing {
    /// What holds of the second pass between any two records: the keys it
    /// keeps are keys that the first pass found.
    pub open spec fn wf(&self) -> bool {
        &&& self@.unique.finite()
        &&& self@.matching.finite()
        &&& self@.matching.subset_of(self@.unique)
    }

    /// Takes the next record: keeps its key if the first pass found it and
    /// the filter accepts the record's extension.
    pub fn observe(&mut self, record: &Record)
        requires
            old(self).wf(),
        ensures
            final(self).wf(),
            final(self)@ == (NarrowState {
                matching: matching_with(
                    old(self)@.matching,
                    old(self)@.unique,
                    old(self)@.filter,
                    old(self)@.extension_column,
                    record@,
                ),
                ..old(self)@
            }),
    {
        match record_identity(record) {
            Some(identity) => {
                if self.unique.contains(identity.key.as_str()) && !self.matching.contains(
                    identity.key.as_str(),
                ) {
                    if self.filter.matches(record.field(self.extension_column)) {
                        self.matching.insert(identity.key);
                    }
                } else {
                    proof {
                        let key = identity.key@;
                        if self.matching@.contains(key) {
                            assert(self.matching@.insert(key) =~= self.matching@);
                        }
                    }
                }
            },
            None => {},
        }
    }

    /// The number of keys kept so far.
    pub fn matching_count(&self) -> (n: usize)
        ensures
            n == self@.matching.len(),
    {
        self.matching.len()
    }
}

} // verus!
