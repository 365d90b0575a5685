//! The extension filter: which records a run keeps, by the text in their
//! extension column.

use vstd::prelude::*;
use crate::record::{field_at, Record, DEFAULT_EXTENSION_COLUMN};
use crate::text::{
    eq_ignore_ascii_case, lowercased, same_ignoring_ascii_case, strip_leading_dots, to_lowercase,
    trim, trimmed, without_leading_dots,
};

verus! {

/// An extension as the caller wrote it, brought to the form the filter
/// stores: leading dots removed, then lower case.
pub open spec fn normalized_entry(raw: Seq<char>) -> Seq<char> {
    lowercased(without_leading_dots(raw))
}

/// Whether one stored entry accepts an extension that is trimmed and in
/// lower case already: the two agree, leading dots and the case of ASCII
/// letters aside.
pub open spec fn entry_accepts(entry: Seq<char>, lowered: Seq<char>) -> bool {
    same_ignoring_ascii_case(without_leading_dots(entry), without_leading_dots(lowered))
}

/// Whether any of the stored entries accepts an extension that is trimmed
/// and in lower case already.
pub open spec fn accepts(entries: Seq<Seq<char>>, lowered: Seq<char>) -> bool {
    exists|i: int| 0 <= i < entries.len() && entry_accepts(#[trigger] entries[i], lowered)
}

/// Whether one stored entry accepts a record's extension field.
pub open spec fn entry_matches(entry: Seq<char>, field: Seq<char>) -> bool {
    entry_accepts(entry, lowercased(trimmed(field)))
}

/// Whether any of the stored entries accepts a record's extension field.
pub open spec fn filter_matches(entries: Seq<Seq<char>>, field: Seq<char>) -> bool {
    accepts(entries, lowercased(trimmed(field)))
}

/// Whether a run with the given filter keeps `record`: every record where
/// there is no filter, else those whose extension column matches.
pub open spec fn retained(
    filter: Option<Seq<Seq<char>>>,
    column: int,
    record: Seq<Seq<char>>,
) -> bool {
    match filter {
        None => true,
        Some(entries) => filter_matches(entries, field_at(record, column)),
    }
}

/// The records of a stream that a run with the given filter keeps, in
/// order.
pub open spec fn kept(
    filter: Option<Seq<Seq<char>>>,
    column: int,
    records: Seq<Seq<Seq<char>>>,
) -> Seq<Seq<Seq<char>>>
    decreases records.len(),
{
    if records.len() == 0 {
        records
    } else if retained(filter, column, records.last()) {
        kept(filter, column, records.drop_last()).push(records.last())
    } else {
        kept(filter, column, records.drop_last())
    }
}

/// Whether a header names the extension column.
pub open spec fn is_extension_header(header: Seq<char>) -> bool {
    same_ignoring_ascii_case(header, "Extension"@)
}

/// The column that holds the extension: the first whose header is
/// `Extension` in any case, else the default position.
pub open spec fn extension_column_of(headers: Seq<Seq<char>>) -> int {
    if exists|i: int| 0 <= i < headers.len() && is_extension_header(#[trigger] headers[i]) {
        choose|i: int|
            0 <= i < headers.len() && is_extension_header(#[trigger] headers[i]) && forall|j: int|
                0 <= j < i ==> !is_extension_header(#[trigger] headers[j])
    } else {
        DEFAULT_EXTENSION_COLUMN as int
    }
}

/// A non-empty list of extensions, each stored in normalized form.
#[derive(Debug)]
pub struct ExtensionFilter {
    pub entries: Vec<String>,
}

impl View for ExtensionFilter {
    type V = Seq<Seq<char>>;

    open spec fn view(&self) -> Seq<Seq<char>> {
        Seq::new(self.entries@.len(), |i: int| self.entries@[i]@)
    }
}

impl ExtensionFilter {
    /// Builds the filter for the extensions a caller names. No extensions
    /// mean no filter.
    pub fn from_extensions(raw: &Vec<String>) -> (r: Option<ExtensionFilter>)
        ensures
            r is None <==> raw@.len() == 0,
            r matches Some(filter) ==> {
                &&& filter@.len() == raw@.len()
                &&& forall|i: int|
                    0 <= i < raw@.len() ==> #[trigger] filter@[i] == normalized_entry(raw@[i]@)
            },
    {
        if raw.len() == 0 {
            return None;
        }
        let mut entries: Vec<String> = Vec::new();
        let mut i: usize = 0;
        while i < raw.len()
            invariant
                0 <= i <= raw@.len(),
                entries@.len() == i,
                forall|j: int| 0 <= j < i ==> (#[trigger] entries@[j])@ == normalized_entry(raw@[j]@),
            decreases raw@.len() - i,
        {
            let entry = to_lowercase(strip_leading_dots(raw[i].as_str()));
            entries.push(entry);
            i += 1;
        }
        Some(ExtensionFilter { entries })
    }

    /// Whether the filter accepts an extension that is trimmed and in lower
    /// case already.
    pub fn matches_lowered(&self, lowered: &str) -> (r: bool)
        ensures
            r == accepts(self@, lowered@),
    {
        let extension = strip_leading_dots(lowered);
        let mut i: usize = 0;
        while i < self.entries.len()
            invariant
                0 <= i <= self.entries@.len(),
                extension@ == without_leading_dots(lowered@),
                forall|j: int| 0 <= j < i ==> !entry_accepts(#[trigger] self@[j], lowered@),
            decreases self.entries@.len() - i,
        {
            let entry = strip_leading_dots(self.entries[i].as_str());
            if eq_ignore_ascii_case(entry, extension) {
                assert(entry_accepts(self@[i as int], lowered@));
                return true;
            }
            i += 1;
        }
        false
    }

    /// Whether the filter accepts the text of a record's extension column,
    /// which is trimmed and brought to lower case first.
    pub fn matches(&self, field: &str) -> (r: bool)
        ensures
            r == filter_matches(self@, field@),
    {
        let lowered = to_lowercase(trim(field));
        self.matches_lowered(lowered.as_str())
    }
}

/// Whether a run with `filter` keeps `record`, whose extension stands in
/// `column`.
pub fn retains(filter: &Option<ExtensionFilter>, column: usize, record: &Record) -> (r: bool)
    ensures
        r == retained(
            match filter {
                Some(f) => Some(f@),
                None => None,
            },
            column as int,
            record@,
        ),
{
    match filter {
        None => true,
        Some(f) => f.matches(record.field(column)),
    }
}

/// Finds the extension column from the header row.
pub fn extension_column(headers: &Record) -> (column: usize)
    ensures
        column == extension_column_of(headers@),
{
    let mut i: usize = 0;
    while i < headers.len()
        invariant
            0 <= i <= headers@.len(),
            forall|j: int| 0 <= j < i ==> !is_extension_header(#[trigger] headers@[j]),
        decreases headers@.len() - i,
    {
        if eq_ignore_ascii_case(headers.field(i), "Extension") {
            assert(is_extension_header(headers@[i as int]));
            return i;
        }
        i += 1;
    }
    DEFAULT_EXTENSION_COLUMN
}

} // verus!
