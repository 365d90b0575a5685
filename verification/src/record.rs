//! Input records: rows of text fields in fixed column positions.

use vstd::prelude::*;

verus! {

/// Position of the MD5 digest in a record.
pub const MD5_COLUMN: usize = 6;

/// Position of the SHA-1 digest in a record.
pub const SHA1_COLUMN: usize = 7;

/// Position of the extension where the header names no `Extension` column.
pub const DEFAULT_EXTENSION_COLUMN: usize = 2;

/// One row of the input: its fields, in column order.
#[derive(Debug)]
pub struct Record {
    pub fields: Vec<String>,
}

impl View for Record {
    type V = Seq<Seq<char>>;

    open spec fn view(&self) -> Seq<Seq<char>> {
        Seq::new(self.fields@.len(), |i: int| self.fields@[i]@)
    }
}

/// The text in column `index` of `record`; empty where the record is shorter.
pub open spec fn field_at(record: Seq<Seq<char>>, index: int) -> Seq<char> {
    if 0 <= index < record.len() {
        record[index]
    } else {
        Seq::empty()
    }
}

/// The records of a batch as plain text.
pub open spec fn rows(records: Seq<Record>) -> Seq<Seq<Seq<char>>> {
    Seq::new(records.len(), |i: int| records[i]@)
}

impl Record {
    pub fn new(fields: Vec<String>) -> (r: Record)
        ensures
            r.fields == fields,
    {
        Record { fields }
    }

    /// The number of fields.
    pub fn len(&self) -> (n: usize)
        ensures
            n == self@.len(),
    {
        self.fields.len()
    }

    /// The text in column `index`, or the empty string where there is no
    /// such column.
    pub fn field(&self, index: usize) -> (r: &str)
        ensures
            r@ == field_at(self@, index as int),
    {
        if index < self.fields.len() {
            self.fields[index].as_str()
        } else {
            proof {
                reveal_strlit("");
            }
            ""
        }
    }
}

} // verus!
