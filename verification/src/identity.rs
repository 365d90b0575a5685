//! The identity of a record: the digest it is deduplicated by and the pair
//! of digests sent to the reference store.

use vstd::prelude::*;
use crate::record::{field_at, Record, MD5_COLUMN, SHA1_COLUMN};
use crate::text::{trim, trimmed};

verus! {

/// The identity of a record that carries at least one digest.
#[derive(Debug)]
pub struct HashIdentity {
    /// The digest by which duplicates are recognised.
    pub key: String,
    /// The digest compared with the store's `sha1` column.
    pub primary: String,
    /// The digest compared with the store's `md5` column.
    pub secondary: String,
}

/// A `HashIdentity` as plain text.
pub ghost struct Identity {
    pub key: Seq<char>,
    pub primary: Seq<char>,
    pub secondary: Seq<char>,
}

impl View for HashIdentity {
    type V = Identity;

    open spec fn view(&self) -> Identity {
        Identity { key: self.key@, primary: self.primary@, secondary: self.secondary@ }
    }
}

/// The identity that two trimmed digests give: none where both are empty;
/// else SHA-1 before MD5 for the key and the primary value, MD5 before
/// SHA-1 for the secondary value.
pub open spec fn identity_from(md5: Seq<char>, sha1: Seq<char>) -> Option<Identity> {
    if md5.len() == 0 && sha1.len() == 0 {
        None
    } else {
        Some(
            Identity {
                key: if sha1.len() > 0 { sha1 } else { md5 },
                primary: if sha1.len() > 0 { sha1 } else { md5 },
                secondary: if md5.len() > 0 { md5 } else { sha1 },
            },
        )
    }
}

/// The identity that the two digest fields give, once they are trimmed.
pub open spec fn identity(md5: Seq<char>, sha1: Seq<char>) -> Option<Identity> {
    identity_from(trimmed(md5), trimmed(sha1))
}

/// The identity of a whole record, read from its two digest columns.
pub open spec fn identity_of(record: Seq<Seq<char>>) -> Option<Identity> {
    identity(field_at(record, MD5_COLUMN as int), field_at(record, SHA1_COLUMN as int))
}

/// The key of a record, where it has an identity.
pub open spec fn key_of(record: Seq<Seq<char>>) -> Option<Seq<char>> {
    match identity_of(record) {
        Some(id) => Some(id.key),
        None => None,
    }
}

/// Resolves the identity from the two digests as they stand, without
/// trimming them.
pub fn identity_from_trimmed(md5: &str, sha1: &str) -> (r: Option<HashIdentity>)
    ensures
        r is None <==> md5@.len() == 0 && sha1@.len() == 0,
        match r {
            Some(id) => identity_from(md5@, sha1@) == Some(id@),
            None => identity_from(md5@, sha1@) is None,
        },
{
    if md5.is_empty() && sha1.is_empty() {
        return None;
    }
    let key = if !sha1.is_empty() { sha1.to_owned() } else { md5.to_owned() };
    let primary = if !sha1.is_empty() { sha1.to_owned() } else { md5.to_owned() };
    let secondary = if !md5.is_empty() { md5.to_owned() } else { sha1.to_owned() };
    Some(HashIdentity { key, primary, secondary })
}

/// Resolves the identity of a record from its MD5 and SHA-1 fields, which
/// are trimmed first.
pub fn resolve_identity(md5: &str, sha1: &str) -> (r: Option<HashIdentity>)
    ensures
        match r {
            Some(id) => identity(md5@, sha1@) == Some(id@),
            None => identity(md5@, sha1@) is None,
        },
{
    identity_from_trimmed(trim(md5), trim(sha1))
}

/// Resolves the identity of `record` from its digest columns.
pub fn record_identity(record: &Record) -> (r: Option<HashIdentity>)
    ensures
        match r {
            Some(id) => identity_of(record@) == Some(id@),
            None => identity_of(record@) is None,
        },
{
    resolve_identity(record.field(MD5_COLUMN), record.field(SHA1_COLUMN))
}

} // verus!
