//! What holds of every run, whatever the records and whatever the store
//! answers.

use vstd::prelude::*;
use crate::classify::{
    classified, expected, failed_at, looked_up, possible_outcome, route_of, seen_after, tally,
    Decision, Route, Tally,
};
use crate::extension::{kept, retained};
use crate::identity::{identity_of, key_of, Identity};
use crate::record::{field_at, SHA1_COLUMN};
use crate::scan::{matching_after, matching_with, qualifies};
use crate::text::trimmed;

verus! {

/// A reference store seen from outside: its answer to a lookup of a
/// primary and a secondary digest, or none where the lookup fails.
pub type Store = spec_fn(Seq<char>, Seq<char>) -> Option<bool>;

/// One row of the reference relation.
pub ghost struct ReferenceRow {
    pub sha1: Seq<char>,
    pub md5: Seq<char>,
}

/// Whether the reference relation holds a row whose `sha1` is the primary
/// digest or whose `md5` is the secondary one.
pub open spec fn holds(rows: Set<ReferenceRow>, primary: Seq<char>, secondary: Seq<char>) -> bool {
    exists|row: ReferenceRow| #[trigger]
        rows.contains(row) && (row.sha1 == primary || row.md5 == secondary)
}

/// The store that answers every lookup, by the rows of its relation.
pub open spec fn reference_store(rows: Set<ReferenceRow>) -> Store {
    |primary: Seq<char>, secondary: Seq<char>| Some(holds(rows, primary, secondary))
}

/// The decision that the store's answer gives for a record with a new key.
pub open spec fn decision_under(store: Store, id: Identity) -> Decision {
    match store(id.primary, id.secondary) {
        Some(true) => Decision::Known,
        Some(false) => Decision::Unknown,
        None => Decision::LookupFailed,
    }
}

/// The decision for `record` when the keys in `seen` were met before and
/// `store` answers the lookups.
pub open spec fn decide(seen: Set<Seq<char>>, record: Seq<Seq<char>>, store: Store) -> Decision {
    match identity_of(record) {
        None => Decision::NoIdentity,
        Some(id) => if seen.contains(id.key) {
            Decision::Duplicate
        } else {
            decision_under(store, id)
        },
    }
}

/// The decisions of a run over `records` that starts with the keys in
/// `seen`, with `store` answering the lookups.
pub open spec fn decisions_under(
    seen: Set<Seq<char>>,
    records: Seq<Seq<Seq<char>>>,
    store: Store,
) -> Seq<Decision> {
    Seq::new(
        records.len(),
        |i: int| decide(seen_after(seen, records.take(i)), records[i], store),
    )
}

/// Whether every decision that followed a lookup is the one that the
/// answer of `store` gives.
pub open spec fn faithful(
    records: Seq<Seq<Seq<char>>>,
    decisions: Seq<Decision>,
    store: Store,
) -> bool {
    forall|i: int|
        0 <= i < records.len() && looked_up(#[trigger] decisions[i]) && identity_of(
            records[i],
        ) is Some ==> decisions[i] == decision_under(store, identity_of(records[i])->0)
}

/// The number of records that carry no digest.
pub open spec fn without_identity(records: Seq<Seq<Seq<char>>>) -> nat
    decreases records.len(),
{
    if records.len() == 0 {
        0
    } else {
        without_identity(records.drop_last()) + if identity_of(records.last()) is None {
            1nat
        } else {
            0nat
        }
    }
}

/// The counters of any decisions are balanced: known and unknown records
/// together are the first occurrences of a key and the records without a
/// digest, and every record is known, unknown or a duplicate.
pub proof fn lemma_tally_balanced(decisions: Seq<Decision>)
    ensures
        tally(decisions).balanced(),
        tally(decisions).records == decisions.len(),
        tally(decisions).known + tally(decisions).unknown == tally(decisions).unique + tally(
            decisions,
        ).empty_hash,
    decreases decisions.len(),
{
    if decisions.len() > 0 {
        lemma_tally_balanced(decisions.drop_last());
    }
}

/// The keys met after a stretch of records are finitely many, and as many
/// more than before as the decisions count first occurrences.
pub proof fn lemma_new_keys_counted(
    seen: Set<Seq<char>>,
    records: Seq<Seq<Seq<char>>>,
    decisions: Seq<Decision>,
)
    requires
        seen.finite(),
        possible_outcome(seen, records, decisions),
    ensures
        seen_after(seen, records).finite(),
        seen_after(seen, records).len() == seen.len() + tally(decisions).unique,
    decreases records.len(),
{
    if records.len() > 0 {
        let front = records.drop_last();
        lemma_front_is_possible(seen, records, decisions);
        lemma_new_keys_counted(seen, front, decisions.drop_last());
        let before = seen_after(seen, front);
        let n = records.len() - 1;
        assert(records.take(n) =~= front);
        assert(expected(before, records[n], decisions[n]));
        match key_of(records.last()) {
            Some(key) => {
                if before.contains(key) {
                    assert(before.insert(key) =~= before);
                }
            },
            None => {},
        }
    }
}

/// The counters of two stretches of decisions add up.
pub proof fn lemma_tally_adds_up(first: Seq<Decision>, second: Seq<Decision>)
    ensures
        tally(first + second) == tally(first).plus(tally(second)),
    decreases second.len(),
{
    if second.len() == 0 {
        assert(first + second =~= first);
    } else {
        assert((first + second).drop_last() =~= first + second.drop_last());
        assert((first + second).last() == second.last());
        lemma_tally_adds_up(first, second.drop_last());
    }
}

/// The keys met after two stretches of records are those met after the
/// second stretch, starting from what the first one left.
pub proof fn lemma_seen_after_concat(
    seen: Set<Seq<char>>,
    first: Seq<Seq<Seq<char>>>,
    second: Seq<Seq<Seq<char>>>,
)
    ensures
        seen_after(seen, first + second) == seen_after(seen_after(seen, first), second),
    decreases second.len(),
{
    if second.len() == 0 {
        assert(first + second =~= first);
    } else {
        assert((first + second).drop_last() =~= first + second.drop_last());
        assert((first + second).last() == second.last());
        lemma_seen_after_concat(seen, first, second.drop_last());
    }
}

/// A key is met after a stretch of records exactly when it was met before
/// or is the key of one of the records.
pub proof fn lemma_seen_after_membership(
    seen: Set<Seq<char>>,
    records: Seq<Seq<Seq<char>>>,
    key: Seq<char>,
)
    ensures
        seen_after(seen, records).contains(key) <==> seen.contains(key) || exists|i: int|
            0 <= i < records.len() && key_of(#[trigger] records[i]) == Some(key),
    decreases records.len(),
{
    if records.len() > 0 {
        let front = records.drop_last();
        let n = records.len() - 1;
        lemma_seen_after_membership(seen, front, key);
        if seen_after(seen, records).contains(key) {
            if seen_after(seen, front).contains(key) {
                if !seen.contains(key) {
                    let i = choose|i: int|
                        0 <= i < front.len() && key_of(#[trigger] front[i]) == Some(key);
                    assert(key_of(records[i]) == Some(key));
                }
            } else {
                assert(key_of(records[n]) == Some(key));
            }
        }
        if exists|i: int| 0 <= i < records.len() && key_of(#[trigger] records[i]) == Some(key) {
            let i = choose|i: int|
                0 <= i < records.len() && key_of(#[trigger] records[i]) == Some(key);
            if i < n {
                assert(key_of(front[i]) == Some(key));
            }
        }
    }
}

/// Classifying a stream batch by batch decides what classifying it in one
/// piece decides: the decisions of two consecutive batches, put together,
/// are a possible outcome for the two batches put together.
pub proof fn lemma_batches_compose(
    seen: Set<Seq<char>>,
    first: Seq<Seq<Seq<char>>>,
    second: Seq<Seq<Seq<char>>>,
    first_decisions: Seq<Decision>,
    second_decisions: Seq<Decision>,
)
    requires
        possible_outcome(seen, first, first_decisions),
        possible_outcome(seen_after(seen, first), second, second_decisions),
    ensures
        possible_outcome(seen, first + second, first_decisions + second_decisions),
        seen_after(seen, first + second) == seen_after(seen_after(seen, first), second),
        tally(first_decisions + second_decisions) == tally(first_decisions).plus(
            tally(second_decisions),
        ),
{
    let records = first + second;
    let decisions = first_decisions + second_decisions;
    assert forall|i: int| 0 <= i < records.len() implies expected(
        seen_after(seen, records.take(i)),
        records[i],
        #[trigger] decisions[i],
    ) by {
        if i < first.len() {
            assert(records.take(i) =~= first.take(i));
            assert(decisions[i] == first_decisions[i]);
        } else {
            let j = i - first.len();
            assert(records.take(i) =~= first + second.take(j));
            lemma_seen_after_concat(seen, first, second.take(j));
            assert(decisions[i] == second_decisions[j]);
            assert(records[i] == second[j]);
        }
    }
    lemma_seen_after_concat(seen, first, second);
    lemma_tally_adds_up(first_decisions, second_decisions);
}

/// A record without any digest is unknown, and the records without a
/// digest are what the empty-hash counter counts. (No lookup is made for
/// such a record: see `next_step`.)
pub proof fn lemma_no_identity_is_unknown(
    seen: Set<Seq<char>>,
    records: Seq<Seq<Seq<char>>>,
    decisions: Seq<Decision>,
)
    requires
        possible_outcome(seen, records, decisions),
    ensures
        forall|i: int|
            0 <= i < records.len() && identity_of(records[i]) is None ==> #[trigger] decisions[i]
                == Decision::NoIdentity && route_of(decisions[i]) == Route::Unknown,
        tally(decisions).empty_hash == without_identity(records),
    decreases records.len(),
{
    if records.len() > 0 {
        let front = records.drop_last();
        let decided = decisions.drop_last();
        lemma_front_is_possible(seen, records, decisions);
        lemma_no_identity_is_unknown(seen, front, decided);
        let n = records.len() - 1;
        assert(records.take(n) =~= front);
        assert(expected(seen_after(seen, front), records[n], decisions[n]));
    }
}

/// What was decided for all but the last record is a possible outcome for
/// all but the last record.
pub proof fn lemma_front_is_possible(
    seen: Set<Seq<char>>,
    records: Seq<Seq<Seq<char>>>,
    decisions: Seq<Decision>,
)
    requires
        possible_outcome(seen, records, decisions),
        records.len() > 0,
    ensures
        possible_outcome(seen, records.drop_last(), decisions.drop_last()),
{
    let front = records.drop_last();
    let decided = decisions.drop_last();
    assert forall|i: int| 0 <= i < front.len() implies expected(
        seen_after(seen, front.take(i)),
        front[i],
        #[trigger] decided[i],
    ) by {
        assert(front.take(i) =~= records.take(i));
        assert(decided[i] == decisions[i]);
    }
}

/// Of the records that share a key, only the first is looked up: every
/// later one is dropped as a duplicate.
pub proof fn lemma_later_occurrence_is_dropped(
    seen: Set<Seq<char>>,
    records: Seq<Seq<Seq<char>>>,
    decisions: Seq<Decision>,
    i: int,
    j: int,
)
    requires
        possible_outcome(seen, records, decisions),
        0 <= i < j < records.len(),
        key_of(records[i]) is Some,
        key_of(records[i]) == key_of(records[j]),
    ensures
        decisions[j] == Decision::Duplicate,
        route_of(decisions[j]) == Route::Dropped,
{
    let key = key_of(records[i])->0;
    let before = records.take(j);
    assert(key_of(before[i]) == Some(key));
    lemma_seen_after_membership(seen, before, key);
    assert(expected(seen_after(seen, before), records[j], decisions[j]));
}

/// The first record with a key that was not met before is looked up, and
/// so routed to one of the two outputs.
pub proof fn lemma_first_occurrence_is_looked_up(
    seen: Set<Seq<char>>,
    records: Seq<Seq<Seq<char>>>,
    decisions: Seq<Decision>,
    i: int,
)
    requires
        possible_outcome(seen, records, decisions),
        0 <= i < records.len(),
        key_of(records[i]) matches Some(key) && !seen.contains(key),
        forall|h: int| 0 <= h < i ==> key_of(#[trigger] records[h]) != key_of(records[i]),
    ensures
        looked_up(decisions[i]),
        route_of(decisions[i]) != Route::Dropped,
{
    let key = key_of(records[i])->0;
    let before = records.take(i);
    lemma_seen_after_membership(seen, before, key);
    assert forall|h: int| 0 <= h < before.len() implies key_of(#[trigger] before[h]) != Some(
        key,
    ) by {
        assert(before[h] == records[h]);
    }
    assert(expected(seen_after(seen, before), records[i], decisions[i]));
}

/// The duplicates are the records with a digest that are not the first
/// with their key: duplicates and first occurrences together are the
/// records that carry a digest.
pub proof fn lemma_duplicates_counted(
    seen: Set<Seq<char>>,
    records: Seq<Seq<Seq<char>>>,
    decisions: Seq<Decision>,
)
    requires
        possible_outcome(seen, records, decisions),
    ensures
        tally(decisions).duplicates + tally(decisions).unique + without_identity(records)
            == records.len(),
    decreases records.len(),
{
    if records.len() > 0 {
        let front = records.drop_last();
        lemma_front_is_possible(seen, records, decisions);
        lemma_duplicates_counted(seen, front, decisions.drop_last());
        let n = records.len() - 1;
        assert(records.take(n) =~= front);
        assert(expected(seen_after(seen, front), records[n], decisions[n]));
    }
}

/// Two runs over the same records, from the same keys, against a store
/// that answers the same, decide the same and count the same.
pub proof fn lemma_same_store_same_outcome(
    seen: Set<Seq<char>>,
    records: Seq<Seq<Seq<char>>>,
    store: Store,
    first: Seq<Decision>,
    second: Seq<Decision>,
)
    requires
        possible_outcome(seen, records, first),
        possible_outcome(seen, records, second),
        faithful(records, first, store),
        faithful(records, second, store),
    ensures
        first == second,
        first == decisions_under(seen, records, store),
        tally(first) == tally(second),
{
    lemma_outcome_under_store(seen, records, store, first);
    lemma_outcome_under_store(seen, records, store, second);
}

/// A possible outcome whose lookups were answered by `store` is the
/// outcome that `store` gives.
pub proof fn lemma_outcome_under_store(
    seen: Set<Seq<char>>,
    records: Seq<Seq<Seq<char>>>,
    store: Store,
    decisions: Seq<Decision>,
)
    requires
        possible_outcome(seen, records, decisions),
        faithful(records, decisions, store),
    ensures
        decisions == decisions_under(seen, records, store),
{
    let under = decisions_under(seen, records, store);
    assert forall|i: int| 0 <= i < records.len() implies decisions[i] == under[i] by {
        assert(expected(seen_after(seen, records.take(i)), records[i], decisions[i]));
    }
    assert(decisions =~= under);
}

/// The outcome that a store gives is a possible outcome, faithful to that
/// store.
pub proof fn lemma_store_outcome_is_possible(
    seen: Set<Seq<char>>,
    records: Seq<Seq<Seq<char>>>,
    store: Store,
)
    ensures
        possible_outcome(seen, records, decisions_under(seen, records, store)),
        faithful(records, decisions_under(seen, records, store), store),
{
    let under = decisions_under(seen, records, store);
    assert forall|i: int| 0 <= i < records.len() && looked_up(#[trigger] under[i]) && identity_of(
        records[i],
    ) is Some implies under[i] == decision_under(store, identity_of(records[i])->0) by {}
}

/// A record whose SHA-1 digest stands in the `sha1` column of a reference
/// row is known when its key is new, whatever its MD5 field holds.
pub proof fn lemma_sha1_match_is_known(
    rows: Set<ReferenceRow>,
    row: ReferenceRow,
    seen: Set<Seq<char>>,
    record: Seq<Seq<char>>,
)
    requires
        rows.contains(row),
        trimmed(field_at(record, SHA1_COLUMN as int)).len() > 0,
        row.sha1 == trimmed(field_at(record, SHA1_COLUMN as int)),
        !seen.contains(row.sha1),
    ensures
        decide(seen, record, reference_store(rows)) == Decision::Known,
        route_of(decide(seen, record, reference_store(rows))) == Route::Known,
{
    let id = identity_of(record)->0;
    assert(id.primary == row.sha1);
    assert(holds(rows, id.primary, id.secondary));
}

/// Where no decision is `Known`, the known counter stays at zero.
pub proof fn lemma_none_known(decisions: Seq<Decision>)
    requires
        forall|i: int| 0 <= i < decisions.len() ==> #[trigger] decisions[i] != Decision::Known,
    ensures
        tally(decisions).known == 0,
    decreases decisions.len(),
{
    if decisions.len() > 0 {
        lemma_none_known(decisions.drop_last());
    }
}

/// Against a store that holds no matching row for any digest, no record is
/// known: every record with a new key is unknown.
pub proof fn lemma_empty_store_knows_nothing(
    seen: Set<Seq<char>>,
    records: Seq<Seq<Seq<char>>>,
    decisions: Seq<Decision>,
)
    requires
        possible_outcome(seen, records, decisions),
        faithful(records, decisions, reference_store(Set::empty())),
    ensures
        tally(decisions).known == 0,
        forall|i: int|
            0 <= i < records.len() && looked_up(#[trigger] decisions[i]) ==> decisions[i]
                == Decision::Unknown,
{
    let store = reference_store(Set::empty());
    assert forall|i: int| 0 <= i < records.len() && looked_up(
        #[trigger] decisions[i],
    ) implies decisions[i] == Decision::Unknown by {
        assert(expected(seen_after(seen, records.take(i)), records[i], decisions[i]));
        let id = identity_of(records[i])->0;
        assert(!holds(Set::empty(), id.primary, id.secondary));
    }
    lemma_none_known(decisions);
}

/// A record that the filter rejects leaves no trace: the second pass of
/// the scan keeps no key for it, and the classification pass does not
/// keep it, so that it is never decided on and reaches neither output.
pub proof fn lemma_rejected_record_leaves_no_trace(
    matching: Set<Seq<char>>,
    unique: Set<Seq<char>>,
    filter: Seq<Seq<char>>,
    column: int,
    records: Seq<Seq<Seq<char>>>,
    record: Seq<Seq<char>>,
)
    requires
        !retained(Some(filter), column, record),
    ensures
        matching_with(matching, unique, filter, column, record) == matching,
        kept(Some(filter), column, records.push(record)) == kept(Some(filter), column, records),
{
    assert(records.push(record).drop_last() =~= records);
}

/// Without a filter a run keeps every record.
pub proof fn lemma_no_filter_keeps_all(column: int, records: Seq<Seq<Seq<char>>>)
    ensures
        kept(None, column, records) == records,
    decreases records.len(),
{
    if records.len() > 0 {
        lemma_no_filter_keeps_all(column, records.drop_last());
        assert(records.drop_last().push(records.last()) =~= records);
    }
}

/// The keys that the second pass of the scan keeps are the keys that the
/// classification pass meets on the records it keeps, provided the first
/// pass found the key of every record.
pub proof fn lemma_narrowing_follows_the_filter(
    matching: Set<Seq<char>>,
    unique: Set<Seq<char>>,
    filter: Seq<Seq<char>>,
    column: int,
    records: Seq<Seq<Seq<char>>>,
)
    requires
        forall|i: int|
            0 <= i < records.len() && key_of(#[trigger] records[i]) is Some ==> unique.contains(
                key_of(records[i])->0,
            ),
    ensures
        matching_after(matching, unique, filter, column, records) == seen_after(
            matching,
            kept(Some(filter), column, records),
        ),
    decreases records.len(),
{
    if records.len() > 0 {
        let front = records.drop_last();
        let last = records.last();
        assert forall|i: int| 0 <= i < front.len() && key_of(
            #[trigger] front[i],
        ) is Some implies unique.contains(key_of(front[i])->0) by {
            assert(front[i] == records[i]);
        }
        lemma_narrowing_follows_the_filter(matching, unique, filter, column, front);
        let kept_front = kept(Some(filter), column, front);
        assert(records[records.len() - 1] == last);
        if retained(Some(filter), column, last) {
            assert(kept_front.push(last).drop_last() =~= kept_front);
            assert(qualifies(unique, filter, column, last) <==> key_of(last) is Some);
        }
    }
}

/// The scan sizes the pass: the keys left after both passes of the scan
/// over a stream are the keys that the classification pass meets on the
/// same stream with the same filter.
pub proof fn lemma_scan_sizes_the_pass(
    filter: Seq<Seq<char>>,
    column: int,
    records: Seq<Seq<Seq<char>>>,
)
    ensures
        matching_after(
            Set::empty(),
            seen_after(Set::empty(), records),
            filter,
            column,
            records,
        ) == seen_after(Set::empty(), kept(Some(filter), column, records)),
{
    let unique = seen_after(Set::<Seq<char>>::empty(), records);
    assert forall|i: int| 0 <= i < records.len() && key_of(
        #[trigger] records[i],
    ) is Some implies unique.contains(key_of(records[i])->0) by {
        lemma_seen_after_membership(Set::empty(), records, key_of(records[i])->0);
    }
    lemma_narrowing_follows_the_filter(Set::empty(), unique, filter, column, records);
}

/// As many lookup errors are counted as decisions record a failed lookup.
pub proof fn lemma_failures_counted(decisions: Seq<Decision>)
    ensures
        tally(decisions).lookup_errors == failed_at(decisions).len(),
    decreases decisions.len(),
{
    if decisions.len() > 0 {
        lemma_failures_counted(decisions.drop_last());
    }
}

/// Of one batch: every record without a digest is decided `NoIdentity` and
/// so goes to the unknown output; the empty-hash counter grows by the
/// number of such records and the unknown counter by no less; and every
/// key that the batch adds is the key of one of its records, which then
/// has a digest.
pub proof fn lemma_batch_records_without_digest(
    seen: Set<Seq<char>>,
    counted: Tally,
    records: Seq<Seq<Seq<char>>>,
    decisions: Seq<Decision>,
    seen_then: Set<Seq<char>>,
    counted_then: Tally,
)
    requires
        classified(seen, counted, records, decisions, seen_then, counted_then),
    ensures
        forall|i: int|
            0 <= i < records.len() && identity_of(records[i]) is None ==> #[trigger] decisions[i]
                == Decision::NoIdentity && route_of(decisions[i]) == Route::Unknown,
        counted_then.empty_hash == counted.empty_hash + without_identity(records),
        counted_then.unknown >= counted.unknown + without_identity(records),
        forall|key: Seq<char>| #[trigger]
            seen_then.contains(key) && !seen.contains(key) ==> exists|i: int|
                0 <= i < records.len() && key_of(#[trigger] records[i]) == Some(key),
{
    lemma_no_identity_is_unknown(seen, records, decisions);
    lemma_tally_balanced(decisions);
    assert forall|key: Seq<char>| #[trigger]
        seen_then.contains(key) && !seen.contains(key) implies exists|i: int|
        0 <= i < records.len() && key_of(#[trigger] records[i]) == Some(key) by {
        lemma_seen_after_membership(seen, records, key);
    }
}

/// Of one batch and one key: where the key was seen before the batch,
/// every record with it is dropped; where it is new, the first record with
/// it, and no other, is looked up and goes to one of the two outputs, and
/// every later one is dropped.
pub proof fn lemma_batch_one_lookup_per_key(
    seen: Set<Seq<char>>,
    counted: Tally,
    records: Seq<Seq<Seq<char>>>,
    decisions: Seq<Decision>,
    seen_then: Set<Seq<char>>,
    counted_then: Tally,
    key: Seq<char>,
)
    requires
        classified(seen, counted, records, decisions, seen_then, counted_then),
    ensures
        forall|i: int|
            0 <= i < records.len() && key_of(records[i]) == Some(key) ==> (looked_up(
                #[trigger] decisions[i],
            ) <==> !seen.contains(key) && forall|h: int|
                0 <= h < i ==> key_of(#[trigger] records[h]) != Some(key)),
        forall|i: int|
            0 <= i < records.len() && key_of(records[i]) == Some(key) && !looked_up(
                #[trigger] decisions[i],
            ) ==> decisions[i] == Decision::Duplicate,
{
    assert forall|i: int| 0 <= i < records.len() && key_of(records[i]) == Some(key) implies (
    looked_up(#[trigger] decisions[i]) <==> !seen.contains(key) && forall|h: int|
        0 <= h < i ==> key_of(#[trigger] records[h]) != Some(key)) && (!looked_up(decisions[i])
        ==> decisions[i] == Decision::Duplicate) by {
        let before = records.take(i);
        lemma_seen_after_membership(seen, before, key);
        assert(expected(seen_after(seen, before), records[i], decisions[i]));
        if seen_after(seen, before).contains(key) {
            if !seen.contains(key) {
                let h = choose|h: int|
                    0 <= h < before.len() && key_of(#[trigger] before[h]) == Some(key);
                assert(before[h] == records[h]);
            }
        } else {
            assert forall|h: int| 0 <= h < i implies key_of(#[trigger] records[h]) != Some(
                key,
            ) by {
                assert(before[h] == records[h]);
            }
        }
    }
}

/// Of one batch: the keys after it are the keys before it and the keys of
/// its records; the duplicates it counts are its records with a digest
/// less the keys it adds; and a duplicate always has a digest.
pub proof fn lemma_batch_duplicates(
    seen: Set<Seq<char>>,
    counted: Tally,
    records: Seq<Seq<Seq<char>>>,
    decisions: Seq<Decision>,
    seen_then: Set<Seq<char>>,
    counted_then: Tally,
)
    requires
        classified(seen, counted, records, decisions, seen_then, counted_then),
        seen.finite(),
    ensures
        forall|key: Seq<char>| #[trigger]
            seen_then.contains(key) <==> seen.contains(key) || exists|i: int|
                0 <= i < records.len() && key_of(#[trigger] records[i]) == Some(key),
        seen_then.finite(),
        seen_then.len() >= seen.len(),
        counted_then.duplicates - counted.duplicates == (records.len() - without_identity(
            records,
        )) - (seen_then.len() - seen.len()),
        forall|i: int|
            0 <= i < records.len() && #[trigger] decisions[i] == Decision::Duplicate
                ==> identity_of(records[i]) is Some,
{
    assert forall|key: Seq<char>| #[trigger]
        seen_then.contains(key) <==> seen.contains(key) || exists|i: int|
            0 <= i < records.len() && key_of(#[trigger] records[i]) == Some(key) by {
        lemma_seen_after_membership(seen, records, key);
    }
    lemma_new_keys_counted(seen, records, decisions);
    lemma_duplicates_counted(seen, records, decisions);
    assert forall|i: int|
        0 <= i < records.len() && #[trigger] decisions[i]
            == Decision::Duplicate implies identity_of(records[i]) is Some by {
        assert(expected(seen_after(seen, records.take(i)), records[i], decisions[i]));
    }
}

/// Of two classifications of one batch from the same keys and counters,
/// with the lookups of both answered by one store: the decisions, and so
/// the two outputs, the counters and the keys are the same.
pub proof fn lemma_batch_repeatable(
    seen: Set<Seq<char>>,
    counted: Tally,
    records: Seq<Seq<Seq<char>>>,
    store: Store,
    first: Seq<Decision>,
    first_seen: Set<Seq<char>>,
    first_counted: Tally,
    second: Seq<Decision>,
    second_seen: Set<Seq<char>>,
    second_counted: Tally,
)
    requires
        classified(seen, counted, records, first, first_seen, first_counted),
        classified(seen, counted, records, second, second_seen, second_counted),
        faithful(records, first, store),
        faithful(records, second, store),
    ensures
        first == second,
        forall|i: int| 0 <= i < records.len() ==> route_of(first[i]) == route_of(second[i]),
        first_counted == second_counted,
        first_seen == second_seen,
{
    lemma_same_store_same_outcome(seen, records, store, first, second);
}

/// Of one batch: known and unknown records together grow by the keys
/// added and the records without a digest; known records grow by no more
/// than the keys added; so a run that starts balanced against its key set
/// stays so.
pub proof fn lemma_batch_balance(
    seen: Set<Seq<char>>,
    counted: Tally,
    records: Seq<Seq<Seq<char>>>,
    decisions: Seq<Decision>,
    seen_then: Set<Seq<char>>,
    counted_then: Tally,
)
    requires
        classified(seen, counted, records, decisions, seen_then, counted_then),
        seen.finite(),
    ensures
        (counted_then.known - counted.known) + (counted_then.unknown - counted.unknown) == (
        seen_then.len() - seen.len()) + (counted_then.empty_hash - counted.empty_hash),
        counted_then.known - counted.known <= seen_then.len() - seen.len(),
        counted.known + counted.unknown == seen.len() + counted.empty_hash ==> counted_then.known
            + counted_then.unknown == seen_then.len() + counted_then.empty_hash,
{
    lemma_tally_balanced(decisions);
    lemma_new_keys_counted(seen, records, decisions);
}

/// Of one batch classified against reference rows of which none matches a
/// digest of the batch, every lookup answered: no record is known, every
/// record but a duplicate goes to the unknown output, and the unknown
/// counter grows by the keys added and the records without a digest.
pub proof fn lemma_batch_without_match(
    rows: Set<ReferenceRow>,
    seen: Set<Seq<char>>,
    counted: Tally,
    records: Seq<Seq<Seq<char>>>,
    decisions: Seq<Decision>,
    seen_then: Set<Seq<char>>,
    counted_then: Tally,
)
    requires
        classified(seen, counted, records, decisions, seen_then, counted_then),
        seen.finite(),
        faithful(records, decisions, reference_store(rows)),
        forall|i: int|
            0 <= i < records.len() && identity_of(#[trigger] records[i]) is Some ==> !holds(
                rows,
                identity_of(records[i])->0.primary,
                identity_of(records[i])->0.secondary,
            ),
    ensures
        counted_then.known == counted.known,
        forall|i: int| 0 <= i < records.len() ==> route_of(#[trigger] decisions[i]) != Route::Known,
        forall|i: int|
            0 <= i < records.len() && #[trigger] decisions[i] != Decision::Duplicate ==> route_of(
                decisions[i],
            ) == Route::Unknown,
        counted_then.unknown - counted.unknown == (seen_then.len() - seen.len()) + (
        counted_then.empty_hash - counted.empty_hash),
{
    assert forall|i: int| 0 <= i < decisions.len() implies #[trigger] decisions[i]
        != Decision::Known by {
        assert(expected(seen_after(seen, records.take(i)), records[i], decisions[i]));
    }
    lemma_none_known(decisions);
    lemma_tally_balanced(decisions);
    lemma_new_keys_counted(seen, records, decisions);
}

/// Of one batch: a decision comes back for every record, however many
/// lookups fail, and the error counter grows by exactly the number of
/// failed lookups.
pub proof fn lemma_batch_survives_failures(
    seen: Set<Seq<char>>,
    counted: Tally,
    records: Seq<Seq<Seq<char>>>,
    decisions: Seq<Decision>,
    seen_then: Set<Seq<char>>,
    counted_then: Tally,
)
    requires
        classified(seen, counted, records, decisions, seen_then, counted_then),
    ensures
        decisions.len() == records.len(),
        counted_then.lookup_errors == counted.lookup_errors + failed_at(decisions).len(),
        counted_then.records == counted.records + records.len(),
{
    lemma_failures_counted(decisions);
    lemma_tally_balanced(decisions);
}

/// The number of decisions that follow a lookup.
pub open spec fn lookups_made(decisions: Seq<Decision>) -> nat
    decreases decisions.len(),
{
    if decisions.len() == 0 {
        0
    } else {
        lookups_made(decisions.drop_last()) + if looked_up(decisions.last()) {
            1nat
        } else {
            0nat
        }
    }
}

/// The counter of first occurrences counts the decisions that follow a
/// lookup.
pub proof fn lemma_lookups_counted(decisions: Seq<Decision>)
    ensures
        tally(decisions).unique == lookups_made(decisions),
    decreases decisions.len(),
{
    if decisions.len() > 0 {
        lemma_lookups_counted(decisions.drop_last());
    }
}

/// Of one batch: no record without a digest gets a decision that follows a
/// lookup; the decisions that follow a lookup are as many as the keys that
/// the batch adds; and the record of each has a primary and a secondary
/// digest that are not empty.
pub proof fn lemma_batch_lookups(
    seen: Set<Seq<char>>,
    counted: Tally,
    records: Seq<Seq<Seq<char>>>,
    decisions: Seq<Decision>,
    seen_then: Set<Seq<char>>,
    counted_then: Tally,
)
    requires
        classified(seen, counted, records, decisions, seen_then, counted_then),
        seen.finite(),
    ensures
        forall|i: int|
            0 <= i < records.len() && identity_of(records[i]) is None ==> !looked_up(
                #[trigger] decisions[i],
            ),
        lookups_made(decisions) == seen_then.len() - seen.len(),
        forall|i: int|
            0 <= i < records.len() && looked_up(#[trigger] decisions[i]) ==> {
                &&& identity_of(records[i]) matches Some(id)
                &&& id.primary.len() > 0
                &&& id.secondary.len() > 0
            },
{
    assert forall|i: int| 0 <= i < records.len() implies (identity_of(records[i]) is None
        ==> !looked_up(#[trigger] decisions[i])) && (looked_up(decisions[i]) ==> {
        &&& identity_of(records[i]) matches Some(id)
        &&& id.primary.len() > 0
        &&& id.secondary.len() > 0
    }) by {
        assert(expected(seen_after(seen, records.take(i)), records[i], decisions[i]));
    }
    lemma_lookups_counted(decisions);
    lemma_new_keys_counted(seen, records, decisions);
}

} // verus!
