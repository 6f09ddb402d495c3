//! What a comparison keeps of what was found: every object and every entry, as it was.

use crate::inodes::{lemma_numbers_in_order, numbers_in_order};
use crate::manager::delta::{delta_comparison, needs_compaction};
use crate::manager::fresh::{created_rows, fresh_comparison};
use crate::manager::publish::CheckedIndex;
use crate::manager::rows::{
    Comparison, ComparisonKind, ComparisonState, RefChange, Revision,
};
use crate::manager::stage::{object_rows, ordered_ref_rows, ref_rows};
use crate::index::EventView;
use crate::manifest::{ManifestView, ObjectChange};
use crate::ordered::{in_order, lemma_in_order, Key, Keyed};
use vstd::prelude::*;

verus! {

/// Whether the rows hold the objects that changed, each once, by inode number.
pub open spec fn holds_objects(rows: Seq<ObjectChange>, objects: Map<u64, ObjectChange>) -> bool {
    &&& forall|ino: u64| #[trigger]
        objects.contains_key(ino) ==> exists|i: int|
            0 <= i < rows.len() && #[trigger] rows[i] == objects[ino]
    &&& forall|i: int|
        0 <= i < rows.len() ==> objects.contains_key((#[trigger] rows[i]).ino)
            && objects[rows[i].ino] == rows[i]
    &&& forall|i: int, j: int|
        0 <= i < j < rows.len() ==> (#[trigger] rows[i]).ino < (#[trigger] rows[j]).ino
}

/// Whether the row says of the entry that it was added, or that it was deleted.
pub open spec fn says_of(row: RefChange, key: Key, added: bool) -> bool {
    &&& row.added == added
    &&& row.reference.ino == key.first
    &&& row.reference.parent_ino == key.second
    &&& row.reference.name@ == key.name
}

/// Whether the rows say just what was added and what was deleted.
pub open spec fn holds_entries(
    rows: Seq<RefChange>,
    adds: Set<Key>,
    deletes: Set<Key>,
) -> bool {
    &&& forall|key: Key| #[trigger]
        adds.contains(key) ==> exists|i: int|
            0 <= i < rows.len() && #[trigger] says_of(rows[i], key, true)
    &&& forall|key: Key| #[trigger]
        deletes.contains(key) ==> exists|i: int|
            0 <= i < rows.len() && #[trigger] says_of(rows[i], key, false)
    &&& forall|i: int|
        0 <= i < rows.len() ==> (if (#[trigger] rows[i]).added {
            exists|key: Key| #[trigger] adds.contains(key) && says_of(rows[i], key, true)
        } else {
            exists|key: Key| #[trigger] deletes.contains(key) && says_of(rows[i], key, false)
        })
    &&& rows.len() == adds.len() + deletes.len()
}

proof fn lemma_objects(objects: Map<u64, ObjectChange>)
    requires
        objects.dom().finite(),
        forall|ino: u64| #[trigger] objects.contains_key(ino) ==> objects[ino].ino == ino,
    ensures
        holds_objects(object_rows(objects), objects),
{
    lemma_numbers_in_order(objects.dom());
    let inos = numbers_in_order(objects.dom());
    let rows = object_rows(objects);
    assert forall|i: int| 0 <= i < rows.len() implies objects.contains_key(
        (#[trigger] rows[i]).ino,
    ) && objects[rows[i].ino] == rows[i] && rows[i].ino == inos[i] by {
        assert(inos.to_set().contains(inos[i]));
    }
    assert forall|ino: u64| #[trigger] objects.contains_key(ino) implies exists|i: int|
        0 <= i < rows.len() && #[trigger] rows[i] == objects[ino] by {
        assert(inos.to_set().contains(ino));
        let i = choose|i: int| 0 <= i < inos.len() && inos[i] == ino;
        assert(rows[i] == objects[ino]);
    }
    assert forall|i: int, j: int| 0 <= i < j < rows.len() implies (#[trigger] rows[i]).ino < (
    #[trigger] rows[j]).ino by {
        assert(inos[i] < inos[j]);
    }
}

proof fn lemma_ordered_len(set: Set<Key>)
    requires
        set.finite(),
    ensures
        in_order(set).len() == set.len(),
        in_order(set).to_set() == set,
{
    lemma_in_order(set);
    let keys = in_order(set);
    assert(keys.no_duplicates()) by {
        assert forall|i: int, j: int| 0 <= i < keys.len() && 0 <= j < keys.len() && i
            != j implies keys[i] != keys[j] by {
            if i < j {
                assert(crate::ordered::key_less(keys[i], keys[j]));
                crate::ordered::law_key_order(keys[i], keys[i], keys[i]);
            } else {
                assert(crate::ordered::key_less(keys[j], keys[i]));
                crate::ordered::law_key_order(keys[i], keys[i], keys[i]);
            }
        }
    }
    keys.unique_seq_to_set();
}

proof fn lemma_entries(rows: Seq<RefChange>, adds: Set<Key>, deletes: Set<Key>)
    requires
        adds.finite(),
        deletes.finite(),
        ref_rows(rows) == ordered_ref_rows(adds, deletes),
    ensures
        holds_entries(rows, adds, deletes),
{
    lemma_ordered_len(adds);
    lemma_ordered_len(deletes);
    let first = in_order(deletes);
    let second = in_order(adds);
    let told = ordered_ref_rows(adds, deletes);
    assert(ref_rows(rows).len() == rows.len());
    assert forall|i: int| 0 <= i < rows.len() implies (#[trigger] rows[i]).added == told[i].0
        && rows[i].reference.key() == told[i].1 by {
        assert(ref_rows(rows)[i] == told[i]);
    }
    assert forall|key: Key| #[trigger] deletes.contains(key) implies exists|i: int|
        0 <= i < rows.len() && #[trigger] says_of(rows[i], key, false) by {
        assert(first.to_set().contains(key));
        let i = choose|i: int| 0 <= i < first.len() && first[i] == key;
        assert(told[i] == (false, key));
        assert(rows[i].added == told[i].0);
        assert(says_of(rows[i], key, false));
    }
    assert forall|key: Key| #[trigger] adds.contains(key) implies exists|i: int|
        0 <= i < rows.len() && #[trigger] says_of(rows[i], key, true) by {
        assert(second.to_set().contains(key));
        let i = choose|i: int| 0 <= i < second.len() && second[i] == key;
        let at = first.len() + i;
        assert(told[at] == (true, key));
        assert(rows[at].added == told[at].0);
        assert(says_of(rows[at], key, true));
    }
    assert forall|i: int| 0 <= i < rows.len() implies (if (#[trigger] rows[i]).added {
        exists|key: Key| #[trigger] adds.contains(key) && says_of(rows[i], key, true)
    } else {
        exists|key: Key| #[trigger] deletes.contains(key) && says_of(rows[i], key, false)
    }) by {
        let key = told[i].1;
        assert(rows[i].added == told[i].0);
        if i < first.len() {
            assert(told[i] == (false, first[i]));
            assert(first.to_set().contains(first[i]));
            assert(deletes.contains(key));
        } else {
            assert(told[i] == (true, second[i - first.len()]));
            assert(second.to_set().contains(second[i - first.len()]));
            assert(adds.contains(key));
        }
    }
}

/// The comparison of a cut with the one before it keeps every object and every entry of its
/// manifest as it was, between the two snapshots.
pub proof fn law_comparison_keeps_the_manifest(
    comparison: Comparison,
    id: i64,
    from: i64,
    to: i64,
    owner: [u8; 16],
    fence: i64,
    manifest: ManifestView,
    events: Seq<EventView>,
)
    requires
        delta_comparison(comparison, id, from, to, owner, fence, manifest, events),
        manifest.objects.dom().finite(),
        manifest.ref_adds.finite(),
        manifest.ref_deletes.finite(),
        forall|ino: u64| #[trigger]
            manifest.objects.contains_key(ino) ==> manifest.objects[ino].ino == ino,
    ensures
        holds_objects(comparison.objects@, manifest.objects),
        holds_entries(comparison.references@, manifest.ref_adds, manifest.ref_deletes),
        comparison.id == id,
        comparison.from_snapshot_id == from,
        comparison.to_snapshot_id == to,
        comparison.kind == ComparisonKind::Incremental,
        comparison.algorithm_version == 1,
        comparison.state == ComparisonState::IndexReady,
        comparison.lease_owner == Some(owner),
        comparison.lease_fence == fence,
        manifest.raw_ref_adds <= i64::MAX ==> (comparison.raw_ref_adds matches Some(number)
            && number == manifest.raw_ref_adds),
        manifest.raw_ref_deletes <= i64::MAX ==> (comparison.raw_ref_deletes matches Some(number)
            && number == manifest.raw_ref_deletes),
{
    lemma_objects(manifest.objects);
    lemma_entries(comparison.references@, manifest.ref_adds, manifest.ref_deletes);
}

/// The comparison of a cut of which everything is new keeps every object of its index as
/// new, and every entry as added.
pub proof fn law_fresh_comparison_keeps_the_index(
    comparison: Comparison,
    id: i64,
    from: i64,
    to: i64,
    owner: [u8; 16],
    fence: i64,
    checked: CheckedIndex,
    events: Seq<EventView>,
)
    requires
        fresh_comparison(comparison, id, from, to, owner, fence, checked, events),
        checked.index@.objects.dom().finite(),
        checked.index@.references.finite(),
        forall|ino: u64| #[trigger]
            checked.index@.objects.contains_key(ino) ==> checked.index@.objects[ino].ino == ino,
    ensures
        comparison.from_snapshot_id == from,
        comparison.to_snapshot_id == to,
        comparison.kind == ComparisonKind::FullFresh,
        comparison.state == ComparisonState::IndexReady,
        comparison.algorithm_version == 1,
        holds_entries(comparison.references@, checked.index@.references, Set::empty()),
        comparison.objects@.len() == checked.index@.objects.dom().len(),
        forall|i: int|
            0 <= i < comparison.objects@.len() ==> {
                let row = #[trigger] comparison.objects@[i];
                &&& checked.index@.objects.contains_key(row.ino)
                &&& row.old_generation is None
                &&& row.new_generation == Some(checked.index@.objects[row.ino].generation)
                &&& row.change_mask == 33
            },
{
    let objects = checked.index@.objects;
    let references = checked.index@.references;
    lemma_numbers_in_order(objects.dom());
    let inos = numbers_in_order(objects.dom());
    assert(32u64 | 1u64 == 33u64) by (bit_vector);
    assert forall|i: int| 0 <= i < comparison.objects@.len() implies {
        let row = #[trigger] comparison.objects@[i];
        &&& objects.contains_key(row.ino)
        &&& row.old_generation is None
        &&& row.new_generation == Some(objects[row.ino].generation)
        &&& row.change_mask == 33
    } by {
        assert(inos.to_set().contains(inos[i]));
        assert(objects.contains_key(inos[i]));
        assert(comparison.objects@[i] == created_rows(objects)[i]);
    }
    assert(inos.no_duplicates()) by {
        assert forall|i: int, j: int| 0 <= i < inos.len() && 0 <= j < inos.len() && i
            != j implies inos[i] != inos[j] by {
            if i < j {
                assert(inos[i] < inos[j]);
            } else {
                assert(inos[j] < inos[i]);
            }
        }
    }
    inos.unique_seq_to_set();
    let none = Set::<Key>::empty();
    lemma_ordered_len(none);
    assert(in_order(none).len() == 0);
    assert(ordered_ref_rows(references, none) =~= in_order(references).map_values(
        |key: Key| (true, key),
    ));
    lemma_entries(comparison.references@, references, none);
}

/// A revision is stored anew before anything is built on it where thirty-one others lie
/// below it, or its summary is of another version.
pub proof fn law_deep_revisions_are_stored_anew(revision: Revision)
    ensures
        needs_compaction(revision) <==> revision.delta_depth >= 31
            || revision.summary.summary_version != 2,
{
}

} // verus!
