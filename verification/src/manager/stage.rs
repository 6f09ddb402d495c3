//! The rows of a delta, made ready before they are published.

use crate::index::{copy_events, events_view, Event, EventView, Index, Object};
use crate::inodes::{increasing, numbers_in_order, sorted_keys};
use crate::manager::metadata::object_in;
use crate::manager::revisions::changes_of;
use crate::manager::rows::{Overlay, RefChange, RefOverride};
use crate::manager::types::ManagerError;
use crate::manifest::{ChangedObjectsManifest, ManifestView, ObjectChange, Reference};
use crate::ordered::{
    ascending, in_order, insert, key_less, key_set, keys_of, law_in_order, law_key_order, Key,
    Keyed,
};
use std::collections::BTreeMap;
use vstd::prelude::*;

verus! {

broadcast use vstd::std_specs::btree::group_btree_axioms;

/// The largest integer that a stored column holds.
pub const STORED_MAX: u64 = 0x7fff_ffff_ffff_ffff;

/// The rows of a delta.
#[derive(Debug)]
pub struct StagedDelta {
    pub objects: Vec<ObjectChange>,
    pub references: Vec<RefChange>,
    pub events: Vec<Event>,
    pub overlay: Overlay,
}

/// The fault of the first event from `at` on that cannot be stored.
pub open spec fn events_fault_from(events: Seq<EventView>, at: int) -> Option<Seq<char>>
    decreases events.len() - at,
{
    if at < 0 || at >= events.len() {
        None
    } else if at > STORED_MAX {
        Some("event ordinal exceeds SQLite INTEGER"@)
    } else if events[at].change_mask > STORED_MAX {
        Some("event mask exceeds SQLite INTEGER"@)
    } else {
        events_fault_from(events, at + 1)
    }
}

/// Why a delta cannot be stored.
pub open spec fn stage_fault(
    manifest: ManifestView,
    events: Seq<EventView>,
    target: Map<u64, Object>,
    owner_counts: Map<u64, i64>,
) -> Option<Seq<char>> {
    if exists|ino: u64| #[trigger]
        manifest.objects.contains_key(ino) && manifest.objects[ino].change_mask > STORED_MAX {
        Some("change mask exceeds SQLite INTEGER"@)
    } else if events_fault_from(events, 0) is Some {
        events_fault_from(events, 0)
    } else if exists|ino: u64| #[trigger]
        manifest.objects.contains_key(ino) && target.contains_key(ino)
            && target[ino].privilege_flags > STORED_MAX {
        Some("privilege flags overflow"@)
    } else if exists|key: Key| #[trigger]
        manifest.ref_adds.contains(key) && manifest.ref_deletes.contains(key) {
        Some(
            "UNIQUE constraint failed: delta_stage_ref_overrides.ino, delta_stage_ref_overrides.parent_ino, delta_stage_ref_overrides.name"@,
        )
    } else if exists|uid: u64| #[trigger]
        owner_counts.contains_key(uid) && owner_counts[uid] < 0 {
        Some("refuse negative owner-count override"@)
    } else {
        None
    }
}

/// The changed objects, in the order of their inode numbers.
pub open spec fn object_rows(objects: Map<u64, ObjectChange>) -> Seq<ObjectChange> {
    numbers_in_order(objects.dom()).map_values(|ino: u64| objects[ino])
}

/// Which entry a row speaks of, and whether it was added.
pub open spec fn ref_rows(references: Seq<RefChange>) -> Seq<(bool, Key)> {
    references.map_values(|change: RefChange| (change.added, change.reference.key()))
}

/// The deleted entries, then the added ones, each in order.
pub open spec fn ordered_ref_rows(adds: Set<Key>, deletes: Set<Key>) -> Seq<(bool, Key)> {
    in_order(deletes).map_values(|key: Key| (false, key)) + in_order(adds).map_values(
        |key: Key| (true, key),
    )
}

/// The objects that a delta leaves in the place of those it changes.
pub open spec fn object_overrides(
    changed: Set<u64>,
    target: Map<u64, Object>,
) -> Map<u64, Option<Object>> {
    Map::new(|ino: u64| changed.contains(ino), |ino: u64| object_in(target, ino))
}

/// Whether `changes` holds exactly the added and the deleted entries, in
/// order.
pub open spec fn overrides_entries(
    changes: Seq<(Key, bool)>,
    adds: Set<Key>,
    deletes: Set<Key>,
) -> bool {
    &&& ascending(changes.map_values(|change: (Key, bool)| change.0))
    &&& forall|key: Key, present: bool| #[trigger]
        changes.contains((key, present)) <==> if present {
            adds.contains(key)
        } else {
            deletes.contains(key)
        }
}

/// Whether the overlay is that of the delta.
pub open spec fn overlay_of(
    overlay: Overlay,
    manifest: ManifestView,
    target: Map<u64, Object>,
    owner_counts: Map<u64, i64>,
) -> bool {
    &&& overlay.objects@ == object_overrides(manifest.objects.dom(), target)
    &&& ascending(keys_of(overlay.references@))
    &&& overrides_entries(
        changes_of(overlay.references@),
        manifest.ref_adds,
        manifest.ref_deletes,
    )
    &&& overlay.owner_counts@ == owner_counts
}

fn stage_objects(objects: &BTreeMap<u64, ObjectChange>) -> (rows: Option<Vec<ObjectChange>>)
    ensures
        match rows {
            Some(rows) => rows@ == object_rows(objects@) && forall|ino: u64| #[trigger]
                objects@.contains_key(ino) ==> objects@[ino].change_mask <= STORED_MAX,
            None => exists|ino: u64| #[trigger]
                objects@.contains_key(ino) && objects@[ino].change_mask > STORED_MAX,
        },
{
    let inos = sorted_keys(objects);
    let mut rows: Vec<ObjectChange> = Vec::with_capacity(inos.len());
    let mut at: usize = 0;
    while at < inos.len()
        invariant
            at <= inos.len(),
            inos@.to_set() == objects@.dom(),
            rows@.len() == at,
            forall|i: int| 0 <= i < at ==> #[trigger] rows@[i] == objects@[inos@[i]],
            forall|i: int|
                0 <= i < at ==> objects@[#[trigger] inos@[i]].change_mask <= STORED_MAX,
        decreases inos.len() - at,
    {
        assert(inos@.to_set().contains(inos@[at as int]));
        match objects.get(&inos[at]) {
            Some(change) => {
                if change.change_mask > STORED_MAX {
                    assert(objects@.contains_key(inos@[at as int]));
                    return None;
                }
                rows.push(*change);
            },
            None => {
                assert(false);
            },
        }
        at += 1;
    }
    proof {
        assert(rows@ =~= object_rows(objects@));
        assert forall|ino: u64| #[trigger] objects@.contains_key(ino) implies objects@[ino].change_mask
            <= STORED_MAX by {
            assert(inos@.to_set().contains(ino));
            let i = choose|i: int| 0 <= i < inos@.len() && inos@[i] == ino;
            assert(objects@[inos@[i]].change_mask <= STORED_MAX);
        }
    }
    Some(rows)
}

fn check_events(events: &Vec<Event>) -> (fault: Option<&'static str>)
    ensures
        match fault {
            None => events_fault_from(events_view(events@), 0) is None,
            Some(fault) => events_fault_from(events_view(events@), 0) == Some(fault@),
        },
{
    let mut at: usize = 0;
    while at < events.len()
        invariant
            at <= events.len(),
            events_fault_from(events_view(events@), 0) == events_fault_from(
                events_view(events@),
                at as int,
            ),
        decreases events.len() - at,
    {
        assert(events_view(events@)[at as int] == events@[at as int]@);
        if at as u64 > STORED_MAX {
            return Some("event ordinal exceeds SQLite INTEGER");
        }
        if events[at].change_mask > STORED_MAX {
            return Some("event mask exceeds SQLite INTEGER");
        }
        at += 1;
    }
    None
}

/// The entries of a manifest as rows.
pub fn stage_references(deletes: &Vec<Reference>, adds: &Vec<Reference>) -> (rows: Vec<RefChange>)
    requires
        ascending(keys_of(adds@)),
        ascending(keys_of(deletes@)),
    ensures
        ref_rows(rows@) == ordered_ref_rows(key_set(adds@), key_set(deletes@)),
{
    let mut rows: Vec<RefChange> = Vec::new();
    push_references(&mut rows, false, deletes);
    push_references(&mut rows, true, adds);
    proof {
        law_in_order(keys_of(adds@));
        law_in_order(keys_of(deletes@));
        assert(ref_rows(rows@) =~= ordered_ref_rows(key_set(adds@), key_set(deletes@)));
    }
    rows
}

fn push_references(rows: &mut Vec<RefChange>, added: bool, references: &Vec<Reference>)
    ensures
        ref_rows(final(rows)@) == ref_rows(old(rows)@) + keys_of(references@).map_values(
            |key: Key| (added, key),
        ),
{
    let ghost before = ref_rows(rows@);
    let ghost keys = keys_of(references@);
    let mut at: usize = 0;
    assert(ref_rows(rows@) =~= before + keys.take(0).map_values(|key: Key| (added, key)));
    while at < references.len()
        invariant
            at <= references.len(),
            keys == keys_of(references@),
            ref_rows(rows@) == before + keys.take(at as int).map_values(|key: Key| (added, key)),
        decreases references.len() - at,
    {
        let ghost there = rows@;
        rows.push(RefChange { added, reference: references[at].duplicate() });
        assert(ref_rows(rows@) =~= ref_rows(there).push((added, keys[at as int])));
        assert(ref_rows(rows@) =~= before + keys.take(at + 1).map_values(
            |key: Key| (added, key),
        ));
        at += 1;
    }
    assert(keys.take(at as int) =~= keys);
}

fn stage_object_overrides(
    objects: &BTreeMap<u64, ObjectChange>,
    target: &BTreeMap<u64, Object>,
) -> (overrides: Option<BTreeMap<u64, Option<Object>>>)
    ensures
        match overrides {
            Some(overrides) => overrides@ == object_overrides(objects@.dom(), target@)
                && forall|ino: u64| #[trigger]
                objects@.contains_key(ino) && target@.contains_key(ino)
                    ==> target@[ino].privilege_flags <= STORED_MAX,
            None => exists|ino: u64| #[trigger]
                objects@.contains_key(ino) && target@.contains_key(ino)
                    && target@[ino].privilege_flags > STORED_MAX,
        },
{
    let inos = sorted_keys(objects);
    let mut overrides: BTreeMap<u64, Option<Object>> = BTreeMap::new();
    let mut at: usize = 0;
    while at < inos.len()
        invariant
            at <= inos.len(),
            increasing(inos@),
            inos@.to_set() == objects@.dom(),
            forall|ino: u64| #[trigger]
                overrides@.contains_key(ino) <==> exists|i: int| 0 <= i < at && inos@[i] == ino,
            forall|ino: u64| #[trigger]
                overrides@.contains_key(ino) ==> overrides@[ino] == object_in(target@, ino),
            forall|i: int|
                0 <= i < at && target@.contains_key(#[trigger] inos@[i])
                    ==> target@[inos@[i]].privilege_flags <= STORED_MAX,
        decreases inos.len() - at,
    {
        let ino: u64 = inos[at];
        assert(inos@.to_set().contains(inos@[at as int]));
        match target.get(&ino) {
            Some(object) => {
                if object.privilege_flags > STORED_MAX {
                    assert(objects@.contains_key(ino));
                    return None;
                }
                overrides.insert(ino, Some(*object));
            },
            None => {
                overrides.insert(ino, None);
            },
        }
        at += 1;
    }
    proof {
        assert forall|ino: u64| overrides@.contains_key(ino) == objects@.contains_key(ino) by {
            if objects@.contains_key(ino) {
                assert(inos@.to_set().contains(ino));
                let i = choose|i: int| 0 <= i < inos@.len() && inos@[i] == ino;
                assert(overrides@.contains_key(inos@[i]));
            }
            if overrides@.contains_key(ino) {
                let i = choose|i: int| 0 <= i < at && inos@[i] == ino;
                assert(inos@.to_set().contains(inos@[i]));
            }
        }
        assert(overrides@ =~= object_overrides(objects@.dom(), target@));
        assert forall|ino: u64| #[trigger]
            objects@.contains_key(ino) && target@.contains_key(
                ino,
            ) implies target@[ino].privilege_flags <= STORED_MAX by {
            assert(inos@.to_set().contains(ino));
            let i = choose|i: int| 0 <= i < inos@.len() && inos@[i] == ino;
            assert(target@.contains_key(inos@[i]));
        }
    }
    Some(overrides)
}

proof fn lemma_changes_inserted(
    before: Seq<RefOverride>,
    after: Seq<RefOverride>,
    item: RefOverride,
    place: int,
)
    requires
        0 <= place <= before.len(),
        after == before.insert(place, item),
    ensures
        forall|change: (Key, bool)| #[trigger]
            changes_of(after).contains(change) <==> changes_of(before).contains(change) || change
                == (item.reference.key(), item.present),
{
    let old_changes = changes_of(before);
    let new_changes = changes_of(after);
    let added = (item.reference.key(), item.present);
    assert(new_changes =~= old_changes.insert(place, added));
    assert forall|change: (Key, bool)| #[trigger]
        new_changes.contains(change) <==> old_changes.contains(change) || change == added by {
        if new_changes.contains(change) {
            let i = choose|i: int| 0 <= i < new_changes.len() && new_changes[i] == change;
            if i < place {
                assert(old_changes[i] == change);
            } else if i > place {
                assert(old_changes[i - 1] == change);
            }
        }
        if old_changes.contains(change) {
            let i = choose|i: int| 0 <= i < old_changes.len() && old_changes[i] == change;
            if i < place {
                assert(new_changes[i] == change);
            } else {
                assert(new_changes[i + 1] == change);
            }
        }
        assert(new_changes[place] == added);
    }
}

fn add_overrides(
    overrides: &mut Vec<RefOverride>,
    references: &Vec<Reference>,
    present: bool,
) -> (distinct: bool)
    requires
        ascending(keys_of(references@)),
        ascending(keys_of(old(overrides)@)),
    ensures
        distinct == forall|key: Key| #[trigger]
            key_set(references@).contains(key) ==> !key_set(old(overrides)@).contains(key),
        distinct ==> {
            &&& ascending(keys_of(final(overrides)@))
            &&& key_set(final(overrides)@) == key_set(old(overrides)@).union(key_set(references@))
            &&& forall|change: (Key, bool)| #[trigger]
                changes_of(final(overrides)@).contains(change) <==> changes_of(
                    old(overrides)@,
                ).contains(change) || (change.1 == present && key_set(references@).contains(
                    change.0,
                ))
        },
{
    let ghost before = overrides@;
    let ghost keys = keys_of(references@);
    let mut at: usize = 0;
    assert(keys.take(0).to_set() =~= Set::empty());
    assert(key_set(before) =~= key_set(before).union(keys.take(0).to_set()));
    while at < references.len()
        invariant
            at <= references.len(),
            keys == keys_of(references@),
            ascending(keys),
            ascending(keys_of(overrides@)),
            before == old(overrides)@,
            key_set(overrides@) == key_set(before).union(keys.take(at as int).to_set()),
            forall|i: int| 0 <= i < at ==> !key_set(before).contains(#[trigger] keys[i]),
            forall|change: (Key, bool)| #[trigger]
                changes_of(overrides@).contains(change) <==> changes_of(before).contains(change)
                    || (change.1 == present && keys.take(at as int).to_set().contains(change.0)),
        decreases references.len() - at,
    {
        let ghost key = keys[at as int];
        let ghost there = overrides@;
        let item = RefOverride { reference: references[at].duplicate(), present };
        assert(item.key() == key);
        proof {
            assert(!keys.take(at as int).to_set().contains(key)) by {
                if keys.take(at as int).contains(key) {
                    let i = choose|i: int| 0 <= i < at && keys.take(at as int)[i] == key;
                    law_key_order(key, key, key);
                    assert(key_less_at(keys, i, at as int));
                }
            }
            lemma_next(keys, at as int);
        }
        let inserted: bool = insert(overrides, item);
        if !inserted {
            assert(key_set(references@).contains(key)) by {
                assert(keys[at as int] == key);
            }
            assert(key_set(before).contains(key));
            return false;
        }
        proof {
            let place = choose|place: int|
                0 <= place <= there.len() && overrides@ == #[trigger] there.insert(place, item);
            lemma_changes_inserted(there, overrides@, item, place);
            assert(key_set(overrides@) =~= key_set(before).union(keys.take(at + 1).to_set()));
        }
        at += 1;
    }
    proof {
        assert(keys.take(at as int) =~= keys);
        assert forall|key: Key| #[trigger] key_set(references@).contains(key) implies !key_set(
            before,
        ).contains(key) by {
            let i = choose|i: int| 0 <= i < keys.len() && keys[i] == key;
            assert(!key_set(before).contains(keys[i]));
        }
    }
    true
}

spec fn key_less_at(keys: Seq<Key>, i: int, j: int) -> bool {
    key_less(keys[i], keys[j])
}

proof fn lemma_next(keys: Seq<Key>, at: int)
    requires
        0 <= at < keys.len(),
    ensures
        keys.take(at + 1).to_set() == keys.take(at).to_set().insert(keys[at]),
{
    assert(keys.take(at + 1) =~= keys.take(at).push(keys[at]));
    keys.take(at).lemma_push_to_set_commute(keys[at]);
}

fn check_owner_counts(owner_counts: &BTreeMap<u64, i64>) -> (valid: bool)
    ensures
        valid == forall|uid: u64| #[trigger]
            owner_counts@.contains_key(uid) ==> owner_counts@[uid] >= 0,
{
    let uids = sorted_keys(owner_counts);
    let mut at: usize = 0;
    while at < uids.len()
        invariant
            at <= uids.len(),
            uids@.to_set() == owner_counts@.dom(),
            forall|i: int| 0 <= i < at ==> owner_counts@[#[trigger] uids@[i]] >= 0,
        decreases uids.len() - at,
    {
        assert(uids@.to_set().contains(uids@[at as int]));
        match owner_counts.get(&uids[at]) {
            Some(count) => {
                if *count < 0 {
                    assert(owner_counts@.contains_key(uids@[at as int]));
                    return false;
                }
            },
            None => {
                assert(false);
            },
        }
        at += 1;
    }
    proof {
        assert forall|uid: u64| #[trigger] owner_counts@.contains_key(uid) implies owner_counts@[uid]
            >= 0 by {
            assert(uids@.to_set().contains(uid));
            let i = choose|i: int| 0 <= i < uids@.len() && uids@[i] == uid;
            assert(owner_counts@[uids@[i]] >= 0);
        }
    }
    true
}

/// Makes the rows of a delta, or says why they cannot be stored.
pub fn stage_delta_rows(
    manifest: &ChangedObjectsManifest,
    events: &Vec<Event>,
    target: &Index,
    owner_counts: &BTreeMap<u64, i64>,
) -> (staged: Result<StagedDelta, ManagerError>)
    requires
        manifest.well_formed(),
    ensures
        match staged {
            Ok(staged) => {
                &&& stage_fault(
                    manifest@,
                    events_view(events@),
                    target.objects@,
                    owner_counts@,
                ) is None
                &&& staged.objects@ == object_rows(manifest@.objects)
                &&& ref_rows(staged.references@) == ordered_ref_rows(
                    manifest@.ref_adds,
                    manifest@.ref_deletes,
                )
                &&& events_view(staged.events@) == events_view(events@)
                &&& overlay_of(staged.overlay, manifest@, target.objects@, owner_counts@)
            },
            Err(error) => stage_fault(
                manifest@,
                events_view(events@),
                target.objects@,
                owner_counts@,
            ) == Some(error@),
        },
{
    let objects = match stage_objects(&manifest.objects) {
        Some(objects) => objects,
        None => {
            return Err(ManagerError::new("change mask exceeds SQLite INTEGER"));
        },
    };
    match check_events(events) {
        Some(fault) => {
            return Err(ManagerError::new(fault));
        },
        None => {},
    }
    let object_overrides = match stage_object_overrides(&manifest.objects, &target.objects) {
        Some(overrides) => overrides,
        None => {
            return Err(ManagerError::new("privilege flags overflow"));
        },
    };
    let mut references: Vec<RefOverride> = Vec::new();
    assert(key_set(references@) =~= Set::empty());
    let ghost nothing = references@;
    add_overrides(&mut references, &manifest.ref_deletes, false);
    let ghost deletes = references@;
    assert(key_set(deletes) =~= key_set(manifest.ref_deletes@));
    if !add_overrides(&mut references, &manifest.ref_adds, true) {
        proof {
            let key = choose|key: Key| #[trigger]
                key_set(manifest.ref_adds@).contains(key) && key_set(deletes).contains(key);
            assert(manifest@.ref_adds.contains(key) && manifest@.ref_deletes.contains(key));
        }
        return Err(
            ManagerError::new(
                "UNIQUE constraint failed: delta_stage_ref_overrides.ino, delta_stage_ref_overrides.parent_ino, delta_stage_ref_overrides.name",
            ),
        );
    }
    if !check_owner_counts(owner_counts) {
        return Err(ManagerError::new("refuse negative owner-count override"));
    }
    proof {
        let changes = changes_of(references@);
        assert(changes.map_values(|change: (Key, bool)| change.0) =~= keys_of(references@));
        assert(changes_of(nothing) =~= Seq::empty());
        assert forall|key: Key, present: bool| #[trigger]
            changes.contains((key, present)) <==> if present {
                manifest@.ref_adds.contains(key)
            } else {
                manifest@.ref_deletes.contains(key)
            } by {
            let change = (key, present);
            assert(changes.contains(change) <==> changes_of(deletes).contains(change) || (present
                && key_set(manifest.ref_adds@).contains(key)));
            assert(changes_of(deletes).contains(change) <==> changes_of(nothing).contains(change)
                || (!present && key_set(manifest.ref_deletes@).contains(key)));
        }
    }
    Ok(
        StagedDelta {
            objects,
            references: stage_references(&manifest.ref_deletes, &manifest.ref_adds),
            events: copy_events(events),
            overlay: Overlay {
                objects: object_overrides,
                references,
                owner_counts: owner_counts.clone(),
            },
        },
    )
}

} // verus!
