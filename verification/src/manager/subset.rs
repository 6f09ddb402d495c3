//! The part of a revision that a delta can touch, read without loading the
//! whole index.

use crate::index::{Index, IndexView, Object, ROOT_INO};
use crate::inodes::sorted_keys;
use crate::manager::loading::{accept_delta_subset, invalid_subset_text};
use crate::manager::revisions::{
    chain_object_from, chain_owner_count_from, chain_refs_from, chain_stored, changes_of,
    merged_refs_from, storage_chain,
};
use crate::manager::rows::{RefOverride, Revision, Store};
use crate::manager::table::{find_number, numbered};
use crate::manager::types::ManagerError;
use crate::manifest::{ChangedObjectsManifest, ManifestView, Reference};
use crate::ordered::{ascending, insert, key_set, keys_of, withdraw, Key, Keyed};
use crate::text::same_bytes;
use std::collections::BTreeSet;
use vstd::prelude::*;

verus! {

broadcast use vstd::std_specs::btree::group_btree_axioms;

/// The entries that name the inode.
pub open spec fn naming(ino: u64) -> spec_fn(Key) -> bool {
    |key: Key| key.first == ino
}

/// The entries with the name in the directory.
pub open spec fn at_name(parent_ino: u64, name: Seq<u8>) -> spec_fn(Key) -> bool {
    |key: Key| key.second == parent_ino && key.name == name
}

fn select_refs<F: Fn(&Reference) -> bool>(
    references: &Vec<Reference>,
    test: &F,
    Ghost(picks): Ghost<spec_fn(Key) -> bool>,
) -> (selected: Vec<Reference>)
    requires
        forall|item: Reference| #[trigger] test.requires((&item,)),
        forall|item: Reference, picked: bool| #[trigger]
            test.ensures((&item,), picked) ==> picked == picks(item.key()),
    ensures
        ascending(keys_of(selected@)),
        key_set(selected@) == key_set(references@).filter(picks),
{
    let mut selected: Vec<Reference> = Vec::new();
    let ghost keys = keys_of(references@);
    let mut at: usize = 0;
    assert(keys.take(0).to_set() =~= Set::empty());
    assert(key_set(selected@) =~= keys.take(0).to_set().filter(picks));
    while at < references.len()
        invariant
            at <= references.len(),
            keys == keys_of(references@),
            forall|item: Reference| #[trigger] test.requires((&item,)),
            forall|item: Reference, picked: bool| #[trigger]
                test.ensures((&item,), picked) ==> picked == picks(item.key()),
            ascending(keys_of(selected@)),
            key_set(selected@) == keys.take(at as int).to_set().filter(picks),
        decreases references.len() - at,
    {
        let ghost key = keys[at as int];
        proof {
            lemma_take_next(keys, at as int);
        }
        let ghost before = key_set(selected@);
        if test(&references[at]) {
            insert(&mut selected, references[at].duplicate());
            assert(key_set(selected@) =~= keys.take(at + 1).to_set().filter(picks));
        } else {
            assert(key_set(selected@) =~= keys.take(at + 1).to_set().filter(picks));
        }
        at += 1;
    }
    assert(keys.take(at as int) =~= keys);
    selected
}

proof fn lemma_take_next<T>(items: Seq<T>, at: int)
    requires
        0 <= at < items.len(),
    ensures
        items.take(at + 1).to_set() == items.take(at).to_set().insert(items[at]),
{
    let next = items.take(at + 1);
    let before = items.take(at);
    assert forall|item: T| next.to_set().contains(item) == before.to_set().insert(
        items[at],
    ).contains(item) by {
        if next.contains(item) {
            let i = choose|i: int| 0 <= i < next.len() && next[i] == item;
            if i < at {
                assert(before[i] == item);
            }
        }
        if before.contains(item) {
            let i = choose|i: int| 0 <= i < before.len() && before[i] == item;
            assert(next[i] == item);
        }
        assert(next[at] == items[at]);
    }
    assert(next.to_set() =~= before.to_set().insert(items[at]));
}

fn merge_refs<F: Fn(&Reference) -> bool>(
    overrides: &Vec<RefOverride>,
    selected: &mut Vec<Reference>,
    test: &F,
    Ghost(picks): Ghost<spec_fn(Key) -> bool>,
    Ghost(whole): Ghost<Set<Key>>,
)
    requires
        ascending(keys_of(old(selected)@)),
        key_set(old(selected)@) == whole.filter(picks),
        forall|item: Reference| #[trigger] test.requires((&item,)),
        forall|item: Reference, picked: bool| #[trigger]
            test.ensures((&item,), picked) ==> picked == picks(item.key()),
    ensures
        ascending(keys_of(final(selected)@)),
        key_set(final(selected)@) == merged_refs_from(whole, changes_of(overrides@), 0).filter(
            picks,
        ),
{
    let ghost changes = changes_of(overrides@);
    let ghost mut merged = whole;
    let mut at: usize = 0;
    while at < overrides.len()
        invariant
            at <= overrides.len(),
            changes == changes_of(overrides@),
            forall|item: Reference| #[trigger] test.requires((&item,)),
            forall|item: Reference, picked: bool| #[trigger]
                test.ensures((&item,), picked) ==> picked == picks(item.key()),
            ascending(keys_of(selected@)),
            key_set(selected@) == merged.filter(picks),
            merged_refs_from(whole, changes, 0) == merged_refs_from(merged, changes, at as int),
        decreases overrides.len() - at,
    {
        let change = &overrides[at];
        let ghost key = change.reference.key();
        assert(changes[at as int] == (key, change.present));
        let ghost before = merged;
        if test(&change.reference) {
            if change.present {
                insert(selected, change.reference.duplicate());
                assert(key_set(selected@) =~= before.insert(key).filter(picks));
            } else {
                withdraw(selected, &change.reference);
                assert(key_set(selected@) =~= before.remove(key).filter(picks));
            }
        } else {
            assert(before.insert(key).filter(picks) =~= before.filter(picks));
            assert(before.remove(key).filter(picks) =~= before.filter(picks));
        }
        proof {
            merged = if change.present {
                before.insert(key)
            } else {
                before.remove(key)
            };
        }
        at += 1;
    }
}

/// Whether every directory that names one of the inodes is one of them.
pub open spec fn holds_parents(references: Set<Key>, inos: Set<u64>) -> bool {
    forall|key: Key| #[trigger]
        references.contains(key) && inos.contains(key.first) ==> inos.contains(key.second)
}

/// The inodes and every directory above them.
pub open spec fn with_parents(references: Set<Key>, inos: Set<u64>) -> Set<u64> {
    Set::new(
        |ino: u64|
            forall|all: Set<u64>|
                inos.subset_of(all) && #[trigger] holds_parents(references, all) ==> all.contains(
                    ino,
                ),
    )
}

/// The inodes that a manifest speaks of, the root, and those whose place an
/// added entry takes.
pub open spec fn touched(references: Set<Key>, manifest: ManifestView) -> Set<u64> {
    Set::new(
        |ino: u64|
            {
                ||| ino == ROOT_INO
                ||| manifest.objects.contains_key(ino)
                ||| exists|key: Key| #[trigger]
                    manifest.ref_adds.contains(key) && (key.first == ino || key.second == ino)
                ||| exists|key: Key| #[trigger]
                    manifest.ref_deletes.contains(key) && (key.first == ino || key.second == ino)
                ||| exists|key: Key, added: Key| #[trigger]
                    references.contains(key) && #[trigger] manifest.ref_adds.contains(added)
                        && key.second == added.second && key.name == added.name && key.first == ino
            },
    )
}

/// The part of the revision at the head of a chain that a manifest can touch.
pub open spec fn delta_subset(
    revisions: Seq<Revision>,
    chain: Seq<i64>,
    manifest: ManifestView,
) -> IndexView {
    let references = chain_refs_from(revisions, chain, 0);
    let inos = with_parents(references, touched(references, manifest));
    IndexView {
        objects: Map::new(
            |ino: u64|
                inos.contains(ino) && chain_object_from(revisions, chain, ino, 0) is Some,
            |ino: u64| chain_object_from(revisions, chain, ino, 0)->0,
        ),
        references: references.filter(|key: Key| inos.contains(key.first)),
    }
}

proof fn lemma_merged_finite(references: Set<Key>, changes: Seq<(Key, bool)>, at: int)
    requires
        references.finite(),
    ensures
        merged_refs_from(references, changes, at).finite(),
    decreases changes.len() - at,
{
    if 0 <= at < changes.len() {
        if changes[at].1 {
            lemma_merged_finite(references.insert(changes[at].0), changes, at + 1);
        } else {
            lemma_merged_finite(references.remove(changes[at].0), changes, at + 1);
        }
    }
}

proof fn lemma_chain_refs_finite(revisions: Seq<Revision>, chain: Seq<i64>, at: int)
    ensures
        chain_refs_from(revisions, chain, at).finite(),
    decreases chain.len() - at,
{
    if at < chain.len() - 1 {
        lemma_chain_refs_finite(revisions, chain, at + 1);
        lemma_merged_finite(
            chain_refs_from(revisions, chain, at + 1),
            changes_of(numbered(revisions, chain[at])->0.overlay.references@),
            0,
        );
    } else if let Some(checkpoint) = numbered(revisions, chain.last())->0.checkpoint {
        vstd::seq_lib::seq_to_set_is_finite(keys_of(checkpoint.index.references@));
    }
}

/// The inodes that are still to be visited, and all that ever were.
struct Frontier {
    pending: Vec<u64>,
    queued: BTreeSet<u64>,
}

impl Frontier {
    /// The pending inodes are distinct, and with those visited they are all.
    spec fn covers(&self, visited: Set<u64>) -> bool {
        &&& self.pending@.no_duplicates()
        &&& self.queued@ == visited.union(self.pending@.to_set())
        &&& forall|i: int|
            0 <= i < self.pending@.len() ==> !visited.contains(#[trigger] self.pending@[i])
    }

    fn queue(&mut self, ino: u64, Ghost(visited): Ghost<Set<u64>>)
        requires
            old(self).covers(visited),
        ensures
            final(self).covers(visited),
            final(self).queued@ == old(self).queued@.insert(ino),
    {
        let ghost before = self.pending@;
        if self.queued.insert(ino) {
            self.pending.push(ino);
            proof {
                assert(!visited.union(before.to_set()).contains(ino));
                assert(self.pending@.to_set() =~= before.to_set().insert(ino)) by {
                    broadcast use vstd::seq_lib::group_to_multiset_ensures;
                    before.lemma_push_to_set_commute(ino);
                }
                assert forall|i: int, j: int|
                    0 <= i < self.pending@.len() && 0 <= j < self.pending@.len() && i
                        != j implies self.pending@[i] != self.pending@[j] by {
                    if i < before.len() {
                        assert(before.to_set().contains(before[i]));
                    }
                    if j < before.len() {
                        assert(before.to_set().contains(before[j]));
                    }
                }
                assert(self.queued@ =~= visited.union(self.pending@.to_set()));
            }
        } else {
            assert(self.queued@ =~= old(self).queued@.insert(ino));
            assert(self.queued@ =~= old(self).queued@);
        }
    }
}

impl Store {
    /// The object with the inode number in the revision at the head of a
    /// chain.
    pub fn load_revision_object_from_chain(&self, chain: &Vec<i64>, ino: u64) -> (object: Option<
        Object,
    >)
        requires
            chain_stored(self.revisions@, chain@),
        ensures
            object == chain_object_from(self.revisions@, chain@, ino, 0),
    {
        let mut at: usize = 0;
        while at < chain.len() - 1
            invariant
                at <= chain.len() - 1,
                chain_stored(self.revisions@, chain@),
                chain_object_from(self.revisions@, chain@, ino, 0) == chain_object_from(
                    self.revisions@,
                    chain@,
                    ino,
                    at as int,
                ),
            decreases chain.len() - at,
        {
            match find_number(&self.revisions, chain[at]) {
                Some(row) => {
                    match self.revisions[row].overlay.objects.get(&ino) {
                        Some(object) => {
                            return *object;
                        },
                        None => {},
                    }
                },
                None => {
                    assert(numbered(self.revisions@, chain@[at as int]) is Some);
                },
            }
            at += 1;
        }
        match find_number(&self.revisions, chain[at]) {
            Some(row) => match &self.revisions[row].checkpoint {
                Some(checkpoint) => match checkpoint.index.objects.get(&ino) {
                    Some(object) => Some(*object),
                    None => None,
                },
                None => None,
            },
            None => {
                assert(numbered(self.revisions@, chain@[at as int]) is Some);
                None
            },
        }
    }

    /// How many objects the user owns in the revision at the head of a chain.
    pub fn load_revision_owner_count_from_chain(&self, chain: &Vec<i64>, uid: u64) -> (count: i64)
        requires
            chain_stored(self.revisions@, chain@),
        ensures
            count == chain_owner_count_from(self.revisions@, chain@, uid, 0),
    {
        let mut at: usize = 0;
        while at < chain.len() - 1
            invariant
                at <= chain.len() - 1,
                chain_stored(self.revisions@, chain@),
                chain_owner_count_from(self.revisions@, chain@, uid, 0) == chain_owner_count_from(
                    self.revisions@,
                    chain@,
                    uid,
                    at as int,
                ),
            decreases chain.len() - at,
        {
            match find_number(&self.revisions, chain[at]) {
                Some(row) => {
                    match self.revisions[row].overlay.owner_counts.get(&uid) {
                        Some(count) => {
                            return *count;
                        },
                        None => {},
                    }
                },
                None => {
                    assert(numbered(self.revisions@, chain@[at as int]) is Some);
                },
            }
            at += 1;
        }
        match find_number(&self.revisions, chain[at]) {
            Some(row) => match &self.revisions[row].checkpoint {
                Some(checkpoint) => match checkpoint.owner_counts.get(&uid) {
                    Some(count) => *count,
                    None => 0,
                },
                None => 0,
            },
            None => {
                assert(numbered(self.revisions@, chain@[at as int]) is Some);
                0
            },
        }
    }

    fn matching_refs<F: Fn(&Reference) -> bool>(
        &self,
        chain: &Vec<i64>,
        test: &F,
        Ghost(picks): Ghost<spec_fn(Key) -> bool>,
    ) -> (selected: Vec<Reference>)
        requires
            self.well_formed(),
            chain_stored(self.revisions@, chain@),
            forall|item: Reference| #[trigger] test.requires((&item,)),
            forall|item: Reference, picked: bool| #[trigger]
                test.ensures((&item,), picked) ==> picked == picks(item.key()),
        ensures
            ascending(keys_of(selected@)),
            key_set(selected@) == chain_refs_from(self.revisions@, chain@, 0).filter(picks),
    {
        let mut left: usize = chain.len() - 1;
        let none: Vec<Reference> = Vec::new();
        assert(keys_of(none@).to_set() =~= Set::empty());
        assert(numbered(self.revisions@, chain@[left as int]) is Some);
        let mut selected: Vec<Reference> = match find_number(&self.revisions, chain[left]) {
            Some(row) => match &self.revisions[row].checkpoint {
                Some(checkpoint) => select_refs(&checkpoint.index.references, test, Ghost(picks)),
                None => select_refs(&none, test, Ghost(picks)),
            },
            None => none,
        };
        while left > 0
            invariant
                left < chain.len(),
                self.well_formed(),
                chain_stored(self.revisions@, chain@),
                forall|item: Reference| #[trigger] test.requires((&item,)),
                forall|item: Reference, picked: bool| #[trigger]
                    test.ensures((&item,), picked) ==> picked == picks(item.key()),
                ascending(keys_of(selected@)),
                key_set(selected@) == chain_refs_from(
                    self.revisions@,
                    chain@,
                    left as int,
                ).filter(picks),
            decreases left,
        {
            let ghost whole = chain_refs_from(self.revisions@, chain@, left as int);
            left = left - 1;
            assert(numbered(self.revisions@, chain@[left as int]) is Some);
            match find_number(&self.revisions, chain[left]) {
                Some(row) => {
                    merge_refs(
                        &self.revisions[row].overlay.references,
                        &mut selected,
                        test,
                        Ghost(picks),
                        Ghost(whole),
                    );
                },
                None => {},
            }
        }
        selected
    }

    /// The entries that name the inode in the revision at the head of a chain.
    pub fn load_revision_refs_for_inode_from_chain(&self, chain: &Vec<i64>, ino: u64) -> (selected:
        Vec<Reference>)
        requires
            self.well_formed(),
            chain_stored(self.revisions@, chain@),
        ensures
            ascending(keys_of(selected@)),
            key_set(selected@) == chain_refs_from(self.revisions@, chain@, 0).filter(naming(ino)),
    {
        let test = |item: &Reference| -> (picked: bool)
            ensures
                picked == naming(ino)(item.key()),
            { item.ino == ino };
        self.matching_refs(chain, &test, Ghost(naming(ino)))
    }

    /// The entries with the name in the directory, in the revision at the head
    /// of a chain.
    pub fn load_revision_refs_for_name_from_chain(
        &self,
        chain: &Vec<i64>,
        parent_ino: u64,
        name: &[u8],
    ) -> (selected: Vec<Reference>)
        requires
            self.well_formed(),
            chain_stored(self.revisions@, chain@),
        ensures
            ascending(keys_of(selected@)),
            key_set(selected@) == chain_refs_from(self.revisions@, chain@, 0).filter(
                at_name(parent_ino, name@),
            ),
    {
        let test = |item: &Reference| -> (picked: bool)
            ensures
                picked == at_name(parent_ino, name@)(item.key()),
            { item.parent_ino == parent_ino && same_bytes(&item.name, name) };
        self.matching_refs(chain, &test, Ghost(at_name(parent_ino, name@)))
    }

    fn seed(&self, chain: &Vec<i64>, manifest: &ChangedObjectsManifest) -> (frontier: Frontier)
        requires
            self.well_formed(),
            chain_stored(self.revisions@, chain@),
        ensures
            frontier.covers(Set::empty()),
            frontier.queued@ == touched(chain_refs_from(self.revisions@, chain@, 0), manifest@),
    {
        let ghost references = chain_refs_from(self.revisions@, chain@, 0);
        let ghost all = touched(references, manifest@);
        let ghost none = Set::<u64>::empty();
        let mut frontier = Frontier { pending: Vec::new(), queued: BTreeSet::new() };
        assert(frontier.queued@ =~= none.union(frontier.pending@.to_set()));
        frontier.queue(ROOT_INO, Ghost(none));
        let inos = sorted_keys(&manifest.objects);
        let mut at: usize = 0;
        while at < inos.len()
            invariant
                at <= inos.len(),
                all == touched(references, manifest@),
                inos@.to_set() == manifest@.objects.dom(),
                none == Set::<u64>::empty(),
                frontier.covers(none),
                frontier.queued@.subset_of(all),
                frontier.queued@.contains(ROOT_INO),
                forall|i: int| 0 <= i < at ==> frontier.queued@.contains(#[trigger] inos@[i]),
            decreases inos.len() - at,
        {
            assert(inos@.to_set().contains(inos@[at as int]));
            frontier.queue(inos[at], Ghost(none));
            at += 1;
        }
        proof {
            assert forall|ino: u64| manifest@.objects.contains_key(
                ino,
            ) implies frontier.queued@.contains(ino) by {
                assert(inos@.to_set().contains(ino));
                let i = choose|i: int| 0 <= i < inos@.len() && inos@[i] == ino;
                assert(frontier.queued@.contains(inos@[i]));
            }
        }
        let mut at: usize = 0;
        while at < manifest.ref_deletes.len()
            invariant
                at <= manifest.ref_deletes.len(),
                all == touched(references, manifest@),
                none == Set::<u64>::empty(),
                frontier.covers(none),
                frontier.queued@.subset_of(all),
                frontier.queued@.contains(ROOT_INO),
                manifest@.objects.dom().subset_of(frontier.queued@),
                forall|i: int|
                    0 <= i < at ==> frontier.queued@.contains(
                        (#[trigger] manifest.ref_deletes@[i]).ino,
                    ) && frontier.queued@.contains(manifest.ref_deletes@[i].parent_ino),
            decreases manifest.ref_deletes.len() - at,
        {
            let ghost key = manifest.ref_deletes@[at as int].key();
            assert(keys_of(manifest.ref_deletes@)[at as int] == key);
            assert(manifest@.ref_deletes.contains(key));
            frontier.queue(manifest.ref_deletes[at].ino, Ghost(none));
            frontier.queue(manifest.ref_deletes[at].parent_ino, Ghost(none));
            at += 1;
        }
        proof {
            assert forall|key: Key| #[trigger]
                manifest@.ref_deletes.contains(key) implies frontier.queued@.contains(key.first)
                && frontier.queued@.contains(key.second) by {
                let keys = keys_of(manifest.ref_deletes@);
                let i = choose|i: int| 0 <= i < keys.len() && keys[i] == key;
                assert(manifest.ref_deletes@[i].key() == key);
            }
        }
        let mut at: usize = 0;
        while at < manifest.ref_adds.len()
            invariant
                at <= manifest.ref_adds.len(),
                self.well_formed(),
                chain_stored(self.revisions@, chain@),
                references == chain_refs_from(self.revisions@, chain@, 0),
                all == touched(references, manifest@),
                none == Set::<u64>::empty(),
                frontier.covers(none),
                frontier.queued@.subset_of(all),
                frontier.queued@.contains(ROOT_INO),
                manifest@.objects.dom().subset_of(frontier.queued@),
                forall|key: Key| #[trigger]
                    manifest@.ref_deletes.contains(key) ==> frontier.queued@.contains(key.first)
                        && frontier.queued@.contains(key.second),
                forall|i: int|
                    0 <= i < at ==> frontier.queued@.contains(
                        (#[trigger] manifest.ref_adds@[i]).ino,
                    ) && frontier.queued@.contains(manifest.ref_adds@[i].parent_ino),
                forall|i: int, key: Key|
                    0 <= i < at && #[trigger] references.contains(key) && key.second == (
                    #[trigger] manifest.ref_adds@[i]).parent_ino && key.name
                        == manifest.ref_adds@[i].name@ ==> frontier.queued@.contains(key.first),
            decreases manifest.ref_adds.len() - at,
        {
            let added = &manifest.ref_adds[at];
            let ghost key = added.key();
            assert(keys_of(manifest.ref_adds@)[at as int] == key);
            assert(manifest@.ref_adds.contains(key));
            frontier.queue(added.ino, Ghost(none));
            frontier.queue(added.parent_ino, Ghost(none));
            let there = self.load_revision_refs_for_name_from_chain(
                chain,
                added.parent_ino,
                &added.name,
            );
            let ghost before = frontier.queued@;
            let mut next: usize = 0;
            while next < there.len()
                invariant
                    next <= there.len(),
                    all == touched(references, manifest@),
                    none == Set::<u64>::empty(),
                    manifest@.ref_adds.contains(key),
                    key == added.key(),
                    key_set(there@) == references.filter(at_name(added.parent_ino, added.name@)),
                    frontier.covers(none),
                    frontier.queued@.subset_of(all),
                    before.subset_of(frontier.queued@),
                    forall|i: int|
                        0 <= i < next ==> frontier.queued@.contains((#[trigger] there@[i]).ino),
                decreases there.len() - next,
            {
                proof {
                    let found = there@[next as int].key();
                    assert(keys_of(there@)[next as int] == found);
                    assert(key_set(there@).contains(found));
                    assert(references.contains(found));
                    assert(all.contains(found.first));
                }
                frontier.queue(there[next].ino, Ghost(none));
                next += 1;
            }
            proof {
                assert forall|other: Key| #[trigger]
                    references.contains(other) && other.second == added.parent_ino && other.name
                        == added.name@ implies frontier.queued@.contains(other.first) by {
                    assert(key_set(there@).contains(other));
                    let keys = keys_of(there@);
                    let i = choose|i: int| 0 <= i < keys.len() && keys[i] == other;
                    assert(there@[i].key() == other);
                    assert(frontier.queued@.contains(there@[i].ino));
                }
            }
            at += 1;
        }
        proof {
            assert forall|ino: u64| all.contains(ino) implies frontier.queued@.contains(ino) by {
                let keys = keys_of(manifest.ref_adds@);
                if exists|key: Key| #[trigger]
                    manifest@.ref_adds.contains(key) && (key.first == ino || key.second == ino) {
                    let key = choose|key: Key| #[trigger]
                        manifest@.ref_adds.contains(key) && (key.first == ino || key.second == ino);
                    let i = choose|i: int| 0 <= i < keys.len() && keys[i] == key;
                    assert(manifest.ref_adds@[i].key() == key);
                } else if exists|key: Key, added: Key| #[trigger]
                    references.contains(key) && #[trigger] manifest@.ref_adds.contains(added)
                        && key.second == added.second && key.name == added.name && key.first
                        == ino {
                    let (key, added) = choose|key: Key, added: Key| #[trigger]
                        references.contains(key) && #[trigger] manifest@.ref_adds.contains(added)
                            && key.second == added.second && key.name == added.name && key.first
                            == ino;
                    let i = choose|i: int| 0 <= i < keys.len() && keys[i] == added;
                    assert(manifest.ref_adds@[i].key() == added);
                    assert(references.contains(key));
                }
            }
            assert(frontier.queued@ =~= all);
        }
        frontier
    }

    /// The part of a revision that a manifest can touch: the inodes it speaks
    /// of, those whose place an added entry takes, every directory above them,
    /// and all entries that name any of these, before it is validated.
    pub fn read_revision_delta_subset(
        &self,
        revision_id: i64,
        manifest: &ChangedObjectsManifest,
    ) -> (subset: Result<Index, ManagerError>)
        requires
            self.well_formed(),
        ensures
            match subset {
                Ok(subset) => {
                    &&& subset.well_formed()
                    &&& storage_chain(self.revisions@, revision_id) matches Ok(chain)
                    &&& subset@ == delta_subset(self.revisions@, chain, manifest@)
                },
                Err(error) => storage_chain(self.revisions@, revision_id) == Err::<
                    Seq<i64>,
                    Seq<char>,
                >(error@),
            },
    {
        let chain = match self.revision_storage_chain(revision_id) {
            Ok(chain) => chain,
            Err(error) => {
                return Err(error);
            },
        };
        let ghost references = chain_refs_from(self.revisions@, chain@, 0);
        let ghost seeds = touched(references, manifest@);
        let ghost inos = with_parents(references, seeds);
        let mut frontier = self.seed(&chain, manifest);
        let mut subset = Index::new();
        let ghost mut visited = Set::<u64>::empty();
        let ghost universe = seeds.union(references.map(|key: Key| key.second));
        proof {
            vstd::seq_lib::seq_to_set_is_finite(frontier.pending@);
            assert(frontier.queued@ =~= frontier.pending@.to_set());
            lemma_chain_refs_finite(self.revisions@, chain@, 0);
            references.lemma_map_finite(|key: Key| key.second);
            assert(universe.finite());
            assert(key_set(subset.references@) =~= references.filter(
                |key: Key| visited.contains(key.first),
            ));
        }
        loop
            invariant
                self.well_formed(),
                chain_stored(self.revisions@, chain@),
                references == chain_refs_from(self.revisions@, chain@, 0),
                seeds == touched(references, manifest@),
                inos == with_parents(references, seeds),
                universe == seeds.union(references.map(|key: Key| key.second)),
                universe.finite(),
                visited.finite(),
                visited.subset_of(frontier.queued@),
                frontier.covers(visited),
                seeds.subset_of(frontier.queued@),
                frontier.queued@.subset_of(inos),
                frontier.queued@.subset_of(universe),
                forall|key: Key| #[trigger]
                    references.contains(key) && visited.contains(key.first)
                        ==> frontier.queued@.contains(key.second),
                subset.well_formed(),
                forall|ino: u64| #[trigger]
                    subset.objects@.contains_key(ino) <==> visited.contains(ino)
                        && chain_object_from(self.revisions@, chain@, ino, 0) is Some,
                forall|ino: u64| #[trigger]
                    subset.objects@.contains_key(ino) ==> Some(subset.objects@[ino])
                        == chain_object_from(self.revisions@, chain@, ino, 0),
                key_set(subset.references@) == references.filter(
                    |key: Key| visited.contains(key.first),
                ),
            ensures
                frontier.pending@.len() == 0,
            decreases universe.len() - visited.len(),
        {
            let ghost waiting = frontier.pending@;
            let ino: u64 = match frontier.pending.pop() {
                Some(ino) => ino,
                None => {
                    break ;
                },
            };
            let ghost next = visited.insert(ino);
            proof {
                assert(ino == waiting.last());
                assert(waiting[waiting.len() - 1] == ino);
                assert(!visited.contains(ino));
                assert(waiting.to_set().contains(ino));
                assert(frontier.queued@.contains(ino));
                assert(waiting =~= frontier.pending@.push(ino));
                frontier.pending@.lemma_push_to_set_commute(ino);
                assert forall|i: int| 0 <= i < frontier.pending@.len() implies !next.contains(
                    #[trigger] frontier.pending@[i],
                ) by {
                    assert(waiting[i] == frontier.pending@[i]);
                }
                assert(frontier.queued@ =~= next.union(frontier.pending@.to_set()));
                assert(frontier.covers(next));
                vstd::set_lib::lemma_len_subset(next, universe);
            }
            match self.load_revision_object_from_chain(&chain, ino) {
                Some(object) => {
                    subset.objects.insert(ino, object);
                },
                None => {},
            }
            let named = self.load_revision_refs_for_inode_from_chain(&chain, ino);
            let ghost queued_before = frontier.queued@;
            let ghost refs_before = key_set(subset.references@);
            let ghost objects_after = subset.objects@;
            let mut at: usize = 0;
            assert(keys_of(named@).take(0).to_set() =~= Set::empty());
            assert(refs_before.union(keys_of(named@).take(0).to_set()) =~= refs_before);
            while at < named.len()
                invariant
                    at <= named.len(),
                    inos == with_parents(references, seeds),
                    universe == seeds.union(references.map(|key: Key| key.second)),
                    key_set(named@) == references.filter(naming(ino)),
                    inos.contains(ino),
                    frontier.covers(next),
                    queued_before.subset_of(frontier.queued@),
                    frontier.queued@.subset_of(inos),
                    frontier.queued@.subset_of(universe),
                    subset.well_formed(),
                    subset.objects@ == objects_after,
                    key_set(subset.references@) == refs_before.union(
                        keys_of(named@).take(at as int).to_set(),
                    ),
                    forall|i: int|
                        0 <= i < at ==> frontier.queued@.contains(
                            (#[trigger] named@[i]).parent_ino,
                        ),
                decreases named.len() - at,
            {
                proof {
                    let key = named@[at as int].key();
                    assert(keys_of(named@)[at as int] == key);
                    assert(key_set(named@).contains(key));
                    assert(references.contains(key) && key.first == ino);
                    lemma_parent_within(references, seeds, key);
                    assert(references.map(|key: Key| key.second).contains(key.second));
                    lemma_take_next(keys_of(named@), at as int);
                }
                frontier.queue(named[at].parent_ino, Ghost(next));
                let ghost there = key_set(subset.references@);
                insert(&mut subset.references, named[at].duplicate());
                assert(key_set(subset.references@) =~= refs_before.union(
                    keys_of(named@).take(at + 1).to_set(),
                ));
                at += 1;
            }
            proof {
                assert(keys_of(named@).take(at as int) =~= keys_of(named@));
                assert(key_set(subset.references@) =~= references.filter(
                    |key: Key| next.contains(key.first),
                ));
                assert forall|key: Key| #[trigger]
                    references.contains(key) && next.contains(
                        key.first,
                    ) implies frontier.queued@.contains(key.second) by {
                    if key.first == ino {
                        assert(key_set(named@).contains(key));
                        let keys = keys_of(named@);
                        let i = choose|i: int| 0 <= i < keys.len() && keys[i] == key;
                        assert(named@[i].key() == key);
                        assert(frontier.queued@.contains(named@[i].parent_ino));
                    }
                }
                visited = next;
            }
        }
        proof {
            assert(frontier.pending@.to_set() =~= Set::empty());
            assert(frontier.queued@ =~= visited);
            assert(holds_parents(references, visited));
            assert(visited =~= inos);
            assert(subset@.objects =~= delta_subset(self.revisions@, chain@, manifest@).objects);
            assert(subset@.references =~= delta_subset(
                self.revisions@,
                chain@,
                manifest@,
            ).references);
        }
        Ok(subset)
    }

    /// The part of a revision that a manifest can touch. `fault` is what was
    /// found wrong with it.
    pub fn load_revision_delta_subset(
        &self,
        revision_id: i64,
        manifest: &ChangedObjectsManifest,
        fault: &Option<String>,
    ) -> (subset: Result<Index, ManagerError>)
        requires
            self.well_formed(),
        ensures
            match (storage_chain(self.revisions@, revision_id), *fault) {
                (Err(fault), _) => subset matches Err(error) && error@ == fault,
                (Ok(_), Some(fault)) => subset matches Err(error) && error@ == invalid_subset_text(
                    fault@,
                ),
                (Ok(chain), None) => subset matches Ok(subset) && subset.well_formed() && subset@
                    == delta_subset(self.revisions@, chain, manifest@),
            },
    {
        match self.read_revision_delta_subset(revision_id, manifest) {
            Ok(subset) => accept_delta_subset(subset, fault),
            Err(error) => Err(error),
        }
    }
}

proof fn lemma_parent_within(references: Set<Key>, inos: Set<u64>, key: Key)
    requires
        references.contains(key),
        with_parents(references, inos).contains(key.first),
    ensures
        with_parents(references, inos).contains(key.second),
{
    assert forall|all: Set<u64>|
        inos.subset_of(all) && #[trigger] holds_parents(references, all) implies all.contains(
        key.second,
    ) by {
        assert(all.contains(key.first));
    }
}

} // verus!
