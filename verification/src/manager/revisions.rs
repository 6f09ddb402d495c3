//! Stored revisions: a checkpoint, and the overlays that lead from it to each
//! later revision.

use crate::index::{Index, IndexView, Object};
use crate::inodes::{increasing, sorted_keys};
use crate::manager::gaps::{are_cuts_distinct, cuts_distinct};
use crate::manager::history::{are_distinct, comparisons_distinct};
use crate::manager::loading::LoadStep;
use crate::manager::metadata::{object_in, RevisionMetadata};
use crate::manager::provenance::{is_provenance_stored, provenance_stored};
use crate::manager::rows::{no_rows, Overlay, RefOverride, Revision, RevisionState, Store};
use crate::manager::table::{find_number, numbered};
use crate::manager::types::ManagerError;
use crate::ordered::{ascending, insert, is_ascending, key_set, keys_of, withdraw, Key, Keyed};
use crate::text::{context_text, in_context, signed, with_signed};
use std::collections::BTreeMap;
use vstd::prelude::*;

verus! {

broadcast use vstd::std_specs::btree::group_btree_axioms;

/// How many overlays may lie between a revision and its checkpoint.
pub const MAX_DEPTH: usize = 32;

impl Keyed for RefOverride {
    open spec fn key(&self) -> Key {
        self.reference.key()
    }

    fn precedes(&self, other: &Self) -> (less: bool) {
        self.reference.precedes(&other.reference)
    }

    fn duplicate(&self) -> (copy: Self) {
        RefOverride { reference: self.reference.duplicate(), present: self.present }
    }
}

/// The directory entries that an overlay changes, and whether it adds each.
pub open spec fn changes_of(overrides: Seq<RefOverride>) -> Seq<(Key, bool)> {
    overrides.map_values(|change: RefOverride| (change.reference.key(), change.present))
}

/// Whether the entries of a stored revision are strictly ascending.
pub open spec fn revision_sound(revision: Revision) -> bool {
    &&& ascending(keys_of(revision.overlay.references@))
    &&& (revision.checkpoint matches Some(checkpoint) ==> checkpoint.index.well_formed())
}

/// Whether the entries of every stored revision are strictly ascending.
pub open spec fn revisions_sound(revisions: Seq<Revision>) -> bool {
    forall|i: int| 0 <= i < revisions.len() ==> revision_sound(#[trigger] revisions[i])
}

/// Whether the depth of every revision bounds the chain that it is stored as:
/// a revision rests on a ready one that is less deep.
pub open spec fn depths_sound(revisions: Seq<Revision>) -> bool {
    forall|i: int|
        0 <= i < revisions.len() ==> depth_sound(revisions, #[trigger] revisions[i])
}

/// Whether a revision rests on a ready one that is less deep, or on none.
pub open spec fn depth_sound(revisions: Seq<Revision>, revision: Revision) -> bool {
    &&& 0 <= revision.delta_depth <= MAX_DEPTH
    &&& revision.storage_base_revision_id matches Some(base) ==> {
        &&& numbered(revisions, base) matches Some(below)
        &&& below.state == RevisionState::Ready
        &&& below.delta_depth < revision.delta_depth
    }
}

fn are_depths_sound(revisions: &Vec<Revision>) -> (sound: bool)
    ensures
        sound == depths_sound(revisions@),
{
    let mut at: usize = 0;
    while at < revisions.len()
        invariant
            at <= revisions@.len(),
            forall|i: int| 0 <= i < at ==> depth_sound(revisions@, #[trigger] revisions@[i]),
        decreases revisions@.len() - at,
    {
        let depth: i64 = revisions[at].delta_depth;
        let rests: bool = match revisions[at].storage_base_revision_id {
            Some(base) => match find_number(revisions, base) {
                Some(below) => revisions[below].state == RevisionState::Ready
                    && revisions[below].delta_depth < depth,
                None => false,
            },
            None => true,
        };
        if depth < 0 || depth > MAX_DEPTH as i64 || !rests {
            assert(!depth_sound(revisions@, revisions@[at as int]));
            return false;
        }
        at += 1;
    }
    true
}

impl Store {
    /// The entries of every stored revision are strictly ascending, none is
    /// stored deeper than it says, no two retained snapshots are compared twice,
    /// every comparison that a revision came from is stored, and a watch has at
    /// most one cut at each sequence.
    pub open spec fn well_formed(&self) -> bool {
        &&& revisions_sound(self.revisions@)
        &&& depths_sound(self.revisions@)
        &&& comparisons_distinct(self.comparisons@)
        &&& provenance_stored(self.revisions@, self.comparisons@)
        &&& cuts_distinct(self.cuts@)
    }

    /// Whether the store is well formed: what one that was read from outside must
    /// show before it is used.
    pub fn is_sound(&self) -> (sound: bool)
        ensures
            sound == self.well_formed(),
    {
        let mut at: usize = 0;
        while at < self.revisions.len()
            invariant
                at <= self.revisions@.len(),
                forall|i: int| 0 <= i < at ==> revision_sound(#[trigger] self.revisions@[i]),
            decreases self.revisions@.len() - at,
        {
            let revision = &self.revisions[at];
            let kept = match &revision.checkpoint {
                Some(checkpoint) => checkpoint.index.is_sound(),
                None => true,
            };
            if !kept || !is_ascending(&revision.overlay.references) {
                assert(!revision_sound(self.revisions@[at as int]));
                return false;
            }
            at += 1;
        }
        are_depths_sound(&self.revisions) && are_distinct(&self.comparisons)
            && is_provenance_stored(&self.revisions, &self.comparisons)
            && are_cuts_distinct(&self.cuts)
    }
}

/// The objects that an overlay leaves.
pub open spec fn overlaid_objects(
    base: Map<u64, Object>,
    overlay: Map<u64, Option<Object>>,
) -> Map<u64, Object> {
    Map::new(
        |ino: u64|
            if overlay.contains_key(ino) {
                overlay[ino] is Some
            } else {
                base.contains_key(ino)
            },
        |ino: u64|
            if overlay.contains_key(ino) {
                overlay[ino]->0
            } else {
                base[ino]
            },
    )
}

/// The directory entries after the changes from `at` on. A change that was
/// already there is a fault.
pub open spec fn overlaid_refs_from(
    references: Set<Key>,
    changes: Seq<(Key, bool)>,
    at: int,
) -> Result<Set<Key>, Seq<char>>
    decreases changes.len() - at,
{
    if at < 0 || at >= changes.len() {
        Ok(references)
    } else {
        let (key, present) = changes[at];
        if present && references.contains(key) {
            Err("stored overlay adds an inherited reference"@)
        } else if !present && !references.contains(key) {
            Err("stored overlay deletes an absent reference"@)
        } else if present {
            overlaid_refs_from(references.insert(key), changes, at + 1)
        } else {
            overlaid_refs_from(references.remove(key), changes, at + 1)
        }
    }
}

/// The index that an overlay makes of the one below it.
pub open spec fn overlaid(base: IndexView, overlay: Overlay) -> Result<IndexView, Seq<char>> {
    match overlaid_refs_from(base.references, changes_of(overlay.references@), 0) {
        Ok(references) => Ok(
            IndexView { objects: overlaid_objects(base.objects, overlay.objects@), references },
        ),
        Err(fault) => Err(fault),
    }
}

fn overlay_objects(overlay: &BTreeMap<u64, Option<Object>>, objects: &mut BTreeMap<u64, Object>)
    ensures
        final(objects)@ == overlaid_objects(old(objects)@, overlay@),
{
    let ghost base = objects@;
    let inos = sorted_keys(overlay);
    let mut at: usize = 0;
    while at < inos.len()
        invariant
            at <= inos.len(),
            inos@.to_set() == overlay@.dom(),
            increasing(inos@),
            forall|ino: u64| #[trigger]
                objects@.contains_key(ino) <==> if inos@.take(at as int).contains(ino) {
                    overlay@[ino] is Some
                } else {
                    base.contains_key(ino)
                },
            forall|ino: u64| #[trigger]
                objects@.contains_key(ino) ==> objects@[ino] == if inos@.take(
                    at as int,
                ).contains(ino) {
                    overlay@[ino]->0
                } else {
                    base[ino]
                },
        decreases inos.len() - at,
    {
        let ino: u64 = inos[at];
        proof {
            assert(inos@.to_set().contains(inos@[at as int]));
            let next = inos@.take(at + 1);
            assert forall|n: u64| next.contains(n) == (n == ino || inos@.take(at as int).contains(
                n,
            )) by {
                if next.contains(n) {
                    let i = choose|i: int| 0 <= i < next.len() && next[i] == n;
                    if i < at {
                        assert(inos@.take(at as int)[i] == n);
                    }
                }
                if inos@.take(at as int).contains(n) {
                    let i = choose|i: int| 0 <= i < at && inos@.take(at as int)[i] == n;
                    assert(next[i] == n);
                }
                assert(next[at as int] == ino);
            }
        }
        match overlay.get(&ino) {
            Some(Some(object)) => {
                objects.insert(ino, *object);
            },
            Some(None) => {
                objects.remove(&ino);
            },
            None => {
                assert(false);
            },
        }
        at += 1;
    }
    proof {
        assert(inos@.take(at as int) =~= inos@);
        assert forall|ino: u64| inos@.contains(ino) == overlay@.contains_key(ino) by {
            assert(inos@.to_set().contains(ino) == overlay@.dom().contains(ino));
        }
        assert(objects@ =~= overlaid_objects(base, overlay@));
    }
}

/// Lays an overlay over an index.
pub fn apply_stored_overrides(overlay: &Overlay, index: &mut Index) -> (applied: Result<
    (),
    ManagerError,
>)
    requires
        old(index).well_formed(),
    ensures
        match applied {
            Ok(_) => final(index).well_formed() && overlaid(old(index)@, *overlay) == Ok::<
                IndexView,
                Seq<char>,
            >(final(index)@),
            Err(error) => overlaid(old(index)@, *overlay) == Err::<IndexView, Seq<char>>(error@),
        },
{
    let ghost base = index@;
    let ghost changes = changes_of(overlay.references@);
    let mut at: usize = 0;
    while at < overlay.references.len()
        invariant
            at <= overlay.references.len(),
            changes == changes_of(overlay.references@),
            index.well_formed(),
            index.objects == old(index).objects,
            base == old(index)@,
            overlaid_refs_from(base.references, changes, 0) == overlaid_refs_from(
                key_set(index.references@),
                changes,
                at as int,
            ),
        decreases overlay.references.len() - at,
    {
        let change = &overlay.references[at];
        assert(changes[at as int] == (change.reference.key(), change.present));
        if change.present {
            if !insert(&mut index.references, change.reference.duplicate()) {
                return Err(ManagerError::new("stored overlay adds an inherited reference"));
            }
        } else if !withdraw(&mut index.references, &change.reference) {
            return Err(ManagerError::new("stored overlay deletes an absent reference"));
        }
        at += 1;
    }
    overlay_objects(&overlay.objects, &mut index.objects);
    Ok(())
}

/// The revisions from `current` down to the checkpoint that it rests on, the
/// revision itself first. `above` of them have been walked before.
pub open spec fn chain_from(revisions: Seq<Revision>, current: i64, above: nat) -> Result<
    Seq<i64>,
    Seq<char>,
>
    decreases MAX_DEPTH + 1 - above,
{
    if above > MAX_DEPTH {
        Err("revision overlay chain exceeds the maximum depth of 32"@)
    } else {
        match numbered(revisions, current) {
            None => Err("revision "@ + signed(current as int) + " does not exist"@),
            Some(revision) => if revision.state != RevisionState::Ready {
                Err("revision "@ + signed(current as int) + " is not ready"@)
            } else {
                match revision.storage_base_revision_id {
                    None => Ok(seq![current]),
                    Some(base) => match chain_from(revisions, base, above + 1) {
                        Ok(rest) => Ok(seq![current] + rest),
                        Err(fault) => Err(fault),
                    },
                }
            },
        }
    }
}

/// The revisions that a revision is stored as.
pub open spec fn storage_chain(revisions: Seq<Revision>, id: i64) -> Result<Seq<i64>, Seq<char>> {
    chain_from(revisions, id, 0)
}

/// Whether every number is that of a revision.
pub open spec fn chain_stored(revisions: Seq<Revision>, chain: Seq<i64>) -> bool {
    &&& chain.len() > 0
    &&& forall|i: int| 0 <= i < chain.len() ==> numbered(revisions, #[trigger] chain[i]) is Some
}

pub(crate) proof fn lemma_chain_stored(revisions: Seq<Revision>, current: i64, above: nat)
    ensures
        chain_from(revisions, current, above) matches Ok(chain) ==> chain_stored(revisions, chain),
    decreases MAX_DEPTH + 1 - above,
{
    if above <= MAX_DEPTH {
        if let Some(revision) = numbered(revisions, current) {
            if let Some(base) = revision.storage_base_revision_id {
                lemma_chain_stored(revisions, base, above + 1);
            }
        }
    }
}

/// The index of a ready checkpoint.
pub open spec fn checkpoint_of(revisions: Seq<Revision>, id: i64) -> Result<IndexView, Seq<char>> {
    match numbered(revisions, id) {
        Some(revision) => match revision.checkpoint {
            Some(checkpoint) => if revision.state == RevisionState::Ready && checkpoint.state
                == RevisionState::Ready {
                Ok(checkpoint.index@)
            } else {
                Err("revision "@ + signed(id as int) + " has no ready checkpoint"@)
            },
            None => Err("revision "@ + signed(id as int) + " has no ready checkpoint"@),
        },
        None => Err("revision "@ + signed(id as int) + " has no ready checkpoint"@),
    }
}

/// The index of the revision at `at` in a chain.
pub open spec fn chain_index_from(revisions: Seq<Revision>, chain: Seq<i64>, at: int) -> Result<
    IndexView,
    Seq<char>,
>
    decreases chain.len() - at,
{
    if at >= chain.len() - 1 {
        checkpoint_of(revisions, chain.last())
    } else {
        match chain_index_from(revisions, chain, at + 1) {
            Ok(base) => overlaid(base, numbered(revisions, chain[at])->0.overlay),
            Err(fault) => Err(fault),
        }
    }
}

/// The index of a revision.
pub open spec fn revision_index(revisions: Seq<Revision>, id: i64) -> Result<IndexView, Seq<char>> {
    match storage_chain(revisions, id) {
        Ok(chain) => chain_index_from(revisions, chain, 0),
        Err(fault) => Err(fault),
    }
}

/// What is said of the revision at `at` in a chain whose index is found invalid.
pub open spec fn invalid_text(chain: Seq<i64>, at: int, fault: Seq<char>) -> Seq<char> {
    if at >= chain.len() - 1 {
        in_context("stored checkpoint is invalid"@, fault)
    } else {
        in_context("stored revision "@ + signed(chain[at] as int) + " is invalid"@, fault)
    }
}

/// What was read of the revision at `at` in a chain, unless it is among the
/// invalid ones.
pub open spec fn validated(
    read: Result<IndexView, Seq<char>>,
    chain: Seq<i64>,
    at: int,
    invalid: Map<i64, String>,
) -> Result<IndexView, Seq<char>> {
    match read {
        Ok(index) => if invalid.contains_key(chain[at]) {
            Err(invalid_text(chain, at, invalid[chain[at]]@))
        } else {
            Ok(index)
        },
        Err(fault) => Err(fault),
    }
}

/// The index of the revision at `at` in a chain, where neither it nor one below
/// it is among the invalid ones.
pub open spec fn chain_loaded_from(
    revisions: Seq<Revision>,
    chain: Seq<i64>,
    at: int,
    invalid: Map<i64, String>,
) -> Result<IndexView, Seq<char>>
    decreases chain.len() - at,
{
    if at >= chain.len() - 1 {
        validated(checkpoint_of(revisions, chain.last()), chain, chain.len() - 1, invalid)
    } else {
        match chain_loaded_from(revisions, chain, at + 1, invalid) {
            Ok(base) => validated(
                overlaid(base, numbered(revisions, chain[at])->0.overlay),
                chain,
                at,
                invalid,
            ),
            Err(fault) => Err(fault),
        }
    }
}

/// The index of a revision, where every index on the way to it is valid. The
/// others are among the invalid ones, each with what was found wrong with it.
pub open spec fn revision_loaded(
    revisions: Seq<Revision>,
    id: i64,
    invalid: Map<i64, String>,
) -> Result<IndexView, Seq<char>> {
    match storage_chain(revisions, id) {
        Ok(chain) => chain_loaded_from(revisions, chain, 0, invalid),
        Err(fault) => Err(fault),
    }
}

proof fn lemma_loaded_is_stored(
    revisions: Seq<Revision>,
    chain: Seq<i64>,
    at: int,
    invalid: Map<i64, String>,
)
    requires
        0 <= at < chain.len(),
    ensures
        chain_loaded_from(revisions, chain, at, invalid) matches Ok(index) ==> chain_index_from(
            revisions,
            chain,
            at,
        ) == Ok::<IndexView, Seq<char>>(index),
        (forall|i: int| at <= i < chain.len() ==> !invalid.contains_key(#[trigger] chain[i]))
            ==> chain_loaded_from(revisions, chain, at, invalid) == chain_index_from(
            revisions,
            chain,
            at,
        ),
    decreases chain.len() - at,
{
    if at < chain.len() - 1 {
        lemma_loaded_is_stored(revisions, chain, at + 1, invalid);
    }
}

/// A revision is only ever loaded as it is stored, and where nothing on the way
/// to it is invalid, it is.
pub proof fn law_loaded_revision_is_stored(
    revisions: Seq<Revision>,
    id: i64,
    invalid: Map<i64, String>,
)
    ensures
        revision_loaded(revisions, id, invalid) matches Ok(index) ==> revision_index(revisions, id)
            == Ok::<IndexView, Seq<char>>(index),
        (storage_chain(revisions, id) matches Ok(chain) ==> forall|i: int|
            0 <= i < chain.len() ==> !invalid.contains_key(#[trigger] chain[i]))
            ==> revision_loaded(revisions, id, invalid) == revision_index(revisions, id),
{
    if let Ok(chain) = storage_chain(revisions, id) {
        lemma_chain_stored(revisions, id, 0);
        lemma_loaded_is_stored(revisions, chain, 0, invalid);
    }
}

/// A revision on the way to which an invalid index lies is refused.
pub proof fn law_invalid_revision_is_refused(
    revisions: Seq<Revision>,
    id: i64,
    invalid: Map<i64, String>,
    at: int,
)
    requires
        storage_chain(revisions, id) matches Ok(chain) && 0 <= at < chain.len()
            && invalid.contains_key(chain[at]),
    ensures
        revision_loaded(revisions, id, invalid) is Err,
{
    lemma_loaded_fault(revisions, storage_chain(revisions, id)->Ok_0, 0, at, invalid);
}

proof fn lemma_loaded_fault(
    revisions: Seq<Revision>,
    chain: Seq<i64>,
    top: int,
    at: int,
    invalid: Map<i64, String>,
)
    requires
        0 <= top <= at < chain.len(),
    ensures
        chain_loaded_from(revisions, chain, at, invalid) matches Err(fault) ==> chain_loaded_from(
            revisions,
            chain,
            top,
            invalid,
        ) == Err::<IndexView, Seq<char>>(fault),
    decreases at - top,
{
    if top < at {
        lemma_loaded_fault(revisions, chain, top + 1, at, invalid);
    }
}

/// The object with the inode number, as the newest overlay that speaks of it
/// has it, or else the checkpoint.
pub open spec fn chain_object_from(
    revisions: Seq<Revision>,
    chain: Seq<i64>,
    ino: u64,
    at: int,
) -> Option<Object>
    decreases chain.len() - at,
{
    if at >= chain.len() - 1 {
        match numbered(revisions, chain.last())->0.checkpoint {
            Some(checkpoint) => object_in(checkpoint.index.objects@, ino),
            None => None,
        }
    } else {
        let overlay = numbered(revisions, chain[at])->0.overlay.objects@;
        if overlay.contains_key(ino) {
            overlay[ino]
        } else {
            chain_object_from(revisions, chain, ino, at + 1)
        }
    }
}

/// The directory entries after the changes from `at` on, whether or not they
/// were already there.
pub open spec fn merged_refs_from(references: Set<Key>, changes: Seq<(Key, bool)>, at: int) -> Set<
    Key,
>
    decreases changes.len() - at,
{
    if at < 0 || at >= changes.len() {
        references
    } else if changes[at].1 {
        merged_refs_from(references.insert(changes[at].0), changes, at + 1)
    } else {
        merged_refs_from(references.remove(changes[at].0), changes, at + 1)
    }
}

/// The directory entries of the revision at `at` in a chain.
pub open spec fn chain_refs_from(revisions: Seq<Revision>, chain: Seq<i64>, at: int) -> Set<Key>
    decreases chain.len() - at,
{
    if at >= chain.len() - 1 {
        match numbered(revisions, chain.last())->0.checkpoint {
            Some(checkpoint) => key_set(checkpoint.index.references@),
            None => Set::empty(),
        }
    } else {
        merged_refs_from(
            chain_refs_from(revisions, chain, at + 1),
            changes_of(numbered(revisions, chain[at])->0.overlay.references@),
            0,
        )
    }
}

/// How many objects the user owns, as the newest overlay that speaks of the
/// user has it, or else the checkpoint.
pub open spec fn chain_owner_count_from(
    revisions: Seq<Revision>,
    chain: Seq<i64>,
    uid: u64,
    at: int,
) -> i64
    decreases chain.len() - at,
{
    if at >= chain.len() - 1 {
        match numbered(revisions, chain.last())->0.checkpoint {
            Some(checkpoint) => if checkpoint.owner_counts@.contains_key(uid) {
                checkpoint.owner_counts@[uid]
            } else {
                0
            },
            None => 0,
        }
    } else {
        let overlay = numbered(revisions, chain[at])->0.overlay.owner_counts@;
        if overlay.contains_key(uid) {
            overlay[uid]
        } else {
            chain_owner_count_from(revisions, chain, uid, at + 1)
        }
    }
}

proof fn lemma_overlaid_is_merged(references: Set<Key>, changes: Seq<(Key, bool)>, at: int)
    ensures
        overlaid_refs_from(references, changes, at) matches Ok(after) ==> after == merged_refs_from(
            references,
            changes,
            at,
        ),
    decreases changes.len() - at,
{
    if 0 <= at < changes.len() {
        let (key, present) = changes[at];
        if present {
            lemma_overlaid_is_merged(references.insert(key), changes, at + 1);
        } else {
            lemma_overlaid_is_merged(references.remove(key), changes, at + 1);
        }
    }
}

/// Reading single objects and entries through a chain agrees with loading the
/// whole index.
pub proof fn law_chain_agrees(revisions: Seq<Revision>, chain: Seq<i64>, at: int, ino: u64)
    requires
        chain_stored(revisions, chain),
        0 <= at < chain.len(),
    ensures
        chain_index_from(revisions, chain, at) matches Ok(index) ==> {
            &&& chain_object_from(revisions, chain, ino, at) == object_in(index.objects, ino)
            &&& chain_refs_from(revisions, chain, at) == index.references
        },
    decreases chain.len() - at,
{
    if at < chain.len() - 1 {
        law_chain_agrees(revisions, chain, at + 1, ino);
        if let Ok(base) = chain_index_from(revisions, chain, at + 1) {
            lemma_overlaid_is_merged(
                base.references,
                changes_of(numbered(revisions, chain[at])->0.overlay.references@),
                0,
            );
        }
    }
}

/// The summary of a ready revision.
pub open spec fn revision_summary(revisions: Seq<Revision>, id: i64) -> Result<
    RevisionMetadata,
    Seq<char>,
> {
    match numbered(revisions, id) {
        Some(revision) => if revision.state == RevisionState::Ready {
            Ok(revision.summary)
        } else {
            Err(no_rows())
        },
        None => Err(no_rows()),
    }
}

impl Store {
    /// The revisions that a revision is stored as: itself, then each one that
    /// it rests on, down to a checkpoint.
    pub fn revision_storage_chain(&self, revision_id: i64) -> (chain: Result<
        Vec<i64>,
        ManagerError,
    >)
        ensures
            match chain {
                Ok(chain) => storage_chain(self.revisions@, revision_id) == Ok::<
                    Seq<i64>,
                    Seq<char>,
                >(chain@) && chain_stored(self.revisions@, chain@),
                Err(error) => storage_chain(self.revisions@, revision_id) == Err::<
                    Seq<i64>,
                    Seq<char>,
                >(error@),
            },
    {
        let mut chain: Vec<i64> = Vec::new();
        let mut current: i64 = revision_id;
        proof {
            lemma_chain_stored(self.revisions@, revision_id, 0);
            if let Ok(rest) = chain_from(self.revisions@, current, 0) {
                assert(chain@ + rest =~= rest);
            }
        }
        loop
            invariant
                chain@.len() <= MAX_DEPTH + 1,
                storage_chain(self.revisions@, revision_id) matches Ok(whole) ==> chain_stored(
                    self.revisions@,
                    whole,
                ),
                storage_chain(self.revisions@, revision_id) == match chain_from(
                    self.revisions@,
                    current,
                    chain@.len(),
                ) {
                    Ok(rest) => Ok::<Seq<i64>, Seq<char>>(chain@ + rest),
                    Err(fault) => Err::<Seq<i64>, Seq<char>>(fault),
                },
            decreases MAX_DEPTH + 1 - chain@.len(),
        {
            if chain.len() > MAX_DEPTH {
                return Err(
                    ManagerError::new("revision overlay chain exceeds the maximum depth of 32"),
                );
            }
            let ghost before = chain@;
            match find_number(&self.revisions, current) {
                None => {
                    return Err(
                        ManagerError::of(with_signed("revision ", current, " does not exist")),
                    );
                },
                Some(at) => {
                    if self.revisions[at].state != RevisionState::Ready {
                        return Err(
                            ManagerError::of(with_signed("revision ", current, " is not ready")),
                        );
                    }
                    chain.push(current);
                    assert(chain@ =~= before + seq![current]);
                    match self.revisions[at].storage_base_revision_id {
                        Some(base) => {
                            proof {
                                if let Ok(rest) = chain_from(
                                    self.revisions@,
                                    base,
                                    chain@.len(),
                                ) {
                                    assert(before + (seq![current] + rest) =~= chain@ + rest);
                                }
                            }
                            current = base;
                        },
                        None => {
                            return Ok(chain);
                        },
                    }
                },
            }
        }
    }

    /// The index that a ready checkpoint holds, before it is validated.
    pub fn read_checkpoint(&self, revision_id: i64) -> (index: Result<Index, ManagerError>)
        requires
            self.well_formed(),
        ensures
            match index {
                Ok(index) => index.well_formed() && checkpoint_of(self.revisions@, revision_id)
                    == Ok::<IndexView, Seq<char>>(index@),
                Err(error) => checkpoint_of(self.revisions@, revision_id) == Err::<
                    IndexView,
                    Seq<char>,
                >(error@),
            },
    {
        match find_number(&self.revisions, revision_id) {
            Some(at) => {
                assert(revision_sound(self.revisions@[at as int]));
                match &self.revisions[at].checkpoint {
                    Some(checkpoint) => {
                        if self.revisions[at].state == RevisionState::Ready && checkpoint.state
                            == RevisionState::Ready {
                            return Ok(checkpoint.index.copy());
                        }
                    },
                    None => {},
                }
            },
            None => {},
        }
        Err(ManagerError::of(with_signed("revision ", revision_id, " has no ready checkpoint")))
    }

    /// The index that a ready checkpoint holds. `fault` is what was found wrong
    /// with it.
    pub fn load_checkpoint(&self, revision_id: i64, fault: &Option<String>) -> (index: Result<
        Index,
        ManagerError,
    >)
        requires
            self.well_formed(),
        ensures
            match (checkpoint_of(self.revisions@, revision_id), *fault) {
                (Err(fault), _) => index matches Err(error) && error@ == fault,
                (Ok(_), Some(fault)) => index matches Err(error) && error@ == in_context(
                    "stored checkpoint is invalid"@,
                    fault@,
                ),
                (Ok(stored), None) => index matches Ok(index) && index.well_formed() && index@
                    == stored,
            },
    {
        match (self.read_checkpoint(revision_id), fault) {
            (Ok(_), Some(fault)) => Err(
                ManagerError::of(context_text("stored checkpoint is invalid", fault.as_str())),
            ),
            (read, _) => read,
        }
    }

    /// The index of a revision. `invalid` says of each revision on the way to it
    /// whose index was found invalid what was found wrong.
    pub fn load_revision(&self, revision_id: i64, invalid: &BTreeMap<i64, String>) -> (index: Result<
        Index,
        ManagerError,
    >)
        requires
            self.well_formed(),
        ensures
            match index {
                Ok(index) => index.well_formed() && revision_loaded(
                    self.revisions@,
                    revision_id,
                    invalid@,
                ) == Ok::<IndexView, Seq<char>>(index@),
                Err(error) => revision_loaded(self.revisions@, revision_id, invalid@) == Err::<
                    IndexView,
                    Seq<char>,
                >(error@),
            },
    {
        let mut loading = match self.begin_load(revision_id) {
            Ok(loading) => loading,
            Err(error) => {
                proof {
                    if let Ok(chain) = storage_chain(self.revisions@, revision_id) {
                        lemma_chain_stored(self.revisions@, revision_id, 0);
                        lemma_loaded_fault(self.revisions@, chain, 0, chain.len() - 1, invalid@);
                    }
                }
                return Err(error);
            },
        };
        loop
            invariant
                self.well_formed(),
                loading.right(self.revisions@),
                loading.revision_id == revision_id,
                chain_loaded_from(
                    self.revisions@,
                    loading.chain@,
                    loading.left as int,
                    invalid@,
                ) == validated(
                    Ok(loading.index@),
                    loading.chain@,
                    loading.left as int,
                    invalid@,
                ),
            decreases loading.left,
        {
            proof {
                let chain = loading.chain@;
                lemma_loaded_fault(self.revisions@, chain, 0, loading.left as int, invalid@);
                if loading.left > 0 {
                    lemma_loaded_fault(self.revisions@, chain, 0, loading.left - 1, invalid@);
                }
            }
            let fault: Option<String> = match invalid.get(&loading.chain[loading.left]) {
                Some(fault) => Some(fault.as_str().to_owned()),
                None => None,
            };
            match self.go_on_loading(loading, &fault) {
                Ok(LoadStep::Loaded(index)) => {
                    return Ok(index);
                },
                Ok(LoadStep::Validate(next)) => {
                    loading = next;
                },
                Err(error) => {
                    return Err(error);
                },
            }
        }
    }

    /// The summary of a ready revision.
    pub fn load_revision_metadata(&self, revision_id: i64) -> (summary: Result<
        RevisionMetadata,
        ManagerError,
    >)
        ensures
            match summary {
                Ok(summary) => revision_summary(self.revisions@, revision_id) == Ok::<
                    RevisionMetadata,
                    Seq<char>,
                >(summary),
                Err(error) => revision_summary(self.revisions@, revision_id) == Err::<
                    RevisionMetadata,
                    Seq<char>,
                >(error@),
            },
    {
        match find_number(&self.revisions, revision_id) {
            Some(at) => if self.revisions[at].state == RevisionState::Ready {
                Ok(self.revisions[at].summary)
            } else {
                Err(ManagerError::new("Query returned no rows"))
            },
            None => Err(ManagerError::new("Query returned no rows")),
        }
    }
}

} // verus!
