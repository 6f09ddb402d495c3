//! Storing a revision as a checkpoint of its own.

use crate::index::{Index, IndexView, Object};
use crate::inodes::sorted_keys;
use crate::manager::metadata::{RevisionMetadata, SUMMARY_VERSION};
use crate::manager::owners::{
    counts_owners, index_owner_counts, owned_by, owner_uid_xor, owning, xor_of,
};
use crate::manager::reading::lemma_depths_compacted;
use crate::manager::revisions::{
    chain_from, chain_index_from, checkpoint_of, law_loaded_revision_is_stored,
    lemma_chain_stored, revision_index, revision_sound, MAX_DEPTH,
};
use crate::manager::rows::{Checkpoint, Overlay, Revision, RevisionState, Store};
use crate::manager::stage::STORED_MAX;
use crate::manager::table::{find_number, lemma_slot, numbered, slot, slot_from};
use crate::manager::types::ManagerError;
use crate::manifest::lemma_ascending_len;
use crate::ordered::keys_of;
use crate::text::{context_text, in_context};
use std::collections::BTreeMap;
use vstd::prelude::*;

verus! {

broadcast use vstd::std_specs::btree::group_btree_axioms;

/// What only a whole index shows: its digests, its owner where there is just
/// one, and how many of its objects carry privileged metadata.
#[derive(Clone, Copy, Debug, Eq, PartialEq)]
pub struct IndexDigest {
    pub state_hash: [u8; 32],
    pub single_owner_uid: Option<u64>,
    pub privileged_metadata_count: u64,
    pub security_state_hash: [u8; 32],
}

/// What only the index of a revision shows when it is compacted.
#[derive(Debug, Eq, PartialEq)]
pub struct RevisionReport {
    /// The digest of the index, or why it cannot be loaded.
    pub digest: Result<IndexDigest, String>,
    /// What was found wrong with a checkpoint that the revision has although it
    /// rests on another.
    pub checkpoint_fault: Option<String>,
}

/// The users that own objects.
pub open spec fn owners_of(objects: Map<u64, Object>) -> Set<u64> {
    Set::new(|uid: u64| owned_by(objects, objects.dom(), uid).len() > 0)
}

/// Why the owners of objects cannot be counted.
pub open spec fn owners_fault(objects: Map<u64, Object>) -> Option<Seq<char>> {
    if objects.dom().len() == 0 {
        Some("index has no object owners"@)
    } else if exists|uid: u64| #[trigger]
        owned_by(objects, objects.dom(), uid).len() > i64::MAX {
        Some("owner object count overflow"@)
    } else if owners_of(objects).len() > STORED_MAX {
        Some("owner cardinality overflow"@)
    } else {
        None
    }
}

/// The summary of a whole index.
pub open spec fn summary_of(index: IndexView, digest: IndexDigest) -> RevisionMetadata {
    RevisionMetadata {
        summary_version: SUMMARY_VERSION,
        owner_cardinality: owners_of(index.objects).len() as i64,
        owner_uid_xor: xor_of(owners_of(index.objects)),
        object_count: index.objects.dom().len() as i64,
        ref_count: index.references.len() as i64,
        state_hash: digest.state_hash,
        single_owner_uid: digest.single_owner_uid,
        privileged_metadata_count: digest.privileged_metadata_count as i64,
        security_state_hash: digest.security_state_hash,
    }
}

/// Who owns the objects of an index.
#[derive(Debug)]
pub struct OwnerTotals {
    pub counts: BTreeMap<u64, i64>,
    pub cardinality: i64,
    pub uid_xor: u64,
}

/// Counts the owners of an index.
pub fn total_owners(index: &Index) -> (totals: Result<OwnerTotals, ManagerError>)
    ensures
        match totals {
            Ok(totals) => {
                &&& owners_fault(index.objects@) is None
                &&& counts_owners(totals.counts@, index.objects@, index.objects@.dom())
                &&& totals.cardinality == owners_of(index.objects@).len()
                &&& totals.uid_xor == xor_of(owners_of(index.objects@))
            },
            Err(error) => owners_fault(index.objects@) == Some(error@),
        },
{
    let counts = match index_owner_counts(index) {
        Ok(counts) => counts,
        Err(error) => {
            return Err(error);
        },
    };
    proof {
        let objects = index.objects@;
        assert forall|uid: u64| counts@.dom().contains(uid) == owners_of(objects).contains(uid) by {
            assert(counts@.contains_key(uid) <==> owned_by(objects, objects.dom(), uid).len() > 0);
        }
        assert(counts@.dom() =~= owners_of(objects));
        assert forall|uid: u64| owning(counts@).contains(uid) == owners_of(objects).contains(
            uid,
        ) by {
            assert(counts@.contains_key(uid) <==> owned_by(objects, objects.dom(), uid).len() > 0);
        }
        assert(owning(counts@) =~= owners_of(objects));
        assert forall|uid: u64| #[trigger] owned_by(objects, objects.dom(), uid).len()
            <= i64::MAX by {
            assert(counts@.contains_key(uid) <==> owned_by(objects, objects.dom(), uid).len() > 0);
        }
    }
    if counts.len() as u64 > STORED_MAX {
        return Err(ManagerError::new("owner cardinality overflow"));
    }
    let cardinality: i64 = counts.len() as i64;
    let uid_xor: u64 = owner_uid_xor(&counts);
    Ok(OwnerTotals { counts, cardinality, uid_xor })
}

/// Whether some object's privilege flags are too large to be stored.
pub open spec fn flags_overflow(objects: Map<u64, Object>) -> bool {
    exists|ino: u64| #[trigger]
        objects.contains_key(ino) && objects[ino].privilege_flags > STORED_MAX
}

/// Whether some object's privilege flags are too large to be stored.
pub fn has_flags_overflow(objects: &BTreeMap<u64, Object>) -> (overflow: bool)
    ensures
        overflow == flags_overflow(objects@),
{
    let inos = sorted_keys(objects);
    let mut at: usize = 0;
    while at < inos.len()
        invariant
            at <= inos.len(),
            inos@.to_set() == objects@.dom(),
            forall|i: int|
                0 <= i < at ==> objects@[#[trigger] inos@[i]].privilege_flags <= STORED_MAX,
        decreases inos.len() - at,
    {
        assert(inos@.to_set().contains(inos@[at as int]));
        match objects.get(&inos[at]) {
            Some(object) => {
                if object.privilege_flags > STORED_MAX {
                    assert(objects@.contains_key(inos@[at as int]));
                    return true;
                }
            },
            None => {
                assert(false);
            },
        }
        at += 1;
    }
    proof {
        assert forall|ino: u64| #[trigger] objects@.contains_key(ino) implies objects@[ino].privilege_flags
            <= STORED_MAX by {
            assert(inos@.to_set().contains(ino));
            let i = choose|i: int| 0 <= i < inos@.len() && inos@[i] == ino;
            assert(objects@[inos@[i]].privilege_flags <= STORED_MAX);
        }
    }
    false
}

/// Why a revision cannot be compacted.
pub open spec fn compact_fault(
    revisions: Seq<Revision>,
    id: i64,
    digest: IndexDigest,
) -> Option<Seq<char>> {
    match revision_index(revisions, id) {
        Err(fault) => Some(fault),
        Ok(index) => if index.objects.dom().len() > STORED_MAX {
            Some("checkpoint object count overflow"@)
        } else if index.references.len() > STORED_MAX {
            Some("checkpoint reference count overflow"@)
        } else if owners_fault(index.objects) is Some {
            owners_fault(index.objects)
        } else if digest.privileged_metadata_count > STORED_MAX {
            Some("privileged metadata count overflow"@)
        } else {
            match numbered(revisions, id)->0.checkpoint {
                Some(checkpoint) => if checkpoint.state != RevisionState::Ready {
                    Some("revision has an incomplete checkpoint owned by another job"@)
                } else {
                    None
                },
                None => if flags_overflow(index.objects) {
                    Some("privilege flags exceed SQLite INTEGER"@)
                } else {
                    None
                },
            }
        },
    }
}

/// Whether an overlay changes nothing.
pub open spec fn overlay_empty(overlay: Overlay) -> bool {
    &&& overlay.objects@ == Map::<u64, Option<Object>>::empty()
    &&& overlay.references@.len() == 0
    &&& overlay.owner_counts@ == Map::<u64, i64>::empty()
}

/// Whether two revisions agree in what compaction leaves alone.
pub open spec fn same_provenance(left: Revision, right: Revision) -> bool {
    &&& left.id == right.id
    &&& left.snapshot_id == right.snapshot_id
    &&& left.provenance_comparison_id == right.provenance_comparison_id
    &&& left.state == right.state
    &&& left.builder_owner == right.builder_owner
    &&& left.builder_fence == right.builder_fence
    &&& left.created_ns == right.created_ns
}

/// Whether `after` is the revision `before`, stored as a checkpoint of its
/// own that holds `index`.
pub open spec fn compacted(
    before: Revision,
    after: Revision,
    index: IndexView,
    builder_owner: [u8; 16],
    digest: IndexDigest,
) -> bool {
    &&& same_provenance(before, after)
    &&& after.storage_base_revision_id is None
    &&& after.delta_depth == 0
    &&& after.summary == summary_of(index, digest)
    &&& match before.checkpoint {
        Some(checkpoint) => if before.storage_base_revision_id is None && before.delta_depth == 0 {
            // Only the summary was out of date.
            &&& after.checkpoint matches Some(kept)
            &&& kept.state == RevisionState::Ready
            &&& kept.builder_owner == checkpoint.builder_owner
            &&& kept.builder_fence == checkpoint.builder_fence
            &&& kept.index == checkpoint.index
            &&& counts_owners(kept.owner_counts@, index.objects, index.objects.dom())
            &&& after.overlay == before.overlay
        } else {
            &&& after.checkpoint == before.checkpoint
            &&& overlay_empty(after.overlay)
        },
        None => {
            &&& after.checkpoint matches Some(made)
            &&& made.state == RevisionState::Ready
            &&& made.builder_owner == builder_owner
            &&& made.builder_fence == 1
            &&& made.index@ == index
            &&& made.index.well_formed()
            &&& counts_owners(made.owner_counts@, index.objects, index.objects.dom())
            &&& overlay_empty(after.overlay)
        },
    }
}

/// Whether a revision already is an up-to-date checkpoint of its own.
pub open spec fn is_compact(revision: Revision) -> bool {
    &&& revision.checkpoint is Some
    &&& revision.storage_base_revision_id is None
    &&& revision.delta_depth == 0
    &&& revision.summary.summary_version == SUMMARY_VERSION
}

/// Whether the checkpoint that a revision already has differs from what the
/// revision holds.
pub open spec fn checkpoint_differs(revision: Revision, index: IndexView) -> bool {
    match revision.checkpoint {
        Some(checkpoint) => !(revision.storage_base_revision_id is None && revision.delta_depth
            == 0) && checkpoint.index@ != index,
        None => false,
    }
}

/// Why a revision cannot be compacted, where its digest is not known to be had.
pub open spec fn read_fault(
    revisions: Seq<Revision>,
    id: i64,
    report: RevisionReport,
) -> Option<Seq<char>> {
    match report.digest {
        Err(fault) => Some(fault@),
        Ok(digest) => compact_fault(revisions, id, digest),
    }
}

/// What is wrong with the checkpoint that a compacted revision is left with, where
/// it had one already.
pub open spec fn checkpoint_fault(
    revision: Revision,
    index: IndexView,
    report: RevisionReport,
) -> Option<Seq<char>> {
    if revision.checkpoint is None || (revision.storage_base_revision_id is None
        && revision.delta_depth == 0) {
        None
    } else if report.checkpoint_fault is Some {
        Some(in_context("stored checkpoint is invalid"@, report.checkpoint_fault->0@))
    } else if checkpoint_differs(revision, index) {
        Some("published checkpoint differs from its source revision"@)
    } else {
        None
    }
}

/// What compaction did to the revisions.
pub open spec fn compaction(
    before: Seq<Revision>,
    after: Seq<Revision>,
    id: i64,
    builder_owner: [u8; 16],
    digest: IndexDigest,
) -> bool {
    let at = slot(before, id)->0;
    if is_compact(before[at]) {
        after == before
    } else {
        &&& after == before.update(at, after[at])
        &&& compacted(
            before[at],
            after[at],
            revision_index(before, id)->Ok_0,
            builder_owner,
            digest,
        )
    }
}

fn empty_overlay() -> (overlay: Overlay)
    ensures
        overlay_empty(overlay),
{
    Overlay { objects: BTreeMap::new(), references: Vec::new(), owner_counts: BTreeMap::new() }
}

impl Store {
    /// Stores a revision as a checkpoint of its own, so that nothing below it
    /// is needed to load it. Says whether anything changed.
    pub fn compact_revision(
        &mut self,
        revision_id: i64,
        builder_owner: [u8; 16],
        report: &RevisionReport,
    ) -> (changed: Result<bool, ManagerError>)
        requires
            old(self).well_formed(),
        ensures
            final(self).well_formed(),
            *final(self) == (Store { revisions: final(self).revisions, ..*old(self) }),
            match read_fault(old(self).revisions@, revision_id, *report) {
                Some(fault) => {
                    &&& changed matches Err(error)
                    &&& error@ == fault
                    &&& *final(self) == *old(self)
                },
                None => {
                    let digest = report.digest->Ok_0;
                    let revision = numbered(old(self).revisions@, revision_id)->0;
                    let index = revision_index(old(self).revisions@, revision_id)->Ok_0;
                    &&& compaction(
                        old(self).revisions@,
                        final(self).revisions@,
                        revision_id,
                        builder_owner,
                        digest,
                    )
                    &&& match (checkpoint_fault(revision, index, *report), changed) {
                        (None, Ok(changed)) => changed == !is_compact(revision),
                        (Some(fault), Err(error)) => error@ == fault,
                        _ => false,
                    }
                },
            },
    {
        let digest: &IndexDigest = match &report.digest {
            Ok(digest) => digest,
            Err(fault) => {
                return Err(ManagerError::new(fault.as_str()));
            },
        };
        let valid: BTreeMap<i64, String> = BTreeMap::new();
        proof {
            law_loaded_revision_is_stored(self.revisions@, revision_id, valid@);
        }
        let index = match self.load_revision(revision_id, &valid) {
            Ok(index) => index,
            Err(error) => {
                return Err(error);
            },
        };
        let ghost view = index@;
        if index.objects.len() as u64 > STORED_MAX {
            return Err(ManagerError::new("checkpoint object count overflow"));
        }
        proof {
            lemma_ascending_len(keys_of(index.references@));
        }
        if index.references.len() as u64 > STORED_MAX {
            return Err(ManagerError::new("checkpoint reference count overflow"));
        }
        let totals = match total_owners(&index) {
            Ok(totals) => totals,
            Err(error) => {
                return Err(error);
            },
        };
        if digest.privileged_metadata_count > STORED_MAX {
            return Err(ManagerError::new("privileged metadata count overflow"));
        }
        let summary = RevisionMetadata {
            summary_version: SUMMARY_VERSION,
            owner_cardinality: totals.cardinality,
            owner_uid_xor: totals.uid_xor,
            object_count: index.objects.len() as i64,
            ref_count: index.references.len() as i64,
            state_hash: digest.state_hash,
            single_owner_uid: digest.single_owner_uid,
            privileged_metadata_count: digest.privileged_metadata_count as i64,
            security_state_hash: digest.security_state_hash,
        };
        assert(summary == summary_of(view, *digest));
        proof {
            lemma_head_stored(self.revisions@, revision_id);
        }
        let at: usize = match find_number(&self.revisions, revision_id) {
            Some(at) => at,
            None => {
                return Err(ManagerError::new("revision disappeared during compaction"));
            },
        };
        let ghost before = self.revisions@[at as int];
        assert(revision_sound(before));
        let alone: bool = self.revisions[at].storage_base_revision_id.is_none()
            && self.revisions[at].delta_depth == 0;
        let stored: Option<RevisionState> = match &self.revisions[at].checkpoint {
            Some(checkpoint) => Some(checkpoint.state),
            None => None,
        };
        match stored {
            Some(state) => {
                if state != RevisionState::Ready {
                    return Err(
                        ManagerError::new(
                            "revision has an incomplete checkpoint owned by another job",
                        ),
                    );
                }
                if alone {
                    if self.revisions[at].summary.summary_version == SUMMARY_VERSION {
                        return Ok(false);
                    }
                    let mut kept: Option<Checkpoint> = None;
                    std::mem::swap(&mut kept, &mut self.revisions[at].checkpoint);
                    match kept {
                        Some(kept) => {
                            self.revisions[at].checkpoint = Some(
                                Checkpoint { owner_counts: totals.counts, ..kept },
                            );
                        },
                        None => {
                            assert(false);
                        },
                    }
                    self.revisions[at].summary = summary;
                    assert(self.revisions@ =~= old(self).revisions@.update(
                        at as int,
                        self.revisions@[at as int],
                    ));
                    assert(compacted(
                        before,
                        self.revisions@[at as int],
                        view,
                        builder_owner,
                        *digest,
                    ));
                    proof {
                        lemma_depths_compacted(
                            old(self).revisions@,
                            self.revisions@,
                            revision_id,
                            builder_owner,
                            *digest,
                        );
                    }
                    return Ok(true);
                }
                let same: bool = match &self.revisions[at].checkpoint {
                    Some(checkpoint) => checkpoint.index.same(&index),
                    None => true,
                };
                self.revisions[at].storage_base_revision_id = None;
                self.revisions[at].delta_depth = 0;
                self.revisions[at].summary = summary;
                self.revisions[at].overlay = empty_overlay();
                assert(self.revisions@ =~= old(self).revisions@.update(
                    at as int,
                    self.revisions@[at as int],
                ));
                assert(compacted(
                    before,
                    self.revisions@[at as int],
                    view,
                    builder_owner,
                    *digest,
                ));
                proof {
                    lemma_depths_compacted(
                        old(self).revisions@,
                        self.revisions@,
                        revision_id,
                        builder_owner,
                        *digest,
                    );
                }
                match &report.checkpoint_fault {
                    Some(fault) => {
                        return Err(
                            ManagerError::of(
                                context_text("stored checkpoint is invalid", fault.as_str()),
                            ),
                        );
                    },
                    None => {},
                }
                if !same {
                    return Err(
                        ManagerError::new("published checkpoint differs from its source revision"),
                    );
                }
            },
            None => {
                if has_flags_overflow(&index.objects) {
                    return Err(ManagerError::new("privilege flags exceed SQLite INTEGER"));
                }
                self.revisions[at].checkpoint = Some(
                    Checkpoint {
                        state: RevisionState::Ready,
                        builder_owner,
                        builder_fence: 1,
                        index,
                        owner_counts: totals.counts,
                    },
                );
                self.revisions[at].storage_base_revision_id = None;
                self.revisions[at].delta_depth = 0;
                self.revisions[at].summary = summary;
                self.revisions[at].overlay = empty_overlay();
                assert(self.revisions@ =~= old(self).revisions@.update(
                    at as int,
                    self.revisions@[at as int],
                ));
                assert(compacted(
                    before,
                    self.revisions@[at as int],
                    view,
                    builder_owner,
                    *digest,
                ));
                proof {
                    lemma_depths_compacted(
                        old(self).revisions@,
                        self.revisions@,
                        revision_id,
                        builder_owner,
                        *digest,
                    );
                }
            },
        }
        Ok(true)
    }
}

proof fn lemma_head_stored(revisions: Seq<Revision>, id: i64)
    ensures
        revision_index(revisions, id) is Ok ==> numbered(revisions, id) is Some && numbered(
            revisions,
            id,
        )->0.state == RevisionState::Ready,
{
}

pub(crate) proof fn lemma_index_shift(revisions: Seq<Revision>, head: i64, rest: Seq<i64>, at: int)
    requires
        0 <= at < rest.len(),
    ensures
        chain_index_from(revisions, seq![head] + rest, at + 1) == chain_index_from(
            revisions,
            rest,
            at,
        ),
    decreases rest.len() - at,
{
    let chain = seq![head] + rest;
    assert(chain.last() == rest.last());
    assert(chain[at + 1] == rest[at]);
    if at < rest.len() - 1 {
        lemma_index_shift(revisions, head, rest, at + 1);
    }
}

pub(crate) proof fn lemma_chain_lower(revisions: Seq<Revision>, current: i64, above: nat, lower: nat)
    requires
        lower <= above,
    ensures
        chain_from(revisions, current, above) is Ok ==> chain_from(revisions, current, lower)
            == chain_from(revisions, current, above),
    decreases MAX_DEPTH + 1 - above,
{
    if above <= MAX_DEPTH {
        if let Some(revision) = numbered(revisions, current) {
            if let Some(base) = revision.storage_base_revision_id {
                lemma_chain_lower(revisions, base, above + 1, lower + 1);
            }
        }
    }
}

pub(crate) proof fn lemma_slot_kept(
    before: Seq<Revision>,
    after: Seq<Revision>,
    place: int,
    number: i64,
    from: int,
)
    requires
        0 <= from,
        0 <= place < before.len(),
        after == before.update(place, after[place]),
        after[place].id == before[place].id,
    ensures
        slot_from(after, number, from)
            == slot_from(before, number, from),
    decreases before.len() - from,
{
    if from < before.len() {
        lemma_slot_kept(before, after, place, number, from + 1);
    }
}

proof fn lemma_compaction_keeps(
    before: Seq<Revision>,
    after: Seq<Revision>,
    id: i64,
    builder_owner: [u8; 16],
    digest: IndexDigest,
    current: i64,
    above: nat,
)
    requires
        compact_fault(before, id, digest) is None,
        compaction(before, after, id, builder_owner, digest),
        !is_compact(numbered(before, id)->0),
        !checkpoint_differs(numbered(before, id)->0, revision_index(before, id)->Ok_0),
        chain_from(before, current, above) is Ok,
        chain_index_from(before, chain_from(before, current, above)->Ok_0, 0) is Ok,
    ensures
        chain_from(after, current, above) is Ok,
        chain_from(after, current, above)->Ok_0.len() > 0,
        chain_index_from(after, chain_from(after, current, above)->Ok_0, 0) == chain_index_from(
            before,
            chain_from(before, current, above)->Ok_0,
            0,
        ),
    decreases MAX_DEPTH + 1 - above,
{
    let place = slot(before, id)->0;
    lemma_slot(before, id, 0);
    lemma_slot(before, current, 0);
    lemma_slot_kept(before, after, place, current, 0);
    let chain = chain_from(before, current, above)->Ok_0;
    if current == id {
        lemma_chain_lower(before, id, above, 0);
        assert(chain_from(after, id, above) == Ok::<Seq<i64>, Seq<char>>(seq![id]));
        let made = seq![id];
        assert(made.last() == id);
        assert(chain_index_from(after, made, 0) == checkpoint_of(after, id));
        if before[place].storage_base_revision_id is None {
            assert(chain == seq![id]);
            assert(chain.last() == id);
        }
    } else {
        assert(numbered(after, current) == numbered(before, current));
        match numbered(before, current)->0.storage_base_revision_id {
            None => {
                assert(chain == seq![current]);
                assert(chain.last() == current);
            },
            Some(base) => {
                let rest = chain_from(before, base, above + 1)->Ok_0;
                assert(chain == seq![current] + rest);
                lemma_chain_stored(before, base, above + 1);
                lemma_index_shift(before, current, rest, 0);
                assert(chain[0] == current);
                lemma_compaction_keeps(before, after, id, builder_owner, digest, base, above + 1);
                let new_rest = chain_from(after, base, above + 1)->Ok_0;
                let new_chain = seq![current] + new_rest;
                assert(chain_from(after, current, above) == Ok::<Seq<i64>, Seq<char>>(new_chain));
                lemma_index_shift(after, current, new_rest, 0);
                assert(new_chain[0] == current);
            },
        }
    }
}

/// Compacting a revision never changes what any revision holds, whichever
/// revisions it is stored as.
pub proof fn law_compaction_keeps_indexes(
    before: Seq<Revision>,
    after: Seq<Revision>,
    id: i64,
    builder_owner: [u8; 16],
    digest: IndexDigest,
    other: i64,
)
    requires
        compact_fault(before, id, digest) is None,
        compaction(before, after, id, builder_owner, digest),
        !checkpoint_differs(numbered(before, id)->0, revision_index(before, id)->Ok_0),
        revision_index(before, other) is Ok,
    ensures
        revision_index(after, other) == revision_index(before, other),
{
    if !is_compact(numbered(before, id)->0) {
        lemma_compaction_keeps(before, after, id, builder_owner, digest, other, 0);
    }
}

} // verus!
