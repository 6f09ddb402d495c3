//! The summary of a revision, kept up to date from a delta alone.

use crate::index::{Index, Object};
use crate::inodes::{numbers_in_order, sorted_keys};
use crate::manager::types::ManagerError;
use crate::manifest::ChangedObjectsManifest;
use crate::manifest::ManifestView;
use std::collections::BTreeMap;
use vstd::prelude::*;

verus! {

broadcast use vstd::std_specs::btree::group_btree_axioms;

/// The version of summaries that count owners.
pub const SUMMARY_VERSION: i64 = 2;

/// What is known of a revision without reading its objects.
#[derive(Clone, Copy, Debug, Eq, PartialEq)]
pub struct RevisionMetadata {
    pub summary_version: i64,
    /// How many users own objects.
    pub owner_cardinality: i64,
    /// The exclusive or of the users that own objects.
    pub owner_uid_xor: u64,
    pub object_count: i64,
    pub ref_count: i64,
    pub state_hash: [u8; 32],
    pub single_owner_uid: Option<u64>,
    pub privileged_metadata_count: i64,
    pub security_state_hash: [u8; 32],
}

/// The digests of a changed object on both sides.
#[derive(Clone, Copy, Debug, Eq, PartialEq)]
pub struct ChangedDigests {
    pub old_state: [u8; 32],
    pub old_security: [u8; 32],
    pub new_state: [u8; 32],
    pub new_security: [u8; 32],
}

/// The digests of everything that a delta changes: the objects by inode
/// number, the references in the order of the manifest. Before they are made,
/// the part of the base that the delta can touch is validated.
#[derive(Debug)]
pub struct DeltaDigests {
    pub objects: BTreeMap<u64, ChangedDigests>,
    pub ref_deletes: Vec<[u8; 32]>,
    pub ref_adds: Vec<[u8; 32]>,
    /// What was found wrong with that part of the base.
    pub base_fault: Option<String>,
}

/// Whether there is a digest for everything that the manifest changes.
pub open spec fn covers(digests: DeltaDigests, manifest: ManifestView) -> bool {
    &&& manifest.objects.dom().subset_of(digests.objects@.dom())
    &&& digests.ref_deletes@.len() == manifest.ref_deletes.len()
    &&& digests.ref_adds@.len() == manifest.ref_adds.len()
}

/// The running totals of a delta.
#[verifier::ext_equal]
pub struct Tally {
    pub object_count: int,
    pub ref_count: int,
    pub state: Seq<u8>,
    pub security: Seq<u8>,
    pub privileged: int,
    pub owners: Map<u64, i64>,
}

/// The exclusive or of two digests.
pub open spec fn xor_bytes(left: Seq<u8>, right: Seq<u8>) -> Seq<u8> {
    Seq::new(left.len(), |i: int| left[i] ^ right[i])
}

/// The user that owns an object.
pub open spec fn owner_of(object: Option<Object>) -> Option<u64> {
    match object {
        Some(object) => Some(object.uid),
        None => None,
    }
}

/// The object with the inode number.
pub open spec fn object_in(objects: Map<u64, Object>, ino: u64) -> Option<Object> {
    if objects.contains_key(ino) {
        Some(objects[ino])
    } else {
        None
    }
}

/// The number of objects after one changed.
pub open spec fn tally_count(count: int, old: Option<Object>, new: Option<Object>) -> Result<
    int,
    Seq<char>,
> {
    match (old, new) {
        (None, Some(_)) => if count == i64::MAX {
            Err("revision object count overflow"@)
        } else {
            Ok(count + 1)
        },
        (Some(_), None) => if count == i64::MIN {
            Err("revision object count underflow"@)
        } else {
            Ok(count - 1)
        },
        _ => Ok(count),
    }
}

/// Whether an object carries privileged metadata.
pub open spec fn privileged(object: Option<Object>) -> bool {
    match object {
        Some(object) => object.privilege_flags != 0,
        None => false,
    }
}

/// The number of privileged objects after one changed.
pub open spec fn tally_privileged(count: int, old: Option<Object>, new: Option<Object>) -> Result<
    int,
    Seq<char>,
> {
    let less = if privileged(old) {
        count - 1
    } else {
        count
    };
    let total = if privileged(new) {
        less + 1
    } else {
        less
    };
    if old == new {
        Ok(count)
    } else if less < i64::MIN {
        Err("incremental privileged-metadata count underflow"@)
    } else if total > i64::MAX {
        Err("privileged metadata count overflow"@)
    } else {
        Ok(total)
    }
}

/// The counts of owned objects after one left its old owner.
pub open spec fn tally_leaving(owners: Map<u64, i64>, uid: u64) -> Result<Map<u64, i64>, Seq<char>> {
    if !owners.contains_key(uid) {
        Err("old owner count was not loaded for changed object"@)
    } else if owners[uid] == i64::MIN {
        Err("incremental owner count underflow"@)
    } else {
        Ok(owners.insert(uid, (owners[uid] - 1) as i64))
    }
}

/// The counts of owned objects after one came to its new owner.
pub open spec fn tally_coming(owners: Map<u64, i64>, uid: u64) -> Result<Map<u64, i64>, Seq<char>> {
    if !owners.contains_key(uid) {
        Err("new owner count was not loaded for changed object"@)
    } else if owners[uid] == i64::MAX {
        Err("owner object count overflow"@)
    } else {
        Ok(owners.insert(uid, (owners[uid] + 1) as i64))
    }
}

/// The counts of owned objects after one changed.
pub open spec fn tally_owner(
    owners: Map<u64, i64>,
    old: Option<Object>,
    new: Option<Object>,
) -> Result<Map<u64, i64>, Seq<char>> {
    if owner_of(old) == owner_of(new) {
        Ok(owners)
    } else {
        let left = match owner_of(old) {
            Some(uid) => tally_leaving(owners, uid),
            None => Ok(owners),
        };
        match left {
            Err(fault) => Err(fault),
            Ok(owners) => match owner_of(new) {
                Some(uid) => tally_coming(owners, uid),
                None => Ok(owners),
            },
        }
    }
}

/// A state digest after one object changed.
pub open spec fn tally_digest(
    digest: Seq<u8>,
    old: Option<Object>,
    new: Option<Object>,
    old_digest: Seq<u8>,
    new_digest: Seq<u8>,
) -> Seq<u8> {
    if old == new {
        digest
    } else {
        let left = if old is Some {
            xor_bytes(digest, old_digest)
        } else {
            digest
        };
        if new is Some {
            xor_bytes(left, new_digest)
        } else {
            left
        }
    }
}

/// The totals after one object changed.
pub open spec fn tally_object(
    tally: Tally,
    old: Option<Object>,
    new: Option<Object>,
    digests: ChangedDigests,
) -> Result<Tally, Seq<char>> {
    match tally_count(tally.object_count, old, new) {
        Err(fault) => Err(fault),
        Ok(object_count) => match tally_privileged(tally.privileged, old, new) {
            Err(fault) => Err(fault),
            Ok(privileged) => match tally_owner(tally.owners, old, new) {
                Err(fault) => Err(fault),
                Ok(owners) => Ok(
                    Tally {
                        object_count,
                        ref_count: tally.ref_count,
                        state: tally_digest(
                            tally.state,
                            old,
                            new,
                            digests.old_state@,
                            digests.new_state@,
                        ),
                        security: tally_digest(
                            tally.security,
                            old,
                            new,
                            digests.old_security@,
                            digests.new_security@,
                        ),
                        privileged,
                        owners,
                    },
                ),
            },
        },
    }
}

/// The totals after the objects from `at` on changed.
pub open spec fn tally_objects_from(
    tally: Tally,
    base: Map<u64, Object>,
    target: Map<u64, Object>,
    digests: Map<u64, ChangedDigests>,
    inos: Seq<u64>,
    at: int,
) -> Result<Tally, Seq<char>>
    decreases inos.len() - at,
{
    if at < 0 || at >= inos.len() {
        Ok(tally)
    } else {
        let ino = inos[at];
        match tally_object(tally, object_in(base, ino), object_in(target, ino), digests[ino]) {
            Err(fault) => Err(fault),
            Ok(next) => tally_objects_from(next, base, target, digests, inos, at + 1),
        }
    }
}

/// The totals after the references from `at` on were deleted.
pub open spec fn tally_deletes_from(tally: Tally, digests: Seq<[u8; 32]>, at: int) -> Result<
    Tally,
    Seq<char>,
>
    decreases digests.len() - at,
{
    if at < 0 || at >= digests.len() {
        Ok(tally)
    } else if tally.ref_count == i64::MIN {
        Err("revision reference count underflow"@)
    } else {
        tally_deletes_from(
            Tally {
                ref_count: tally.ref_count - 1,
                state: xor_bytes(tally.state, digests[at]@),
                ..tally
            },
            digests,
            at + 1,
        )
    }
}

/// The totals after the references from `at` on were added.
pub open spec fn tally_adds_from(tally: Tally, digests: Seq<[u8; 32]>, at: int) -> Result<
    Tally,
    Seq<char>,
>
    decreases digests.len() - at,
{
    if at < 0 || at >= digests.len() {
        Ok(tally)
    } else if tally.ref_count == i64::MAX {
        Err("revision reference count overflow"@)
    } else {
        tally_adds_from(
            Tally {
                ref_count: tally.ref_count + 1,
                state: xor_bytes(tally.state, digests[at]@),
                ..tally
            },
            digests,
            at + 1,
        )
    }
}

/// The cardinality and the exclusive or of the owners after the counts of the
/// users from `at` on went from `before` to `after`.
pub open spec fn settle_owners_from(
    before: Map<u64, i64>,
    after: Map<u64, i64>,
    uids: Seq<u64>,
    at: int,
    cardinality: int,
    xor: u64,
) -> Result<(int, u64), Seq<char>>
    decreases uids.len() - at,
{
    if at < 0 || at >= uids.len() {
        Ok((cardinality, xor))
    } else {
        let uid = uids[at];
        if after[uid] < 0 {
            Err("incremental owner count underflow"@)
        } else if before[uid] == 0 && after[uid] != 0 {
            if cardinality == i64::MAX {
                Err("owner cardinality overflow"@)
            } else {
                settle_owners_from(before, after, uids, at + 1, cardinality + 1, xor ^ uid)
            }
        } else if before[uid] != 0 && after[uid] == 0 {
            if cardinality == i64::MIN {
                Err("owner cardinality underflow"@)
            } else {
                settle_owners_from(before, after, uids, at + 1, cardinality - 1, xor ^ uid)
            }
        } else {
            settle_owners_from(before, after, uids, at + 1, cardinality, xor)
        }
    }
}

/// What a revision's summary says.
#[verifier::ext_equal]
pub struct SummaryView {
    pub summary_version: int,
    pub owner_cardinality: int,
    pub owner_uid_xor: u64,
    pub object_count: int,
    pub ref_count: int,
    pub state: Seq<u8>,
    pub single_owner_uid: Option<u64>,
    pub privileged: int,
    pub security: Seq<u8>,
}

impl View for RevisionMetadata {
    type V = SummaryView;

    open spec fn view(&self) -> SummaryView {
        SummaryView {
            summary_version: self.summary_version as int,
            owner_cardinality: self.owner_cardinality as int,
            owner_uid_xor: self.owner_uid_xor,
            object_count: self.object_count as int,
            ref_count: self.ref_count as int,
            state: self.state_hash@,
            single_owner_uid: self.single_owner_uid,
            privileged: self.privileged_metadata_count as int,
            security: self.security_state_hash@,
        }
    }
}

/// The totals that a base summary starts from.
pub open spec fn opening_tally(base: SummaryView, owners: Map<u64, i64>) -> Tally {
    Tally {
        object_count: base.object_count,
        ref_count: base.ref_count,
        state: base.state,
        security: base.security,
        privileged: base.privileged,
        owners,
    }
}

/// The totals after a whole delta.
pub open spec fn tally_delta(
    base: SummaryView,
    base_objects: Map<u64, Object>,
    target_objects: Map<u64, Object>,
    inos: Seq<u64>,
    digests: DeltaDigests,
    owners: Map<u64, i64>,
) -> Result<Tally, Seq<char>> {
    match tally_objects_from(
        opening_tally(base, owners),
        base_objects,
        target_objects,
        digests.objects@,
        inos,
        0,
    ) {
        Err(fault) => Err(fault),
        Ok(tally) => match tally_deletes_from(tally, digests.ref_deletes@, 0) {
            Err(fault) => Err(fault),
            Ok(tally) => tally_adds_from(tally, digests.ref_adds@, 0),
        },
    }
}

/// The summary of a revision and the counts of its touched owners, from the
/// summary of its base and a delta.
pub open spec fn revised_summary(
    base: SummaryView,
    base_objects: Map<u64, Object>,
    target_objects: Map<u64, Object>,
    manifest: ManifestView,
    digests: DeltaDigests,
    owners: Map<u64, i64>,
) -> Result<(SummaryView, Map<u64, i64>), Seq<char>> {
    match tally_delta(
        base,
        base_objects,
        target_objects,
        numbers_in_order(manifest.objects.dom()),
        digests,
        owners,
    ) {
        Err(fault) => Err(fault),
        Ok(tally) => if tally.object_count <= 0 || tally.ref_count < 0 {
            Err("incremental revision counts are invalid"@)
        } else if tally.privileged < 0 {
            Err("incremental privileged-metadata count underflow"@)
        } else {
            match settle_owners_from(
                owners,
                tally.owners,
                numbers_in_order(tally.owners.dom()),
                0,
                base.owner_cardinality,
                base.owner_uid_xor,
            ) {
                Err(fault) => Err(fault),
                Ok((cardinality, xor)) => if cardinality <= 0 {
                    Err("incremental revision has no owners"@)
                } else {
                    Ok(
                        (
                            SummaryView {
                                summary_version: SUMMARY_VERSION as int,
                                owner_cardinality: cardinality,
                                owner_uid_xor: xor,
                                object_count: tally.object_count,
                                ref_count: tally.ref_count,
                                state: tally.state,
                                single_owner_uid: if cardinality == 1 {
                                    Some(xor)
                                } else {
                                    None
                                },
                                privileged: tally.privileged,
                                security: tally.security,
                            },
                            tally.owners,
                        ),
                    )
                },
            }
        },
    }
}

/// Combines two digests.
pub fn xor_digest(digest: &mut [u8; 32], other: &[u8; 32])
    ensures
        final(digest)@ == xor_bytes(old(digest)@, other@),
{
    let ghost before = digest@;
    let mut at: usize = 0;
    while at < 32
        invariant
            at <= 32,
            forall|i: int| 0 <= i < at ==> digest@[i] == before[i] ^ other@[i],
            forall|i: int| at <= i < 32 ==> digest@[i] == before[i],
        decreases 32 - at,
    {
        let mixed: u8 = digest[at] ^ other[at];
        digest[at] = mixed;
        at += 1;
    }
    assert(digest@ =~= xor_bytes(before, other@));
}

/// The running totals, as kept.
struct Totals {
    object_count: i64,
    ref_count: i64,
    state: [u8; 32],
    security: [u8; 32],
    privileged: i64,
    owners: BTreeMap<u64, i64>,
}

impl Totals {
    spec fn model(&self) -> Tally {
        Tally {
            object_count: self.object_count as int,
            ref_count: self.ref_count as int,
            state: self.state@,
            security: self.security@,
            privileged: self.privileged as int,
            owners: self.owners@,
        }
    }

    fn owner_leaves(&mut self, uid: u64) -> (fault: Option<&'static str>)
        ensures
            match fault {
                None => tally_leaving(old(self).owners@, uid) == Ok::<Map<u64, i64>, Seq<char>>(
                    final(self).owners@,
                ) && *final(self) == (Totals { owners: final(self).owners, ..*old(self) }),
                Some(fault) => tally_leaving(old(self).owners@, uid) == Err::<
                    Map<u64, i64>,
                    Seq<char>,
                >(fault@),
            },
    {
        match self.owners.get(&uid) {
            None => Some("old owner count was not loaded for changed object"),
            Some(count) => {
                let count: i64 = *count;
                if count == i64::MIN {
                    return Some("incremental owner count underflow");
                }
                self.owners.insert(uid, count - 1);
                None
            },
        }
    }

    fn owner_comes(&mut self, uid: u64) -> (fault: Option<&'static str>)
        ensures
            match fault {
                None => tally_coming(old(self).owners@, uid) == Ok::<Map<u64, i64>, Seq<char>>(
                    final(self).owners@,
                ) && *final(self) == (Totals { owners: final(self).owners, ..*old(self) }),
                Some(fault) => tally_coming(old(self).owners@, uid) == Err::<
                    Map<u64, i64>,
                    Seq<char>,
                >(fault@),
            },
    {
        match self.owners.get(&uid) {
            None => Some("new owner count was not loaded for changed object"),
            Some(count) => {
                let count: i64 = *count;
                if count == i64::MAX {
                    return Some("owner object count overflow");
                }
                self.owners.insert(uid, count + 1);
                None
            },
        }
    }

    fn change_owner(&mut self, old_uid: Option<u64>, new_uid: Option<u64>) -> (fault: Option<
        &'static str,
    >)
        requires
            old_uid != new_uid,
        ensures
            match fault {
                None => *final(self) == (Totals { owners: final(self).owners, ..*old(self) }),
                Some(_) => true,
            },
            forall|before: Option<Object>, after: Option<Object>|
                #![trigger owner_of(before), owner_of(after)]
                owner_of(before) == old_uid && owner_of(after) == new_uid ==> tally_owner(
                    old(self).owners@,
                    before,
                    after,
                ) == match fault {
                    None => Ok::<Map<u64, i64>, Seq<char>>(final(self).owners@),
                    Some(fault) => Err::<Map<u64, i64>, Seq<char>>(fault@),
                },
    {
        match old_uid {
            Some(uid) => {
                let fault = self.owner_leaves(uid);
                if fault.is_some() {
                    return fault;
                }
            },
            None => {},
        }
        match new_uid {
            Some(uid) => self.owner_comes(uid),
            None => None,
        }
    }

    fn add_object(
        &mut self,
        before: Option<&Object>,
        after: Option<&Object>,
        digests: &ChangedDigests,
    ) -> (fault: Option<&'static str>)
        ensures
            tally_object(
                old(self).model(),
                option_value(before),
                option_value(after),
                *digests,
            ) == match fault {
                None => Ok::<Tally, Seq<char>>(final(self).model()),
                Some(fault) => Err::<Tally, Seq<char>>(fault@),
            },
    {
        let ghost old_object = option_value(before);
        let ghost new_object = option_value(after);
        match (before, after) {
            (None, Some(_)) => {
                if self.object_count == i64::MAX {
                    return Some("revision object count overflow");
                }
                self.object_count = self.object_count + 1;
            },
            (Some(_), None) => {
                if self.object_count == i64::MIN {
                    return Some("revision object count underflow");
                }
                self.object_count = self.object_count - 1;
            },
            _ => {},
        }
        let same: bool = match (before, after) {
            (Some(left), Some(right)) => left.same(right),
            (None, None) => true,
            _ => false,
        };
        assert(same == (old_object == new_object));
        if !same {
            match before {
                Some(object) => {
                    if object.privilege_flags != 0 {
                        if self.privileged == i64::MIN {
                            return Some("incremental privileged-metadata count underflow");
                        }
                        self.privileged = self.privileged - 1;
                    }
                    xor_digest(&mut self.state, &digests.old_state);
                    xor_digest(&mut self.security, &digests.old_security);
                },
                None => {},
            }
            match after {
                Some(object) => {
                    if object.privilege_flags != 0 {
                        if self.privileged == i64::MAX {
                            return Some("privileged metadata count overflow");
                        }
                        self.privileged = self.privileged + 1;
                    }
                    xor_digest(&mut self.state, &digests.new_state);
                    xor_digest(&mut self.security, &digests.new_security);
                },
                None => {},
            }
        }
        let old_uid: Option<u64> = match before {
            Some(object) => Some(object.uid),
            None => None,
        };
        let new_uid: Option<u64> = match after {
            Some(object) => Some(object.uid),
            None => None,
        };
        assert(old_uid == owner_of(old_object));
        assert(new_uid == owner_of(new_object));
        let moved: bool = match (old_uid, new_uid) {
            (Some(left), Some(right)) => left != right,
            (None, None) => false,
            _ => true,
        };
        if moved {
            return self.change_owner(old_uid, new_uid);
        }
        None
    }
}

/// The value behind an optional reference.
pub open spec fn option_value(object: Option<&Object>) -> Option<Object> {
    match object {
        Some(object) => Some(*object),
        None => None,
    }
}

fn tally_objects(
    totals: &mut Totals,
    base: &BTreeMap<u64, Object>,
    target: &BTreeMap<u64, Object>,
    digests: &BTreeMap<u64, ChangedDigests>,
    inos: &Vec<u64>,
) -> (fault: Option<&'static str>)
    requires
        forall|i: int| 0 <= i < inos@.len() ==> digests@.contains_key(#[trigger] inos@[i]),
    ensures
        tally_objects_from(old(totals).model(), base@, target@, digests@, inos@, 0) == match fault {
            None => Ok::<Tally, Seq<char>>(final(totals).model()),
            Some(fault) => Err::<Tally, Seq<char>>(fault@),
        },
{
    let ghost opening = totals.model();
    let mut at: usize = 0;
    while at < inos.len()
        invariant
            opening == old(totals).model(),
            at <= inos.len(),
            forall|i: int| 0 <= i < inos@.len() ==> digests@.contains_key(#[trigger] inos@[i]),
            tally_objects_from(opening, base@, target@, digests@, inos@, 0) == tally_objects_from(
                totals.model(),
                base@,
                target@,
                digests@,
                inos@,
                at as int,
            ),
        decreases inos.len() - at,
    {
        let ino: u64 = inos[at];
        let before = base.get(&ino);
        let after = target.get(&ino);
        assert(option_value(before) == object_in(base@, ino));
        assert(option_value(after) == object_in(target@, ino));
        match digests.get(&ino) {
            None => {
                assert(false);
            },
            Some(changed) => {
                let fault = totals.add_object(before, after, changed);
                if fault.is_some() {
                    return fault;
                }
            },
        }
        at += 1;
    }
    None
}

fn tally_deletes(totals: &mut Totals, digests: &Vec<[u8; 32]>) -> (fault: Option<&'static str>)
    ensures
        tally_deletes_from(old(totals).model(), digests@, 0) == match fault {
            None => Ok::<Tally, Seq<char>>(final(totals).model()),
            Some(fault) => Err::<Tally, Seq<char>>(fault@),
        },
{
    let ghost opening = totals.model();
    let mut at: usize = 0;
    while at < digests.len()
        invariant
            opening == old(totals).model(),
            at <= digests.len(),
            tally_deletes_from(opening, digests@, 0) == tally_deletes_from(
                totals.model(),
                digests@,
                at as int,
            ),
        decreases digests.len() - at,
    {
        if totals.ref_count == i64::MIN {
            return Some("revision reference count underflow");
        }
        totals.ref_count = totals.ref_count - 1;
        xor_digest(&mut totals.state, &digests[at]);
        at += 1;
    }
    None
}

fn tally_adds(totals: &mut Totals, digests: &Vec<[u8; 32]>) -> (fault: Option<&'static str>)
    ensures
        tally_adds_from(old(totals).model(), digests@, 0) == match fault {
            None => Ok::<Tally, Seq<char>>(final(totals).model()),
            Some(fault) => Err::<Tally, Seq<char>>(fault@),
        },
{
    let ghost opening = totals.model();
    let mut at: usize = 0;
    while at < digests.len()
        invariant
            opening == old(totals).model(),
            at <= digests.len(),
            tally_adds_from(opening, digests@, 0) == tally_adds_from(
                totals.model(),
                digests@,
                at as int,
            ),
        decreases digests.len() - at,
    {
        if totals.ref_count == i64::MAX {
            return Some("revision reference count overflow");
        }
        totals.ref_count = totals.ref_count + 1;
        xor_digest(&mut totals.state, &digests[at]);
        at += 1;
    }
    None
}

fn settle_owners(
    before: &BTreeMap<u64, i64>,
    after: &BTreeMap<u64, i64>,
    opening_cardinality: i64,
    opening_xor: u64,
) -> (settled: Result<(i64, u64), &'static str>)
    requires
        before@.dom() == after@.dom(),
    ensures
        settle_owners_from(
            before@,
            after@,
            numbers_in_order(after@.dom()),
            0,
            opening_cardinality as int,
            opening_xor,
        ) == match settled {
            Ok((cardinality, xor)) => Ok::<(int, u64), Seq<char>>((cardinality as int, xor)),
            Err(fault) => Err::<(int, u64), Seq<char>>(fault@),
        },
{
    let uids = sorted_keys(after);
    let mut cardinality: i64 = opening_cardinality;
    let mut xor: u64 = opening_xor;
    let mut at: usize = 0;
    while at < uids.len()
        invariant
            at <= uids.len(),
            before@.dom() == after@.dom(),
            uids@.to_set() == after@.dom(),
            uids@ == numbers_in_order(after@.dom()),
            settle_owners_from(
                before@,
                after@,
                uids@,
                0,
                opening_cardinality as int,
                opening_xor,
            ) == settle_owners_from(before@, after@, uids@, at as int, cardinality as int, xor),
        decreases uids.len() - at,
    {
        let uid: u64 = uids[at];
        assert(uids@.to_set().contains(uids@[at as int]));
        assert(before@.dom().contains(uid));
        let old_count: i64 = match before.get(&uid) {
            Some(count) => *count,
            None => 0,
        };
        let new_count: i64 = match after.get(&uid) {
            Some(count) => *count,
            None => 0,
        };
        if new_count < 0 {
            return Err("incremental owner count underflow");
        }
        if old_count == 0 && new_count != 0 {
            if cardinality == i64::MAX {
                return Err("owner cardinality overflow");
            }
            cardinality = cardinality + 1;
            xor = xor ^ uid;
        } else if old_count != 0 && new_count == 0 {
            if cardinality == i64::MIN {
                return Err("owner cardinality underflow");
            }
            cardinality = cardinality - 1;
            xor = xor ^ uid;
        }
        at += 1;
    }
    Ok((cardinality, xor))
}

pub(crate) proof fn lemma_owners_keep_domain(
    tally: Tally,
    base: Map<u64, Object>,
    target: Map<u64, Object>,
    digests: Map<u64, ChangedDigests>,
    inos: Seq<u64>,
    at: int,
)
    ensures
        tally_objects_from(tally, base, target, digests, inos, at) matches Ok(next)
            ==> next.owners.dom() == tally.owners.dom(),
    decreases inos.len() - at,
{
    if 0 <= at < inos.len() {
        let ino = inos[at];
        let step = tally_object(tally, object_in(base, ino), object_in(target, ino), digests[ino]);
        if let Ok(next) = step {
            assert(next.owners.dom() =~= tally.owners.dom());
            lemma_owners_keep_domain(next, base, target, digests, inos, at + 1);
        }
    }
}

proof fn lemma_refs_keep_owners(tally: Tally, digests: Seq<[u8; 32]>, at: int)
    ensures
        tally_deletes_from(tally, digests, at) matches Ok(next) ==> next.owners == tally.owners,
        tally_adds_from(tally, digests, at) matches Ok(next) ==> next.owners == tally.owners,
    decreases digests.len() - at,
{
    if 0 <= at < digests.len() {
        lemma_refs_keep_owners(
            Tally {
                ref_count: tally.ref_count - 1,
                state: xor_bytes(tally.state, digests[at]@),
                ..tally
            },
            digests,
            at + 1,
        );
        lemma_refs_keep_owners(
            Tally {
                ref_count: tally.ref_count + 1,
                state: xor_bytes(tally.state, digests[at]@),
                ..tally
            },
            digests,
            at + 1,
        );
    }
}

/// Brings the summary of a base revision up to date with a delta, without
/// reading any object that the delta does not touch.
pub fn apply_revision_metadata(
    base: &RevisionMetadata,
    base_subset: &Index,
    target_subset: &Index,
    manifest: &ChangedObjectsManifest,
    digests: &DeltaDigests,
    base_owner_counts: &BTreeMap<u64, i64>,
) -> (revised: Result<(RevisionMetadata, BTreeMap<u64, i64>), ManagerError>)
    requires
        covers(*digests, manifest@),
    ensures
        revised_summary(
            base@,
            base_subset.objects@,
            target_subset.objects@,
            manifest@,
            *digests,
            base_owner_counts@,
        ) == match revised {
            Ok((metadata, owners)) => Ok::<(SummaryView, Map<u64, i64>), Seq<char>>(
                (metadata@, owners@),
            ),
            Err(error) => Err::<(SummaryView, Map<u64, i64>), Seq<char>>(error@),
        },
{
    let mut totals = Totals {
        object_count: base.object_count,
        ref_count: base.ref_count,
        state: base.state_hash,
        security: base.security_state_hash,
        privileged: base.privileged_metadata_count,
        owners: base_owner_counts.clone(),
    };
    let inos = sorted_keys(&manifest.objects);
    let ghost opening = totals.model();
    proof {
        assert(opening =~= opening_tally(base@, base_owner_counts@));
        assert forall|i: int| 0 <= i < inos@.len() implies digests.objects@.contains_key(
            #[trigger] inos@[i],
        ) by {
            assert(inos@.to_set().contains(inos@[i]));
        }
        lemma_owners_keep_domain(
            opening,
            base_subset.objects@,
            target_subset.objects@,
            digests.objects@,
            inos@,
            0,
        );
    }
    match tally_objects(
        &mut totals,
        &base_subset.objects,
        &target_subset.objects,
        &digests.objects,
        &inos,
    ) {
        Some(fault) => {
            return Err(ManagerError::new(fault));
        },
        None => {},
    }
    proof {
        lemma_refs_keep_owners(totals.model(), digests.ref_deletes@, 0);
    }
    match tally_deletes(&mut totals, &digests.ref_deletes) {
        Some(fault) => {
            return Err(ManagerError::new(fault));
        },
        None => {},
    }
    proof {
        lemma_refs_keep_owners(totals.model(), digests.ref_adds@, 0);
    }
    match tally_adds(&mut totals, &digests.ref_adds) {
        Some(fault) => {
            return Err(ManagerError::new(fault));
        },
        None => {},
    }
    if totals.object_count <= 0 || totals.ref_count < 0 {
        return Err(ManagerError::new("incremental revision counts are invalid"));
    }
    if totals.privileged < 0 {
        return Err(ManagerError::new("incremental privileged-metadata count underflow"));
    }
    let (cardinality, xor): (i64, u64) = match settle_owners(
        base_owner_counts,
        &totals.owners,
        base.owner_cardinality,
        base.owner_uid_xor,
    ) {
        Err(fault) => {
            return Err(ManagerError::new(fault));
        },
        Ok(settled) => settled,
    };
    if cardinality <= 0 {
        return Err(ManagerError::new("incremental revision has no owners"));
    }
    let metadata = RevisionMetadata {
        summary_version: SUMMARY_VERSION,
        owner_cardinality: cardinality,
        owner_uid_xor: xor,
        object_count: totals.object_count,
        ref_count: totals.ref_count,
        state_hash: totals.state,
        single_owner_uid: if cardinality == 1 {
            Some(xor)
        } else {
            None
        },
        privileged_metadata_count: totals.privileged,
        security_state_hash: totals.security,
    };
    Ok((metadata, totals.owners))
}

} // verus!
