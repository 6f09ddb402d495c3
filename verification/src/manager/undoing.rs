//! Taking a delta back.

use crate::index::Object;
use crate::inodes::{lemma_numbers_in_order, numbers_in_order};
use crate::manager::metadata::{
    object_in, opening_tally, owner_of, revised_summary, settle_owners_from, tally_adds_from,
    tally_deletes_from, tally_digest, tally_object, tally_objects_from, xor_bytes, ChangedDigests,
    DeltaDigests, SummaryView, Tally, SUMMARY_VERSION,
};
use crate::manager::summary::{is_any, is_owned, is_privileged, lemma_tally_refs, weight};
use crate::manifest::ManifestView;
use vstd::prelude::*;

verus! {

/// How much the number of objects that pass the test grows by the changes from
/// `at` on.
pub open spec fn growth_from(
    base: Map<u64, Object>,
    target: Map<u64, Object>,
    inos: Seq<u64>,
    test: spec_fn(Object) -> bool,
    at: int,
) -> int
    decreases inos.len() - at,
{
    if at < 0 || at >= inos.len() {
        0
    } else {
        weight(object_in(target, inos[at]), test) - weight(object_in(base, inos[at]), test)
            + growth_from(base, target, inos, test, at + 1)
    }
}

/// The digest of nothing.
pub open spec fn no_digest() -> Seq<u8> {
    Seq::new(32, |i: int| 0u8)
}

/// What the change of one object mixes into a digest.
pub open spec fn object_mix(
    old: Option<Object>,
    new: Option<Object>,
    old_digest: Seq<u8>,
    new_digest: Seq<u8>,
) -> Seq<u8> {
    if old == new {
        no_digest()
    } else {
        xor_bytes(
            if old is Some {
                old_digest
            } else {
                no_digest()
            },
            if new is Some {
                new_digest
            } else {
                no_digest()
            },
        )
    }
}

/// What the changes from `at` on mix into the state digest.
pub open spec fn state_mix_from(
    base: Map<u64, Object>,
    target: Map<u64, Object>,
    digests: Map<u64, ChangedDigests>,
    inos: Seq<u64>,
    at: int,
) -> Seq<u8>
    decreases inos.len() - at,
{
    if at < 0 || at >= inos.len() {
        no_digest()
    } else {
        let ino = inos[at];
        xor_bytes(
            object_mix(
                object_in(base, ino),
                object_in(target, ino),
                digests[ino].old_state@,
                digests[ino].new_state@,
            ),
            state_mix_from(base, target, digests, inos, at + 1),
        )
    }
}

/// What the changes from `at` on mix into the security digest.
pub open spec fn security_mix_from(
    base: Map<u64, Object>,
    target: Map<u64, Object>,
    digests: Map<u64, ChangedDigests>,
    inos: Seq<u64>,
    at: int,
) -> Seq<u8>
    decreases inos.len() - at,
{
    if at < 0 || at >= inos.len() {
        no_digest()
    } else {
        let ino = inos[at];
        xor_bytes(
            object_mix(
                object_in(base, ino),
                object_in(target, ino),
                digests[ino].old_security@,
                digests[ino].new_security@,
            ),
            security_mix_from(base, target, digests, inos, at + 1),
        )
    }
}

/// What the references from `at` on mix into the state digest.
pub open spec fn refs_mix_from(digests: Seq<[u8; 32]>, at: int) -> Seq<u8>
    decreases digests.len() - at,
{
    if at < 0 || at >= digests.len() {
        no_digest()
    } else {
        xor_bytes(digests[at]@, refs_mix_from(digests, at + 1))
    }
}

pub(crate) proof fn lemma_xor_laws(a: Seq<u8>, b: Seq<u8>, c: Seq<u8>)
    requires
        a.len() == 32,
        b.len() == 32,
        c.len() == 32,
    ensures
        xor_bytes(a, b).len() == 32,
        xor_bytes(a, no_digest()) == a,
        xor_bytes(no_digest(), a) == a,
        xor_bytes(a, b) == xor_bytes(b, a),
        xor_bytes(xor_bytes(a, b), c) == xor_bytes(a, xor_bytes(b, c)),
        xor_bytes(xor_bytes(a, b), b) == a,
{
    assert forall|i: int| 0 <= i < 32 implies (a[i] ^ b[i]) ^ c[i] == a[i] ^ (b[i] ^ c[i]) && a[i]
        ^ b[i] == b[i] ^ a[i] && (a[i] ^ b[i]) ^ b[i] == a[i] && a[i] ^ 0u8 == a[i] && 0u8 ^ a[i]
        == a[i] by {
        let (x, y, z) = (a[i], b[i], c[i]);
        assert((x ^ y) ^ z == x ^ (y ^ z) && x ^ y == y ^ x && (x ^ y) ^ y == x && x ^ 0u8 == x
            && 0u8 ^ x == x) by (bit_vector);
    }
    assert(xor_bytes(a, no_digest()) =~= a);
    assert(xor_bytes(no_digest(), a) =~= a);
    assert(xor_bytes(a, b) =~= xor_bytes(b, a));
    assert(xor_bytes(xor_bytes(a, b), c) =~= xor_bytes(a, xor_bytes(b, c)));
    assert(xor_bytes(xor_bytes(a, b), b) =~= a);
}

proof fn lemma_object_mix(
    digest: Seq<u8>,
    old: Option<Object>,
    new: Option<Object>,
    old_digest: Seq<u8>,
    new_digest: Seq<u8>,
)
    requires
        digest.len() == 32,
        old_digest.len() == 32,
        new_digest.len() == 32,
    ensures
        object_mix(old, new, old_digest, new_digest).len() == 32,
        tally_digest(digest, old, new, old_digest, new_digest) == xor_bytes(
            digest,
            object_mix(old, new, old_digest, new_digest),
        ),
        object_mix(new, old, new_digest, old_digest) == object_mix(
            old,
            new,
            old_digest,
            new_digest,
        ),
{
    lemma_xor_laws(digest, old_digest, new_digest);
    lemma_xor_laws(old_digest, new_digest, digest);
    lemma_xor_laws(new_digest, old_digest, digest);
    lemma_xor_laws(digest, new_digest, old_digest);
    lemma_xor_laws(no_digest(), no_digest(), digest);
}

pub(crate) proof fn lemma_mix_length(
    base: Map<u64, Object>,
    target: Map<u64, Object>,
    digests: Map<u64, ChangedDigests>,
    inos: Seq<u64>,
    at: int,
)
    ensures
        state_mix_from(base, target, digests, inos, at).len() == 32,
        security_mix_from(base, target, digests, inos, at).len() == 32,
{
}

/// Whether every changed object's owners are among those counted.
pub open spec fn owners_loaded(
    owners: Set<u64>,
    base: Map<u64, Object>,
    target: Map<u64, Object>,
    inos: Seq<u64>,
    at: int,
) -> bool {
    forall|i: int|
        at <= i < inos.len() ==> {
            let old = owner_of(object_in(base, #[trigger] inos[i]));
            let new = owner_of(object_in(target, inos[i]));
            old != new ==> {
                &&& old matches Some(uid) ==> owners.contains(uid)
                &&& new matches Some(uid) ==> owners.contains(uid)
            }
        }
}

pub(crate) proof fn lemma_tally_growth(
    tally: Tally,
    base: Map<u64, Object>,
    target: Map<u64, Object>,
    digests: Map<u64, ChangedDigests>,
    inos: Seq<u64>,
    at: int,
)
    requires
        0 <= at <= inos.len(),
        tally.state.len() == 32,
        tally.security.len() == 32,
        tally_objects_from(tally, base, target, digests, inos, at) is Ok,
    ensures
        ({
            let next = tally_objects_from(tally, base, target, digests, inos, at)->Ok_0;
            &&& next.object_count == tally.object_count + growth_from(
                base,
                target,
                inos,
                is_any(),
                at,
            )
            &&& next.privileged == tally.privileged + growth_from(
                base,
                target,
                inos,
                is_privileged(),
                at,
            )
            &&& next.ref_count == tally.ref_count
            &&& next.owners.dom() == tally.owners.dom()
            &&& forall|uid: u64| #[trigger]
                next.owners.contains_key(uid) ==> next.owners[uid] == tally.owners[uid]
                    + growth_from(base, target, inos, is_owned(uid), at)
            &&& next.state == xor_bytes(
                tally.state,
                state_mix_from(base, target, digests, inos, at),
            )
            &&& next.security == xor_bytes(
                tally.security,
                security_mix_from(base, target, digests, inos, at),
            )
            &&& next.state.len() == 32
            &&& next.security.len() == 32
            &&& owners_loaded(tally.owners.dom(), base, target, inos, at)
        }),
    decreases inos.len() - at,
{
    lemma_xor_laws(tally.state, tally.security, tally.state);
    lemma_xor_laws(tally.security, tally.security, tally.state);
    if at < inos.len() {
        let ino = inos[at];
        let (old, new) = (object_in(base, ino), object_in(target, ino));
        let changed = digests[ino];
        let next = tally_object(tally, old, new, changed)->Ok_0;
        lemma_object_mix(tally.state, old, new, changed.old_state@, changed.new_state@);
        lemma_object_mix(tally.security, old, new, changed.old_security@, changed.new_security@);
        assert(next.owners.dom() =~= tally.owners.dom());
        lemma_tally_growth(next, base, target, digests, inos, at + 1);
        lemma_mix_length(base, target, digests, inos, at + 1);
        lemma_xor_laws(
            tally.state,
            object_mix(old, new, changed.old_state@, changed.new_state@),
            state_mix_from(base, target, digests, inos, at + 1),
        );
        lemma_xor_laws(
            tally.security,
            object_mix(old, new, changed.old_security@, changed.new_security@),
            security_mix_from(base, target, digests, inos, at + 1),
        );
        let last = tally_objects_from(tally, base, target, digests, inos, at)->Ok_0;
        assert forall|uid: u64| #[trigger] last.owners.contains_key(uid) implies last.owners[uid]
            == tally.owners[uid] + growth_from(base, target, inos, is_owned(uid), at) by {
            assert(next.owners.contains_key(uid));
            assert(next.owners[uid] == tally.owners[uid] + weight(new, is_owned(uid)) - weight(
                old,
                is_owned(uid),
            ));
        }
    }
}

proof fn lemma_growth_reversed(
    base: Map<u64, Object>,
    target: Map<u64, Object>,
    inos: Seq<u64>,
    test: spec_fn(Object) -> bool,
    at: int,
)
    ensures
        growth_from(target, base, inos, test, at) == -growth_from(base, target, inos, test, at),
    decreases inos.len() - at,
{
    if 0 <= at < inos.len() {
        lemma_growth_reversed(base, target, inos, test, at + 1);
    }
}

/// The digests of a changed object, seen from the other side.
pub open spec fn turned(digests: ChangedDigests) -> ChangedDigests {
    ChangedDigests {
        old_state: digests.new_state,
        old_security: digests.new_security,
        new_state: digests.old_state,
        new_security: digests.old_security,
    }
}

/// Whether the digests are those of the delta that takes another one back.
pub open spec fn takes_back(
    digests: DeltaDigests,
    back: DeltaDigests,
    manifest: ManifestView,
) -> bool {
    &&& forall|ino: u64| #[trigger]
        manifest.objects.contains_key(ino) ==> back.objects@[ino] == turned(digests.objects@[ino])
    &&& back.ref_adds@ == digests.ref_deletes@
    &&& back.ref_deletes@ == digests.ref_adds@
}

proof fn lemma_mix_reversed(
    base: Map<u64, Object>,
    target: Map<u64, Object>,
    digests: Map<u64, ChangedDigests>,
    back: Map<u64, ChangedDigests>,
    inos: Seq<u64>,
    at: int,
)
    requires
        0 <= at,
        forall|i: int|
            0 <= i < inos.len() ==> back[#[trigger] inos[i]] == turned(digests[inos[i]]),
    ensures
        state_mix_from(target, base, back, inos, at) == state_mix_from(
            base,
            target,
            digests,
            inos,
            at,
        ),
        security_mix_from(target, base, back, inos, at) == security_mix_from(
            base,
            target,
            digests,
            inos,
            at,
        ),
    decreases inos.len() - at,
{
    if at < inos.len() {
        let ino = inos[at];
        let (old, new) = (object_in(base, ino), object_in(target, ino));
        let changed = digests[ino];
        assert(back[ino] == turned(changed));
        lemma_object_mix(no_digest(), old, new, changed.old_state@, changed.new_state@);
        lemma_object_mix(no_digest(), old, new, changed.old_security@, changed.new_security@);
        lemma_mix_reversed(base, target, digests, back, inos, at + 1);
    }
}

pub(crate) proof fn lemma_refs_mix(tally: Tally, digests: Seq<[u8; 32]>, at: int)
    requires
        0 <= at <= digests.len(),
        tally.state.len() == 32,
    ensures
        refs_mix_from(digests, at).len() == 32,
        tally_deletes_from(tally, digests, at) matches Ok(next) ==> next.state == xor_bytes(
            tally.state,
            refs_mix_from(digests, at),
        ),
        tally_adds_from(tally, digests, at) matches Ok(next) ==> next.state == xor_bytes(
            tally.state,
            refs_mix_from(digests, at),
        ),
    decreases digests.len() - at,
{
    lemma_xor_laws(tally.state, tally.state, tally.state);
    if at < digests.len() {
        let state = xor_bytes(tally.state, digests[at]@);
        lemma_refs_mix(Tally { ref_count: tally.ref_count - 1, state, ..tally }, digests, at + 1);
        lemma_refs_mix(Tally { ref_count: tally.ref_count + 1, state, ..tally }, digests, at + 1);
        lemma_xor_laws(tally.state, digests[at]@, refs_mix_from(digests, at + 1));
    }
}

/// How much the number of owners grows by the users from `at` on.
pub open spec fn owners_growth_from(
    before: Map<u64, i64>,
    after: Map<u64, i64>,
    uids: Seq<u64>,
    at: int,
) -> int
    decreases uids.len() - at,
{
    if at < 0 || at >= uids.len() {
        0
    } else {
        let uid = uids[at];
        let step: int = if before[uid] == 0 && after[uid] != 0 {
            1
        } else if before[uid] != 0 && after[uid] == 0 {
            -1
        } else {
            0
        };
        step + owners_growth_from(before, after, uids, at + 1)
    }
}

/// The exclusive or of the users from `at` on that come or go.
pub open spec fn owners_mix_from(
    before: Map<u64, i64>,
    after: Map<u64, i64>,
    uids: Seq<u64>,
    at: int,
) -> u64
    decreases uids.len() - at,
{
    if at < 0 || at >= uids.len() {
        0
    } else {
        let rest = owners_mix_from(before, after, uids, at + 1);
        if (before[uids[at]] == 0) != (after[uids[at]] == 0) {
            uids[at] ^ rest
        } else {
            rest
        }
    }
}

proof fn lemma_xor_numbers(a: u64, b: u64, c: u64)
    ensures
        (a ^ b) ^ c == a ^ (b ^ c),
        a ^ 0 == a,
        (a ^ b) ^ b == a,
{
    assert((a ^ b) ^ c == a ^ (b ^ c) && a ^ 0 == a && (a ^ b) ^ b == a) by (bit_vector);
}

proof fn lemma_settle_growth(
    before: Map<u64, i64>,
    after: Map<u64, i64>,
    uids: Seq<u64>,
    at: int,
    cardinality: int,
    xor: u64,
)
    requires
        0 <= at <= uids.len(),
    ensures
        settle_owners_from(before, after, uids, at, cardinality, xor) matches Ok((number, mixed))
            ==> {
            &&& number == cardinality + owners_growth_from(before, after, uids, at)
            &&& mixed == xor ^ owners_mix_from(before, after, uids, at)
            &&& forall|i: int| at <= i < uids.len() ==> after[#[trigger] uids[i]] >= 0
        },
        (cardinality + (uids.len() - at) <= i64::MAX && cardinality - (uids.len() - at) >= i64::MIN
            && forall|i: int| at <= i < uids.len() ==> after[#[trigger] uids[i]] >= 0)
            ==> settle_owners_from(before, after, uids, at, cardinality, xor) is Ok,
    decreases uids.len() - at,
{
    lemma_xor_numbers(xor, 0, 0);
    if at < uids.len() {
        let uid = uids[at];
        let rest = owners_mix_from(before, after, uids, at + 1);
        lemma_xor_numbers(xor, uid, rest);
        lemma_settle_growth(before, after, uids, at + 1, cardinality + 1, xor ^ uid);
        lemma_settle_growth(before, after, uids, at + 1, cardinality - 1, xor ^ uid);
        lemma_settle_growth(before, after, uids, at + 1, cardinality, xor);
    }
}

proof fn lemma_settle_reversed(
    before: Map<u64, i64>,
    after: Map<u64, i64>,
    uids: Seq<u64>,
    at: int,
)
    ensures
        owners_growth_from(after, before, uids, at) == -owners_growth_from(
            before,
            after,
            uids,
            at,
        ),
        owners_mix_from(after, before, uids, at) == owners_mix_from(before, after, uids, at),
    decreases uids.len() - at,
{
    if 0 <= at < uids.len() {
        lemma_settle_reversed(before, after, uids, at + 1);
    }
}

/// Whether totals have room for that many changes either way.
pub open spec fn tally_has_room(tally: Tally, changes: nat) -> bool {
    &&& i64::MIN + changes <= tally.object_count <= i64::MAX - changes
    &&& i64::MIN + changes <= tally.privileged <= i64::MAX - changes
    &&& forall|uid: u64| #[trigger]
        tally.owners.contains_key(uid) ==> i64::MIN + changes <= tally.owners[uid] <= i64::MAX
            - changes
}

proof fn lemma_room_is_enough(
    tally: Tally,
    base: Map<u64, Object>,
    target: Map<u64, Object>,
    digests: Map<u64, ChangedDigests>,
    inos: Seq<u64>,
    at: int,
)
    requires
        0 <= at <= inos.len(),
        tally_has_room(tally, (inos.len() - at) as nat),
        owners_loaded(tally.owners.dom(), base, target, inos, at),
    ensures
        tally_objects_from(tally, base, target, digests, inos, at) is Ok,
    decreases inos.len() - at,
{
    if at < inos.len() {
        let ino = inos[at];
        let step = tally_object(tally, object_in(base, ino), object_in(target, ino), digests[ino]);
        assert(step is Ok);
        let next = step->Ok_0;
        assert(next.owners.dom() =~= tally.owners.dom());
        assert forall|uid: u64| #[trigger] next.owners.contains_key(uid) implies i64::MIN + (
        inos.len() - at - 1) <= next.owners[uid] <= i64::MAX - (inos.len() - at - 1) by {
            assert(tally.owners.contains_key(uid));
        }
        lemma_room_is_enough(next, base, target, digests, inos, at + 1);
    }
}

proof fn lemma_refs_room(tally: Tally, digests: Seq<[u8; 32]>, at: int)
    requires
        0 <= at <= digests.len(),
        i64::MIN + (digests.len() - at) <= tally.ref_count <= i64::MAX - (digests.len() - at),
    ensures
        tally_deletes_from(tally, digests, at) is Ok,
        tally_adds_from(tally, digests, at) is Ok,
    decreases digests.len() - at,
{
    if at < digests.len() {
        let state = xor_bytes(tally.state, digests[at]@);
        lemma_refs_room(Tally { ref_count: tally.ref_count - 1, state, ..tally }, digests, at + 1);
        lemma_refs_room(Tally { ref_count: tally.ref_count + 1, state, ..tally }, digests, at + 1);
    }
}

/// Whether the diagnostic is that of a number that runs over the largest one.
pub open spec fn runs_over(fault: Seq<char>) -> bool {
    ||| fault == "revision object count overflow"@
    ||| fault == "privileged metadata count overflow"@
    ||| fault == "owner object count overflow"@
    ||| fault == "revision reference count overflow"@
    ||| fault == "owner cardinality overflow"@
}

/// Whether totals are that far from the lowest number.
pub open spec fn tally_above(tally: Tally, changes: nat) -> bool {
    &&& i64::MIN + changes <= tally.object_count
    &&& i64::MIN + changes <= tally.privileged
    &&& forall|uid: u64| #[trigger]
        tally.owners.contains_key(uid) ==> i64::MIN + changes <= tally.owners[uid]
}

proof fn lemma_tally_runs_over(
    tally: Tally,
    base: Map<u64, Object>,
    target: Map<u64, Object>,
    digests: Map<u64, ChangedDigests>,
    inos: Seq<u64>,
    at: int,
)
    requires
        0 <= at <= inos.len(),
        tally_above(tally, (inos.len() - at) as nat),
        owners_loaded(tally.owners.dom(), base, target, inos, at),
    ensures
        tally_objects_from(tally, base, target, digests, inos, at) matches Err(fault) ==> runs_over(
            fault,
        ),
    decreases inos.len() - at,
{
    if at < inos.len() {
        let ino = inos[at];
        let step = tally_object(tally, object_in(base, ino), object_in(target, ino), digests[ino]);
        if let Ok(next) = step {
            assert(next.owners.dom() =~= tally.owners.dom());
            assert forall|uid: u64| #[trigger] next.owners.contains_key(uid) implies i64::MIN + (
            inos.len() - at - 1) <= next.owners[uid] by {
                assert(tally.owners.contains_key(uid));
            }
            lemma_tally_runs_over(next, base, target, digests, inos, at + 1);
        }
    }
}

proof fn lemma_refs_run_over(tally: Tally, digests: Seq<[u8; 32]>, at: int)
    requires
        0 <= at <= digests.len(),
    ensures
        i64::MIN + (digests.len() - at) <= tally.ref_count ==> tally_deletes_from(
            tally,
            digests,
            at,
        ) is Ok,
        tally_adds_from(tally, digests, at) matches Err(fault) ==> runs_over(fault),
    decreases digests.len() - at,
{
    if at < digests.len() {
        let state = xor_bytes(tally.state, digests[at]@);
        lemma_refs_run_over(
            Tally { ref_count: tally.ref_count - 1, state, ..tally },
            digests,
            at + 1,
        );
        lemma_refs_run_over(
            Tally { ref_count: tally.ref_count + 1, state, ..tally },
            digests,
            at + 1,
        );
    }
}

proof fn lemma_owners_run_over(
    before: Map<u64, i64>,
    after: Map<u64, i64>,
    uids: Seq<u64>,
    at: int,
    cardinality: int,
    xor: u64,
)
    requires
        0 <= at <= uids.len(),
        i64::MIN + (uids.len() - at) <= cardinality,
        forall|i: int| at <= i < uids.len() ==> after[#[trigger] uids[i]] >= 0,
    ensures
        settle_owners_from(before, after, uids, at, cardinality, xor) matches Err(fault)
            ==> runs_over(fault),
    decreases uids.len() - at,
{
    if at < uids.len() {
        let uid = uids[at];
        assert(after[uid] >= 0);
        lemma_owners_run_over(before, after, uids, at + 1, cardinality + 1, xor ^ uid);
        if cardinality > i64::MIN {
            lemma_owners_run_over(before, after, uids, at + 1, cardinality - 1, xor ^ uid);
        }
        lemma_owners_run_over(before, after, uids, at + 1, cardinality, xor);
    }
}

/// Whether a summary is one that a revision can have: nothing is counted below
/// zero, there are objects and owners, and a single owner is the exclusive or of
/// the owners.
pub open spec fn summary_sound(summary: SummaryView) -> bool {
    &&& summary.summary_version == SUMMARY_VERSION
    &&& summary.object_count > 0
    &&& summary.ref_count >= 0
    &&& summary.privileged >= 0
    &&& summary.owner_cardinality > 0
    &&& summary.single_owner_uid == if summary.owner_cardinality == 1 {
        Some(summary.owner_uid_xor)
    } else {
        None
    }
    &&& summary.state.len() == 32
    &&& summary.security.len() == 32
}

/// Whether what a delta changes can be counted.
pub open spec fn countable(
    counts: Map<u64, i64>,
    manifest: ManifestView,
    digests: DeltaDigests,
) -> bool {
    &&& numbers_in_order(manifest.objects.dom()).len() <= i64::MAX
    &&& numbers_in_order(counts.dom()).len() <= i64::MAX
    &&& digests.ref_adds@.len() <= i64::MAX
    &&& digests.ref_deletes@.len() <= i64::MAX
}

/// Whether counts so far from the largest number are taken back without running
/// over it on the way.
pub open spec fn has_room(
    summary: SummaryView,
    counts: Map<u64, i64>,
    manifest: ManifestView,
    digests: DeltaDigests,
) -> bool {
    let objects = numbers_in_order(manifest.objects.dom()).len();
    let references = digests.ref_adds@.len() + digests.ref_deletes@.len();
    let owners = numbers_in_order(counts.dom()).len();
    &&& summary.object_count + objects <= i64::MAX
    &&& summary.privileged + objects <= i64::MAX
    &&& summary.ref_count + references <= i64::MAX
    &&& summary.owner_cardinality + owners <= i64::MAX
    &&& forall|uid: u64| #[trigger] counts.contains_key(uid) ==> counts[uid] + objects <= i64::MAX
}

/// The manifest of the other direction: what was added goes, and what went is
/// added.
pub open spec fn reversed(manifest: ManifestView) -> ManifestView {
    ManifestView {
        ref_adds: manifest.ref_deletes,
        ref_deletes: manifest.ref_adds,
        raw_ref_adds: manifest.raw_ref_deletes,
        raw_ref_deletes: manifest.raw_ref_adds,
        ..manifest
    }
}

/// The delta that takes another back restores the summary and the counts that
/// the other started from: both digests, every number and the owners. It is
/// refused only where a number runs over the largest one on the way, which none
/// does that is far enough from it.
pub proof fn law_undone_delta_restores_the_summary(
    base: SummaryView,
    old: Map<u64, Object>,
    new: Map<u64, Object>,
    manifest: ManifestView,
    digests: DeltaDigests,
    back: DeltaDigests,
    counts: Map<u64, i64>,
    revised: SummaryView,
    after: Map<u64, i64>,
)
    requires
        summary_sound(base),
        manifest.objects.dom().finite(),
        counts.dom().finite(),
        forall|uid: u64| #[trigger] counts.contains_key(uid) ==> counts[uid] >= 0,
        revised_summary(base, old, new, manifest, digests, counts) == Ok::<
            (SummaryView, Map<u64, i64>),
            Seq<char>,
        >((revised, after)),
        takes_back(digests, back, manifest),
        countable(counts, manifest, digests),
    ensures
        match revised_summary(revised, new, old, reversed(manifest), back, after) {
            Ok(restored) => restored == (base, counts),
            Err(fault) => runs_over(fault),
        },
        has_room(revised, after, manifest, digests) ==> revised_summary(
            revised,
            new,
            old,
            reversed(manifest),
            back,
            after,
        ) is Ok,
{
    let inos = numbers_in_order(manifest.objects.dom());
    lemma_numbers_in_order(manifest.objects.dom());
    assert forall|i: int| 0 <= i < inos.len() implies back.objects@[#[trigger] inos[i]] == turned(
        digests.objects@[inos[i]],
    ) by {
        assert(inos.to_set().contains(inos[i]));
    }
    let opening = opening_tally(base, counts);
    lemma_tally_growth(opening, old, new, digests.objects@, inos, 0);
    let first = tally_objects_from(opening, old, new, digests.objects@, inos, 0)->Ok_0;
    lemma_tally_refs(first, digests.ref_deletes@, 0);
    lemma_refs_mix(first, digests.ref_deletes@, 0);
    let second = tally_deletes_from(first, digests.ref_deletes@, 0)->Ok_0;
    lemma_xor_laws(first.state, refs_mix_from(digests.ref_deletes@, 0), first.state);
    lemma_tally_refs(second, digests.ref_adds@, 0);
    lemma_refs_mix(second, digests.ref_adds@, 0);
    assert(after == first.owners);
    let uids = numbers_in_order(after.dom());
    lemma_numbers_in_order(after.dom());
    assert(after.dom() == counts.dom());
    lemma_settle_growth(counts, after, uids, 0, base.owner_cardinality, base.owner_uid_xor);
    lemma_settle_reversed(counts, after, uids, 0);
    let mixed = owners_mix_from(counts, after, uids, 0);
    lemma_xor_numbers(base.owner_uid_xor, mixed, mixed);
    let reopened = opening_tally(revised, after);
    let (a, b) = (refs_mix_from(digests.ref_adds@, 0), refs_mix_from(digests.ref_deletes@, 0));
    let state_mix = state_mix_from(old, new, digests.objects@, inos, 0);
    let security_mix = security_mix_from(old, new, digests.objects@, inos, 0);
    lemma_mix_length(old, new, digests.objects@, inos, 0);
    lemma_xor_laws(second.state, a, a);
    lemma_growth_reversed(old, new, inos, is_any(), 0);
    lemma_growth_reversed(old, new, inos, is_privileged(), 0);
    lemma_mix_reversed(old, new, digests.objects@, back.objects@, inos, 0);
    if has_room(revised, after, manifest, digests) {
        lemma_undo_has_room(revised, old, new, manifest, digests, back, after, first);
    }
    lemma_owners_loaded_back(after.dom(), old, new, inos);
    lemma_tally_runs_over(reopened, new, old, back.objects@, inos, 0);
    if let Ok(third) = tally_objects_from(reopened, new, old, back.objects@, inos, 0) {
        lemma_tally_growth(reopened, new, old, back.objects@, inos, 0);
        lemma_tally_refs(third, back.ref_deletes@, 0);
        lemma_refs_mix(third, back.ref_deletes@, 0);
        lemma_refs_run_over(third, back.ref_deletes@, 0);
        if let Ok(fourth) = tally_deletes_from(third, back.ref_deletes@, 0) {
            lemma_xor_laws(third.state, a, b);
            lemma_tally_refs(fourth, back.ref_adds@, 0);
            lemma_refs_mix(fourth, back.ref_adds@, 0);
            lemma_refs_run_over(fourth, back.ref_adds@, 0);
            if let Ok(last) = tally_adds_from(fourth, back.ref_adds@, 0) {
                lemma_states_cancel(base.state, state_mix, b, a);
                lemma_xor_laws(base.security, security_mix, security_mix);
                assert(last.state == base.state);
                assert(last.security == base.security);
                assert forall|uid: u64| #[trigger] last.owners.contains_key(uid) implies
                    last.owners[uid] == counts[uid] by {
                    lemma_growth_reversed(old, new, inos, is_owned(uid), 0);
                    assert(first.owners.contains_key(uid));
                    assert(third.owners.contains_key(uid));
                }
                assert(last.owners =~= counts);
                assert forall|i: int| 0 <= i < uids.len() implies counts[#[trigger] uids[i]]
                    >= 0 by {
                    assert(uids.to_set().contains(uids[i]));
                }
                lemma_settle_growth(
                    after,
                    counts,
                    uids,
                    0,
                    revised.owner_cardinality,
                    revised.owner_uid_xor,
                );
                lemma_owners_run_over(
                    after,
                    counts,
                    uids,
                    0,
                    revised.owner_cardinality,
                    revised.owner_uid_xor,
                );
            }
        }
    }
}

proof fn lemma_owners_loaded_back(
    owners: Set<u64>,
    old: Map<u64, Object>,
    new: Map<u64, Object>,
    inos: Seq<u64>,
)
    requires
        owners_loaded(owners, old, new, inos, 0),
    ensures
        owners_loaded(owners, new, old, inos, 0),
{
    assert forall|i: int| 0 <= i < inos.len() implies {
        let before = owner_of(object_in(new, #[trigger] inos[i]));
        let now = owner_of(object_in(old, inos[i]));
        before != now ==> {
            &&& before matches Some(uid) ==> owners.contains(uid)
            &&& now matches Some(uid) ==> owners.contains(uid)
        }
    } by {
        let other = owner_of(object_in(old, inos[i]));
    }
}

proof fn lemma_states_cancel(state: Seq<u8>, x: Seq<u8>, y: Seq<u8>, z: Seq<u8>)
    requires
        state.len() == 32,
        x.len() == 32,
        y.len() == 32,
        z.len() == 32,
    ensures
        xor_bytes(
            xor_bytes(
                xor_bytes(xor_bytes(xor_bytes(xor_bytes(state, x), y), z), x),
                z,
            ),
            y,
        ) == state,
{
    let left = xor_bytes(
        xor_bytes(xor_bytes(xor_bytes(xor_bytes(xor_bytes(state, x), y), z), x), z),
        y,
    );
    assert forall|i: int| 0 <= i < 32 implies left[i] == state[i] by {
        let (s, a, b, c) = (state[i], x[i], y[i], z[i]);
        assert((((((s ^ a) ^ b) ^ c) ^ a) ^ c) ^ b == s) by (bit_vector);
    }
    assert(left =~= state);
}

proof fn lemma_undo_has_room(
    revised: SummaryView,
    old: Map<u64, Object>,
    new: Map<u64, Object>,
    manifest: ManifestView,
    digests: DeltaDigests,
    back: DeltaDigests,
    after: Map<u64, i64>,
    first: Tally,
)
    requires
        has_room(revised, after, manifest, digests),
        revised.object_count > 0,
        revised.privileged >= 0,
        revised.ref_count >= 0,
        revised.state.len() == 32,
        revised.security.len() == 32,
        forall|uid: u64| #[trigger] after.contains_key(uid) ==> after[uid] >= 0,
        owners_loaded(after.dom(), old, new, numbers_in_order(manifest.objects.dom()), 0),
        takes_back(digests, back, manifest),
    ensures
        ({
            let inos = numbers_in_order(manifest.objects.dom());
            let reopened = opening_tally(revised, after);
            let third = tally_objects_from(reopened, new, old, back.objects@, inos, 0);
            let fourth = tally_deletes_from(third->Ok_0, back.ref_deletes@, 0);
            &&& third is Ok
            &&& fourth is Ok
            &&& tally_adds_from(fourth->Ok_0, back.ref_adds@, 0) is Ok
        }),
{
    let inos = numbers_in_order(manifest.objects.dom());
    let reopened = opening_tally(revised, after);
    lemma_owners_loaded_back(after.dom(), old, new, inos);
    lemma_room_is_enough(reopened, new, old, back.objects@, inos, 0);
    lemma_tally_growth(reopened, new, old, back.objects@, inos, 0);
    let third = tally_objects_from(reopened, new, old, back.objects@, inos, 0)->Ok_0;
    lemma_refs_room(third, back.ref_deletes@, 0);
    lemma_tally_refs(third, back.ref_deletes@, 0);
    let fourth = tally_deletes_from(third, back.ref_deletes@, 0)->Ok_0;
    lemma_refs_room(fourth, back.ref_adds@, 0);
}

} // verus!
