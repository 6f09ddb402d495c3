//! What is taken of a spooled manifest, and which objects it needs.

use crate::bytes::le_bytes;
use crate::digest::sha256;
use crate::encoding::eight_bytes;
use crate::index::Object;
use crate::inodes::{lemma_numbers_in_order, numbers_in_order};
use crate::manifest::{ObjectChange, CHANGED_OBJECTS_V2_MAGIC};
use crate::manifest_v2::{stream_of, StreamView};
use crate::ordered::{in_order, lemma_in_order};
use crate::service::stage::{
    discard_spool, encrypted, encrypted_from, kept_promise, kernel_stream, needed_targets,
    needs_target, omitted_from, private_file, resolved, stage_limit, staged, target_fault,
    targets_fault, targets_fault_from, trailer, KernelView, Materialized, SpoolReport,
    MANIFEST_STAGE_TRAILER_MAGIC,
};
use crate::spelling::said;
use vstd::prelude::*;

verus! {

/// A trailer says what it is, how long the manifest is, and what its digest is, in its last
/// fifty-six bytes.
pub proof fn law_trailer_says_what_it_closes(length: u64, hash: [u8; 32])
    ensures
        trailer(length, hash@) == said("bsend-stage-v1"@) + seq![0u8, 0u8] + eight_bytes(length)
            + hash@,
        trailer(length, hash@).len() == 56,
{
    reveal_strlit("bsend-stage-v1");
    let text = said("bsend-stage-v1"@) + seq![0u8, 0u8];
    assert(MANIFEST_STAGE_TRAILER_MAGIC@ =~= text);
    assert(le_bytes(length) =~= eight_bytes(length));
}

/// What is taken for a complete manifest is all but the last fifty-six bytes, and the last
/// thirty-two are its digest.
pub proof fn law_staged_manifest_is_whole(bytes: Seq<u8>)
    ensures
        staged(bytes) matches Some(manifest) ==> {
            &&& manifest.len() == bytes.len() - 56
            &&& manifest == bytes.take(bytes.len() - 56)
            &&& sha256(manifest) == bytes.skip(bytes.len() - 32)
            &&& bytes.subrange(bytes.len() - 56, bytes.len() - 42) == said("bsend-stage-v1"@)
        },
{
    if let Some(manifest) = staged(bytes) {
        reveal_strlit("bsend-stage-v1");
        let split = bytes.len() - 56;
        let magic = bytes.subrange(split, split + 16);
        assert(magic == MANIFEST_STAGE_TRAILER_MAGIC@);
        assert forall|i: int| 0 <= i < 14 implies bytes[split + i] == #[trigger] said(
            "bsend-stage-v1"@,
        )[i] by {
            assert(magic[i] == bytes[split + i]);
        }
        assert(bytes.subrange(split, split + 14) =~= said("bsend-stage-v1"@));
    }
}

/// A spool file is private where it is a plain file of the user's, with one name, that its
/// owner alone can read and write.
pub proof fn law_private_spool(report: SpoolReport, uid: u32)
    ensures
        private_file(report, uid) <==> report.is_file && report.uid == uid && report.links == 1
            && report.mode % 512 == 384,
{
    let mode = report.mode;
    assert((mode & 0o777 == 0o600) == (mode % 512 == 384)) by (bit_vector);
}

/// Only a private spool file is removed or read, and of one that is read no more than the
/// limit and the trailer.
pub proof fn law_only_private_spools_are_touched(
    report: Result<Option<SpoolReport>, String>,
    uid: u32,
    limit: u64,
)
    ensures
        discard_spool(report, uid) matches Ok(remove) ==> (remove <==> report matches Ok(Some(_))),
        discard_spool(report, uid) is Ok <==> (report matches Ok(found) && (
        found matches Some(file) ==> private_file(file, uid))),
        stage_limit(report, uid, limit) matches Ok(Some(most)) ==> {
            &&& most == limit + 56
            &&& report matches Ok(Some(file))
            &&& private_file(file, uid)
            &&& file.length <= most
        },
        stage_limit(report, uid, limit) matches Ok(None) <==> report matches Ok(None),
        (report matches Ok(Some(file)) && private_file(file, uid) && file.length <= limit + 56
            && limit + 56 <= u64::MAX && file.length <= usize::MAX) ==> (stage_limit(
            report,
            uid,
            limit,
        ) matches Ok(Some(_))),
{
}

/// What was promised was kept where the bytes are as many and have the digest.
pub proof fn law_promises_are_held(bytes: Seq<u8>, declared: u64, hash: [u8; 32])
    ensures
        kept_promise(bytes, declared, hash) <==> declared == bytes.len() && hash@ == sha256(bytes),
{
}

/// A stream of the second format is used exactly where it makes sense, certifies where
/// subvolumes begin, and shows that none begins in the tree.
pub proof fn law_second_format_must_certify(bytes: Seq<u8>)
    requires
        bytes.len() >= 16,
        bytes.take(16) == CHANGED_OBJECTS_V2_MAGIC@,
        stream_of(bytes) matches Ok(stream) ==> stream.boundary_adds.finite(),
    ensures
        kernel_stream(bytes) is Ok <==> (stream_of(bytes) matches Ok(stream)
            && stream.header.boundary_records && stream.boundary_adds.len() == 0),
        kernel_stream(bytes) matches Ok(view) ==> view == KernelView::V2(stream_of(bytes)->Ok_0),
{
    if let Ok(stream) = stream_of(bytes) {
        let adds = stream.boundary_adds;
        lemma_in_order(adds);
        let order = in_order(adds);
        if order.len() > 0 {
            assert(order.to_set().contains(order[0]));
            assert(adds.contains(order[0]));
            assert(adds.len() != 0) by {
                if adds.len() == 0 {
                    assert(adds =~= Set::empty());
                }
            }
        } else if adds.len() != 0 {
            let key = adds.choose();
            assert(adds.contains(key));
            assert(order.to_set().contains(key));
        }
    }
}

proof fn lemma_targets(
    stream: StreamView,
    materialized: Map<u64, Materialized>,
    inos: Seq<u64>,
    at: int,
)
    requires
        0 <= at <= inos.len(),
    ensures
        targets_fault_from(stream, materialized, inos, at) is None <==> forall|i: int|
            at <= i < inos.len() ==> stream.target_security_xattrs.contains_key(
                #[trigger] inos[i],
            ) && materialized[inos[i]] is Ok,
    decreases inos.len() - at,
{
    if at < inos.len() {
        lemma_targets(stream, materialized, inos, at + 1);
        assert((target_fault(stream, materialized, inos[at]) is None) == (
        stream.target_security_xattrs.contains_key(inos[at]) && materialized[inos[at]] is Ok));
    }
}

/// The objects of a stream are used exactly where each had its attributes told anew and
/// could be made.
pub proof fn law_every_target_is_whole(stream: StreamView, materialized: Map<u64, Materialized>)
    requires
        stream.target_objects.dom().finite(),
    ensures
        targets_fault(stream, materialized) is None <==> forall|ino: u64| #[trigger]
            stream.target_objects.contains_key(ino) ==> stream.target_security_xattrs.contains_key(
                ino,
            ) && materialized[ino] is Ok,
{
    let set = stream.target_objects.dom();
    lemma_numbers_in_order(set);
    let inos = numbers_in_order(set);
    lemma_targets(stream, materialized, inos, 0);
    if targets_fault(stream, materialized) is None {
        assert forall|ino: u64| #[trigger]
            stream.target_objects.contains_key(ino) implies stream.target_security_xattrs.contains_key(
            ino,
        ) && materialized[ino] is Ok by {
            assert(inos.to_set().contains(ino));
            let i = choose|i: int| 0 <= i < inos.len() && inos[i] == ino;
            assert(stream.target_security_xattrs.contains_key(inos[i]));
        }
    } else {
        let i = choose|i: int|
            0 <= i < inos.len() && !(stream.target_security_xattrs.contains_key(#[trigger] inos[i])
                && materialized[inos[i]] is Ok);
        assert(inos.to_set().contains(inos[i]));
        assert(stream.target_objects.contains_key(inos[i]));
    }
}

/// An object is looked up in the target where it is still there and is new, or its own
/// data or its attributes changed.
pub proof fn law_needed_objects(objects: Map<u64, ObjectChange>, ino: u64)
    requires
        objects.contains_key(ino),
        objects[ino].ino == ino,
        forall|key: u64| #[trigger] objects.contains_key(key) ==> objects[key].ino == key,
    ensures
        needed_targets(objects).contains(ino) <==> {
            let mask = objects[ino].change_mask;
            mask & 64 == 0 && (mask & 32 != 0 || mask & 1 != 0 || mask & 4 != 0)
        },
{
    let mask = objects[ino].change_mask;
    assert((mask & (32u64 | 1u64 | 4u64) != 0) == (mask & 32 != 0 || mask & 1 != 0 || mask & 4
        != 0)) by (bit_vector);
    assert(needs_target(objects[ino]) == (mask & 64 == 0 && (mask & 32 != 0 || mask & 1 != 0 || mask
        & 4 != 0)));
    if needed_targets(objects).contains(ino) {
        let key = choose|key: u64| #[trigger]
            objects.contains_key(key) && needs_target(objects[key]) && objects[key].ino == ino;
        assert(key == ino);
    }
}

proof fn lemma_encrypted(objects: Map<u64, Object>, inos: Seq<u64>, flag: u64, at: int)
    requires
        0 <= at <= inos.len(),
    ensures
        encrypted_from(objects, inos, flag, at) is None <==> forall|i: int|
            at <= i < inos.len() ==> objects[#[trigger] inos[i]].privilege_flags & flag == 0,
    decreases inos.len() - at,
{
    if at < inos.len() {
        lemma_encrypted(objects, inos, flag, at + 1);
    }
}

/// A tree is refused exactly where one of its objects has the flag.
pub proof fn law_encrypted_objects_are_refused(objects: Map<u64, Object>, flag: u64)
    requires
        objects.dom().finite(),
    ensures
        encrypted(objects, flag) is None <==> forall|ino: u64| #[trigger]
            objects.contains_key(ino) ==> objects[ino].privilege_flags & flag == 0,
{
    lemma_numbers_in_order(objects.dom());
    let inos = numbers_in_order(objects.dom());
    lemma_encrypted(objects, inos, flag, 0);
    if encrypted(objects, flag) is None {
        assert forall|ino: u64| #[trigger] objects.contains_key(ino) implies
            objects[ino].privilege_flags & flag == 0 by {
            assert(inos.to_set().contains(ino));
            let i = choose|i: int| 0 <= i < inos.len() && inos[i] == ino;
            assert(objects[inos[i]].privilege_flags & flag == 0);
        }
    } else {
        let i = choose|i: int|
            0 <= i < inos.len() && objects[#[trigger] inos[i]].privilege_flags & flag != 0;
        assert(inos.to_set().contains(inos[i]));
        assert(objects.contains_key(inos[i]));
    }
}

proof fn lemma_omitted(objects: Map<u64, Object>, inos: Seq<u64>, at: int)
    requires
        0 <= at <= inos.len(),
    ensures
        omitted_from(objects, inos, at) is None <==> forall|i: int|
            at <= i < inos.len() ==> objects.contains_key(#[trigger] inos[i]),
    decreases inos.len() - at,
{
    if at < inos.len() {
        lemma_omitted(objects, inos, at + 1);
    }
}

/// Where the stream gave objects, all that are needed have to be among them, and just those
/// are used, as they were given; otherwise those that were looked up are. None of them may
/// have the flag.
pub proof fn law_resolved_objects(
    given: Option<Map<u64, Object>>,
    looked_up: Result<Map<u64, Object>, Seq<char>>,
    required: Set<u64>,
    flag: u64,
)
    requires
        required.finite(),
        given matches Some(objects) ==> objects.dom().finite(),
        looked_up matches Ok(objects) ==> objects.dom().finite(),
    ensures
        resolved(given, looked_up, required, flag) matches Ok(used) ==> {
            &&& forall|ino: u64| #[trigger]
                used.contains_key(ino) ==> used[ino].privilege_flags & flag == 0
            &&& given matches Some(objects) ==> forall|ino: u64| #[trigger]
                used.contains_key(ino) <==> required.contains(ino)
            &&& given matches Some(objects) ==> forall|ino: u64| #[trigger]
                used.contains_key(ino) ==> objects.contains_key(ino) && used[ino] == objects[ino]
            &&& given is None ==> looked_up == Ok::<Map<u64, Object>, Seq<char>>(used)
        },
        given matches Some(objects) ==> ((exists|ino: u64| #[trigger]
            required.contains(ino) && !objects.contains_key(ino)) ==> resolved(
            given,
            looked_up,
            required,
            flag,
        ) is Err),
        given is None && looked_up is Err ==> resolved(given, looked_up, required, flag) is Err,
{
    lemma_numbers_in_order(required);
    let inos = numbers_in_order(required);
    if let Some(objects) = given {
        lemma_omitted(objects, inos, 0);
        if omitted_from(objects, inos, 0) is None {
            assert forall|ino: u64| #[trigger] required.contains(ino) implies objects.contains_key(
                ino,
            ) by {
                assert(inos.to_set().contains(ino));
                let i = choose|i: int| 0 <= i < inos.len() && inos[i] == ino;
                assert(objects.contains_key(inos[i]));
            }
            assert(objects.restrict(required).dom() =~= required);
            law_encrypted_objects_are_refused(objects.restrict(required), flag);
        }
    } else if let Ok(objects) = looked_up {
        law_encrypted_objects_are_refused(objects, flag);
    }
}

} // verus!
