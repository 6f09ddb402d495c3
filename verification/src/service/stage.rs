//! What comes back from comparing snapshots: how it is spooled, known to be
//! complete, parsed and brought together with the objects it speaks of.

use crate::bytes::{
    get_le_u64, get_range, law_le_round_trip, le_bytes, le_u64, push_bytes, push_le_u64,
};
use crate::digest::{sha256, sha256_digest};
use crate::index::{Index, Object};
use crate::inodes::{numbers_in_order, sorted_keys, sorted_members};
use crate::manifest::{
    manifest_of, parse_changed_objects, ChangedObjectsManifest, ManifestView, ObjectChange,
    CHANGED_OBJECTS_V2_MAGIC, CHANGE_CREATED, CHANGE_INODE, CHANGE_XATTR,
};
use crate::manifest_v2::{
    parse_changed_objects_v2, stream_of, ChangedObjectsV2, StreamView, SubvolumeBoundary,
};
use crate::ordered::{in_order, keys_of, law_in_order, Key, Keyed};
use crate::service::config::ServiceError;
use crate::text::{
    append_numeral, decimal, ending_in_number, in_context, same_bytes, with_number,
};
use std::collections::{BTreeMap, BTreeSet};
use vstd::prelude::*;

verus! {

broadcast use vstd::std_specs::btree::group_btree_axioms;

/// `bsend-stage-v1`, padded with zeros.
pub const MANIFEST_STAGE_TRAILER_MAGIC: [u8; 16] = [
    98, 115, 101, 110, 100, 45, 115, 116, 97, 103, 101, 45, 118, 49, 0, 0,
];

pub const MANIFEST_STAGE_TRAILER_LEN: usize = 56;

/// The trailer behind a spooled manifest that is complete.
pub open spec fn trailer(manifest_len: u64, manifest_hash: Seq<u8>) -> Seq<u8> {
    MANIFEST_STAGE_TRAILER_MAGIC@ + le_bytes(manifest_len) + manifest_hash
}

/// The trailer that completes a spooled manifest, where the spool still ends
/// behind it.
pub fn write_manifest_stage_trailer(end: u64, manifest_len: u64, manifest_hash: &[u8; 32]) -> (
completion: Result<Vec<u8>, ServiceError>)
    ensures
        match completion {
            Ok(bytes) => end == manifest_len && bytes@ == trailer(manifest_len, manifest_hash@),
            Err(error) => end != manifest_len && error@
                == "manifest stage length changed before completion"@,
        },
{
    if end != manifest_len {
        return Err(ServiceError::new("manifest stage length changed before completion"));
    }
    let mut bytes: Vec<u8> = Vec::new();
    push_bytes(&mut bytes, &MANIFEST_STAGE_TRAILER_MAGIC);
    push_le_u64(&mut bytes, manifest_len);
    push_bytes(&mut bytes, manifest_hash);
    assert(bytes@ =~= trailer(manifest_len, manifest_hash@));
    Ok(bytes)
}

/// The manifest in a spooled file, where its trailer says that it is complete.
pub open spec fn staged(bytes: Seq<u8>) -> Option<Seq<u8>> {
    let split = bytes.len() - MANIFEST_STAGE_TRAILER_LEN;
    if split < 0 {
        None
    } else {
        let manifest = bytes.take(split);
        if bytes.subrange(split, split + 16) == MANIFEST_STAGE_TRAILER_MAGIC@ && le_u64(
            bytes,
            split + 16,
        ) == manifest.len() && sha256(manifest) == bytes.skip(split + 24) {
            Some(manifest)
        } else {
            None
        }
    }
}

/// The manifest in a spooled file, where its trailer says that it is complete.
pub fn staged_manifest(bytes: &[u8]) -> (manifest: Option<Vec<u8>>)
    ensures
        match manifest {
            Some(manifest) => staged(bytes@) == Some(manifest@),
            None => staged(bytes@) is None,
        },
{
    if bytes.len() < MANIFEST_STAGE_TRAILER_LEN {
        return None;
    }
    let split: usize = bytes.len() - MANIFEST_STAGE_TRAILER_LEN;
    let manifest = get_range(bytes, 0, split);
    assert(manifest@ =~= bytes@.take(split as int));
    let magic = get_range(bytes, split, split + 16);
    if !same_bytes(&magic, &MANIFEST_STAGE_TRAILER_MAGIC) {
        return None;
    }
    let declared: u64 = get_le_u64(bytes, split + 16);
    let expected = get_range(bytes, split + 24, bytes.len());
    assert(expected@ =~= bytes@.skip(split + 24));
    let digest: [u8; 32] = sha256_digest(&manifest);
    if declared == manifest.len() as u64 && same_bytes(&digest, &expected) {
        Some(manifest)
    } else {
        None
    }
}

/// A manifest and the trailer that completes it are known again as the
/// manifest.
pub proof fn law_stage_round_trip(manifest: Seq<u8>, hash: [u8; 32])
    requires
        manifest.len() <= u64::MAX,
        hash@ == sha256(manifest),
    ensures
        staged(manifest + trailer(manifest.len() as u64, hash@)) == Some(manifest),
{
    let length = manifest.len() as u64;
    let bytes = manifest + trailer(length, hash@);
    let split = bytes.len() - MANIFEST_STAGE_TRAILER_LEN;
    law_le_round_trip(length);
    assert(le_bytes(length).len() == 8);
    assert(split == manifest.len());
    assert(bytes.take(split) =~= manifest);
    assert(bytes.subrange(split, split + 16) =~= MANIFEST_STAGE_TRAILER_MAGIC@);
    assert(bytes.skip(split + 24) =~= hash@);
    assert(bytes.subrange(split + 16, split + 24) =~= le_bytes(length));
    assert forall|i: int| 0 <= i < 8 implies bytes[split + 16 + i] == #[trigger] le_bytes(
        length,
    )[i] by {
        assert(bytes.subrange(split + 16, split + 24)[i] == bytes[split + 16 + i]);
    }
    assert(le_u64(bytes, split + 16) == le_u64(le_bytes(length), 0));
}

/// What was found out of a spool file.
#[derive(Clone, Copy, Debug, Eq, PartialEq)]
pub struct SpoolReport {
    pub is_file: bool,
    pub uid: u32,
    pub mode: u32,
    pub links: u64,
    pub length: u64,
}

/// Whether a spool file is a regular file that only the user can reach.
pub open spec fn private_file(report: SpoolReport, uid: u32) -> bool {
    report.is_file && report.uid == uid && report.mode & 0o777 == 0o600 && report.links == 1
}

fn is_private_file(report: &SpoolReport, uid: u32) -> (private: bool)
    ensures
        private == private_file(*report, uid),
{
    report.is_file && report.uid == uid && report.mode & 0o777 == 0o600 && report.links == 1
}

/// Whether there is a spool file to remove, or why it cannot be.
pub open spec fn discard_spool(report: Result<Option<SpoolReport>, String>, uid: u32) -> Result<
    bool,
    Seq<char>,
> {
    match report {
        Err(cause) => Err(in_context("inspect stale manifest spool"@, cause@)),
        Ok(None) => Ok(false),
        Ok(Some(report)) => if private_file(report, uid) {
            Ok(true)
        } else {
            Err("stale manifest spool is not a private manager-owned regular file"@)
        },
    }
}

/// Whether there is a spool file to remove. A file that others can reach is
/// left alone.
pub fn discard_private_spool(report: &Result<Option<SpoolReport>, String>, uid: u32) -> (remove:
    Result<bool, ServiceError>)
    ensures
        match remove {
            Ok(remove) => discard_spool(*report, uid) == Ok::<bool, Seq<char>>(remove),
            Err(error) => discard_spool(*report, uid) == Err::<bool, Seq<char>>(error@),
        },
{
    match report {
        Err(cause) => Err(ServiceError::context("inspect stale manifest spool", cause.as_str())),
        Ok(None) => Ok(false),
        Ok(Some(report)) => if is_private_file(report, uid) {
            Ok(true)
        } else {
            Err(
                ServiceError::new(
                    "stale manifest spool is not a private manager-owned regular file",
                ),
            )
        },
    }
}

/// How many bytes of a spooled manifest to read at most, or why it cannot be
/// used. There is nothing to read where there is no file.
pub open spec fn stage_limit(
    report: Result<Option<SpoolReport>, String>,
    uid: u32,
    max_manifest_bytes: u64,
) -> Result<Option<u64>, Seq<char>> {
    match report {
        Err(cause) => Err(in_context("inspect manifest stage"@, cause@)),
        Ok(None) => Ok(None),
        Ok(Some(report)) => if !private_file(report, uid) {
            Err("manifest stage is not a private manager-owned regular file"@)
        } else if max_manifest_bytes + MANIFEST_STAGE_TRAILER_LEN > u64::MAX {
            Err("manifest stage limit overflow"@)
        } else if report.length > max_manifest_bytes + MANIFEST_STAGE_TRAILER_LEN {
            Err("manifest stage exceeds its configured limit"@)
        } else if report.length > usize::MAX {
            Err("manifest stage length exceeds memory limits"@)
        } else {
            Ok(Some((max_manifest_bytes + MANIFEST_STAGE_TRAILER_LEN) as u64))
        },
    }
}

/// How many bytes of a spooled manifest to read at most.
pub fn check_manifest_stage(
    report: &Result<Option<SpoolReport>, String>,
    uid: u32,
    max_manifest_bytes: u64,
) -> (limit: Result<Option<u64>, ServiceError>)
    ensures
        match limit {
            Ok(limit) => stage_limit(*report, uid, max_manifest_bytes) == Ok::<
                Option<u64>,
                Seq<char>,
            >(limit),
            Err(error) => stage_limit(*report, uid, max_manifest_bytes) == Err::<
                Option<u64>,
                Seq<char>,
            >(error@),
        },
{
    match report {
        Err(cause) => Err(ServiceError::context("inspect manifest stage", cause.as_str())),
        Ok(None) => Ok(None),
        Ok(Some(report)) => {
            if !is_private_file(report, uid) {
                return Err(
                    ServiceError::new("manifest stage is not a private manager-owned regular file"),
                );
            }
            match max_manifest_bytes.checked_add(MANIFEST_STAGE_TRAILER_LEN as u64) {
                None => Err(ServiceError::new("manifest stage limit overflow")),
                Some(maximum) => if report.length > maximum {
                    Err(ServiceError::new("manifest stage exceeds its configured limit"))
                } else if report.length > usize::MAX as u64 {
                    Err(ServiceError::new("manifest stage length exceeds memory limits"))
                } else {
                    Ok(Some(maximum))
                },
            }
        },
    }
}

/// Whether the bytes are as many and have the digest that was promised.
pub open spec fn kept_promise(bytes: Seq<u8>, declared: u64, hash: [u8; 32]) -> bool {
    bytes.len() == declared && sha256(bytes) == hash@
}

/// Checks that the bytes are as many and have the digest that was promised.
/// `refusal` is what is said where they do not.
pub fn check_broker_output(bytes: &[u8], declared: u64, hash: &[u8; 32], refusal: &str) -> (checked:
    Result<(), ServiceError>)
    ensures
        match checked {
            Ok(_) => kept_promise(bytes@, declared, *hash),
            Err(error) => !kept_promise(bytes@, declared, *hash) && error@ == refusal@,
        },
{
    let digest: [u8; 32] = sha256_digest(bytes);
    if bytes.len() as u64 == declared && same_bytes(&digest, hash) {
        Ok(())
    } else {
        Err(ServiceError::new(refusal))
    }
}

/// The bytes from the `from`-th on, with a comma and a space before each but
/// the first.
pub open spec fn listed_from(bytes: Seq<u8>, from: int) -> Seq<char>
    decreases bytes.len() - from,
{
    if from < 0 || from >= bytes.len() {
        Seq::empty()
    } else {
        let here = decimal(bytes[from] as nat);
        let rest = listed_from(bytes, from + 1);
        if from == 0 {
            here + rest
        } else {
            ", "@ + here + rest
        }
    }
}

/// The bytes as a list of numbers.
pub open spec fn listed(bytes: Seq<u8>) -> Seq<char> {
    "["@ + listed_from(bytes, 0) + "]"@
}

fn append_listed(text: &mut String, bytes: &[u8])
    ensures
        final(text)@ == old(text)@ + listed(bytes@),
{
    let ghost before = text@;
    text.append("[");
    let mut at: usize = 0;
    assert(text@ + listed_from(bytes@, 0) =~= before + "["@ + listed_from(bytes@, 0));
    while at < bytes.len()
        invariant
            at <= bytes@.len(),
            text@ + listed_from(bytes@, at as int) == before + "["@ + listed_from(bytes@, 0),
        decreases bytes.len() - at,
    {
        let ghost here = text@;
        if at > 0 {
            text.append(", ");
        }
        append_numeral(text, bytes[at] as u64, 10);
        assert(text@ + listed_from(bytes@, at + 1) =~= here + listed_from(bytes@, at as int));
        at += 1;
    }
    assert(text@ =~= before + "["@ + listed_from(bytes@, 0));
    text.append("]");
    assert(text@ =~= before + listed(bytes@));
}

/// What is said of a nested subvolume.
pub open spec fn nested_text(boundary: Key) -> Seq<char> {
    "immutable snapshot contains nested subvolume boundary parent="@ + decimal(
        boundary.first as nat,
    ) + " child_root="@ + decimal(boundary.second as nat) + " name="@ + listed(boundary.name)
}

fn nested_error(boundary: &SubvolumeBoundary) -> (error: ServiceError)
    ensures
        error@ == nested_text(boundary.key()),
{
    let mut text = with_number(
        "immutable snapshot contains nested subvolume boundary parent=",
        boundary.parent_ino,
        " child_root=",
    );
    append_numeral(&mut text, boundary.child_root_id, 10);
    text.append(" name=");
    append_listed(&mut text, &boundary.name);
    assert(text@ =~= nested_text(boundary.key()));
    ServiceError::of(text)
}

/// A parsed stream of either format.
#[derive(Debug)]
pub enum KernelStream {
    V2(ChangedObjectsV2),
    Legacy(ChangedObjectsManifest),
}

/// What a parsed stream of either format holds.
pub enum KernelView {
    V2(StreamView),
    Legacy(ManifestView),
}

impl View for KernelStream {
    type V = KernelView;

    open spec fn view(&self) -> KernelView {
        match self {
            KernelStream::V2(stream) => KernelView::V2(stream@),
            KernelStream::Legacy(manifest) => KernelView::Legacy(manifest@),
        }
    }
}

impl KernelStream {
    /// Every vector that stands for a set is strictly ascending.
    pub open spec fn well_formed(&self) -> bool {
        match self {
            KernelStream::V2(stream) => stream.well_formed(),
            KernelStream::Legacy(manifest) => manifest.well_formed(),
        }
    }
}

/// Whether the bytes begin as a stream of the second format.
pub open spec fn begins_v2(bytes: Seq<u8>) -> bool {
    bytes.len() >= 16 && bytes.take(16) == CHANGED_OBJECTS_V2_MAGIC@
}

/// What a stream of either format holds, or why it cannot be used. One of the
/// second format must certify that there is no nested subvolume.
pub open spec fn kernel_stream(bytes: Seq<u8>) -> Result<KernelView, Seq<char>> {
    if begins_v2(bytes) {
        match stream_of(bytes) {
            Err(fault) => Err(in_context("parse changed-objects v2 stream"@, fault)),
            Ok(stream) => if !stream.header.boundary_records {
                Err("changed-objects v2 stream does not certify subvolume boundaries"@)
            } else if in_order(stream.boundary_adds).len() > 0 {
                Err(nested_text(in_order(stream.boundary_adds)[0]))
            } else {
                Ok(KernelView::V2(stream))
            },
        }
    } else {
        match manifest_of(bytes) {
            Err(fault) => Err(in_context("parse legacy changed-object stream"@, fault)),
            Ok(manifest) => Ok(KernelView::Legacy(manifest)),
        }
    }
}

/// Parses a stream of either format.
pub fn parse_kernel_changed_objects(bytes: &[u8]) -> (parsed: Result<KernelStream, ServiceError>)
    ensures
        match parsed {
            Ok(stream) => stream.well_formed() && kernel_stream(bytes@) == Ok::<
                KernelView,
                Seq<char>,
            >(stream@),
            Err(error) => kernel_stream(bytes@) == Err::<KernelView, Seq<char>>(error@),
        },
{
    let mut second: bool = false;
    if bytes.len() >= 16 {
        let magic = get_range(bytes, 0, 16);
        assert(magic@ =~= bytes@.take(16));
        second = same_bytes(&magic, &CHANGED_OBJECTS_V2_MAGIC);
    }
    if second {
        match parse_changed_objects_v2(bytes) {
            Err(error) => Err(
                ServiceError::context("parse changed-objects v2 stream", error.message()),
            ),
            Ok(stream) => {
                if !stream.header.boundary_records {
                    return Err(
                        ServiceError::new(
                            "changed-objects v2 stream does not certify subvolume boundaries",
                        ),
                    );
                }
                proof {
                    law_in_order(keys_of(stream.boundary_adds@));
                }
                if stream.boundary_adds.len() > 0 {
                    assert(in_order(stream@.boundary_adds)[0] == stream.boundary_adds@[0].key());
                    return Err(nested_error(&stream.boundary_adds[0]));
                }
                Ok(KernelStream::V2(stream))
            },
        }
    } else {
        match parse_changed_objects(bytes) {
            Err(error) => Err(
                ServiceError::context("parse legacy changed-object stream", error.message()),
            ),
            Ok(manifest) => Ok(KernelStream::Legacy(manifest)),
        }
    }
}

/// The parsed comparison, with the objects of the target that the stream gave.
/// A stream of the first format gives none.
#[derive(Debug)]
pub struct ParsedKernelChangedObjects {
    pub manifest: ChangedObjectsManifest,
    pub target_objects: Option<BTreeMap<u64, Object>>,
    pub dirty_witness_contract: bool,
}

/// An object of the target as it came out of the stream's records, or why they
/// do not make one.
pub type Materialized = Result<Object, String>;

/// What reading a manifest gives that was promised with a length and a digest.
pub open spec fn reads_manifest(
    bytes: Seq<u8>,
    declared: u64,
    hash: [u8; 32],
    refusal: Seq<char>,
    step: Seq<char>,
    parsed: Result<KernelStream, ServiceError>,
) -> bool {
    if !kept_promise(bytes, declared, hash) {
        &&& parsed matches Err(error)
        &&& error@ == refusal
    } else {
        match (kernel_stream(bytes), parsed) {
            (Ok(view), Ok(stream)) => stream.well_formed() && stream@ == view,
            (Err(fault), Err(error)) => error@ == in_context(step, fault),
            _ => false,
        }
    }
}

/// Reads a manifest that was promised with a length and a digest. `refusal` is
/// what is said where the promise was not kept, and `step` where it cannot be
/// parsed.
pub fn read_manifest(bytes: &[u8], declared: u64, hash: &[u8; 32], refusal: &str, step: &str) -> (
parsed: Result<KernelStream, ServiceError>)
    ensures
        reads_manifest(bytes@, declared, *hash, refusal@, step@, parsed),
{
    match check_broker_output(bytes, declared, hash, refusal) {
        Ok(_) => {},
        Err(error) => {
            return Err(error);
        },
    }
    match parse_kernel_changed_objects(bytes) {
        Ok(stream) => Ok(stream),
        Err(error) => Err(ServiceError::context(step, error.message())),
    }
}

/// What is wrong with an object of the target.
pub open spec fn target_fault(
    stream: StreamView,
    materialized: Map<u64, Materialized>,
    ino: u64,
) -> Option<Seq<char>> {
    if !stream.target_security_xattrs.contains_key(ino) {
        Some(
            "changed-objects v2 target inode "@ + decimal(ino as nat)
                + " lacks an exact xattr reset"@,
        )
    } else {
        match materialized[ino] {
            Err(cause) => Some(in_context("materialize v2 target object"@, cause@)),
            Ok(_) => None,
        }
    }
}

/// What is wrong with the first faulty object of the target from the `at`-th
/// on.
pub open spec fn targets_fault_from(
    stream: StreamView,
    materialized: Map<u64, Materialized>,
    inos: Seq<u64>,
    at: int,
) -> Option<Seq<char>>
    decreases inos.len() - at,
{
    if at < 0 || at >= inos.len() {
        None
    } else if target_fault(stream, materialized, inos[at]) is Some {
        target_fault(stream, materialized, inos[at])
    } else {
        targets_fault_from(stream, materialized, inos, at + 1)
    }
}

/// What is wrong with the objects of the target.
pub open spec fn targets_fault(stream: StreamView, materialized: Map<u64, Materialized>) -> Option<
    Seq<char>,
> {
    targets_fault_from(
        stream,
        materialized,
        numbers_in_order(stream.target_objects.dom()),
        0,
    )
}

/// The objects that were made.
pub open spec fn made(materialized: Map<u64, Materialized>, inos: Set<u64>) -> Map<u64, Object> {
    Map::new(|ino: u64| inos.contains(ino), |ino: u64| materialized[ino]->Ok_0)
}

/// Brings a parsed stream together with the objects that its records make.
pub fn settle_kernel_objects(
    stream: KernelStream,
    materialized: &BTreeMap<u64, Materialized>,
) -> (parsed: Result<ParsedKernelChangedObjects, ServiceError>)
    requires
        stream.well_formed(),
        stream@ matches KernelView::V2(view) ==> view.target_objects.dom().subset_of(
            materialized@.dom(),
        ),
    ensures
        match stream@ {
            KernelView::Legacy(manifest) => {
                &&& parsed matches Ok(parsed)
                &&& parsed.manifest.well_formed()
                &&& parsed.manifest@ == manifest
                &&& parsed.target_objects is None
                &&& !parsed.dirty_witness_contract
            },
            KernelView::V2(view) => match targets_fault(view, materialized@) {
                Some(fault) => {
                    &&& parsed matches Err(error)
                    &&& error@ == fault
                },
                None => {
                    &&& parsed matches Ok(parsed)
                    &&& parsed.manifest.well_formed()
                    &&& parsed.manifest@ == view.manifest
                    &&& parsed.target_objects matches Some(objects)
                    &&& objects@ == made(materialized@, view.target_objects.dom())
                    &&& parsed.dirty_witness_contract == view.header.dirty_witness
                },
            },
        },
{
    match stream {
        KernelStream::Legacy(manifest) => Ok(
            ParsedKernelChangedObjects {
                manifest,
                target_objects: None,
                dirty_witness_contract: false,
            },
        ),
        KernelStream::V2(parsed) => {
            let ghost view = parsed@;
            let inos = sorted_keys(&parsed.target_objects);
            let mut objects: BTreeMap<u64, Object> = BTreeMap::new();
            let mut at: usize = 0;
            while at < inos.len()
                invariant
                    at <= inos@.len(),
                    stream@ == KernelView::V2(view),
                    parsed@ == view,
                    inos@ == numbers_in_order(view.target_objects.dom()),
                    inos@.to_set() == view.target_objects.dom(),
                    view.target_objects.dom().subset_of(materialized@.dom()),
                    targets_fault(view, materialized@) == targets_fault_from(
                        view,
                        materialized@,
                        inos@,
                        at as int,
                    ),
                    objects@ == made(materialized@, inos@.take(at as int).to_set()),
                decreases inos.len() - at,
            {
                let ino: u64 = inos[at];
                proof {
                    assert(inos@.to_set().contains(ino));
                    assert(materialized@.contains_key(ino));
                    assert(view.target_security_xattrs.contains_key(ino)
                        == parsed.target_security_xattrs@.contains_key(ino));
                }
                if !parsed.target_security_xattrs.contains_key(&ino) {
                    return Err(
                        ServiceError::of(
                            with_number(
                                "changed-objects v2 target inode ",
                                ino,
                                " lacks an exact xattr reset",
                            ),
                        ),
                    );
                }
                match materialized.get(&ino) {
                    Some(Ok(object)) => {
                        objects.insert(ino, *object);
                    },
                    Some(Err(cause)) => {
                        return Err(
                            ServiceError::context("materialize v2 target object", cause.as_str()),
                        );
                    },
                    None => {
                        assert(false);
                    },
                }
                proof {
                    let front = inos@.take(at as int);
                    let next = inos@.take(at + 1);
                    assert(next =~= front.push(ino));
                    front.lemma_push_to_set_commute(ino);
                    assert(objects@ =~= made(materialized@, next.to_set()));
                }
                at += 1;
            }
            assert(inos@.take(at as int) =~= inos@);
            Ok(
                ParsedKernelChangedObjects {
                    manifest: parsed.manifest,
                    target_objects: Some(objects),
                    dirty_witness_contract: parsed.header.dirty_witness,
                },
            )
        },
    }
}

/// Whether the target's object is needed to apply the change.
pub open spec fn needs_target(change: ObjectChange) -> bool {
    !change.deleted() && change.change_mask & (CHANGE_CREATED | CHANGE_INODE | CHANGE_XATTR) != 0
}

/// The objects of the target that are needed to apply a manifest.
pub open spec fn needed_targets(objects: Map<u64, ObjectChange>) -> Set<u64> {
    Set::new(
        |ino: u64|
            exists|key: u64| #[trigger]
                objects.contains_key(key) && needs_target(objects[key]) && objects[key].ino == ino,
    )
}

/// The objects of the target that are needed to apply a manifest.
pub fn required_targets(manifest: &ChangedObjectsManifest) -> (required: BTreeSet<u64>)
    ensures
        required@ == needed_targets(manifest@.objects),
{
    let inos = sorted_keys(&manifest.objects);
    let ghost objects = manifest@.objects;
    let mut required: BTreeSet<u64> = BTreeSet::new();
    let mut at: usize = 0;
    while at < inos.len()
        invariant
            at <= inos@.len(),
            objects == manifest.objects@,
            inos@.to_set() == objects.dom(),
            forall|ino: u64| #[trigger]
                required@.contains(ino) <==> exists|i: int|
                    0 <= i < at && needs_target(objects[#[trigger] inos@[i]])
                        && objects[inos@[i]].ino == ino,
        decreases inos.len() - at,
    {
        let key: u64 = inos[at];
        assert(inos@.to_set().contains(key));
        match manifest.objects.get(&key) {
            Some(change) => {
                if !change.is_deleted() && change.change_mask & (CHANGE_CREATED | CHANGE_INODE
                    | CHANGE_XATTR) != 0 {
                    let ghost before = required@;
                    required.insert(change.ino);
                    assert forall|ino: u64| #[trigger] required@.contains(ino) <==> exists|i: int|
                        0 <= i < at + 1 && needs_target(objects[#[trigger] inos@[i]])
                            && objects[inos@[i]].ino == ino by {
                        if ino == change.ino {
                            assert(needs_target(objects[inos@[at as int]]));
                        } else if required@.contains(ino) {
                            assert(before.contains(ino));
                            let i = choose|i: int|
                                0 <= i < at && needs_target(objects[#[trigger] inos@[i]])
                                    && objects[inos@[i]].ino == ino;
                            assert(needs_target(objects[inos@[i]]));
                        } else {
                            assert(!before.contains(ino));
                        }
                    }
                } else {
                    assert(!needs_target(objects[inos@[at as int]]));
                    assert forall|ino: u64| #[trigger] required@.contains(ino) <==> exists|i: int|
                        0 <= i < at + 1 && needs_target(objects[#[trigger] inos@[i]])
                            && objects[inos@[i]].ino == ino by {
                        if required@.contains(ino) {
                            let i = choose|i: int|
                                0 <= i < at && needs_target(objects[#[trigger] inos@[i]])
                                    && objects[inos@[i]].ino == ino;
                            assert(needs_target(objects[inos@[i]]));
                        }
                    }
                }
            },
            None => {
                assert(false);
            },
        }
        at += 1;
    }
    assert forall|ino: u64| required@.contains(ino) == needed_targets(objects).contains(ino) by {
        if required@.contains(ino) {
            let i = choose|i: int|
                0 <= i < at && needs_target(objects[#[trigger] inos@[i]]) && objects[inos@[i]].ino
                    == ino;
            assert(inos@.to_set().contains(inos@[i]));
            assert(objects.contains_key(inos@[i]));
        }
        if needed_targets(objects).contains(ino) {
            let key = choose|key: u64| #[trigger]
                objects.contains_key(key) && needs_target(objects[key]) && objects[key].ino == ino;
            assert(inos@.to_set().contains(key));
            let i = choose|i: int| 0 <= i < inos@.len() && inos@[i] == key;
            assert(needs_target(objects[inos@[i]]));
        }
    }
    assert(required@ =~= needed_targets(objects));
    required
}

/// What is said of an encrypted object.
pub open spec fn encrypted_text(object: Object) -> Seq<char> {
    "immutable snapshot contains fscrypt inode "@ + decimal(object.ino as nat)
}

/// What is said of the first encrypted object from the `at`-th on. `flag` is
/// the bit of the privilege flags that marks one.
pub open spec fn encrypted_from(objects: Map<u64, Object>, inos: Seq<u64>, flag: u64, at: int) -> Option<
    Seq<char>,
>
    decreases inos.len() - at,
{
    if at < 0 || at >= inos.len() {
        None
    } else if objects[inos[at]].privilege_flags & flag != 0 {
        Some(encrypted_text(objects[inos[at]]))
    } else {
        encrypted_from(objects, inos, flag, at + 1)
    }
}

/// What is said of the encrypted objects.
pub open spec fn encrypted(objects: Map<u64, Object>, flag: u64) -> Option<Seq<char>> {
    encrypted_from(objects, numbers_in_order(objects.dom()), flag, 0)
}

fn reject_encrypted(objects: &BTreeMap<u64, Object>, flag: u64) -> (checked: Result<
    (),
    ServiceError,
>)
    ensures
        match checked {
            Ok(_) => encrypted(objects@, flag) is None,
            Err(error) => encrypted(objects@, flag) == Some(error@),
        },
{
    let inos = sorted_keys(objects);
    let mut at: usize = 0;
    while at < inos.len()
        invariant
            at <= inos@.len(),
            inos@.to_set() == objects@.dom(),
            encrypted(objects@, flag) == encrypted_from(objects@, inos@, flag, at as int),
        decreases inos.len() - at,
    {
        assert(inos@.to_set().contains(inos@[at as int]));
        match objects.get(&inos[at]) {
            Some(object) => {
                if object.privilege_flags & flag != 0 {
                    return Err(
                        ServiceError::of(
                            ending_in_number(
                                "immutable snapshot contains fscrypt inode ",
                                object.ino,
                            ),
                        ),
                    );
                }
            },
            None => {
                assert(false);
            },
        }
        at += 1;
    }
    Ok(())
}

/// Refuses an index with an encrypted object. `flag` is the bit of the
/// privilege flags that marks one.
pub fn reject_fscrypt_index(index: &Index, flag: u64) -> (checked: Result<(), ServiceError>)
    ensures
        match checked {
            Ok(_) => encrypted(index@.objects, flag) is None,
            Err(error) => encrypted(index@.objects, flag) == Some(error@),
        },
{
    reject_encrypted(&index.objects, flag)
}

/// The first required object from the `at`-th on that the stream left out.
pub open spec fn omitted_from(objects: Map<u64, Object>, inos: Seq<u64>, at: int) -> Option<
    Seq<char>,
>
    decreases inos.len() - at,
{
    if at < 0 || at >= inos.len() {
        None
    } else if !objects.contains_key(inos[at]) {
        Some("changed-objects v2 omitted required target inode "@ + decimal(inos[at] as nat))
    } else {
        omitted_from(objects, inos, at + 1)
    }
}

/// The objects of the target, or why they cannot be used: the stream's, where
/// it gave them, and else those that were looked up.
pub open spec fn resolved(
    given: Option<Map<u64, Object>>,
    looked_up: Result<Map<u64, Object>, Seq<char>>,
    required: Set<u64>,
    flag: u64,
) -> Result<Map<u64, Object>, Seq<char>> {
    let found: Result<Map<u64, Object>, Seq<char>> = match given {
        Some(objects) => match omitted_from(objects, numbers_in_order(required), 0) {
            Some(fault) => Err(fault),
            None => Ok(objects.restrict(required)),
        },
        None => looked_up,
    };
    match found {
        Err(fault) => Err(fault),
        Ok(objects) => match encrypted(objects, flag) {
            Some(fault) => Err(fault),
            None => Ok(objects),
        },
    }
}

/// What was looked up.
pub open spec fn lookup_view(looked_up: Result<BTreeMap<u64, Object>, ServiceError>) -> Result<
    Map<u64, Object>,
    Seq<char>,
> {
    match looked_up {
        Ok(objects) => Ok(objects@),
        Err(error) => Err(error@),
    }
}

fn pick_given(given: &BTreeMap<u64, Object>, required: &BTreeSet<u64>) -> (picked: Result<
    BTreeMap<u64, Object>,
    ServiceError,
>)
    ensures
        match picked {
            Ok(picked) => omitted_from(given@, numbers_in_order(required@), 0) is None && picked@
                == given@.restrict(required@),
            Err(error) => omitted_from(given@, numbers_in_order(required@), 0) == Some(error@),
        },
{
    let inos = sorted_members(required);
    let mut picked: BTreeMap<u64, Object> = BTreeMap::new();
    let mut at: usize = 0;
    while at < inos.len()
        invariant
            at <= inos@.len(),
            inos@ == numbers_in_order(required@),
            inos@.to_set() == required@,
            omitted_from(given@, inos@, 0) == omitted_from(given@, inos@, at as int),
            forall|i: int| 0 <= i < at ==> given@.contains_key(#[trigger] inos@[i]),
            picked@ == given@.restrict(inos@.take(at as int).to_set()),
        decreases inos.len() - at,
    {
        let ino: u64 = inos[at];
        match given.get(&ino) {
            Some(object) => {
                picked.insert(ino, *object);
            },
            None => {
                return Err(
                    ServiceError::of(
                        ending_in_number("changed-objects v2 omitted required target inode ", ino),
                    ),
                );
            },
        }
        proof {
            let front = inos@.take(at as int);
            let next = inos@.take(at + 1);
            assert(next =~= front.push(ino));
            front.lemma_push_to_set_commute(ino);
            assert(picked@ =~= given@.restrict(next.to_set()));
        }
        at += 1;
    }
    assert(inos@.take(at as int) =~= inos@);
    Ok(picked)
}

/// The objects of the target that a comparison needs. `looked_up` is what a
/// search of the target gave, for a stream that gives no objects; `flag` is
/// the bit of the privilege flags that marks an encrypted object.
pub fn resolve_target_objects(
    parsed: &ParsedKernelChangedObjects,
    looked_up: Result<BTreeMap<u64, Object>, ServiceError>,
    required: &BTreeSet<u64>,
    flag: u64,
) -> (objects: Result<BTreeMap<u64, Object>, ServiceError>)
    ensures
        ({
            let given = match parsed.target_objects {
                Some(objects) => Some(objects@),
                None => None,
            };
            let expected = resolved(given, lookup_view(looked_up), required@, flag);
            match objects {
                Ok(objects) => expected == Ok::<Map<u64, Object>, Seq<char>>(objects@),
                Err(error) => expected == Err::<Map<u64, Object>, Seq<char>>(error@),
            }
        }),
{
    let found: Result<BTreeMap<u64, Object>, ServiceError> = match &parsed.target_objects {
        Some(given) => pick_given(given, required),
        None => looked_up,
    };
    match found {
        Err(error) => Err(error),
        Ok(objects) => match reject_encrypted(&objects, flag) {
            Err(error) => Err(error),
            Ok(_) => Ok(objects),
        },
    }
}

} // verus!
