//! What changed between two retained snapshots, replayed or compared anew.

use crate::manager::delta::AppliedDelta;
use crate::manager::history::{claims_comparison, publishes_comparison, replays};
use crate::manager::rows::{no_rows, Store};
use crate::manager::types::{
    HistoricalChanges, HistoricalComparisonAdmission, HistoricalComparisonClaim,
    HistoricalComparisonRequest, ManagerError,
};
use crate::manifest::{ChangedObjectsManifest, ManifestView};
use crate::names::{historical_name, historical_spool_name};
use crate::paths::{join, joined};
use crate::service::checks::ExpectedSubvolume;
use crate::service::config::{expiry_of, lease_expiry, ServiceError};
use crate::service::flow::{carries, carry, path_of, Service};
use crate::text::{in_context, same_array};
use std::collections::BTreeMap;
use vstd::prelude::*;

verus! {

/// A request for what changed between two snapshots of a watch.
#[derive(Clone, Copy, Debug, Eq, PartialEq)]
pub struct HistoricalOptions {
    pub watch_id: [u8; 16],
    pub authorization_id: [u8; 16],
    pub requester_uid: u32,
    pub from_snapshot_uuid: [u8; 16],
    pub to_snapshot_uuid: [u8; 16],
    pub now_ns: i64,
}

/// Two snapshots that are to be compared.
#[derive(Clone, Debug, Eq, PartialEq)]
pub struct HistoricalWork {
    pub claim: HistoricalComparisonClaim,
    pub source_path: Vec<u8>,
    pub target_path: Vec<u8>,
    /// Where the manifest is to be spooled.
    pub spool_path: Vec<u8>,
}

/// How a request for what changed goes on.
#[derive(Clone, Debug, Eq, PartialEq)]
pub enum HistoricalStep {
    Known(HistoricalChanges),
    Compare(HistoricalWork),
}

/// The claim that is asked for under the options.
pub open spec fn claim_request(service: Service, options: HistoricalOptions, expires_ns: i64) ->
    HistoricalComparisonRequest {
    HistoricalComparisonRequest {
        watch_id: options.watch_id,
        authorization_id: options.authorization_id,
        requester_uid: options.requester_uid,
        from_snapshot_uuid: options.from_snapshot_uuid,
        to_snapshot_uuid: options.to_snapshot_uuid,
        lease_owner: service.lease_owner,
        now_ns: options.now_ns,
        lease_expires_ns: expires_ns,
    }
}

/// How a claimed comparison goes on.
pub open spec fn works_on(
    service: Service,
    store: Store,
    claim: HistoricalComparisonClaim,
    step: Result<HistoricalStep, ServiceError>,
) -> bool {
    match (path_of(store, claim.from_snapshot_id), path_of(store, claim.to_snapshot_id)) {
        (Some(source), Some(target)) => {
            &&& step matches Ok(HistoricalStep::Compare(work))
            &&& work.claim == claim
            &&& work.source_path@ == source
            &&& work.target_path@ == target
            &&& work.spool_path@ == joined(
                service.config.spool_directory@,
                historical_name(claim.comparison_id as int, claim.lease_fence as int),
            )
        },
        _ => {
            &&& step matches Err(error)
            &&& error@ == in_context("load snapshot path"@, no_rows())
        },
    }
}

/// How a request for what changed goes on whose answer is incomplete. A
/// refused claim leaves that answer, which is safe.
pub open spec fn claims(
    before: Service,
    after: Store,
    request: HistoricalComparisonRequest,
    replayed: HistoricalChanges,
    step: Result<HistoricalStep, ServiceError>,
) -> bool {
    exists|admitted: Result<HistoricalComparisonAdmission, ManagerError>| #[trigger]
        claims_comparison(before.store, after, request, admitted) && match admitted {
            Err(_) => step == Ok::<HistoricalStep, ServiceError>(HistoricalStep::Known(replayed)),
            Ok(HistoricalComparisonAdmission::Ready(changes)) => step == Ok::<
                HistoricalStep,
                ServiceError,
            >(HistoricalStep::Known(changes)),
            Ok(HistoricalComparisonAdmission::Claimed(claim)) => works_on(
                before,
                after,
                claim,
                step,
            ),
        }
}

/// What asking for what changed does.
pub open spec fn begins_historical(
    before: Service,
    after: Service,
    options: HistoricalOptions,
    step: Result<HistoricalStep, ServiceError>,
) -> bool {
    &&& after == (Service { store: after.store, ..before })
    &&& exists|replayed: Result<HistoricalChanges, ManagerError>| #[trigger]
        replays(
            before.store,
            options.watch_id,
            options.authorization_id,
            options.requester_uid,
            options.from_snapshot_uuid,
            options.to_snapshot_uuid,
            replayed,
        ) && match replayed {
            Err(fault) => {
                &&& after == before
                &&& step matches Err(error)
                &&& error@ == in_context("replay retained history"@, fault@)
            },
            Ok(replayed) => if !replayed.fresh_instance {
                after == before && step == Ok::<HistoricalStep, ServiceError>(
                    HistoricalStep::Known(replayed),
                )
            } else {
                match expiry_of(options.now_ns, before.config.lease_ns) {
                    Err(fault) => {
                        &&& after == before
                        &&& step matches Err(error)
                        &&& error@ == fault
                    },
                    Ok(expires_ns) => claims(
                        before,
                        after.store,
                        claim_request(before, options, expires_ns),
                        replayed,
                        step,
                    ),
                }
            },
        }
}

/// Why two snapshots are not the claimed ones.
pub open spec fn historical_fault(
    claim: HistoricalComparisonClaim,
    source: Result<ExpectedSubvolume, String>,
    target: Result<ExpectedSubvolume, String>,
) -> Option<Seq<char>> {
    match (source, target) {
        (Err(cause), _) => Some(in_context("open historical source"@, cause@)),
        (_, Err(cause)) => Some(in_context("open historical target"@, cause@)),
        (Ok(source), Ok(target)) => if source.subvolume_uuid != claim.from_snapshot_uuid
            || target.subvolume_uuid != claim.to_snapshot_uuid || source.filesystem_uuid
            != target.filesystem_uuid {
            Some("historical comparison endpoints changed after admission"@)
        } else {
            None
        },
    }
}

/// Checks that two snapshots are the claimed ones, as they look now.
pub fn check_historical_endpoints(
    claim: &HistoricalComparisonClaim,
    source: &Result<ExpectedSubvolume, String>,
    target: &Result<ExpectedSubvolume, String>,
) -> (checked: Result<(), ServiceError>)
    ensures
        match checked {
            Ok(_) => historical_fault(*claim, *source, *target) is None,
            Err(error) => historical_fault(*claim, *source, *target) == Some(error@),
        },
{
    match (source, target) {
        (Err(cause), _) => Err(ServiceError::context("open historical source", cause.as_str())),
        (_, Err(cause)) => Err(ServiceError::context("open historical target", cause.as_str())),
        (Ok(source), Ok(target)) => if !same_array(
            &source.subvolume_uuid,
            &claim.from_snapshot_uuid,
        ) || !same_array(&target.subvolume_uuid, &claim.to_snapshot_uuid) || !same_array(
            &source.filesystem_uuid,
            &target.filesystem_uuid,
        ) {
            Err(ServiceError::new("historical comparison endpoints changed after admission"))
        } else {
            Ok(())
        },
    }
}

/// What publishing what changed does.
pub open spec fn publishes_historical(
    before: Store,
    after: Store,
    claim: HistoricalComparisonClaim,
    manifest: ManifestView,
    applied: AppliedDelta,
    invalid: Map<i64, String>,
    now_ns: i64,
    published: Result<HistoricalChanges, ServiceError>,
) -> bool {
    exists|inner: Result<HistoricalChanges, ManagerError>| #[trigger]
        publishes_comparison(before, after, claim, manifest, applied, invalid, now_ns, inner)
            && carries(inner, published, "publish historical comparison"@)
}

impl Service {
    fn work_on(&self, claim: HistoricalComparisonClaim) -> (step: Result<
        HistoricalStep,
        ServiceError,
    >)
        ensures
            works_on(*self, self.store, claim, step),
    {
        let source_path = match self.snapshot_path(claim.from_snapshot_id) {
            Ok(path) => path,
            Err(error) => {
                return Err(error);
            },
        };
        let target_path = match self.snapshot_path(claim.to_snapshot_id) {
            Ok(path) => path,
            Err(error) => {
                return Err(error);
            },
        };
        let name = historical_spool_name(claim.comparison_id, claim.lease_fence);
        let spool_path = join(&self.config.spool_directory, &name);
        Ok(
            HistoricalStep::Compare(
                HistoricalWork { claim, source_path, target_path, spool_path },
            ),
        )
    }

    /// Asks for what changed: from the retained history where that knows it
    /// all, and else by comparing the two snapshots.
    pub fn begin_historical_changes(&mut self, options: &HistoricalOptions) -> (step: Result<
        HistoricalStep,
        ServiceError,
    >)
        ensures
            begins_historical(*old(self), *final(self), *options, step),
            old(self).store.well_formed() ==> final(self).store.well_formed(),
    {
        let known = self.store.replay_historical_changes(
            options.watch_id,
            options.authorization_id,
            options.requester_uid,
            options.from_snapshot_uuid,
            options.to_snapshot_uuid,
        );
        assert(replays(
            old(self).store,
            options.watch_id,
            options.authorization_id,
            options.requester_uid,
            options.from_snapshot_uuid,
            options.to_snapshot_uuid,
            known,
        ));
        let replayed = match known {
            Ok(replayed) => replayed,
            Err(error) => {
                return Err(ServiceError::context("replay retained history", error.message()));
            },
        };
        if !replayed.fresh_instance {
            return Ok(HistoricalStep::Known(replayed));
        }
        let expires_ns: i64 = match lease_expiry(options.now_ns, self.config.lease_ns) {
            Ok(expires_ns) => expires_ns,
            Err(error) => {
                return Err(error);
            },
        };
        let request = HistoricalComparisonRequest {
            watch_id: options.watch_id,
            authorization_id: options.authorization_id,
            requester_uid: options.requester_uid,
            from_snapshot_uuid: options.from_snapshot_uuid,
            to_snapshot_uuid: options.to_snapshot_uuid,
            lease_owner: self.lease_owner,
            now_ns: options.now_ns,
            lease_expires_ns: expires_ns,
        };
        let ghost shown = replayed;
        let admitted = self.store.claim_historical_comparison(&request);
        assert(claims_comparison(old(self).store, self.store, request, admitted));
        let step: Result<HistoricalStep, ServiceError> = match admitted {
            Err(_) => Ok(HistoricalStep::Known(replayed)),
            Ok(HistoricalComparisonAdmission::Ready(changes)) => Ok(
                HistoricalStep::Known(changes),
            ),
            Ok(HistoricalComparisonAdmission::Claimed(claim)) => self.work_on(claim),
        };
        assert(claims(*old(self), self.store, request, shown, step));
        step
    }

    /// Takes note of what the manifest of a comparison promises.
    pub fn accept_historical(&mut self, dirty_witness_contract: bool)
        ensures
            *final(self) == (Service {
                dirty_witness_contract_seen: old(self).dirty_witness_contract_seen
                    || dirty_witness_contract,
                ..*old(self)
            }),
            old(self).store.well_formed() ==> final(self).store.well_formed(),
    {
        self.dirty_witness_contract_seen = self.dirty_witness_contract_seen
            || dirty_witness_contract;
    }

    /// Publishes what changed, as a comparison found it. `invalid` says what was
    /// found wrong with the indexes on the way to either snapshot.
    pub fn publish_historical_changes(
        &mut self,
        claim: &HistoricalComparisonClaim,
        manifest: &ChangedObjectsManifest,
        applied: &AppliedDelta,
        invalid: &BTreeMap<i64, String>,
        now_ns: i64,
    ) -> (published: Result<HistoricalChanges, ServiceError>)
        requires
            old(self).store.well_formed(),
            manifest.well_formed(),
            applied.index.well_formed(),
        ensures
            *final(self) == (Service { store: final(self).store, ..*old(self) }),
            publishes_historical(
                old(self).store,
                final(self).store,
                *claim,
                manifest@,
                *applied,
                invalid@,
                now_ns,
                published,
            ),
            final(self).store.well_formed(),
    {
        let inner = self.store.publish_historical_comparison(
            claim,
            manifest,
            applied,
            invalid,
            now_ns,
        );
        assert(publishes_comparison(
            old(self).store,
            self.store,
            *claim,
            manifest@,
            *applied,
            invalid@,
            now_ns,
            inner,
        ));
        carry(inner, "publish historical comparison")
    }
}

} // verus!
