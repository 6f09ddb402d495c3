//! What the service is configured with, and what it is asked.

use crate::manager::types::{FacadeActivation, Permissions, Principal};
use crate::namespace::NamespaceMonitor;
use crate::text::{context_text, copy_bytes, in_context};
use vstd::prelude::*;

verus! {

/// How long an operation is leased.
pub const DEFAULT_LEASE_NS: i64 = 300_000_000_000;

pub const DEFAULT_REPLAY_CUTS: i64 = 128;

/// One day.
pub const DEFAULT_REPLAY_NS: i64 = 86_400_000_000_000;

/// Why the service refuses a request.
#[derive(Debug)]
pub struct ServiceError {
    message: String,
}

impl View for ServiceError {
    type V = Seq<char>;

    closed spec fn view(&self) -> Seq<char> {
        self.message@
    }
}

impl ServiceError {
    pub fn new(message: &str) -> (error: Self)
        ensures
            error@ == message@,
    {
        ServiceError { message: message.to_owned() }
    }

    pub fn of(message: String) -> (error: Self)
        ensures
            error@ == message@,
    {
        ServiceError { message }
    }

    /// Puts the cause behind the step that failed.
    pub fn context(context: &str, cause: &str) -> (error: Self)
        ensures
            error@ == in_context(context@, cause@),
    {
        ServiceError { message: context_text(context, cause) }
    }

    /// The diagnostic text.
    pub fn message(&self) -> (text: &str)
        ensures
            text@ == self@,
    {
        self.message.as_str()
    }
}

#[derive(Clone, Debug)]
pub struct ServiceConfig {
    pub managed_snapshot_directory: Vec<u8>,
    pub spool_directory: Vec<u8>,
    pub boot_id: [u8; 16],
    pub lease_ns: i64,
    pub max_manifest_bytes: u64,
    pub experimental_dirty_witness_verified: bool,
    /// Where the separately privileged broker listens. Without it, the broker
    /// runs inside the process.
    pub broker_socket: Option<Vec<u8>>,
    pub fault_after_initialize_snapshot: bool,
    pub fault_after_cut_snapshot: bool,
    pub fault_next_incremental_comparison: bool,
    pub fault_after_manifest_stage: bool,
    pub fault_after_snapshot_delete: bool,
    pub fault_after_worktree_create: bool,
    pub fault_after_worktree_publish: bool,
    pub replay_window_cuts: i64,
    pub replay_window_ns: i64,
}

/// Whether two optional paths are the same.
pub open spec fn same_socket(left: Option<Vec<u8>>, right: Option<Vec<u8>>) -> bool {
    match (left, right) {
        (Some(left), Some(right)) => left@ == right@,
        (None, None) => true,
        _ => false,
    }
}

/// Whether two configurations say the same.
pub open spec fn same_config(left: ServiceConfig, right: ServiceConfig) -> bool {
    &&& left.managed_snapshot_directory@ == right.managed_snapshot_directory@
    &&& left.spool_directory@ == right.spool_directory@
    &&& same_socket(left.broker_socket, right.broker_socket)
    &&& left == ServiceConfig {
        managed_snapshot_directory: left.managed_snapshot_directory,
        spool_directory: left.spool_directory,
        broker_socket: left.broker_socket,
        ..right
    }
}

impl ServiceConfig {
    pub fn copy(&self) -> (copy: Self)
        ensures
            same_config(copy, *self),
    {
        ServiceConfig {
            managed_snapshot_directory: copy_bytes(&self.managed_snapshot_directory),
            spool_directory: copy_bytes(&self.spool_directory),
            boot_id: self.boot_id,
            lease_ns: self.lease_ns,
            max_manifest_bytes: self.max_manifest_bytes,
            experimental_dirty_witness_verified: self.experimental_dirty_witness_verified,
            broker_socket: match &self.broker_socket {
                Some(path) => Some(copy_bytes(path)),
                None => None,
            },
            fault_after_initialize_snapshot: self.fault_after_initialize_snapshot,
            fault_after_cut_snapshot: self.fault_after_cut_snapshot,
            fault_next_incremental_comparison: self.fault_next_incremental_comparison,
            fault_after_manifest_stage: self.fault_after_manifest_stage,
            fault_after_snapshot_delete: self.fault_after_snapshot_delete,
            fault_after_worktree_create: self.fault_after_worktree_create,
            fault_after_worktree_publish: self.fault_after_worktree_publish,
            replay_window_cuts: self.replay_window_cuts,
            replay_window_ns: self.replay_window_ns,
        }
    }
}

/// What was found out of a directory: whether it is one, and its mode.
pub type DirectoryReport = Result<(bool, u32), String>;

/// Why a directory is not private. `shown` is its path as it is shown.
pub open spec fn private_directory_fault(shown: Seq<char>, report: DirectoryReport) -> Option<
    Seq<char>,
> {
    match report {
        Err(cause) => Some(in_context("stat "@ + shown, cause@)),
        Ok((is_directory, mode)) => if !is_directory || mode & 0o077 != 0 {
            Some(shown + " must be an existing private directory"@)
        } else {
            None
        },
    }
}

/// Checks that a directory is there for its owner only.
pub fn validate_private_directory(shown: &str, report: &DirectoryReport) -> (checked: Result<
    (),
    ServiceError,
>)
    ensures
        match checked {
            Ok(_) => private_directory_fault(shown@, *report) is None,
            Err(error) => private_directory_fault(shown@, *report) == Some(error@),
        },
{
    match report {
        Err(cause) => {
            let mut step = String::new();
            step.append("stat ");
            step.append(shown);
            assert(step@ =~= "stat "@ + shown@);
            Err(ServiceError::context(step.as_str(), cause.as_str()))
        },
        Ok((is_directory, mode)) => if !*is_directory || *mode & 0o077 != 0 {
            let mut text = String::new();
            text.append(shown);
            text.append(" must be an existing private directory");
            assert(text@ =~= shown@ + " must be an existing private directory"@);
            Err(ServiceError::of(text))
        } else {
            Ok(())
        },
    }
}

/// What is wrong with the numbers of a configuration, where no manifest may be
/// longer than `max_output`.
pub open spec fn limits_fault(config: ServiceConfig, max_output: u64) -> Option<Seq<char>> {
    if config.lease_ns <= 0 {
        Some("service lease duration must be positive"@)
    } else if config.max_manifest_bytes == 0 || config.max_manifest_bytes > max_output {
        Some("invalid changed-object manifest limit"@)
    } else if config.replay_window_cuts <= 0 || config.replay_window_ns <= 0 {
        Some("invalid replay retention window"@)
    } else {
        None
    }
}

/// The configuration with the usual windows.
pub open spec fn usual_config(
    managed_snapshot_directory: Vec<u8>,
    spool_directory: Vec<u8>,
    boot_id: [u8; 16],
    max_output: u64,
) -> ServiceConfig {
    ServiceConfig {
        managed_snapshot_directory,
        spool_directory,
        boot_id,
        lease_ns: DEFAULT_LEASE_NS,
        max_manifest_bytes: max_output,
        experimental_dirty_witness_verified: false,
        broker_socket: None,
        fault_after_initialize_snapshot: false,
        fault_after_cut_snapshot: false,
        fault_next_incremental_comparison: false,
        fault_after_manifest_stage: false,
        fault_after_snapshot_delete: false,
        fault_after_worktree_create: false,
        fault_after_worktree_publish: false,
        replay_window_cuts: DEFAULT_REPLAY_CUTS,
        replay_window_ns: DEFAULT_REPLAY_NS,
    }
}

/// The configuration with another window of history.
pub open spec fn retaining(config: ServiceConfig, cuts: i64, duration_ns: i64) -> ServiceConfig {
    ServiceConfig { replay_window_cuts: cuts, replay_window_ns: duration_ns, ..config }
}

impl ServiceConfig {
    /// A configuration with the usual windows, where no manifest may be longer
    /// than `max_output`.
    pub fn new(
        managed_snapshot_directory: Vec<u8>,
        spool_directory: Vec<u8>,
        boot_id: [u8; 16],
        max_output: u64,
    ) -> (config: Self)
        ensures
            config == usual_config(
                managed_snapshot_directory,
                spool_directory,
                boot_id,
                max_output,
            ),
    {
        ServiceConfig {
            managed_snapshot_directory,
            spool_directory,
            boot_id,
            lease_ns: DEFAULT_LEASE_NS,
            max_manifest_bytes: max_output,
            experimental_dirty_witness_verified: false,
            broker_socket: None,
            fault_after_initialize_snapshot: false,
            fault_after_cut_snapshot: false,
            fault_next_incremental_comparison: false,
            fault_after_manifest_stage: false,
            fault_after_snapshot_delete: false,
            fault_after_worktree_create: false,
            fault_after_worktree_publish: false,
            replay_window_cuts: DEFAULT_REPLAY_CUTS,
            replay_window_ns: DEFAULT_REPLAY_NS,
        }
    }

    pub fn allow_experimental_dirty_witness(self) -> (config: Self)
        ensures
            config == (ServiceConfig { experimental_dirty_witness_verified: true, ..self }),
    {
        ServiceConfig { experimental_dirty_witness_verified: true, ..self }
    }

    pub fn with_broker_socket(self, path: Vec<u8>) -> (config: Self)
        ensures
            config == (ServiceConfig { broker_socket: Some(path), ..self }),
    {
        ServiceConfig { broker_socket: Some(path), ..self }
    }

    pub fn with_initialize_snapshot_failpoint(self) -> (config: Self)
        ensures
            config == (ServiceConfig { fault_after_initialize_snapshot: true, ..self }),
    {
        ServiceConfig { fault_after_initialize_snapshot: true, ..self }
    }

    pub fn with_cut_snapshot_failpoint(self) -> (config: Self)
        ensures
            config == (ServiceConfig { fault_after_cut_snapshot: true, ..self }),
    {
        ServiceConfig { fault_after_cut_snapshot: true, ..self }
    }

    pub fn with_incremental_comparison_failpoint(self) -> (config: Self)
        ensures
            config == (ServiceConfig { fault_next_incremental_comparison: true, ..self }),
    {
        ServiceConfig { fault_next_incremental_comparison: true, ..self }
    }

    pub fn with_manifest_stage_failpoint(self) -> (config: Self)
        ensures
            config == (ServiceConfig { fault_after_manifest_stage: true, ..self }),
    {
        ServiceConfig { fault_after_manifest_stage: true, ..self }
    }

    pub fn with_snapshot_delete_failpoint(self) -> (config: Self)
        ensures
            config == (ServiceConfig { fault_after_snapshot_delete: true, ..self }),
    {
        ServiceConfig { fault_after_snapshot_delete: true, ..self }
    }

    pub fn with_worktree_create_failpoint(self) -> (config: Self)
        ensures
            config == (ServiceConfig { fault_after_worktree_create: true, ..self }),
    {
        ServiceConfig { fault_after_worktree_create: true, ..self }
    }

    pub fn with_worktree_publish_failpoint(self) -> (config: Self)
        ensures
            config == (ServiceConfig { fault_after_worktree_publish: true, ..self }),
    {
        ServiceConfig { fault_after_worktree_publish: true, ..self }
    }

    pub fn with_replay_retention(self, cuts: i64, duration_ns: i64) -> (config: Self)
        ensures
            config == retaining(self, cuts, duration_ns),
    {
        ServiceConfig { replay_window_cuts: cuts, replay_window_ns: duration_ns, ..self }
    }

    /// Checks the numbers of a configuration.
    pub fn check_limits(&self, max_output: u64) -> (checked: Result<(), ServiceError>)
        ensures
            match checked {
                Ok(_) => limits_fault(*self, max_output) is None,
                Err(error) => limits_fault(*self, max_output) == Some(error@),
            },
    {
        if self.lease_ns <= 0 {
            return Err(ServiceError::new("service lease duration must be positive"));
        }
        if self.max_manifest_bytes == 0 || self.max_manifest_bytes > max_output {
            return Err(ServiceError::new("invalid changed-object manifest limit"));
        }
        if self.replay_window_cuts <= 0 || self.replay_window_ns <= 0 {
            return Err(ServiceError::new("invalid replay retention window"));
        }
        Ok(())
    }
}

/// A directory as it is shown, and what was found out of it.
#[derive(Debug)]
pub struct DirectoryCheck {
    pub shown: String,
    pub report: DirectoryReport,
}

/// What is wrong with a directory.
pub open spec fn directory_fault(check: DirectoryCheck) -> Option<Seq<char>> {
    private_directory_fault(check.shown@, check.report)
}

/// Why a service cannot start with the configuration. `embedded` says whether
/// the broker runs inside the process.
pub open spec fn start_fault(
    config: ServiceConfig,
    embedded: bool,
    managed: DirectoryCheck,
    spool: DirectoryCheck,
    max_output: u64,
) -> Option<Seq<char>> {
    if embedded && config.broker_socket is Some {
        Some("Service::new is for the embedded broker; use Service::new_external"@)
    } else if directory_fault(managed) is Some {
        directory_fault(managed)
    } else if directory_fault(spool) is Some {
        directory_fault(spool)
    } else if limits_fault(config, max_output) is Some {
        limits_fault(config, max_output)
    } else if !embedded && config.broker_socket is None {
        Some("external broker socket is not configured"@)
    } else {
        None
    }
}

/// Checks that a service can start with the configuration.
pub fn check_start(
    config: &ServiceConfig,
    embedded: bool,
    managed: &DirectoryCheck,
    spool: &DirectoryCheck,
    max_output: u64,
) -> (checked: Result<(), ServiceError>)
    ensures
        match checked {
            Ok(_) => start_fault(*config, embedded, *managed, *spool, max_output) is None,
            Err(error) => start_fault(*config, embedded, *managed, *spool, max_output) == Some(
                error@,
            ),
        },
{
    if embedded && config.broker_socket.is_some() {
        return Err(
            ServiceError::new("Service::new is for the embedded broker; use Service::new_external"),
        );
    }
    match validate_private_directory(managed.shown.as_str(), &managed.report) {
        Ok(_) => {},
        Err(error) => {
            return Err(error);
        },
    }
    match validate_private_directory(spool.shown.as_str(), &spool.report) {
        Ok(_) => {},
        Err(error) => {
            return Err(error);
        },
    }
    match config.check_limits(max_output) {
        Ok(_) => {},
        Err(error) => {
            return Err(error);
        },
    }
    if !embedded && config.broker_socket.is_none() {
        return Err(ServiceError::new("external broker socket is not configured"));
    }
    Ok(())
}

#[derive(Clone, Debug)]
pub struct InitializeOptions {
    pub principal: Principal,
    pub permissions: Permissions,
    pub requester_uid: u32,
    pub requester_gid: u32,
    pub now_ns: i64,
}

#[derive(Clone, Copy, Debug)]
pub struct ChangesOptions {
    pub watch_id: [u8; 16],
    pub authorization_id: [u8; 16],
    pub requester_uid: u32,
    pub requester_gid: u32,
    pub now_ns: i64,
}

#[derive(Clone, Debug)]
pub struct WorktreeOptions {
    pub watch_id: [u8; 16],
    pub authorization_id: [u8; 16],
    pub destination_root: Vec<u8>,
    pub destination_parent: Vec<u8>,
    pub destination_name: Vec<u8>,
    pub reservation_name: Vec<u8>,
    pub reservation_nonce: [u8; 32],
    pub requester_uid: u32,
    pub requester_gid: u32,
    pub now_ns: i64,
}

#[derive(Clone, Debug, Eq, PartialEq)]
pub struct PublishedWorktree {
    pub worktree_id: [u8; 16],
    pub watch_id: [u8; 16],
    pub grant_id: [u8; 16],
    pub subvol_uuid: [u8; 16],
    pub path: Vec<u8>,
    pub seed_revision_id: i64,
    pub seed_snapshot_id: i64,
}

/// The view of a new worktree, monitored since before it appeared.
#[derive(Debug)]
pub struct WorktreeViewHandoff {
    pub authorization_id: [u8; 16],
    pub activation: FacadeActivation,
    pub monitor: NamespaceMonitor,
    pub snapshot_uuid: [u8; 16],
}

/// When a lease of that length, taken now, runs out.
pub open spec fn expiry_of(now_ns: i64, lease_ns: i64) -> Result<i64, Seq<char>> {
    if i64::MIN <= now_ns + lease_ns <= i64::MAX {
        Ok((now_ns + lease_ns) as i64)
    } else {
        Err("lease expiration overflows signed nanoseconds"@)
    }
}

/// When a lease of that length, taken now, runs out.
pub fn lease_expiry(now_ns: i64, lease_ns: i64) -> (expiry: Result<i64, ServiceError>)
    ensures
        match expiry {
            Ok(expiry) => expiry_of(now_ns, lease_ns) == Ok::<i64, Seq<char>>(expiry),
            Err(error) => expiry_of(now_ns, lease_ns) == Err::<i64, Seq<char>>(error@),
        },
{
    match now_ns.checked_add(lease_ns) {
        Some(expiry) => Ok(expiry),
        None => Err(ServiceError::new("lease expiration overflows signed nanoseconds")),
    }
}

/// The wall clock in nanoseconds since the epoch.
pub fn current_unix_time_ns(reading: &Result<u128, String>) -> (now_ns: Result<i64, ServiceError>)
    ensures
        match (*reading, now_ns) {
            (Ok(nanoseconds), Ok(now_ns)) => now_ns == nanoseconds,
            (Ok(nanoseconds), Err(error)) => nanoseconds > i64::MAX && error@
                == "recovery clock exceeds signed nanoseconds"@,
            (Err(cause), Err(error)) => error@ == in_context("read recovery clock"@, cause@),
            _ => false,
        },
{
    match reading {
        Err(cause) => Err(ServiceError::context("read recovery clock", cause.as_str())),
        Ok(nanoseconds) => if *nanoseconds > i64::MAX as u128 {
            Err(ServiceError::new("recovery clock exceeds signed nanoseconds"))
        } else {
            Ok(*nanoseconds as i64)
        },
    }
}

} // verus!
