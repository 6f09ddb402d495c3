//! Continuity of the client's view of a watched root.
//!
//! A monitor watches every directory from the root directory down to the
//! watched root. As long as none of the entries on that way changes, no mount
//! comes or goes, and the identities stay what they were, the client keeps
//! seeing the same subvolume at the same path.

use crate::bytes::get_range;
use crate::digest::{drawn, random_id};
use crate::inotify::{event_at, event_end, read_event, ByteOrder, Event, EventFault, EventView};
use crate::inotify::{IN_ATTRIB, IN_CREATE, IN_DELETE, IN_MOVED_FROM, IN_MOVED_TO};
use crate::inotify::LOST_WATCH;
use crate::manifest::{entry_name, is_entry_name};
use crate::mountinfo::{check_mounts, mounts_fault, unescape, unescaped};
use crate::paths::{find_spans, is_rooted, join, joined, name_spans, names, rooted, spans_view, DOT};
use crate::text::{context_text, copy_bytes, in_context, same_array, same_bytes};
use std::collections::BTreeMap;
use vstd::prelude::*;

verus! {

broadcast use vstd::std_specs::btree::group_btree_axioms;

/// What is watched in a directory on the way to the root.
pub const IN_BINDING_MASK: u32 = IN_ATTRIB | IN_CREATE | IN_DELETE | IN_MOVED_FROM | IN_MOVED_TO
    | LOST_WATCH;

/// What is watched of the root itself.
pub const IN_SELF_MASK: u32 = IN_ATTRIB | LOST_WATCH;

pub const POLLPRI: i16 = 0x2;

pub const POLLERR: i16 = 0x8;

pub const POLLNVAL: i16 = 0x20;

/// The identity of a client's view of a watched root.
#[derive(Clone, Debug, Eq, PartialEq)]
pub struct ViewBinding {
    pub monitor_session_id: [u8; 16],
    pub root_path: Vec<u8>,
    pub fs_uuid: [u8; 16],
    pub subvol_uuid: [u8; 16],
    pub mount_ns_dev: u64,
    pub mount_ns_ino: u64,
    pub process_root_dev: u64,
    pub process_root_ino: u64,
    pub process_root_mnt_id: u64,
    pub watched_root_dev: u64,
    pub watched_root_ino: u64,
    pub watched_root_mnt_id: u64,
}

/// The mount namespace and the root directory of the process.
#[derive(Clone, Copy, Debug, Eq, PartialEq)]
pub struct NamespaceIdentity {
    pub mount_ns_dev: u64,
    pub mount_ns_ino: u64,
    pub process_root_dev: u64,
    pub process_root_ino: u64,
    pub process_root_mnt_id: u64,
}

/// The directory found at the watched path.
#[derive(Clone, Copy, Debug, Eq, PartialEq)]
pub struct RootIdentity {
    pub dev: u64,
    pub ino: u64,
    pub mnt_id: u64,
    pub fs_uuid: [u8; 16],
    pub subvol_uuid: [u8; 16],
}

impl ViewBinding {
    pub open spec fn namespace(&self) -> NamespaceIdentity {
        NamespaceIdentity {
            mount_ns_dev: self.mount_ns_dev,
            mount_ns_ino: self.mount_ns_ino,
            process_root_dev: self.process_root_dev,
            process_root_ino: self.process_root_ino,
            process_root_mnt_id: self.process_root_mnt_id,
        }
    }

    pub open spec fn root(&self) -> RootIdentity {
        RootIdentity {
            dev: self.watched_root_dev,
            ino: self.watched_root_ino,
            mnt_id: self.watched_root_mnt_id,
            fs_uuid: self.fs_uuid,
            subvol_uuid: self.subvol_uuid,
        }
    }
}

/// Why a view cannot be monitored, or is no longer the same.
#[derive(Debug)]
pub struct NamespaceError {
    message: String,
}

impl View for NamespaceError {
    type V = Seq<char>;

    closed spec fn view(&self) -> Seq<char> {
        self.message@
    }
}

impl NamespaceError {
    pub fn new(message: &str) -> (error: Self)
        ensures
            error@ == message@,
    {
        NamespaceError { message: message.to_owned() }
    }

    /// Puts the cause behind the step that failed.
    pub fn context(context: &str, cause: &str) -> (error: Self)
        ensures
            error@ == in_context(context@, cause@),
    {
        NamespaceError { message: context_text(context, cause) }
    }

    /// The diagnostic text.
    pub fn message(&self) -> (text: &str)
        ensures
            text@ == self@,
    {
        self.message.as_str()
    }
}

/// Replaces every escape of a mountinfo field by the byte that it stands for.
pub fn unescape_mountinfo(encoded: &[u8]) -> (decoded: Result<Vec<u8>, NamespaceError>)
    ensures
        match decoded {
            Ok(decoded) => unescaped(encoded@) == Ok::<Seq<u8>, Seq<char>>(decoded@),
            Err(error) => unescaped(encoded@) == Err::<Seq<u8>, Seq<char>>(error@),
        },
{
    match unescape(encoded) {
        Ok(decoded) => Ok(decoded),
        Err(fault) => Err(NamespaceError::new(fault)),
    }
}

/// Refuses a root with a mountpoint strictly below it.
pub fn reject_descendant_mounts(root: &[u8], mountinfo: &[u8]) -> (checked: Result<
    (),
    NamespaceError,
>)
    ensures
        match checked {
            Ok(_) => mounts_fault(mountinfo@, root@) is None,
            Err(error) => mounts_fault(mountinfo@, root@) == Some(error@),
        },
{
    match check_mounts(mountinfo, root) {
        None => Ok(()),
        Some(fault) => Err(NamespaceError::new(fault)),
    }
}

/// Whether the poll of the mountinfo file reported a change.
pub open spec fn mounts_changed(revents: i16) -> bool {
    revents & (POLLPRI | POLLERR | POLLNVAL) != 0
}

/// Refuses to go on once the poll of the mountinfo file reported a change.
pub fn poll_mountinfo(revents: i16) -> (checked: Result<(), NamespaceError>)
    ensures
        match checked {
            Ok(_) => !mounts_changed(revents),
            Err(error) => mounts_changed(revents) && error@
                == "mount topology monitor observed a change"@,
        },
{
    if revents & (POLLPRI | POLLERR | POLLNVAL) != 0 {
        return Err(NamespaceError::new("mount topology monitor observed a change"));
    }
    Ok(())
}

/// A directory to watch: for which events, and which entry of it matters. No
/// name means that every event matters.
#[derive(Debug)]
pub struct WatchStep {
    pub directory: Vec<u8>,
    pub mask: u32,
    pub name: Option<Vec<u8>>,
}

/// What a step says.
#[verifier::ext_equal]
pub struct StepView {
    pub directory: Seq<u8>,
    pub mask: u32,
    pub name: Option<Seq<u8>>,
}

/// The bytes of an optional name.
pub open spec fn name_view(name: Option<Vec<u8>>) -> Option<Seq<u8>> {
    match name {
        Some(name) => Some(name@),
        None => None,
    }
}

impl View for WatchStep {
    type V = StepView;

    open spec fn view(&self) -> StepView {
        StepView { directory: self.directory@, mask: self.mask, name: name_view(self.name) }
    }
}

/// What a sequence of steps says.
pub open spec fn steps_view(steps: Seq<WatchStep>) -> Seq<StepView> {
    steps.map_values(|step: WatchStep| step@)
}

/// Whether a name is a single or a double dot.
pub open spec fn dots(name: Seq<u8>) -> bool {
    name == seq![DOT] || name == seq![DOT, DOT]
}

/// The steps from `directory` down along `rest`.
pub open spec fn chain_from(directory: Seq<u8>, rest: Seq<Seq<u8>>) -> Seq<StepView>
    decreases rest.len(),
{
    if rest.len() == 0 {
        seq![StepView { directory, mask: IN_SELF_MASK, name: None }]
    } else if dots(rest[0]) {
        chain_from(directory, rest.drop_first())
    } else {
        seq![StepView { directory, mask: IN_BINDING_MASK, name: Some(rest[0]) }] + chain_from(
            joined(directory, rest[0]),
            rest.drop_first(),
        )
    }
}

/// The steps that watch every entry on the way to `root`, and `root` itself.
pub open spec fn component_chain(root: Seq<u8>) -> Seq<StepView> {
    chain_from(seq![47u8], names(root))
}

/// Lists the steps that watch every entry on the way to `root`, and `root`
/// itself.
pub fn arm_component_chain(root: &[u8]) -> (steps: Vec<WatchStep>)
    ensures
        steps_view(steps@) == component_chain(root@),
{
    let all = find_spans(root);
    let ghost parts = names(root@);
    let mut directory: Vec<u8> = Vec::new();
    directory.push(47);
    assert(directory@ =~= seq![47u8]);
    let mut steps: Vec<WatchStep> = Vec::new();
    let mut at: usize = 0;
    assert(parts.subrange(0, parts.len() as int) =~= parts);
    assert(steps_view(steps@) + chain_from(directory@, parts) =~= component_chain(root@));
    while at < all.len()
        invariant
            at <= all.len(),
            parts == names(root@),
            spans_view(all@) == name_spans(root@),
            parts.len() == all@.len(),
            forall|i: int|
                0 <= i < all@.len() ==> (#[trigger] all@[i]).0 < all@[i].1 <= root@.len(),
            steps_view(steps@) + chain_from(
                directory@,
                parts.subrange(at as int, parts.len() as int),
            ) == component_chain(root@),
        decreases all.len() - at,
    {
        let ghost rest = parts.subrange(at as int, parts.len() as int);
        let ghost before = steps_view(steps@);
        assert(name_spans(root@)[at as int] == spans_view(all@)[at as int]);
        let name = get_range(root, all[at].0, all[at].1);
        assert(rest[0] == name@);
        assert(rest.drop_first() =~= parts.subrange(at + 1, parts.len() as int));
        if (name.len() == 1 && name[0] == DOT) || (name.len() == 2 && name[0] == DOT && name[1]
            == DOT) {
            assert(name@ =~= seq![DOT] || name@ =~= seq![DOT, DOT]);
        } else {
            proof {
                if dots(name@) {
                    assert(name@[0] == DOT);
                    assert(name@.len() == 2 ==> name@[1] == DOT);
                    assert(false);
                }
            }
            let below = join(&directory, &name);
            steps.push(WatchStep { directory, mask: IN_BINDING_MASK, name: Some(name) });
            directory = below;
            assert(steps_view(steps@) =~= before.push(steps@.last()@));
            assert(steps_view(steps@) + chain_from(directory@, rest.drop_first()) =~= before
                + chain_from(steps@.last().directory@, rest));
        }
        at += 1;
    }
    let ghost before = steps_view(steps@);
    steps.push(WatchStep { directory, mask: IN_SELF_MASK, name: None });
    assert(steps_view(steps@) =~= before.push(steps@.last()@));
    assert(parts.subrange(at as int, parts.len() as int) =~= Seq::<Seq<u8>>::empty());
    assert(steps_view(steps@) =~= before + chain_from(steps@.last().directory@, Seq::empty()));
    steps
}

/// The entry that matters of each watch.
#[derive(Debug)]
pub struct WatchTable {
    names: BTreeMap<i32, Option<Vec<u8>>>,
}

impl View for WatchTable {
    type V = Map<i32, Option<Seq<u8>>>;

    closed spec fn view(&self) -> Map<i32, Option<Seq<u8>>> {
        self.names@.map_values(|name: Option<Vec<u8>>| name_view(name))
    }
}

impl WatchTable {
    pub fn new() -> (table: Self)
        ensures
            table@ == Map::<i32, Option<Seq<u8>>>::empty(),
    {
        let table = WatchTable { names: BTreeMap::new() };
        assert(table@ =~= Map::<i32, Option<Seq<u8>>>::empty());
        table
    }

    /// Enters what the watch is for; a watch that is known already is for the
    /// new purpose only.
    pub fn insert(&mut self, watch: i32, name: Option<Vec<u8>>)
        ensures
            final(self)@ == old(self)@.insert(watch, name_view(name)),
    {
        let ghost stored = name_view(name);
        self.names.insert(watch, name);
        assert(self@ =~= old(self)@.insert(watch, stored));
    }

    /// Whether every event of the watch matters, or those of the entry called
    /// `name`.
    fn concerns(&self, watch: i32, name: &[u8]) -> (concerned: bool)
        ensures
            concerned == (self@.contains_key(watch) && match self@[watch] {
                None => true,
                Some(expected) => expected == name@,
            }),
    {
        match self.names.get(&watch) {
            None => false,
            Some(expected) => {
                assert(self@[watch] == name_view(*expected));
                match expected {
                    None => true,
                    Some(expected) => same_bytes(expected, name),
                }
            },
        }
    }
}

/// Whether an event shows that the way to the root may have changed.
pub open spec fn relevant(watches: Map<i32, Option<Seq<u8>>>, event: EventView) -> bool {
    ||| event.mask & LOST_WATCH != 0
    ||| event.name.len() == 0 && event.mask & IN_ATTRIB != 0
    ||| watches.contains_key(event.watch) && match watches[event.watch] {
        None => true,
        Some(expected) => expected == event.name,
    }
}

/// Whether an event shows that the way to the root may have changed.
fn is_relevant(watches: &WatchTable, event: &Event) -> (found: bool)
    ensures
        found == relevant(watches@, event@),
{
    event.mask & LOST_WATCH != 0 || (event.name.len() == 0 && event.mask & IN_ATTRIB != 0)
        || watches.concerns(event.watch, &event.name)
}

/// Why the events from `at` on break the binding.
pub open spec fn binding_fault_from(
    watches: Map<i32, Option<Seq<u8>>>,
    buffer: Seq<u8>,
    at: int,
    order: ByteOrder,
) -> Option<Seq<char>>
    decreases buffer.len() - at,
{
    if at >= buffer.len() {
        None
    } else {
        match event_at(buffer, at, order) {
            Err(EventFault::TruncatedHeader) => Some("truncated inotify event"@),
            Err(EventFault::LengthOverflow) => Some("inotify event overflow"@),
            Err(EventFault::TruncatedName) => Some("truncated inotify name"@),
            Ok(event) => if relevant(watches, event) {
                Some("root-path binding monitor observed a relevant event"@)
            } else {
                binding_fault_from(watches, buffer, event_end(buffer, at, order), order)
            },
        }
    }
}

/// Monitors the view of a watched root.
#[derive(Debug)]
pub struct NamespaceMonitor {
    watched_names: WatchTable,
    canonical_root: Vec<u8>,
    binding: ViewBinding,
}

impl NamespaceMonitor {
    /// The entry that matters of each watch.
    pub closed spec fn watches(&self) -> Map<i32, Option<Seq<u8>>> {
        self.watched_names@
    }

    /// The path of the watched root.
    pub closed spec fn root_path(&self) -> Seq<u8> {
        self.canonical_root@
    }

    /// The identity that the view had when the monitor was armed.
    pub closed spec fn bound(&self) -> ViewBinding {
        self.binding
    }

    /// Binds the watched root to the identities observed at arming, under a
    /// fresh session.
    pub fn arm(
        canonical_root: Vec<u8>,
        watched_names: WatchTable,
        namespace: NamespaceIdentity,
        root: RootIdentity,
    ) -> (monitor: Result<Self, NamespaceError>)
        ensures
            match monitor {
                Ok(monitor) => {
                    &&& rooted(canonical_root@)
                    &&& monitor.watches() == watched_names@
                    &&& monitor.root_path() == canonical_root@
                    &&& drawn(monitor.bound().monitor_session_id)
                    &&& monitor.bound().root_path@ == canonical_root@
                    &&& monitor.bound().namespace() == namespace
                    &&& monitor.bound().root() == root
                },
                Err(error) => !rooted(canonical_root@) && error@ == "watched root must be absolute"@,
            },
    {
        Self::arm_session(canonical_root, watched_names, namespace, root, random_id())
    }

    /// Binds the watched root to the identities observed at arming.
    pub fn arm_session(
        canonical_root: Vec<u8>,
        watched_names: WatchTable,
        namespace: NamespaceIdentity,
        root: RootIdentity,
        monitor_session_id: [u8; 16],
    ) -> (monitor: Result<Self, NamespaceError>)
        ensures
            match monitor {
                Ok(monitor) => {
                    &&& rooted(canonical_root@)
                    &&& monitor.watches() == watched_names@
                    &&& monitor.root_path() == canonical_root@
                    &&& monitor.bound().monitor_session_id == monitor_session_id
                    &&& monitor.bound().root_path@ == canonical_root@
                    &&& monitor.bound().namespace() == namespace
                    &&& monitor.bound().root() == root
                },
                Err(error) => !rooted(canonical_root@) && error@ == "watched root must be absolute"@,
            },
    {
        if !is_rooted(&canonical_root) {
            return Err(NamespaceError::new("watched root must be absolute"));
        }
        let binding = bind(copy_bytes(&canonical_root), namespace, root, monitor_session_id);
        Ok(NamespaceMonitor { watched_names, canonical_root, binding })
    }

    pub fn binding(&self) -> (binding: &ViewBinding)
        ensures
            *binding == self.bound(),
    {
        &self.binding
    }

    /// Refuses a view whose identities are not those of the binding.
    pub fn check_continuity(&self, namespace: NamespaceIdentity, root: RootIdentity) -> (
        checked: Result<(), NamespaceError>)
        ensures
            match checked {
                Ok(_) => namespace == self.bound().namespace() && root == self.bound().root(),
                Err(error) => (namespace != self.bound().namespace() || root
                    != self.bound().root()) && error@ == "client namespace binding changed"@,
            },
    {
        let binding = &self.binding;
        if namespace.mount_ns_dev != binding.mount_ns_dev || namespace.mount_ns_ino
            != binding.mount_ns_ino || namespace.process_root_dev != binding.process_root_dev
            || namespace.process_root_ino != binding.process_root_ino
            || namespace.process_root_mnt_id != binding.process_root_mnt_id || root.dev
            != binding.watched_root_dev || root.ino != binding.watched_root_ino || root.mnt_id
            != binding.watched_root_mnt_id || !same_array(&root.fs_uuid, &binding.fs_uuid)
            || !same_array(&root.subvol_uuid, &binding.subvol_uuid) {
            return Err(NamespaceError::new("client namespace binding changed"));
        }
        Ok(())
    }

    /// Refuses a buffer with an event that may have changed the way to the
    /// root.
    pub fn reject_binding_events(&self, buffer: &[u8], order: ByteOrder) -> (checked: Result<
        (),
        NamespaceError,
    >)
        ensures
            match checked {
                Ok(_) => binding_fault_from(self.watches(), buffer@, 0, order) is None,
                Err(error) => binding_fault_from(self.watches(), buffer@, 0, order) == Some(error@),
            },
    {
        let mut offset: usize = 0;
        while offset < buffer.len()
            invariant
                offset <= buffer.len(),
                binding_fault_from(self.watches(), buffer@, 0, order) == binding_fault_from(
                    self.watches(),
                    buffer@,
                    offset as int,
                    order,
                ),
            decreases buffer.len() - offset,
        {
            let (event, end): (Event, usize) = match read_event(buffer, offset, order) {
                Err(EventFault::TruncatedHeader) => {
                    return Err(NamespaceError::new("truncated inotify event"));
                },
                Err(EventFault::LengthOverflow) => {
                    return Err(NamespaceError::new("inotify event overflow"));
                },
                Err(EventFault::TruncatedName) => {
                    return Err(NamespaceError::new("truncated inotify name"));
                },
                Ok(read) => read,
            };
            if is_relevant(&self.watched_names, &event) {
                return Err(
                    NamespaceError::new("root-path binding monitor observed a relevant event"),
                );
            }
            offset = end;
        }
        Ok(())
    }
}

/// The binding of a root to the identities observed.
fn bind(
    root_path: Vec<u8>,
    namespace: NamespaceIdentity,
    root: RootIdentity,
    monitor_session_id: [u8; 16],
) -> (binding: ViewBinding)
    ensures
        binding.monitor_session_id == monitor_session_id,
        binding.root_path@ == root_path@,
        binding.namespace() == namespace,
        binding.root() == root,
{
    ViewBinding {
        monitor_session_id,
        root_path,
        fs_uuid: root.fs_uuid,
        subvol_uuid: root.subvol_uuid,
        mount_ns_dev: namespace.mount_ns_dev,
        mount_ns_ino: namespace.mount_ns_ino,
        process_root_dev: namespace.process_root_dev,
        process_root_ino: namespace.process_root_ino,
        process_root_mnt_id: namespace.process_root_mnt_id,
        watched_root_dev: root.dev,
        watched_root_ino: root.ino,
        watched_root_mnt_id: root.mnt_id,
    }
}

/// What a pending monitor waits for.
#[verifier::ext_equal]
pub struct PendingView {
    pub watches: Map<i32, Option<Seq<u8>>>,
    pub parent: Seq<u8>,
    pub name: Seq<u8>,
    pub watch: i32,
    pub namespace: NamespaceIdentity,
}

/// Whether an event is the move that publishes the destination.
pub open spec fn publishes(pending: PendingView, event: EventView) -> bool {
    event.watch == pending.watch && event.name == pending.name && event.mask & IN_MOVED_TO != 0
}

/// Whether the publishing move has been seen after the events from `at` on, or
/// why they break the pending binding. At most one such move is expected, and
/// none where `accept_move` is false.
pub open spec fn publication_from(
    pending: PendingView,
    buffer: Seq<u8>,
    at: int,
    order: ByteOrder,
    accept_move: bool,
    observed: bool,
) -> Result<bool, Seq<char>>
    decreases buffer.len() - at,
{
    if at >= buffer.len() {
        Ok(observed)
    } else {
        match event_at(buffer, at, order) {
            Err(EventFault::TruncatedHeader) => Err("truncated pending inotify event"@),
            Err(EventFault::LengthOverflow) => Err("pending inotify event overflow"@),
            Err(EventFault::TruncatedName) => Err("truncated pending inotify name"@),
            Ok(event) => if publishes(pending, event) {
                if !accept_move || observed {
                    Err("pending destination had an unexpected publication event"@)
                } else {
                    publication_from(
                        pending,
                        buffer,
                        event_end(buffer, at, order),
                        order,
                        accept_move,
                        true,
                    )
                }
            } else if relevant(pending.watches, event) {
                Err("pending root-path monitor observed an unexpected event"@)
            } else {
                publication_from(
                    pending,
                    buffer,
                    event_end(buffer, at, order),
                    order,
                    accept_move,
                    observed,
                )
            },
        }
    }
}

/// Monitors a destination until a worktree is moved to it.
#[derive(Debug)]
pub struct PendingNamespaceMonitor {
    watched_names: WatchTable,
    destination_parent: Vec<u8>,
    destination_name: Vec<u8>,
    destination_watch: i32,
    namespace: NamespaceIdentity,
}

/// Why a destination cannot be monitored.
pub open spec fn destination_fault(
    parent: Seq<u8>,
    name: Seq<u8>,
    exists: bool,
    mountinfo: Seq<u8>,
) -> Option<Seq<char>> {
    if !entry_name(name) {
        Some("invalid pending destination basename"@)
    } else if !rooted(parent) {
        Some("destination parent must be absolute"@)
    } else if exists {
        Some("pending destination already exists"@)
    } else {
        mounts_fault(mountinfo, parent)
    }
}

/// Why a publication does not complete the monitored intent.
pub open spec fn publication_fault(
    pending: PendingView,
    moved: bool,
    namespace: NamespaceIdentity,
    mountinfo: Seq<u8>,
    root: RootIdentity,
    expected_fs_uuid: [u8; 16],
    expected_subvol_uuid: [u8; 16],
) -> Option<Seq<char>> {
    let canonical_root = joined(pending.parent, pending.name);
    if !moved {
        Some("pending destination monitor did not observe the publication move"@)
    } else if namespace != pending.namespace {
        Some("namespace changed during Worktree publication"@)
    } else if mounts_fault(mountinfo, canonical_root) is Some {
        mounts_fault(mountinfo, canonical_root)
    } else if root.fs_uuid != expected_fs_uuid || root.subvol_uuid != expected_subvol_uuid {
        Some("published Worktree identity differs from the monitored intent"@)
    } else {
        None
    }
}

impl View for PendingNamespaceMonitor {
    type V = PendingView;

    closed spec fn view(&self) -> PendingView {
        PendingView {
            watches: self.watched_names@,
            parent: self.destination_parent@,
            name: self.destination_name@,
            watch: self.destination_watch,
            namespace: self.namespace,
        }
    }
}

impl PendingNamespaceMonitor {
    /// Checks that the destination can be monitored.
    pub fn check_destination(
        destination_parent: &[u8],
        destination_name: &[u8],
        exists: bool,
        mountinfo: &[u8],
    ) -> (checked: Result<(), NamespaceError>)
        ensures
            match checked {
                Ok(_) => destination_fault(
                    destination_parent@,
                    destination_name@,
                    exists,
                    mountinfo@,
                ) is None,
                Err(error) => destination_fault(
                    destination_parent@,
                    destination_name@,
                    exists,
                    mountinfo@,
                ) == Some(error@),
            },
    {
        if !is_entry_name(destination_name) {
            return Err(NamespaceError::new("invalid pending destination basename"));
        }
        if !is_rooted(destination_parent) {
            return Err(NamespaceError::new("destination parent must be absolute"));
        }
        if exists {
            return Err(NamespaceError::new("pending destination already exists"));
        }
        reject_descendant_mounts(destination_parent, mountinfo)
    }

    /// Starts monitoring once the way to the parent is watched. The watch on
    /// the parent itself is from now on for the destination's name.
    pub fn arm(
        destination_parent: Vec<u8>,
        destination_name: Vec<u8>,
        mut watched_names: WatchTable,
        destination_watch: i32,
        namespace: NamespaceIdentity,
    ) -> (pending: Self)
        ensures
            pending@ == (PendingView {
                watches: watched_names@.insert(destination_watch, Some(destination_name@)),
                parent: destination_parent@,
                name: destination_name@,
                watch: destination_watch,
                namespace,
            }),
    {
        let name = copy_bytes(&destination_name);
        watched_names.insert(destination_watch, Some(name));
        PendingNamespaceMonitor {
            watched_names,
            destination_parent,
            destination_name,
            destination_watch,
            namespace,
        }
    }

    /// Refuses a destination that appeared while the watches were set up.
    pub fn check_armed(&self, appeared: bool) -> (checked: Result<(), NamespaceError>)
        ensures
            match checked {
                Ok(_) => !appeared,
                Err(error) => appeared && error@
                    == "destination appeared while its monitor was arming"@,
            },
    {
        if appeared {
            return Err(NamespaceError::new("destination appeared while its monitor was arming"));
        }
        Ok(())
    }

    /// Goes through a buffer of events and tells whether the publishing move
    /// has been seen by its end.
    pub fn drain_expected_move(
        &self,
        buffer: &[u8],
        order: ByteOrder,
        accept_move: bool,
        already_observed: bool,
    ) -> (moved: Result<bool, NamespaceError>)
        ensures
            match moved {
                Ok(moved) => publication_from(
                    self@,
                    buffer@,
                    0,
                    order,
                    accept_move,
                    already_observed,
                ) == Ok::<bool, Seq<char>>(moved),
                Err(error) => publication_from(
                    self@,
                    buffer@,
                    0,
                    order,
                    accept_move,
                    already_observed,
                ) == Err::<bool, Seq<char>>(error@),
            },
    {
        let mut observed: bool = already_observed;
        let mut offset: usize = 0;
        while offset < buffer.len()
            invariant
                offset <= buffer.len(),
                publication_from(self@, buffer@, 0, order, accept_move, already_observed)
                    == publication_from(
                    self@,
                    buffer@,
                    offset as int,
                    order,
                    accept_move,
                    observed,
                ),
            decreases buffer.len() - offset,
        {
            let (event, end): (Event, usize) = match read_event(buffer, offset, order) {
                Err(EventFault::TruncatedHeader) => {
                    return Err(NamespaceError::new("truncated pending inotify event"));
                },
                Err(EventFault::LengthOverflow) => {
                    return Err(NamespaceError::new("pending inotify event overflow"));
                },
                Err(EventFault::TruncatedName) => {
                    return Err(NamespaceError::new("truncated pending inotify name"));
                },
                Ok(read) => read,
            };
            let expected_move: bool = event.watch == self.destination_watch && same_bytes(
                &event.name,
                &self.destination_name,
            ) && event.mask & IN_MOVED_TO != 0;
            if expected_move {
                if !accept_move || observed {
                    return Err(
                        NamespaceError::new(
                            "pending destination had an unexpected publication event",
                        ),
                    );
                }
                observed = true;
            } else if is_relevant(&self.watched_names, &event) {
                return Err(
                    NamespaceError::new("pending root-path monitor observed an unexpected event"),
                );
            }
            offset = end;
        }
        Ok(observed)
    }

    /// Turns the pending monitor into one of the published root, under a fresh
    /// session.
    pub fn complete(
        self,
        moved: bool,
        namespace: NamespaceIdentity,
        mountinfo: &[u8],
        root: RootIdentity,
        root_watch: i32,
        expected_fs_uuid: [u8; 16],
        expected_subvol_uuid: [u8; 16],
    ) -> (monitor: Result<NamespaceMonitor, NamespaceError>)
        ensures
            match monitor {
                Ok(monitor) => {
                    &&& publication_fault(
                        self@,
                        moved,
                        namespace,
                        mountinfo@,
                        root,
                        expected_fs_uuid,
                        expected_subvol_uuid,
                    ) is None
                    &&& monitor.watches() == self@.watches.insert(root_watch, None)
                    &&& monitor.root_path() == joined(self@.parent, self@.name)
                    &&& drawn(monitor.bound().monitor_session_id)
                    &&& monitor.bound().root_path@ == joined(self@.parent, self@.name)
                    &&& monitor.bound().namespace() == self@.namespace
                    &&& monitor.bound().root() == root
                },
                Err(error) => publication_fault(
                    self@,
                    moved,
                    namespace,
                    mountinfo@,
                    root,
                    expected_fs_uuid,
                    expected_subvol_uuid,
                ) == Some(error@),
            },
    {
        if !moved {
            return Err(
                NamespaceError::new(
                    "pending destination monitor did not observe the publication move",
                ),
            );
        }
        let armed = self.namespace;
        if namespace.mount_ns_dev != armed.mount_ns_dev || namespace.mount_ns_ino
            != armed.mount_ns_ino || namespace.process_root_dev != armed.process_root_dev
            || namespace.process_root_ino != armed.process_root_ino
            || namespace.process_root_mnt_id != armed.process_root_mnt_id {
            return Err(NamespaceError::new("namespace changed during Worktree publication"));
        }
        let canonical_root = join(&self.destination_parent, &self.destination_name);
        match reject_descendant_mounts(&canonical_root, mountinfo) {
            Err(error) => {
                return Err(error);
            },
            Ok(_) => {},
        }
        if !same_array(&root.fs_uuid, &expected_fs_uuid) || !same_array(
            &root.subvol_uuid,
            &expected_subvol_uuid,
        ) {
            return Err(
                NamespaceError::new(
                    "published Worktree identity differs from the monitored intent",
                ),
            );
        }
        let binding = bind(copy_bytes(&canonical_root), armed, root, random_id());
        let mut watched_names = self.watched_names;
        watched_names.insert(root_watch, None);
        Ok(NamespaceMonitor { watched_names, canonical_root, binding })
    }
}

/// Once an event that matters has been queued, no later event lets the binding
/// pass: a fault at the first event is the fault of the whole buffer.
pub proof fn law_relevant_event_is_final(
    watches: Map<i32, Option<Seq<u8>>>,
    buffer: Seq<u8>,
    order: ByteOrder,
)
    requires
        event_at(buffer, 0, order) is Ok,
        relevant(watches, event_at(buffer, 0, order)->Ok_0),
    ensures
        binding_fault_from(watches, buffer, 0, order) == Some(
            "root-path binding monitor observed a relevant event"@,
        ),
{
}

/// A publishing move is accepted at most once: after one has been observed, a
/// buffer that starts with another is refused.
pub proof fn law_publication_is_accepted_once(
    pending: PendingView,
    buffer: Seq<u8>,
    order: ByteOrder,
    accept_move: bool,
)
    requires
        event_at(buffer, 0, order) is Ok,
        publishes(pending, event_at(buffer, 0, order)->Ok_0),
    ensures
        publication_from(pending, buffer, 0, order, accept_move, true) is Err,
        publication_from(pending, buffer, 0, order, false, false) is Err,
{
}

} // verus!
