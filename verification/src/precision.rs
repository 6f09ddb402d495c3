//! An optional journal of changes in a watched tree. It makes answers more
//! precise; nothing depends on it for being right.

use crate::bytes::{has_byte, push_bytes};
use crate::digest::{drawn, random_id};
use crate::inotify::{
    event_at, event_end, read_event, ByteOrder, EventFault, IN_ATTRIB, IN_CLOSE_WRITE, IN_CREATE,
    IN_DELETE, IN_DELETE_SELF, IN_IGNORED, IN_ISDIR, IN_MODIFY, IN_MOVED_FROM, IN_MOVED_TO,
    IN_MOVE_SELF, IN_Q_OVERFLOW, IN_UNMOUNT, LOST_WATCH,
};
use crate::manager::facade::{appends_events, gaps_guard};
use crate::manager::rows::Store;
use crate::manager::types::{
    FacadeActivation, GuardCursor, HintView, ManagerError, MutationHint,
};
use crate::names::{hyphenated, marker_name, MARKER_PREFIX};
use crate::namespace::{POLLERR, POLLNVAL};
use crate::paths::{begins_with, starts_with, SLASH};
use crate::text::{context_text, copy_bytes, in_context, same_bytes};
use std::collections::BTreeMap;
use vstd::prelude::*;

verus! {

broadcast use vstd::std_specs::btree::group_btree_axioms;

/// What is watched for in every directory.
pub const WATCH_MASK: u32 = IN_ATTRIB | IN_CREATE | IN_DELETE | IN_MODIFY | IN_CLOSE_WRITE
    | IN_MOVED_FROM | IN_MOVED_TO | IN_DELETE_SELF | IN_MOVE_SELF | IN_UNMOUNT | IN_IGNORED
    | IN_Q_OVERFLOW;

pub const POLLHUP: i16 = 0x10;

/// How often the journal is read in search of a marker.
pub const DRAIN_ROUNDS: u32 = 100;

/// Why the journal is of no use.
#[derive(Debug)]
pub struct PrecisionError {
    message: String,
}

impl View for PrecisionError {
    type V = Seq<char>;

    closed spec fn view(&self) -> Seq<char> {
        self.message@
    }
}

impl PrecisionError {
    pub fn new(message: &str) -> (error: Self)
        ensures
            error@ == message@,
    {
        PrecisionError { message: message.to_owned() }
    }

    /// Puts the cause behind the step that failed.
    pub fn context(context: &str, cause: &str) -> (error: Self)
        ensures
            error@ == in_context(context@, cause@),
    {
        PrecisionError { message: context_text(context, cause) }
    }

    /// The diagnostic text.
    pub fn message(&self) -> (text: &str)
        ensures
            text@ == self@,
    {
        self.message.as_str()
    }
}

/// A directory that is watched: one of the tree, by its path below the root,
/// or the one that markers appear in.
#[derive(Clone, Debug)]
pub enum WatchedDirectory {
    Tree(Vec<u8>),
    Marker,
}

/// What is known of a watched directory.
pub enum DirectoryView {
    Tree(Seq<u8>),
    Marker,
}

impl View for WatchedDirectory {
    type V = DirectoryView;

    open spec fn view(&self) -> DirectoryView {
        match self {
            WatchedDirectory::Tree(path) => DirectoryView::Tree(path@),
            WatchedDirectory::Marker => DirectoryView::Marker,
        }
    }
}

/// The journal of one tree.
#[derive(Debug)]
pub struct PrecisionGuard {
    root: Vec<u8>,
    marker_directory: Vec<u8>,
    directories: BTreeMap<i32, WatchedDirectory>,
    epoch: [u8; 16],
    gapped: bool,
}

/// What is known of a journal.
#[verifier::ext_equal]
pub struct GuardView {
    pub root: Seq<u8>,
    pub marker_directory: Seq<u8>,
    pub directories: Map<i32, DirectoryView>,
    pub epoch: [u8; 16],
    pub gapped: bool,
}

impl View for PrecisionGuard {
    type V = GuardView;

    closed spec fn view(&self) -> GuardView {
        GuardView {
            root: self.root@,
            marker_directory: self.marker_directory@,
            directories: self.directories@.map_values(|directory: WatchedDirectory| directory@),
            epoch: self.epoch,
            gapped: self.gapped,
        }
    }
}

/// The name below the directory.
pub open spec fn below(parent: Seq<u8>, name: Seq<u8>) -> Seq<u8> {
    if parent.len() == 0 {
        name
    } else {
        parent.push(SLASH) + name
    }
}

/// Puts the name below the directory.
pub fn join_relative(parent: &[u8], name: &[u8]) -> (path: Vec<u8>)
    ensures
        path@ == below(parent@, name@),
{
    let mut path = copy_bytes(parent);
    if path.len() > 0 {
        path.push(SLASH);
    }
    push_bytes(&mut path, name);
    assert(path@ =~= below(parent@, name@));
    path
}

/// An entry of a directory.
#[derive(Clone, Debug, Eq, PartialEq)]
pub struct TreeEntry {
    pub name: Vec<u8>,
    pub is_directory: bool,
    pub is_symlink: bool,
}

/// The directories below `relative` among the first `n` entries.
pub open spec fn children_before(relative: Seq<u8>, entries: Seq<TreeEntry>, n: int) -> Seq<Seq<u8>>
    decreases n,
{
    if n <= 0 {
        Seq::empty()
    } else {
        let earlier = children_before(relative, entries, n - 1);
        let entry = entries[n - 1];
        if entry.is_directory && !entry.is_symlink {
            earlier.push(below(relative, entry.name@))
        } else {
            earlier
        }
    }
}

/// The directories among the entries of `relative`, which are to be watched
/// too.
pub fn tree_children(relative: &[u8], entries: &Vec<TreeEntry>) -> (children: Vec<Vec<u8>>)
    ensures
        children@.map_values(|child: Vec<u8>| child@) == children_before(
            relative@,
            entries@,
            entries@.len() as int,
        ),
{
    let mut children: Vec<Vec<u8>> = Vec::new();
    let ghost paths = |child: Vec<u8>| child@;
    let mut at: usize = 0;
    assert(children@.map_values(paths) =~= Seq::<Seq<u8>>::empty());
    while at < entries.len()
        invariant
            at <= entries@.len(),
            paths == (|child: Vec<u8>| child@),
            children@.map_values(paths) == children_before(relative@, entries@, at as int),
        decreases entries.len() - at,
    {
        if entries[at].is_directory && !entries[at].is_symlink {
            let ghost earlier = children@;
            let child = join_relative(relative, &entries[at].name);
            children.push(child);
            assert(children@.map_values(paths) =~= earlier.map_values(paths).push(child@));
        }
        at += 1;
    }
    children
}

/// Checks that a path can be handed to the kernel.
pub fn check_watch_path(path: &[u8]) -> (checked: Result<(), PrecisionError>)
    ensures
        match checked {
            Ok(_) => !path@.contains(0),
            Err(error) => path@.contains(0) && error@ == "precision path contains NUL"@,
        },
{
    if has_byte(path, 0) {
        Err(PrecisionError::new("precision path contains NUL"))
    } else {
        Ok(())
    }
}

/// What a read of events gives: the changes, whether the marker went, and the
/// new directory that must be watched before the event at the place behind it
/// is looked at.
#[verifier::ext_equal]
pub struct DrainView {
    pub hints: Seq<HintView>,
    pub marker_seen: bool,
    pub scan: Option<(Seq<u8>, int)>,
}

/// What the events from `at` on add to what was read before.
pub open spec fn drained_from(
    directories: Map<i32, DirectoryView>,
    buffer: Seq<u8>,
    at: int,
    marker: Seq<u8>,
    order: ByteOrder,
    hints: Seq<HintView>,
    marker_seen: bool,
) -> Result<DrainView, Seq<char>>
    decreases buffer.len() - at,
{
    if at >= buffer.len() {
        Ok(DrainView { hints, marker_seen, scan: None })
    } else {
        let end = event_end(buffer, at, order);
        match event_at(buffer, at, order) {
            Err(EventFault::TruncatedHeader) => Err("truncated precision event"@),
            Err(EventFault::LengthOverflow) => Err("precision event length overflow"@),
            Err(EventFault::TruncatedName) => Err("truncated precision event name"@),
            Ok(event) => if event.mask & IN_Q_OVERFLOW != 0 {
                Err("precision event queue overflowed"@)
            } else if !directories.contains_key(event.watch) {
                Err("event from an unknown precision watch"@)
            } else {
                match directories[event.watch] {
                    DirectoryView::Marker => drained_from(
                        directories,
                        buffer,
                        end,
                        marker,
                        order,
                        hints,
                        marker_seen || (event.name == marker && event.mask & IN_DELETE != 0),
                    ),
                    DirectoryView::Tree(parent) => {
                        let path = below(parent, event.name);
                        if event.mask & LOST_WATCH != 0 {
                            Err("precision subtree watch was lost"@)
                        } else if event.name.len() == 0 {
                            Err("unscoped precision event"@)
                        } else if event.mask & IN_ISDIR == 0 {
                            drained_from(
                                directories,
                                buffer,
                                end,
                                marker,
                                order,
                                hints.push(HintView::Path(path)),
                                marker_seen,
                            )
                        } else if event.mask & (IN_CREATE | IN_MOVED_TO) != 0 {
                            Ok(
                                DrainView {
                                    hints: hints.push(HintView::DirectoryPrefix(path)),
                                    marker_seen,
                                    scan: Some((path, end)),
                                },
                            )
                        } else {
                            drained_from(
                                directories,
                                buffer,
                                end,
                                marker,
                                order,
                                hints.push(HintView::DirectoryPrefix(path)),
                                marker_seen,
                            )
                        }
                    },
                }
            },
        }
    }
}

/// What a read of events gives.
#[derive(Debug)]
pub struct Drain {
    pub hints: Vec<MutationHint>,
    pub marker_seen: bool,
    pub scan: Option<(Vec<u8>, usize)>,
}

/// What the hints say.
pub open spec fn hints_view(hints: Seq<MutationHint>) -> Seq<HintView> {
    hints.map_values(|hint: MutationHint| hint@)
}

impl View for Drain {
    type V = DrainView;

    open spec fn view(&self) -> DrainView {
        DrainView {
            hints: hints_view(self.hints@),
            marker_seen: self.marker_seen,
            scan: match self.scan {
                Some((path, next)) => Some((path@, next as int)),
                None => None,
            },
        }
    }
}

fn add_hint(hints: &mut Vec<MutationHint>, hint: MutationHint)
    ensures
        hints_view(final(hints)@) == hints_view(old(hints)@).push(hint@),
{
    let ghost before = hints@;
    hints.push(hint);
    assert(hints_view(hints@) =~= hints_view(before).push(hint@));
}

/// What giving the journal up does, and the diagnostic that is left.
pub open spec fn gives_up(
    before: GuardView,
    after: GuardView,
    store_before: Store,
    store_after: Store,
    activation: FacadeActivation,
    fault: Seq<char>,
    text: Seq<char>,
) -> bool {
    &&& after == GuardView { gapped: true, ..before }
    &&& exists|gapped: Result<(), ManagerError>| #[trigger]
        gaps_guard(store_before, store_after, activation, before.epoch, gapped) && text
            == match gapped {
            Ok(_) => fault,
            Err(gap) => fault + "; persist precision gap: "@ + gap@,
        }
}

/// What a round of draining does with what was read.
pub open spec fn drains(
    before: GuardView,
    after: GuardView,
    store_before: Store,
    store_after: Store,
    activation: FacadeActivation,
    read: Result<(Vec<MutationHint>, bool), PrecisionError>,
    observed_ns: i64,
    drained: Result<Option<GuardCursor>, PrecisionError>,
) -> bool {
    match read {
        Err(fault) => {
            &&& drained matches Err(error)
            &&& gives_up(
                before,
                after,
                store_before,
                store_after,
                activation,
                fault@,
                error@,
            )
        },
        Ok((hints, marker_seen)) => {
            &&& after == before
            &&& exists|appended: Result<GuardCursor, ManagerError>| #[trigger]
                appends_events(
                    store_before,
                    store_after,
                    activation,
                    before.epoch,
                    hints@,
                    observed_ns,
                    appended,
                ) && match appended {
                    Ok(cursor) => drained == Ok::<Option<GuardCursor>, PrecisionError>(
                        if marker_seen {
                            Some(cursor)
                        } else {
                            None
                        },
                    ),
                    Err(fault) => {
                        &&& drained matches Err(error)
                        &&& error@ == in_context("persist precision events"@, fault@)
                    },
                }
        },
    }
}

/// Why waiting for more events is of no use.
pub open spec fn poll_fault(round: u32, polled: Result<i16, String>) -> Option<Seq<char>> {
    match polled {
        Err(cause) => Some(in_context("poll precision guard"@, cause@)),
        Ok(revents) => if revents & (POLLERR | POLLHUP | POLLNVAL) != 0 {
            Some("precision guard descriptor failed"@)
        } else if round + 1 >= DRAIN_ROUNDS {
            Some("timed out draining precision marker"@)
        } else {
            None
        },
    }
}

impl PrecisionGuard {
    /// A journal that watches nothing yet. The tree and the directory of the
    /// markers must lie apart.
    pub fn arm(root: Vec<u8>, marker_directory: Vec<u8>, epoch: [u8; 16]) -> (guard: Result<
        Self,
        PrecisionError,
    >)
        ensures
            ({
                let overlap = begins_with(marker_directory@, root@) || begins_with(
                    root@,
                    marker_directory@,
                );
                match guard {
                    Ok(guard) => !overlap && guard@ == (GuardView {
                        root: root@,
                        marker_directory: marker_directory@,
                        directories: Map::empty(),
                        epoch,
                        gapped: false,
                    }),
                    Err(error) => overlap && error@
                        == "precision marker directory and watched root must be disjoint"@,
                }
            }),
    {
        if starts_with(&marker_directory, &root) || starts_with(&root, &marker_directory) {
            return Err(
                PrecisionError::new(
                    "precision marker directory and watched root must be disjoint",
                ),
            );
        }
        let guard = PrecisionGuard {
            root,
            marker_directory,
            directories: BTreeMap::new(),
            epoch,
            gapped: false,
        };
        assert(guard@.directories =~= Map::empty());
        Ok(guard)
    }

    /// The watched tree.
    pub fn root(&self) -> (root: &Vec<u8>)
        ensures
            root@ == self@.root,
    {
        &self.root
    }

    /// Where markers appear.
    pub fn marker_directory(&self) -> (directory: &Vec<u8>)
        ensures
            directory@ == self@.marker_directory,
    {
        &self.marker_directory
    }

    pub fn epoch(&self) -> (epoch: [u8; 16])
        ensures
            epoch == self@.epoch,
    {
        self.epoch
    }

    /// Enters the directory that a watch is on. A watch that is known already
    /// is on the new one.
    pub fn watch(&mut self, watch: i32, directory: WatchedDirectory)
        ensures
            final(self)@ == (GuardView {
                directories: old(self)@.directories.insert(watch, directory@),
                ..old(self)@
            }),
    {
        self.directories.insert(watch, directory);
        assert(self@.directories =~= old(self)@.directories.insert(watch, directory@));
    }

    /// Names the marker that certifies the journal once it is gone.
    pub fn certify(&self) -> (marker: Result<Vec<u8>, PrecisionError>)
        ensures
            match marker {
                Ok(name) => !self@.gapped && exists|id: [u8; 16]|
                    drawn(id) && name@ == MARKER_PREFIX@ + #[trigger] hyphenated(id@),
                Err(error) => self@.gapped && error@ == "precision guard is gapped"@,
            },
    {
        if self.gapped {
            return Err(PrecisionError::new("precision guard is gapped"));
        }
        let id: [u8; 16] = random_id();
        Ok(marker_name(&id))
    }

    /// Reads the events from `at` on, behind what `drain` holds, up to the end
    /// of the buffer or up to a new directory.
    pub fn read_events(
        &self,
        buffer: &[u8],
        at: usize,
        marker: &[u8],
        order: ByteOrder,
        drain: Drain,
    ) -> (drained: Result<Drain, PrecisionError>)
        requires
            at <= buffer@.len(),
        ensures
            match drained {
                Ok(drained) => drained_from(
                    self@.directories,
                    buffer@,
                    at as int,
                    marker@,
                    order,
                    drain@.hints,
                    drain@.marker_seen,
                ) == Ok::<DrainView, Seq<char>>(drained@),
                Err(error) => drained_from(
                    self@.directories,
                    buffer@,
                    at as int,
                    marker@,
                    order,
                    drain@.hints,
                    drain@.marker_seen,
                ) == Err::<DrainView, Seq<char>>(error@),
            },
    {
        let mut hints: Vec<MutationHint> = drain.hints;
        let mut marker_seen: bool = drain.marker_seen;
        let mut next: usize = at;
        while next < buffer.len()
            invariant
                next <= buffer@.len(),
                drained_from(
                    self@.directories,
                    buffer@,
                    next as int,
                    marker@,
                    order,
                    hints_view(hints@),
                    marker_seen,
                ) == drained_from(
                    self@.directories,
                    buffer@,
                    at as int,
                    marker@,
                    order,
                    drain@.hints,
                    drain@.marker_seen,
                ),
            decreases buffer.len() - next,
        {
            let (event, end) = match read_event(buffer, next, order) {
                Ok(event) => event,
                Err(EventFault::TruncatedHeader) => {
                    return Err(PrecisionError::new("truncated precision event"));
                },
                Err(EventFault::LengthOverflow) => {
                    return Err(PrecisionError::new("precision event length overflow"));
                },
                Err(EventFault::TruncatedName) => {
                    return Err(PrecisionError::new("truncated precision event name"));
                },
            };
            if event.mask & IN_Q_OVERFLOW != 0 {
                return Err(PrecisionError::new("precision event queue overflowed"));
            }
            match self.directories.get(&event.watch) {
                None => {
                    return Err(PrecisionError::new("event from an unknown precision watch"));
                },
                Some(directory) => {
                    assert(self@.directories[event.watch] == directory@);
                    match directory {
                        WatchedDirectory::Marker => {
                            if same_bytes(&event.name, marker) && event.mask & IN_DELETE != 0 {
                                marker_seen = true;
                            }
                        },
                        WatchedDirectory::Tree(parent) => {
                            if event.mask & LOST_WATCH != 0 {
                                return Err(
                                    PrecisionError::new("precision subtree watch was lost"),
                                );
                            }
                            if event.name.len() == 0 {
                                return Err(PrecisionError::new("unscoped precision event"));
                            }
                            let path = join_relative(parent, &event.name);
                            if event.mask & IN_ISDIR == 0 {
                                add_hint(&mut hints, MutationHint::Path(path));
                            } else {
                                add_hint(
                                    &mut hints,
                                    MutationHint::DirectoryPrefix(copy_bytes(&path)),
                                );
                                if event.mask & (IN_CREATE | IN_MOVED_TO) != 0 {
                                    return Ok(
                                        Drain { hints, marker_seen, scan: Some((path, end)) },
                                    );
                                }
                            }
                        },
                    }
                },
            }
            next = end;
        }
        Ok(Drain { hints, marker_seen, scan: None })
    }

    /// Gives the journal up and leaves the diagnostic.
    pub fn fail(
        &mut self,
        store: &mut Store,
        activation: &FacadeActivation,
        error: PrecisionError,
    ) -> (left: PrecisionError)
        ensures
            gives_up(
                old(self)@,
                final(self)@,
                *old(store),
                *final(store),
                *activation,
                error@,
                left@,
            ),
    {
        self.gapped = true;
        match store.gap_precision_guard(activation, self.epoch) {
            Ok(()) => error,
            Err(gap) => {
                let mut message = String::new();
                message.append(error.message());
                message.append("; persist precision gap: ");
                message.append(gap.message());
                assert(message@ =~= error@ + "; persist precision gap: "@ + gap@);
                PrecisionError { message }
            },
        }
    }

    /// Stores what one read gave. The cursor comes back once the marker was
    /// seen.
    pub fn drain_round(
        &mut self,
        store: &mut Store,
        activation: &FacadeActivation,
        read: Result<(Vec<MutationHint>, bool), PrecisionError>,
        observed_ns: i64,
    ) -> (drained: Result<Option<GuardCursor>, PrecisionError>)
        ensures
            drains(
                old(self)@,
                final(self)@,
                *old(store),
                *final(store),
                *activation,
                read,
                observed_ns,
                drained,
            ),
    {
        match read {
            Err(error) => Err(self.fail(store, activation, error)),
            Ok((hints, marker_seen)) => {
                let appended = store.append_precision_events(
                    activation,
                    self.epoch,
                    hints.as_slice(),
                    observed_ns,
                );
                assert(appends_events(
                    *old(store),
                    *store,
                    *activation,
                    old(self)@.epoch,
                    hints@,
                    observed_ns,
                    appended,
                ));
                match appended {
                    Ok(cursor) => if marker_seen {
                        Ok(Some(cursor))
                    } else {
                        Ok(None)
                    },
                    Err(error) => Err(
                        PrecisionError::context("persist precision events", error.message()),
                    ),
                }
            },
        }
    }

    /// Looks at how waiting for more events behind a round went.
    pub fn check_poll(
        &mut self,
        store: &mut Store,
        activation: &FacadeActivation,
        round: u32,
        polled: Result<i16, String>,
    ) -> (checked: Result<(), PrecisionError>)
        requires
            round < DRAIN_ROUNDS,
        ensures
            match poll_fault(round, polled) {
                Some(fault) => {
                    &&& checked matches Err(error)
                    &&& gives_up(
                        old(self)@,
                        final(self)@,
                        *old(store),
                        *final(store),
                        *activation,
                        fault,
                        error@,
                    )
                },
                None => checked is Ok && final(self)@ == old(self)@ && *final(store) == *old(
                    store,
                ),
            },
    {
        match polled {
            Err(cause) => Err(
                self.fail(
                    store,
                    activation,
                    PrecisionError::context("poll precision guard", cause.as_str()),
                ),
            ),
            Ok(revents) => if revents & (POLLERR | POLLHUP | POLLNVAL) != 0 {
                Err(
                    self.fail(
                        store,
                        activation,
                        PrecisionError::new("precision guard descriptor failed"),
                    ),
                )
            } else if round + 1 >= DRAIN_ROUNDS {
                Err(
                    self.fail(
                        store,
                        activation,
                        PrecisionError::new("timed out draining precision marker"),
                    ),
                )
            } else {
                Ok(())
            },
        }
    }
}

/// A journal that was given up certifies nothing more: it stays gapped whatever
/// is read or polled afterwards.
pub proof fn law_gap_is_final(
    before: GuardView,
    after: GuardView,
    store_before: Store,
    store_after: Store,
    activation: FacadeActivation,
    read: Result<(Vec<MutationHint>, bool), PrecisionError>,
    observed_ns: i64,
    drained: Result<Option<GuardCursor>, PrecisionError>,
)
    requires
        drains(
            before,
            after,
            store_before,
            store_after,
            activation,
            read,
            observed_ns,
            drained,
        ),
    ensures
        before.gapped ==> after.gapped,
        read is Err ==> after.gapped && drained is Err,
        drained matches Ok(Some(_)) ==> read matches Ok((_, true)),
{
}

} // verus!
