//! The continuity of a client's view, and the events that break it.

use btrfs_awacs::inotify::{
    read_event, ByteOrder, EventFault, EVENT_HEADER, IN_ATTRIB, IN_CLOSE_WRITE, IN_CREATE,
    IN_DELETE, IN_DELETE_SELF, IN_IGNORED, IN_ISDIR, IN_MODIFY, IN_MOVED_FROM, IN_MOVED_TO,
    IN_MOVE_SELF, IN_Q_OVERFLOW, IN_UNMOUNT,
};
use btrfs_awacs::manager::MutationHint;
use btrfs_awacs::namespace::{
    poll_mountinfo, reject_descendant_mounts, unescape_mountinfo, NamespaceIdentity,
    NamespaceMonitor, PendingNamespaceMonitor, RootIdentity, WatchTable, POLLERR, POLLNVAL,
    POLLPRI,
};
use btrfs_awacs::precision::{
    check_watch_path, join_relative, tree_children, Drain, PrecisionGuard, TreeEntry,
    WatchedDirectory, POLLHUP,
};

#[test]
fn mountinfo_paths_are_unescaped_as_raw_bytes() {
    assert_eq!(
        unescape_mountinfo(br"/path\040with\011bytes\134x").unwrap(),
        b"/path with\tbytes\\x"
    );
    assert!(unescape_mountinfo(br"/bad\09x").is_err());
    assert!(unescape_mountinfo(br"/bad\777").is_err());
}

#[test]
fn the_constants_are_those_of_the_system() {
    assert_eq!(IN_MODIFY, libc::IN_MODIFY);
    assert_eq!(IN_ATTRIB, libc::IN_ATTRIB);
    assert_eq!(IN_CLOSE_WRITE, libc::IN_CLOSE_WRITE);
    assert_eq!(IN_MOVED_FROM, libc::IN_MOVED_FROM);
    assert_eq!(IN_MOVED_TO, libc::IN_MOVED_TO);
    assert_eq!(IN_CREATE, libc::IN_CREATE);
    assert_eq!(IN_DELETE, libc::IN_DELETE);
    assert_eq!(IN_DELETE_SELF, libc::IN_DELETE_SELF);
    assert_eq!(IN_MOVE_SELF, libc::IN_MOVE_SELF);
    assert_eq!(IN_UNMOUNT, libc::IN_UNMOUNT);
    assert_eq!(IN_Q_OVERFLOW, libc::IN_Q_OVERFLOW);
    assert_eq!(IN_IGNORED, libc::IN_IGNORED);
    assert_eq!(IN_ISDIR, libc::IN_ISDIR);
    assert_eq!(POLLPRI, libc::POLLPRI);
    assert_eq!(POLLERR, libc::POLLERR);
    assert_eq!(POLLNVAL, libc::POLLNVAL);
    assert_eq!(POLLHUP, libc::POLLHUP);
    assert_eq!(EVENT_HEADER, 16);
}

fn mount(line: &str) -> Vec<u8> {
    format!("36 35 98:0 / {line} rw,noatime - btrfs /dev/sda rw\n").into_bytes()
}

#[test]
fn a_mount_below_the_root_is_refused() {
    assert!(reject_descendant_mounts(b"/root", &mount("/root")).is_ok());
    assert!(reject_descendant_mounts(b"/root", &mount("/rootless/x")).is_ok());
    assert!(reject_descendant_mounts(b"/root", &mount("/root/below")).is_err());
    assert!(reject_descendant_mounts(b"/with space", &mount(r"/with\040space/below")).is_err());
    assert!(reject_descendant_mounts(b"/root", b"too short\n").is_err());
}

#[test]
fn a_changed_mount_table_breaks_the_view() {
    assert!(poll_mountinfo(0).is_ok());
    for revents in [POLLPRI, POLLERR, POLLNVAL] {
        assert!(poll_mountinfo(revents).is_err());
    }
}

fn event(watch: i32, mask: u32, name: &[u8]) -> Vec<u8> {
    let padded = if name.is_empty() { 0 } else { (name.len() / 16 + 1) * 16 };
    let mut bytes = watch.to_le_bytes().to_vec();
    bytes.extend_from_slice(&mask.to_le_bytes());
    bytes.extend_from_slice(&0_u32.to_le_bytes());
    bytes.extend_from_slice(&(padded as u32).to_le_bytes());
    bytes.extend_from_slice(name);
    bytes.resize(EVENT_HEADER + padded, 0);
    bytes
}

#[test]
fn an_event_is_read_in_either_byte_order() {
    let bytes = event(7, IN_CREATE, b"name");
    let (read, next) = read_event(&bytes, 0, ByteOrder::Little).unwrap();
    assert_eq!((read.watch, read.mask, read.name.as_slice()), (7, IN_CREATE, b"name".as_slice()));
    assert_eq!(next, bytes.len());
    let mut big = 7_i32.to_be_bytes().to_vec();
    big.extend_from_slice(&IN_DELETE.to_be_bytes());
    big.extend_from_slice(&[0; 8]);
    let (read, next) = read_event(&big, 0, ByteOrder::Big).unwrap();
    assert_eq!((read.watch, read.mask, next), (7, IN_DELETE, 16));
    assert!(matches!(
        read_event(&bytes[..10], 0, ByteOrder::Little),
        Err(EventFault::TruncatedHeader)
    ));
    assert!(read_event(&bytes[..20], 0, ByteOrder::Little).is_err());
}

fn identities() -> (NamespaceIdentity, RootIdentity) {
    let namespace = NamespaceIdentity {
        mount_ns_dev: 1,
        mount_ns_ino: 2,
        process_root_dev: 3,
        process_root_ino: 4,
        process_root_mnt_id: 5,
    };
    let root = RootIdentity {
        fs_uuid: [1; 16],
        subvol_uuid: [2; 16],
        dev: 6,
        ino: 7,
        mnt_id: 8,
    };
    (namespace, root)
}

#[test]
fn a_monitor_minds_only_the_entries_of_its_chain() {
    let (namespace, root) = identities();
    let mut table = WatchTable::new();
    table.insert(1, Some(b"home".to_vec()));
    table.insert(2, None);
    let monitor = NamespaceMonitor::arm(b"/home".to_vec(), table, namespace, root).unwrap();
    assert_eq!(monitor.binding().root_path, b"/home");
    assert_eq!(monitor.binding().watched_root_ino, 7);
    let order = ByteOrder::Little;
    assert!(monitor.reject_binding_events(b"", order).is_ok());
    assert!(monitor.reject_binding_events(&event(1, IN_CREATE, b"other"), order).is_ok());
    assert!(monitor.reject_binding_events(&event(1, IN_MOVED_FROM, b"home"), order).is_err());
    assert!(monitor.reject_binding_events(&event(2, IN_MOVE_SELF, b""), order).is_err());
    assert!(monitor.reject_binding_events(&event(-1, IN_Q_OVERFLOW, b""), order).is_err());
    assert!(monitor.reject_binding_events(&event(1, IN_CREATE, b"other")[..5], order).is_err());
    assert!(monitor.check_continuity(namespace, root).is_ok());
    let moved = RootIdentity { mnt_id: 9, ..root };
    assert!(monitor.check_continuity(namespace, moved).is_err());
}

#[test]
fn a_pending_monitor_waits_for_one_move() {
    let (namespace, _) = identities();
    let pending = PendingNamespaceMonitor::arm(
        b"/trees".to_vec(),
        b"new".to_vec(),
        WatchTable::new(),
        4,
        namespace,
    );
    let order = ByteOrder::Little;
    assert!(pending.check_armed(false).is_ok());
    assert!(pending.check_armed(true).is_err());
    let arrived = event(4, IN_MOVED_TO | IN_ISDIR, b"new");
    assert!(pending.drain_expected_move(&arrived, order, true, false).unwrap());
    assert!(pending.drain_expected_move(&arrived, order, false, false).is_err());
    assert!(!pending.drain_expected_move(b"", order, true, false).unwrap());
}

fn entry(name: &[u8], is_directory: bool, is_symlink: bool) -> TreeEntry {
    TreeEntry { name: name.to_vec(), is_directory, is_symlink }
}

#[test]
fn the_guard_watches_real_directories() {
    assert_eq!(join_relative(b"", b"a"), b"a");
    assert_eq!(join_relative(b"a", b"b"), b"a/b");
    let entries =
        vec![entry(b"dir", true, false), entry(b"file", false, false), entry(b"link", true, true)];
    assert_eq!(tree_children(b"top", &entries), vec![b"top/dir".to_vec()]);
    assert!(check_watch_path(b"/ok").is_ok());
    assert!(check_watch_path(b"/nul\0").is_err());
}

fn armed() -> PrecisionGuard {
    let mut guard = PrecisionGuard::arm(b"/root".to_vec(), b"/run".to_vec(), [7; 16]).unwrap();
    guard.watch(1, WatchedDirectory::Tree(Vec::new()));
    guard.watch(2, WatchedDirectory::Tree(b"existing".to_vec()));
    guard.watch(3, WatchedDirectory::Marker);
    guard
}

fn fresh() -> Drain {
    Drain { hints: Vec::new(), marker_seen: false, scan: None }
}

#[test]
fn marker_directory_must_not_overlap_the_watched_tree() {
    assert!(PrecisionGuard::arm(b"/root".to_vec(), b"/root/runtime".to_vec(), [8; 16]).is_err());
    assert!(PrecisionGuard::arm(b"/root/tree".to_vec(), b"/root".to_vec(), [8; 16]).is_err());
    assert!(PrecisionGuard::arm(b"/root".to_vec(), b"/root-two".to_vec(), [8; 16]).is_ok());
}

#[test]
fn the_guard_records_raw_paths_and_scopes_new_directories() {
    let guard = armed();
    let mut bytes = event(2, IN_CREATE, b"file");
    bytes.extend(event(1, IN_CREATE | IN_ISDIR, b"new-dir"));
    let drained =
        guard.read_events(&bytes, 0, b"not-a-marker", ByteOrder::Little, fresh()).unwrap();
    assert!(!drained.marker_seen);
    assert!(drained.hints.contains(&MutationHint::Path(b"existing/file".to_vec())));
    assert!(drained.hints.contains(&MutationHint::DirectoryPrefix(b"new-dir".to_vec())));
    let (scanned, next) = drained.scan.unwrap();
    assert_eq!(scanned, b"new-dir");
    assert_eq!(next, bytes.len());
}

#[test]
fn a_marker_ends_the_drain_and_is_no_change_itself() {
    let guard = armed();
    let mut bytes = event(1, IN_CREATE, b"changed");
    bytes.extend(event(3, IN_CREATE, b"barrier"));
    bytes.extend(event(3, IN_DELETE, b"barrier"));
    let drained = guard.read_events(&bytes, 0, b"barrier", ByteOrder::Little, fresh()).unwrap();
    assert!(drained.marker_seen);
    assert_eq!(drained.hints, vec![MutationHint::Path(b"changed".to_vec())]);
}

#[test]
fn a_lost_watch_ends_the_guard() {
    let guard = armed();
    for mask in [IN_Q_OVERFLOW, IN_UNMOUNT, IN_IGNORED] {
        assert!(guard
            .read_events(&event(1, mask, b""), 0, b"m", ByteOrder::Little, fresh())
            .is_err());
    }
    assert!(guard
        .read_events(&event(9, IN_CREATE, b"x"), 0, b"m", ByteOrder::Little, fresh())
        .is_err());
}
