//! Change tracking for Btrfs subvolumes: manifest parsing, namespace
//! continuity, leased snapshot scans, and the manager's bookkeeping, with every
//! decision stated as a contract and proved.

pub mod anchors;
pub mod bytes;
pub mod crc32c;
pub mod digest;
pub mod encoding;
pub mod index;
pub mod inodes;
pub mod inotify;
pub mod journals;
pub mod locations;
pub mod manager;
pub mod manifest;
pub mod manifest_v2;
pub mod mountinfo;
pub mod names;
pub mod namespace;
pub mod ordered;
pub mod paths;
pub mod precision;
pub mod scan;
pub mod scan_facade;
pub mod service;
pub mod sessions;
pub mod spelling;
pub mod streams;
pub mod text;
pub mod watching;

#[allow(unused_imports)]
use vstd::prelude::*;
