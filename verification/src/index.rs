//! The index of a snapshot: its objects and the directory entries that name
//! them, and the events that lead from one index to another.

use crate::inodes::{numbers_in_order, sorted_keys};
use crate::manager::types::ManagerError;
use crate::manifest::Reference;
use crate::ordered::{ascending, is_ascending, key_set, keys_of, lemma_ascending_unique, Key, Keyed};
use crate::text::{copy_bytes, is_text, quote, quoted, same_array, same_bytes};
use std::collections::BTreeMap;
use vstd::prelude::*;

verus! {

broadcast use vstd::std_specs::btree::group_btree_axioms;

/// The inode number of a subvolume's root directory.
pub const ROOT_INO: u64 = 256;

/// The file-type bits of a directory's mode.
pub const MODE_DIRECTORY: u32 = 0o040000;

/// An inode as a snapshot holds it.
#[derive(Clone, Copy, Debug, Eq, PartialEq)]
pub struct Object {
    pub ino: u64,
    pub generation: u64,
    pub mode: u32,
    pub nlink: u32,
    pub uid: u64,
    pub gid: u64,
    pub rdev: u64,
    pub privilege_flags: u64,
    pub security_xattr_hash: [u8; 32],
}

impl Object {
    /// Whether two objects agree in every field.
    pub fn same(&self, other: &Object) -> (same: bool)
        ensures
            same == (*self == *other),
    {
        self.ino == other.ino && self.generation == other.generation && self.mode == other.mode
            && self.nlink == other.nlink && self.uid == other.uid && self.gid == other.gid
            && self.rdev == other.rdev && self.privilege_flags == other.privilege_flags
            && same_array(&self.security_xattr_hash, &other.security_xattr_hash)
    }
}

/// Everything that a snapshot holds.
#[derive(Clone, Debug, Eq, PartialEq)]
pub struct Index {
    pub objects: BTreeMap<u64, Object>,
    /// Strictly ascending.
    pub references: Vec<Reference>,
}

/// What an index holds.
#[verifier::ext_equal]
pub struct IndexView {
    pub objects: Map<u64, Object>,
    pub references: Set<Key>,
}

impl View for Index {
    type V = IndexView;

    open spec fn view(&self) -> IndexView {
        IndexView { objects: self.objects@, references: key_set(self.references@) }
    }
}

/// The index of nothing.
pub open spec fn empty_index() -> IndexView {
    IndexView { objects: Map::empty(), references: Set::empty() }
}

/// A copy of ascending references.
pub fn copy_references(references: &Vec<Reference>) -> (copy: Vec<Reference>)
    ensures
        keys_of(copy@) == keys_of(references@),
        copy@.len() == references@.len(),
{
    let mut copy: Vec<Reference> = Vec::with_capacity(references.len());
    let mut at: usize = 0;
    while at < references.len()
        invariant
            at <= references.len(),
            copy@.len() == at,
            forall|i: int| 0 <= i < at ==> (#[trigger] copy@[i]).key() == references@[i].key(),
        decreases references.len() - at,
    {
        copy.push(references[at].duplicate());
        at += 1;
    }
    assert(keys_of(copy@) =~= keys_of(references@));
    copy
}

/// Whether two ascending vectors hold the same references.
pub fn same_references(left: &Vec<Reference>, right: &Vec<Reference>) -> (same: bool)
    requires
        ascending(keys_of(left@)),
        ascending(keys_of(right@)),
    ensures
        same == (key_set(left@) == key_set(right@)),
{
    let ghost left_keys = keys_of(left@);
    let ghost right_keys = keys_of(right@);
    proof {
        if key_set(left@) == key_set(right@) {
            lemma_ascending_unique(left_keys, right_keys);
        }
    }
    if left.len() != right.len() {
        assert(left_keys.len() != right_keys.len());
        return false;
    }
    let mut at: usize = 0;
    while at < left.len()
        invariant
            at <= left.len(),
            left.len() == right.len(),
            left_keys == keys_of(left@),
            right_keys == keys_of(right@),
            key_set(left@) == key_set(right@) ==> left_keys == right_keys,
            forall|i: int| 0 <= i < at ==> left_keys[i] == right_keys[i],
        decreases left.len() - at,
    {
        assert(left_keys[at as int] == left@[at as int].key());
        assert(right_keys[at as int] == right@[at as int].key());
        if left[at].ino != right[at].ino || left[at].parent_ino != right[at].parent_ino
            || !same_bytes(&left[at].name, &right[at].name) {
            assert(left_keys[at as int] != right_keys[at as int]);
            return false;
        }
        assert(left_keys[at as int] =~= right_keys[at as int]);
        at += 1;
    }
    assert(left_keys =~= right_keys);
    true
}

/// Whether two object maps are equal.
pub fn same_objects(left: &BTreeMap<u64, Object>, right: &BTreeMap<u64, Object>) -> (same: bool)
    ensures
        same == (left@ == right@),
{
    let left_inos = sorted_keys(left);
    let right_inos = sorted_keys(right);
    if left_inos.len() != right_inos.len() {
        return false;
    }
    let mut at: usize = 0;
    while at < left_inos.len()
        invariant
            at <= left_inos.len(),
            left_inos.len() == right_inos.len(),
            left_inos@ == numbers_in_order(left@.dom()),
            right_inos@ == numbers_in_order(right@.dom()),
            left_inos@.to_set() == left@.dom(),
            right_inos@.to_set() == right@.dom(),
            forall|i: int| 0 <= i < at ==> left_inos@[i] == right_inos@[i],
            forall|i: int| 0 <= i < at ==> left@[#[trigger] left_inos@[i]] == right@[left_inos@[i]],
        decreases left_inos.len() - at,
    {
        let ino: u64 = left_inos[at];
        assert(left_inos@.to_set().contains(left_inos@[at as int]));
        assert(right_inos@.to_set().contains(right_inos@[at as int]));
        if ino != right_inos[at] {
            assert(left@.dom() != right@.dom());
            return false;
        }
        let same: bool = match (left.get(&ino), right.get(&ino)) {
            (Some(old), Some(new)) => old.same(new),
            _ => false,
        };
        if !same {
            assert(left@[ino] != right@[ino]);
            return false;
        }
        at += 1;
    }
    proof {
        assert(left_inos@ =~= right_inos@);
        assert(left@.dom() == right@.dom());
        assert forall|ino: u64| left@.contains_key(ino) implies left@[ino] == right@[ino] by {
            assert(left_inos@.to_set().contains(ino));
            let i = choose|i: int| 0 <= i < left_inos@.len() && left_inos@[i] == ino;
            assert(left@[left_inos@[i]] == right@[left_inos@[i]]);
        }
        assert(left@ =~= right@);
    }
    true
}

impl Index {
    /// The references are strictly ascending.
    pub open spec fn well_formed(&self) -> bool {
        ascending(keys_of(self.references@))
    }

    /// Whether the references are strictly ascending.
    pub fn is_sound(&self) -> (sound: bool)
        ensures
            sound == self.well_formed(),
    {
        is_ascending(&self.references)
    }

    pub fn new() -> (index: Self)
        ensures
            index@ == empty_index(),
            index.well_formed(),
    {
        let index = Index { objects: BTreeMap::new(), references: Vec::new() };
        assert(index@ =~= empty_index());
        index
    }

    pub fn copy(&self) -> (copy: Self)
        ensures
            copy@ == self@,
            keys_of(copy.references@) == keys_of(self.references@),
            copy.references@.len() == self.references@.len(),
    {
        Index { objects: self.objects.clone(), references: copy_references(&self.references) }
    }

    /// Whether two indexes hold the same.
    pub fn same(&self, other: &Index) -> (same: bool)
        requires
            self.well_formed(),
            other.well_formed(),
        ensures
            same == (self@ == other@),
    {
        same_objects(&self.objects, &other.objects) && same_references(
            &self.references,
            &other.references,
        )
    }
}

/// What happened to a path.
#[derive(Clone, Copy, Debug, Eq, PartialEq)]
pub enum EventKind {
    PathAdded,
    PathRemoved,
    PathChanged,
    SubtreeMoved,
    DirectoryDirtyWitness,
}

/// A change between two indexes.
#[derive(Clone, Debug, Eq, PartialEq)]
pub struct Event {
    pub kind: EventKind,
    pub ino: u64,
    pub old_generation: Option<u64>,
    pub new_generation: Option<u64>,
    pub change_mask: u64,
    pub old_path: Option<Vec<u8>>,
    pub new_path: Option<Vec<u8>>,
}

/// What an event says.
#[verifier::ext_equal]
pub struct EventView {
    pub kind: EventKind,
    pub ino: u64,
    pub old_generation: Option<u64>,
    pub new_generation: Option<u64>,
    pub change_mask: u64,
    pub old_path: Option<Seq<u8>>,
    pub new_path: Option<Seq<u8>>,
}

/// The bytes of an optional path.
pub open spec fn path_view(path: Option<Vec<u8>>) -> Option<Seq<u8>> {
    match path {
        Some(path) => Some(path@),
        None => None,
    }
}

impl View for Event {
    type V = EventView;

    open spec fn view(&self) -> EventView {
        EventView {
            kind: self.kind,
            ino: self.ino,
            old_generation: self.old_generation,
            new_generation: self.new_generation,
            change_mask: self.change_mask,
            old_path: path_view(self.old_path),
            new_path: path_view(self.new_path),
        }
    }
}

/// What a sequence of events says.
pub open spec fn events_view(events: Seq<Event>) -> Seq<EventView> {
    events.map_values(|event: Event| event@)
}

/// A copy of an optional path.
pub fn copy_path(path: &Option<Vec<u8>>) -> (copy: Option<Vec<u8>>)
    ensures
        path_view(copy) == path_view(*path),
{
    match path {
        Some(path) => Some(copy_bytes(path)),
        None => None,
    }
}

impl Event {
    pub fn copy(&self) -> (copy: Self)
        ensures
            copy@ == self@,
    {
        Event {
            kind: self.kind,
            ino: self.ino,
            old_generation: self.old_generation,
            new_generation: self.new_generation,
            change_mask: self.change_mask,
            old_path: copy_path(&self.old_path),
            new_path: copy_path(&self.new_path),
        }
    }
}

/// Appends copies of events.
pub fn append_events(out: &mut Vec<Event>, events: &Vec<Event>)
    ensures
        events_view(final(out)@) == events_view(old(out)@) + events_view(events@),
{
    let ghost before = events_view(out@);
    let ghost all = events_view(events@);
    let mut at: usize = 0;
    assert(events_view(out@) =~= before + all.subrange(0, 0));
    while at < events.len()
        invariant
            at <= events.len(),
            all == events_view(events@),
            events_view(out@) == before + all.subrange(0, at as int),
        decreases events.len() - at,
    {
        let ghost now = out@;
        out.push(events[at].copy());
        assert(events_view(out@) =~= events_view(now).push(all[at as int]));
        at += 1;
        assert(events_view(out@) =~= before + all.subrange(0, at as int));
    }
    assert(all.subrange(0, at as int) =~= all);
}

/// A copy of events.
pub fn copy_events(events: &Vec<Event>) -> (copy: Vec<Event>)
    ensures
        events_view(copy@) == events_view(events@),
{
    let mut copy: Vec<Event> = Vec::with_capacity(events.len());
    append_events(&mut copy, events);
    assert(events_view(copy@) =~= events_view(events@));
    copy
}

/// The name under which a kind of event is stored.
pub open spec fn kind_text(kind: EventKind) -> Seq<char> {
    match kind {
        EventKind::PathAdded => "path-added"@,
        EventKind::PathRemoved => "path-removed"@,
        EventKind::PathChanged => "path-changed"@,
        EventKind::SubtreeMoved => "subtree-moved"@,
        EventKind::DirectoryDirtyWitness => "directory-dirty-witness"@,
    }
}

/// The name under which a kind of event is stored.
pub fn event_kind_name(kind: &EventKind) -> (name: &'static str)
    ensures
        name@ == kind_text(*kind),
{
    match kind {
        EventKind::PathAdded => "path-added",
        EventKind::PathRemoved => "path-removed",
        EventKind::PathChanged => "path-changed",
        EventKind::SubtreeMoved => "subtree-moved",
        EventKind::DirectoryDirtyWitness => "directory-dirty-witness",
    }
}

/// The kind of event that is stored under a name.
pub open spec fn kind_named(name: Seq<char>) -> Option<EventKind> {
    if name == kind_text(EventKind::PathAdded) {
        Some(EventKind::PathAdded)
    } else if name == kind_text(EventKind::PathRemoved) {
        Some(EventKind::PathRemoved)
    } else if name == kind_text(EventKind::PathChanged) {
        Some(EventKind::PathChanged)
    } else if name == kind_text(EventKind::SubtreeMoved) {
        Some(EventKind::SubtreeMoved)
    } else if name == kind_text(EventKind::DirectoryDirtyWitness) {
        Some(EventKind::DirectoryDirtyWitness)
    } else {
        None
    }
}

/// What is said of a name under which no kind of event is stored. `quoted_name`
/// is the name between quotation marks.
pub fn unknown_kind(quoted_name: &str) -> (error: ManagerError)
    ensures
        error@ == "unknown stored event kind "@ + quoted_name@,
{
    let mut text = String::new();
    text.append("unknown stored event kind ");
    text.append(quoted_name);
    assert(text@ =~= "unknown stored event kind "@ + quoted_name@);
    ManagerError::of(text)
}

/// The kind of event that is stored under a name.
pub fn parse_event_kind(kind: &str) -> (parsed: Result<EventKind, ManagerError>)
    ensures
        match kind_named(kind@) {
            Some(named) => parsed == Ok::<EventKind, ManagerError>(named),
            None => {
                &&& parsed matches Err(error)
                &&& error@ == "unknown stored event kind "@ + quoted(kind@)
            },
        },
{
    if is_text(kind, "path-added") {
        Ok(EventKind::PathAdded)
    } else if is_text(kind, "path-removed") {
        Ok(EventKind::PathRemoved)
    } else if is_text(kind, "path-changed") {
        Ok(EventKind::PathChanged)
    } else if is_text(kind, "subtree-moved") {
        Ok(EventKind::SubtreeMoved)
    } else if is_text(kind, "directory-dirty-witness") {
        Ok(EventKind::DirectoryDirtyWitness)
    } else {
        Err(unknown_kind(quote(kind).as_str()))
    }
}

/// A kind of event that was stored is read back.
pub proof fn law_event_kind_round_trip(kind: EventKind)
    ensures
        kind_named(kind_text(kind)) == Some(kind),
{
    reveal_strlit("path-added");
    reveal_strlit("path-removed");
    reveal_strlit("path-changed");
    reveal_strlit("subtree-moved");
    reveal_strlit("directory-dirty-witness");
    assert("path-added"@.len() == 10);
    assert("path-removed"@.len() == 12);
    assert("path-changed"@.len() == 12);
    assert("subtree-moved"@.len() == 13);
    assert("path-removed"@[5] == 'r');
    assert("path-changed"@[5] == 'c');
}

} // verus!
