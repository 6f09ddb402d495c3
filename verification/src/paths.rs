//! Unix paths as raw bytes, compared component by component.
//!
//! A path is rooted when it starts with a slash. Its names are the segments
//! between slashes that are neither empty nor a single dot; a single dot counts
//! only as the first segment of a path that is not rooted.

use crate::bytes::{get_range, push_bytes};
use crate::text::{copy_bytes, same_bytes};
use vstd::prelude::*;

verus! {

/// The byte between the segments of a path.
pub const SLASH: u8 = 47;

/// The byte of the segment that stands for the same directory.
pub const DOT: u8 = 46;

/// The index of the first slash at or behind `from`, or the length.
pub open spec fn slash_at(path: Seq<u8>, from: int) -> int
    decreases path.len() - from,
{
    if from < 0 || from >= path.len() {
        path.len() as int
    } else if path[from] == SLASH {
        from
    } else {
        slash_at(path, from + 1)
    }
}

/// The start and the end of every name from `from` on. A single dot counts as
/// the first segment where `dot_counts` says so.
pub open spec fn spans(path: Seq<u8>, from: int, dot_counts: bool) -> Seq<(int, int)>
    decreases path.len() - from,
{
    if from < 0 || from >= path.len() {
        Seq::empty()
    } else {
        let cut = slash_at(path, from);
        let rest = if from <= cut < path.len() {
            spans(path, cut + 1, false)
        } else {
            Seq::empty()
        };
        if cut == from || (cut == from + 1 && path[from] == DOT && !dot_counts) {
            rest
        } else {
            seq![(from, cut)] + rest
        }
    }
}

/// Whether a path starts at the root directory.
pub open spec fn rooted(path: Seq<u8>) -> bool {
    path.len() > 0 && path[0] == SLASH
}

/// The start and the end of every name of a path.
pub open spec fn name_spans(path: Seq<u8>) -> Seq<(int, int)> {
    spans(path, 0, !rooted(path))
}

/// The names of a path.
pub open spec fn names(path: Seq<u8>) -> Seq<Seq<u8>> {
    name_spans(path).map_values(|span: (int, int)| path.subrange(span.0, span.1))
}

/// Whether two paths have the same components.
pub open spec fn same_path(left: Seq<u8>, right: Seq<u8>) -> bool {
    rooted(left) == rooted(right) && names(left) == names(right)
}

/// Whether the components of `base` are the first components of `path`.
pub open spec fn begins_with(path: Seq<u8>, base: Seq<u8>) -> bool {
    &&& rooted(base) ==> rooted(path)
    &&& names(base).len() > 0 ==> rooted(base) == rooted(path)
    &&& names(base).len() <= names(path).len()
    &&& names(path).subrange(0, names(base).len() as int) == names(base)
}

pub proof fn lemma_slash_at(path: Seq<u8>, from: int)
    requires
        0 <= from <= path.len(),
    ensures
        from <= slash_at(path, from) <= path.len(),
        forall|i: int| from <= i < slash_at(path, from) ==> path[i] != SLASH,
        slash_at(path, from) < path.len() ==> path[slash_at(path, from)] == SLASH,
    decreases path.len() - from,
{
    if from < path.len() && path[from] != SLASH {
        lemma_slash_at(path, from + 1);
    }
}

/// Every span lies within the path, in order.
pub proof fn lemma_spans_bounded(path: Seq<u8>, from: int, dot_counts: bool)
    requires
        0 <= from,
    ensures
        forall|i: int|
            0 <= i < spans(path, from, dot_counts).len() ==> from <= (#[trigger] spans(
                path,
                from,
                dot_counts,
            )[i]).0 < spans(path, from, dot_counts)[i].1 <= path.len(),
    decreases path.len() - from,
{
    if from < path.len() {
        lemma_slash_at(path, from);
        let cut = slash_at(path, from);
        let all = spans(path, from, dot_counts);
        let rest = if cut < path.len() {
            spans(path, cut + 1, false)
        } else {
            Seq::empty()
        };
        if cut < path.len() {
            lemma_spans_bounded(path, cut + 1, false);
        }
        assert(all =~= rest || all =~= seq![(from, cut)] + rest);
        assert forall|i: int| 0 <= i < all.len() implies from <= (#[trigger] all[i]).0 < all[i].1
            <= path.len() by {
            if all =~= rest {
                assert(all[i] == rest[i]);
            } else if i > 0 {
                assert(all[i] == rest[i - 1]);
            }
        }
    }
}

fn find_slash(path: &[u8], from: usize) -> (at: usize)
    requires
        from <= path@.len(),
    ensures
        at == slash_at(path@, from as int),
        from <= at <= path@.len(),
{
    let mut at: usize = from;
    while at < path.len()
        invariant
            from <= at <= path.len(),
            slash_at(path@, from as int) == slash_at(path@, at as int),
        decreases path.len() - at,
    {
        if path[at] == SLASH {
            return at;
        }
        at += 1;
    }
    at
}

/// The start and the end of every name, as read.
pub open spec fn spans_view(read: Seq<(usize, usize)>) -> Seq<(int, int)> {
    read.map_values(|span: (usize, usize)| (span.0 as int, span.1 as int))
}

/// Finds the start and the end of every name of a path.
pub fn find_spans(path: &[u8]) -> (found: Vec<(usize, usize)>)
    ensures
        spans_view(found@) == name_spans(path@),
        forall|i: int|
            0 <= i < found@.len() ==> (#[trigger] found@[i]).0 < found@[i].1 <= path@.len(),
{
    let mut found: Vec<(usize, usize)> = Vec::new();
    let mut dot_counts: bool = !(path.len() > 0 && path[0] == SLASH);
    let mut from: usize = 0;
    assert(spans_view(found@) + spans(path@, 0, dot_counts) =~= name_spans(path@));
    while from < path.len()
        invariant
            from <= path.len() + 1,
            spans_view(found@) + spans(path@, from as int, dot_counts) == name_spans(path@),
            forall|i: int|
                0 <= i < found@.len() ==> (#[trigger] found@[i]).0 < found@[i].1 <= path@.len(),
        decreases path.len() + 1 - from,
    {
        let cut: usize = find_slash(path, from);
        let ghost before = found@;
        let ghost rest = if cut < path@.len() {
            spans(path@, cut + 1, false)
        } else {
            Seq::empty()
        };
        if cut == from || (cut - from == 1 && path[from] == DOT && !dot_counts) {
        } else {
            found.push((from, cut));
            assert(spans_view(found@) =~= spans_view(before).push((from as int, cut as int)));
        }
        assert(spans_view(found@) + rest =~= spans_view(before) + spans(
            path@,
            from as int,
            dot_counts,
        ));
        dot_counts = false;
        if cut == path.len() {
            assert(spans_view(found@) + rest =~= spans_view(found@));
            return found;
        }
        from = cut + 1;
    }
    assert(spans_view(found@) + spans(path@, from as int, dot_counts) =~= spans_view(found@));
    found
}

/// Whether the names in two spans are equal.
fn same_span(left: &[u8], left_span: (usize, usize), right: &[u8], right_span: (usize, usize)) -> (
    same: bool)
    requires
        left_span.0 <= left_span.1 <= left@.len(),
        right_span.0 <= right_span.1 <= right@.len(),
    ensures
        same == (left@.subrange(left_span.0 as int, left_span.1 as int) == right@.subrange(
            right_span.0 as int,
            right_span.1 as int,
        )),
{
    let left_name = get_range(left, left_span.0, left_span.1);
    let right_name = get_range(right, right_span.0, right_span.1);
    same_bytes(&left_name, &right_name)
}

/// Whether a path starts at the root directory.
pub fn is_rooted(path: &[u8]) -> (root: bool)
    ensures
        root == rooted(path@),
{
    path.len() > 0 && path[0] == SLASH
}

/// Whether the components of `base` are the first components of `path`.
pub fn starts_with(path: &[u8], base: &[u8]) -> (begins: bool)
    ensures
        begins == begins_with(path@, base@),
{
    let path_spans = find_spans(path);
    let base_spans = find_spans(base);
    let ghost path_names = names(path@);
    let ghost base_names = names(base@);
    assert(path_names.len() == path_spans@.len());
    assert(base_names.len() == base_spans@.len());
    if is_rooted(base) && !is_rooted(path) {
        return false;
    }
    if base_spans.len() > 0 && is_rooted(base) != is_rooted(path) {
        return false;
    }
    if base_spans.len() > path_spans.len() {
        return false;
    }
    let mut at: usize = 0;
    while at < base_spans.len()
        invariant
            at <= base_spans.len() <= path_spans.len(),
            path_names == names(path@),
            base_names == names(base@),
            spans_view(path_spans@) == name_spans(path@),
            spans_view(base_spans@) == name_spans(base@),
            forall|i: int|
                0 <= i < path_spans@.len() ==> (#[trigger] path_spans@[i]).0 < path_spans@[i].1
                    <= path@.len(),
            forall|i: int|
                0 <= i < base_spans@.len() ==> (#[trigger] base_spans@[i]).0 < base_spans@[i].1
                    <= base@.len(),
            forall|i: int| 0 <= i < at ==> path_names[i] == base_names[i],
        decreases base_spans.len() - at,
    {
        assert(name_spans(path@)[at as int] == spans_view(path_spans@)[at as int]);
        assert(name_spans(base@)[at as int] == spans_view(base_spans@)[at as int]);
        if !same_span(path, path_spans[at], base, base_spans[at]) {
            proof {
                assert(path_names[at as int] != base_names[at as int]);
                assert(path_names.subrange(0, base_names.len() as int)[at as int]
                    != base_names[at as int]);
            }
            return false;
        }
        at += 1;
    }
    assert(path_names.subrange(0, base_names.len() as int) =~= base_names);
    true
}

/// Whether two paths have the same components.
pub fn equal_paths(left: &[u8], right: &[u8]) -> (same: bool)
    ensures
        same == same_path(left@, right@),
{
    let left_spans = find_spans(left);
    let right_spans = find_spans(right);
    assert(names(left@).len() == left_spans@.len());
    assert(names(right@).len() == right_spans@.len());
    if left_spans.len() != right_spans.len() || is_rooted(left) != is_rooted(right) {
        return false;
    }
    let begins: bool = starts_with(left, right);
    proof {
        if begins {
            assert(names(left@).subrange(0, names(right@).len() as int) =~= names(left@));
        } else if names(left@) == names(right@) {
            assert(names(left@).subrange(0, names(right@).len() as int) =~= names(right@));
        }
    }
    begins
}

/// The bytes of `path` behind `base`: from the next name to the end of the
/// last one.
pub open spec fn remainder(path: Seq<u8>, base: Seq<u8>) -> Seq<u8> {
    let all = name_spans(path);
    let skipped = name_spans(base).len() as int;
    if skipped >= all.len() {
        Seq::empty()
    } else {
        path.subrange(all[skipped].0, all.last().1)
    }
}

/// The bytes of `path` behind `base`, where `base` begins it.
pub fn strip_base(path: &[u8], base: &[u8]) -> (rest: Option<Vec<u8>>)
    ensures
        match rest {
            Some(rest) => begins_with(path@, base@) && rest@ == remainder(path@, base@),
            None => !begins_with(path@, base@),
        },
{
    if !starts_with(path, base) {
        return None;
    }
    let all = find_spans(path);
    let skipped: usize = find_spans(base).len();
    assert(name_spans(base@).len() == skipped);
    assert(name_spans(path@).len() == all@.len());
    if skipped >= all.len() {
        return Some(Vec::new());
    }
    let start: usize = all[skipped].0;
    let end: usize = all[all.len() - 1].1;
    proof {
        assert(name_spans(path@)[skipped as int] == spans_view(all@)[skipped as int]);
        assert(name_spans(path@).last() == spans_view(all@).last());
        lemma_spans_ordered(path@, 0, !rooted(path@), skipped as int, all@.len() - 1);
    }
    Some(get_range(path, start, end))
}

/// A later span starts behind the end of an earlier one.
pub proof fn lemma_spans_ordered(path: Seq<u8>, from: int, dot_counts: bool, i: int, j: int)
    requires
        0 <= from,
        0 <= i <= j < spans(path, from, dot_counts).len(),
    ensures
        spans(path, from, dot_counts)[i].0 <= spans(path, from, dot_counts)[j].0,
        spans(path, from, dot_counts)[i].1 <= spans(path, from, dot_counts)[j].1,
        spans(path, from, dot_counts)[i].0 < spans(path, from, dot_counts)[i].1,
    decreases path.len() - from,
{
    lemma_spans_bounded(path, from, dot_counts);
    if from < path.len() {
        lemma_slash_at(path, from);
        let cut = slash_at(path, from);
        if cut < path.len() {
            lemma_spans_bounded(path, cut + 1, false);
            let rest = spans(path, cut + 1, false);
            if cut == from || (cut == from + 1 && path[from] == DOT && !dot_counts) {
                lemma_spans_ordered(path, cut + 1, false, i, j);
            } else {
                let all = spans(path, from, dot_counts);
                assert(all =~= seq![(from, cut)] + rest);
                if i > 0 {
                    lemma_spans_ordered(path, cut + 1, false, i - 1, j - 1);
                } else if j > 0 {
                    assert(all[j] == rest[j - 1]);
                }
            }
        }
    }
}

/// The last name of a path, unless it is a single or a double dot.
pub open spec fn last_name(path: Seq<u8>) -> Option<Seq<u8>> {
    if names(path).len() == 0 || names(path).last() == seq![DOT] || names(path).last() == seq![
        DOT,
        DOT,
    ] {
        None
    } else {
        Some(names(path).last())
    }
}

/// The last name of a path, unless it is a single or a double dot.
pub fn file_name(path: &[u8]) -> (name: Option<Vec<u8>>)
    ensures
        match name {
            Some(name) => last_name(path@) == Some(name@),
            None => last_name(path@) is None,
        },
{
    let all = find_spans(path);
    assert(names(path@).len() == all@.len());
    if all.len() == 0 {
        return None;
    }
    let span: (usize, usize) = all[all.len() - 1];
    assert(name_spans(path@).last() == spans_view(all@).last());
    let name = get_range(path, span.0, span.1);
    assert(names(path@).last() == name@);
    if name.len() == 1 && name[0] == DOT {
        assert(name@ =~= seq![DOT]);
        return None;
    }
    if name.len() == 2 && name[0] == DOT && name[1] == DOT {
        assert(name@ =~= seq![DOT, DOT]);
        return None;
    }
    proof {
        if name@ == seq![DOT] || name@ == seq![DOT, DOT] {
            assert(name@[0] == DOT);
            assert(name@.len() == 2 ==> name@[1] == DOT);
        }
    }
    Some(name)
}

/// Whether `path` has a last component and lies directly in `directory`.
pub open spec fn lies_in(path: Seq<u8>, directory: Seq<u8>) -> bool {
    &&& names(path).len() > 0
    &&& rooted(path) == rooted(directory)
    &&& names(path).drop_last() == names(directory)
}

/// Whether `path` has a last component and lies directly in `directory`.
pub fn parent_is(path: &[u8], directory: &[u8]) -> (inside: bool)
    ensures
        inside == lies_in(path@, directory@),
{
    let path_spans = find_spans(path);
    let directory_spans = find_spans(directory);
    assert(names(path@).len() == path_spans@.len());
    assert(names(directory@).len() == directory_spans@.len());
    if path_spans.len() == 0 || directory_spans.len() != path_spans.len() - 1 || is_rooted(path)
        != is_rooted(directory) {
        return false;
    }
    let begins: bool = starts_with(path, directory);
    proof {
        let kept = names(path@).subrange(0, names(directory@).len() as int);
        assert(kept =~= names(path@).drop_last());
    }
    begins
}

/// `parent` and `name` with one slash between them.
pub open spec fn joined(parent: Seq<u8>, name: Seq<u8>) -> Seq<u8> {
    if rooted(name) {
        name
    } else if parent.len() > 0 && parent.last() != SLASH {
        parent.push(SLASH) + name
    } else {
        parent + name
    }
}

/// Appends `name` to the directory `parent`; a rooted `name` replaces it.
pub fn join(parent: &[u8], name: &[u8]) -> (path: Vec<u8>)
    ensures
        path@ == joined(parent@, name@),
{
    if is_rooted(name) {
        return copy_bytes(name);
    }
    let mut path = copy_bytes(parent);
    if path.len() > 0 && path[path.len() - 1] != SLASH {
        path.push(SLASH);
    }
    push_bytes(&mut path, name);
    path
}

/// Beginning with a path is reflexive and transitive, and two paths that begin
/// with each other are the same path.
pub proof fn law_begins_with_orders_paths(a: Seq<u8>, b: Seq<u8>, c: Seq<u8>)
    ensures
        begins_with(a, a),
        begins_with(a, b) && begins_with(b, c) ==> begins_with(a, c),
        begins_with(a, b) && begins_with(b, a) ==> same_path(a, b),
{
    assert(names(a).subrange(0, names(a).len() as int) =~= names(a));
    if begins_with(a, b) && begins_with(b, c) {
        assert(names(a).subrange(0, names(c).len() as int) =~= names(a).subrange(
            0,
            names(b).len() as int,
        ).subrange(0, names(c).len() as int));
    }
    if begins_with(a, b) && begins_with(b, a) {
        assert(names(a).subrange(0, names(b).len() as int) =~= names(a));
    }
}

} // verus!
