//! Paths written out from their names, and what of them is read back.

use crate::paths::{
    begins_with, joined, last_name, lemma_slash_at, lies_in, name_spans, names, remainder, rooted,
    same_path, slash_at, spans,
};
use vstd::prelude::*;

verus! {

/// The bytes of a path below the root directory: a slash before each name.
pub open spec fn below_root(parts: Seq<Seq<u8>>) -> Seq<u8>
    decreases parts.len(),
{
    if parts.len() == 0 {
        Seq::empty()
    } else {
        seq![0x2fu8] + parts[0] + below_root(parts.skip(1))
    }
}

/// Whether each of the parts is a name: it has bytes, no slash is among them, and it is
/// not a single dot.
pub open spec fn are_names(parts: Seq<Seq<u8>>) -> bool {
    forall|i: int|
        0 <= i < parts.len() ==> (#[trigger] parts[i]).len() > 0 && !parts[i].contains(0x2f)
            && parts[i] != seq![0x2eu8]
}

/// Whether the first sequence begins with the second.
pub open spec fn starts_as(whole: Seq<Seq<u8>>, start: Seq<Seq<u8>>) -> bool {
    start.len() <= whole.len() && whole.take(start.len() as int) == start
}

proof fn lemma_parts(front: Seq<u8>, parts: Seq<Seq<u8>>, path: Seq<u8>)
    requires
        parts.len() > 0,
        are_names(parts),
        path == front + below_root(parts),
    ensures
        ({
            let found = spans(path, front.len() as int + 1, false);
            &&& found.len() == parts.len()
            &&& forall|i: int|
                0 <= i < found.len() ==> 0 <= (#[trigger] found[i]).0 <= found[i].1 <= path.len()
                    && path.subrange(found[i].0, found[i].1) == parts[i]
            &&& found[0].0 == front.len() + 1
            &&& found.last().1 == path.len()
        }),
    decreases parts.len(),
{
    let from = front.len() + 1;
    let name = parts[0];
    let rest = parts.skip(1);
    let end = from + name.len();
    assert(name.len() > 0);
    assert(path =~= front + seq![0x2fu8] + name + below_root(rest));
    assert(path.len() == end + below_root(rest).len());
    assert(path.subrange(from as int, end as int) =~= name);
    assert forall|i: int| from <= i < end implies path[i] != 0x2f by {
        assert(path[i] == name[i - from]);
        assert(name.contains(name[i - from]));
    }
    lemma_slash_at(path, from as int);
    let cut = slash_at(path, from as int);
    if rest.len() > 0 {
        assert(below_root(rest)[0] == 0x2f);
        assert(path[end as int] == 0x2f);
    } else {
        assert(end == path.len());
    }
    assert(cut == end);
    if name.len() == 1 && path[from as int] == 0x2e {
        assert(name =~= seq![0x2eu8]);
    }
    let found = spans(path, from as int, false);
    if rest.len() > 0 {
        let further = front + seq![0x2fu8] + name;
        assert(path =~= further + below_root(rest));
        assert forall|i: int| 0 <= i < rest.len() implies (#[trigger] rest[i]).len() > 0
            && !rest[i].contains(0x2f) && rest[i] != seq![0x2eu8] by {
            assert(rest[i] == parts[i + 1]);
        }
        lemma_parts(further, rest, path);
        let later = spans(path, end as int + 1, false);
        assert(found =~= seq![(from as int, end as int)] + later);
        assert forall|i: int| 0 <= i < found.len() implies 0 <= (#[trigger] found[i]).0
            <= found[i].1 <= path.len() && path.subrange(found[i].0, found[i].1) == parts[i] by {
            if i > 0 {
                assert(found[i] == later[i - 1]);
                assert(parts[i] == rest[i - 1]);
            }
        }
        assert(found.last() == later.last());
    } else {
        assert(found =~= seq![(from as int, end as int)]);
    }
}

/// A path that was written out of names below the root directory has just these names.
pub proof fn law_names_are_read_back(parts: Seq<Seq<u8>>)
    requires
        parts.len() > 0,
        are_names(parts),
    ensures
        rooted(below_root(parts)),
        names(below_root(parts)) == parts,
{
    let path = below_root(parts);
    assert(path =~= Seq::<u8>::empty() + path);
    lemma_parts(Seq::empty(), parts, path);
    assert(path[0] == 0x2f);
    assert(slash_at(path, 0) == 0);
    assert(name_spans(path) == spans(path, 1, false));
    assert(names(path) =~= parts);
}

/// The root directory has no name.
pub proof fn law_root_has_no_name()
    ensures
        rooted(seq![0x2fu8]),
        names(seq![0x2fu8]).len() == 0,
{
    let path = seq![0x2fu8];
    assert(slash_at(path, 0) == 0);
    assert(spans(path, 1, false).len() == 0);
}

/// One path lies at or below another exactly where its names begin with those of the
/// other: by whole names, not by bytes. Two paths are the same where their names are,
/// and one lies directly in the other where it has one name more.
pub proof fn law_paths_are_compared_by_names(one: Seq<Seq<u8>>, other: Seq<Seq<u8>>)
    requires
        one.len() > 0,
        other.len() > 0,
        are_names(one),
        are_names(other),
    ensures
        begins_with(below_root(one), below_root(other)) <==> starts_as(one, other),
        same_path(below_root(one), below_root(other)) <==> one == other,
        lies_in(below_root(one), below_root(other)) <==> one.drop_last() == other,
        begins_with(below_root(one), seq![0x2fu8]),
        last_name(below_root(one)) matches Some(last) ==> last == one.last(),
        last_name(below_root(one)) is None <==> one.last() == seq![0x2eu8, 0x2eu8],
{
    law_names_are_read_back(one);
    law_names_are_read_back(other);
    law_root_has_no_name();
    assert(one.take(other.len() as int) =~= one.subrange(0, other.len() as int));
    assert(one.subrange(0, 0) =~= names(seq![0x2fu8]));
    assert(one.last() != seq![0x2eu8]);
}

/// What remains of a path behind one that it begins with are the names behind it, as
/// they stand in the path.
pub proof fn law_remainder_is_what_is_behind(base: Seq<Seq<u8>>, rest: Seq<Seq<u8>>)
    requires
        base.len() > 0,
        rest.len() > 0,
        are_names(base),
        are_names(rest),
    ensures
        begins_with(below_root(base + rest), below_root(base)),
        below_root(base + rest) == below_root(base) + below_root(rest),
        remainder(below_root(base + rest), below_root(base)) == below_root(rest).skip(1),
        remainder(below_root(base), below_root(base)).len() == 0,
{
    let all = base + rest;
    assert forall|i: int| 0 <= i < all.len() implies (#[trigger] all[i]).len() > 0
        && !all[i].contains(0x2f) && all[i] != seq![0x2eu8] by {
        if i < base.len() {
            assert(all[i] == base[i]);
        } else {
            assert(all[i] == rest[i - base.len()]);
        }
    }
    lemma_joined(base, rest);
    law_names_are_read_back(all);
    law_names_are_read_back(base);
    assert(all.take(base.len() as int) =~= base);
    assert(all.subrange(0, base.len() as int) =~= base);
    let path = below_root(all);
    let front = below_root(base);
    assert(path =~= Seq::<u8>::empty() + path);
    lemma_parts(Seq::empty(), all, path);
    assert(path[0] == 0x2f);
    assert(slash_at(path, 0) == 0);
    assert(name_spans(path) == spans(path, 1, false));
    lemma_tail(Seq::empty(), base, rest, path);
    assert(names(front).len() == name_spans(front).len());
    assert(names(path).len() == name_spans(path).len());
    assert(path.subrange(front.len() as int + 1, path.len() as int) =~= below_root(rest).skip(1));
}

/// A name that is joined to a directory becomes its last name.
pub proof fn law_joined_name_is_last(parts: Seq<Seq<u8>>, name: Seq<u8>)
    requires
        are_names(parts),
        are_names(seq![name]),
    ensures
        parts.len() > 0 ==> joined(below_root(parts), name) == below_root(parts.push(name)),
        joined(seq![0x2fu8], name) == below_root(seq![name]),
{
    assert(seq![name][0] == name);
    assert(name[0] != 0x2f) by {
        assert(name.contains(name[0]));
    }
    reveal_with_fuel(below_root, 2);
    assert(seq![name].skip(1).len() == 0);
    assert(below_root(seq![name]) =~= seq![0x2fu8] + name);
    assert(joined(seq![0x2fu8], name) =~= below_root(seq![name]));
    if parts.len() > 0 {
        lemma_joined(parts, seq![name]);
        assert(parts + seq![name] =~= parts.push(name));
        lemma_end(parts);
        assert(joined(below_root(parts), name) =~= below_root(parts.push(name)));
    }
}

proof fn lemma_end(parts: Seq<Seq<u8>>)
    requires
        are_names(parts),
        parts.len() > 0,
    ensures
        below_root(parts).len() > 0,
        below_root(parts).last() != 0x2f,
{
    let front = parts.drop_last();
    let last = parts.last();
    assert(parts =~= front + seq![last]);
    lemma_joined(front, seq![last]);
    reveal_with_fuel(below_root, 2);
    assert(seq![last].skip(1).len() == 0);
    assert(seq![last][0] == last);
    assert(below_root(seq![last]) =~= seq![0x2fu8] + last);
    assert(last.len() > 0);
    assert(below_root(parts).last() == last.last());
    assert(last.contains(last.last()));
}

proof fn lemma_joined(base: Seq<Seq<u8>>, rest: Seq<Seq<u8>>)
    ensures
        below_root(base + rest) == below_root(base) + below_root(rest),
    decreases base.len(),
{
    let all = base + rest;
    if base.len() > 0 {
        lemma_joined(base.skip(1), rest);
        assert(all.skip(1) =~= base.skip(1) + rest);
        assert(all[0] == base[0]);
        assert(below_root(all) =~= below_root(base) + below_root(rest));
    } else {
        assert(all =~= rest);
        assert(below_root(all) =~= below_root(base) + below_root(rest));
    }
}

proof fn lemma_tail(front: Seq<u8>, base: Seq<Seq<u8>>, rest: Seq<Seq<u8>>, path: Seq<u8>)
    requires
        base.len() > 0,
        rest.len() > 0,
        are_names(base + rest),
        path == front + below_root(base + rest),
    ensures
        spans(path, front.len() as int + 1, false).len() == base.len() + rest.len(),
        spans(path, front.len() as int + 1, false)[base.len() as int].0 == front.len() + below_root(
            base,
        ).len() + 1,
    decreases base.len(),
{
    let all = base + rest;
    lemma_parts(front, all, path);
    let from = front.len() + 1;
    let name = all[0];
    assert(name == base[0]);
    let later = all.skip(1);
    let end = from + name.len();
    assert(path =~= front + seq![0x2fu8] + name + below_root(later));
    assert(below_root(later)[0] == 0x2f);
    assert(path[end as int] == 0x2f);
    assert(path.subrange(from as int, end as int) =~= name);
    assert forall|i: int| from <= i < end implies path[i] != 0x2f by {
        assert(path[i] == name[i - from]);
        assert(name.contains(name[i - from]));
    }
    lemma_slash_at(path, from as int);
    assert(slash_at(path, from as int) == end);
    if name.len() == 1 && path[from as int] == 0x2e {
        assert(name =~= seq![0x2eu8]);
    }
    let found = spans(path, from as int, false);
    let further = front + seq![0x2fu8] + name;
    assert(further.len() == end);
    assert(found == seq![(from as int, end as int)] + spans(path, end as int + 1, false));
    assert(path =~= further + below_root(later));
    assert forall|i: int| 0 <= i < later.len() implies (#[trigger] later[i]).len() > 0
        && !later[i].contains(0x2f) && later[i] != seq![0x2eu8] by {
        assert(later[i] == all[i + 1]);
    }
    if base.len() == 1 {
        assert(later =~= rest);
        lemma_parts(further, rest, path);
        assert(base.skip(1).len() == 0);
        assert(below_root(base).len() == 1 + name.len());
    } else {
        assert(later =~= base.skip(1) + rest);
        lemma_tail(further, base.skip(1), rest, path);
        assert(below_root(base).len() == 1 + name.len() + below_root(base.skip(1)).len());
    }
}

} // verus!
