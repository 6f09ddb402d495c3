//! What the monitors of a view see of mounts and of the way to the root.

use crate::inotify::{ByteOrder, EventView};
use crate::journals::{
    all_written, lemma_all_written, lemma_masks, lemma_written, writable, written, Happening,
};
use crate::locations::{are_names, below_root, law_joined_name_is_last, law_names_are_read_back};
use crate::mountinfo::{
    escape, escape_byte, field_from, law_unescape_inverts_escape, line_fault, mounts_fault,
    mounts_fault_from, next_at, strictly_below,
};
use crate::namespace::{
    binding_fault_from, chain_from, component_chain, destination_fault, dots, mounts_changed,
    publication_fault, publication_from, publishes, relevant, NamespaceIdentity, PendingView,
    RootIdentity, StepView, ViewBinding, IN_BINDING_MASK,
};
use vstd::prelude::*;

verus! {

/// A line of the kernel's list of mounts: four fields, the mountpoint, and the rest.
#[verifier::ext_equal]
pub struct Mount {
    pub fields: [Seq<u8>; 4],
    pub mountpoint: Seq<u8>,
    pub rest: Seq<u8>,
}

/// Whether the kernel can write the mount: its fields hold neither spaces nor line ends.
pub open spec fn plain(mount: Mount) -> bool {
    &&& forall|i: int|
        0 <= i < 4 ==> !(#[trigger] mount.fields[i]).contains(32) && !mount.fields[i].contains(10)
    &&& !mount.rest.contains(10)
}

/// The bytes of a mount.
pub open spec fn mount_line(mount: Mount) -> Seq<u8> {
    mount.fields[0] + seq![32u8] + mount.fields[1] + seq![32u8] + mount.fields[2] + seq![32u8]
        + mount.fields[3] + seq![32u8] + escape(mount.mountpoint) + seq![32u8] + mount.rest
}

/// The bytes of mounts, a line each.
pub open spec fn mount_table(mounts: Seq<Mount>) -> Seq<u8>
    decreases mounts.len(),
{
    if mounts.len() == 0 {
        Seq::empty()
    } else {
        mount_line(mounts[0]) + seq![10u8] + mount_table(mounts.skip(1))
    }
}

/// Whether something is mounted in the tree, below its root.
pub open spec fn mounted_inside(mount: Mount, root: Seq<u8>) -> bool {
    exists|rest: Seq<u8>| mount.mountpoint == root + seq![0x2fu8] + rest
}

proof fn lemma_inside(mount: Mount, root: Seq<u8>)
    ensures
        strictly_below(mount.mountpoint, root) == mounted_inside(mount, root),
{
    let path = mount.mountpoint;
    let n = root.len() as int;
    if strictly_below(path, root) {
        let rest = path.skip(n + 1);
        assert(path =~= root + seq![0x2fu8] + rest) by {
            assert(path.subrange(0, n) =~= root);
            assert forall|i: int| 0 <= i < n implies path[i] == root[i] by {
                assert(path.subrange(0, n)[i] == path[i]);
            }
        }
    }
    if mounted_inside(mount, root) {
        let rest = choose|rest: Seq<u8>| path == root + seq![0x2fu8] + rest;
        assert(path.subrange(0, n) =~= root);
        assert(path[n] == 0x2f);
    }
}

proof fn lemma_next(bytes: Seq<u8>, byte: u8, from: int, to: int)
    requires
        0 <= from <= to <= bytes.len(),
        forall|i: int| from <= i < to ==> bytes[i] != byte,
        to == bytes.len() || bytes[to] == byte,
    ensures
        next_at(bytes, byte, from) == to,
    decreases to - from,
{
    if from < to {
        lemma_next(bytes, byte, from + 1, to);
    }
}

proof fn lemma_escape(path: Seq<u8>)
    ensures
        !escape(path).contains(32),
        !escape(path).contains(10),
    decreases path.len(),
{
    if path.len() > 0 {
        let front = escape(path.drop_last());
        let last = escape_byte(path.last());
        lemma_escape(path.drop_last());
        let all = front + last;
        assert forall|i: int| 0 <= i < all.len() implies all[i] != 32 && all[i] != 10 by {
            if i < front.len() {
                assert(front.contains(front[i]));
            }
        }
    }
}

proof fn lemma_fields(a: Seq<u8>, b: Seq<u8>, c: Seq<u8>, d: Seq<u8>, e: Seq<u8>, rest: Seq<u8>)
    requires
        !a.contains(32),
        !b.contains(32),
        !c.contains(32),
        !d.contains(32),
        !e.contains(32),
    ensures
        field_from(
            a + seq![32u8] + b + seq![32u8] + c + seq![32u8] + d + seq![32u8] + e + seq![32u8]
                + rest,
            0,
            4,
        ) == Some(e),
{
    let line = a + seq![32u8] + b + seq![32u8] + c + seq![32u8] + d + seq![32u8] + e + seq![32u8]
        + rest;
    let p = a.len() as int;
    let q = p + 1 + b.len();
    let r = q + 1 + c.len();
    let s = r + 1 + d.len();
    let t = s + 1 + e.len();
    assert forall|i: int| 0 <= i < p implies line[i] != 32 by {
        assert(line[i] == a[i] && a.contains(a[i]));
    }
    assert forall|i: int| p + 1 <= i < q implies line[i] != 32 by {
        assert(line[i] == b[i - p - 1] && b.contains(b[i - p - 1]));
    }
    assert forall|i: int| q + 1 <= i < r implies line[i] != 32 by {
        assert(line[i] == c[i - q - 1] && c.contains(c[i - q - 1]));
    }
    assert forall|i: int| r + 1 <= i < s implies line[i] != 32 by {
        assert(line[i] == d[i - r - 1] && d.contains(d[i - r - 1]));
    }
    assert forall|i: int| s + 1 <= i < t implies line[i] != 32 by {
        assert(line[i] == e[i - s - 1] && e.contains(e[i - s - 1]));
    }
    lemma_next(line, 32, 0, p);
    lemma_next(line, 32, p + 1, q);
    lemma_next(line, 32, q + 1, r);
    lemma_next(line, 32, r + 1, s);
    lemma_next(line, 32, s + 1, t);
    reveal_with_fuel(field_from, 5);
    assert(line.subrange(s + 1, t) =~= e);
}

proof fn lemma_line(mount: Mount, root: Seq<u8>)
    requires
        plain(mount),
    ensures
        line_fault(mount_line(mount), root) is Some <==> mounted_inside(mount, root),
        !mount_line(mount).contains(10),
        mount_line(mount).len() > 0,
{
    lemma_escape(mount.mountpoint);
    law_unescape_inverts_escape(mount.mountpoint);
    lemma_inside(mount, root);
    let e = escape(mount.mountpoint);
    let (a, b, c, d) = (mount.fields[0], mount.fields[1], mount.fields[2], mount.fields[3]);
    lemma_fields(a, b, c, d, e, mount.rest);
    let line = mount_line(mount);
    let space = seq![32u8];
    let parts = a + space + b + space + c + space + d + space;
    assert forall|i: int| 0 <= i < line.len() implies line[i] != 10 by {
        lemma_no_end(a, b, c, d, e, mount.rest, i);
    }
}

proof fn lemma_no_end(
    a: Seq<u8>,
    b: Seq<u8>,
    c: Seq<u8>,
    d: Seq<u8>,
    e: Seq<u8>,
    rest: Seq<u8>,
    i: int,
)
    requires
        !a.contains(10),
        !b.contains(10),
        !c.contains(10),
        !d.contains(10),
        !e.contains(10),
        !rest.contains(10),
        0 <= i < a.len() + b.len() + c.len() + d.len() + e.len() + rest.len() + 5,
    ensures
        (a + seq![32u8] + b + seq![32u8] + c + seq![32u8] + d + seq![32u8] + e + seq![32u8]
            + rest)[i] != 10,
{
    let line = a + seq![32u8] + b + seq![32u8] + c + seq![32u8] + d + seq![32u8] + e + seq![32u8]
        + rest;
    let p = a.len() as int;
    let q = p + 1 + b.len();
    let r = q + 1 + c.len();
    let s = r + 1 + d.len();
    let t = s + 1 + e.len();
    if i < p {
        assert(line[i] == a[i] && a.contains(a[i]));
    } else if p < i < q {
        assert(line[i] == b[i - p - 1] && b.contains(b[i - p - 1]));
    } else if q < i < r {
        assert(line[i] == c[i - q - 1] && c.contains(c[i - q - 1]));
    } else if r < i < s {
        assert(line[i] == d[i - r - 1] && d.contains(d[i - r - 1]));
    } else if s < i < t {
        assert(line[i] == e[i - s - 1] && e.contains(e[i - s - 1]));
    } else if t < i {
        assert(line[i] == rest[i - t - 1] && rest.contains(rest[i - t - 1]));
    }
}

proof fn lemma_table(front: Seq<u8>, mounts: Seq<Mount>, root: Seq<u8>)
    requires
        forall|i: int| 0 <= i < mounts.len() ==> plain(#[trigger] mounts[i]),
    ensures
        mounts_fault_from(front + mount_table(mounts), front.len() as int, root) is Some
            <==> exists|i: int|
            0 <= i < mounts.len() && mounted_inside(#[trigger] mounts[i], root),
    decreases mounts.len(),
{
    let bytes = front + mount_table(mounts);
    let from = front.len() as int;
    if mounts.len() > 0 {
        let line = mount_line(mounts[0]);
        let rest = mounts.skip(1);
        lemma_line(mounts[0], root);
        let next = front + line + seq![10u8];
        assert(bytes =~= next + mount_table(rest));
        let to = from + line.len();
        assert forall|i: int| from <= i < to implies bytes[i] != 10 by {
            assert(bytes[i] == line[i - from] && line.contains(line[i - from]));
        }
        assert(bytes[to] == 10);
        lemma_next(bytes, 10, from, to);
        assert(bytes.subrange(from, to) =~= line);
        assert forall|i: int| 0 <= i < rest.len() implies plain(#[trigger] rest[i]) by {
            assert(rest[i] == mounts[i + 1]);
        }
        lemma_table(next, rest, root);
        assert(next.len() == to + 1);
        if exists|i: int| 0 <= i < rest.len() && mounted_inside(#[trigger] rest[i], root) {
            let i = choose|i: int| 0 <= i < rest.len() && mounted_inside(#[trigger] rest[i], root);
            assert(mounted_inside(mounts[i + 1], root));
        }
        if exists|i: int| 0 <= i < mounts.len() && mounted_inside(#[trigger] mounts[i], root) {
            let i = choose|i: int|
                0 <= i < mounts.len() && mounted_inside(#[trigger] mounts[i], root);
            if i > 0 {
                assert(mounted_inside(rest[i - 1], root));
            }
        }
    }
}

/// A tree is refused exactly where the kernel's list names a mount below its root: by
/// whole names, and as the path is, not as it is written.
pub proof fn law_mounts_inside_are_seen(mounts: Seq<Mount>, root: Seq<u8>)
    requires
        forall|i: int| 0 <= i < mounts.len() ==> plain(#[trigger] mounts[i]),
    ensures
        mounts_fault(mount_table(mounts), root) is Some <==> exists|i: int|
            0 <= i < mounts.len() && mounted_inside(#[trigger] mounts[i], root),
{
    lemma_table(Seq::empty(), mounts, root);
    assert(Seq::<u8>::empty() + mount_table(mounts) =~= mount_table(mounts));
}

/// Whether the happening may have changed the way to the root: a watch is lost, or what
/// was watched itself changed, or it is about an entry that matters.
pub open spec fn touches_the_way(
    watches: Map<i32, Option<Seq<u8>>>,
    happening: Happening,
) -> bool {
    ||| happening.mask & 0x400 != 0
    ||| happening.mask & 0x800 != 0
    ||| happening.mask & 0x2000 != 0
    ||| happening.mask & 0x4000 != 0
    ||| happening.mask & 0x8000 != 0
    ||| happening.name.len() == 0 && happening.mask & 0x4 != 0
    ||| watches.contains_key(happening.watch as i32) && (
    watches[happening.watch as i32] matches Some(name) ==> name == happening.name)
}

proof fn lemma_touches(watches: Map<i32, Option<Seq<u8>>>, happening: Happening)
    ensures
        relevant(
            watches,
            EventView {
                watch: happening.watch as i32,
                mask: happening.mask,
                name: happening.name,
            },
        ) == touches_the_way(watches, happening),
{
    lemma_masks(happening.mask);
}

proof fn lemma_binding(
    watches: Map<i32, Option<Seq<u8>>>,
    happenings: Seq<Happening>,
    n: int,
    order: ByteOrder,
)
    requires
        0 <= n <= happenings.len(),
        forall|i: int| 0 <= i < happenings.len() ==> writable(#[trigger] happenings[i]),
        all_written(happenings, order).len() <= usize::MAX,
    ensures
        binding_fault_from(
            watches,
            all_written(happenings, order),
            all_written(happenings.take(n), order).len() as int,
            order,
        ) is Some <==> exists|i: int|
            n <= i < happenings.len() && touches_the_way(watches, #[trigger] happenings[i]),
    decreases happenings.len() - n,
{
    let buffer = all_written(happenings, order);
    if n == happenings.len() {
        assert(happenings.take(n) =~= happenings);
    } else {
        lemma_all_written(happenings, n, order);
        let at = all_written(happenings.take(n), order).len() as int;
        let happening = happenings[n];
        lemma_written(buffer, at, happening, order);
        lemma_touches(watches, happening);
        lemma_binding(watches, happenings, n + 1, order);
        assert(written(happening, order).len() > 0);
        if exists|i: int|
            n + 1 <= i < happenings.len() && touches_the_way(watches, #[trigger] happenings[i]) {
            let i = choose|i: int|
                n + 1 <= i < happenings.len() && touches_the_way(watches, #[trigger] happenings[i]);
            assert(touches_the_way(watches, happenings[i]));
        }
    }
}

/// A view is given up exactly where something happened that may have changed the way to
/// its root, wherever among what happened it stands.
pub proof fn law_changes_of_the_way_are_seen(
    watches: Map<i32, Option<Seq<u8>>>,
    happenings: Seq<Happening>,
    order: ByteOrder,
)
    requires
        forall|i: int| 0 <= i < happenings.len() ==> writable(#[trigger] happenings[i]),
        all_written(happenings, order).len() <= usize::MAX,
    ensures
        binding_fault_from(watches, all_written(happenings, order), 0, order) is Some
            <==> exists|i: int|
            0 <= i < happenings.len() && touches_the_way(watches, #[trigger] happenings[i]),
{
    lemma_binding(watches, happenings, 0, order);
    assert(happenings.take(0).len() == 0);
}

/// Whether the happening is that the destination appears where it is expected.
pub open spec fn moves_in(pending: PendingView, happening: Happening) -> bool {
    &&& happening.watch as i32 == pending.watch
    &&& happening.name == pending.name
    &&& happening.mask & 0x80 != 0
}

/// How many of the happenings from `n` on move the destination in.
pub open spec fn moves_from(pending: PendingView, happenings: Seq<Happening>, n: int) -> nat
    decreases happenings.len() - n,
{
    if n >= happenings.len() {
        0
    } else {
        moves_from(pending, happenings, n + 1) + if moves_in(pending, happenings[n]) {
            1nat
        } else {
            0nat
        }
    }
}

proof fn lemma_moves(
    pending: PendingView,
    happenings: Seq<Happening>,
    n: int,
    order: ByteOrder,
    awaited: bool,
    seen: bool,
)
    requires
        0 <= n <= happenings.len(),
        forall|i: int| 0 <= i < happenings.len() ==> writable(#[trigger] happenings[i]),
        all_written(happenings, order).len() <= usize::MAX,
    ensures
        ({
            let moved = publication_from(
                pending,
                all_written(happenings, order),
                all_written(happenings.take(n), order).len() as int,
                order,
                awaited,
                seen,
            );
            let moves = moves_from(pending, happenings, n);
            let quiet = forall|i: int|
                n <= i < happenings.len() && !moves_in(pending, #[trigger] happenings[i])
                    ==> !touches_the_way(pending.watches, happenings[i]);
            &&& moved is Ok <==> quiet && (moves == 0 || moves == 1 && awaited && !seen)
            &&& moved matches Ok(there) ==> there == (seen || moves == 1)
        }),
    decreases happenings.len() - n,
{
    let buffer = all_written(happenings, order);
    if n == happenings.len() {
        assert(happenings.take(n) =~= happenings);
    } else {
        lemma_all_written(happenings, n, order);
        let at = all_written(happenings.take(n), order).len() as int;
        let happening = happenings[n];
        lemma_written(buffer, at, happening, order);
        lemma_touches(pending.watches, happening);
        assert(written(happening, order).len() > 0);
        let event = EventView {
            watch: happening.watch as i32,
            mask: happening.mask,
            name: happening.name,
        };
        assert(publishes(pending, event) == moves_in(pending, happening));
        lemma_moves(pending, happenings, n + 1, order, awaited, seen);
        lemma_moves(pending, happenings, n + 1, order, awaited, true);
        assert((forall|i: int|
            n <= i < happenings.len() && !moves_in(pending, #[trigger] happenings[i])
                ==> !touches_the_way(pending.watches, happenings[i])) == ((moves_in(
            pending,
            happening,
        ) || !touches_the_way(pending.watches, happening)) && forall|i: int|
            n + 1 <= i < happenings.len() && !moves_in(pending, #[trigger] happenings[i])
                ==> !touches_the_way(pending.watches, happenings[i])));
    }
}

/// A pending destination is seen to appear exactly where it was moved in once, when that
/// was awaited and had not been seen before, and nothing else touched the way to it.
pub proof fn law_one_move_is_awaited(
    pending: PendingView,
    happenings: Seq<Happening>,
    order: ByteOrder,
    awaited: bool,
    seen: bool,
)
    requires
        forall|i: int| 0 <= i < happenings.len() ==> writable(#[trigger] happenings[i]),
        all_written(happenings, order).len() <= usize::MAX,
    ensures
        ({
            let moved = publication_from(
                pending,
                all_written(happenings, order),
                0,
                order,
                awaited,
                seen,
            );
            let moves = moves_from(pending, happenings, 0);
            let quiet = forall|i: int|
                0 <= i < happenings.len() && !moves_in(pending, #[trigger] happenings[i])
                    ==> !touches_the_way(pending.watches, happenings[i]);
            &&& moved is Ok <==> quiet && (moves == 0 || moves == 1 && awaited && !seen)
            &&& moved matches Ok(there) ==> there == (seen || moves == 1)
        }),
{
    lemma_moves(pending, happenings, 0, order, awaited, seen);
    assert(happenings.take(0).len() == 0);
}

/// Whether no name leads up again.
pub open spec fn leads_down(parts: Seq<Seq<u8>>) -> bool {
    forall|i: int| 0 <= i < parts.len() ==> #[trigger] parts[i] != seq![0x2eu8, 0x2eu8]
}

/// The bytes of the path with the names, or of the root directory.
pub open spec fn directory_of(parts: Seq<Seq<u8>>) -> Seq<u8> {
    if parts.len() == 0 {
        seq![0x2fu8]
    } else {
        below_root(parts)
    }
}

proof fn lemma_chain(above: Seq<Seq<u8>>, parts: Seq<Seq<u8>>)
    requires
        are_names(above),
        are_names(parts),
        leads_down(parts),
    ensures
        ({
            let steps = chain_from(directory_of(above), parts);
            &&& steps.len() == parts.len() + 1
            &&& forall|i: int|
                0 <= i < parts.len() ==> (#[trigger] steps[i]).name == Some(parts[i])
                    && steps[i].mask == 0xefc4
            &&& steps.last().name is None
            &&& steps.last().mask == 0xec04
            &&& forall|i: int|
                0 <= i <= parts.len() ==> (#[trigger] steps[i]).directory == directory_of(
                    above + parts.take(i),
                )
        }),
    decreases parts.len(),
{
    let directory = directory_of(above);
    let steps = chain_from(directory, parts);
    assert(0x4u32 | 0x100 | 0x200 | 0x40 | 0x80 | (0x400u32 | 0x800u32 | 0x2000u32 | 0x8000u32 | 0x4000u32)
        == 0xefc4 && 0x4u32 | (0x400u32 | 0x800u32 | 0x2000u32 | 0x8000u32 | 0x4000u32) == 0xec04) by (bit_vector);
    if parts.len() > 0 {
        let name = parts[0];
        let rest = parts.drop_first();
        assert(name != seq![0x2eu8] && name != seq![0x2eu8, 0x2eu8]);
        assert(!dots(name));
        assert(are_names(seq![name])) by {
            assert(seq![name][0] == name);
        }
        assert forall|i: int| 0 <= i < rest.len() implies (#[trigger] rest[i]).len() > 0
            && !rest[i].contains(0x2f) && rest[i] != seq![0x2eu8] && rest[i] != seq![
            0x2eu8,
            0x2eu8,
        ] by {
            assert(rest[i] == parts[i + 1]);
        }
        let further = above.push(name);
        assert forall|i: int| 0 <= i < further.len() implies (#[trigger] further[i]).len() > 0
            && !further[i].contains(0x2f) && further[i] != seq![0x2eu8] by {
            if i < above.len() {
                assert(further[i] == above[i]);
            }
        }
        law_joined_name_is_last(above, name);
        if above.len() == 0 {
            assert(further =~= seq![name]);
        }
        lemma_chain(further, rest);
        let later = chain_from(below_root(further), rest);
        let first_step = StepView { directory, mask: IN_BINDING_MASK, name: Some(name) };
        assert(steps =~= seq![first_step] + later);
        assert(steps[0] == first_step);
        assert forall|i: int| 0 <= i <= parts.len() implies (
        #[trigger] steps[i]).directory == directory_of(above + parts.take(i)) by {
            if i == 0 {
                assert(above + parts.take(0) =~= above);
            } else {
                assert(steps[i] == later[i - 1]);
                assert(further + rest.take(i - 1) =~= above + parts.take(i));
            }
        }
        assert forall|i: int| 0 <= i < parts.len() implies (#[trigger] steps[i]).name == Some(
            parts[i],
        ) && steps[i].mask == 0xefc4 by {
            if i > 0 {
                assert(steps[i] == later[i - 1]);
                assert(rest[i - 1] == parts[i]);
            }
        }
        assert(steps.last() == later.last());
    } else {
        assert(above + parts.take(0) =~= above);
    }
}

/// Every entry on the way to a root is watched, each in its own directory, for coming,
/// going, moving and changing, and the root itself for changing and for being lost.
pub proof fn law_the_whole_way_is_watched(parts: Seq<Seq<u8>>)
    requires
        parts.len() > 0,
        are_names(parts),
        leads_down(parts),
    ensures
        ({
            let steps = component_chain(below_root(parts));
            &&& steps.len() == parts.len() + 1
            &&& forall|i: int|
                0 <= i < parts.len() ==> (#[trigger] steps[i]).name == Some(parts[i])
                    && steps[i].mask == 0xefc4
            &&& steps[0].directory == seq![0x2fu8]
            &&& forall|i: int|
                1 <= i <= parts.len() ==> (#[trigger] steps[i]).directory == below_root(
                    parts.take(i),
                )
            &&& steps.last().name is None
            &&& steps.last().mask == 0xec04
        }),
{
    law_names_are_read_back(parts);
    lemma_chain(Seq::empty(), parts);
    let steps = component_chain(below_root(parts));
    assert forall|i: int| 1 <= i <= parts.len() implies (#[trigger] steps[i]).directory
        == below_root(parts.take(i)) by {
        assert(Seq::<Seq<u8>>::empty() + parts.take(i) =~= parts.take(i));
    }
}

/// A binding holds each part of what was found in its own place: two bindings with the
/// same namespace and the same root agree in every number.
pub proof fn law_binding_holds_what_was_found(binding: ViewBinding)
    ensures
        binding.namespace().mount_ns_dev == binding.mount_ns_dev,
        binding.namespace().mount_ns_ino == binding.mount_ns_ino,
        binding.namespace().process_root_dev == binding.process_root_dev,
        binding.namespace().process_root_ino == binding.process_root_ino,
        binding.namespace().process_root_mnt_id == binding.process_root_mnt_id,
        binding.root().dev == binding.watched_root_dev,
        binding.root().ino == binding.watched_root_ino,
        binding.root().mnt_id == binding.watched_root_mnt_id,
        binding.root().fs_uuid == binding.fs_uuid,
        binding.root().subvol_uuid == binding.subvol_uuid,
{
}

/// Mounts are taken to have changed where the poll says so, or says that it failed.
pub proof fn law_changed_mounts_are_noticed(revents: i16)
    ensures
        mounts_changed(revents) <==> revents & 0x2 != 0 || revents & 0x8 != 0 || revents & 0x20
            != 0,
{
    assert((revents & (0x2i16 | 0x8 | 0x20) != 0) == (revents & 0x2 != 0 || revents & 0x8 != 0
        || revents & 0x20 != 0)) by (bit_vector);
}

/// A published destination is taken over only where it was moved in, is the subvolume that
/// was meant, nothing is mounted in it, and the process still sees the namespace that it
/// saw before.
pub proof fn law_published_destination_is_the_one_meant(
    pending: PendingView,
    moved: bool,
    namespace: NamespaceIdentity,
    mounts: Seq<Mount>,
    root: RootIdentity,
    fs_uuid: [u8; 16],
    subvol_uuid: [u8; 16],
    parents: Seq<Seq<u8>>,
)
    requires
        forall|i: int| 0 <= i < mounts.len() ==> plain(#[trigger] mounts[i]),
        parents.len() > 0,
        are_names(parents),
        are_names(seq![pending.name]),
        pending.parent == below_root(parents),
    ensures
        publication_fault(
            pending,
            moved,
            namespace,
            mount_table(mounts),
            root,
            fs_uuid,
            subvol_uuid,
        ) is None <==> {
            &&& moved
            &&& namespace == pending.namespace
            &&& root.fs_uuid == fs_uuid
            &&& root.subvol_uuid == subvol_uuid
            &&& forall|i: int|
                0 <= i < mounts.len() ==> !mounted_inside(
                    #[trigger] mounts[i],
                    below_root(parents.push(pending.name)),
                )
        },
{
    law_joined_name_is_last(parents, pending.name);
    law_mounts_inside_are_seen(mounts, below_root(parents.push(pending.name)));
}

/// A destination can be monitored exactly where it has a plain name, its parent is absolute,
/// nothing is there yet, and nothing is mounted in the parent.
pub proof fn law_pending_destination(
    parent: Seq<u8>,
    name: Seq<u8>,
    taken: bool,
    mounts: Seq<Mount>,
)
    requires
        forall|i: int| 0 <= i < mounts.len() ==> plain(#[trigger] mounts[i]),
    ensures
        destination_fault(parent, name, taken, mount_table(mounts)) is None <==> {
            &&& name.len() > 0
            &&& !name.contains(0)
            &&& !name.contains(0x2f)
            &&& parent.len() > 0
            &&& parent[0] == 0x2f
            &&& !taken
            &&& forall|i: int|
                0 <= i < mounts.len() ==> !mounted_inside(#[trigger] mounts[i], parent)
        },
{
    law_mounts_inside_are_seen(mounts, parent);
}

} // verus!
