//! What a journal of changes must tell of the events that the kernel writes.

use crate::inotify::{
    before_zero, event_at, event_end, word_at, zero_at, ByteOrder, EventFault, EventView,
};
use crate::manager::types::HintView;
use crate::precision::{below, drained_from, DirectoryView, DrainView, WATCH_MASK};
use vstd::prelude::*;

verus! {

/// Something that happened below a watched directory, as the kernel writes it: the
/// number of the watch, what happened, the cookie of a move, and the entry's name
/// with the zeros behind it.
#[verifier::ext_equal]
pub struct Happening {
    pub watch: u32,
    pub mask: u32,
    pub cookie: u32,
    pub name: Seq<u8>,
    pub zeros: nat,
}

/// The four bytes of a word in the order of the machine.
pub open spec fn word_bytes(value: u32, order: ByteOrder) -> Seq<u8> {
    let a = (value & 0xff) as u8;
    let b = ((value >> 8) & 0xff) as u8;
    let c = ((value >> 16) & 0xff) as u8;
    let d = ((value >> 24) & 0xff) as u8;
    match order {
        ByteOrder::Little => seq![a, b, c, d],
        ByteOrder::Big => seq![d, c, b, a],
    }
}

/// The bytes of a happening.
pub open spec fn written(happening: Happening, order: ByteOrder) -> Seq<u8> {
    word_bytes(happening.watch, order) + word_bytes(happening.mask, order) + word_bytes(
        happening.cookie,
        order,
    ) + word_bytes((happening.name.len() + happening.zeros) as u32, order) + happening.name
        + Seq::new(happening.zeros, |i: int| 0u8)
}

/// Whether the kernel can write the happening: names hold no zeros, and lengths fit.
pub open spec fn writable(happening: Happening) -> bool {
    &&& happening.watch < 0x8000_0000
    &&& forall|i: int| 0 <= i < happening.name.len() ==> #[trigger] happening.name[i] != 0
    &&& happening.name.len() + happening.zeros <= u32::MAX
}

/// The bytes of happenings, one behind the other.
pub open spec fn all_written(happenings: Seq<Happening>, order: ByteOrder) -> Seq<u8>
    decreases happenings.len(),
{
    if happenings.len() == 0 {
        Seq::empty()
    } else {
        all_written(happenings.drop_last(), order) + written(happenings.last(), order)
    }
}

/// The path below the root that a happening in the tree is about.
pub open spec fn path_of(
    directories: Map<i32, DirectoryView>,
    happening: Happening,
) -> Option<Seq<u8>> {
    if directories.contains_key(happening.watch as i32) {
        match directories[happening.watch as i32] {
            DirectoryView::Tree(parent) => if parent.len() == 0 {
                Some(happening.name)
            } else {
                Some(parent + seq![47u8] + happening.name)
            },
            DirectoryView::Marker => None,
        }
    } else {
        None
    }
}

/// Whether a happening is about a directory.
pub open spec fn of_directory(happening: Happening) -> bool {
    happening.mask & 0x4000_0000 != 0
}

/// Whether a happening brings a directory into the tree that is not watched yet.
pub open spec fn brings_directory(
    directories: Map<i32, DirectoryView>,
    happening: Happening,
) -> bool {
    path_of(directories, happening) is Some && of_directory(happening) && (happening.mask & 0x100
        != 0 || happening.mask & 0x80 != 0)
}

/// Whether nothing can be relied on behind a happening: events were lost, the watch
/// is not known or is gone, or no name says what changed.
pub open spec fn breaks_journal(
    directories: Map<i32, DirectoryView>,
    happening: Happening,
) -> bool {
    ||| happening.mask & 0x4000 != 0
    ||| !directories.contains_key(happening.watch as i32)
    ||| path_of(directories, happening) is Some && (happening.name.len() == 0 || happening.mask
        & 0x400 != 0 || happening.mask & 0x800 != 0 || happening.mask & 0x2000 != 0
        || happening.mask & 0x8000 != 0)
}

/// Whether a happening is that the marker goes.
pub open spec fn takes_marker(
    directories: Map<i32, DirectoryView>,
    happening: Happening,
    marker: Seq<u8>,
) -> bool {
    &&& directories.contains_key(happening.watch as i32)
    &&& directories[happening.watch as i32] is Marker
    &&& happening.name == marker
    &&& happening.mask & 0x200 != 0
}

/// What is to be told of the happenings: every path that changed in the tree, in
/// turn, and whether everything below it may have changed too.
pub open spec fn to_tell(
    directories: Map<i32, DirectoryView>,
    happenings: Seq<Happening>,
) -> Seq<HintView>
    decreases happenings.len(),
{
    if happenings.len() == 0 {
        Seq::empty()
    } else {
        let earlier = to_tell(directories, happenings.drop_last());
        match path_of(directories, happenings.last()) {
            None => earlier,
            Some(path) => earlier.push(
                if of_directory(happenings.last()) {
                    HintView::DirectoryPrefix(path)
                } else {
                    HintView::Path(path)
                },
            ),
        }
    }
}

proof fn lemma_word(value: u32, order: ByteOrder)
    ensures
        word_bytes(value, order).len() == 4,
        word_at(word_bytes(value, order), 0, order) == value,
{
    assert((((value & 0xff) as u8) as u32) | (((((value >> 8) & 0xff) as u8) as u32) << 8)
        | (((((value >> 16) & 0xff) as u8) as u32) << 16)
        | (((((value >> 24) & 0xff) as u8) as u32) << 24) == value) by (bit_vector);
}

proof fn lemma_word_inside(buffer: Seq<u8>, at: int, value: u32, order: ByteOrder)
    requires
        0 <= at,
        at + 4 <= buffer.len(),
        buffer.subrange(at, at + 4) == word_bytes(value, order),
    ensures
        word_at(buffer, at, order) == value,
{
    lemma_word(value, order);
    let word = buffer.subrange(at, at + 4);
    assert(word[0] == buffer[at] && word[1] == buffer[at + 1] && word[2] == buffer[at + 2]
        && word[3] == buffer[at + 3]);
}

proof fn lemma_name(name: Seq<u8>, zeros: nat, from: int)
    requires
        0 <= from <= name.len(),
        forall|i: int| 0 <= i < name.len() ==> #[trigger] name[i] != 0,
    ensures
        zero_at(name + Seq::new(zeros, |i: int| 0u8), from) == name.len(),
    decreases name.len() - from,
{
    let all = name + Seq::new(zeros, |i: int| 0u8);
    if from < name.len() {
        assert(all[from] == name[from]);
        lemma_name(name, zeros, from + 1);
    } else if zeros > 0 {
        assert(all[from] == 0);
    }
}

pub(crate) proof fn lemma_written(buffer: Seq<u8>, at: int, happening: Happening, order: ByteOrder)
    requires
        writable(happening),
        0 <= at,
        at + written(happening, order).len() <= buffer.len(),
        buffer.len() <= usize::MAX,
        buffer.subrange(at, at + written(happening, order).len()) == written(happening, order),
    ensures
        event_end(buffer, at, order) == at + written(happening, order).len(),
        event_at(buffer, at, order) == Ok::<EventView, EventFault>(
            EventView {
                watch: happening.watch as i32,
                mask: happening.mask,
                name: happening.name,
            },
        ),
{
    let all = written(happening, order);
    let length = (happening.name.len() + happening.zeros) as u32;
    let zeros = Seq::new(happening.zeros, |i: int| 0u8);
    lemma_word(happening.watch, order);
    lemma_word(happening.mask, order);
    lemma_word(happening.cookie, order);
    lemma_word(length, order);
    assert(all.len() == 16 + length);
    let mine = buffer.subrange(at, at + all.len());
    assert(buffer.subrange(at, at + 4) =~= mine.subrange(0, 4));
    assert(all.subrange(0, 4) =~= word_bytes(happening.watch, order));
    lemma_word_inside(buffer, at, happening.watch, order);
    assert(buffer.subrange(at + 4, at + 8) =~= mine.subrange(4, 8));
    assert(all.subrange(4, 8) =~= word_bytes(happening.mask, order));
    lemma_word_inside(buffer, at + 4, happening.mask, order);
    assert(buffer.subrange(at + 12, at + 16) =~= mine.subrange(12, 16));
    assert(all.subrange(12, 16) =~= word_bytes(length, order));
    lemma_word_inside(buffer, at + 12, length, order);
    assert(buffer.subrange(at + 16, at + all.len()) =~= mine.subrange(16, all.len() as int));
    assert(all.subrange(16, all.len() as int) =~= happening.name + zeros);
    lemma_name(happening.name, happening.zeros, 0);
    assert(before_zero(happening.name + zeros) =~= happening.name);
}

pub(crate) proof fn lemma_all_written(happenings: Seq<Happening>, n: int, order: ByteOrder)
    requires
        0 <= n < happenings.len(),
    ensures
        all_written(happenings.take(n + 1), order) == all_written(happenings.take(n), order)
            + written(happenings[n], order),
        all_written(happenings.take(n + 1), order).len() <= all_written(happenings, order).len(),
        all_written(happenings, order).subrange(
            all_written(happenings.take(n), order).len() as int,
            all_written(happenings.take(n + 1), order).len() as int,
        ) == written(happenings[n], order),
    decreases happenings.len() - n,
{
    let here = happenings.take(n + 1);
    assert(here.drop_last() =~= happenings.take(n));
    assert(here.last() == happenings[n]);
    lemma_prefix(happenings, n + 1, order);
    let whole = all_written(happenings, order);
    let (start, end) = (
        all_written(happenings.take(n), order).len() as int,
        all_written(here, order).len() as int,
    );
    assert(whole.subrange(start, end) =~= whole.subrange(0, end).subrange(start, end));
    assert(all_written(here, order).subrange(start, end) =~= written(happenings[n], order));
}

proof fn lemma_prefix(happenings: Seq<Happening>, n: int, order: ByteOrder)
    requires
        0 <= n <= happenings.len(),
    ensures
        all_written(happenings.take(n), order).len() <= all_written(happenings, order).len(),
        all_written(happenings, order).subrange(
            0,
            all_written(happenings.take(n), order).len() as int,
        ) == all_written(happenings.take(n), order),
    decreases happenings.len(),
{
    let whole = all_written(happenings, order);
    if n == happenings.len() {
        assert(happenings.take(n) =~= happenings);
        assert(whole.subrange(0, whole.len() as int) =~= whole);
    } else {
        let front = happenings.drop_last();
        lemma_prefix(front, n, order);
        assert(front.take(n) =~= happenings.take(n));
        let end = all_written(front.take(n), order).len() as int;
        assert(whole.subrange(0, end) =~= all_written(front, order).subrange(0, end));
    }
}

/// Whether the first `n` happenings are read to their end: none breaks the journal,
/// and none but the last may bring a directory.
pub open spec fn read_through(
    directories: Map<i32, DirectoryView>,
    happenings: Seq<Happening>,
    n: int,
) -> bool {
    &&& 0 <= n <= happenings.len()
    &&& forall|i: int| 0 <= i < n ==> !breaks_journal(directories, #[trigger] happenings[i])
    &&& forall|i: int| 0 <= i < n - 1 ==> !brings_directory(directories, #[trigger] happenings[i])
}

pub(crate) proof fn lemma_masks(mask: u32)
    ensures
        (mask & 0xec00 != 0) == (mask & 0x400 != 0 || mask & 0x800 != 0 || mask & 0x2000 != 0
            || mask & 0x4000 != 0 || mask & 0x8000 != 0),
        (mask & 0x180 != 0) == (mask & 0x100 != 0 || mask & 0x80 != 0),
        0x400u32 | 0x800 | 0x2000 | 0x8000 | 0x4000 == 0xec00,
        0x100u32 | 0x80 == 0x180,
{
    assert((mask & 0xec00 != 0) == (mask & 0x400 != 0 || mask & 0x800 != 0 || mask & 0x2000 != 0
        || mask & 0x4000 != 0 || mask & 0x8000 != 0)) by (bit_vector);
    assert((mask & 0x180 != 0) == (mask & 0x100 != 0 || mask & 0x80 != 0)) by (bit_vector);
    assert(0x400u32 | 0x800 | 0x2000 | 0x8000 | 0x4000 == 0xec00 && 0x100u32 | 0x80 == 0x180)
        by (bit_vector);
}

/// What is told of one happening in the tree.
pub open spec fn hint_of(happening: Happening, path: Seq<u8>) -> HintView {
    if of_directory(happening) {
        HintView::DirectoryPrefix(path)
    } else {
        HintView::Path(path)
    }
}

#[verifier::opaque]
spec fn drained(
    directories: Map<i32, DirectoryView>,
    buffer: Seq<u8>,
    at: int,
    marker: Seq<u8>,
    order: ByteOrder,
    hints: Seq<HintView>,
    seen: bool,
) -> Result<DrainView, Seq<char>> {
    drained_from(directories, buffer, at, marker, order, hints, seen)
}

proof fn lemma_one_read(
    directories: Map<i32, DirectoryView>,
    buffer: Seq<u8>,
    at: int,
    happening: Happening,
    marker: Seq<u8>,
    order: ByteOrder,
    hints: Seq<HintView>,
    seen: bool,
)
    requires
        writable(happening),
        0 <= at,
        at + written(happening, order).len() <= buffer.len(),
        buffer.len() <= usize::MAX,
        buffer.subrange(at, at + written(happening, order).len()) == written(happening, order),
    ensures
        written(happening, order).len() >= 16,
        ({
            let found = drained(directories, buffer, at, marker, order, hints, seen);
            let end = at + written(happening, order).len();
            if breaks_journal(directories, happening) {
                found is Err
            } else {
                match path_of(directories, happening) {
                    None => found == drained(
                        directories,
                        buffer,
                        end,
                        marker,
                        order,
                        hints,
                        seen || takes_marker(directories, happening, marker),
                    ),
                    Some(path) => if brings_directory(directories, happening) {
                        found == Ok::<DrainView, Seq<char>>(
                            DrainView {
                                hints: hints.push(hint_of(happening, path)),
                                marker_seen: seen,
                                scan: Some((path, end)),
                            },
                        )
                    } else {
                        found == drained(
                            directories,
                            buffer,
                            end,
                            marker,
                            order,
                            hints.push(hint_of(happening, path)),
                            seen,
                        )
                    },
                }
            }
        }),
{
    reveal(drained);
    lemma_written(buffer, at, happening, order);
    lemma_masks(happening.mask);
    lemma_word(happening.watch, order);
    lemma_word(happening.mask, order);
    lemma_word(happening.cookie, order);
    lemma_word((happening.name.len() + happening.zeros) as u32, order);
    if directories.contains_key(happening.watch as i32) {
        if let DirectoryView::Tree(parent) = directories[happening.watch as i32] {
            assert(below(parent, happening.name) =~= path_of(directories, happening)->0);
        }
    }
}

proof fn lemma_reading(
    directories: Map<i32, DirectoryView>,
    happenings: Seq<Happening>,
    marker: Seq<u8>,
    order: ByteOrder,
    n: int,
    marker_seen: bool,
)
    requires
        forall|i: int| 0 <= i < happenings.len() ==> writable(#[trigger] happenings[i]),
        all_written(happenings, order).len() <= usize::MAX,
        0 <= n <= happenings.len(),
        read_through(directories, happenings, n),
        forall|i: int| 0 <= i < n ==> !brings_directory(directories, #[trigger] happenings[i]),
        marker_seen == marker_gone(directories, happenings, marker, n),
    ensures
        read_right(
            directories,
            happenings,
            marker,
            order,
            drained(
                directories,
                all_written(happenings, order),
                all_written(happenings.take(n), order).len() as int,
                marker,
                order,
                to_tell(directories, happenings.take(n)),
                marker_seen,
            ),
        ),
    decreases happenings.len() - n,
{
    let buffer = all_written(happenings, order);
    let at = all_written(happenings.take(n), order).len() as int;
    let told = to_tell(directories, happenings.take(n));
    let found = drained(directories, buffer, at, marker, order, told, marker_seen);
    if n == happenings.len() {
        assert(happenings.take(n) =~= happenings);
        reveal(drained);
        assert(reads_exactly(directories, happenings, marker, order, n, found->Ok_0));
    } else {
        let happening = happenings[n];
        lemma_all_written(happenings, n, order);
        lemma_one_read(directories, buffer, at, happening, marker, order, told, marker_seen);
        let here = happenings.take(n + 1);
        assert(here.drop_last() =~= happenings.take(n));
        assert(here.last() == happening);
        if !breaks_journal(directories, happening) {
            let seen = marker_seen || takes_marker(directories, happening, marker);
            assert(seen == marker_gone(directories, happenings, marker, n + 1)) by {
                if marker_seen {
                    let i = choose|i: int|
                        0 <= i < n && takes_marker(directories, #[trigger] happenings[i], marker);
                    assert(takes_marker(directories, happenings[i], marker));
                }
            }
            if brings_directory(directories, happening) {
                assert(reads_exactly(
                    directories,
                    happenings,
                    marker,
                    order,
                    n + 1,
                    found->Ok_0,
                ));
            } else {
                lemma_reading(directories, happenings, marker, order, n + 1, seen);
            }
        } else {
            assert(given_up_at(directories, happenings, n));
        }
    }
}

/// Whether the marker went in the first `n` happenings.
pub open spec fn marker_gone(
    directories: Map<i32, DirectoryView>,
    happenings: Seq<Happening>,
    marker: Seq<u8>,
    n: int,
) -> bool {
    exists|i: int| 0 <= i < n && takes_marker(directories, #[trigger] happenings[i], marker)
}

/// Whether nothing can be relied on behind the happening, and nothing before it is
/// to be watched first.
pub open spec fn given_up_at(
    directories: Map<i32, DirectoryView>,
    happenings: Seq<Happening>,
    n: int,
) -> bool {
    &&& 0 <= n < happenings.len()
    &&& breaks_journal(directories, happenings[n])
    &&& forall|i: int| 0 <= i < n ==> !brings_directory(directories, #[trigger] happenings[i])
}

/// Whether a read tells exactly of the happenings up to where it stops, or fails
/// because nothing can be relied on.
pub open spec fn read_right(
    directories: Map<i32, DirectoryView>,
    happenings: Seq<Happening>,
    marker: Seq<u8>,
    order: ByteOrder,
    drained: Result<DrainView, Seq<char>>,
) -> bool {
    match drained {
        Ok(drain) => exists|n: int| #[trigger]
            reads_exactly(directories, happenings, marker, order, n, drain),
        Err(_) => exists|n: int| #[trigger] given_up_at(directories, happenings, n),
    }
}

/// Whether a read stopped behind `n` happenings and tells exactly of those: at the
/// end, or where a directory came that is to be watched first.
pub open spec fn reads_exactly(
    directories: Map<i32, DirectoryView>,
    happenings: Seq<Happening>,
    marker: Seq<u8>,
    order: ByteOrder,
    n: int,
    drain: DrainView,
) -> bool {
    &&& read_through(directories, happenings, n)
    &&& drain.hints == to_tell(directories, happenings.take(n))
    &&& drain.marker_seen == marker_gone(directories, happenings, marker, n)
    &&& match drain.scan {
        None => n == happenings.len() && (n > 0 ==> !brings_directory(
            directories,
            happenings[n - 1],
        )),
        Some((path, next)) => {
            &&& n > 0
            &&& brings_directory(directories, happenings[n - 1])
            &&& path_of(directories, happenings[n - 1]) == Some(path)
            &&& next == all_written(happenings.take(n), order).len()
        },
    }
}

/// A journal that is not given up misses nothing: of whatever the kernel writes, a
/// read that succeeds tells of every change in the tree, in turn and once, up to
/// where it stops, and knows whether the marker went. It fails only where
/// something happened behind which nothing can be relied on.
pub proof fn law_journal_misses_nothing(
    directories: Map<i32, DirectoryView>,
    happenings: Seq<Happening>,
    marker: Seq<u8>,
    order: ByteOrder,
)
    requires
        forall|i: int| 0 <= i < happenings.len() ==> writable(#[trigger] happenings[i]),
        all_written(happenings, order).len() <= usize::MAX,
    ensures
        read_right(
            directories,
            happenings,
            marker,
            order,
            drained_from(
                directories,
                all_written(happenings, order),
                0,
                marker,
                order,
                Seq::empty(),
                false,
            ),
        ),
{
    assert(happenings.take(0) =~= Seq::<Happening>::empty());
    lemma_reading(directories, happenings, marker, order, 0, false);
    reveal(drained);
}

proof fn lemma_told(
    directories: Map<i32, DirectoryView>,
    happenings: Seq<Happening>,
    at: int,
)
    requires
        0 <= at < happenings.len(),
    ensures
        path_of(directories, happenings[at]) matches Some(path) ==> to_tell(
            directories,
            happenings,
        ).contains(
            if of_directory(happenings[at]) {
                HintView::DirectoryPrefix(path)
            } else {
                HintView::Path(path)
            },
        ),
    decreases happenings.len(),
{
    let front = happenings.drop_last();
    let told = to_tell(directories, happenings);
    if at == happenings.len() - 1 {
        if path_of(directories, happenings[at]) is Some {
            assert(told[told.len() - 1] == told.last());
        }
    } else {
        lemma_told(directories, front, at);
        if let Some(path) = path_of(directories, happenings[at]) {
            let hint = if of_directory(happenings[at]) {
                HintView::DirectoryPrefix(path)
            } else {
                HintView::Path(path)
            };
            let earlier = to_tell(directories, front);
            let i = choose|i: int| 0 <= i < earlier.len() && earlier[i] == hint;
            assert(told[i] == hint);
        }
    }
}

/// Whatever happens to an entry of a watched directory is told by a read that goes
/// to the end, with the path of the entry, and for a directory with everything
/// below it.
pub proof fn law_every_change_is_told(
    directories: Map<i32, DirectoryView>,
    happenings: Seq<Happening>,
    marker: Seq<u8>,
    order: ByteOrder,
    at: int,
    parent: Seq<u8>,
)
    requires
        forall|i: int| 0 <= i < happenings.len() ==> writable(#[trigger] happenings[i]),
        all_written(happenings, order).len() <= usize::MAX,
        0 <= at < happenings.len(),
        directories.contains_key(happenings[at].watch as i32),
        directories[happenings[at].watch as i32] == DirectoryView::Tree(parent),
    ensures
        drained_from(
            directories,
            all_written(happenings, order),
            0,
            marker,
            order,
            Seq::empty(),
            false,
        ) matches Ok(drain) ==> drain.scan is None ==> {
            let path = if parent.len() == 0 {
                happenings[at].name
            } else {
                parent + seq![47u8] + happenings[at].name
            };
            ||| drain.hints.contains(HintView::Path(path))
            ||| drain.hints.contains(HintView::DirectoryPrefix(path))
        },
{
    law_journal_misses_nothing(directories, happenings, marker, order);
    if let Ok(drain) = drained_from(
        directories,
        all_written(happenings, order),
        0,
        marker,
        order,
        Seq::empty(),
        false,
    ) {
        if drain.scan is None {
            let n = choose|n: int| #[trigger]
                reads_exactly(directories, happenings, marker, order, n, drain);
            assert(happenings.take(n) =~= happenings);
            lemma_told(directories, happenings, at);
        }
    }
}

/// The journal is asked for every kind of change: attributes, content, and entries
/// that come, go and move; and for what ends a watch.
pub proof fn law_every_kind_is_asked_for()
    ensures
        forall|bit: u32|
            bit == 0x2 || bit == 0x4 || bit == 0x8 || bit == 0x40 || bit == 0x80 || bit == 0x100
                || bit == 0x200 || bit == 0x400 || bit == 0x800 || bit == 0x2000 || bit == 0x4000
                || bit == 0x8000 ==> #[trigger] (WATCH_MASK & bit) == bit,
{
    assert forall|bit: u32|
        bit == 0x2 || bit == 0x4 || bit == 0x8 || bit == 0x40 || bit == 0x80 || bit == 0x100 || bit
            == 0x200 || bit == 0x400 || bit == 0x800 || bit == 0x2000 || bit == 0x4000 || bit
            == 0x8000 implies #[trigger] (WATCH_MASK & bit) == bit by {
        assert((0x4u32 | 0x100 | 0x200 | 0x2 | 0x8 | 0x40 | 0x80 | 0x400 | 0x800 | 0x2000 | 0x8000
            | 0x4000) & bit == bit) by (bit_vector)
            requires
                bit == 0x2 || bit == 0x4 || bit == 0x8 || bit == 0x40 || bit == 0x80 || bit
                    == 0x100 || bit == 0x200 || bit == 0x400 || bit == 0x800 || bit == 0x2000
                    || bit == 0x4000 || bit == 0x8000,
        ;
    }
}

} // verus!
