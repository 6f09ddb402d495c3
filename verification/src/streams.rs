//! What holds of every changed-object stream, whole or damaged.

use crate::bytes::{le_u16, le_u32, le_u64};
use crate::crc32c::{crc32c_of, law_one_byte_is_detected};
use crate::digest::sha256;
use crate::manifest::{
    canonical_preimage, gather, gather_from, header_fault, manifest_of, nothing_gathered,
    record_at, record_end, Gathered, HEADER_SIZE, RECORD_HEADER_SIZE,
};
use crate::manifest_v2::{
    collect, collect_from, completion_fault, frame_fault, nothing_collected, stream_header,
    stream_header_fault, stream_of, stream_record_at, Collected, StreamRecord, RECORD_COMPLETION,
    RECORD_OPTIONAL, V2_COMPLETION_SIZE, V2_HEADER_SIZE,
};
use vstd::prelude::*;
use vstd::seq_lib::{commutative_foldl, lemma_fold_left_permutation};

verus! {

/// Whether `right` holds from `from + by` on what `left` holds from `from` to
/// `to`.
pub open spec fn same_bytes_at(
    left: Seq<u8>,
    right: Seq<u8>,
    from: int,
    to: int,
    by: int,
) -> bool {
    &&& 0 <= from <= to <= left.len()
    &&& 0 <= from + by
    &&& to + by <= right.len()
    &&& forall|i: int| from <= i < to ==> #[trigger] left[i] == right[i + by]
}

proof fn lemma_same_16(left: Seq<u8>, right: Seq<u8>, from: int, to: int, by: int, at: int)
    requires
        same_bytes_at(left, right, from, to, by),
        from <= at,
        at + 2 <= to,
    ensures
        le_u16(left, at) == le_u16(right, at + by),
{
    assert(left[at] == right[at + by]);
    assert(left[at + 1] == right[at + 1 + by]);
}

proof fn lemma_same_32(left: Seq<u8>, right: Seq<u8>, from: int, to: int, by: int, at: int)
    requires
        same_bytes_at(left, right, from, to, by),
        from <= at,
        at + 4 <= to,
    ensures
        le_u32(left, at) == le_u32(right, at + by),
{
    assert(left[at] == right[at + by]);
    assert(left[at + 1] == right[at + 1 + by]);
    assert(left[at + 2] == right[at + 2 + by]);
    assert(left[at + 3] == right[at + 3 + by]);
}

proof fn lemma_same_64(left: Seq<u8>, right: Seq<u8>, from: int, to: int, by: int, at: int)
    requires
        same_bytes_at(left, right, from, to, by),
        from <= at,
        at + 8 <= to,
    ensures
        le_u64(left, at) == le_u64(right, at + by),
{
    assert(left[at] == right[at + by]);
    assert(left[at + 1] == right[at + 1 + by]);
    assert(left[at + 2] == right[at + 2 + by]);
    assert(left[at + 3] == right[at + 3 + by]);
    assert(left[at + 4] == right[at + 4 + by]);
    assert(left[at + 5] == right[at + 5 + by]);
    assert(left[at + 6] == right[at + 6 + by]);
    assert(left[at + 7] == right[at + 7 + by]);
}

proof fn lemma_same_range(
    left: Seq<u8>,
    right: Seq<u8>,
    from: int,
    to: int,
    by: int,
    start: int,
    end: int,
)
    requires
        same_bytes_at(left, right, from, to, by),
        from <= start <= end <= to,
    ensures
        left.subrange(start, end) == right.subrange(start + by, end + by),
{
    let a = left.subrange(start, end);
    let b = right.subrange(start + by, end + by);
    assert forall|i: int| 0 <= i < a.len() implies a[i] == b[i] by {
        assert(left[start + i] == right[start + i + by]);
    }
    assert(a =~= b);
}

/// The same record elsewhere reads the same.
proof fn lemma_same_record(left: Seq<u8>, right: Seq<u8>, at: int, by: int)
    requires
        0 <= at,
        at + RECORD_HEADER_SIZE <= left.len(),
        RECORD_HEADER_SIZE <= le_u32(left, at + 4),
        same_bytes_at(left, right, at, at + le_u32(left, at + 4), by),
    ensures
        le_u16(right, at + by) == le_u16(left, at),
        le_u32(right, at + by + 4) == le_u32(left, at + 4),
        stream_record_at(right, at + by) == stream_record_at(left, at),
{
    let len = le_u32(left, at + 4) as int;
    let end = at + len;
    lemma_same_16(left, right, at, end, by, at);
    lemma_same_16(left, right, at, end, by, at + 2);
    lemma_same_32(left, right, at, end, by, at + 4);
    if len >= 16 {
        lemma_same_64(left, right, at, end, by, at + 8);
    }
    if len >= 24 {
        lemma_same_32(left, right, at, end, by, at + 16);
        lemma_same_32(left, right, at, end, by, at + 20);
        lemma_same_64(left, right, at, end, by, at + 16);
        lemma_same_range(left, right, at, end, by, at + 24, end);
        let name_len = le_u32(left, at + 16) as int;
        if at + 24 + name_len <= end {
            lemma_same_range(left, right, at, end, by, at + 24, at + 24 + name_len);
            lemma_same_range(left, right, at, end, by, at + 24 + name_len, end);
        }
    }
    if len >= 96 {
        lemma_same_64(left, right, at, end, by, at + 24);
        lemma_same_64(left, right, at, end, by, at + 32);
        lemma_same_64(left, right, at, end, by, at + 40);
        lemma_same_64(left, right, at, end, by, at + 48);
        lemma_same_64(left, right, at, end, by, at + 56);
        lemma_same_64(left, right, at, end, by, at + 64);
        lemma_same_64(left, right, at, end, by, at + 72);
        lemma_same_64(left, right, at, end, by, at + 80);
        lemma_same_64(left, right, at, end, by, at + 88);
    }
}

/// Where the record that closes a stream must stand.
pub open spec fn closing_at(stream: Seq<u8>) -> int {
    stream.len() - V2_COMPLETION_SIZE
}

/// A walk that ends well ends at the closing record.
proof fn lemma_walk_end(stream: Seq<u8>, at: int, collected: Collected)
    requires
        0 <= at,
        collect_from(stream, at, collected) is Ok,
    ensures
        at <= closing_at(stream),
        le_u16(stream, closing_at(stream)) == RECORD_COMPLETION,
        completion_fault(
            stream,
            closing_at(stream),
            collect_from(stream, at, collected)->Ok_0.records,
        ) is None,
    decreases stream.len() - at,
{
    if le_u16(stream, at) != RECORD_COMPLETION {
        let record = stream_record_at(stream, at)->Ok_0;
        let next = collect(collected, record)->Ok_0;
        lemma_walk_end(stream, at + le_u32(stream, at + 4), next);
    }
}

/// A record that is walked over ends before the closing one.
proof fn lemma_walk_step(stream: Seq<u8>, at: int, collected: Collected)
    requires
        0 <= at,
        collect_from(stream, at, collected) is Ok,
        le_u16(stream, at) != RECORD_COMPLETION,
    ensures
        frame_fault(stream, at) is None,
        stream_record_at(stream, at) is Ok,
        collect(collected, stream_record_at(stream, at)->Ok_0) is Ok,
        collect_from(
            stream,
            at + le_u32(stream, at + 4),
            collect(collected, stream_record_at(stream, at)->Ok_0)->Ok_0,
        ) == collect_from(stream, at, collected),
        at + RECORD_HEADER_SIZE <= at + le_u32(stream, at + 4) <= closing_at(stream),
{
    let record = stream_record_at(stream, at)->Ok_0;
    let next = collect(collected, record)->Ok_0;
    lemma_walk_end(stream, at + le_u32(stream, at + 4), next);
}

/// `collected` with more records counted.
pub open spec fn counting(collected: Collected, more: nat) -> Collected {
    Collected { records: collected.records + more, ..collected }
}

/// A walk over the same records elsewhere, with more counted before, gathers the
/// same.
proof fn lemma_walk_elsewhere(
    left: Seq<u8>,
    right: Seq<u8>,
    at: int,
    by: int,
    collected: Collected,
    more: nat,
)
    requires
        0 <= at,
        0 <= at + by,
        collect_from(left, at, collected) is Ok,
        same_bytes_at(left, right, at, closing_at(left), by),
        closing_at(right) == closing_at(left) + by,
        right.len() <= usize::MAX,
        le_u16(right, closing_at(right)) == RECORD_COMPLETION,
        frame_fault(right, closing_at(right)) is None,
        completion_fault(
            right,
            closing_at(right),
            collect_from(left, at, collected)->Ok_0.records + more,
        ) is None,
    ensures
        collect_from(right, at + by, counting(collected, more)) == Ok::<Collected, Seq<char>>(
            counting(collect_from(left, at, collected)->Ok_0, more),
        ),
    decreases left.len() - at,
{
    if le_u16(left, at) == RECORD_COMPLETION {
        lemma_walk_end(left, at, collected);
    } else {
        lemma_walk_step(left, at, collected);
        let end = at + le_u32(left, at + 4);
        let record = stream_record_at(left, at)->Ok_0;
        let next = collect(collected, record)->Ok_0;
        lemma_same_record(left, right, at, by);
        assert(collect(counting(collected, more), record) == Ok::<Collected, Seq<char>>(
            counting(next, more),
        )) by {
            assert(collect(counting(collected, more), record)->Ok_0 =~= counting(next, more));
        }
        lemma_walk_elsewhere(left, right, end, by, next, more);
    }
}

/// Two walks over the same records gather the same.
proof fn lemma_walk_again(left: Seq<u8>, right: Seq<u8>, at: int, collected: Collected)
    requires
        0 <= at,
        left.len() == right.len(),
        collect_from(left, at, collected) is Ok,
        collect_from(right, at, collected) is Ok,
        same_bytes_at(left, right, at, closing_at(left), 0),
    ensures
        collect_from(left, at, collected) == collect_from(right, at, collected),
    decreases left.len() - at,
{
    lemma_walk_end(left, at, collected);
    lemma_walk_end(right, at, collected);
    if at < closing_at(left) {
        assert(le_u16(left, at) != RECORD_COMPLETION);
        assert(le_u16(right, at) != RECORD_COMPLETION);
        lemma_walk_step(left, at, collected);
        lemma_walk_step(right, at, collected);
        lemma_same_record(left, right, at, 0);
        let end = at + le_u32(left, at + 4);
        let next = collect(collected, stream_record_at(left, at)->Ok_0)->Ok_0;
        lemma_walk_again(left, right, end, next);
    }
}

/// A stream that goes on behind a whole one is not whole.
proof fn lemma_walk_short(whole: Seq<u8>, longer: Seq<u8>, at: int, collected: Collected)
    requires
        0 <= at,
        whole.len() < longer.len(),
        same_bytes_at(whole, longer, 0, whole.len() as int, 0),
        collect_from(whole, at, collected) is Ok,
    ensures
        collect_from(longer, at, collected) is Err,
    decreases whole.len() - at,
{
    lemma_walk_end(whole, at, collected);
    lemma_same_16(whole, longer, 0, whole.len() as int, 0, at);
    lemma_same_32(whole, longer, 0, whole.len() as int, 0, at + 4);
    if le_u16(whole, at) != RECORD_COMPLETION {
        lemma_walk_step(whole, at, collected);
        lemma_same_record(whole, longer, at, 0);
        let end = at + le_u32(whole, at + 4);
        let next = collect(collected, stream_record_at(whole, at)->Ok_0)->Ok_0;
        lemma_walk_short(whole, longer, end, next);
    }
}

proof fn lemma_bytes_of_16(left: Seq<u8>, right: Seq<u8>, at: int)
    requires
        le_u16(left, at) == le_u16(right, at),
    ensures
        left[at] == right[at],
        left[at + 1] == right[at + 1],
{
    let (a, b) = (left[at], left[at + 1]);
    let (c, d) = (right[at], right[at + 1]);
    assert(a == c && b == d) by (bit_vector)
        requires
            (a as u16) | ((b as u16) << 8) == (c as u16) | ((d as u16) << 8),
    ;
}

proof fn lemma_bytes_of_32(left: Seq<u8>, right: Seq<u8>, at: int)
    requires
        le_u32(left, at) == le_u32(right, at),
    ensures
        forall|i: int| at <= i < at + 4 ==> left[i] == right[i],
{
    let (a, b, c, d) = (left[at], left[at + 1], left[at + 2], left[at + 3]);
    let (e, f, g, h) = (right[at], right[at + 1], right[at + 2], right[at + 3]);
    assert(a == e && b == f && c == g && d == h) by (bit_vector)
        requires
            (a as u32) | ((b as u32) << 8) | ((c as u32) << 16) | ((d as u32) << 24) == (e as u32)
                | ((f as u32) << 8) | ((g as u32) << 16) | ((h as u32) << 24),
    ;
}

proof fn lemma_bytes_of_64(left: Seq<u8>, right: Seq<u8>, at: int)
    requires
        le_u64(left, at) == le_u64(right, at),
    ensures
        forall|i: int| at <= i < at + 8 ==> left[i] == right[i],
{
    let (a, b, c, d) = (left[at], left[at + 1], left[at + 2], left[at + 3]);
    let (e, f, g, h) = (left[at + 4], left[at + 5], left[at + 6], left[at + 7]);
    let (p, q, r, s) = (right[at], right[at + 1], right[at + 2], right[at + 3]);
    let (t, u, v, w) = (right[at + 4], right[at + 5], right[at + 6], right[at + 7]);
    assert(a == p && b == q && c == r && d == s && e == t && f == u && g == v && h == w)
        by (bit_vector)
        requires
            (a as u64) | ((b as u64) << 8) | ((c as u64) << 16) | ((d as u64) << 24) | ((e as u64)
                << 32) | ((f as u64) << 40) | ((g as u64) << 48) | ((h as u64) << 56) == (p as u64)
                | ((q as u64) << 8) | ((r as u64) << 16) | ((s as u64) << 24) | ((t as u64) << 32)
                | ((u as u64) << 40) | ((v as u64) << 48) | ((w as u64) << 56),
    ;
}

/// Whether the two differ in one byte alone.
pub open spec fn one_byte_differs(left: Seq<u8>, right: Seq<u8>) -> bool {
    &&& left.len() == right.len()
    &&& exists|at: int| differs_only_at(left, right, at)
}

/// Whether the two differ in the byte at `at`, and nowhere else.
pub open spec fn differs_only_at(left: Seq<u8>, right: Seq<u8>, at: int) -> bool {
    &&& 0 <= at < left.len()
    &&& left[at] != right[at]
    &&& forall|i: int| 0 <= i < left.len() && i != at ==> #[trigger] left[i] == right[i]
}

/// Whether one is the other with something behind it.
pub open spec fn cut_short(short: Seq<u8>, long: Seq<u8>) -> bool {
    short.len() < long.len() && short == long.take(short.len() as int)
}

proof fn lemma_one_byte_inside(stream: Seq<u8>, other: Seq<u8>, at: int)
    requires
        stream.len() == other.len(),
        differs_only_at(stream, other, at),
        0 <= at < closing_at(stream),
    ensures
        crc32c_of(stream.subrange(0, closing_at(stream))) != crc32c_of(
            other.subrange(0, closing_at(stream)),
        ),
        le_u32(stream, closing_at(stream) + 24) == le_u32(other, closing_at(stream) + 24),
{
    let end = closing_at(stream);
    let (left, right) = (stream.subrange(0, end), other.subrange(0, end));
    assert forall|i: int| end <= i < stream.len() implies #[trigger] stream[i] == other[i + 0] by {}
    lemma_same_32(stream, other, end, stream.len() as int, 0, end + 24);
    assert forall|i: int| 0 <= i < left.len() && i != at implies left[i] == right[i] by {
        assert(stream[i] == other[i]);
    }
    law_one_byte_is_detected(left, right, at);
}

proof fn lemma_same_closing(stream: Seq<u8>, other: Seq<u8>, records: nat)
    requires
        stream.len() == other.len(),
        V2_COMPLETION_SIZE <= stream.len(),
        stream.subrange(0, closing_at(stream)) == other.subrange(0, closing_at(stream)),
        le_u16(stream, closing_at(stream)) == le_u16(other, closing_at(stream)),
        completion_fault(stream, closing_at(stream), records) is None,
        completion_fault(other, closing_at(stream), records) is None,
    ensures
        forall|i: int| closing_at(stream) <= i < stream.len() ==> stream[i] == other[i],
{
    let end = closing_at(stream);
    lemma_bytes_of_16(stream, other, end);
    lemma_bytes_of_16(stream, other, end + 2);
    lemma_bytes_of_32(stream, other, end + 4);
    lemma_bytes_of_64(stream, other, end + 8);
    lemma_bytes_of_64(stream, other, end + 16);
    lemma_bytes_of_32(stream, other, end + 24);
    lemma_bytes_of_32(stream, other, end + 28);
}

proof fn lemma_one_byte(stream: Seq<u8>, other: Seq<u8>, at: int)
    requires
        stream_of(stream) is Ok,
        stream_of(other) is Ok,
        stream.len() == other.len(),
    ensures
        !differs_only_at(stream, other, at),
{
    if differs_only_at(stream, other, at) {
        let end = closing_at(stream);
        let start = V2_HEADER_SIZE as int;
        lemma_walk_end(stream, start, nothing_collected());
        lemma_walk_end(other, start, nothing_collected());
        if at < end {
            lemma_one_byte_inside(stream, other, at);
        } else {
            assert forall|i: int| 0 <= i < end implies #[trigger] stream[i] == other[i + 0] by {}
            lemma_walk_again(stream, other, start, nothing_collected());
            lemma_same_range(stream, other, 0, end, 0, 0, end);
            let records = collect_from(stream, start, nothing_collected())->Ok_0.records;
            lemma_same_closing(stream, other, records);
        }
    }
}

/// A whole stream is told from a damaged one: where one byte of it changes, or
/// its end is missing, or something follows it, it is refused.
pub proof fn law_damage_is_refused(stream: Seq<u8>, other: Seq<u8>)
    requires
        stream_of(stream) is Ok,
        one_byte_differs(stream, other) || cut_short(other, stream) || cut_short(stream, other),
    ensures
        stream_of(other) is Err,
{
    let start = V2_HEADER_SIZE as int;
    if stream_of(other) is Ok {
        if one_byte_differs(stream, other) {
            let at = choose|at: int| differs_only_at(stream, other, at);
            lemma_one_byte(stream, other, at);
        } else if cut_short(other, stream) {
            assert forall|i: int| 0 <= i < other.len() implies #[trigger] other[i] == stream[i
                + 0] by {
                assert(other[i] == stream.take(other.len() as int)[i]);
            }
            lemma_walk_short(other, stream, start, nothing_collected());
        } else {
            assert forall|i: int| 0 <= i < stream.len() implies #[trigger] stream[i] == other[i
                + 0] by {
                assert(stream[i] == other.take(stream.len() as int)[i]);
            }
            lemma_walk_short(stream, other, start, nothing_collected());
        }
    }
}

/// Whether a record starts at `at`, counted from the one at `from`.
pub open spec fn record_starts(stream: Seq<u8>, from: int, at: int) -> bool
    decreases stream.len() - from,
{
    from == at || (frame_fault(stream, from) is None && le_u16(stream, from) != RECORD_COMPLETION
        && record_starts(stream, from + le_u32(stream, from + 4), at))
}

/// Whether the bytes are one whole record of a kind without a meaning yet, that
/// may be passed over.
pub open spec fn optional_record(record: Seq<u8>) -> bool {
    &&& RECORD_HEADER_SIZE <= record.len()
    &&& le_u32(record, 4) == record.len()
    &&& le_u16(record, 2) == RECORD_OPTIONAL
    &&& !(1 <= le_u16(record, 0) <= 7)
    &&& le_u16(record, 0) != RECORD_COMPLETION
}

/// Whether `other` is the stream with the record put in at `at`, and closed
/// anew: with one record more, the longer length and its own check value.
pub open spec fn with_record(stream: Seq<u8>, other: Seq<u8>, at: int, record: Seq<u8>) -> bool {
    let end = closing_at(stream);
    let by = record.len() as int;
    &&& other.len() == stream.len() + by
    &&& same_bytes_at(stream, other, 0, at, 0)
    &&& same_bytes_at(record, other, 0, by, at)
    &&& same_bytes_at(stream, other, at, end, by)
    &&& le_u16(other, end + by) == RECORD_COMPLETION
    &&& le_u16(other, end + by + 2) == 0
    &&& le_u32(other, end + by + 4) == V2_COMPLETION_SIZE
    &&& le_u64(other, end + by + 8) == le_u64(stream, end + 8) + 1
    &&& le_u64(other, end + by + 16) == end + by
    &&& le_u32(other, end + by + 24) == crc32c_of(other.subrange(0, end + by))
    &&& le_u32(other, end + by + 28) == 0
}

proof fn lemma_optional_record(record: Seq<u8>, other: Seq<u8>, at: int)
    requires
        0 <= at,
        optional_record(record),
        same_bytes_at(record, other, 0, record.len() as int, at),
        other.len() <= usize::MAX,
    ensures
        frame_fault(other, at) is None,
        le_u16(other, at) != RECORD_COMPLETION,
        le_u32(other, at + 4) == record.len(),
        stream_record_at(other, at) == Ok::<StreamRecord, Seq<char>>(StreamRecord::Extension),
{
    lemma_same_record(record, other, 0, at);
    assert(stream_record_at(record, 0) == Ok::<StreamRecord, Seq<char>>(StreamRecord::Extension));
}

proof fn lemma_closed_anew(
    stream: Seq<u8>,
    other: Seq<u8>,
    at: int,
    record: Seq<u8>,
    gathered: Collected,
)
    requires
        V2_COMPLETION_SIZE <= stream.len(),
        completion_fault(stream, closing_at(stream), gathered.records) is None,
        with_record(stream, other, at, record),
        other.len() <= usize::MAX,
    ensures
        closing_at(other) == closing_at(stream) + record.len(),
        frame_fault(other, closing_at(other)) is None,
        completion_fault(other, closing_at(other), gathered.records + 1) is None,
{
}

proof fn lemma_walk_with_record(
    stream: Seq<u8>,
    other: Seq<u8>,
    from: int,
    at: int,
    record: Seq<u8>,
    collected: Collected,
)
    requires
        0 <= from <= at,
        collect_from(stream, from, collected) is Ok,
        record_starts(stream, from, at),
        optional_record(record),
        with_record(stream, other, at, record),
        other.len() <= usize::MAX,
    ensures
        collect_from(other, from, collected) == Ok::<Collected, Seq<char>>(
            counting(collect_from(stream, from, collected)->Ok_0, 1),
        ),
    decreases stream.len() - from,
{
    let end = closing_at(stream);
    let by = record.len() as int;
    lemma_walk_end(stream, from, collected);
    if from == at {
        lemma_optional_record(record, other, at);
        assert(collect(collected, StreamRecord::Extension)->Ok_0 =~= counting(collected, 1));
        lemma_closed_anew(stream, other, at, record, collect_from(stream, from, collected)->Ok_0);
        lemma_walk_elsewhere(stream, other, at, by, collected, 1);
    } else {
        lemma_walk_step(stream, from, collected);
        let next_at = from + le_u32(stream, from + 4);
        lemma_starts_later(stream, next_at, at);
        lemma_same_record(stream, other, from, 0);
        let next = collect(collected, stream_record_at(stream, from)->Ok_0)->Ok_0;
        lemma_walk_with_record(stream, other, next_at, at, record, next);
    }
}

proof fn lemma_starts_later(stream: Seq<u8>, from: int, at: int)
    requires
        record_starts(stream, from, at),
    ensures
        from <= at,
    decreases stream.len() - from,
{
    if from != at {
        lemma_starts_later(stream, from + le_u32(stream, from + 4), at);
    }
}

/// A record of a kind without a meaning yet changes nothing of what a stream
/// says, wherever between its records it stands.
pub proof fn law_optional_record_is_passed_over(
    stream: Seq<u8>,
    other: Seq<u8>,
    at: int,
    record: Seq<u8>,
)
    requires
        stream_of(stream) is Ok,
        record_starts(stream, V2_HEADER_SIZE as int, at),
        optional_record(record),
        with_record(stream, other, at, record),
        other.len() <= usize::MAX,
    ensures
        stream_of(other) == stream_of(stream),
{
    let start = V2_HEADER_SIZE as int;
    lemma_starts_later(stream, start, at);
    lemma_walk_with_record(stream, other, start, at, record, nothing_collected());
    lemma_same_range(stream, other, 0, at, 0, 0, 16);
    lemma_same_32(stream, other, 0, at, 0, 16);
    lemma_same_32(stream, other, 0, at, 0, 20);
    lemma_same_64(stream, other, 0, at, 0, 24);
    lemma_same_range(stream, other, 0, at, 0, 32, 48);
    lemma_same_range(stream, other, 0, at, 0, 48, 64);
    lemma_same_range(stream, other, 0, at, 0, 64, 80);
    lemma_same_64(stream, other, 0, at, 0, 80);
    lemma_same_64(stream, other, 0, at, 0, 88);
    lemma_same_64(stream, other, 0, at, 0, 96);
    lemma_same_64(stream, other, 0, at, 0, 104);
    assert(stream_header(other) == stream_header(stream));
    assert(stream_header_fault(other) is None);
}

/// Records one behind the other.
pub open spec fn laid_out(records: Seq<Seq<u8>>) -> Seq<u8>
    decreases records.len(),
{
    if records.len() == 0 {
        Seq::empty()
    } else {
        records[0] + laid_out(records.subrange(1, records.len() as int))
    }
}

/// Whether the bytes have the length that they say.
pub open spec fn whole_record(record: Seq<u8>) -> bool {
    RECORD_HEADER_SIZE <= record.len() && le_u32(record, 4) == record.len()
}

/// What gathering one more record of the first format leaves, where nothing is
/// wrong.
pub open spec fn gathering() -> spec_fn(Option<Gathered>, Seq<u8>) -> Option<Gathered> {
    |gathered: Option<Gathered>, record: Seq<u8>|
        match gathered {
            None => None,
            Some(gathered) => match record_at(record, 0) {
                Err(_) => None,
                Ok(record) => match gather(gathered, record) {
                    Err(_) => None,
                    Ok(next) => Some(next),
                },
            },
        }
}

proof fn lemma_gathering_commutes()
    ensures
        commutative_foldl(gathering()),
{
    let f = gathering();
    assert forall|x: Seq<u8>, y: Seq<u8>, v: Option<Gathered>| #[trigger]
        f(f(v, x), y) == f(f(v, y), x) by {
        let (left, right) = (f(f(v, x), y), f(f(v, y), x));
        if left is Some && right is Some {
            assert(left->0 =~= right->0);
        }
    }
}

/// The same record elsewhere reads the same in the first format.
proof fn lemma_same_first_record(record: Seq<u8>, bytes: Seq<u8>, at: int)
    requires
        0 <= at,
        whole_record(record),
        same_bytes_at(record, bytes, 0, record.len() as int, at),
        bytes.len() <= usize::MAX,
    ensures
        record_at(bytes, at) == record_at(record, 0),
        record_end(bytes, at) == at + record.len(),
{
    let len = record.len() as int;
    lemma_same_16(record, bytes, 0, len, at, 0);
    lemma_same_16(record, bytes, 0, len, at, 2);
    lemma_same_32(record, bytes, 0, len, at, 4);
    if len >= 24 {
        lemma_same_64(record, bytes, 0, len, at, 8);
        lemma_same_64(record, bytes, 0, len, at, 16);
        lemma_same_range(record, bytes, 0, len, at, 24, len);
    }
    if len >= 40 {
        lemma_same_64(record, bytes, 0, len, at, 24);
        lemma_same_64(record, bytes, 0, len, at, 32);
    }
}

proof fn lemma_gather_records(
    bytes: Seq<u8>,
    at: int,
    records: Seq<Seq<u8>>,
    gathered: Gathered,
)
    requires
        0 <= at <= bytes.len() <= usize::MAX,
        bytes.subrange(at, bytes.len() as int) == laid_out(records),
        forall|i: int| 0 <= i < records.len() ==> whole_record(#[trigger] records[i]),
    ensures
        records.fold_left_alt(Some(gathered), gathering()) == match gather_from(
            bytes,
            at,
            gathered,
        ) {
            Ok(all) => Some(all),
            Err(_) => None,
        },
    decreases records.len(),
{
    reveal_with_fuel(Seq::fold_left_alt, 2);
    let left = bytes.subrange(at, bytes.len() as int);
    if records.len() > 0 {
        let record = records[0];
        let rest = records.subrange(1, records.len() as int);
        assert(left == record + laid_out(rest));
        assert forall|i: int| 0 <= i < record.len() implies #[trigger] record[i] == bytes[i + at] by {
            assert(left[i] == record[i]);
        }
        assert(left.len() == bytes.len() - at);
        lemma_same_first_record(record, bytes, at);
        let next_at = at + record.len();
        assert(bytes.subrange(next_at, bytes.len() as int) =~= laid_out(rest)) by {
            assert(left.subrange(record.len() as int, left.len() as int) =~= laid_out(rest));
            assert(left.subrange(record.len() as int, left.len() as int) =~= bytes.subrange(
                next_at,
                bytes.len() as int,
            ));
        }
        assert forall|i: int| 0 <= i < rest.len() implies whole_record(#[trigger] rest[i]) by {
            assert(rest[i] == records[i + 1]);
        }
        let next = gathering()(Some(gathered), record);
        match next {
            Some(gathered) => {
                lemma_gather_records(bytes, next_at, rest, gathered);
            },
            None => {
                lemma_nothing_more(rest);
            },
        }
    } else {
        assert(left.len() == 0);
    }
}

proof fn lemma_nothing_more(records: Seq<Seq<u8>>)
    ensures
        records.fold_left_alt(None, gathering()) is None,
    decreases records.len(),
{
    reveal_with_fuel(Seq::fold_left_alt, 2);
    if records.len() > 0 {
        lemma_nothing_more(records.subrange(1, records.len() as int));
    }
}

/// The order of the records of the first format is of no matter: two streams of
/// the same records are both accepted or both refused, and hold the same
/// manifest, with the same canonical digest.
pub proof fn law_order_of_records_is_free(
    head: Seq<u8>,
    records: Seq<Seq<u8>>,
    reordered: Seq<Seq<u8>>,
)
    requires
        head.len() == HEADER_SIZE,
        records.to_multiset() == reordered.to_multiset(),
        forall|i: int| 0 <= i < records.len() ==> whole_record(#[trigger] records[i]),
        head.len() + laid_out(records).len() <= usize::MAX,
        head.len() + laid_out(reordered).len() <= usize::MAX,
    ensures
        ({
            let first = manifest_of(head + laid_out(records));
            let second = manifest_of(head + laid_out(reordered));
            &&& first is Ok == second is Ok
            &&& first is Ok ==> first == second && sha256(canonical_preimage(first->Ok_0))
                == sha256(canonical_preimage(second->Ok_0))
        }),
{
    let (left, right) = (head + laid_out(records), head + laid_out(reordered));
    let start = HEADER_SIZE as int;
    assert(left.subrange(start, left.len() as int) =~= laid_out(records));
    assert(right.subrange(start, right.len() as int) =~= laid_out(reordered));
    assert forall|i: int| 0 <= i < reordered.len() implies whole_record(#[trigger] reordered[i]) by {
        broadcast use vstd::seq_lib::group_to_multiset_ensures;

        assert(reordered.contains(reordered[i]));
        assert(reordered.to_multiset().count(reordered[i]) > 0);
        assert(records.contains(reordered[i]));
        let j = choose|j: int| 0 <= j < records.len() && records[j] == reordered[i];
        assert(whole_record(records[j]));
    }
    let none = nothing_gathered();
    lemma_gather_records(left, start, records, none);
    lemma_gather_records(right, start, reordered, none);
    records.lemma_fold_left_alt(Some(none), gathering());
    reordered.lemma_fold_left_alt(Some(none), gathering());
    lemma_gathering_commutes();
    lemma_fold_left_permutation(records, reordered, gathering(), Some(none));
    assert(left.subrange(0, 16) =~= head.subrange(0, 16));
    assert(right.subrange(0, 16) =~= head.subrange(0, 16));
    assert forall|i: int| 0 <= i < start implies #[trigger] left[i] == right[i + 0] by {
        assert(left[i] == head[i]);
        assert(right[i] == head[i]);
    }
    lemma_same_32(left, right, 0, start, 0, 16);
    lemma_same_32(left, right, 0, start, 0, 20);
    assert(header_fault(left) is None == header_fault(right) is None);
}

} // verus!
