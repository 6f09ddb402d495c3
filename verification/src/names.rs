//! The names of files that the service makes, and how it knows them again.

use crate::bytes::{get_range, push_bytes};
use crate::digest::{drawn, random_id};
use crate::text::same_bytes;
use vstd::prelude::*;

verus! {

/// `full-index-`.
pub const FULL_INDEX_PREFIX: [u8; 11] = [102, 117, 108, 108, 45, 105, 110, 100, 101, 120, 45];

/// `target-index-`.
pub const TARGET_INDEX_PREFIX: [u8; 13] = [
    116, 97, 114, 103, 101, 116, 45, 105, 110, 100, 101, 120, 45,
];

/// `historical-`.
pub const HISTORICAL_PREFIX: [u8; 11] = [104, 105, 115, 116, 111, 114, 105, 99, 97, 108, 45];

/// `manifest-`.
pub const MANIFEST_PREFIX: [u8; 9] = [109, 97, 110, 105, 102, 101, 115, 116, 45];

/// `.part`.
pub const PART_SUFFIX: [u8; 5] = [46, 112, 97, 114, 116];

/// `cut-initialize-`.
pub const INITIALIZE_PREFIX: [u8; 15] = [
    99, 117, 116, 45, 105, 110, 105, 116, 105, 97, 108, 105, 122, 101, 45,
];

/// `cut-`.
pub const CUT_PREFIX: [u8; 4] = [99, 117, 116, 45];

/// `worktree-`.
pub const WORKTREE_PREFIX: [u8; 9] = [119, 111, 114, 107, 116, 114, 101, 101, 45];

/// `.btrfs-awacs-marker-`.
pub const MARKER_PREFIX: [u8; 20] = [
    46, 98, 116, 114, 102, 115, 45, 97, 119, 97, 99, 115, 45, 109, 97, 114, 107, 101, 114, 45,
];

/// `quarantine`.
pub const QUARANTINE_NAME: [u8; 10] = [113, 117, 97, 114, 97, 110, 116, 105, 110, 101];

/// `-quarantine-`.
pub const QUARANTINE_INFIX: [u8; 12] = [45, 113, 117, 97, 114, 97, 110, 116, 105, 110, 101, 45];

/// `-`.
pub const DASH: u8 = 45;

/// The lower-case hexadecimal digit of a value below sixteen.
pub open spec fn hex_digit(value: u8) -> u8 {
    if value < 10 {
        (48 + value) as u8
    } else {
        (87 + value) as u8
    }
}

/// The bytes in lower-case hexadecimal.
pub open spec fn hex(bytes: Seq<u8>) -> Seq<u8>
    decreases bytes.len(),
{
    if bytes.len() == 0 {
        Seq::empty()
    } else {
        hex(bytes.drop_last()).push(hex_digit(bytes.last() / 16)).push(hex_digit(bytes.last() % 16))
    }
}

/// The number in decimal.
pub open spec fn digits(value: nat) -> Seq<u8>
    decreases value,
{
    let last = (48 + value % 10) as u8;
    if value < 10 {
        seq![last]
    } else {
        digits(value / 10).push(last)
    }
}

/// The number in decimal, with a dash where it is negative.
pub open spec fn signed_digits(value: int) -> Seq<u8> {
    if value < 0 {
        seq![DASH] + digits((-value) as nat)
    } else {
        digits(value as nat)
    }
}

/// The identifier in five groups of hexadecimal digits.
pub open spec fn hyphenated(id: Seq<u8>) -> Seq<u8> {
    hex(id.subrange(0, 4)) + seq![DASH] + hex(id.subrange(4, 6)) + seq![DASH] + hex(
        id.subrange(6, 8),
    ) + seq![DASH] + hex(id.subrange(8, 10)) + seq![DASH] + hex(id.subrange(10, 16))
}

fn hex_digit_of(value: u8) -> (digit: u8)
    requires
        value < 16,
    ensures
        digit == hex_digit(value),
{
    if value < 10 {
        48 + value
    } else {
        87 + value
    }
}

/// Appends bytes in lower-case hexadecimal.
pub fn push_hex(out: &mut Vec<u8>, bytes: &[u8])
    ensures
        final(out)@ == old(out)@ + hex(bytes@),
{
    let ghost before = out@;
    let mut at: usize = 0;
    while at < bytes.len()
        invariant
            at <= bytes@.len(),
            out@ == before + hex(bytes@.take(at as int)),
        decreases bytes.len() - at,
    {
        assert(bytes@.take(at + 1).drop_last() =~= bytes@.take(at as int));
        out.push(hex_digit_of(bytes[at] / 16));
        out.push(hex_digit_of(bytes[at] % 16));
        at += 1;
        assert(out@ =~= before + hex(bytes@.take(at as int)));
    }
    assert(bytes@.take(at as int) =~= bytes@);
}

fn push_digits(out: &mut Vec<u8>, value: u64)
    ensures
        final(out)@ == old(out)@ + digits(value as nat),
    decreases value,
{
    let ghost before = out@;
    if value >= 10 {
        push_digits(out, value / 10);
    }
    out.push(48 + (value % 10) as u8);
    assert(out@ =~= before + digits(value as nat));
}

/// Appends a number in decimal.
pub fn push_signed_digits(out: &mut Vec<u8>, value: i64)
    ensures
        final(out)@ == old(out)@ + signed_digits(value as int),
{
    let ghost before = out@;
    if value < 0 {
        out.push(DASH);
        push_digits(out, (-(value as i128)) as u64);
    } else {
        push_digits(out, value as u64);
    }
    assert(out@ =~= before + signed_digits(value as int));
}

/// The identifier in lower-case hexadecimal.
pub fn hex_id(id: &[u8; 16]) -> (text: Vec<u8>)
    ensures
        text@ == hex(id@),
{
    let mut text: Vec<u8> = Vec::new();
    push_hex(&mut text, id);
    assert(text@ =~= hex(id@));
    text
}

/// The identifier in five groups of hexadecimal digits.
pub fn hyphenated_id(id: &[u8; 16]) -> (text: Vec<u8>)
    ensures
        text@ == hyphenated(id@),
{
    let mut text: Vec<u8> = Vec::new();
    push_hex(&mut text, &get_range(id, 0, 4));
    text.push(DASH);
    push_hex(&mut text, &get_range(id, 4, 6));
    text.push(DASH);
    push_hex(&mut text, &get_range(id, 6, 8));
    text.push(DASH);
    push_hex(&mut text, &get_range(id, 8, 10));
    text.push(DASH);
    push_hex(&mut text, &get_range(id, 10, 16));
    assert(text@ =~= hyphenated(id@));
    text
}

/// The name that the prefix and the identifier make.
pub fn operation_name_as(prefix: &[u8], id: &[u8; 16]) -> (name: Vec<u8>)
    ensures
        name@ == prefix@ + hex(id@),
{
    let mut name: Vec<u8> = Vec::new();
    push_bytes(&mut name, prefix);
    push_hex(&mut name, id);
    assert(name@ =~= prefix@ + hex(id@));
    name
}

/// A name that the prefix and a random identifier make.
pub fn operation_name(prefix: &[u8]) -> (name: Vec<u8>)
    ensures
        exists|id: [u8; 16]| drawn(id) && name@ == prefix@ + #[trigger] hex(id@),
{
    let id: [u8; 16] = random_id();
    operation_name_as(prefix, &id)
}

/// The name of the marker with the identifier.
pub fn marker_name(id: &[u8; 16]) -> (name: Vec<u8>)
    ensures
        name@ == MARKER_PREFIX@ + hyphenated(id@),
{
    let mut name: Vec<u8> = Vec::new();
    push_bytes(&mut name, &MARKER_PREFIX);
    push_bytes(&mut name, &hyphenated_id(id));
    assert(name@ =~= MARKER_PREFIX@ + hyphenated(id@));
    name
}

/// The name that a manifest of the operation is spooled under.
pub open spec fn manifest_name(operation_id: Seq<u8>, fence: int) -> Seq<u8> {
    MANIFEST_PREFIX@ + hex(operation_id) + seq![DASH] + signed_digits(fence) + PART_SUFFIX@
}

/// The name that a manifest of the operation is spooled under.
pub fn manifest_spool_name(operation_id: &[u8; 16], fence: i64) -> (name: Vec<u8>)
    ensures
        name@ == manifest_name(operation_id@, fence as int),
{
    let mut name: Vec<u8> = Vec::new();
    push_bytes(&mut name, &MANIFEST_PREFIX);
    push_hex(&mut name, operation_id);
    name.push(DASH);
    push_signed_digits(&mut name, fence);
    push_bytes(&mut name, &PART_SUFFIX);
    assert(name@ =~= manifest_name(operation_id@, fence as int));
    name
}

/// The name that a manifest of the comparison is spooled under.
pub open spec fn historical_name(comparison_id: int, fence: int) -> Seq<u8> {
    HISTORICAL_PREFIX@ + signed_digits(comparison_id) + seq![DASH] + signed_digits(fence)
        + PART_SUFFIX@
}

/// The name that a manifest of the comparison is spooled under.
pub fn historical_spool_name(comparison_id: i64, fence: i64) -> (name: Vec<u8>)
    ensures
        name@ == historical_name(comparison_id as int, fence as int),
{
    let mut name: Vec<u8> = Vec::new();
    push_bytes(&mut name, &HISTORICAL_PREFIX);
    push_signed_digits(&mut name, comparison_id);
    name.push(DASH);
    push_signed_digits(&mut name, fence);
    push_bytes(&mut name, &PART_SUFFIX);
    assert(name@ =~= historical_name(comparison_id as int, fence as int));
    name
}

/// The name that an unexpected entry is kept under.
pub fn quarantine_name(name: &[u8], id: &[u8; 16]) -> (kept: Vec<u8>)
    ensures
        kept@ == name@ + QUARANTINE_INFIX@ + hex(id@),
{
    let mut kept: Vec<u8> = Vec::new();
    push_bytes(&mut kept, name);
    push_bytes(&mut kept, &QUARANTINE_INFIX);
    push_hex(&mut kept, id);
    assert(kept@ =~= name@ + QUARANTINE_INFIX@ + hex(id@));
    kept
}

/// What follows the prefix.
pub open spec fn after_prefix(name: Seq<u8>, prefix: Seq<u8>) -> Option<Seq<u8>> {
    if prefix.len() <= name.len() && name.take(prefix.len() as int) == prefix {
        Some(name.skip(prefix.len() as int))
    } else {
        None
    }
}

/// What precedes the suffix.
pub open spec fn before_suffix(name: Seq<u8>, suffix: Seq<u8>) -> Option<Seq<u8>> {
    if suffix.len() <= name.len() && name.skip(name.len() - suffix.len()) == suffix {
        Some(name.take(name.len() - suffix.len()))
    } else {
        None
    }
}

/// What follows the prefix.
pub fn strip_prefix(name: &[u8], prefix: &[u8]) -> (rest: Option<Vec<u8>>)
    ensures
        match rest {
            Some(rest) => after_prefix(name@, prefix@) == Some(rest@),
            None => after_prefix(name@, prefix@) is None,
        },
{
    if prefix.len() > name.len() {
        return None;
    }
    let head = get_range(name, 0, prefix.len());
    assert(head@ =~= name@.take(prefix@.len() as int));
    if same_bytes(&head, prefix) {
        let rest = get_range(name, prefix.len(), name.len());
        assert(rest@ =~= name@.skip(prefix@.len() as int));
        Some(rest)
    } else {
        None
    }
}

/// What precedes the suffix.
pub fn strip_suffix(name: &[u8], suffix: &[u8]) -> (rest: Option<Vec<u8>>)
    ensures
        match rest {
            Some(rest) => before_suffix(name@, suffix@) == Some(rest@),
            None => before_suffix(name@, suffix@) is None,
        },
{
    if suffix.len() > name.len() {
        return None;
    }
    let split: usize = name.len() - suffix.len();
    let tail = get_range(name, split, name.len());
    assert(tail@ =~= name@.skip(split as int));
    if same_bytes(&tail, suffix) {
        let rest = get_range(name, 0, split);
        assert(rest@ =~= name@.take(split as int));
        Some(rest)
    } else {
        None
    }
}

/// Whether the byte is a hexadecimal digit, of either case.
pub open spec fn is_hex_digit(byte: u8) -> bool {
    48 <= byte <= 57 || 65 <= byte <= 70 || 97 <= byte <= 102
}

/// Whether the bytes are thirty-two hexadecimal digits.
pub open spec fn is_hex_id(bytes: Seq<u8>) -> bool {
    bytes.len() == 32 && forall|i: int| 0 <= i < bytes.len() ==> is_hex_digit(#[trigger] bytes[i])
}

/// Whether the bytes are decimal digits, at least one.
pub open spec fn is_number(bytes: Seq<u8>) -> bool {
    bytes.len() > 0 && forall|i: int| 0 <= i < bytes.len() ==> 48 <= #[trigger] bytes[i] <= 57
}

/// Where the last dash of the first `n` bytes is.
pub open spec fn last_dash_before(bytes: Seq<u8>, n: int) -> Option<int>
    decreases n,
{
    if n <= 0 {
        None
    } else if bytes[n - 1] == DASH {
        Some(n - 1)
    } else {
        last_dash_before(bytes, n - 1)
    }
}

/// The parts before and behind the last dash.
pub open spec fn split_at_dash(bytes: Seq<u8>) -> Option<(Seq<u8>, Seq<u8>)> {
    match last_dash_before(bytes, bytes.len() as int) {
        Some(at) => Some((bytes.take(at), bytes.skip(at + 1))),
        None => None,
    }
}

/// Whether a spool file of the name is left over from an earlier process.
pub open spec fn stale_spool_name(name: Seq<u8>) -> bool {
    match after_prefix(name, FULL_INDEX_PREFIX@) {
        Some(id) => is_hex_id(id),
        None => match after_prefix(name, TARGET_INDEX_PREFIX@) {
            Some(id) => is_hex_id(id),
            None => match after_prefix(name, HISTORICAL_PREFIX@) {
                Some(rest) => match before_suffix(rest, PART_SUFFIX@) {
                    Some(rest) => match split_at_dash(rest) {
                        Some((id, fence)) => is_number(id) && is_number(fence),
                        None => false,
                    },
                    None => false,
                },
                None => match after_prefix(name, MANIFEST_PREFIX@) {
                    Some(rest) => match before_suffix(rest, PART_SUFFIX@) {
                        Some(rest) => match split_at_dash(rest) {
                            Some((id, fence)) => is_hex_id(id) && is_number(fence),
                            None => false,
                        },
                        None => false,
                    },
                    None => false,
                },
            },
        },
    }
}

/// Whether the name is the prefix and an identifier.
pub open spec fn names_object(name: Seq<u8>, prefix: Seq<u8>) -> bool {
    match after_prefix(name, prefix) {
        Some(id) => is_hex_id(id),
        None => false,
    }
}

/// Whether an entry of the name in the managed directory is the service's.
pub open spec fn managed_object_name(name: Seq<u8>) -> bool {
    ||| names_object(name, INITIALIZE_PREFIX@)
    ||| names_object(name, CUT_PREFIX@)
    ||| names_object(name, WORKTREE_PREFIX@)
}

fn has_hex_id(bytes: &[u8]) -> (found: bool)
    ensures
        found == is_hex_id(bytes@),
{
    if bytes.len() != 32 {
        return false;
    }
    let mut at: usize = 0;
    while at < bytes.len()
        invariant
            at <= bytes@.len(),
            bytes@.len() == 32,
            forall|i: int| 0 <= i < at ==> is_hex_digit(#[trigger] bytes@[i]),
        decreases bytes.len() - at,
    {
        let byte: u8 = bytes[at];
        if !((48 <= byte && byte <= 57) || (65 <= byte && byte <= 70) || (97 <= byte && byte
            <= 102)) {
            assert(!is_hex_digit(bytes@[at as int]));
            return false;
        }
        at += 1;
    }
    true
}

fn has_number(bytes: &[u8]) -> (found: bool)
    ensures
        found == is_number(bytes@),
{
    if bytes.len() == 0 {
        return false;
    }
    let mut at: usize = 0;
    while at < bytes.len()
        invariant
            at <= bytes@.len(),
            bytes@.len() > 0,
            forall|i: int| 0 <= i < at ==> 48 <= #[trigger] bytes@[i] <= 57,
        decreases bytes.len() - at,
    {
        let byte: u8 = bytes[at];
        if byte < 48 || byte > 57 {
            assert(!(48 <= bytes@[at as int] <= 57));
            return false;
        }
        at += 1;
    }
    true
}

fn cut_at_dash(bytes: &[u8]) -> (parts: Option<(Vec<u8>, Vec<u8>)>)
    ensures
        match parts {
            Some((head, tail)) => split_at_dash(bytes@) == Some((head@, tail@)),
            None => split_at_dash(bytes@) is None,
        },
{
    let mut n: usize = bytes.len();
    while n > 0
        invariant
            n <= bytes@.len(),
            last_dash_before(bytes@, bytes@.len() as int) == last_dash_before(bytes@, n as int),
        decreases n,
    {
        if bytes[n - 1] == DASH {
            let head = get_range(bytes, 0, n - 1);
            let tail = get_range(bytes, n, bytes.len());
            assert(head@ =~= bytes@.take(n - 1));
            assert(tail@ =~= bytes@.skip(n as int));
            return Some((head, tail));
        }
        n -= 1;
    }
    None
}

/// Whether a spool file of the name is left over from an earlier process.
pub fn is_stale_spool_name(name: &[u8]) -> (stale: bool)
    ensures
        stale == stale_spool_name(name@),
{
    match strip_prefix(name, &FULL_INDEX_PREFIX) {
        Some(id) => {
            return has_hex_id(&id);
        },
        None => {},
    }
    match strip_prefix(name, &TARGET_INDEX_PREFIX) {
        Some(id) => {
            return has_hex_id(&id);
        },
        None => {},
    }
    match strip_prefix(name, &HISTORICAL_PREFIX) {
        Some(rest) => {
            return match strip_suffix(&rest, &PART_SUFFIX) {
                Some(rest) => match cut_at_dash(&rest) {
                    Some((id, fence)) => has_number(&id) && has_number(&fence),
                    None => false,
                },
                None => false,
            };
        },
        None => {},
    }
    match strip_prefix(name, &MANIFEST_PREFIX) {
        Some(rest) => match strip_suffix(&rest, &PART_SUFFIX) {
            Some(rest) => match cut_at_dash(&rest) {
                Some((id, fence)) => has_hex_id(&id) && has_number(&fence),
                None => false,
            },
            None => false,
        },
        None => false,
    }
}

fn does_name_object(name: &[u8], prefix: &[u8]) -> (names: bool)
    ensures
        names == names_object(name@, prefix@),
{
    match strip_prefix(name, prefix) {
        Some(id) => has_hex_id(&id),
        None => false,
    }
}

/// Whether an entry of the name in the managed directory is the service's.
pub fn is_managed_object_name(name: &[u8]) -> (managed: bool)
    ensures
        managed == managed_object_name(name@),
{
    does_name_object(name, &INITIALIZE_PREFIX) || does_name_object(name, &CUT_PREFIX)
        || does_name_object(name, &WORKTREE_PREFIX)
}

proof fn lemma_hex(bytes: Seq<u8>)
    ensures
        hex(bytes).len() == 2 * bytes.len(),
        forall|i: int|
            0 <= i < hex(bytes).len() ==> is_hex_digit(#[trigger] hex(bytes)[i]) && hex(bytes)[i]
                != DASH,
    decreases bytes.len(),
{
    if bytes.len() > 0 {
        lemma_hex(bytes.drop_last());
    }
}

proof fn lemma_digits(value: nat)
    ensures
        is_number(digits(value)),
    decreases value,
{
    if value >= 10 {
        lemma_digits(value / 10);
    }
}

proof fn lemma_prefix(prefix: Seq<u8>, rest: Seq<u8>)
    ensures
        after_prefix(prefix + rest, prefix) == Some(rest),
{
    assert((prefix + rest).take(prefix.len() as int) =~= prefix);
    assert((prefix + rest).skip(prefix.len() as int) =~= rest);
}

proof fn lemma_suffix(rest: Seq<u8>, suffix: Seq<u8>)
    ensures
        before_suffix(rest + suffix, suffix) == Some(rest),
{
    let name = rest + suffix;
    assert(name.skip(name.len() - suffix.len()) =~= suffix);
    assert(name.take(name.len() - suffix.len()) =~= rest);
}

proof fn lemma_last_dash(head: Seq<u8>, tail: Seq<u8>, n: int)
    requires
        head.len() < n <= head.len() + 1 + tail.len(),
        forall|i: int| 0 <= i < tail.len() ==> #[trigger] tail[i] != DASH,
    ensures
        last_dash_before(head + seq![DASH] + tail, n) == Some(head.len() as int),
    decreases n,
{
    let bytes = head + seq![DASH] + tail;
    if n > head.len() + 1 {
        assert(bytes[n - 1] == tail[n - 2 - head.len()]);
        lemma_last_dash(head, tail, n - 1);
    }
}

proof fn lemma_dash(head: Seq<u8>, tail: Seq<u8>)
    requires
        forall|i: int| 0 <= i < tail.len() ==> #[trigger] tail[i] != DASH,
    ensures
        split_at_dash(head + seq![DASH] + tail) == Some((head, tail)),
{
    let bytes = head + seq![DASH] + tail;
    lemma_last_dash(head, tail, bytes.len() as int);
    assert(bytes.take(head.len() as int) =~= head);
    assert(bytes.skip(head.len() as int + 1) =~= tail);
}

/// Every name that a manifest or an index is spooled under is known again as
/// left over.
pub proof fn law_spool_names_are_known(id: [u8; 16], number: i64, fence: i64)
    requires
        number >= 0,
        fence >= 0,
    ensures
        stale_spool_name(FULL_INDEX_PREFIX@ + hex(id@)),
        stale_spool_name(TARGET_INDEX_PREFIX@ + hex(id@)),
        stale_spool_name(historical_name(number as int, fence as int)),
        stale_spool_name(manifest_name(id@, fence as int)),
{
    lemma_hex(id@);
    lemma_digits(number as nat);
    lemma_digits(fence as nat);
    let full = FULL_INDEX_PREFIX@ + hex(id@);
    lemma_prefix(FULL_INDEX_PREFIX@, hex(id@));
    let target = TARGET_INDEX_PREFIX@ + hex(id@);
    lemma_prefix(TARGET_INDEX_PREFIX@, hex(id@));
    assert(target[0] == 116);
    assert(target.take(11)[0] == target[0]);
    assert(FULL_INDEX_PREFIX@[0] == 102);
    let tail = signed_digits(fence as int);
    let historical = historical_name(number as int, fence as int);
    let body = signed_digits(number as int) + seq![DASH] + tail;
    assert(historical =~= HISTORICAL_PREFIX@ + (body + PART_SUFFIX@));
    lemma_prefix(HISTORICAL_PREFIX@, body + PART_SUFFIX@);
    lemma_suffix(body, PART_SUFFIX@);
    lemma_dash(signed_digits(number as int), tail);
    assert(historical[0] == 104);
    assert(historical.take(11)[0] == historical[0]);
    assert(historical.take(13)[0] == historical[0]);
    assert(TARGET_INDEX_PREFIX@[0] == 116);
    let manifest = manifest_name(id@, fence as int);
    let body = hex(id@) + seq![DASH] + tail;
    assert(manifest =~= MANIFEST_PREFIX@ + (body + PART_SUFFIX@));
    lemma_prefix(MANIFEST_PREFIX@, body + PART_SUFFIX@);
    lemma_suffix(body, PART_SUFFIX@);
    lemma_dash(hex(id@), tail);
    assert(manifest[0] == 109);
    assert(manifest.take(11)[0] == manifest[0]);
    assert(manifest.take(13)[0] == manifest[0]);
    assert(HISTORICAL_PREFIX@[0] == 104);
}

/// Every name that a snapshot or a worktree is made under is known again as the
/// service's, and that of the quarantine is not.
pub proof fn law_object_names_are_known(id: [u8; 16])
    ensures
        managed_object_name(INITIALIZE_PREFIX@ + hex(id@)),
        managed_object_name(CUT_PREFIX@ + hex(id@)),
        managed_object_name(WORKTREE_PREFIX@ + hex(id@)),
        !managed_object_name(QUARANTINE_NAME@),
{
    lemma_hex(id@);
    lemma_prefix(INITIALIZE_PREFIX@, hex(id@));
    lemma_prefix(CUT_PREFIX@, hex(id@));
    lemma_prefix(WORKTREE_PREFIX@, hex(id@));
    let name = QUARANTINE_NAME@;
    assert(name[0] == 113);
    assert(name.take(4)[0] == 113);
    assert(CUT_PREFIX@[0] == 99);
    assert(name.take(9)[0] == 113);
    assert(WORKTREE_PREFIX@[0] == 119);
}

} // verus!
