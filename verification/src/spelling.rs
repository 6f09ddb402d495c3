//! How numbers, identifiers and names are spelled.

use crate::names::{
    digits, hex, hex_digit, historical_name, hyphenated, manifest_name, signed_digits, CUT_PREFIX,
    FULL_INDEX_PREFIX, HISTORICAL_PREFIX, INITIALIZE_PREFIX, MANIFEST_PREFIX, MARKER_PREFIX,
    PART_SUFFIX, QUARANTINE_INFIX, QUARANTINE_NAME, TARGET_INDEX_PREFIX, WORKTREE_PREFIX,
};
use crate::manager::types::row_count_text;
use crate::service::checks::EFFECT_ID_DOMAIN;
use crate::text::{decimal, digit_char, in_context};
use vstd::prelude::*;

verus! {

/// The digits of numbers up to base sixteen, in their order.
pub open spec fn all_digits() -> Seq<char> {
    "0123456789abcdef"@
}

/// Each byte is spelled as two digits, the one that counts more first.
pub proof fn law_bytes_are_spelled(bytes: Seq<u8>)
    ensures
        hex(bytes).len() == 2 * bytes.len(),
        forall|i: int|
            0 <= i < bytes.len() ==> hex(bytes)[2 * i] as char == all_digits()[(
            #[trigger] bytes[i]) as int / 16] && hex(bytes)[2 * i + 1] as char == all_digits()[
                bytes[i] as int % 16],
    decreases bytes.len(),
{
    if bytes.len() > 0 {
        let front = bytes.drop_last();
        law_bytes_are_spelled(front);
        lemma_digit(bytes.last() / 16);
        lemma_digit(bytes.last() % 16);
        let all = hex(bytes);
        assert forall|i: int| 0 <= i < bytes.len() implies all[2 * i] as char == all_digits()[(
        #[trigger] bytes[i]) as int / 16] && all[2 * i + 1] as char == all_digits()[bytes[i] as int
            % 16] by {
            if i < front.len() {
                assert(front[i] == bytes[i]);
                assert(all[2 * i] == hex(front)[2 * i]);
                assert(all[2 * i + 1] == hex(front)[2 * i + 1]);
            }
        }
    }
}

proof fn lemma_digit(value: u8)
    requires
        value < 16,
    ensures
        hex_digit(value) as char == all_digits()[value as int],
{
    reveal_strlit("0123456789abcdef");
}

/// The number that decimal digits stand for.
pub open spec fn number_of(spelled: Seq<u8>) -> int
    decreases spelled.len(),
{
    if spelled.len() == 0 {
        0
    } else {
        number_of(spelled.drop_last()) * 10 + (spelled.last() - 0x30)
    }
}

/// A number is spelled by the decimal digits that stand for it, and by no more of them than
/// it takes.
pub proof fn law_numbers_are_spelled(value: nat)
    ensures
        number_of(digits(value)) == value,
        digits(value).len() > 0,
        forall|i: int| 0 <= i < digits(value).len() ==> 0x30 <= #[trigger] digits(value)[i] <= 0x39,
        value > 0 ==> digits(value)[0] != 0x30,
    decreases value,
{
    let all = digits(value);
    if value < 10 {
        assert(all.drop_last().len() == 0);
        reveal_with_fuel(number_of, 2);
        assert(all.last() == all[0]);
    } else {
        let front = digits(value / 10);
        law_numbers_are_spelled(value / 10);
        assert(all.drop_last() =~= front);
        assert(all[0] == front[0]);
        assert forall|i: int| 0 <= i < all.len() implies 0x30 <= #[trigger] all[i] <= 0x39 by {
            if i < front.len() {
                assert(all[i] == front[i]);
            }
        }
    }
}

/// The number that digits stand for.
pub open spec fn value_of(places: Seq<int>) -> int
    decreases places.len(),
{
    if places.len() == 0 {
        0
    } else {
        value_of(places.drop_last()) * 10 + places.last()
    }
}

/// A number is written as digits that stand for it.
pub proof fn law_numerals_are_spelled(value: nat) -> (places: Seq<int>)
    ensures
        places.len() == decimal(value).len(),
        forall|i: int|
            0 <= i < places.len() ==> 0 <= #[trigger] places[i] < 10 && decimal(value)[i]
                == all_digits()[places[i]],
        value_of(places) == value,
    decreases value,
{
    reveal_strlit("0123456789abcdef");
    if value < 10 {
        let places = seq![value as int];
        assert(places.drop_last().len() == 0);
        reveal_with_fuel(value_of, 2);
        assert(decimal(value)[0] == digit_char(value as int));
        places
    } else {
        let front = law_numerals_are_spelled(value / 10);
        let places = front.push((value % 10) as int);
        let all = decimal(value);
        assert(places.drop_last() =~= front);
        assert(all == decimal(value / 10).push(digit_char((value % 10) as int)));
        assert forall|i: int| 0 <= i < places.len() implies 0 <= #[trigger] places[i] < 10 && all[i]
            == all_digits()[places[i]] by {
            if i < front.len() {
                assert(all[i] == decimal(value / 10)[i]);
                assert(places[i] == front[i]);
            }
        }
        places
    }
}

/// The bytes of a text.
pub open spec fn said(text: Seq<char>) -> Seq<u8> {
    text.map_values(|letter: char| letter as u8)
}

proof fn lemma_said(bytes: Seq<u8>, text: Seq<char>)
    requires
        bytes.len() == text.len(),
        forall|i: int| 0 <= i < text.len() ==> (#[trigger] text[i]) as u8 == bytes[i],
    ensures
        bytes == said(text),
{
    assert(bytes =~= said(text));
}

/// The names of files and directories say what they are for.
pub proof fn law_names_say_what_they_are_for()
    ensures
        FULL_INDEX_PREFIX@ == said("full-index-"@),
        TARGET_INDEX_PREFIX@ == said("target-index-"@),
        HISTORICAL_PREFIX@ == said("historical-"@),
        MANIFEST_PREFIX@ == said("manifest-"@),
        PART_SUFFIX@ == said(".part"@),
        INITIALIZE_PREFIX@ == said("cut-initialize-"@),
        CUT_PREFIX@ == said("cut-"@),
        WORKTREE_PREFIX@ == said("worktree-"@),
        MARKER_PREFIX@ == said(".btrfs-awacs-marker-"@),
        QUARANTINE_NAME@ == said("quarantine"@),
        QUARANTINE_INFIX@ == said("-quarantine-"@),
{
    reveal_strlit("full-index-");
    reveal_strlit("target-index-");
    reveal_strlit("historical-");
    reveal_strlit("manifest-");
    reveal_strlit(".part");
    reveal_strlit("cut-initialize-");
    reveal_strlit("cut-");
    reveal_strlit("worktree-");
    reveal_strlit(".btrfs-awacs-marker-");
    reveal_strlit("quarantine");
    reveal_strlit("-quarantine-");
    lemma_said(FULL_INDEX_PREFIX@, "full-index-"@);
    lemma_said(TARGET_INDEX_PREFIX@, "target-index-"@);
    lemma_said(HISTORICAL_PREFIX@, "historical-"@);
    lemma_said(MANIFEST_PREFIX@, "manifest-"@);
    lemma_said(PART_SUFFIX@, ".part"@);
    lemma_said(INITIALIZE_PREFIX@, "cut-initialize-"@);
    lemma_said(CUT_PREFIX@, "cut-"@);
    lemma_said(WORKTREE_PREFIX@, "worktree-"@);
    lemma_said(MARKER_PREFIX@, ".btrfs-awacs-marker-"@);
    lemma_said(QUARANTINE_NAME@, "quarantine"@);
    lemma_said(QUARANTINE_INFIX@, "-quarantine-"@);
}

/// The name of a spooled manifest holds the identifier and then the fence, or the number
/// and then the fence.
pub proof fn law_spooled_names(id: Seq<u8>, number: int, fence: int)
    ensures
        manifest_name(id, fence) == said("manifest-"@) + hex(id) + seq![0x2du8] + signed_digits(
            fence,
        ) + said(".part"@),
        historical_name(number, fence) == said("historical-"@) + signed_digits(number) + seq![
            0x2du8,
        ] + signed_digits(fence) + said(".part"@),
        fence >= 0 ==> signed_digits(fence) == digits(fence as nat),
        fence < 0 ==> signed_digits(fence) == seq![0x2du8] + digits((-fence) as nat),
{
    law_names_say_what_they_are_for();
}

/// An identifier is spelled in groups of eight, four, four, four and twelve digits.
pub proof fn law_identifiers_are_grouped(id: [u8; 16])
    ensures
        ({
            let text = hyphenated(id@);
            let plain = hex(id@);
            &&& text.len() == 36
            &&& plain.len() == 32
            &&& text[8] == 0x2d && text[13] == 0x2d && text[18] == 0x2d && text[23] == 0x2d
            &&& text.subrange(0, 8) == plain.subrange(0, 8)
            &&& text.subrange(9, 13) == plain.subrange(8, 12)
            &&& text.subrange(14, 18) == plain.subrange(12, 16)
            &&& text.subrange(19, 23) == plain.subrange(16, 20)
            &&& text.subrange(24, 36) == plain.subrange(20, 32)
        }),
{
    let bytes = id@;
    let plain = hex(bytes);
    law_bytes_are_spelled(bytes);
    let (a, b, c, d, e) = (
        bytes.subrange(0, 4),
        bytes.subrange(4, 6),
        bytes.subrange(6, 8),
        bytes.subrange(8, 10),
        bytes.subrange(10, 16),
    );
    lemma_part(bytes, 0, 4);
    lemma_part(bytes, 4, 6);
    lemma_part(bytes, 6, 8);
    lemma_part(bytes, 8, 10);
    lemma_part(bytes, 10, 16);
    lemma_groups(hex(a), hex(b), hex(c), hex(d), hex(e));
}

proof fn lemma_groups(a: Seq<u8>, b: Seq<u8>, c: Seq<u8>, d: Seq<u8>, e: Seq<u8>)
    requires
        a.len() == 8,
        b.len() == 4,
        c.len() == 4,
        d.len() == 4,
        e.len() == 12,
    ensures
        ({
            let text = a + seq![0x2du8] + b + seq![0x2du8] + c + seq![0x2du8] + d + seq![0x2du8]
                + e;
            &&& text.len() == 36
            &&& text[8] == 0x2d && text[13] == 0x2d && text[18] == 0x2d && text[23] == 0x2d
            &&& text.subrange(0, 8) == a
            &&& text.subrange(9, 13) == b
            &&& text.subrange(14, 18) == c
            &&& text.subrange(19, 23) == d
            &&& text.subrange(24, 36) == e
        }),
{
    let text = a + seq![0x2du8] + b + seq![0x2du8] + c + seq![0x2du8] + d + seq![0x2du8] + e;
    assert(text.subrange(0, 8) =~= a);
    assert(text.subrange(9, 13) =~= b);
    assert(text.subrange(14, 18) =~= c);
    assert(text.subrange(19, 23) =~= d);
    assert(text.subrange(24, 36) =~= e);
}

proof fn lemma_part(bytes: Seq<u8>, from: int, to: int)
    requires
        0 <= from <= to <= bytes.len(),
    ensures
        hex(bytes.subrange(from, to)) == hex(bytes).subrange(2 * from, 2 * to),
        hex(bytes.subrange(from, to)).len() == 2 * (to - from),
    decreases bytes.len(),
{
    law_bytes_are_spelled(bytes);
    law_bytes_are_spelled(bytes.subrange(from, to));
    let part = hex(bytes.subrange(from, to));
    let whole = hex(bytes).subrange(2 * from, 2 * to);
    if to < bytes.len() {
        let front = bytes.drop_last();
        assert(front.subrange(from, to) =~= bytes.subrange(from, to));
        lemma_part(front, from, to);
        law_bytes_are_spelled(front);
        assert(hex(front).subrange(2 * from, 2 * to) =~= whole);
    } else if from < to {
        let front = bytes.drop_last();
        lemma_part(front, from, to - 1);
        law_bytes_are_spelled(front);
        assert(bytes.subrange(from, to).drop_last() =~= front.subrange(from, to - 1));
        assert(part =~= whole);
    } else {
        assert(part =~= whole);
    }
}

/// The identifier of an effect is taken of what kind of bytes they are, closed by a zero.
pub proof fn law_effects_say_what_they_are()
    ensures
        EFFECT_ID_DOMAIN@ == said("btrfs-awacs-effect-id-v1"@).push(0),
{
    reveal_strlit("btrfs-awacs-effect-id-v1");
    let text = "btrfs-awacs-effect-id-v1"@;
    assert(EFFECT_ID_DOMAIN@.take(24) =~= said(text));
    assert(EFFECT_ID_DOMAIN@ =~= said(text).push(0));
}

/// A diagnostic names the step, and behind a colon what went wrong in it; one of an update
/// names the update and how many rows it changed.
pub proof fn law_diagnostics_are_worded(step: Seq<char>, cause: Seq<char>, changed: nat)
    ensures
        in_context(step, cause) == step + seq![':', ' '] + cause,
        row_count_text(step, changed) == step + " affected "@ + decimal(changed)
            + " rows, expected exactly one"@,
{
    reveal_strlit(": ");
    assert(": "@ =~= seq![':', ' ']);
}

} // verus!
