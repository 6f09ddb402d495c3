//! Text for diagnostics and names: decimal and hexadecimal numerals and byte
//! comparisons.

use vstd::prelude::*;

verus! {

/// The character for a digit below sixteen, in lower case.
pub open spec fn digit_char(digit: int) -> char {
    if digit < 10 {
        (48 + digit) as char
    } else {
        (87 + digit) as char
    }
}

/// The numeral of `value` in `base`, most significant digit first and without
/// leading zeros.
pub open spec fn numeral(value: nat, base: nat) -> Seq<char>
    decreases value,
{
    if base < 2 || value < base {
        seq![digit_char(value as int)]
    } else {
        proof {
            assert(value / base < value) by (nonlinear_arith)
                requires
                    value >= base,
                    base >= 2,
            ;
        }
        numeral(value / base, base).push(digit_char((value % base) as int))
    }
}

/// The decimal numeral of `value`.
pub open spec fn decimal(value: nat) -> Seq<char> {
    numeral(value, 10)
}

fn digit_text(digit: u64) -> (text: &'static str)
    requires
        digit < 16,
    ensures
        text@ == seq![digit_char(digit as int)],
{
    proof {
        reveal_strlit("0");
        reveal_strlit("1");
        reveal_strlit("2");
        reveal_strlit("3");
        reveal_strlit("4");
        reveal_strlit("5");
        reveal_strlit("6");
        reveal_strlit("7");
        reveal_strlit("8");
        reveal_strlit("9");
        reveal_strlit("a");
        reveal_strlit("b");
        reveal_strlit("c");
        reveal_strlit("d");
        reveal_strlit("e");
        reveal_strlit("f");
    }
    match digit {
        0 => "0",
        1 => "1",
        2 => "2",
        3 => "3",
        4 => "4",
        5 => "5",
        6 => "6",
        7 => "7",
        8 => "8",
        9 => "9",
        10 => "a",
        11 => "b",
        12 => "c",
        13 => "d",
        14 => "e",
        _ => "f",
    }
}

/// Appends the numeral of `value` in `base` to `text`.
pub fn append_numeral(text: &mut String, value: u64, base: u64)
    requires
        2 <= base <= 16,
    ensures
        final(text)@ == old(text)@ + numeral(value as nat, base as nat),
    decreases value,
{
    if value >= base {
        assert(value / base < value) by (nonlinear_arith)
            requires
                value >= base,
                base >= 2,
        ;
        append_numeral(text, value / base, base);
        text.append(digit_text(value % base));
        assert(text@ =~= old(text)@ + numeral(value as nat, base as nat));
    } else {
        text.append(digit_text(value));
    }
}

/// The decimal numeral of an integer.
pub open spec fn signed(value: int) -> Seq<char> {
    if value < 0 {
        "-"@ + decimal((-value) as nat)
    } else {
        decimal(value as nat)
    }
}

/// Appends the decimal numeral of `value` to `text`.
pub fn append_signed(text: &mut String, value: i64)
    ensures
        final(text)@ == old(text)@ + signed(value as int),
{
    if value < 0 {
        text.append("-");
        let less: i64 = -(value + 1);
        append_numeral(text, less as u64 + 1, 10);
        assert(text@ =~= old(text)@ + signed(value as int));
    } else {
        append_numeral(text, value as u64, 10);
    }
}

/// `prefix`, the decimal numeral of `value`, then `suffix`.
pub fn with_signed(prefix: &str, value: i64, suffix: &str) -> (text: String)
    ensures
        text@ == prefix@ + signed(value as int) + suffix@,
{
    let mut text = String::new();
    text.append(prefix);
    append_signed(&mut text, value);
    text.append(suffix);
    assert(text@ =~= prefix@ + signed(value as int) + suffix@);
    text
}

/// `prefix`, the decimal numeral of `value`, then `suffix`.
pub fn with_number(prefix: &str, value: u64, suffix: &str) -> (text: String)
    ensures
        text@ == prefix@ + decimal(value as nat) + suffix@,
{
    let mut text = String::new();
    text.append(prefix);
    append_numeral(&mut text, value, 10);
    text.append(suffix);
    assert(text@ =~= prefix@ + decimal(value as nat) + suffix@);
    text
}

/// `prefix`, then the decimal numeral of `value`.
pub fn ending_in_number(prefix: &str, value: u64) -> (text: String)
    ensures
        text@ == prefix@ + decimal(value as nat),
{
    let mut text = String::new();
    text.append(prefix);
    append_numeral(&mut text, value, 10);
    assert(text@ =~= prefix@ + decimal(value as nat));
    text
}

/// `prefix`, then the hexadecimal numeral of `value` behind `0x`.
pub fn with_hex(prefix: &str, value: u64) -> (text: String)
    ensures
        text@ == prefix@ + "0x"@ + numeral(value as nat, 16),
{
    let mut text = String::new();
    text.append(prefix);
    text.append("0x");
    append_numeral(&mut text, value, 16);
    assert(text@ =~= prefix@ + "0x"@ + numeral(value as nat, 16));
    text
}

/// A text between quotation marks, with what cannot stand there escaped.
pub uninterp spec fn quoted(text: Seq<char>) -> Seq<char>;

/// Calls std's `format` macro with `{:?}`, that is `Debug` of `str`. The quoted
/// text is a function of the text alone, named by `quoted`.
#[verifier::external_body]
pub(crate) fn quote(text: &str) -> (written: String)
    ensures
        written@ == quoted(text@),
{
    format!("{:?}", text)
}

/// `context`, a colon and a space, then `message`.
pub open spec fn in_context(context: Seq<char>, message: Seq<char>) -> Seq<char> {
    context + ": "@ + message
}

/// Puts `message` behind the step that failed.
pub fn context_text(context: &str, message: &str) -> (text: String)
    ensures
        text@ == in_context(context@, message@),
{
    let mut text = String::new();
    text.append(context);
    text.append(": ");
    text.append(message);
    assert(text@ =~= in_context(context@, message@));
    text
}

/// Whether two byte strings are equal.
pub fn same_bytes(left: &[u8], right: &[u8]) -> (same: bool)
    ensures
        same == (left@ == right@),
{
    if left.len() != right.len() {
        return false;
    }
    let mut at: usize = 0;
    while at < left.len()
        invariant
            at <= left.len(),
            left.len() == right.len(),
            forall|i: int| 0 <= i < at ==> left@[i] == right@[i],
        decreases left.len() - at,
    {
        if left[at] != right[at] {
            return false;
        }
        at += 1;
    }
    assert(left@ =~= right@);
    true
}

/// Whether two fixed-size byte strings are equal.
pub fn same_array<const N: usize>(left: &[u8; N], right: &[u8; N]) -> (same: bool)
    ensures
        same == (*left == *right),
{
    let mut at: usize = 0;
    while at < N
        invariant
            at <= N,
            forall|i: int| 0 <= i < at ==> left@[i] == right@[i],
        decreases N - at,
    {
        if left[at] != right[at] {
            assert(left@[at as int] != right@[at as int]);
            return false;
        }
        at += 1;
    }
    assert(left@ =~= right@);
    assert(*left =~= *right);
    true
}

/// A copy of a byte string.
pub fn copy_bytes(bytes: &[u8]) -> (copy: Vec<u8>)
    ensures
        copy@ == bytes@,
{
    let mut copy: Vec<u8> = Vec::with_capacity(bytes.len());
    let mut at: usize = 0;
    while at < bytes.len()
        invariant
            at <= bytes.len(),
            copy@ == bytes@.subrange(0, at as int),
        decreases bytes.len() - at,
    {
        copy.push(bytes[at]);
        at += 1;
        assert(copy@ =~= bytes@.subrange(0, at as int));
    }
    assert(bytes@.subrange(0, at as int) =~= bytes@);
    copy
}

/// Whether two texts are the same.
pub fn is_text(left: &str, right: &str) -> (same: bool)
    ensures
        same == (left@ == right@),
{
    let left = left.to_owned();
    let right = right.to_owned();
    left == right
}

} // verus!
