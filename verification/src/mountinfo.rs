//! The kernel's list of mountpoints.

use crate::bytes::get_range;
use vstd::prelude::*;

verus! {

/// The byte that separates two lines.
pub const NEWLINE: u8 = 10;

/// The byte that separates two fields.
pub const SPACE: u8 = 32;

/// The byte that starts an escape.
pub const BACKSLASH: u8 = 92;

/// The field that holds the mountpoint, counted from zero.
pub const MOUNTPOINT_FIELD: usize = 4;

/// The index of the first `byte` at or behind `from`, or the length.
pub open spec fn next_at(bytes: Seq<u8>, byte: u8, from: int) -> int
    decreases bytes.len() - from,
{
    if from < 0 || from >= bytes.len() {
        bytes.len() as int
    } else if bytes[from] == byte {
        from
    } else {
        next_at(bytes, byte, from + 1)
    }
}

/// The field with the given number, counted from the one that starts at
/// `from`.
pub open spec fn field_from(line: Seq<u8>, from: int, number: nat) -> Option<Seq<u8>>
    decreases number,
{
    let cut = next_at(line, SPACE, from);
    if number == 0 {
        Some(line.subrange(from, cut))
    } else if cut >= line.len() {
        None
    } else {
        field_from(line, cut + 1, (number - 1) as nat)
    }
}

/// Whether a byte is an octal digit.
pub open spec fn octal(byte: u8) -> bool {
    48 <= byte <= 55
}

/// The value of three octal digits.
pub open spec fn octal_value(bytes: Seq<u8>, at: int) -> int {
    (bytes[at] - 48) * 64 + (bytes[at + 1] - 48) * 8 + (bytes[at + 2] - 48)
}

/// `done`, then the bytes from `at` on with every escape replaced by the byte
/// that it stands for.
pub open spec fn unescape_from(encoded: Seq<u8>, at: int, done: Seq<u8>) -> Result<
    Seq<u8>,
    Seq<char>,
>
    decreases encoded.len() - at,
{
    if at >= encoded.len() {
        Ok(done)
    } else if encoded[at] != BACKSLASH {
        unescape_from(encoded, at + 1, done.push(encoded[at]))
    } else if at + 4 > encoded.len() {
        Err("truncated mountinfo escape"@)
    } else if !octal(encoded[at + 1]) || !octal(encoded[at + 2]) || !octal(encoded[at + 3]) {
        Err("invalid mountinfo escape"@)
    } else if octal_value(encoded, at + 1) > 255 {
        Err("mountinfo escape exceeds one byte"@)
    } else {
        unescape_from(encoded, at + 4, done.push(octal_value(encoded, at + 1) as u8))
    }
}

/// The bytes that a field stands for.
pub open spec fn unescaped(encoded: Seq<u8>) -> Result<Seq<u8>, Seq<char>> {
    unescape_from(encoded, 0, Seq::empty())
}

/// Whether `path` lies strictly below `root`.
pub open spec fn strictly_below(path: Seq<u8>, root: Seq<u8>) -> bool {
    &&& path.len() > root.len()
    &&& path.subrange(0, root.len() as int) == root
    &&& path[root.len() as int] == 47
}

/// Why a line forbids watching `root`.
pub open spec fn line_fault(line: Seq<u8>, root: Seq<u8>) -> Option<Seq<char>> {
    if line.len() == 0 {
        None
    } else {
        match field_from(line, 0, MOUNTPOINT_FIELD as nat) {
            None => Some("mountinfo line omits its mountpoint"@),
            Some(encoded) => match unescaped(encoded) {
                Err(fault) => Some(fault),
                Ok(mountpoint) => if strictly_below(mountpoint, root) {
                    Some("watched root contains an existing descendant mountpoint"@)
                } else {
                    None
                },
            },
        }
    }
}

/// Why the first offending line from `from` on forbids watching `root`.
pub open spec fn mounts_fault_from(bytes: Seq<u8>, from: int, root: Seq<u8>) -> Option<Seq<char>>
    decreases bytes.len() - from,
{
    if from < 0 || from >= bytes.len() {
        None
    } else {
        let cut = next_at(bytes, NEWLINE, from);
        match line_fault(bytes.subrange(from, cut), root) {
            Some(fault) => Some(fault),
            None => if from <= cut < bytes.len() {
                mounts_fault_from(bytes, cut + 1, root)
            } else {
                None
            },
        }
    }
}

/// Why the list of mountpoints forbids watching `root`.
pub open spec fn mounts_fault(bytes: Seq<u8>, root: Seq<u8>) -> Option<Seq<char>> {
    mounts_fault_from(bytes, 0, root)
}

fn find_byte(bytes: &[u8], byte: u8, from: usize) -> (at: usize)
    requires
        from <= bytes@.len(),
    ensures
        at == next_at(bytes@, byte, from as int),
        from <= at <= bytes@.len(),
{
    let mut at: usize = from;
    while at < bytes.len() && bytes[at] != byte
        invariant
            from <= at <= bytes.len(),
            next_at(bytes@, byte, from as int) == next_at(bytes@, byte, at as int),
        decreases bytes.len() - at,
    {
        at += 1;
    }
    at
}

/// The field that holds the mountpoint.
fn mountpoint_field(line: &[u8]) -> (field: Option<Vec<u8>>)
    ensures
        match field {
            Some(field) => field_from(line@, 0, MOUNTPOINT_FIELD as nat) == Some(field@),
            None => field_from(line@, 0, MOUNTPOINT_FIELD as nat) is None,
        },
{
    let mut from: usize = 0;
    let mut number: usize = MOUNTPOINT_FIELD;
    while number > 0
        invariant
            from <= line.len(),
            field_from(line@, 0, MOUNTPOINT_FIELD as nat) == field_from(
                line@,
                from as int,
                number as nat,
            ),
        decreases number,
    {
        let cut: usize = find_byte(line, SPACE, from);
        if cut == line.len() {
            return None;
        }
        from = cut + 1;
        number -= 1;
    }
    let cut: usize = find_byte(line, SPACE, from);
    Some(get_range(line, from, cut))
}

fn is_octal(byte: u8) -> (digit: bool)
    ensures
        digit == octal(byte),
{
    48 <= byte && byte <= 55
}

/// Replaces every escape by the byte that it stands for.
pub fn unescape(encoded: &[u8]) -> (decoded: Result<Vec<u8>, &'static str>)
    ensures
        match decoded {
            Ok(decoded) => unescaped(encoded@) == Ok::<Seq<u8>, Seq<char>>(decoded@),
            Err(fault) => unescaped(encoded@) == Err::<Seq<u8>, Seq<char>>(fault@),
        },
{
    let mut result: Vec<u8> = Vec::with_capacity(encoded.len());
    let mut cursor: usize = 0;
    while cursor < encoded.len()
        invariant
            cursor <= encoded.len(),
            unescaped(encoded@) == unescape_from(encoded@, cursor as int, result@),
        decreases encoded.len() - cursor,
    {
        if encoded[cursor] != BACKSLASH {
            result.push(encoded[cursor]);
            cursor += 1;
        } else {
            if encoded.len() - cursor < 4 {
                return Err("truncated mountinfo escape");
            }
            let high: u8 = encoded[cursor + 1];
            let middle: u8 = encoded[cursor + 2];
            let low: u8 = encoded[cursor + 3];
            if !is_octal(high) || !is_octal(middle) || !is_octal(low) {
                return Err("invalid mountinfo escape");
            }
            let value: u16 = (high - 48) as u16 * 64 + (middle - 48) as u16 * 8 + (low
                - 48) as u16;
            if value > 255 {
                return Err("mountinfo escape exceeds one byte");
            }
            result.push(value as u8);
            cursor += 4;
        }
    }
    Ok(result)
}

fn is_strictly_below(path: &[u8], root: &[u8]) -> (below: bool)
    ensures
        below == strictly_below(path@, root@),
{
    if path.len() <= root.len() {
        return false;
    }
    let mut at: usize = 0;
    while at < root.len()
        invariant
            at <= root.len() < path.len(),
            forall|i: int| 0 <= i < at ==> path@[i] == root@[i],
        decreases root.len() - at,
    {
        if path[at] != root[at] {
            assert(path@.subrange(0, root@.len() as int)[at as int] != root@[at as int]);
            return false;
        }
        at += 1;
    }
    assert(path@.subrange(0, root@.len() as int) =~= root@);
    path[root.len()] == 47
}

/// Why a line forbids watching `root`.
fn check_line(line: &[u8], root: &[u8]) -> (fault: Option<&'static str>)
    ensures
        match fault {
            Some(fault) => line_fault(line@, root@) == Some(fault@),
            None => line_fault(line@, root@) is None,
        },
{
    if line.len() == 0 {
        return None;
    }
    match mountpoint_field(line) {
        None => Some("mountinfo line omits its mountpoint"),
        Some(encoded) => match unescape(&encoded) {
            Err(fault) => Some(fault),
            Ok(mountpoint) => if is_strictly_below(&mountpoint, root) {
                Some("watched root contains an existing descendant mountpoint")
            } else {
                None
            },
        },
    }
}

/// Why the list of mountpoints forbids watching `root`.
pub fn check_mounts(bytes: &[u8], root: &[u8]) -> (fault: Option<&'static str>)
    ensures
        match fault {
            Some(fault) => mounts_fault(bytes@, root@) == Some(fault@),
            None => mounts_fault(bytes@, root@) is None,
        },
{
    let mut from: usize = 0;
    while from < bytes.len()
        invariant
            from <= bytes.len(),
            mounts_fault(bytes@, root@) == mounts_fault_from(bytes@, from as int, root@),
        decreases bytes.len() - from,
    {
        let cut: usize = find_byte(bytes, NEWLINE, from);
        let line = get_range(bytes, from, cut);
        let fault = check_line(&line, root);
        if fault.is_some() {
            return fault;
        }
        if cut == bytes.len() {
            return None;
        }
        from = cut + 1;
    }
    None
}

/// Whether the kernel writes a byte as an escape.
pub open spec fn written_escaped(byte: u8) -> bool {
    byte == 32 || byte == 9 || byte == 10 || byte == BACKSLASH
}

/// A byte as the kernel writes it.
pub open spec fn escape_byte(byte: u8) -> Seq<u8> {
    if written_escaped(byte) {
        seq![
            BACKSLASH,
            (48 + byte / 64) as u8,
            (48 + (byte / 8) % 8) as u8,
            (48 + byte % 8) as u8,
        ]
    } else {
        seq![byte]
    }
}

/// A path as the kernel writes it.
pub open spec fn escape(path: Seq<u8>) -> Seq<u8>
    decreases path.len(),
{
    if path.len() == 0 {
        Seq::empty()
    } else {
        escape(path.drop_last()) + escape_byte(path.last())
    }
}

proof fn lemma_unescape_extends(front: Seq<u8>, tail: Seq<u8>, at: int, done: Seq<u8>)
    requires
        0 <= at <= front.len(),
        unescape_from(front, at, done) is Ok,
    ensures
        unescape_from(front + tail, at, done) == unescape_from(
            front + tail,
            front.len() as int,
            unescape_from(front, at, done)->Ok_0,
        ),
    decreases front.len() - at,
{
    let whole = front + tail;
    if at < front.len() {
        assert(whole[at] == front[at]);
        if front[at] != BACKSLASH {
            lemma_unescape_extends(front, tail, at + 1, done.push(front[at]));
        } else {
            assert(whole[at + 1] == front[at + 1]);
            assert(whole[at + 2] == front[at + 2]);
            assert(whole[at + 3] == front[at + 3]);
            lemma_unescape_extends(
                front,
                tail,
                at + 4,
                done.push(octal_value(front, at + 1) as u8),
            );
        }
    }
}

/// What the kernel escaped is read back as the raw bytes of the path.
pub proof fn law_unescape_inverts_escape(path: Seq<u8>)
    ensures
        unescaped(escape(path)) == Ok::<Seq<u8>, Seq<char>>(path),
    decreases path.len(),
{
    if path.len() > 0 {
        let front = path.drop_last();
        let byte = path.last();
        law_unescape_inverts_escape(front);
        lemma_unescape_extends(escape(front), escape_byte(byte), 0, Seq::empty());
        let whole = escape(path);
        let at = escape(front).len() as int;
        assert(front.push(byte) =~= path);
        assert(whole[at] == escape_byte(byte)[0]);
        if written_escaped(byte) {
            assert(whole[at + 1] == escape_byte(byte)[1]);
            assert(whole[at + 2] == escape_byte(byte)[2]);
            assert(whole[at + 3] == escape_byte(byte)[3]);
            assert(octal_value(whole, at + 1) == byte);
            assert(unescape_from(whole, at + 4, front.push(byte)) == Ok::<Seq<u8>, Seq<char>>(
                front.push(byte),
            ));
        } else {
            assert(unescape_from(whole, at + 1, front.push(byte)) == Ok::<Seq<u8>, Seq<char>>(
                front.push(byte),
            ));
        }
    } else {
        assert(path =~= Seq::<u8>::empty());
    }
}

} // verus!
