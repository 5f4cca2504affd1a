//! Stripping of the trailing "extra data" entries that a producer may
//! append to every text record, as announced by the file's flag word.

use vstd::prelude::*;

verus! {

/// Whether bit `bit` of the extra-data flag word is set.
pub open spec fn flag_set(flags: u16, bit: u16) -> bool {
    flags & (1u16 << bit) != 0
}

/// Weight of the `k`-th seven-bit group of a backward integer.
pub open spec fn group_weight(k: int) -> int {
    if k <= 0 {
        1
    } else if k == 1 {
        128
    } else if k == 2 {
        16384
    } else if k == 3 {
        2097152
    } else {
        268435456
    }
}

/// Reads a variable-length integer backward from position `size` of `rec`,
/// `k` groups having been read already. Each byte gives its low seven
/// bits, the byte nearest the end being the least significant; a byte with
/// its high bit set ends the integer, and so does the fifth group. The
/// result is the position reached and the value read.
pub open spec fn backward_varint(rec: Seq<u8>, size: int, k: int) -> (int, int)
    decreases size,
{
    if size <= 0 || size > rec.len() {
        (0, 0)
    } else {
        let b = rec[size - 1];
        let part = (b as int % 128) * group_weight(k);
        if b >= 128 || k >= 4 {
            (size - 1, part)
        } else {
            let rest = backward_varint(rec, size - 1, k + 1);
            (rest.0, part + rest.1)
        }
    }
}

/// Usable length left of `size` after one trailing entry has been taken
/// away: its length field is read backward, then that many bytes are
/// dropped, stopping at zero.
pub open spec fn strip_entry(rec: Seq<u8>, size: int) -> int {
    let r = backward_varint(rec, size, 0);
    if r.1 >= r.0 {
        0
    } else {
        r.0 - r.1
    }
}

/// Usable length after the entries of the flag bits `bit`, `bit - 1`, ..., 1
/// have been taken away, highest bit first.
pub open spec fn strip_entries(rec: Seq<u8>, flags: u16, bit: int, size: int) -> int
    decreases bit,
{
    if bit < 1 {
        size
    } else if flag_set(flags, bit as u16) {
        strip_entries(rec, flags, bit - 1, strip_entry(rec, size))
    } else {
        strip_entries(rec, flags, bit - 1, size)
    }
}

/// Length of the text part of a record: everything before its trailing
/// entries and, where bit 0 is set, before one more byte.
pub open spec fn trimmed_len(rec: Seq<u8>, flags: u16) -> int {
    if rec.len() == 0 || flags == 0 {
        rec.len() as int
    } else {
        let s = strip_entries(rec, flags, 15, rec.len() as int);
        if flag_set(flags, 0) && s > 0 {
            s - 1
        } else {
            s
        }
    }
}

proof fn lemma_backward_varint_bounds(rec: Seq<u8>, size: int, k: int)
    requires
        0 <= size <= rec.len(),
        0 <= k <= 4,
    ensures
        0 <= backward_varint(rec, size, k).0 <= size,
        0 <= backward_varint(rec, size, k).1,
        backward_varint(rec, size, k).1 + group_weight(k) <= 34359738368,
    decreases size,
{
    if size > 0 {
        let b = rec[size - 1];
        let w = group_weight(k);
        assert(0 <= (b as int % 128) * w <= 127 * w) by (nonlinear_arith)
            requires
                0 <= b as int % 128 <= 127,
                w >= 1,
        ;
        if !(b >= 128 || k >= 4) {
            lemma_backward_varint_bounds(rec, size - 1, k + 1);
        }
    }
}

proof fn lemma_strip_entries_bounds(rec: Seq<u8>, flags: u16, bit: int, size: int)
    requires
        0 <= size <= rec.len(),
    ensures
        0 <= strip_entries(rec, flags, bit, size) <= size,
    decreases bit,
{
    if bit >= 1 {
        lemma_backward_varint_bounds(rec, size, 0);
        if flag_set(flags, bit as u16) {
            lemma_strip_entries_bounds(rec, flags, bit - 1, strip_entry(rec, size));
        } else {
            lemma_strip_entries_bounds(rec, flags, bit - 1, size);
        }
    }
}

/// The text part of a record is a prefix of it, and with no flag set it is
/// the whole record.
pub proof fn lemma_trimmed_len_bounds(rec: Seq<u8>, flags: u16)
    ensures
        0 <= trimmed_len(rec, flags) <= rec.len(),
        flags == 0 ==> trimmed_len(rec, flags) == rec.len(),
{
    lemma_strip_entries_bounds(rec, flags, 15, rec.len() as int);
}

/// Reads the length field of one trailing entry backward from `size`.
fn read_backward_varint(rec: &[u8], size: usize) -> (r: (usize, u64))
    requires
        size <= rec@.len(),
    ensures
        r.0 as int == backward_varint(rec@, size as int, 0).0,
        r.1 as int == backward_varint(rec@, size as int, 0).1,
{
    let mut pos: usize = size;
    let mut val: u64 = 0;
    let mut weight: u64 = 1;
    let mut k: u8 = 0;
    let mut done: bool = false;
    while pos > 0 && !done
        invariant
            pos <= size <= rec@.len(),
            k <= 5,
            !done ==> k <= 4,
            !done ==> weight as int == group_weight(k as int),
            !done ==> val < weight,
            done ==> backward_varint(rec@, size as int, 0) == (pos as int, val as int),
            !done ==> backward_varint(rec@, size as int, 0) == (
                backward_varint(rec@, pos as int, k as int).0,
                val as int + backward_varint(rec@, pos as int, k as int).1,
            ),
        decreases pos + (if done { 0int } else { 1int }),
    {
        pos -= 1;
        let b: u8 = rec[pos];
        assert(0 <= (b % 128) as int * weight as int <= 127 * 268435456) by (nonlinear_arith)
            requires
                0 <= (b % 128) as int <= 127,
                1 <= weight as int <= 268435456,
        ;
        val = val + ((b % 128) as u64) * weight;
        if b >= 128 || k >= 4 {
            done = true;
        } else {
            weight = weight * 128;
        }
        k += 1;
    }
    (pos, val)
}

/// Returns how many leading bytes of `rec` are text, the rest being
/// trailing entries announced by `extra_flags`.
pub fn trim_trailing_record_data(rec: &[u8], extra_flags: u16) -> (r: usize)
    ensures
        r as int == trimmed_len(rec@, extra_flags),
        r <= rec@.len(),
        extra_flags == 0 ==> r == rec@.len(),
{
    let n: usize = rec.len();
    if n == 0 || extra_flags == 0 {
        return n;
    }
    let mut size: usize = n;
    let mut bit: u16 = 15;
    while bit >= 1
        invariant
            bit <= 15,
            size <= n,
            n == rec@.len(),
            strip_entries(rec@, extra_flags, bit as int, size as int) == strip_entries(
                rec@,
                extra_flags,
                15,
                n as int,
            ),
        decreases bit,
    {
        if extra_flags & (1u16 << bit) != 0 {
            let (pos, val) = read_backward_varint(rec, size);
            proof {
                lemma_backward_varint_bounds(rec@, size as int, 0);
            }
            size = if val >= pos as u64 { 0 } else { pos - (val as usize) };
        }
        bit -= 1;
    }
    if extra_flags & 1u16 != 0 && size > 0 {
        size -= 1;
    }
    proof {
        assert(flag_set(extra_flags, 0) == (extra_flags & 1u16 != 0)) by {
            assert(1u16 << 0u16 == 1u16) by (bit_vector);
        }
    }
    size
}

} // verus!
