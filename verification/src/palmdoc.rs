//! PalmDOC (LZ77 variant) record decompression.
//!
//! Each input byte selects one action: a literal, a short run of raw bytes,
//! a back-reference into the output written so far, or a space followed by
//! a high-bit-cleared character.

use vstd::prelude::*;

verus! {

/// `out` extended by `n` bytes, each one a copy of the byte that lies
/// `distance` places before the end at the moment it is appended. A copy
/// may therefore overlap the bytes it has itself produced.
pub open spec fn copy_back(out: Seq<u8>, distance: int, n: nat) -> Seq<u8>
    recommends
        1 <= distance <= out.len(),
    decreases n,
{
    if n == 0 {
        out
    } else {
        copy_back(out.push(out[out.len() - distance]), distance, (n - 1) as nat)
    }
}

/// Distance encoded by the two bytes of a back-reference.
pub open spec fn backref_distance(c: u8, c2: u8) -> int {
    ((c as int % 64) * 256 + c2 as int) / 8
}

/// Copy length encoded by the two bytes of a back-reference: 3 to 10.
pub open spec fn backref_length(c2: u8) -> nat {
    (c2 as nat % 8) + 3
}

/// The output of decompression resumed at input position `i` with `out`
/// already written.
pub open spec fn decompress_from(input: Seq<u8>, i: int, out: Seq<u8>) -> Seq<u8>
    decreases input.len() - i,
{
    if i < 0 || i >= input.len() {
        out
    } else {
        let c = input[i];
        if c == 0 {
            decompress_from(input, i + 1, out.push(0u8))
        } else if c <= 0x08 {
            let end = if i + 1 + c as int <= input.len() {
                i + 1 + c as int
            } else {
                input.len() as int
            };
            decompress_from(input, end, out + input.subrange(i + 1, end))
        } else if c <= 0x7f {
            decompress_from(input, i + 1, out.push(c))
        } else if c <= 0xbf {
            if i + 1 >= input.len() {
                out
            } else {
                let c2 = input[i + 1];
                let distance = backref_distance(c, c2);
                if distance == 0 || distance > out.len() {
                    decompress_from(input, i + 2, out)
                } else {
                    decompress_from(input, i + 2, copy_back(out, distance, backref_length(c2)))
                }
            }
        } else {
            decompress_from(input, i + 1, out.push(0x20u8).push(c ^ 0x80u8))
        }
    }
}

/// The decompressed form of a whole record.
pub open spec fn decompressed(input: Seq<u8>) -> Seq<u8> {
    decompress_from(input, 0, Seq::empty())
}

/// A byte that stands for itself in a compressed record.
pub open spec fn is_literal(b: u8) -> bool {
    b == 0 || (0x09 <= b && b <= 0x7f)
}

proof fn lemma_literals_from(input: Seq<u8>, i: int)
    requires
        0 <= i <= input.len(),
        forall|k: int| 0 <= k < input.len() ==> is_literal(#[trigger] input[k]),
    ensures
        decompress_from(input, i, input.subrange(0, i)) == input,
    decreases input.len() - i,
{
    if i == input.len() {
        assert(input.subrange(0, i) =~= input);
    } else {
        assert(is_literal(input[i]));
        assert(input.subrange(0, i).push(input[i]) =~= input.subrange(0, i + 1));
        lemma_literals_from(input, i + 1);
    }
}

/// Decompression is the identity on a record made of literal bytes only
/// (NUL and `0x09..=0x7F`).
pub proof fn lemma_literal_only_is_identity(input: Seq<u8>)
    requires
        forall|k: int| 0 <= k < input.len() ==> is_literal(#[trigger] input[k]),
    ensures
        decompressed(input) == input,
{
    assert(input.subrange(0, 0) =~= Seq::<u8>::empty());
    lemma_literals_from(input, 0);
}

/// A back-reference whose distance is zero or reaches before the start of
/// the output adds nothing: decompression goes on behind its two bytes.
pub proof fn lemma_bad_backref_is_skipped(input: Seq<u8>, i: int, out: Seq<u8>)
    requires
        0 <= i,
        i + 1 < input.len(),
        0x80 <= input[i] <= 0xbf,
        backref_distance(input[i], input[i + 1]) == 0 || backref_distance(input[i], input[i + 1])
            > out.len(),
    ensures
        decompress_from(input, i, out) == decompress_from(input, i + 2, out),
{
}

/// Decompresses one PalmDOC record. Never fails: a back-reference that
/// reaches before the start of the output is skipped, and a truncated one
/// at the end of the input ends decompression.
pub fn palmdoc_decompress(input: &[u8]) -> (out: Vec<u8>)
    ensures
        out@ == decompressed(input@),
        out@.len() <= 5 * input@.len(),
{
    let n: usize = input.len();
    let mut out: Vec<u8> = Vec::with_capacity(n);
    let mut i: usize = 0;
    while i < n
        invariant
            n == input@.len(),
            i <= n,
            out@.len() <= 5 * i,
            decompress_from(input@, i as int, out@) == decompressed(input@),
        decreases n - i,
    {
        let c: u8 = input[i];
        if c == 0 {
            out.push(0u8);
            i += 1;
        } else if c <= 0x08 {
            let run: usize = c as usize;
            let start: usize = i + 1;
            let end: usize = if run <= n - start { start + run } else { n };
            let ghost before = out@;
            let mut j: usize = start;
            while j < end
                invariant
                    n == input@.len(),
                    start <= j <= end <= n,
                    out@ == before + input@.subrange(start as int, j as int),
                    out@.len() == before.len() + (j - start),
                decreases end - j,
            {
                out.push(input[j]);
                proof {
                    assert(input@.subrange(start as int, j as int).push(input@[j as int])
                        =~= input@.subrange(start as int, j as int + 1));
                    assert(out@ =~= before + input@.subrange(start as int, j as int + 1));
                }
                j += 1;
            }
            i = end;
        } else if c <= 0x7f {
            out.push(c);
            i += 1;
        } else if c <= 0xbf {
            if n - i <= 1 {
                // A back-reference cut off by the end of the record.
                return out;
            }
            let c2: u8 = input[i + 1];
            let item: usize = ((c % 64) as usize) * 256 + (c2 as usize);
            let distance: usize = item / 8;
            let length: usize = ((c2 % 8) as usize) + 3;
            if distance == 0 || distance > out.len() {
                i += 2;
            } else {
                let ghost before = out@;
                let mut j: usize = 0;
                while j < length
                    invariant
                        j <= length,
                        out@.len() == before.len() + j,
                        1 <= distance <= before.len(),
                        1 <= distance <= out@.len(),
                        copy_back(out@, distance as int, (length - j) as nat) == copy_back(
                            before,
                            distance as int,
                            length as nat,
                        ),
                    decreases length - j,
                {
                    let b: u8 = out[out.len() - distance];
                    out.push(b);
                    j += 1;
                }
                i += 2;
            }
        } else {
            out.push(0x20u8);
            out.push(c ^ 0x80);
            i += 1;
        }
    }
    out
}

} // verus!
