//! Run-length coding of potentially-visible-set rows.
//!
//! A row holds one bit per leaf. In the coded form a nonzero byte stands for
//! itself, and a zero byte is followed by a count of zero bytes to emit.
use vstd::prelude::*;

verus! {

pub open spec fn zeros(n: nat) -> Seq<u8> {
    Seq::new(n, |i: int| 0u8)
}

/// Bytes of a row covering `leaf_count` leafs.
pub open spec fn row_bytes(leaf_count: nat) -> nat {
    (leaf_count + 7) / 8
}

/// The first `n` row bytes that the coded bytes `data` expand to. Coded bytes
/// that end early, or a zero byte without its count, leave the rest of the row
/// zero; a run never reaches past the row.
pub open spec fn rle_decode(data: Seq<u8>, n: nat) -> Seq<u8>
    decreases n, data.len(),
{
    if n == 0 {
        seq![]
    } else if data.len() == 0 {
        zeros(n)
    } else if data[0] != 0 {
        seq![data[0]] + rle_decode(data.skip(1), (n - 1) as nat)
    } else if data.len() < 2 {
        zeros(n)
    } else {
        let c: nat = if data[1] as nat <= n {
            data[1] as nat
        } else {
            n
        };
        zeros(c) + rle_decode(data.skip(2), (n - c) as nat)
    }
}

/// Count of leading zero bytes of `s`, at most `limit`.
pub open spec fn leading_zeros(s: Seq<u8>, limit: nat) -> nat
    decreases s.len(),
{
    if s.len() == 0 || s[0] != 0 || limit == 0 {
        0
    } else {
        1 + leading_zeros(s.skip(1), (limit - 1) as nat)
    }
}

/// Length of the zero run that opens a row starting with a zero byte: at most
/// 255 bytes, the most one count byte can hold.
pub open spec fn zero_run(row: Seq<u8>) -> nat {
    1 + leading_zeros(row.skip(1), 254)
}

/// The canonical coding of a row: each nonzero byte literally, each maximal
/// run of zero bytes (split every 255) as a zero and the run's length.
pub open spec fn rle_encode(row: Seq<u8>) -> Seq<u8>
    decreases row.len(),
{
    if row.len() == 0 {
        seq![]
    } else if row[0] != 0 {
        seq![row[0]] + rle_encode(row.skip(1))
    } else {
        let r = if zero_run(row) <= row.len() {
            zero_run(row)
        } else {
            row.len()
        };
        seq![0u8, r as u8] + rle_encode(row.skip(r as int))
    }
}

/// The row of a leaf: all leafs visible where it has no coded data, else the
/// expansion of the coded bytes from its offset.
pub open spec fn vis_row(data: Seq<u8>, offset: Option<usize>, leaf_count: nat) -> Seq<u8> {
    match offset {
        None => Seq::new(row_bytes(leaf_count), |i: int| 0xffu8),
        Some(o) => rle_decode(data.skip(o as int), row_bytes(leaf_count)),
    }
}

/// Bit `i` of a row.
pub open spec fn row_bit(row: Seq<u8>, i: int) -> bool {
    (row[i / 8] as int / pow2_small(i % 8)) % 2 == 1
}

pub open spec fn pow2_small(k: int) -> int {
    if k == 0 {
        1
    } else if k == 1 {
        2
    } else if k == 2 {
        4
    } else if k == 3 {
        8
    } else if k == 4 {
        16
    } else if k == 5 {
        32
    } else if k == 6 {
        64
    } else {
        128
    }
}

proof fn lemma_leading_zeros(s: Seq<u8>, limit: nat)
    ensures
        leading_zeros(s, limit) <= s.len(),
        leading_zeros(s, limit) <= limit,
        forall|i: int| 0 <= i < leading_zeros(s, limit) ==> s[i] == 0,
    decreases s.len(),
{
    if s.len() == 0 || s[0] != 0 || limit == 0 {
    } else {
        lemma_leading_zeros(s.skip(1), (limit - 1) as nat);
        assert forall|i: int| 0 <= i < leading_zeros(s, limit) implies s[i] == 0 by {
            if i > 0 {
                assert(s.skip(1)[i - 1] == s[i]);
            }
        }
    }
}

proof fn lemma_zero_run(row: Seq<u8>)
    requires
        row.len() > 0,
        row[0] == 0,
    ensures
        1 <= zero_run(row) <= row.len(),
        zero_run(row) <= 255,
        forall|i: int| 0 <= i < zero_run(row) ==> row[i] == 0,
{
    lemma_leading_zeros(row.skip(1), 254);
    assert forall|i: int| 0 <= i < zero_run(row) implies row[i] == 0 by {
        if i > 0 {
            assert(row.skip(1)[i - 1] == row[i]);
        }
    }
}

/// Expanding the canonical coding of a row, followed by any bytes, gives the
/// row back.
pub proof fn lemma_decode_encode(row: Seq<u8>, rest: Seq<u8>)
    ensures
        rle_decode(rle_encode(row) + rest, row.len()) == row,
    decreases row.len(),
{
    let n = row.len();
    let e = rle_encode(row) + rest;
    if n == 0 {
    } else if row[0] != 0 {
        let tail = row.skip(1);
        assert(e[0] == row[0]);
        assert(e.skip(1) =~= rle_encode(tail) + rest);
        lemma_decode_encode(tail, rest);
        assert(seq![row[0]] + tail =~= row);
    } else {
        lemma_zero_run(row);
        let r = zero_run(row);
        let tail = row.skip(r as int);
        assert(e[0] == 0);
        assert(e[1] == r as u8);
        assert(e.skip(2) =~= rle_encode(tail) + rest);
        lemma_decode_encode(tail, rest);
        assert(zeros(r) + tail =~= row);
    }
}

/// Decompressing a canonically coded row and coding the result again gives the
/// same bytes.
pub proof fn lemma_round_trip(row: Seq<u8>)
    ensures
        rle_encode(rle_decode(rle_encode(row), row.len())) == rle_encode(row),
{
    lemma_decode_encode(row, seq![]);
    assert(rle_encode(row) + seq![] =~= rle_encode(row));
}

fn push_zeros(out: &mut Vec<u8>, c: usize)
    ensures
        final(out)@ == old(out)@ + zeros(c as nat),
{
    let mut k: usize = 0;
    while k < c
        invariant
            k <= c,
            out@ == old(out)@ + zeros(k as nat),
        decreases c - k,
    {
        out.push(0);
        k = k + 1;
        assert(out@ =~= old(out)@ + zeros(k as nat));
    }
}

/// Expands `row_len` row bytes from the coded bytes at `start`.
pub fn decompress_row(data: &[u8], start: usize, row_len: usize) -> (r: Vec<u8>)
    requires
        start <= data@.len(),
    ensures
        r@ == rle_decode(data@.skip(start as int), row_len as nat),
{
    let mut out: Vec<u8> = Vec::new();
    let mut pos: usize = start;
    let ghost whole = rle_decode(data@.skip(start as int), row_len as nat);
    while out.len() < row_len
        invariant
            start <= pos <= data@.len(),
            out@.len() <= row_len,
            out@ + rle_decode(data@.skip(pos as int), (row_len - out@.len()) as nat) == whole,
        decreases row_len - out@.len(), data@.len() - pos,
    {
        let ghost before = out@;
        let ghost rem = (row_len - out@.len()) as nat;
        let ghost s = data@.skip(pos as int);
        let left = row_len - out.len();
        if pos >= data.len() || (data[pos] == 0 && pos + 1 >= data.len()) {
            push_zeros(&mut out, left);
            assert(rle_decode(s, rem) == zeros(rem));
            assert(rle_decode(data@.skip(pos as int), 0) == Seq::<u8>::empty());
            assert(out@ + Seq::<u8>::empty() =~= out@);
        } else if data[pos] != 0 {
            assert(s[0] == data@[pos as int]);
            assert(s.skip(1) =~= data@.skip(pos + 1));
            out.push(data[pos]);
            pos = pos + 1;
            assert(before + (seq![s[0]] + rle_decode(s.skip(1), (rem - 1) as nat)) =~= out@
                + rle_decode(data@.skip(pos as int), (row_len - out@.len()) as nat));
        } else {
            let count = data[pos + 1] as usize;
            let c = if count <= left {
                count
            } else {
                left
            };
            assert(s[0] == 0 && s[1] == data@[pos + 1]);
            assert(s.skip(2) =~= data@.skip(pos + 2));
            push_zeros(&mut out, c);
            pos = pos + 2;
            assert(before + (zeros(c as nat) + rle_decode(s.skip(2), (rem - c) as nat)) =~= out@
                + rle_decode(data@.skip(pos as int), (row_len - out@.len()) as nat));
        }
    }
    assert(out@ + rle_decode(data@.skip(pos as int), 0) =~= out@);
    out
}

/// Codes a row in the canonical form.
pub fn compress_row(row: &[u8]) -> (r: Vec<u8>)
    ensures
        r@ == rle_encode(row@),
{
    let mut out: Vec<u8> = Vec::new();
    let mut j: usize = 0;
    assert(row@.skip(0) =~= row@);
    assert(out@ + rle_encode(row@) =~= rle_encode(row@));
    while j < row.len()
        invariant
            j <= row@.len(),
            out@ + rle_encode(row@.skip(j as int)) == rle_encode(row@),
        decreases row@.len() - j,
    {
        let ghost s = row@.skip(j as int);
        let ghost before = out@;
        if row[j] != 0 {
            assert(s[0] == row@[j as int]);
            assert(s.skip(1) =~= row@.skip(j + 1));
            out.push(row[j]);
            j = j + 1;
            assert(before + (seq![s[0]] + rle_encode(s.skip(1))) =~= out@ + rle_encode(
                row@.skip(j as int),
            ));
        } else {
            proof {
                lemma_zero_run(s);
            }
            let mut rep: usize = 1;
            let mut k: usize = j + 1;
            assert(row@.skip(k as int) =~= s.skip(1));
            while k < row.len() && row[k] == 0 && rep < 255
                invariant
                    j + 1 <= k <= row@.len(),
                    k == j + rep,
                    1 <= rep <= 255,
                    leading_zeros(s.skip(1), 254) == (rep - 1) + leading_zeros(
                        row@.skip(k as int),
                        (255 - rep) as nat,
                    ),
                decreases row@.len() - k,
            {
                assert(row@.skip(k as int).skip(1) =~= row@.skip(k + 1));
                rep = rep + 1;
                k = k + 1;
            }
            assert(leading_zeros(row@.skip(k as int), (255 - rep) as nat) == 0);
            out.push(0);
            out.push(rep as u8);
            assert(s.skip(rep as int) =~= row@.skip(k as int));
            j = k;
            assert(before + (seq![0u8, rep as u8] + rle_encode(s.skip(rep as int))) =~= out@
                + rle_encode(row@.skip(j as int)));
        }
    }
    assert(out@ + rle_encode(row@.skip(j as int)) =~= out@);
    out
}

/// The expanded row of a leaf whose coded data starts at `offset` (`None`: no
/// data, every leaf visible), covering `leaf_count` leafs.
pub fn decompress_vis(data: &[u8], offset: Option<usize>, leaf_count: usize) -> (r: Vec<u8>)
    requires
        offset matches Some(o) ==> o <= data@.len(),
    ensures
        r@ == vis_row(data@, offset, leaf_count as nat),
        r@.len() == row_bytes(leaf_count as nat),
{
    let row_len = leaf_count / 8 + if leaf_count % 8 == 0 {
        0
    } else {
        1
    };
    assert(row_len == row_bytes(leaf_count as nat));
    match offset {
        None => {
            let mut out: Vec<u8> = Vec::new();
            let mut k: usize = 0;
            while k < row_len
                invariant
                    k <= row_len,
                    out@ =~= Seq::new(k as nat, |i: int| 0xffu8),
                decreases row_len - k,
            {
                out.push(0xff);
                k = k + 1;
            }
            out
        },
        Some(o) => {
            let out = decompress_row(data, o, row_len);
            proof {
                lemma_decode_len(data@.skip(o as int), row_len as nat);
            }
            out
        },
    }
}

pub proof fn lemma_decode_len(data: Seq<u8>, n: nat)
    ensures
        rle_decode(data, n).len() == n,
    decreases n, data.len(),
{
    if n == 0 {
    } else if data.len() == 0 {
    } else if data[0] != 0 {
        lemma_decode_len(data.skip(1), (n - 1) as nat);
    } else if data.len() < 2 {
    } else {
        let c: nat = if data[1] as nat <= n {
            data[1] as nat
        } else {
            n
        };
        lemma_decode_len(data.skip(2), (n - c) as nat);
    }
}

/// Whether bit `i` of `row` is set.
pub fn row_bit_set(row: &Vec<u8>, i: usize) -> (r: bool)
    requires
        i / 8 < row@.len(),
    ensures
        r == row_bit(row@, i as int),
{
    let k = i % 8;
    let p: u32 = if k == 0 {
        1
    } else if k == 1 {
        2
    } else if k == 2 {
        4
    } else if k == 3 {
        8
    } else if k == 4 {
        16
    } else if k == 5 {
        32
    } else if k == 6 {
        64
    } else {
        128
    };
    (row[i / 8] as u32 / p) % 2 == 1
}

} // verus!
