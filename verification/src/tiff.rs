//! Run-length compression of raster lines.
//!
//! A raster line is compressed PackBits-style: a maximal run of two or more
//! identical bytes becomes a control byte holding `1 - run_length` in
//! two's-complement form followed by the repeated byte; a maximal stretch of
//! literal bytes (at most 127 of them) becomes a control byte holding
//! `stretch_length - 1` followed by the bytes themselves.  A lone byte is
//! always emitted as a one-byte literal stretch, never as a run.

use vstd::prelude::*;

verus! {

/// Length of the maximal prefix of `x` made of one repeated byte.
pub open spec fn run_length(x: Seq<u8>) -> int
    decreases x.len(),
{
    if x.len() <= 1 {
        x.len() as int
    } else if x[0] == x[1] {
        1 + run_length(x.skip(1))
    } else {
        1
    }
}

/// Length of the greedy literal stretch at the front of `x`: the bytes up to
/// (but not including) the first adjacent pair of equal bytes, capped at 127.
pub open spec fn lit_length(x: Seq<u8>) -> int
    decreases x.len(),
{
    if x.len() <= 1 {
        x.len() as int
    } else if x[0] == x[1] {
        0
    } else if 1 + lit_length(x.skip(1)) > 127 {
        127
    } else {
        1 + lit_length(x.skip(1))
    }
}

/// The compressed form of `x`: greedy leftmost chunking, repeat runs capped
/// at 128 bytes and literal stretches at 127 bytes.
pub open spec fn spec_compress(x: Seq<u8>) -> Seq<u8>
    decreases x.len(),
    via spec_compress_decreases
{
    if x.len() == 0 {
        Seq::empty()
    } else if run_length(x) >= 2 {
        let n: int = if run_length(x) > 128 { 128 } else { run_length(x) };
        seq![(257 - n) as u8, x[0]] + spec_compress(x.skip(n))
    } else {
        let l = lit_length(x);
        seq![(l - 1) as u8] + x.take(l) + spec_compress(x.skip(l))
    }
}

#[via_fn]
proof fn spec_compress_decreases(x: Seq<u8>) {
    if x.len() > 0 {
        lemma_run_length_bounds(x);
        lemma_lit_length_bounds(x);
        if run_length(x) < 2 {
            lemma_short_run_head(x);
        }
    }
}

/// A run shorter than 2 means the first byte differs from its successor.
proof fn lemma_short_run_head(x: Seq<u8>)
    requires
        x.len() > 0,
        run_length(x) < 2,
    ensures
        x.len() == 1 || x[0] != x[1],
{
    if x.len() > 1 && x[0] == x[1] {
        lemma_run_length_bounds(x.skip(1));
    }
}

/// What a compressed stream decodes to.  A control byte below 128 announces
/// that many bytes plus one of literals; one of 128 or above announces
/// `257 - control` copies of the byte that follows.  A truncated chunk
/// contributes whatever literal bytes remain.
pub open spec fn spec_decompress(d: Seq<u8>) -> Seq<u8>
    decreases d.len(),
{
    if d.len() == 0 {
        Seq::empty()
    } else if d[0] < 128 {
        let l = d[0] + 1;
        if d.len() >= 1 + l {
            d.subrange(1, 1 + l) + spec_decompress(d.skip(1 + l))
        } else {
            d.skip(1)
        }
    } else {
        if d.len() >= 2 {
            Seq::new((257 - d[0]) as nat, |i| d[1]) + spec_decompress(d.skip(2))
        } else {
            Seq::empty()
        }
    }
}

pub proof fn lemma_run_length_bounds(x: Seq<u8>)
    requires
        x.len() > 0,
    ensures
        1 <= run_length(x) <= x.len(),
    decreases x.len(),
{
    if x.len() > 1 && x[0] == x[1] {
        lemma_run_length_bounds(x.skip(1));
    }
}

pub proof fn lemma_lit_length_bounds(x: Seq<u8>)
    ensures
        0 <= lit_length(x),
        lit_length(x) <= x.len(),
        lit_length(x) <= 127,
        x.len() >= 1 && (x.len() == 1 || x[0] != x[1]) ==> lit_length(x) >= 1,
    decreases x.len(),
{
    if x.len() <= 1 {
    } else if x[0] == x[1] {
    } else {
        lemma_lit_length_bounds(x.skip(1));
    }
}

/// Every byte of the maximal run equals the first byte, and the byte after
/// the run (if any) differs from it.
pub proof fn lemma_run_length_agrees(x: Seq<u8>)
    requires
        x.len() > 0,
    ensures
        forall|k: int| 0 <= k < run_length(x) ==> #[trigger] x[k] == x[0],
        run_length(x) < x.len() ==> x[run_length(x)] != x[0],
    decreases x.len(),
{
    lemma_run_length_bounds(x);
    if x.len() > 1 && x[0] == x[1] {
        lemma_run_length_agrees(x.skip(1));
        lemma_run_length_bounds(x.skip(1));
        assert forall|k: int| 0 <= k < run_length(x) implies #[trigger] x[k] == x[0] by {
            if k >= 1 {
                assert(x.skip(1)[k - 1] == x[k]);
            }
        }
        if run_length(x) < x.len() {
            assert(x.skip(1)[run_length(x) - 1] == x[run_length(x)]);
        }
    }
}

/// The maximal-run length is pinned down by its two defining properties.
pub proof fn lemma_run_length_unique(x: Seq<u8>, r: int)
    requires
        1 <= r <= x.len(),
        forall|k: int| 0 <= k < r ==> #[trigger] x[k] == x[0],
        r < x.len() ==> x[r] != x[0],
    ensures
        run_length(x) == r,
    decreases x.len(),
{
    if r == 1 {
        if x.len() > 1 {
            assert(x[1] != x[0]);
        }
    } else {
        assert(x[1] == x[0]);
        let y = x.skip(1);
        assert forall|k: int| 0 <= k < r - 1 implies #[trigger] y[k] == y[0] by {
            assert(y[k] == x[k + 1]);
            assert(y[0] == x[1]);
        }
        if r - 1 < y.len() {
            assert(y[r - 1] == x[r]);
        }
        lemma_run_length_unique(y, r - 1);
    }
}

/// The greedy literal-stretch length is pinned down by its defining
/// properties, as long as the 127-byte cap is not in play.
pub proof fn lemma_lit_length_unique(x: Seq<u8>, l: int)
    requires
        1 <= l <= x.len(),
        l < 127,
        x.len() == 1 || x[0] != x[1],
        forall|k: int| 0 <= k < l && k + 1 < x.len() ==> #[trigger] x[k] != x[k + 1],
        l == x.len() || (l + 1 < x.len() && x[l] == x[l + 1]),
    ensures
        lit_length(x) == l,
    decreases x.len(),
{
    if x.len() == 1 {
    } else {
        assert(x[0] != x[1]);
        let y = x.skip(1);
        if l == 1 {
            assert(l + 1 < x.len() && x[1] == x[2]);
            assert(y[0] == x[1] && y[1] == x[2]);
            assert(lit_length(y) == 0);
        } else {
            assert forall|k: int| 0 <= k < l - 1 && k + 1 < y.len() implies #[trigger] y[k] != y[k
                + 1] by {
                assert(y[k] == x[k + 1] && y[k + 1] == x[k + 2]);
            }
            if l - 1 + 1 < y.len() {
                assert(y[l - 1] == x[l] && y[l] == x[l + 1]);
            }
            assert(y.len() == 1 || y[0] != y[1]) by {
                if y.len() > 1 {
                    assert(y[0] == x[1] && y[1] == x[2]);
                }
            }
            lemma_lit_length_unique(y, l - 1);
        }
    }
}

/// Law: the compressed form never exceeds twice the length of the input.
pub proof fn lemma_compress_bound(x: Seq<u8>)
    ensures
        spec_compress(x).len() <= 2 * x.len(),
    decreases x.len(),
{
    if x.len() > 0 {
        lemma_run_length_bounds(x);
        lemma_lit_length_bounds(x);
        if run_length(x) >= 2 {
            let n: int = if run_length(x) > 128 { 128 } else { run_length(x) };
            lemma_compress_bound(x.skip(n));
        } else {
            lemma_short_run_head(x);
            lemma_compress_bound(x.skip(lit_length(x)));
        }
    }
}

/// Law: decompression exactly inverts compression, for inputs of any length.
pub proof fn lemma_compress_round_trip(x: Seq<u8>)
    ensures
        spec_decompress(spec_compress(x)) == x,
    decreases x.len(),
{
    if x.len() == 0 {
        assert(spec_compress(x) =~= Seq::<u8>::empty());
        assert(spec_decompress(spec_compress(x)) =~= x);
    } else {
        lemma_run_length_bounds(x);
        lemma_lit_length_bounds(x);
        let d = spec_compress(x);
        if run_length(x) >= 2 {
            let n: int = if run_length(x) > 128 { 128 } else { run_length(x) };
            let rest = spec_compress(x.skip(n));
            assert(d =~= seq![(257 - n) as u8, x[0]] + rest);
            assert(d[0] == (257 - n) as u8);
            assert(129 <= 257 - n <= 255);
            assert(d[0] as int == 257 - n);
            assert(d[1] == x[0]);
            assert(d.skip(2) =~= rest);
            lemma_compress_round_trip(x.skip(n));
            lemma_run_length_agrees(x);
            assert(Seq::new((257 - d[0]) as nat, |i: int| d[1]) =~= x.take(n));
            assert(spec_decompress(d) =~= x.take(n) + x.skip(n));
            assert(x.take(n) + x.skip(n) =~= x);
        } else {
            lemma_short_run_head(x);
            let l = lit_length(x);
            let rest = spec_compress(x.skip(l));
            assert(d =~= seq![(l - 1) as u8] + x.take(l) + rest);
            assert(d[0] == (l - 1) as u8);
            assert(0 <= l - 1 <= 126);
            assert(d[0] as int == l - 1);
            assert(d.len() >= 1 + l);
            assert(d.subrange(1, 1 + l) =~= x.take(l));
            assert(d.skip(1 + l) =~= rest);
            lemma_compress_round_trip(x.skip(l));
            assert(spec_decompress(d) =~= x.take(l) + x.skip(l));
            assert(x.take(l) + x.skip(l) =~= x);
        }
    }
}

/// Law: a line of 16 identical bytes compresses to exactly two bytes — the
/// control byte for a run of 16, then the byte itself.
pub proof fn lemma_tie_break_repeat(x: Seq<u8>)
    requires
        x.len() == 16,
        forall|k: int| 0 <= k < 16 ==> #[trigger] x[k] == x[0],
    ensures
        spec_compress(x) == seq![0xF1u8, x[0]],
{
    lemma_run_length_unique(x, 16);
    assert(x.skip(16) =~= Seq::<u8>::empty());
    assert(spec_compress(Seq::<u8>::empty()) =~= Seq::<u8>::empty());
    assert(spec_compress(x) =~= seq![0xF1u8, x[0]]);
}

/// Law: a line of 16 bytes with no two equal neighbours compresses to
/// exactly 17 bytes — one literal-stretch control byte, then the line
/// verbatim.  A lone byte is a literal, never a run.
pub proof fn lemma_tie_break_literal(x: Seq<u8>)
    requires
        x.len() == 16,
        forall|k: int| 0 <= k < 15 ==> #[trigger] x[k] != x[k + 1],
    ensures
        spec_compress(x) == seq![0x0Fu8] + x,
{
    assert(x[0] != x[1]);
    lemma_run_length_unique(x, 1);
    lemma_lit_length_unique(x, 16);
    assert(x.skip(16) =~= Seq::<u8>::empty());
    assert(x.take(16) =~= x);
    assert(spec_compress(Seq::<u8>::empty()) =~= Seq::<u8>::empty());
    assert(spec_compress(x) =~= seq![0x0Fu8] + x);
}

/// Compress one 16-byte raster line.
pub fn compress(line: &[u8; 16]) -> (r: Vec<u8>)
    ensures
        r@ == spec_compress(line@),
        r@.len() <= 32,
{
    let mut out: Vec<u8> = Vec::new();
    let mut i: usize = 0;
    proof {
        assert(line@.skip(0) =~= line@);
        assert(out@ + spec_compress(line@) =~= spec_compress(line@));
    }
    while i < 16
        invariant
            i <= 16,
            out@ + spec_compress(line@.skip(i as int)) == spec_compress(line@),
        decreases 16 - i,
    {
        let ghost s = line@.skip(i as int);
        let mut j: usize = i + 1;
        while j < 16 && line[j] == line[i]
            invariant
                i < j <= 16,
                i < 16,
                forall|k: int| i <= k < j ==> #[trigger] line@[k] == line@[i as int],
            decreases 16 - j,
        {
            j += 1;
        }
        proof {
            assert(s.len() == 16 - i);
            assert forall|k: int| 0 <= k < j - i implies #[trigger] s[k] == s[0] by {
                assert(s[k] == line@[i + k]);
                assert(s[0] == line@[i as int]);
            }
            if j - i < s.len() {
                assert(s[j - i] == line@[j as int]);
                assert(line@[j as int] != line@[i as int]);
            }
            lemma_run_length_unique(s, j - i);
        }
        if j - i >= 2 {
            out.push((257u16 - (j - i) as u16) as u8);
            out.push(line[i]);
            proof {
                let n: int = j - i;
                assert(spec_compress(s) =~= seq![(257 - n) as u8, s[0]] + spec_compress(
                    s.skip(n),
                ));
                assert(s.skip(n) =~= line@.skip(j as int));
                assert(out@ + spec_compress(line@.skip(j as int)) =~= spec_compress(line@));
            }
            i = j;
        } else {
            let mut l: usize = 1;
            while i + l < 16 && (i + l + 1 == 16 || line[i + l] != line[i + l + 1])
                invariant
                    1 <= l,
                    i + l <= 16,
                    i < 16,
                    forall|k: int|
                        0 <= k < l && i + k + 1 < 16 ==> #[trigger] line@[i + k] != line@[i + k
                            + 1],
                decreases 16 - l,
            {
                l += 1;
            }
            proof {
                assert forall|k: int| 0 <= k < l && k + 1 < s.len() implies #[trigger] s[k] != s[k
                    + 1] by {
                    assert(s[k] == line@[i + k]);
                    assert(s[k + 1] == line@[i + k + 1]);
                }
                assert(s.len() == 1 || s[0] != s[1]);
                if i + l < 16 {
                    assert(i + l + 1 < 16 && line@[i + l] == line@[i + l + 1]);
                    assert(s[l as int] == line@[i + l]);
                    assert(s[l as int + 1] == line@[i + l + 1]);
                }
                lemma_lit_length_unique(s, l as int);
            }
            out.push((l - 1) as u8);
            let ghost mid = out@;
            let mut m: usize = 0;
            while m < l
                invariant
                    m <= l,
                    i + l <= 16,
                    out@ == mid + line@.subrange(i as int, i + m),
                decreases l - m,
            {
                out.push(line[i + m]);
                proof {
                    assert(out@ =~= mid + line@.subrange(i as int, i + m + 1));
                }
                m += 1;
            }
            proof {
                assert(spec_compress(s) =~= seq![(l - 1) as u8] + s.take(l as int)
                    + spec_compress(s.skip(l as int)));
                assert(s.take(l as int) =~= line@.subrange(i as int, i + l));
                assert(s.skip(l as int) =~= line@.skip(i + l));
                assert(out@ + spec_compress(line@.skip(i + l)) =~= spec_compress(line@));
            }
            i = i + l;
        }
    }
    proof {
        assert(line@.skip(16) =~= Seq::<u8>::empty());
        assert(out@ =~= spec_compress(line@));
        lemma_compress_bound(line@);
    }
    out
}

/// Decompress a run-length stream back into raster bytes.  On the output of
/// `compress` this exactly reconstructs the original line.
pub fn decompress(d: &Vec<u8>) -> (r: Vec<u8>)
    ensures
        r@ == spec_decompress(d@),
{
    let mut out: Vec<u8> = Vec::new();
    let mut p: usize = 0;
    let dlen: usize = d.len();
    proof {
        assert(d@.len() == dlen);
        assert(d@.skip(0) =~= d@);
        assert(out@ + spec_decompress(d@) =~= spec_decompress(d@));
    }
    while p < d.len()
        invariant
            p <= d@.len(),
            d@.len() <= usize::MAX,
            out@ + spec_decompress(d@.skip(p as int)) == spec_decompress(d@),
        decreases d@.len() - p,
    {
        let ghost s = d@.skip(p as int);
        let c = d[p];
        proof {
            assert(s[0] == d@[p as int]);
        }
        if c < 128 {
            let l = c as usize + 1;
            if d.len() - p - 1 >= l {
                let ghost mid = out@;
                let mut m: usize = 0;
                while m < l
                    invariant
                        m <= l,
                        p + 1 + l <= d@.len(),
                        d@.len() <= usize::MAX,
                        out@ == mid + d@.subrange(p + 1, p + 1 + m),
                    decreases l - m,
                {
                    out.push(d[p + 1 + m]);
                    proof {
                        assert(out@ =~= mid + d@.subrange(p + 1, p + 1 + m + 1));
                    }
                    m += 1;
                }
                proof {
                    assert(spec_decompress(s) =~= s.subrange(1, 1 + l) + spec_decompress(
                        s.skip(1 + l),
                    ));
                    assert(s.subrange(1, 1 + l) =~= d@.subrange(p + 1, p + 1 + l));
                    assert(s.skip(1 + l) =~= d@.skip(p + 1 + l));
                    assert(out@ + spec_decompress(d@.skip(p + 1 + l)) =~= spec_decompress(d@));
                }
                p = p + 1 + l;
            } else {
                let ghost mid = out@;
                let mut q: usize = p + 1;
                while q < d.len()
                    invariant
                        p + 1 <= q <= d@.len(),
                        d@.len() <= usize::MAX,
                        out@ == mid + d@.subrange(p + 1, q as int),
                    decreases d@.len() - q,
                {
                    out.push(d[q]);
                    proof {
                        assert(out@ =~= mid + d@.subrange(p + 1, q + 1));
                    }
                    q += 1;
                }
                proof {
                    assert(spec_decompress(s) =~= s.skip(1));
                    assert(s.skip(1) =~= d@.subrange(p + 1, d@.len() as int));
                    assert(d@.skip(d@.len() as int) =~= Seq::<u8>::empty());
                    assert(out@ + spec_decompress(d@.skip(d@.len() as int)) =~= spec_decompress(
                        d@,
                    ));
                }
                p = d.len();
            }
        } else {
            if d.len() - p >= 2 {
                let b = d[p + 1];
                let n = 257 - c as usize;
                let ghost mid = out@;
                let mut m: usize = 0;
                while m < n
                    invariant
                        m <= n,
                        out@ == mid + Seq::new(m as nat, |k: int| b),
                    decreases n - m,
                {
                    out.push(b);
                    proof {
                        assert(out@ =~= mid + Seq::new((m + 1) as nat, |k: int| b));
                    }
                    m += 1;
                }
                proof {
                    assert(s.len() >= 2);
                    assert(s[1] == d@[p + 1]);
                    assert(spec_decompress(s) =~= Seq::new((257 - s[0]) as nat, |k: int| s[1])
                        + spec_decompress(s.skip(2)));
                    assert(Seq::new(n as nat, |k: int| b) =~= Seq::new(
                        (257 - s[0]) as nat,
                        |k: int| s[1],
                    ));
                    assert(s.skip(2) =~= d@.skip(p + 2));
                    assert(out@ + spec_decompress(d@.skip(p + 2)) =~= spec_decompress(d@));
                }
                p = p + 2;
            } else {
                proof {
                    assert(s.len() == 1);
                    assert(spec_decompress(s) =~= Seq::<u8>::empty());
                    assert(d@.skip(d@.len() as int) =~= Seq::<u8>::empty());
                    assert(out@ + spec_decompress(d@.skip(d@.len() as int)) =~= spec_decompress(
                        d@,
                    ));
                }
                p = d.len();
            }
        }
    }
    proof {
        assert(d@.skip(d@.len() as int) =~= Seq::<u8>::empty());
        assert(out@ =~= spec_decompress(d@));
    }
    out
}

} // verus!
