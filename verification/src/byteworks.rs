use vstd::prelude::*;

verus! {

/// Bit `i` of the word `w`, least-significant bit first: `1u8` when the bit
/// is set, `0u8` otherwise.
pub open spec fn bit_of(w: u32, i: int) -> u8 {
    if (w >> (i as u32)) & 1 == 1 {
        1u8
    } else {
        0u8
    }
}

/// The 32 bits of a word, least-significant bit first.
pub open spec fn word_bits(w: u32) -> Seq<u8> {
    Seq::new(32, |i: int| bit_of(w, i))
}

/// A sequence of single-bit values: every entry is 0 or 1.
pub open spec fn is_bitvector(s: Seq<u8>) -> bool {
    forall|k: int| 0 <= k < s.len() ==> s[k] <= 1
}

/// Words that agree on their lowest `n` bits agree under the `n`-bit mask;
/// with all 32 bits they are the same word.
proof fn lemma_low_bits_eq(a: u32, b: u32, n: u32)
    requires
        n <= 32,
        forall|i: u32| i < n ==> (a >> i) & 1 == (b >> i) & 1,
    ensures
        n < 32 ==> (a & (((1u32 << n) - 1) as u32)) == (b & (((1u32 << n) - 1) as u32)),
        n == 32 ==> a == b,
    decreases n,
{
    if n == 0 {
        assert(a & (((1u32 << 0u32) - 1) as u32) == b & (((1u32 << 0u32) - 1) as u32))
            by (bit_vector);
    } else {
        let m: u32 = (n - 1) as u32;
        lemma_low_bits_eq(a, b, m);
        assert((a >> m) & 1 == (b >> m) & 1);
        if n < 32 {
            assert(a & (((1u32 << n) - 1) as u32) == b & (((1u32 << n) - 1) as u32))
                by (bit_vector)
                requires
                    1 <= n < 32,
                    m == n - 1,
                    a & (((1u32 << m) - 1) as u32) == b & (((1u32 << m) - 1) as u32),
                    (a >> m) & 1 == (b >> m) & 1,
            ;
        } else {
            assert(a == b) by (bit_vector)
                requires
                    m == 31,
                    a & (((1u32 << m) - 1) as u32) == b & (((1u32 << m) - 1) as u32),
                    (a >> m) & 1 == (b >> m) & 1,
            ;
        }
    }
}

/// Two words with the same bits are the same word.
///
/// This is the heart of the codec's round-trip law: a word is determined
/// by its 32 bits.
pub proof fn lemma_bits_determine_word(a: u32, b: u32)
    requires
        forall|i: int| 0 <= i < 32 ==> bit_of(a, i) == bit_of(b, i),
    ensures
        a == b,
{
    assert forall|i: u32| i < 32 implies (a >> i) & 1 == (b >> i) & 1 by {
        assert((a >> i) & 1 == 0 || (a >> i) & 1 == 1) by (bit_vector);
        assert((b >> i) & 1 == 0 || (b >> i) & 1 == 1) by (bit_vector);
        assert(bit_of(a, i as int) == bit_of(b, i as int));
    }
    lemma_low_bits_eq(a, b, 32);
}

/// Appends the 32 bits of `w`, least-significant first, to `out`.
fn append_word_bits(out: &mut Vec<u8>, w: u32)
    ensures
        final(out)@.len() == old(out)@.len() + 32,
        forall|k: int| 0 <= k < old(out)@.len() ==> final(out)@[k] == old(out)@[k],
        forall|t: int|
            0 <= t < 32 ==> final(out)@[old(out)@.len() + t] == #[trigger] bit_of(w, t),
{
    let ghost base = out@.len();
    for i in 0..32u32
        invariant
            out@.len() == base + i,
            forall|k: int| 0 <= k < base ==> out@[k] == old(out)@[k],
            forall|t: int| 0 <= t < i ==> out@[base + t] == #[trigger] bit_of(w, t),
    {
        let masked: u32 = (w >> i) & 1;
        proof {
            assert((w >> i) & 1 == 0 || (w >> i) & 1 == 1) by (bit_vector);
        }
        out.push(masked as u8);
    }
}

/// The 32 bits of the word `c`, least-significant bit first.
pub fn to_bitvector(c: u32) -> (r: Vec<u8>)
    ensures
        r@ == word_bits(c),
{
    let mut result: Vec<u8> = Vec::with_capacity(32);
    append_word_bits(&mut result, c);
    proof {
        assert(result@ =~= word_bits(c));
    }
    result
}

/// The word whose bits are the 32 entries of `v` from `base` on,
/// least-significant bit first.
fn decode_group(v: &Vec<u8>, base: usize) -> (r: u32)
    requires
        base + 32 <= v@.len(),
        forall|k: int| base <= k < base + 32 ==> v@[k] <= 1,
    ensures
        forall|k: int| 0 <= k < 32 ==> bit_of(r, k) == v@[base + k],
{
    let vlen: usize = v.len();
    let mut acc: u32 = 0;
    proof {
        assert forall|k: int| 0 <= k < 32 implies bit_of(0u32, k) == 0u8 by {
            let ku = k as u32;
            assert((0u32 >> ku) & 1 == 0) by (bit_vector);
        }
    }
    for i in 0..32u32
        invariant
            v@.len() == vlen,
            base + 32 <= vlen,
            forall|k: int| base <= k < base + 32 ==> v@[k] <= 1,
            forall|k: int| 0 <= k < i ==> bit_of(acc, k) == v@[base + k],
            forall|k: int| i <= k < 32 ==> bit_of(acc, k) == 0u8,
    {
        let b: u32 = v[base + i as usize] as u32;
        let ghost prev = acc;
        acc = acc | (b << i);
        proof {
            assert((prev >> i) & 1 == 0 || (prev >> i) & 1 == 1) by (bit_vector);
            assert(bit_of(prev, i as int) == 0u8);
            assert((prev >> i) & 1 == 0);
            assert forall|k: int| 0 <= k < 32 implies bit_of(acc, k) == (
                if k == i { v@[base + i as int] } else { bit_of(prev, k) }
            ) by {
                let ku = k as u32;
                if ku == i {
                    assert(((prev | (b << i)) >> ku) & 1 == b) by (bit_vector)
                        requires
                            ku < 32,
                            ku == i,
                            b <= 1,
                            (prev >> i) & 1 == 0,
                    ;
                } else {
                    assert(((prev | (b << i)) >> ku) & 1 == (prev >> ku) & 1) by (bit_vector)
                        requires
                            ku < 32,
                            i < 32,
                            ku != i,
                            b <= 1,
                    ;
                }
            }
        }
    }
    acc
}

/// The word whose bits are the first 32 entries of `v`, least-significant
/// bit first.
pub fn from_bitvector(v: &Vec<u8>) -> (r: u32)
    requires
        v@.len() >= 32,
        forall|k: int| 0 <= k < 32 ==> v@[k] <= 1,
    ensures
        forall|k: int| 0 <= k < 32 ==> bit_of(r, k) == v@[k],
{
    decode_group(v, 0)
}

/// Concatenates the 32-bit encodings of the words of `v`, in order,
/// each word's bits least-significant first.
pub fn floats2bits(v: &Vec<u32>) -> (r: Vec<u8>)
    ensures
        r@.len() == 32 * v@.len(),
        forall|j: int, t: int|
            0 <= j < v@.len() && 0 <= t < 32 ==> r@[32 * j + t] == #[trigger] bit_of(v@[j], t),
        is_bitvector(r@),
{
    let mut result: Vec<u8> = Vec::new();
    for j in 0..v.len()
        invariant
            result@.len() == 32 * j,
            forall|jj: int, t: int|
                0 <= jj < j && 0 <= t < 32 ==> result@[32 * jj + t] == #[trigger] bit_of(
                    v@[jj],
                    t,
                ),
            is_bitvector(result@),
    {
        let ghost before = result@;
        append_word_bits(&mut result, v[j]);
        proof {
            assert forall|jj: int, t: int|
                0 <= jj < j + 1 && 0 <= t < 32 implies result@[32 * jj + t] == #[trigger] bit_of(
                v@[jj],
                t,
            ) by {
                if jj < j {
                    assert(32 * jj + t < 32 * j) by (nonlinear_arith)
                        requires
                            jj < j,
                            t < 32,
                    ;
                    assert(result@[32 * jj + t] == before[32 * jj + t]);
                } else {
                    assert(result@[32 * j + t] == bit_of(v@[j as int], t));
                }
            }
            assert forall|k: int| 0 <= k < result@.len() implies result@[k] <= 1 by {
                if k >= 32 * j {
                    assert(result@[k] == bit_of(v@[j as int], k - 32 * j));
                }
            }
        }
    }
    result
}

/// Splits `v` into consecutive 32-bit groups, dropping any incomplete
/// trailing group, and decodes each group to a word.
pub fn bits2floats(v: &Vec<u8>) -> (r: Vec<u32>)
    requires
        is_bitvector(v@),
    ensures
        r@.len() == v@.len() / 32,
        forall|j: int, t: int|
            0 <= j < r@.len() && 0 <= t < 32 ==> #[trigger] bit_of(r@[j], t) == v@[32 * j + t],
{
    let bitsize: usize = v.len();
    let floatssize: usize = bitsize / 32;
    let mut floatvector: Vec<u32> = Vec::with_capacity(floatssize);
    for j in 0..floatssize
        invariant
            floatssize == v@.len() / 32,
            v@.len() == bitsize,
            is_bitvector(v@),
            floatvector@.len() == j,
            forall|jj: int, t: int|
                0 <= jj < j && 0 <= t < 32 ==> #[trigger] bit_of(floatvector@[jj], t) == v@[32 * jj
                    + t],
    {
        let base: usize = j * 32;
        proof {
            assert(32 * (j + 1) <= 32 * (v@.len() / 32)) by (nonlinear_arith)
                requires
                    j + 1 <= v@.len() / 32,
            ;
            assert(32 * (v@.len() / 32) <= v@.len()) by (nonlinear_arith);
        }
        let word: u32 = decode_group(v, base);
        floatvector.push(word);
        proof {
            assert(32 * (j as int) == base as int);
        }
    }
    floatvector
}

/// The position of the highest set bit of `m` (0 for `m` of 0 or 1).
pub open spec fn msb_pos(m: u64) -> u64
    decreases m,
{
    if m < 2 {
        0
    } else {
        (1 + msb_pos(m / 2)) as u64
    }
}

/// The highest set bit's position never exceeds the value itself.
proof fn lemma_msb_le(x: u64)
    ensures
        msb_pos(x) <= x,
    decreases x,
{
    if x >= 2 {
        lemma_msb_le(x / 2);
    }
}

/// For 1 <= m < 2^23: the highest set bit of `m` lies at or below
/// position 22, 2^msb_pos(m) is at most `m`, and shifting `m` down by
/// msb_pos(m) leaves exactly 1.
proof fn lemma_msb(m: u64)
    requires
        1 <= m < 0x80_0000,
    ensures
        msb_pos(m) <= 22,
        (1u64 << msb_pos(m)) <= m,
        m >> msb_pos(m) == 1,
    decreases m,
{
    if m < 2 {
        assert(1u64 << 0u64 == 1) by (bit_vector);
        assert(m >> 0u64 == m) by (bit_vector);
    } else {
        lemma_msb(m / 2);
        let j = msb_pos(m / 2);
        let j1: u64 = (j + 1) as u64;
        assert(m / 2 < 0x40_0000);
        assert(j <= 21) by {
            if j == 22 {
                assert((1u64 << 22u64) == 0x40_0000) by (bit_vector);
            }
        }
        assert(msb_pos(m) == j1);
        assert(m >> 1 == m / 2) by (bit_vector);
        assert(m >> j1 == (m >> 1) >> j) by (bit_vector)
            requires
                j <= 21,
                j1 == j + 1,
        ;
        assert(1u64 << j1 == 2 * (1u64 << j)) by (bit_vector)
            requires
                j <= 21,
                j1 == j + 1,
        ;
        assert(2 * (m / 2) <= m);
    }
}

/// The IEEE-754 binary64 bit pattern that holds exactly the value of the
/// binary32 bit pattern `w`: sign kept, exponent rebiased, fraction
/// widened; a subnormal is normalized from its highest set fraction bit;
/// infinities and NaNs keep their class and their payload bits.
pub open spec fn widen_bits(w: u32) -> u64 {
    let s: u64 = (w >> 31) as u64;
    let e: u64 = ((w >> 23) & 0xff) as u64;
    let f: u64 = (w & 0x7f_ffff) as u64;
    if e == 0xff {
        (s << 63) | (0x7ffu64 << 52) | (f << 29)
    } else if e >= 1 {
        (s << 63) | (((e + 896) as u64) << 52) | (f << 29)
    } else if f == 0 {
        s << 63
    } else {
        let j = msb_pos(f);
        (s << 63) | (((j + 874) as u64) << 52) | (((f - (1u64 << j)) as u64) << ((52 - j) as u64))
    }
}

/// Widens one 32-bit floating-point bit pattern to the 64-bit pattern of
/// the same value, as `widen_bits` states: a lossless promotion.
pub fn widen(w: u32) -> (r: u64)
    ensures
        r == widen_bits(w),
{
    let s: u64 = (w >> 31) as u64;
    let e: u64 = ((w >> 23) & 0xff) as u64;
    let f: u64 = (w & 0x7f_ffff) as u64;
    proof {
        assert((w >> 23) & 0xff < 0x100) by (bit_vector);
        assert(w & 0x7f_ffff < 0x80_0000) by (bit_vector);
    }
    if e == 0xff {
        (s << 63) | (0x7ffu64 << 52) | (f << 29)
    } else if e >= 1 {
        (s << 63) | ((e + 896) << 52) | (f << 29)
    } else if f == 0 {
        s << 63
    } else {
        let mut j: u64 = 0;
        let mut m: u64 = f;
        proof {
            lemma_msb(f);
        }
        while m >= 2
            invariant
                1 <= m <= f,
                f < 0x80_0000,
                msb_pos(f) == j + msb_pos(m),
                msb_pos(f) <= 22,
                j <= 22,
            decreases m,
        {
            proof {
                lemma_msb_le(m / 2);
                assert(msb_pos(m) == (1 + msb_pos(m / 2)) as u64);
                assert(msb_pos(m) == 1 + msb_pos(m / 2));
            }
            m = m / 2;
            j = j + 1;
        }
        proof {
            assert(msb_pos(m) == 0);
            assert(j == msb_pos(f));
        }
        (s << 63) | ((j + 874) << 52) | ((f - (1u64 << j)) << (52 - j))
    }
}

/// Elementwise lossless widening of 32-bit floating-point bit patterns
/// to the 64-bit patterns of the same values; order and length are kept.
pub fn floatstodoubles(x: &Vec<u32>) -> (r: Vec<u64>)
    ensures
        r@.len() == x@.len(),
        forall|i: int| 0 <= i < x@.len() ==> r@[i] == widen_bits(#[trigger] x@[i]),
{
    let n: usize = x.len();
    let mut newvector: Vec<u64> = Vec::with_capacity(n);
    for i in 0..n
        invariant
            x@.len() == n,
            newvector@.len() == i,
            forall|k: int| 0 <= k < i ==> newvector@[k] == widen_bits(#[trigger] x@[k]),
    {
        newvector.push(widen(x[i]));
    }
    newvector
}

/// Round trip for one word: decoding the 32 bits produced by
/// `to_bitvector` yields the original word, bit-exactly, for every
/// pattern, the special ones included.
pub proof fn lemma_word_round_trip(x: u32, r: u32)
    requires
        forall|i: int| 0 <= i < 32 ==> bit_of(r, i) == word_bits(x)[i],
    ensures
        r == x,
{
    assert forall|i: int| 0 <= i < 32 implies bit_of(r, i) == bit_of(x, i) by {
        assert(bit_of(r, i) == word_bits(x)[i]);
    }
    lemma_bits_determine_word(r, x);
}

/// Round trip for a vector of words: splitting the concatenated encoding
/// of `vs` back into words yields `vs` itself, elementwise.
///
/// `bits` is the output `floats2bits` describes for `vs`, and `back` the
/// output `bits2floats` describes for `bits`.
pub proof fn lemma_vector_round_trip(vs: Seq<u32>, bits: Seq<u8>, back: Seq<u32>)
    requires
        bits.len() == 32 * vs.len(),
        forall|j: int, t: int|
            0 <= j < vs.len() && 0 <= t < 32 ==> bits[32 * j + t] == #[trigger] bit_of(vs[j], t),
        back.len() == bits.len() / 32,
        forall|j: int, t: int|
            0 <= j < back.len() && 0 <= t < 32 ==> #[trigger] bit_of(back[j], t) == bits[32 * j
                + t],
    ensures
        back == vs,
{
    assert(back.len() == vs.len());
    assert forall|j: int| 0 <= j < vs.len() implies back[j] == vs[j] by {
        assert forall|t: int| 0 <= t < 32 implies bit_of(back[j], t) == bit_of(vs[j], t) by {
            assert(bit_of(back[j], t) == bits[32 * j + t]);
            assert(bits[32 * j + t] == bit_of(vs[j], t));
        }
        lemma_bits_determine_word(back[j], vs[j]);
    }
    assert(back =~= vs);
}

} // verus!
