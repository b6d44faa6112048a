//! Big-endian integers and fixed-width, NUL-padded strings as they stand on
//! the wire.
use vstd::prelude::*;

verus! {

/// The two big-endian bytes of `x`.
pub open spec fn be16(x: u16) -> Seq<u8> {
    seq![(x >> 8) as u8, x as u8]
}

/// The big-endian value of two bytes.
pub open spec fn be16_value(b0: u8, b1: u8) -> u16 {
    ((b0 as u16) << 8) | (b1 as u16)
}

/// The four big-endian bytes of `x`.
pub open spec fn be32(x: u32) -> Seq<u8> {
    seq![(x >> 24) as u8, (x >> 16) as u8, (x >> 8) as u8, x as u8]
}

/// The big-endian value of the four bytes of `b` from `at`.
pub open spec fn be32_value(b: Seq<u8>, at: int) -> u32 {
    ((b[at] as u32) << 24) | ((b[at + 1] as u32) << 16) | ((b[at + 2] as u32) << 8) | (b[at
        + 3] as u32)
}

pub proof fn lemma_be16_round_trip(x: u16)
    ensures
        be16_value(be16(x)[0], be16(x)[1]) == x,
{
    let b0 = (x >> 8) as u8;
    let b1 = x as u8;
    assert(((b0 as u16) << 8) | (b1 as u16) == x) by (bit_vector)
        requires
            b0 == (x >> 8) as u8,
            b1 == x as u8,
    ;
}

pub proof fn lemma_be16_at(x: u16, b: Seq<u8>, at: int)
    requires
        0 <= at,
        at + 2 <= b.len(),
        b.subrange(at, at + 2) == be16(x),
    ensures
        be16_value(b[at], b[at + 1]) == x,
{
    lemma_be16_round_trip(x);
    assert(b[at] == b.subrange(at, at + 2)[0]);
    assert(b[at + 1] == b.subrange(at, at + 2)[1]);
}

pub proof fn lemma_be32_round_trip(x: u32, b: Seq<u8>, at: int)
    requires
        0 <= at,
        at + 4 <= b.len(),
        b.subrange(at, at + 4) == be32(x),
    ensures
        be32_value(b, at) == x,
{
    let b0 = (x >> 24) as u8;
    let b1 = (x >> 16) as u8;
    let b2 = (x >> 8) as u8;
    let b3 = x as u8;
    assert(b[at] == b.subrange(at, at + 4)[0]);
    assert(b[at + 1] == b.subrange(at, at + 4)[1]);
    assert(b[at + 2] == b.subrange(at, at + 4)[2]);
    assert(b[at + 3] == b.subrange(at, at + 4)[3]);
    assert(((b0 as u32) << 24) | ((b1 as u32) << 16) | ((b2 as u32) << 8) | (b3 as u32) == x)
        by (bit_vector)
        requires
            b0 == (x >> 24) as u8,
            b1 == (x >> 16) as u8,
            b2 == (x >> 8) as u8,
            b3 == x as u8,
    ;
}

/// Appends the big-endian bytes of `x`.
pub fn push_u16(out: &mut Vec<u8>, x: u16)
    ensures
        final(out)@ == old(out)@ + be16(x),
{
    out.push((x >> 8) as u8);
    #[verifier::truncate]
    let low = x as u8;
    out.push(low);
    assert(final(out)@ =~= old(out)@ + be16(x));
}

/// Appends the big-endian bytes of `x`.
pub fn push_u32(out: &mut Vec<u8>, x: u32)
    ensures
        final(out)@ == old(out)@ + be32(x),
{
    #[verifier::truncate]
    let b0 = (x >> 24) as u8;
    #[verifier::truncate]
    let b1 = (x >> 16) as u8;
    #[verifier::truncate]
    let b2 = (x >> 8) as u8;
    #[verifier::truncate]
    let b3 = x as u8;
    out.push(b0);
    out.push(b1);
    out.push(b2);
    out.push(b3);
    assert(final(out)@ =~= old(out)@ + be32(x));
}

/// Reads a big-endian `u16` at `at`.
pub fn read_u16(b: &[u8], at: usize) -> (r: u16)
    requires
        at + 2 <= b@.len(),
    ensures
        r == be16_value(b@[at as int], b@[at + 1]),
{
    ((b[at] as u16) << 8) | (b[at + 1] as u16)
}

/// Reads a big-endian `u32` at `at`.
pub fn read_u32(b: &[u8], at: usize) -> (r: u32)
    requires
        at + 4 <= b@.len(),
    ensures
        r == be32_value(b@, at as int),
{
    ((b[at] as u32) << 24) | ((b[at + 1] as u32) << 16) | ((b[at + 2] as u32) << 8) | (b[at
        + 3] as u32)
}

/// The bytes of `b` before its first NUL, or all of them.
pub open spec fn c_str(b: Seq<u8>) -> Seq<u8>
    decreases b.len(),
{
    if b.len() == 0 {
        b
    } else if b[0] == 0 {
        Seq::empty()
    } else {
        seq![b[0]] + c_str(b.drop_first())
    }
}

/// The field of `n` bytes that holds `s`: cut to `n` bytes, or padded with
/// NULs to `n`.
pub open spec fn fixed_str(s: Seq<u8>, n: nat) -> Seq<u8> {
    if s.len() >= n {
        s.take(n as int)
    } else {
        s + Seq::new((n - s.len()) as nat, |i: int| 0u8)
    }
}

/// `s` fits a field of `n` bytes and comes back whole: it is no longer than
/// the field and holds no NUL.
pub open spec fn str_fits(s: Seq<u8>, n: nat) -> bool {
    s.len() <= n && forall|i: int| 0 <= i < s.len() ==> s[i] != 0
}

proof fn lemma_c_str_prefix(x: Seq<u8>, k: int)
    requires
        0 <= k <= x.len(),
        forall|j: int| 0 <= j < k ==> x[j] != 0,
        k == x.len() || x[k] == 0,
    ensures
        c_str(x) == x.take(k),
    decreases k,
{
    if k == 0 {
        assert(x.take(0) =~= Seq::<u8>::empty());
        if x.len() == 0 {
            assert(x =~= Seq::<u8>::empty());
        }
    } else {
        lemma_c_str_prefix(x.drop_first(), k - 1);
        assert(seq![x[0]] + x.drop_first().take(k - 1) =~= x.take(k));
    }
}

/// A string that fits its field reads back unchanged.
pub proof fn lemma_fixed_str_round_trip(s: Seq<u8>, n: nat)
    requires
        str_fits(s, n),
    ensures
        fixed_str(s, n).len() == n,
        c_str(fixed_str(s, n)) == s,
{
    let f = fixed_str(s, n);
    lemma_c_str_prefix(f, s.len() as int);
    assert(f.take(s.len() as int) =~= s);
}

/// `n` zero bytes: padding and fields that carry nothing.
pub open spec fn zeros(n: nat) -> Seq<u8> {
    Seq::new(n, |i: int| 0u8)
}

/// Appends `n` zero bytes.
pub fn push_zeros(out: &mut Vec<u8>, n: usize)
    ensures
        final(out)@ == old(out)@ + zeros(n as nat),
{
    let ghost start = out@;
    for i in 0..n
        invariant
            out@ == start + zeros(i as nat),
    {
        out.push(0u8);
        assert(out@ =~= start + zeros((i + 1) as nat));
    }
}

/// A part of `e`, where `e` lies in `b` at `at`, lies in `b` at `at` plus
/// its offset in `e`.
pub proof fn lemma_subrange_in(b: Seq<u8>, at: int, e: Seq<u8>, lo: int, hi: int)
    requires
        0 <= at,
        at + e.len() <= b.len(),
        b.subrange(at, at + e.len()) == e,
        0 <= lo <= hi <= e.len(),
    ensures
        b.subrange(at + lo, at + hi) == e.subrange(lo, hi),
{
    assert forall|j: int| 0 <= j < hi - lo implies b.subrange(at + lo, at + hi)[j] == e.subrange(
        lo,
        hi,
    )[j] by {
        assert(b.subrange(at, at + e.len())[lo + j] == b[at + lo + j]);
    }
    assert(b.subrange(at + lo, at + hi) =~= e.subrange(lo, hi));
}

/// The encodings `f` of the items of `s`, one after the other.
pub open spec fn concat_entries<A>(s: Seq<A>, f: spec_fn(A) -> Seq<u8>) -> Seq<u8>
    decreases s.len(),
{
    if s.len() == 0 {
        Seq::empty()
    } else {
        concat_entries(s.drop_last(), f) + f(s.last())
    }
}

/// Where every item encodes to `w` bytes, item `i` lies at `w * i`.
pub proof fn lemma_concat_entries<A>(s: Seq<A>, f: spec_fn(A) -> Seq<u8>, w: nat)
    requires
        forall|x: A| #[trigger] f(x).len() == w,
    ensures
        concat_entries(s, f).len() == w * s.len(),
        forall|i: int|
            0 <= i < s.len() ==> #[trigger] concat_entries(s, f).subrange(w * i, w * i + w) == f(
                s[i],
            ),
    decreases s.len(),
{
    if s.len() > 0 {
        let init = s.drop_last();
        let n = s.len() as int;
        lemma_concat_entries(init, f, w);
        assert(w * (n - 1) + w == w * n) by (nonlinear_arith);
        assert forall|i: int| 0 <= i < s.len() implies #[trigger] concat_entries(s, f).subrange(
            w * i,
            w * i + w,
        ) == f(s[i]) by {
            let c = concat_entries(s, f);
            if i < n - 1 {
                assert(w * i + w <= w * (n - 1)) by (nonlinear_arith)
                    requires
                        i < n - 1,
                ;
                assert(0 <= w * i) by (nonlinear_arith)
                    requires
                        0 <= i,
                ;
                assert(c.subrange(w * i, w * i + w) =~= concat_entries(init, f).subrange(
                    w * i,
                    w * i + w,
                ));
                assert(init[i] == s[i]);
            } else {
                assert(c.subrange(w * i, w * i + w) =~= f(s.last()));
            }
        }
    }
}

/// Whether `s` fits a field of `n` bytes and comes back whole.
pub fn fits_field(s: &Vec<u8>, n: usize) -> (r: bool)
    ensures
        r == str_fits(s@, n as nat),
{
    if s.len() > n {
        return false;
    }
    let mut i: usize = 0;
    while i < s.len()
        invariant
            i <= s@.len(),
            forall|j: int| 0 <= j < i ==> s@[j] != 0,
        decreases s@.len() - i,
    {
        if s[i] == 0 {
            return false;
        }
        i = i + 1;
    }
    true
}

/// Appends the field of `n` bytes that holds `s`.
pub fn push_fixed_str(out: &mut Vec<u8>, s: &Vec<u8>, n: usize)
    ensures
        final(out)@ == old(out)@ + fixed_str(s@, n as nat),
{
    let ghost start = out@;
    let mut i: usize = 0;
    while i < n
        invariant
            i <= n,
            out@ == start + fixed_str(s@, n as nat).take(i as int),
        decreases n - i,
    {
        let c = if i < s.len() {
            s[i]
        } else {
            0u8
        };
        out.push(c);
        i = i + 1;
        assert(out@ =~= start + fixed_str(s@, n as nat).take(i as int));
    }
    assert(fixed_str(s@, n as nat).take(n as int) =~= fixed_str(s@, n as nat));
}

/// Reads the string held in the field of `n` bytes at `at`.
pub fn read_fixed_str(b: &[u8], at: usize, n: usize) -> (r: Vec<u8>)
    requires
        at + n <= b@.len(),
    ensures
        r@ == c_str(b@.subrange(at as int, at + n)),
{
    let ghost field = b@.subrange(at as int, at + n);
    // The length of `b`, a usize, bounds the offsets below.
    let _len = b.len();
    let end = at + n;
    let mut r: Vec<u8> = Vec::new();
    let mut i: usize = 0;
    while i < n && b[at + i] != 0
        invariant
            at + n <= b@.len(),
            end == at + n,
            field == b@.subrange(at as int, at + n),
            i <= n,
            r@ == field.take(i as int),
            forall|j: int| 0 <= j < i ==> field[j] != 0,
        decreases n - i,
    {
        r.push(b[at + i]);
        i = i + 1;
        assert(r@ =~= field.take(i as int));
    }
    proof {
        lemma_c_str_prefix(field, i as int);
    }
    r
}

} // verus!
