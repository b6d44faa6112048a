//! Twofish: key schedule and single-block encryption.
use vstd::prelude::*;

verus! {

/// Reduction polynomial of the MDS matrix: x^8 + x^6 + x^5 + x^3 + 1.
pub const MDS_POLY: u8 = 0x69;

/// Reduction polynomial of the Reed-Solomon code: x^8 + x^6 + x^3 + x^2 + 1.
pub const RS_POLY: u8 = 0x4d;

/// Multiplication by x in GF(2^8) with reduction polynomial `p`.
pub open spec fn xtime(b: u8, p: u8) -> u8 {
    if b & 0x80 == 0x80 {
        (b << 1) ^ p
    } else {
        b << 1
    }
}

/// Shift-and-add product of `a` and `b` in GF(2^8), taking the bits of `a`
/// from the lowest up.
pub open spec fn gf_mult_spec(a: u8, b: u8, p: u8) -> u8
    decreases a,
{
    if a == 0 {
        0
    } else {
        let rest = if (a >> 1) < a { gf_mult_spec(a >> 1, xtime(b, p), p) } else { 0 };
        if a & 1 == 1 {
            rest ^ b
        } else {
            rest
        }
    }
}

fn gf_mult(a: u8, b: u8, p: u8) -> (r: u8)
    ensures
        r == gf_mult_spec(a, b, p),
{
    let mut a = a;
    let mut b = b;
    let mut result: u8 = 0;
    let ghost total = gf_mult_spec(a, b, p);
    assert(0u8 ^ total == total) by (bit_vector);
    while a > 0
        invariant
            result ^ gf_mult_spec(a, b, p) == total,
        decreases a,
    {
        let ghost (a0, b0, r0) = (a, b, result);
        assert((a >> 1) < a) by (bit_vector)
            requires
                a > 0,
        ;
        let ghost rest = gf_mult_spec(a >> 1, xtime(b, p), p);
        if a & 1 == 1 {
            result ^= b;
            assert((r0 ^ b0) ^ rest == r0 ^ (rest ^ b0)) by (bit_vector);
        }
        a >>= 1;
        if b & 0x80 == 0x80 {
            b = (b << 1) ^ p;
        } else {
            b <<= 1;
        }
        assert(b == xtime(b0, p));
    }
    assert(result ^ 0 == result) by (bit_vector);
    result
}


/// The eight 4-bit permutations of the q-boxes: table `4 * i + j` is
/// permutation `t_j` of box `q_i`.
pub open spec fn qbox_table(t: int) -> Seq<u8> {
    if t == 0 {
        seq![0x8, 0x1, 0x7, 0xD, 0x6, 0xF, 0x3, 0x2, 0x0, 0xB, 0x5, 0x9, 0xE, 0xC, 0xA, 0x4]
    } else if t == 1 {
        seq![0xE, 0xC, 0xB, 0x8, 0x1, 0x2, 0x3, 0x5, 0xF, 0x4, 0xA, 0x6, 0x7, 0x0, 0x9, 0xD]
    } else if t == 2 {
        seq![0xB, 0xA, 0x5, 0xE, 0x6, 0xD, 0x9, 0x0, 0xC, 0x8, 0xF, 0x3, 0x2, 0x4, 0x7, 0x1]
    } else if t == 3 {
        seq![0xD, 0x7, 0xF, 0x4, 0x1, 0x2, 0x6, 0xE, 0x9, 0xB, 0x3, 0x0, 0x8, 0x5, 0xC, 0xA]
    } else if t == 4 {
        seq![0x2, 0x8, 0xB, 0xD, 0xF, 0x7, 0x6, 0xE, 0x3, 0x1, 0x9, 0x4, 0x0, 0xA, 0xC, 0x5]
    } else if t == 5 {
        seq![0x1, 0xE, 0x2, 0xB, 0x4, 0xC, 0x3, 0x7, 0x6, 0xD, 0xA, 0x5, 0xF, 0x9, 0x0, 0x8]
    } else if t == 6 {
        seq![0x4, 0xC, 0x7, 0x5, 0x1, 0x6, 0x9, 0xA, 0x0, 0xE, 0xD, 0x8, 0x2, 0xB, 0x3, 0xF]
    } else {
        seq![0xB, 0x9, 0x5, 0x1, 0xC, 0x3, 0xD, 0xE, 0x6, 0x4, 0x7, 0xF, 0x2, 0x0, 0x8, 0xA]
    }
}

/// Entry `x` of permutation `j` of q-box `i`.
pub open spec fn qbox(i: int, j: int, x: u8) -> u8 {
    qbox_table(4 * i + j)[x as int]
}

fn qbox_lookup(i: usize, j: usize, x: u8) -> (r: u8)
    requires
        i < 2,
        j < 4,
        x < 16,
    ensures
        r == qbox(i as int, j as int, x),
        r < 16,
{
    let t: [u8; 16] = if i == 0 && j == 0 {
        [0x8, 0x1, 0x7, 0xD, 0x6, 0xF, 0x3, 0x2, 0x0, 0xB, 0x5, 0x9, 0xE, 0xC, 0xA, 0x4]
    } else if i == 0 && j == 1 {
        [0xE, 0xC, 0xB, 0x8, 0x1, 0x2, 0x3, 0x5, 0xF, 0x4, 0xA, 0x6, 0x7, 0x0, 0x9, 0xD]
    } else if i == 0 && j == 2 {
        [0xB, 0xA, 0x5, 0xE, 0x6, 0xD, 0x9, 0x0, 0xC, 0x8, 0xF, 0x3, 0x2, 0x4, 0x7, 0x1]
    } else if i == 0 {
        [0xD, 0x7, 0xF, 0x4, 0x1, 0x2, 0x6, 0xE, 0x9, 0xB, 0x3, 0x0, 0x8, 0x5, 0xC, 0xA]
    } else if j == 0 {
        [0x2, 0x8, 0xB, 0xD, 0xF, 0x7, 0x6, 0xE, 0x3, 0x1, 0x9, 0x4, 0x0, 0xA, 0xC, 0x5]
    } else if j == 1 {
        [0x1, 0xE, 0x2, 0xB, 0x4, 0xC, 0x3, 0x7, 0x6, 0xD, 0xA, 0x5, 0xF, 0x9, 0x0, 0x8]
    } else if j == 2 {
        [0x4, 0xC, 0x7, 0x5, 0x1, 0x6, 0x9, 0xA, 0x0, 0xE, 0xD, 0x8, 0x2, 0xB, 0x3, 0xF]
    } else {
        [0xB, 0x9, 0x5, 0x1, 0xC, 0x3, 0xD, 0xE, 0x6, 0x4, 0x7, 0xF, 0x2, 0x0, 0x8, 0xA]
    };
    assert(t@ == qbox_table(4 * i + j));
    t[x as usize]
}

/// The mixing of the two nibbles `a` and `b` between the substitutions of
/// a q-box.
pub open spec fn q_mix(a: u8, b: u8) -> (u8, u8) {
    (a ^ b, (a ^ ((b << 3) | (b >> 1)) ^ (a << 3)) & 15)
}

/// The fixed permutation `q_i` of Twofish on bytes.
#[verifier::opaque]
pub open spec fn sbox_spec(i: int, x: u8) -> u8 {
    let (a1, b1) = q_mix(x >> 4 & 15, x & 15);
    let (a2, b2) = (qbox(i, 0, a1), qbox(i, 1, b1));
    let (a3, b3) = q_mix(a2, b2);
    let (a4, b4) = (qbox(i, 2, a3), qbox(i, 3, b3));
    ((b4 << 4) + a4) as u8
}

fn sbox(i: usize, x: u8) -> (r: u8)
    requires
        i < 2,
    ensures
        r == sbox_spec(i as int, x),
{
    reveal(sbox_spec);
    let (a0, b0) = (x >> 4 & 15, x & 15);
    let a1 = a0 ^ b0;
    let b1 = (a0 ^ ((b0 << 3) | (b0 >> 1)) ^ (a0 << 3)) & 15;
    assert(a1 < 16 && b1 < 16) by (bit_vector)
        requires
            a0 == x >> 4 & 15,
            b0 == x & 15,
            a1 == a0 ^ b0,
            b1 == (a0 ^ ((b0 << 3) | (b0 >> 1)) ^ (a0 << 3)) & 15,
    ;
    let (a2, b2) = (qbox_lookup(i, 0, a1), qbox_lookup(i, 1, b1));
    let a3 = a2 ^ b2;
    let b3 = (a2 ^ ((b2 << 3) | (b2 >> 1)) ^ (a2 << 3)) & 15;
    assert(a3 < 16 && b3 < 16) by (bit_vector)
        requires
            a2 < 16,
            b2 < 16,
            a3 == a2 ^ b2,
            b3 == (a2 ^ ((b2 << 3) | (b2 >> 1)) ^ (a2 << 3)) & 15,
    ;
    let (a4, b4) = (qbox_lookup(i, 2, a3), qbox_lookup(i, 3, b3));
    assert((b4 << 4) + a4 < 256) by (bit_vector)
        requires
            a4 < 16,
            b4 < 16,
    ;
    (b4 << 4) + a4
}


/// Which q-box (0 or 1) byte `i` of a word passes through at stage `z`.
pub open spec fn qord(i: int, z: int) -> int {
    let row = if i == 0 {
        seq![1int, 1, 0, 0, 1]
    } else if i == 1 {
        seq![0int, 1, 1, 0, 0]
    } else if i == 2 {
        seq![0int, 0, 0, 1, 1]
    } else {
        seq![1int, 0, 1, 1, 0]
    };
    row[z]
}

fn qord_lookup(i: usize, z: usize) -> (r: usize)
    requires
        i < 4,
        z < 5,
    ensures
        r as int == qord(i as int, z as int),
        r < 2,
{
    let row: [usize; 5] = if i == 0 {
        [1, 1, 0, 0, 1]
    } else if i == 1 {
        [0, 1, 1, 0, 0]
    } else if i == 2 {
        [0, 0, 0, 1, 1]
    } else {
        [1, 0, 1, 1, 0]
    };
    row[z]
}

/// The Reed-Solomon matrix that folds eight key bytes into four.
pub open spec fn rs_entry(i: int, j: int) -> u8 {
    let row = if i == 0 {
        seq![0x01u8, 0xa4, 0x55, 0x87, 0x5a, 0x58, 0xdb, 0x9e]
    } else if i == 1 {
        seq![0xa4u8, 0x56, 0x82, 0xf3, 0x1e, 0xc6, 0x68, 0xe5]
    } else if i == 2 {
        seq![0x02u8, 0xa1, 0xfc, 0xc1, 0x47, 0xae, 0x3d, 0x19]
    } else {
        seq![0xa4u8, 0x55, 0x87, 0x5a, 0x58, 0xdb, 0x9e, 0x03]
    };
    row[j]
}

fn rs_lookup(i: usize, j: usize) -> (r: u8)
    requires
        i < 4,
        j < 8,
    ensures
        r == rs_entry(i as int, j as int),
{
    let row: [u8; 8] = if i == 0 {
        [0x01, 0xa4, 0x55, 0x87, 0x5a, 0x58, 0xdb, 0x9e]
    } else if i == 1 {
        [0xa4, 0x56, 0x82, 0xf3, 0x1e, 0xc6, 0x68, 0xe5]
    } else if i == 2 {
        [0x02, 0xa1, 0xfc, 0xc1, 0x47, 0xae, 0x3d, 0x19]
    } else {
        [0xa4, 0x55, 0x87, 0x5a, 0x58, 0xdb, 0x9e, 0x03]
    };
    row[j]
}

/// The little-endian word made of four bytes.
pub open spec fn le_word(b0: u8, b1: u8, b2: u8, b3: u8) -> u32 {
    (b0 as u32) | ((b1 as u32) << 8) | ((b2 as u32) << 16) | ((b3 as u32) << 24)
}

/// Byte `i` (0 = least significant) of a word.
pub open spec fn word_byte(w: u32, i: int) -> u8 {
    #[verifier::truncate]
    ((w >> (8 * i) as u32) as u8)
}

/// Column `c` of the MDS matrix times the byte `x`, as a little-endian word.
pub open spec fn mds_column(x: u8, c: int) -> u32 {
    let x5b = gf_mult_spec(x, 0x5b, MDS_POLY);
    let xef = gf_mult_spec(x, 0xef, MDS_POLY);
    if c == 0 {
        le_word(x, x5b, xef, xef)
    } else if c == 1 {
        le_word(xef, xef, x5b, x)
    } else if c == 2 {
        le_word(x5b, xef, x, xef)
    } else {
        le_word(x5b, x, xef, x5b)
    }
}

fn mds_column_mult(x: u8, column: usize) -> (r: u32)
    requires
        column < 4,
    ensures
        r == mds_column(x, column as int),
{
    let x5b = gf_mult(x, 0x5b, MDS_POLY);
    let xef = gf_mult(x, 0xef, MDS_POLY);
    let v: [u8; 4] = if column == 0 {
        [x, x5b, xef, xef]
    } else if column == 1 {
        [xef, xef, x5b, x]
    } else if column == 2 {
        [x5b, xef, x, xef]
    } else {
        [x5b, x, xef, x5b]
    };
    (v[0] as u32) | ((v[1] as u32) << 8) | ((v[2] as u32) << 16) | ((v[3] as u32) << 24)
}

/// The MDS product of the first `n` bytes of `y`.
pub open spec fn mds_partial(y: Seq<u8>, n: int) -> u32
    decreases n,
{
    if n <= 0 {
        0
    } else {
        mds_partial(y, n - 1) ^ mds_column(y[n - 1], n - 1)
    }
}

/// The MDS matrix times the column vector `y` over GF(2^8).
pub open spec fn mds_spec(y: Seq<u8>) -> u32 {
    mds_partial(y, 4)
}

fn mds_mult(y: [u8; 4]) -> (r: u32)
    ensures
        r == mds_spec(y@),
{
    let mut z: u32 = 0;
    for i in 0..4
        invariant
            z == mds_partial(y@, i as int),
    {
        z ^= mds_column_mult(y[i], i);
    }
    z
}

/// The Reed-Solomon product of row `i` with the first `n` bytes of `m`.
pub open spec fn rs_partial(m: Seq<u8>, i: int, n: int) -> u8
    decreases n,
{
    if n <= 0 {
        0
    } else {
        rs_partial(m, i, n - 1) ^ gf_mult_spec(m[n - 1], rs_entry(i, n - 1), RS_POLY)
    }
}

/// Byte `i` of the Reed-Solomon image of the eight bytes `m`.
pub open spec fn rs_spec(m: Seq<u8>, i: int) -> u8 {
    rs_partial(m, i, 8)
}

/// The Reed-Solomon image of key bytes `8 * chunk .. 8 * chunk + 8`.
fn rs_mult(key: &[u8], chunk: usize) -> (r: [u8; 4])
    requires
        8 * chunk + 8 <= key@.len(),
    ensures
        forall|i: int|
            0 <= i < 4 ==> r@[i] == rs_spec(
                #[trigger] key@.subrange(8 * chunk as int, 8 * chunk as int + 8),
                i,
            ),
{
    let ghost m = key@.subrange(8 * chunk as int, 8 * chunk as int + 8);
    // The key's length, a usize, bounds the offsets below.
    let _len = key.len();
    let base = 8 * chunk;
    let mut out: [u8; 4] = [0u8; 4];
    for i in 0..4
        invariant
            8 * chunk + 8 <= key@.len(),
            m == key@.subrange(8 * chunk as int, 8 * chunk as int + 8),
            base == 8 * chunk,
            forall|i2: int| 0 <= i2 < i ==> out@[i2] == rs_spec(m, i2),
    {
        let mut acc: u8 = 0;
        for j in 0..8
            invariant
                8 * chunk + 8 <= key@.len(),
                m == key@.subrange(8 * chunk as int, 8 * chunk as int + 8),
                i < 4,
                base == 8 * chunk,
                acc == rs_partial(m, i as int, j as int),
        {
            acc ^= gf_mult(key[base + j], rs_lookup(i, j), RS_POLY);
        }
        out[i] = acc;
    }
    out
}


/// Rotation of a word left by `n` bits.
pub open spec fn rotl(x: u32, n: u32) -> u32 {
    (x << n) | (x >> (32 - n) as u32)
}

/// Rotation of a word right by `n` bits.
pub open spec fn rotr(x: u32, n: u32) -> u32 {
    (x >> n) | (x << (32 - n) as u32)
}

/// Addition of words modulo 2^32.
pub open spec fn add32(a: u32, b: u32) -> u32 {
    if a + b > u32::MAX {
        (a + b - 0x1_0000_0000) as u32
    } else {
        (a + b) as u32
    }
}

fn rotate_left(x: u32, n: u32) -> (r: u32)
    requires
        0 < n < 32,
    ensures
        r == rotl(x, n),
{
    (x << n) | (x >> (32 - n))
}

fn rotate_right(x: u32, n: u32) -> (r: u32)
    requires
        0 < n < 32,
    ensures
        r == rotr(x, n),
{
    (x >> n) | (x << (32 - n))
}

fn add_words(a: u32, b: u32) -> (r: u32)
    ensures
        r == add32(a, b),
{
    a.wrapping_add(b)
}

/// The four bytes of a word, least significant first.
fn word_bytes(x: u32) -> (r: [u8; 4])
    ensures
        r@ == seq![word_byte(x, 0), word_byte(x, 1), word_byte(x, 2), word_byte(x, 3)],
{
    #[verifier::truncate]
    let b0 = x as u8;
    #[verifier::truncate]
    let b1 = (x >> 8) as u8;
    #[verifier::truncate]
    let b2 = (x >> 16) as u8;
    #[verifier::truncate]
    let b3 = (x >> 24) as u8;
    assert(b0 == word_byte(x, 0) && b1 == word_byte(x, 1) && b2 == word_byte(x, 2) && b3
        == word_byte(x, 3)) by (bit_vector)
        requires
            b0 == #[verifier::truncate] (x as u8),
            b1 == #[verifier::truncate] ((x >> 8) as u8),
            b2 == #[verifier::truncate] ((x >> 16) as u8),
            b3 == #[verifier::truncate] ((x >> 24) as u8),
    ;
    let r: [u8; 4] = [b0, b1, b2, b3];
    assert(r@ =~= seq![word_byte(x, 0), word_byte(x, 1), word_byte(x, 2), word_byte(x, 3)]);
    r
}

/// Byte `i` of the result of the function h, before the MDS product: the
/// byte `y` passes through q-boxes and is mixed with bytes of the key words
/// `6 + offset`, `4 + offset` (only for longer keys), `2 + offset` and `offset`.
pub open spec fn h_byte(i: int, y: u8, m: Seq<u8>, k: int, offset: int) -> u8 {
    let y4 = if k == 4 {
        sbox_spec(qord(i, 0), y) ^ m[4 * (6 + offset) + i]
    } else {
        y
    };
    let y3 = if k >= 3 {
        sbox_spec(qord(i, 1), y4) ^ m[4 * (4 + offset) + i]
    } else {
        y4
    };
    sbox_spec(
        qord(i, 4),
        sbox_spec(qord(i, 3), sbox_spec(qord(i, 2), y3) ^ m[4 * (2 + offset) + i])
            ^ m[4 * offset + i],
    )
}

/// The function h of Twofish on the word `x` with the key list `m` of `k`
/// 64-bit words, taking the key words of parity `offset`.
pub open spec fn h_spec(x: u32, m: Seq<u8>, k: int, offset: int) -> u32 {
    mds_spec(
        seq![
            h_byte(0, word_byte(x, 0), m, k, offset),
            h_byte(1, word_byte(x, 1), m, k, offset),
            h_byte(2, word_byte(x, 2), m, k, offset),
            h_byte(3, word_byte(x, 3), m, k, offset),
        ],
    )
}

fn h(x: u32, m: &[u8], k: usize, offset: usize) -> (r: u32)
    requires
        2 <= k <= 4,
        offset < 2,
        m@.len() >= 8 * k,
    ensures
        r == h_spec(x, m@, k as int, offset as int),
{
    let mut y: [u8; 4] = word_bytes(x);

    if k == 4 {
        y[0] = sbox(1, y[0]) ^ m[4 * (6 + offset)];
        y[1] = sbox(0, y[1]) ^ m[4 * (6 + offset) + 1];
        y[2] = sbox(0, y[2]) ^ m[4 * (6 + offset) + 2];
        y[3] = sbox(1, y[3]) ^ m[4 * (6 + offset) + 3];
    }
    if k >= 3 {
        y[0] = sbox(1, y[0]) ^ m[4 * (4 + offset)];
        y[1] = sbox(1, y[1]) ^ m[4 * (4 + offset) + 1];
        y[2] = sbox(0, y[2]) ^ m[4 * (4 + offset) + 2];
        y[3] = sbox(0, y[3]) ^ m[4 * (4 + offset) + 3];
    }
    let a = 4 * (2 + offset);
    let b = 4 * offset;
    y[0] = sbox(1, sbox(0, sbox(0, y[0]) ^ m[a]) ^ m[b]);
    y[1] = sbox(0, sbox(0, sbox(1, y[1]) ^ m[a + 1]) ^ m[b + 1]);
    y[2] = sbox(1, sbox(1, sbox(0, y[2]) ^ m[a + 2]) ^ m[b + 2]);
    y[3] = sbox(0, sbox(1, sbox(1, y[3]) ^ m[a + 3]) ^ m[b + 3]);

    let r = mds_mult(y);
    proof {
        let hs = seq![
            h_byte(0, word_byte(x, 0), m@, k as int, offset as int),
            h_byte(1, word_byte(x, 1), m@, k as int, offset as int),
            h_byte(2, word_byte(x, 2), m@, k as int, offset as int),
            h_byte(3, word_byte(x, 3), m@, k as int, offset as int),
        ];
        assert(y@[0] == hs[0]);
        assert(y@[1] == hs[1]);
        assert(y@[2] == hs[2]);
        assert(y@[3] == hs[3]);
        assert(y@ =~= hs);
    }
    r
}


/// The key-dependent state of a Twofish instance: the S-box key bytes, the
/// forty round subkeys, and the first of the five q-box stages that keys of
/// this length use (0, 1 or 2 for keys of 4, 3 or 2 64-bit words).
pub struct KeyMaterial {
    pub s: Seq<u8>,
    pub k: Seq<u32>,
    pub start: int,
}

/// Twofish block cipher.
#[derive(Clone, Copy)]
pub struct Twofish {
    s: [u8; 16],
    k: [u32; 40],
    start: usize,
}

/// Stage `z` onwards of the q-box chain of byte `y` in the function g.
pub open spec fn g_stage(m: KeyMaterial, y: int, z: int, g: u8) -> u8
    decreases 5 - z,
{
    if z >= 5 {
        g
    } else {
        g_stage(m, y, z + 1, sbox_spec(qord(y, z), g ^ m.s[4 * (z - m.start - 1) + y]))
    }
}

/// Byte `y` of the function g on `x`, before the MDS product.
pub open spec fn g_byte(m: KeyMaterial, y: int, x: u32) -> u8 {
    g_stage(m, y, m.start + 1, sbox_spec(qord(y, m.start), word_byte(x, y)))
}

/// The MDS product of the first `n` bytes of g on `x`.
pub open spec fn g_partial(m: KeyMaterial, x: u32, n: int) -> u32
    decreases n,
{
    if n <= 0 {
        0
    } else {
        g_partial(m, x, n - 1) ^ mds_column(g_byte(m, n - 1, x), n - 1)
    }
}

/// The key-dependent function g of Twofish.
pub open spec fn g_spec(m: KeyMaterial, x: u32) -> u32 {
    g_partial(m, x, 4)
}

/// The constant that spreads a round index over the four bytes of a word.
pub const RHO: u32 = 0x1010101;

/// The pair of subkeys `2 * x` and `2 * x + 1` made from `key`.
pub open spec fn subkey_pair(key: Seq<u8>, x: int) -> (u32, u32) {
    let k = key.len() / 8;
    let a = h_spec((RHO * (2 * x)) as u32, key, k as int, 0);
    let b = rotl(h_spec((RHO * (2 * x + 1)) as u32, key, k as int, 1), 8);
    let v = add32(a, b);
    (v, rotl(add32(v, b), 9))
}

/// Subkey `i` (of forty) made from `key`.
pub open spec fn subkey(key: Seq<u8>, i: int) -> u32 {
    if i % 2 == 0 {
        subkey_pair(key, i / 2).0
    } else {
        subkey_pair(key, i / 2).1
    }
}

/// Byte `j` of the S-box key: byte `j % 4` of the Reed-Solomon image of the
/// 64-bit key word `j / 4`.
pub open spec fn sbox_key_byte(key: Seq<u8>, j: int) -> u8 {
    rs_spec(key.subrange(8 * (j / 4), 8 * (j / 4) + 8), j % 4)
}

/// The state after the key schedule of `key` ran on the state `m`. Bytes of
/// the S-box key that a shorter key does not reach keep their value; g
/// never reads them.
pub open spec fn scheduled(m: KeyMaterial, key: Seq<u8>) -> KeyMaterial {
    let k = key.len() / 8;
    KeyMaterial {
        s: Seq::new(16, |j: int| if j < 4 * k { sbox_key_byte(key, j) } else { m.s[j] }),
        k: Seq::new(40, |i: int| subkey(key, i)),
        start: 4 - k,
    }
}

/// Half a round: the words `a` and `b` go through g and the
/// pseudo-Hadamard transform, are keyed with subkeys `kk` and `kk + 1`,
/// and are mixed into `c` and `d`, which come back.
pub open spec fn half_round(m: KeyMaterial, a: u32, b: u32, c: u32, d: u32, kk: int) -> (u32, u32) {
    let t1 = g_spec(m, rotl(b, 8));
    let t0 = add32(g_spec(m, a), t1);
    let c2 = rotr(c ^ add32(t0, m.k[kk]), 1);
    let t2 = add32(add32(t1, t0), m.k[kk + 1]);
    (c2, rotl(d, 1) ^ t2)
}

/// Round `r` (two Feistel rounds without the swap between them).
pub open spec fn round_spec(m: KeyMaterial, p: (u32, u32, u32, u32), r: int) -> (
    u32,
    u32,
    u32,
    u32,
) {
    let (c, d) = half_round(m, p.0, p.1, p.2, p.3, 4 * r + 8);
    let (a, b) = half_round(m, c, d, p.0, p.1, 4 * r + 10);
    (a, b, c, d)
}

/// The first `n` rounds applied to `p`.
pub open spec fn rounds(m: KeyMaterial, p: (u32, u32, u32, u32), n: int) -> (u32, u32, u32, u32)
    decreases n,
{
    if n <= 0 {
        p
    } else {
        round_spec(m, rounds(m, p, n - 1), n - 1)
    }
}

/// Little-endian word `i` of a block.
pub open spec fn block_word(b: Seq<u8>, i: int) -> u32 {
    le_word(b[4 * i], b[4 * i + 1], b[4 * i + 2], b[4 * i + 3])
}

/// The four output words of a block: input whitening, eight rounds, and
/// output whitening with the last swap undone.
pub open spec fn encrypt_words(m: KeyMaterial, b: Seq<u8>) -> (u32, u32, u32, u32) {
    let p = (
        block_word(b, 0) ^ m.k[0],
        block_word(b, 1) ^ m.k[1],
        block_word(b, 2) ^ m.k[2],
        block_word(b, 3) ^ m.k[3],
    );
    let q = rounds(m, p, 8);
    (q.2 ^ m.k[4], q.3 ^ m.k[5], q.0 ^ m.k[6], q.1 ^ m.k[7])
}

/// The block made of four words, each little-endian.
pub open spec fn words_to_block(w: (u32, u32, u32, u32)) -> Seq<u8> {
    Seq::new(
        16,
        |i: int|
            {
                let q = i / 4;
                let word = if q == 0 {
                    w.0
                } else if q == 1 {
                    w.1
                } else if q == 2 {
                    w.2
                } else {
                    w.3
                };
                word_byte(word, i % 4)
            },
    )
}

/// Twofish encryption of the 16-byte block `b` under the key material `m`.
pub open spec fn encrypt_spec(m: KeyMaterial, b: Seq<u8>) -> Seq<u8> {
    words_to_block(encrypt_words(m, b))
}

/// A key of 16, 24 or 32 bytes.
pub open spec fn valid_key_length(n: nat) -> bool {
    n == 16 || n == 24 || n == 32
}

impl View for Twofish {
    type V = KeyMaterial;

    closed spec fn view(&self) -> KeyMaterial {
        KeyMaterial { s: self.s@, k: self.k@, start: self.start as int }
    }
}

impl Twofish {
    #[verifier::type_invariant]
    spec fn stage_in_range(&self) -> bool {
        self.start <= 2
    }

    /// The all-zero state, as for a 256-bit key before its schedule ran.
    pub fn new() -> (r: Twofish)
        ensures
            r@ == (KeyMaterial {
                s: Seq::new(16, |j: int| 0u8),
                k: Seq::new(40, |i: int| 0u32),
                start: 0,
            }),
    {
        let r = Self { s: [0u8; 16], k: [0u32; 40], start: 0 };
        assert(r.s@ =~= Seq::new(16, |j: int| 0u8));
        assert(r.k@ =~= Seq::new(40, |i: int| 0u32));
        r
    }

    /// Derives the subkeys and the S-box key from `key`.
    pub fn key_schedule(&mut self, key: &[u8])
        requires
            valid_key_length(key@.len()),
        ensures
            final(self)@ == scheduled(old(self)@, key@),
    {
        proof {
            use_type_invariant(&*self);
        }
        let k = key.len() / 8;
        let rho: u32 = RHO;
        let mut subkeys: [u32; 40] = self.k;
        for x in 0..20u32
            invariant
                k == key@.len() / 8,
                valid_key_length(key@.len()),
                rho == RHO,
                forall|i: int| 0 <= i < 2 * x ==> subkeys@[i] == subkey(key@, i),
        {
            assert(rho * (2 * x + 1) <= 39 * RHO) by (nonlinear_arith)
                requires
                    rho == RHO,
                    x < 20,
            ;
            let a = h(rho * (2 * x), key, k, 0);
            let b = rotate_left(h(rho * (2 * x + 1), key, k, 1), 8);
            let v = add_words(a, b);
            subkeys[(2 * x) as usize] = v;
            subkeys[(2 * x + 1) as usize] = rotate_left(add_words(v, b), 9);
            assert(subkey(key@, 2 * x as int) == v);
        }
        let start: usize = if k == 4 {
            0
        } else if k == 3 {
            1
        } else {
            2
        };
        let ghost s0 = self.s@;
        let mut sk: [u8; 16] = self.s;
        for i in 0..k
            invariant
                k == key@.len() / 8,
                valid_key_length(key@.len()),
                forall|j: int| 0 <= j < 4 * i ==> sk@[j] == sbox_key_byte(key@, j),
                s0.len() == 16,
                forall|j: int| 4 * i <= j < 16 ==> sk@[j] == s0[j],
        {
            let r = rs_mult(key, i);
            let ghost m = key@.subrange(8 * i as int, 8 * i as int + 8);
            assert(r@[0] == rs_spec(m, 0) && r@[1] == rs_spec(m, 1) && r@[2] == rs_spec(m, 2)
                && r@[3] == rs_spec(m, 3));
            sk[4 * i] = r[0];
            sk[4 * i + 1] = r[1];
            sk[4 * i + 2] = r[2];
            sk[4 * i + 3] = r[3];
            assert forall|j: int| 4 * i <= j < 4 * i + 4 implies sk@[j] == sbox_key_byte(
                key@,
                j,
            ) by {
                assert(j / 4 == i);
            }
        }
        self.k = subkeys;
        self.s = sk;
        self.start = start;
        assert(self.k@ =~= Seq::new(40, |i: int| subkey(key@, i)));
        assert(self.s@ =~= Seq::new(
            16,
            |j: int| if j < 4 * k { sbox_key_byte(key@, j) } else { s0[j] },
        ));
    }

    /// Encrypts one 16-byte block in place.
    pub fn encrypt(&mut self, b: &mut [u8; 16])
        ensures
            final(self)@ == old(self)@,
            final(b)@ == encrypt_spec(old(self)@, old(b)@),
    {
        proof {
            use_type_invariant(&*self);
        }
        let ghost m = self@;
        let mut p0 = ((b[0] as u32) | ((b[1] as u32) << 8) | ((b[2] as u32) << 16) | ((b[3] as u32)
            << 24)) ^ self.k[0];
        let mut p1 = ((b[4] as u32) | ((b[5] as u32) << 8) | ((b[6] as u32) << 16) | ((b[7] as u32)
            << 24)) ^ self.k[1];
        let mut p2 = ((b[8] as u32) | ((b[9] as u32) << 8) | ((b[10] as u32) << 16) | ((
        b[11] as u32) << 24)) ^ self.k[2];
        let mut p3 = ((b[12] as u32) | ((b[13] as u32) << 8) | ((b[14] as u32) << 16) | ((
        b[15] as u32) << 24)) ^ self.k[3];
        let ghost p = (p0, p1, p2, p3);

        for r in 0..8
            invariant
                m == self@,
                (p0, p1, p2, p3) == rounds(m, p, r as int),
        {
            let k = 4 * r + 8;

            let t1 = self.g_func(rotate_left(p1, 8));
            let t0 = add_words(self.g_func(p0), t1);
            p2 = rotate_right(p2 ^ add_words(t0, self.k[k]), 1);
            let t2 = add_words(add_words(t1, t0), self.k[k + 1]);
            p3 = rotate_left(p3, 1) ^ t2;

            let t1 = self.g_func(rotate_left(p3, 8));
            let t0 = add_words(self.g_func(p2), t1);
            p0 = rotate_right(p0 ^ add_words(t0, self.k[k + 2]), 1);
            let t2 = add_words(add_words(t1, t0), self.k[k + 3]);
            p1 = rotate_left(p1, 1) ^ t2;
        }

        // Undo the last swap and whiten the output.
        p2 ^= self.k[4];
        p3 ^= self.k[5];
        p0 ^= self.k[6];
        p1 ^= self.k[7];

        let w0 = word_bytes(p2);
        let w1 = word_bytes(p3);
        let w2 = word_bytes(p0);
        let w3 = word_bytes(p1);
        *b = [
            w0[0], w0[1], w0[2], w0[3],
            w1[0], w1[1], w1[2], w1[3],
            w2[0], w2[1], w2[2], w2[3],
            w3[0], w3[1], w3[2], w3[3],
        ];
        assert(b@ =~= encrypt_spec(m, old(b)@));
    }

    fn g_func(&self, x: u32) -> (r: u32)
        ensures
            r == g_spec(self@, x),
    {
        proof {
            use_type_invariant(self);
        }
        let xb = word_bytes(x);
        let mut result: u32 = 0;
        for y in 0..4
            invariant
                self.start <= 2,
                xb@ == seq![word_byte(x, 0), word_byte(x, 1), word_byte(x, 2), word_byte(x, 3)],
                result == g_partial(self@, x, y as int),
        {
            let mut g = sbox(qord_lookup(y, self.start), xb[y]);
            for z in self.start + 1..5
                invariant
                    self.start <= 2,
                    y < 4,
                    self.start + 1 <= z <= 5,
                    g_stage(self@, y as int, z as int, g) == g_byte(self@, y as int, x),
            {
                g ^= self.s[4 * (z - self.start - 1) + y];
                g = sbox(qord_lookup(y, z), g);
            }
            result ^= mds_column_mult(g, y);
        }
        result
    }
}

} // verus!
