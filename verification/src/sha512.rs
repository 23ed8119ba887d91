use vstd::prelude::*;
use crate::md5::{bit_length, byte_of_u64};

verus! {

/// The eight chaining words of the SHA-512 compression function.
#[derive(Clone, Copy, Debug)]
pub struct Sha512State {
    pub a: u64,
    pub b: u64,
    pub c: u64,
    pub d: u64,
    pub e: u64,
    pub f: u64,
    pub g: u64,
    pub h: u64,
}

/// Addition modulo 2^64.
pub open spec fn add64(x: u64, y: u64) -> u64 {
    if x + y > u64::MAX {
        (x + y - 0x1_0000_0000_0000_0000) as u64
    } else {
        (x + y) as u64
    }
}

/// Right rotation of a 64-bit word by `n` bits, `0 < n < 64`.
pub open spec fn rotr64(x: u64, n: u64) -> u64 {
    (x >> n) | (x << ((64 - n) as u64))
}

pub open spec fn big_sigma0(x: u64) -> u64 {
    rotr64(x, 28) ^ rotr64(x, 34) ^ rotr64(x, 39)
}

pub open spec fn big_sigma1(x: u64) -> u64 {
    rotr64(x, 14) ^ rotr64(x, 18) ^ rotr64(x, 41)
}

pub open spec fn small_sigma0(x: u64) -> u64 {
    rotr64(x, 1) ^ rotr64(x, 8) ^ (x >> 7)
}

pub open spec fn small_sigma1(x: u64) -> u64 {
    rotr64(x, 19) ^ rotr64(x, 61) ^ (x >> 6)
}

pub open spec fn choice(x: u64, y: u64, z: u64) -> u64 {
    (x & y) ^ (!x & z)
}

pub open spec fn majority(x: u64, y: u64, z: u64) -> u64 {
    (x & y) ^ (x & z) ^ (y & z)
}

/// The additive constant of round `t`: the first 64 bits of the fractional
/// part of the cube root of the `t`-th prime.
pub open spec fn round_constant(t: int) -> u64 {
    if t == 0 {
        0x428a2f98d728ae22
    } else if t == 1 {
        0x7137449123ef65cd
    } else if t == 2 {
        0xb5c0fbcfec4d3b2f
    } else if t == 3 {
        0xe9b5dba58189dbbc
    } else if t == 4 {
        0x3956c25bf348b538
    } else if t == 5 {
        0x59f111f1b605d019
    } else if t == 6 {
        0x923f82a4af194f9b
    } else if t == 7 {
        0xab1c5ed5da6d8118
    } else if t == 8 {
        0xd807aa98a3030242
    } else if t == 9 {
        0x12835b0145706fbe
    } else if t == 10 {
        0x243185be4ee4b28c
    } else if t == 11 {
        0x550c7dc3d5ffb4e2
    } else if t == 12 {
        0x72be5d74f27b896f
    } else if t == 13 {
        0x80deb1fe3b1696b1
    } else if t == 14 {
        0x9bdc06a725c71235
    } else if t == 15 {
        0xc19bf174cf692694
    } else if t == 16 {
        0xe49b69c19ef14ad2
    } else if t == 17 {
        0xefbe4786384f25e3
    } else if t == 18 {
        0x0fc19dc68b8cd5b5
    } else if t == 19 {
        0x240ca1cc77ac9c65
    } else if t == 20 {
        0x2de92c6f592b0275
    } else if t == 21 {
        0x4a7484aa6ea6e483
    } else if t == 22 {
        0x5cb0a9dcbd41fbd4
    } else if t == 23 {
        0x76f988da831153b5
    } else if t == 24 {
        0x983e5152ee66dfab
    } else if t == 25 {
        0xa831c66d2db43210
    } else if t == 26 {
        0xb00327c898fb213f
    } else if t == 27 {
        0xbf597fc7beef0ee4
    } else if t == 28 {
        0xc6e00bf33da88fc2
    } else if t == 29 {
        0xd5a79147930aa725
    } else if t == 30 {
        0x06ca6351e003826f
    } else if t == 31 {
        0x142929670a0e6e70
    } else if t == 32 {
        0x27b70a8546d22ffc
    } else if t == 33 {
        0x2e1b21385c26c926
    } else if t == 34 {
        0x4d2c6dfc5ac42aed
    } else if t == 35 {
        0x53380d139d95b3df
    } else if t == 36 {
        0x650a73548baf63de
    } else if t == 37 {
        0x766a0abb3c77b2a8
    } else if t == 38 {
        0x81c2c92e47edaee6
    } else if t == 39 {
        0x92722c851482353b
    } else if t == 40 {
        0xa2bfe8a14cf10364
    } else if t == 41 {
        0xa81a664bbc423001
    } else if t == 42 {
        0xc24b8b70d0f89791
    } else if t == 43 {
        0xc76c51a30654be30
    } else if t == 44 {
        0xd192e819d6ef5218
    } else if t == 45 {
        0xd69906245565a910
    } else if t == 46 {
        0xf40e35855771202a
    } else if t == 47 {
        0x106aa07032bbd1b8
    } else if t == 48 {
        0x19a4c116b8d2d0c8
    } else if t == 49 {
        0x1e376c085141ab53
    } else if t == 50 {
        0x2748774cdf8eeb99
    } else if t == 51 {
        0x34b0bcb5e19b48a8
    } else if t == 52 {
        0x391c0cb3c5c95a63
    } else if t == 53 {
        0x4ed8aa4ae3418acb
    } else if t == 54 {
        0x5b9cca4f7763e373
    } else if t == 55 {
        0x682e6ff3d6b2b8a3
    } else if t == 56 {
        0x748f82ee5defb2fc
    } else if t == 57 {
        0x78a5636f43172f60
    } else if t == 58 {
        0x84c87814a1f0ab72
    } else if t == 59 {
        0x8cc702081a6439ec
    } else if t == 60 {
        0x90befffa23631e28
    } else if t == 61 {
        0xa4506cebde82bde9
    } else if t == 62 {
        0xbef9a3f7b2c67915
    } else if t == 63 {
        0xc67178f2e372532b
    } else if t == 64 {
        0xca273eceea26619c
    } else if t == 65 {
        0xd186b8c721c0c207
    } else if t == 66 {
        0xeada7dd6cde0eb1e
    } else if t == 67 {
        0xf57d4f7fee6ed178
    } else if t == 68 {
        0x06f067aa72176fba
    } else if t == 69 {
        0x0a637dc5a2c898a6
    } else if t == 70 {
        0x113f9804bef90dae
    } else if t == 71 {
        0x1b710b35131c471b
    } else if t == 72 {
        0x28db77f523047d84
    } else if t == 73 {
        0x32caab7b40c72493
    } else if t == 74 {
        0x3c9ebe0a15c9bebc
    } else if t == 75 {
        0x431d67c49c100d4c
    } else if t == 76 {
        0x4cc5d4becb3e42b6
    } else if t == 77 {
        0x597f299cfc657e2a
    } else if t == 78 {
        0x5fcb6fab3ad6faec
    } else {
        0x6c44198c4a475817
    }
}

/// The big-endian 64-bit word at byte offset `8 * j` of `b`.
pub open spec fn be_word(b: Seq<u8>, j: int) -> u64 {
    ((b[8 * j + 0] as u64) << 56) | ((b[8 * j + 1] as u64) << 48) | ((b[8 * j + 2] as u64) << 40) | ((b[8 * j + 3] as u64) << 32) | ((b[8 * j + 4] as u64) << 24) | ((b[8 * j + 5] as u64) << 16) | ((b[8 * j + 6] as u64) << 8) | (b[8 * j + 7] as u64)
}

/// Word `t` of the message schedule of a 128-byte block.
pub open spec fn schedule_word(block: Seq<u8>, t: nat) -> u64
    decreases t,
{
    if t < 16 {
        be_word(block, t as int)
    } else {
        add64(
            add64(
                add64(
                    small_sigma1(schedule_word(block, (t - 2) as nat)),
                    schedule_word(block, (t - 7) as nat),
                ),
                small_sigma0(schedule_word(block, (t - 15) as nat)),
            ),
            schedule_word(block, (t - 16) as nat),
        )
    }
}

/// One of the 80 rounds of the compression function, with schedule word `w`.
pub open spec fn round(s: Sha512State, w: u64, t: int) -> Sha512State {
    let t1 = add64(
        add64(add64(add64(s.h, big_sigma1(s.e)), choice(s.e, s.f, s.g)), round_constant(t)),
        w,
    );
    let t2 = add64(big_sigma0(s.a), majority(s.a, s.b, s.c));
    Sha512State {
        a: add64(t1, t2),
        b: s.a,
        c: s.b,
        d: s.c,
        e: add64(s.d, t1),
        f: s.e,
        g: s.f,
        h: s.g,
    }
}

/// The first `n` rounds applied to `s`.
pub open spec fn rounds(s: Sha512State, block: Seq<u8>, n: nat) -> Sha512State
    decreases n,
{
    if n == 0 {
        s
    } else {
        round(rounds(s, block, (n - 1) as nat), schedule_word(block, (n - 1) as nat), n - 1)
    }
}

/// The compression function: 80 rounds, then the feed-forward addition.
pub open spec fn compress(s: Sha512State, block: Seq<u8>) -> Sha512State {
    let r = rounds(s, block, 80);
    Sha512State {
        a: add64(s.a, r.a),
        b: add64(s.b, r.b),
        c: add64(s.c, r.c),
        d: add64(s.d, r.d),
        e: add64(s.e, r.e),
        f: add64(s.f, r.f),
        g: add64(s.g, r.g),
        h: add64(s.h, r.h),
    }
}

/// The initial chaining value of SHA-512.
pub open spec fn initial_512() -> Sha512State {
    Sha512State { a: 0x6a09e667f3bcc908, b: 0xbb67ae8584caa73b, c: 0x3c6ef372fe94f82b, d: 0xa54ff53a5f1d36f1, e: 0x510e527fade682d1, f: 0x9b05688c2b3e6c1f, g: 0x1f83d9abfb41bd6b, h: 0x5be0cd19137e2179 }
}

/// The initial chaining value of SHA-384.
pub open spec fn initial_384() -> Sha512State {
    Sha512State { a: 0xcbbb9d5dc1059ed8, b: 0x629a292a367cd507, c: 0x9159015a3070dd17, d: 0x152fecd8f70e5939, e: 0x67332667ffc00b31, f: 0x8eb44a8768581511, g: 0xdb0c2e0d64f98fa7, h: 0x47b5481dbefa4fa4 }
}

/// How many zero bytes follow the `0x80` marker for a message of `len` bytes.
pub open spec fn zero_fill(len: nat) -> nat {
    ((239 - (len % 128)) % 128) as nat
}

/// The sixteen trailing bytes of the padding: the bit length, highest byte
/// first; a length in bytes fits the machine word, so the upper eight are zero.
pub open spec fn length_bytes(len: nat) -> Seq<u8> {
    Seq::new(
        16,
        |k: int|
            if k < 8 {
                0u8
            } else {
                byte_of_u64(bit_length(len), 15 - k)
            },
    )
}

/// The message followed by its padding; a multiple of 128 bytes long.
pub open spec fn padded(msg: Seq<u8>) -> Seq<u8> {
    msg + seq![0x80u8] + Seq::new(zero_fill(msg.len()), |k: int| 0u8) + length_bytes(msg.len())
}

/// The chaining value after the first `n` blocks of `data`.
pub open spec fn absorb(s: Sha512State, data: Seq<u8>, n: nat) -> Sha512State
    decreases n,
{
    if n == 0 {
        s
    } else {
        compress(absorb(s, data, (n - 1) as nat), data.subrange(128 * (n - 1), (128 * n) as int))
    }
}

/// The eight bytes of a 64-bit word, highest first.
pub open spec fn be_bytes(x: u64) -> Seq<u8> {
    Seq::new(8, |k: int| byte_of_u64(x, 7 - k))
}

/// The sixty-four bytes of a chaining value.
pub open spec fn state_bytes(s: Sha512State) -> Seq<u8> {
    be_bytes(s.a) + be_bytes(s.b) + be_bytes(s.c) + be_bytes(s.d) + be_bytes(s.e) + be_bytes(s.f) + be_bytes(s.g) + be_bytes(s.h)
}

/// The chaining value after the whole padded message.
pub open spec fn absorbed(init: Sha512State, msg: Seq<u8>) -> Sha512State {
    let p = padded(msg);
    absorb(init, p, p.len() / 128)
}

/// The SHA-512 digest of `msg`.
pub open spec fn sha512_digest(msg: Seq<u8>) -> Seq<u8> {
    state_bytes(absorbed(initial_512(), msg))
}

/// The SHA-384 digest of `msg`.
pub open spec fn sha384_digest(msg: Seq<u8>) -> Seq<u8> {
    state_bytes(absorbed(initial_384(), msg)).subrange(0, 48)
}

fn constant(t: usize) -> (r: u64)
    requires
        t < 80,
    ensures
        r == round_constant(t as int),
{
    if t == 0 {
        0x428a2f98d728ae22
    } else if t == 1 {
        0x7137449123ef65cd
    } else if t == 2 {
        0xb5c0fbcfec4d3b2f
    } else if t == 3 {
        0xe9b5dba58189dbbc
    } else if t == 4 {
        0x3956c25bf348b538
    } else if t == 5 {
        0x59f111f1b605d019
    } else if t == 6 {
        0x923f82a4af194f9b
    } else if t == 7 {
        0xab1c5ed5da6d8118
    } else if t == 8 {
        0xd807aa98a3030242
    } else if t == 9 {
        0x12835b0145706fbe
    } else if t == 10 {
        0x243185be4ee4b28c
    } else if t == 11 {
        0x550c7dc3d5ffb4e2
    } else if t == 12 {
        0x72be5d74f27b896f
    } else if t == 13 {
        0x80deb1fe3b1696b1
    } else if t == 14 {
        0x9bdc06a725c71235
    } else if t == 15 {
        0xc19bf174cf692694
    } else if t == 16 {
        0xe49b69c19ef14ad2
    } else if t == 17 {
        0xefbe4786384f25e3
    } else if t == 18 {
        0x0fc19dc68b8cd5b5
    } else if t == 19 {
        0x240ca1cc77ac9c65
    } else if t == 20 {
        0x2de92c6f592b0275
    } else if t == 21 {
        0x4a7484aa6ea6e483
    } else if t == 22 {
        0x5cb0a9dcbd41fbd4
    } else if t == 23 {
        0x76f988da831153b5
    } else if t == 24 {
        0x983e5152ee66dfab
    } else if t == 25 {
        0xa831c66d2db43210
    } else if t == 26 {
        0xb00327c898fb213f
    } else if t == 27 {
        0xbf597fc7beef0ee4
    } else if t == 28 {
        0xc6e00bf33da88fc2
    } else if t == 29 {
        0xd5a79147930aa725
    } else if t == 30 {
        0x06ca6351e003826f
    } else if t == 31 {
        0x142929670a0e6e70
    } else if t == 32 {
        0x27b70a8546d22ffc
    } else if t == 33 {
        0x2e1b21385c26c926
    } else if t == 34 {
        0x4d2c6dfc5ac42aed
    } else if t == 35 {
        0x53380d139d95b3df
    } else if t == 36 {
        0x650a73548baf63de
    } else if t == 37 {
        0x766a0abb3c77b2a8
    } else if t == 38 {
        0x81c2c92e47edaee6
    } else if t == 39 {
        0x92722c851482353b
    } else if t == 40 {
        0xa2bfe8a14cf10364
    } else if t == 41 {
        0xa81a664bbc423001
    } else if t == 42 {
        0xc24b8b70d0f89791
    } else if t == 43 {
        0xc76c51a30654be30
    } else if t == 44 {
        0xd192e819d6ef5218
    } else if t == 45 {
        0xd69906245565a910
    } else if t == 46 {
        0xf40e35855771202a
    } else if t == 47 {
        0x106aa07032bbd1b8
    } else if t == 48 {
        0x19a4c116b8d2d0c8
    } else if t == 49 {
        0x1e376c085141ab53
    } else if t == 50 {
        0x2748774cdf8eeb99
    } else if t == 51 {
        0x34b0bcb5e19b48a8
    } else if t == 52 {
        0x391c0cb3c5c95a63
    } else if t == 53 {
        0x4ed8aa4ae3418acb
    } else if t == 54 {
        0x5b9cca4f7763e373
    } else if t == 55 {
        0x682e6ff3d6b2b8a3
    } else if t == 56 {
        0x748f82ee5defb2fc
    } else if t == 57 {
        0x78a5636f43172f60
    } else if t == 58 {
        0x84c87814a1f0ab72
    } else if t == 59 {
        0x8cc702081a6439ec
    } else if t == 60 {
        0x90befffa23631e28
    } else if t == 61 {
        0xa4506cebde82bde9
    } else if t == 62 {
        0xbef9a3f7b2c67915
    } else if t == 63 {
        0xc67178f2e372532b
    } else if t == 64 {
        0xca273eceea26619c
    } else if t == 65 {
        0xd186b8c721c0c207
    } else if t == 66 {
        0xeada7dd6cde0eb1e
    } else if t == 67 {
        0xf57d4f7fee6ed178
    } else if t == 68 {
        0x06f067aa72176fba
    } else if t == 69 {
        0x0a637dc5a2c898a6
    } else if t == 70 {
        0x113f9804bef90dae
    } else if t == 71 {
        0x1b710b35131c471b
    } else if t == 72 {
        0x28db77f523047d84
    } else if t == 73 {
        0x32caab7b40c72493
    } else if t == 74 {
        0x3c9ebe0a15c9bebc
    } else if t == 75 {
        0x431d67c49c100d4c
    } else if t == 76 {
        0x4cc5d4becb3e42b6
    } else if t == 77 {
        0x597f299cfc657e2a
    } else if t == 78 {
        0x5fcb6fab3ad6faec
    } else {
        0x6c44198c4a475817
    }
}

fn rotate(x: u64, n: u64) -> (r: u64)
    requires
        0 < n < 64,
    ensures
        r == rotr64(x, n),
{
    (x >> n) | (x << (64 - n))
}

fn round_exec(s: Sha512State, w: u64, t: usize) -> (r: Sha512State)
    requires
        t < 80,
    ensures
        r == round(s, w, t as int),
{
    let s1: u64 = rotate(s.e, 14) ^ rotate(s.e, 18) ^ rotate(s.e, 41);
    let ch: u64 = (s.e & s.f) ^ (!s.e & s.g);
    let t1: u64 = s.h.wrapping_add(s1).wrapping_add(ch).wrapping_add(constant(t)).wrapping_add(w);
    let s0: u64 = rotate(s.a, 28) ^ rotate(s.a, 34) ^ rotate(s.a, 39);
    let mj: u64 = (s.a & s.b) ^ (s.a & s.c) ^ (s.b & s.c);
    let t2: u64 = s0.wrapping_add(mj);
    Sha512State {
        a: t1.wrapping_add(t2),
        b: s.a,
        c: s.b,
        d: s.c,
        e: s.d.wrapping_add(t1),
        f: s.e,
        g: s.f,
        h: s.g,
    }
}

fn load_word(data: &Vec<u8>, off: usize, j: usize) -> (r: u64)
    requires
        j < 16,
        off + 128 <= data.len(),
    ensures
        r == be_word(data@.subrange(off as int, off + 128), j as int),
{
    let p: usize = off + 8 * j;
    ((data[p + 0] as u64) << 56) | ((data[p + 1] as u64) << 48) | ((data[p + 2] as u64) << 40) | ((data[p + 3] as u64) << 32) | ((data[p + 4] as u64) << 24) | ((data[p + 5] as u64) << 16) | ((data[p + 6] as u64) << 8) | (data[p + 7] as u64)
}

fn compress_block(s: Sha512State, data: &Vec<u8>, off: usize) -> (r: Sha512State)
    requires
        off + 128 <= data.len(),
    ensures
        r == compress(s, data@.subrange(off as int, off + 128)),
{
    let ghost block = data@.subrange(off as int, off + 128);
    let mut w: Vec<u64> = Vec::new();
    let mut t: usize = 0;
    while t < 80
        invariant
            t <= 80,
            w.len() == t,
            off + 128 <= data.len(),
            block == data@.subrange(off as int, off + 128),
            forall|k: int| 0 <= k < t ==> w@[k] == schedule_word(block, k as nat),
        decreases 80 - t,
    {
        let x: u64 = if t < 16 {
            load_word(data, off, t)
        } else {
            let w2: u64 = w[t - 2];
            let w15: u64 = w[t - 15];
            let m1: u64 = rotate(w2, 19) ^ rotate(w2, 61) ^ (w2 >> 6);
            let m0: u64 = rotate(w15, 1) ^ rotate(w15, 8) ^ (w15 >> 7);
            m1.wrapping_add(w[t - 7]).wrapping_add(m0).wrapping_add(w[t - 16])
        };
        w.push(x);
        t += 1;
    }
    let mut st = s;
    let mut i: usize = 0;
    while i < 80
        invariant
            i <= 80,
            w.len() == 80,
            forall|k: int| 0 <= k < 80 ==> w@[k] == schedule_word(block, k as nat),
            st == rounds(s, block, i as nat),
        decreases 80 - i,
    {
        st = round_exec(st, w[i], i);
        i += 1;
    }
    Sha512State {
        a: s.a.wrapping_add(st.a),
        b: s.b.wrapping_add(st.b),
        c: s.c.wrapping_add(st.c),
        d: s.d.wrapping_add(st.d),
        e: s.e.wrapping_add(st.e),
        f: s.f.wrapping_add(st.f),
        g: s.g.wrapping_add(st.g),
        h: s.h.wrapping_add(st.h),
    }
}

fn push_word(out: &mut Vec<u8>, x: u64)
    ensures
        final(out)@ == old(out)@ + be_bytes(x),
{
    let ghost before = out@;
    out.push(#[verifier::truncate] ((x >> 56) as u8));
    out.push(#[verifier::truncate] ((x >> 48) as u8));
    out.push(#[verifier::truncate] ((x >> 40) as u8));
    out.push(#[verifier::truncate] ((x >> 32) as u8));
    out.push(#[verifier::truncate] ((x >> 24) as u8));
    out.push(#[verifier::truncate] ((x >> 16) as u8));
    out.push(#[verifier::truncate] ((x >> 8) as u8));
    out.push(#[verifier::truncate] (x as u8));
    assert(x >> 0 == x) by (bit_vector);
    assert(out@ =~= before + be_bytes(x));
}

/// Builds the padded message.
fn pad_message(msg: &[u8]) -> (p: Vec<u8>)
    requires
        msg.len() + 144 <= usize::MAX,
    ensures
        p@ == padded(msg@),
        p.len() % 128 == 0,
{
    let n: usize = msg.len();
    let mut p: Vec<u8> = Vec::new();
    let mut i: usize = 0;
    while i < n
        invariant
            i <= n,
            n == msg.len(),
            p@ == msg@.subrange(0, i as int),
        decreases n - i,
    {
        p.push(msg[i]);
        assert(p@ =~= msg@.subrange(0, i + 1));
        i += 1;
    }
    assert(p@ =~= msg@);
    p.push(0x80);
    let z: usize = (239 - (n % 128)) % 128;
    let mut k: usize = 0;
    while k < z
        invariant
            k <= z,
            z < 128,
            n == msg.len(),
            n + 144 <= usize::MAX,
            p@ == msg@ + seq![0x80u8] + Seq::new(k as nat, |t: int| 0u8),
        decreases z - k,
    {
        p.push(0);
        assert(p@ =~= msg@ + seq![0x80u8] + Seq::new((k + 1) as nat, |t: int| 0u8));
        k += 1;
    }
    let bits: u64 = (n as u64) << 3;
    let ghost head = p@;
    let ghost tail = length_bytes(n as nat);
    let mut b: usize = 0;
    while b < 16
        invariant
            b <= 16,
            bits == bit_length(n as nat),
            tail == length_bytes(n as nat),
            p@ == head + tail.subrange(0, b as int),
        decreases 16 - b,
    {
        if b < 8 {
            p.push(0);
        } else {
            let sh: u64 = (8 * (15 - b)) as u64;
            p.push(#[verifier::truncate] ((bits >> sh) as u8));
        }
        assert(p@ =~= head + tail.subrange(0, b + 1));
        b += 1;
    }
    assert(p@ =~= padded(msg@));
    p
}

fn run(msg: &[u8], init: Sha512State) -> (out: Vec<u8>)
    requires
        msg.len() + 144 <= usize::MAX,
    ensures
        out@ == state_bytes(absorbed(init, msg@)),
        out.len() == 64,
{
    let p = pad_message(msg);
    let blocks: usize = p.len() / 128;
    let mut st = init;
    let mut k: usize = 0;
    while k < blocks
        invariant
            k <= blocks,
            blocks == p.len() / 128,
            st == absorb(init, p@, k as nat),
        decreases blocks - k,
    {
        st = compress_block(st, &p, 128 * k);
        k += 1;
    }
    let mut out: Vec<u8> = Vec::new();
    push_word(&mut out, st.a);
    push_word(&mut out, st.b);
    push_word(&mut out, st.c);
    push_word(&mut out, st.d);
    push_word(&mut out, st.e);
    push_word(&mut out, st.f);
    push_word(&mut out, st.g);
    push_word(&mut out, st.h);
    out
}

/// Computes the SHA-512 digest of `msg`: sixty-four bytes.
pub fn sha512(msg: &[u8]) -> (out: Vec<u8>)
    requires
        msg.len() + 144 <= usize::MAX,
    ensures
        out@ == sha512_digest(msg@),
        out.len() == 64,
{
    run(msg, Sha512State { a: 0x6a09e667f3bcc908, b: 0xbb67ae8584caa73b, c: 0x3c6ef372fe94f82b, d: 0xa54ff53a5f1d36f1, e: 0x510e527fade682d1, f: 0x9b05688c2b3e6c1f, g: 0x1f83d9abfb41bd6b, h: 0x5be0cd19137e2179 })
}

/// Computes the SHA-384 digest of `msg`: forty-eight bytes.
pub fn sha384(msg: &[u8]) -> (out: Vec<u8>)
    requires
        msg.len() + 144 <= usize::MAX,
    ensures
        out@ == sha384_digest(msg@),
        out.len() == 48,
{
    let mut out = run(msg, Sha512State { a: 0xcbbb9d5dc1059ed8, b: 0x629a292a367cd507, c: 0x9159015a3070dd17, d: 0x152fecd8f70e5939, e: 0x67332667ffc00b31, f: 0x8eb44a8768581511, g: 0xdb0c2e0d64f98fa7, h: 0x47b5481dbefa4fa4 });
    out.truncate(48);
    out
}

} // verus!
