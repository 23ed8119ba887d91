use vstd::prelude::*;
use crate::md5::{add32, byte_of_u32, byte_of_u64, bit_length, zero_fill};

verus! {

/// The eight chaining words of the SHA-256 compression function.
#[derive(Clone, Copy, Debug)]
pub struct Sha256State {
    pub a: u32,
    pub b: u32,
    pub c: u32,
    pub d: u32,
    pub e: u32,
    pub f: u32,
    pub g: u32,
    pub h: u32,
}

/// Right rotation of a 32-bit word by `n` bits, `0 < n < 32`.
pub open spec fn rotr32(x: u32, n: u32) -> u32 {
    (x >> n) | (x << ((32 - n) as u32))
}

pub open spec fn big_sigma0(x: u32) -> u32 {
    rotr32(x, 2) ^ rotr32(x, 13) ^ rotr32(x, 22)
}

pub open spec fn big_sigma1(x: u32) -> u32 {
    rotr32(x, 6) ^ rotr32(x, 11) ^ rotr32(x, 25)
}

pub open spec fn small_sigma0(x: u32) -> u32 {
    rotr32(x, 7) ^ rotr32(x, 18) ^ (x >> 3)
}

pub open spec fn small_sigma1(x: u32) -> u32 {
    rotr32(x, 17) ^ rotr32(x, 19) ^ (x >> 10)
}

pub open spec fn choice(x: u32, y: u32, z: u32) -> u32 {
    (x & y) ^ (!x & z)
}

pub open spec fn majority(x: u32, y: u32, z: u32) -> u32 {
    (x & y) ^ (x & z) ^ (y & z)
}

/// The additive constant of round `t`: the first 32 bits of the fractional
/// part of the cube root of the `t`-th prime.
pub open spec fn round_constant(t: int) -> u32 {
    if t == 0 {
        0x428a2f98
    } else if t == 1 {
        0x71374491
    } else if t == 2 {
        0xb5c0fbcf
    } else if t == 3 {
        0xe9b5dba5
    } else if t == 4 {
        0x3956c25b
    } else if t == 5 {
        0x59f111f1
    } else if t == 6 {
        0x923f82a4
    } else if t == 7 {
        0xab1c5ed5
    } else if t == 8 {
        0xd807aa98
    } else if t == 9 {
        0x12835b01
    } else if t == 10 {
        0x243185be
    } else if t == 11 {
        0x550c7dc3
    } else if t == 12 {
        0x72be5d74
    } else if t == 13 {
        0x80deb1fe
    } else if t == 14 {
        0x9bdc06a7
    } else if t == 15 {
        0xc19bf174
    } else if t == 16 {
        0xe49b69c1
    } else if t == 17 {
        0xefbe4786
    } else if t == 18 {
        0x0fc19dc6
    } else if t == 19 {
        0x240ca1cc
    } else if t == 20 {
        0x2de92c6f
    } else if t == 21 {
        0x4a7484aa
    } else if t == 22 {
        0x5cb0a9dc
    } else if t == 23 {
        0x76f988da
    } else if t == 24 {
        0x983e5152
    } else if t == 25 {
        0xa831c66d
    } else if t == 26 {
        0xb00327c8
    } else if t == 27 {
        0xbf597fc7
    } else if t == 28 {
        0xc6e00bf3
    } else if t == 29 {
        0xd5a79147
    } else if t == 30 {
        0x06ca6351
    } else if t == 31 {
        0x14292967
    } else if t == 32 {
        0x27b70a85
    } else if t == 33 {
        0x2e1b2138
    } else if t == 34 {
        0x4d2c6dfc
    } else if t == 35 {
        0x53380d13
    } else if t == 36 {
        0x650a7354
    } else if t == 37 {
        0x766a0abb
    } else if t == 38 {
        0x81c2c92e
    } else if t == 39 {
        0x92722c85
    } else if t == 40 {
        0xa2bfe8a1
    } else if t == 41 {
        0xa81a664b
    } else if t == 42 {
        0xc24b8b70
    } else if t == 43 {
        0xc76c51a3
    } else if t == 44 {
        0xd192e819
    } else if t == 45 {
        0xd6990624
    } else if t == 46 {
        0xf40e3585
    } else if t == 47 {
        0x106aa070
    } else if t == 48 {
        0x19a4c116
    } else if t == 49 {
        0x1e376c08
    } else if t == 50 {
        0x2748774c
    } else if t == 51 {
        0x34b0bcb5
    } else if t == 52 {
        0x391c0cb3
    } else if t == 53 {
        0x4ed8aa4a
    } else if t == 54 {
        0x5b9cca4f
    } else if t == 55 {
        0x682e6ff3
    } else if t == 56 {
        0x748f82ee
    } else if t == 57 {
        0x78a5636f
    } else if t == 58 {
        0x84c87814
    } else if t == 59 {
        0x8cc70208
    } else if t == 60 {
        0x90befffa
    } else if t == 61 {
        0xa4506ceb
    } else if t == 62 {
        0xbef9a3f7
    } else {
        0xc67178f2
    }
}

/// The big-endian 32-bit word at byte offset `4 * j` of `b`.
pub open spec fn be_word(b: Seq<u8>, j: int) -> u32 {
    ((b[4 * j] as u32) << 24) | ((b[4 * j + 1] as u32) << 16) | ((b[4 * j + 2] as u32) << 8) | (b[4
        * j + 3] as u32)
}

/// Word `t` of the message schedule of a 64-byte block.
pub open spec fn schedule_word(block: Seq<u8>, t: nat) -> u32
    decreases t,
{
    if t < 16 {
        be_word(block, t as int)
    } else {
        add32(
            add32(
                add32(
                    small_sigma1(schedule_word(block, (t - 2) as nat)),
                    schedule_word(block, (t - 7) as nat),
                ),
                small_sigma0(schedule_word(block, (t - 15) as nat)),
            ),
            schedule_word(block, (t - 16) as nat),
        )
    }
}

/// One of the 64 rounds of the compression function, with schedule word `w`.
pub open spec fn round(s: Sha256State, w: u32, t: int) -> Sha256State {
    let t1 = add32(
        add32(add32(add32(s.h, big_sigma1(s.e)), choice(s.e, s.f, s.g)), round_constant(t)),
        w,
    );
    let t2 = add32(big_sigma0(s.a), majority(s.a, s.b, s.c));
    Sha256State {
        a: add32(t1, t2),
        b: s.a,
        c: s.b,
        d: s.c,
        e: add32(s.d, t1),
        f: s.e,
        g: s.f,
        h: s.g,
    }
}

/// The first `n` rounds applied to `s`.
pub open spec fn rounds(s: Sha256State, block: Seq<u8>, n: nat) -> Sha256State
    decreases n,
{
    if n == 0 {
        s
    } else {
        round(rounds(s, block, (n - 1) as nat), schedule_word(block, (n - 1) as nat), n - 1)
    }
}

/// The compression function: 64 rounds, then the feed-forward addition.
pub open spec fn compress(s: Sha256State, block: Seq<u8>) -> Sha256State {
    let r = rounds(s, block, 64);
    Sha256State {
        a: add32(s.a, r.a),
        b: add32(s.b, r.b),
        c: add32(s.c, r.c),
        d: add32(s.d, r.d),
        e: add32(s.e, r.e),
        f: add32(s.f, r.f),
        g: add32(s.g, r.g),
        h: add32(s.h, r.h),
    }
}

/// The initial chaining value.
pub open spec fn initial_state() -> Sha256State {
    Sha256State { a: 0x6a09e667, b: 0xbb67ae85, c: 0x3c6ef372, d: 0xa54ff53a, e: 0x510e527f, f: 0x9b05688c, g: 0x1f83d9ab, h: 0x5be0cd19 }
}

/// The eight trailing bytes of the padding: the bit length, highest byte first.
pub open spec fn length_bytes(len: nat) -> Seq<u8> {
    Seq::new(8, |k: int| byte_of_u64(bit_length(len), 7 - k))
}

/// The message followed by its padding; a multiple of 64 bytes long.
pub open spec fn padded(msg: Seq<u8>) -> Seq<u8> {
    msg + seq![0x80u8] + Seq::new(zero_fill(msg.len()), |k: int| 0u8) + length_bytes(msg.len())
}

/// The chaining value after the first `n` blocks of `data`.
pub open spec fn absorb(s: Sha256State, data: Seq<u8>, n: nat) -> Sha256State
    decreases n,
{
    if n == 0 {
        s
    } else {
        compress(absorb(s, data, (n - 1) as nat), data.subrange(64 * (n - 1), (64 * n) as int))
    }
}

/// The four bytes of a 32-bit word, highest first.
pub open spec fn be_bytes(x: u32) -> Seq<u8> {
    Seq::new(4, |k: int| byte_of_u32(x, 3 - k))
}

/// The thirty-two output bytes of a chaining value.
pub open spec fn state_bytes(s: Sha256State) -> Seq<u8> {
    be_bytes(s.a) + be_bytes(s.b) + be_bytes(s.c) + be_bytes(s.d) + be_bytes(s.e) + be_bytes(s.f)
        + be_bytes(s.g) + be_bytes(s.h)
}

/// The SHA-256 digest of `msg`.
pub open spec fn sha256_digest(msg: Seq<u8>) -> Seq<u8> {
    let p = padded(msg);
    state_bytes(absorb(initial_state(), p, p.len() / 64))
}

fn constant(t: usize) -> (r: u32)
    requires
        t < 64,
    ensures
        r == round_constant(t as int),
{
    if t == 0 {
        0x428a2f98
    } else if t == 1 {
        0x71374491
    } else if t == 2 {
        0xb5c0fbcf
    } else if t == 3 {
        0xe9b5dba5
    } else if t == 4 {
        0x3956c25b
    } else if t == 5 {
        0x59f111f1
    } else if t == 6 {
        0x923f82a4
    } else if t == 7 {
        0xab1c5ed5
    } else if t == 8 {
        0xd807aa98
    } else if t == 9 {
        0x12835b01
    } else if t == 10 {
        0x243185be
    } else if t == 11 {
        0x550c7dc3
    } else if t == 12 {
        0x72be5d74
    } else if t == 13 {
        0x80deb1fe
    } else if t == 14 {
        0x9bdc06a7
    } else if t == 15 {
        0xc19bf174
    } else if t == 16 {
        0xe49b69c1
    } else if t == 17 {
        0xefbe4786
    } else if t == 18 {
        0x0fc19dc6
    } else if t == 19 {
        0x240ca1cc
    } else if t == 20 {
        0x2de92c6f
    } else if t == 21 {
        0x4a7484aa
    } else if t == 22 {
        0x5cb0a9dc
    } else if t == 23 {
        0x76f988da
    } else if t == 24 {
        0x983e5152
    } else if t == 25 {
        0xa831c66d
    } else if t == 26 {
        0xb00327c8
    } else if t == 27 {
        0xbf597fc7
    } else if t == 28 {
        0xc6e00bf3
    } else if t == 29 {
        0xd5a79147
    } else if t == 30 {
        0x06ca6351
    } else if t == 31 {
        0x14292967
    } else if t == 32 {
        0x27b70a85
    } else if t == 33 {
        0x2e1b2138
    } else if t == 34 {
        0x4d2c6dfc
    } else if t == 35 {
        0x53380d13
    } else if t == 36 {
        0x650a7354
    } else if t == 37 {
        0x766a0abb
    } else if t == 38 {
        0x81c2c92e
    } else if t == 39 {
        0x92722c85
    } else if t == 40 {
        0xa2bfe8a1
    } else if t == 41 {
        0xa81a664b
    } else if t == 42 {
        0xc24b8b70
    } else if t == 43 {
        0xc76c51a3
    } else if t == 44 {
        0xd192e819
    } else if t == 45 {
        0xd6990624
    } else if t == 46 {
        0xf40e3585
    } else if t == 47 {
        0x106aa070
    } else if t == 48 {
        0x19a4c116
    } else if t == 49 {
        0x1e376c08
    } else if t == 50 {
        0x2748774c
    } else if t == 51 {
        0x34b0bcb5
    } else if t == 52 {
        0x391c0cb3
    } else if t == 53 {
        0x4ed8aa4a
    } else if t == 54 {
        0x5b9cca4f
    } else if t == 55 {
        0x682e6ff3
    } else if t == 56 {
        0x748f82ee
    } else if t == 57 {
        0x78a5636f
    } else if t == 58 {
        0x84c87814
    } else if t == 59 {
        0x8cc70208
    } else if t == 60 {
        0x90befffa
    } else if t == 61 {
        0xa4506ceb
    } else if t == 62 {
        0xbef9a3f7
    } else {
        0xc67178f2
    }
}

fn rotate(x: u32, n: u32) -> (r: u32)
    requires
        0 < n < 32,
    ensures
        r == rotr32(x, n),
{
    (x >> n) | (x << (32 - n))
}

fn round_exec(s: Sha256State, w: u32, t: usize) -> (r: Sha256State)
    requires
        t < 64,
    ensures
        r == round(s, w, t as int),
{
    let s1: u32 = rotate(s.e, 6) ^ rotate(s.e, 11) ^ rotate(s.e, 25);
    let ch: u32 = (s.e & s.f) ^ (!s.e & s.g);
    let t1: u32 = s.h.wrapping_add(s1).wrapping_add(ch).wrapping_add(constant(t)).wrapping_add(w);
    let s0: u32 = rotate(s.a, 2) ^ rotate(s.a, 13) ^ rotate(s.a, 22);
    let mj: u32 = (s.a & s.b) ^ (s.a & s.c) ^ (s.b & s.c);
    let t2: u32 = s0.wrapping_add(mj);
    Sha256State {
        a: t1.wrapping_add(t2),
        b: s.a,
        c: s.b,
        d: s.c,
        e: s.d.wrapping_add(t1),
        f: s.e,
        g: s.f,
        h: s.g,
    }
}

fn load_word(data: &Vec<u8>, off: usize, j: usize) -> (r: u32)
    requires
        j < 16,
        off + 64 <= data.len(),
    ensures
        r == be_word(data@.subrange(off as int, off + 64), j as int),
{
    let p: usize = off + 4 * j;
    ((data[p] as u32) << 24) | ((data[p + 1] as u32) << 16) | ((data[p + 2] as u32) << 8) | (data[p
        + 3] as u32)
}

fn compress_block(s: Sha256State, data: &Vec<u8>, off: usize) -> (r: Sha256State)
    requires
        off + 64 <= data.len(),
    ensures
        r == compress(s, data@.subrange(off as int, off + 64)),
{
    let ghost block = data@.subrange(off as int, off + 64);
    let mut w: Vec<u32> = Vec::new();
    let mut t: usize = 0;
    while t < 64
        invariant
            t <= 64,
            w.len() == t,
            off + 64 <= data.len(),
            block == data@.subrange(off as int, off + 64),
            forall|k: int| 0 <= k < t ==> w@[k] == schedule_word(block, k as nat),
        decreases 64 - t,
    {
        let x: u32 = if t < 16 {
            load_word(data, off, t)
        } else {
            let w2: u32 = w[t - 2];
            let w15: u32 = w[t - 15];
            let m1: u32 = rotate(w2, 17) ^ rotate(w2, 19) ^ (w2 >> 10);
            let m0: u32 = rotate(w15, 7) ^ rotate(w15, 18) ^ (w15 >> 3);
            m1.wrapping_add(w[t - 7]).wrapping_add(m0).wrapping_add(w[t - 16])
        };
        w.push(x);
        t += 1;
    }
    let mut st = s;
    let mut i: usize = 0;
    while i < 64
        invariant
            i <= 64,
            w.len() == 64,
            forall|k: int| 0 <= k < 64 ==> w@[k] == schedule_word(block, k as nat),
            st == rounds(s, block, i as nat),
        decreases 64 - i,
    {
        st = round_exec(st, w[i], i);
        i += 1;
    }
    Sha256State {
        a: s.a.wrapping_add(st.a),
        b: s.b.wrapping_add(st.b),
        c: s.c.wrapping_add(st.c),
        d: s.d.wrapping_add(st.d),
        e: s.e.wrapping_add(st.e),
        f: s.f.wrapping_add(st.f),
        g: s.g.wrapping_add(st.g),
        h: s.h.wrapping_add(st.h),
    }
}

fn push_word(out: &mut Vec<u8>, x: u32)
    ensures
        final(out)@ == old(out)@ + be_bytes(x),
{
    let ghost before = out@;
    out.push(#[verifier::truncate] ((x >> 24) as u8));
    out.push(#[verifier::truncate] ((x >> 16) as u8));
    out.push(#[verifier::truncate] ((x >> 8) as u8));
    out.push(#[verifier::truncate] (x as u8));
    assert(x >> 0 == x) by (bit_vector);
    assert(out@ =~= before + be_bytes(x));
}

/// Builds the padded message.
fn pad_message(msg: &[u8]) -> (p: Vec<u8>)
    requires
        msg.len() + 72 <= usize::MAX,
    ensures
        p@ == padded(msg@),
        p.len() % 64 == 0,
{
    let n: usize = msg.len();
    let mut p: Vec<u8> = Vec::new();
    let mut i: usize = 0;
    while i < n
        invariant
            i <= n,
            n == msg.len(),
            p@ == msg@.subrange(0, i as int),
        decreases n - i,
    {
        p.push(msg[i]);
        assert(p@ =~= msg@.subrange(0, i + 1));
        i += 1;
    }
    assert(p@ =~= msg@);
    p.push(0x80);
    let z: usize = (119 - (n % 64)) % 64;
    let mut k: usize = 0;
    while k < z
        invariant
            k <= z,
            z < 64,
            n == msg.len(),
            n + 72 <= usize::MAX,
            p@ == msg@ + seq![0x80u8] + Seq::new(k as nat, |t: int| 0u8),
        decreases z - k,
    {
        p.push(0);
        assert(p@ =~= msg@ + seq![0x80u8] + Seq::new((k + 1) as nat, |t: int| 0u8));
        k += 1;
    }
    let bits: u64 = (n as u64) << 3;
    let ghost head = p@;
    let mut b: usize = 0;
    while b < 8
        invariant
            b <= 8,
            bits == bit_length(n as nat),
            p@ == head + Seq::new(b as nat, |t: int| byte_of_u64(bits, 7 - t)),
        decreases 8 - b,
    {
        let sh: u64 = (8 * (7 - b)) as u64;
        p.push(#[verifier::truncate] ((bits >> sh) as u8));
        assert(p@ =~= head + Seq::new((b + 1) as nat, |t: int| byte_of_u64(bits, 7 - t)));
        b += 1;
    }
    assert(p@ =~= padded(msg@));
    p
}

/// Computes the SHA-256 digest of `msg`: thirty-two bytes.
pub fn sha256(msg: &[u8]) -> (out: Vec<u8>)
    requires
        msg.len() + 72 <= usize::MAX,
    ensures
        out@ == sha256_digest(msg@),
        out.len() == 32,
{
    let p = pad_message(msg);
    let blocks: usize = p.len() / 64;
    let mut st = Sha256State { a: 0x6a09e667, b: 0xbb67ae85, c: 0x3c6ef372, d: 0xa54ff53a, e: 0x510e527f, f: 0x9b05688c, g: 0x1f83d9ab, h: 0x5be0cd19 };
    let mut k: usize = 0;
    while k < blocks
        invariant
            k <= blocks,
            blocks == p.len() / 64,
            st == absorb(initial_state(), p@, k as nat),
        decreases blocks - k,
    {
        st = compress_block(st, &p, 64 * k);
        k += 1;
    }
    let mut out: Vec<u8> = Vec::new();
    push_word(&mut out, st.a);
    push_word(&mut out, st.b);
    push_word(&mut out, st.c);
    push_word(&mut out, st.d);
    push_word(&mut out, st.e);
    push_word(&mut out, st.f);
    push_word(&mut out, st.g);
    push_word(&mut out, st.h);
    out
}

} // verus!
