use vstd::prelude::*;

verus! {

/// The four chaining words of the MD5 compression function.
#[derive(Clone, Copy, Debug)]
pub struct Md5State {
    pub a: u32,
    pub b: u32,
    pub c: u32,
    pub d: u32,
}

/// Addition modulo 2^32.
pub open spec fn add32(x: u32, y: u32) -> u32 {
    if x + y > u32::MAX {
        (x + y - 0x1_0000_0000) as u32
    } else {
        (x + y) as u32
    }
}

/// Left rotation of a 32-bit word by `n` bits, `0 < n < 32`.
pub open spec fn rotl32(x: u32, n: u32) -> u32 {
    (x << n) | (x >> ((32 - n) as u32))
}

/// The additive constant of step `i`: the integer part of `2^32 * |sin(i + 1)|`.
pub open spec fn sine_at(i: int) -> u32 {
    if i == 0 {
        0xd76aa478
    } else if i == 1 {
        0xe8c7b756
    } else if i == 2 {
        0x242070db
    } else if i == 3 {
        0xc1bdceee
    } else if i == 4 {
        0xf57c0faf
    } else if i == 5 {
        0x4787c62a
    } else if i == 6 {
        0xa8304613
    } else if i == 7 {
        0xfd469501
    } else if i == 8 {
        0x698098d8
    } else if i == 9 {
        0x8b44f7af
    } else if i == 10 {
        0xffff5bb1
    } else if i == 11 {
        0x895cd7be
    } else if i == 12 {
        0x6b901122
    } else if i == 13 {
        0xfd987193
    } else if i == 14 {
        0xa679438e
    } else if i == 15 {
        0x49b40821
    } else if i == 16 {
        0xf61e2562
    } else if i == 17 {
        0xc040b340
    } else if i == 18 {
        0x265e5a51
    } else if i == 19 {
        0xe9b6c7aa
    } else if i == 20 {
        0xd62f105d
    } else if i == 21 {
        0x02441453
    } else if i == 22 {
        0xd8a1e681
    } else if i == 23 {
        0xe7d3fbc8
    } else if i == 24 {
        0x21e1cde6
    } else if i == 25 {
        0xc33707d6
    } else if i == 26 {
        0xf4d50d87
    } else if i == 27 {
        0x455a14ed
    } else if i == 28 {
        0xa9e3e905
    } else if i == 29 {
        0xfcefa3f8
    } else if i == 30 {
        0x676f02d9
    } else if i == 31 {
        0x8d2a4c8a
    } else if i == 32 {
        0xfffa3942
    } else if i == 33 {
        0x8771f681
    } else if i == 34 {
        0x6d9d6122
    } else if i == 35 {
        0xfde5380c
    } else if i == 36 {
        0xa4beea44
    } else if i == 37 {
        0x4bdecfa9
    } else if i == 38 {
        0xf6bb4b60
    } else if i == 39 {
        0xbebfbc70
    } else if i == 40 {
        0x289b7ec6
    } else if i == 41 {
        0xeaa127fa
    } else if i == 42 {
        0xd4ef3085
    } else if i == 43 {
        0x04881d05
    } else if i == 44 {
        0xd9d4d039
    } else if i == 45 {
        0xe6db99e5
    } else if i == 46 {
        0x1fa27cf8
    } else if i == 47 {
        0xc4ac5665
    } else if i == 48 {
        0xf4292244
    } else if i == 49 {
        0x432aff97
    } else if i == 50 {
        0xab9423a7
    } else if i == 51 {
        0xfc93a039
    } else if i == 52 {
        0x655b59c3
    } else if i == 53 {
        0x8f0ccc92
    } else if i == 54 {
        0xffeff47d
    } else if i == 55 {
        0x85845dd1
    } else if i == 56 {
        0x6fa87e4f
    } else if i == 57 {
        0xfe2ce6e0
    } else if i == 58 {
        0xa3014314
    } else if i == 59 {
        0x4e0811a1
    } else if i == 60 {
        0xf7537e82
    } else if i == 61 {
        0xbd3af235
    } else if i == 62 {
        0x2ad7d2bb
    } else {
        0xeb86d391
    }
}

/// The rotation amount of step `i`.
pub open spec fn shift_at(i: int) -> u32 {
    let r = i % 4;
    if i < 16 {
        if r == 0 { 7 } else if r == 1 { 12 } else if r == 2 { 17 } else { 22 }
    } else if i < 32 {
        if r == 0 { 5 } else if r == 1 { 9 } else if r == 2 { 14 } else { 20 }
    } else if i < 48 {
        if r == 0 { 4 } else if r == 1 { 11 } else if r == 2 { 16 } else { 23 }
    } else {
        if r == 0 { 6 } else if r == 1 { 10 } else if r == 2 { 15 } else { 21 }
    }
}

/// Which of the sixteen message words step `i` consumes.
pub open spec fn word_index(i: int) -> int {
    if i < 16 {
        i
    } else if i < 32 {
        (5 * i + 1) % 16
    } else if i < 48 {
        (3 * i + 5) % 16
    } else {
        (7 * i) % 16
    }
}

/// The nonlinear function of step `i` applied to three chaining words.
pub open spec fn mix(i: int, b: u32, c: u32, d: u32) -> u32 {
    if i < 16 {
        (b & c) | (!b & d)
    } else if i < 32 {
        (d & b) | (!d & c)
    } else if i < 48 {
        b ^ c ^ d
    } else {
        c ^ (b | !d)
    }
}

/// One of the 64 steps of the compression function.
pub open spec fn step(s: Md5State, m: Seq<u32>, i: int) -> Md5State {
    let f = add32(add32(add32(mix(i, s.b, s.c, s.d), s.a), sine_at(i)), m[word_index(i)]);
    Md5State { a: s.d, b: add32(s.b, rotl32(f, shift_at(i))), c: s.b, d: s.c }
}

/// The first `n` steps applied to `s`.
pub open spec fn rounds(s: Md5State, m: Seq<u32>, n: nat) -> Md5State
    decreases n,
{
    if n == 0 {
        s
    } else {
        step(rounds(s, m, (n - 1) as nat), m, n - 1)
    }
}

/// The little-endian 32-bit word at byte offset `4 * j` of `b`.
pub open spec fn le_word(b: Seq<u8>, j: int) -> u32 {
    (b[4 * j] as u32) | ((b[4 * j + 1] as u32) << 8) | ((b[4 * j + 2] as u32) << 16) | ((b[4 * j
        + 3] as u32) << 24)
}

/// The sixteen message words of a 64-byte block.
pub open spec fn block_words(block: Seq<u8>) -> Seq<u32> {
    Seq::new(16, |j: int| le_word(block, j))
}

/// The compression function: 64 steps, then the feed-forward addition.
pub open spec fn compress(s: Md5State, block: Seq<u8>) -> Md5State {
    let r = rounds(s, block_words(block), 64);
    Md5State { a: add32(s.a, r.a), b: add32(s.b, r.b), c: add32(s.c, r.c), d: add32(s.d, r.d) }
}

/// The initial chaining value.
pub open spec fn initial_state() -> Md5State {
    Md5State { a: 0x67452301, b: 0xefcdab89, c: 0x98badcfe, d: 0x10325476 }
}

/// How many zero bytes follow the `0x80` marker for a message of `len` bytes.
pub open spec fn zero_fill(len: nat) -> nat {
    ((119 - (len % 64)) % 64) as nat
}

/// Byte `k` (little-endian) of a 64-bit word.
pub open spec fn byte_of_u64(x: u64, k: int) -> u8 {
    (x >> ((8 * k) as u64)) as u8
}

/// Byte `k` (little-endian) of a 32-bit word.
pub open spec fn byte_of_u32(x: u32, k: int) -> u8 {
    (x >> ((8 * k) as u32)) as u8
}

/// The message length in bits, modulo 2^64.
pub open spec fn bit_length(len: nat) -> u64 {
    ((len as u64) << 3)
}

/// The eight trailing bytes of the padding.
pub open spec fn length_bytes(len: nat) -> Seq<u8> {
    Seq::new(8, |k: int| byte_of_u64(bit_length(len), k))
}

/// The message followed by its padding; a multiple of 64 bytes long.
pub open spec fn padded(msg: Seq<u8>) -> Seq<u8> {
    msg + seq![0x80u8] + Seq::new(zero_fill(msg.len()), |k: int| 0u8) + length_bytes(msg.len())
}

/// The chaining value after the first `n` blocks of `data`.
pub open spec fn absorb(s: Md5State, data: Seq<u8>, n: nat) -> Md5State
    decreases n,
{
    if n == 0 {
        s
    } else {
        compress(absorb(s, data, (n - 1) as nat), data.subrange(64 * (n - 1), (64 * n) as int))
    }
}

/// The sixteen output bytes of a chaining value.
pub open spec fn state_bytes(s: Md5State) -> Seq<u8> {
    Seq::new(
        16,
        |k: int|
            if k < 4 {
                byte_of_u32(s.a, k)
            } else if k < 8 {
                byte_of_u32(s.b, k - 4)
            } else if k < 12 {
                byte_of_u32(s.c, k - 8)
            } else {
                byte_of_u32(s.d, k - 12)
            },
    )
}

/// The MD5 digest of `msg`.
pub open spec fn md5_digest(msg: Seq<u8>) -> Seq<u8> {
    let p = padded(msg);
    state_bytes(absorb(initial_state(), p, p.len() / 64))
}

fn sine(i: usize) -> (r: u32)
    requires
        i < 64,
    ensures
        r == sine_at(i as int),
{
    if i == 0 {
        0xd76aa478
    } else if i == 1 {
        0xe8c7b756
    } else if i == 2 {
        0x242070db
    } else if i == 3 {
        0xc1bdceee
    } else if i == 4 {
        0xf57c0faf
    } else if i == 5 {
        0x4787c62a
    } else if i == 6 {
        0xa8304613
    } else if i == 7 {
        0xfd469501
    } else if i == 8 {
        0x698098d8
    } else if i == 9 {
        0x8b44f7af
    } else if i == 10 {
        0xffff5bb1
    } else if i == 11 {
        0x895cd7be
    } else if i == 12 {
        0x6b901122
    } else if i == 13 {
        0xfd987193
    } else if i == 14 {
        0xa679438e
    } else if i == 15 {
        0x49b40821
    } else if i == 16 {
        0xf61e2562
    } else if i == 17 {
        0xc040b340
    } else if i == 18 {
        0x265e5a51
    } else if i == 19 {
        0xe9b6c7aa
    } else if i == 20 {
        0xd62f105d
    } else if i == 21 {
        0x02441453
    } else if i == 22 {
        0xd8a1e681
    } else if i == 23 {
        0xe7d3fbc8
    } else if i == 24 {
        0x21e1cde6
    } else if i == 25 {
        0xc33707d6
    } else if i == 26 {
        0xf4d50d87
    } else if i == 27 {
        0x455a14ed
    } else if i == 28 {
        0xa9e3e905
    } else if i == 29 {
        0xfcefa3f8
    } else if i == 30 {
        0x676f02d9
    } else if i == 31 {
        0x8d2a4c8a
    } else if i == 32 {
        0xfffa3942
    } else if i == 33 {
        0x8771f681
    } else if i == 34 {
        0x6d9d6122
    } else if i == 35 {
        0xfde5380c
    } else if i == 36 {
        0xa4beea44
    } else if i == 37 {
        0x4bdecfa9
    } else if i == 38 {
        0xf6bb4b60
    } else if i == 39 {
        0xbebfbc70
    } else if i == 40 {
        0x289b7ec6
    } else if i == 41 {
        0xeaa127fa
    } else if i == 42 {
        0xd4ef3085
    } else if i == 43 {
        0x04881d05
    } else if i == 44 {
        0xd9d4d039
    } else if i == 45 {
        0xe6db99e5
    } else if i == 46 {
        0x1fa27cf8
    } else if i == 47 {
        0xc4ac5665
    } else if i == 48 {
        0xf4292244
    } else if i == 49 {
        0x432aff97
    } else if i == 50 {
        0xab9423a7
    } else if i == 51 {
        0xfc93a039
    } else if i == 52 {
        0x655b59c3
    } else if i == 53 {
        0x8f0ccc92
    } else if i == 54 {
        0xffeff47d
    } else if i == 55 {
        0x85845dd1
    } else if i == 56 {
        0x6fa87e4f
    } else if i == 57 {
        0xfe2ce6e0
    } else if i == 58 {
        0xa3014314
    } else if i == 59 {
        0x4e0811a1
    } else if i == 60 {
        0xf7537e82
    } else if i == 61 {
        0xbd3af235
    } else if i == 62 {
        0x2ad7d2bb
    } else {
        0xeb86d391
    }
}

fn shift(i: usize) -> (r: u32)
    requires
        i < 64,
    ensures
        r == shift_at(i as int),
        0 < r < 32,
{
    let r: usize = i % 4;
    if i < 16 {
        if r == 0 { 7 } else if r == 1 { 12 } else if r == 2 { 17 } else { 22 }
    } else if i < 32 {
        if r == 0 { 5 } else if r == 1 { 9 } else if r == 2 { 14 } else { 20 }
    } else if i < 48 {
        if r == 0 { 4 } else if r == 1 { 11 } else if r == 2 { 16 } else { 23 }
    } else {
        if r == 0 { 6 } else if r == 1 { 10 } else if r == 2 { 15 } else { 21 }
    }
}

fn word_of_step(i: usize) -> (r: usize)
    requires
        i < 64,
    ensures
        r == word_index(i as int),
        r < 16,
{
    if i < 16 {
        i
    } else if i < 32 {
        (5 * i + 1) % 16
    } else if i < 48 {
        (3 * i + 5) % 16
    } else {
        (7 * i) % 16
    }
}

fn rotate(x: u32, n: u32) -> (r: u32)
    requires
        0 < n < 32,
    ensures
        r == rotl32(x, n),
{
    (x << n) | (x >> (32 - n))
}

fn step_exec(s: Md5State, m: &Vec<u32>, i: usize) -> (r: Md5State)
    requires
        i < 64,
        m.len() == 16,
    ensures
        r == step(s, m@, i as int),
{
    let g: u32 = if i < 16 {
        (s.b & s.c) | (!s.b & s.d)
    } else if i < 32 {
        (s.d & s.b) | (!s.d & s.c)
    } else if i < 48 {
        s.b ^ s.c ^ s.d
    } else {
        s.c ^ (s.b | !s.d)
    };
    let f: u32 = g.wrapping_add(s.a).wrapping_add(sine(i)).wrapping_add(m[word_of_step(i)]);
    Md5State { a: s.d, b: s.b.wrapping_add(rotate(f, shift(i))), c: s.b, d: s.c }
}

fn load_word(data: &Vec<u8>, off: usize, j: usize) -> (r: u32)
    requires
        j < 16,
        off + 64 <= data.len(),
    ensures
        r == le_word(data@.subrange(off as int, off + 64), j as int),
{
    let p: usize = off + 4 * j;
    (data[p] as u32) | ((data[p + 1] as u32) << 8) | ((data[p + 2] as u32) << 16) | ((data[p
        + 3] as u32) << 24)
}

fn compress_block(s: Md5State, data: &Vec<u8>, off: usize) -> (r: Md5State)
    requires
        off + 64 <= data.len(),
    ensures
        r == compress(s, data@.subrange(off as int, off + 64)),
{
    let ghost block = data@.subrange(off as int, off + 64);
    let mut m: Vec<u32> = Vec::new();
    let mut j: usize = 0;
    while j < 16
        invariant
            j <= 16,
            m.len() == j,
            off + 64 <= data.len(),
            block == data@.subrange(off as int, off + 64),
            forall|t: int| 0 <= t < j ==> m@[t] == le_word(block, t),
        decreases 16 - j,
    {
        let w: u32 = load_word(data, off, j);
        m.push(w);
        j += 1;
    }
    assert(m@ =~= block_words(block));
    let mut st = s;
    let mut i: usize = 0;
    while i < 64
        invariant
            i <= 64,
            m.len() == 16,
            st == rounds(s, m@, i as nat),
        decreases 64 - i,
    {
        st = step_exec(st, &m, i);
        i += 1;
    }
    Md5State {
        a: s.a.wrapping_add(st.a),
        b: s.b.wrapping_add(st.b),
        c: s.c.wrapping_add(st.c),
        d: s.d.wrapping_add(st.d),
    }
}

fn push_word(out: &mut Vec<u8>, x: u32)
    ensures
        final(out)@ == old(out)@ + Seq::new(4, |k: int| byte_of_u32(x, k)),
{
    let ghost before = out@;
    out.push(#[verifier::truncate] (x as u8));
    out.push(#[verifier::truncate] ((x >> 8) as u8));
    out.push(#[verifier::truncate] ((x >> 16) as u8));
    out.push(#[verifier::truncate] ((x >> 24) as u8));
    assert(x >> 0 == x) by (bit_vector);
    assert(out@ =~= before + Seq::new(4, |k: int| byte_of_u32(x, k)));
}

/// Builds the padded message.
fn pad_message(msg: &[u8]) -> (p: Vec<u8>)
    requires
        msg.len() + 72 <= usize::MAX,
    ensures
        p@ == padded(msg@),
        p.len() % 64 == 0,
{
    let n: usize = msg.len();
    let mut p: Vec<u8> = Vec::new();
    let mut i: usize = 0;
    while i < n
        invariant
            i <= n,
            n == msg.len(),
            p@ == msg@.subrange(0, i as int),
        decreases n - i,
    {
        p.push(msg[i]);
        assert(p@ =~= msg@.subrange(0, i + 1));
        i += 1;
    }
    assert(p@ =~= msg@);
    p.push(0x80);
    let z: usize = (119 - (n % 64)) % 64;
    let mut k: usize = 0;
    while k < z
        invariant
            k <= z,
            z < 64,
            n == msg.len(),
            n + 72 <= usize::MAX,
            p@ == msg@ + seq![0x80u8] + Seq::new(k as nat, |t: int| 0u8),
        decreases z - k,
    {
        p.push(0);
        assert(p@ =~= msg@ + seq![0x80u8] + Seq::new((k + 1) as nat, |t: int| 0u8));
        k += 1;
    }
    let bits: u64 = (n as u64) << 3;
    let ghost head = p@;
    let mut b: usize = 0;
    while b < 8
        invariant
            b <= 8,
            bits == bit_length(n as nat),
            p@ == head + Seq::new(b as nat, |t: int| byte_of_u64(bits, t)),
        decreases 8 - b,
    {
        let sh: u64 = (8 * b) as u64;
        p.push(#[verifier::truncate] ((bits >> sh) as u8));
        assert(p@ =~= head + Seq::new((b + 1) as nat, |t: int| byte_of_u64(bits, t)));
        b += 1;
    }
    assert(p@ =~= padded(msg@));
    p
}

/// Computes the MD5 digest of `msg`: sixteen bytes.
pub fn md5(msg: &[u8]) -> (out: Vec<u8>)
    requires
        msg.len() + 72 <= usize::MAX,
    ensures
        out@ == md5_digest(msg@),
        out.len() == 16,
{
    let p = pad_message(msg);
    let blocks: usize = p.len() / 64;
    let mut st = Md5State { a: 0x67452301, b: 0xefcdab89, c: 0x98badcfe, d: 0x10325476 };
    let mut k: usize = 0;
    while k < blocks
        invariant
            k <= blocks,
            blocks == p.len() / 64,
            st == absorb(initial_state(), p@, k as nat),
        decreases blocks - k,
    {
        st = compress_block(st, &p, 64 * k);
        k += 1;
    }
    let mut out: Vec<u8> = Vec::new();
    push_word(&mut out, st.a);
    push_word(&mut out, st.b);
    push_word(&mut out, st.c);
    push_word(&mut out, st.d);
    assert(out@ =~= state_bytes(st));
    out
}

} // verus!
