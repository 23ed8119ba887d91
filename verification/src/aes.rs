use vstd::prelude::*;
use crate::bytes::{append, slice_copy};

verus! {

/// The substitution box: the affine image of the inverse in GF(2^8).
pub open spec fn sbox(b: u8) -> u8 {
    match b {
        0 => 0x63,
        1 => 0x7c,
        2 => 0x77,
        3 => 0x7b,
        4 => 0xf2,
        5 => 0x6b,
        6 => 0x6f,
        7 => 0xc5,
        8 => 0x30,
        9 => 0x01,
        10 => 0x67,
        11 => 0x2b,
        12 => 0xfe,
        13 => 0xd7,
        14 => 0xab,
        15 => 0x76,
        16 => 0xca,
        17 => 0x82,
        18 => 0xc9,
        19 => 0x7d,
        20 => 0xfa,
        21 => 0x59,
        22 => 0x47,
        23 => 0xf0,
        24 => 0xad,
        25 => 0xd4,
        26 => 0xa2,
        27 => 0xaf,
        28 => 0x9c,
        29 => 0xa4,
        30 => 0x72,
        31 => 0xc0,
        32 => 0xb7,
        33 => 0xfd,
        34 => 0x93,
        35 => 0x26,
        36 => 0x36,
        37 => 0x3f,
        38 => 0xf7,
        39 => 0xcc,
        40 => 0x34,
        41 => 0xa5,
        42 => 0xe5,
        43 => 0xf1,
        44 => 0x71,
        45 => 0xd8,
        46 => 0x31,
        47 => 0x15,
        48 => 0x04,
        49 => 0xc7,
        50 => 0x23,
        51 => 0xc3,
        52 => 0x18,
        53 => 0x96,
        54 => 0x05,
        55 => 0x9a,
        56 => 0x07,
        57 => 0x12,
        58 => 0x80,
        59 => 0xe2,
        60 => 0xeb,
        61 => 0x27,
        62 => 0xb2,
        63 => 0x75,
        64 => 0x09,
        65 => 0x83,
        66 => 0x2c,
        67 => 0x1a,
        68 => 0x1b,
        69 => 0x6e,
        70 => 0x5a,
        71 => 0xa0,
        72 => 0x52,
        73 => 0x3b,
        74 => 0xd6,
        75 => 0xb3,
        76 => 0x29,
        77 => 0xe3,
        78 => 0x2f,
        79 => 0x84,
        80 => 0x53,
        81 => 0xd1,
        82 => 0x00,
        83 => 0xed,
        84 => 0x20,
        85 => 0xfc,
        86 => 0xb1,
        87 => 0x5b,
        88 => 0x6a,
        89 => 0xcb,
        90 => 0xbe,
        91 => 0x39,
        92 => 0x4a,
        93 => 0x4c,
        94 => 0x58,
        95 => 0xcf,
        96 => 0xd0,
        97 => 0xef,
        98 => 0xaa,
        99 => 0xfb,
        100 => 0x43,
        101 => 0x4d,
        102 => 0x33,
        103 => 0x85,
        104 => 0x45,
        105 => 0xf9,
        106 => 0x02,
        107 => 0x7f,
        108 => 0x50,
        109 => 0x3c,
        110 => 0x9f,
        111 => 0xa8,
        112 => 0x51,
        113 => 0xa3,
        114 => 0x40,
        115 => 0x8f,
        116 => 0x92,
        117 => 0x9d,
        118 => 0x38,
        119 => 0xf5,
        120 => 0xbc,
        121 => 0xb6,
        122 => 0xda,
        123 => 0x21,
        124 => 0x10,
        125 => 0xff,
        126 => 0xf3,
        127 => 0xd2,
        128 => 0xcd,
        129 => 0x0c,
        130 => 0x13,
        131 => 0xec,
        132 => 0x5f,
        133 => 0x97,
        134 => 0x44,
        135 => 0x17,
        136 => 0xc4,
        137 => 0xa7,
        138 => 0x7e,
        139 => 0x3d,
        140 => 0x64,
        141 => 0x5d,
        142 => 0x19,
        143 => 0x73,
        144 => 0x60,
        145 => 0x81,
        146 => 0x4f,
        147 => 0xdc,
        148 => 0x22,
        149 => 0x2a,
        150 => 0x90,
        151 => 0x88,
        152 => 0x46,
        153 => 0xee,
        154 => 0xb8,
        155 => 0x14,
        156 => 0xde,
        157 => 0x5e,
        158 => 0x0b,
        159 => 0xdb,
        160 => 0xe0,
        161 => 0x32,
        162 => 0x3a,
        163 => 0x0a,
        164 => 0x49,
        165 => 0x06,
        166 => 0x24,
        167 => 0x5c,
        168 => 0xc2,
        169 => 0xd3,
        170 => 0xac,
        171 => 0x62,
        172 => 0x91,
        173 => 0x95,
        174 => 0xe4,
        175 => 0x79,
        176 => 0xe7,
        177 => 0xc8,
        178 => 0x37,
        179 => 0x6d,
        180 => 0x8d,
        181 => 0xd5,
        182 => 0x4e,
        183 => 0xa9,
        184 => 0x6c,
        185 => 0x56,
        186 => 0xf4,
        187 => 0xea,
        188 => 0x65,
        189 => 0x7a,
        190 => 0xae,
        191 => 0x08,
        192 => 0xba,
        193 => 0x78,
        194 => 0x25,
        195 => 0x2e,
        196 => 0x1c,
        197 => 0xa6,
        198 => 0xb4,
        199 => 0xc6,
        200 => 0xe8,
        201 => 0xdd,
        202 => 0x74,
        203 => 0x1f,
        204 => 0x4b,
        205 => 0xbd,
        206 => 0x8b,
        207 => 0x8a,
        208 => 0x70,
        209 => 0x3e,
        210 => 0xb5,
        211 => 0x66,
        212 => 0x48,
        213 => 0x03,
        214 => 0xf6,
        215 => 0x0e,
        216 => 0x61,
        217 => 0x35,
        218 => 0x57,
        219 => 0xb9,
        220 => 0x86,
        221 => 0xc1,
        222 => 0x1d,
        223 => 0x9e,
        224 => 0xe1,
        225 => 0xf8,
        226 => 0x98,
        227 => 0x11,
        228 => 0x69,
        229 => 0xd9,
        230 => 0x8e,
        231 => 0x94,
        232 => 0x9b,
        233 => 0x1e,
        234 => 0x87,
        235 => 0xe9,
        236 => 0xce,
        237 => 0x55,
        238 => 0x28,
        239 => 0xdf,
        240 => 0x8c,
        241 => 0xa1,
        242 => 0x89,
        243 => 0x0d,
        244 => 0xbf,
        245 => 0xe6,
        246 => 0x42,
        247 => 0x68,
        248 => 0x41,
        249 => 0x99,
        250 => 0x2d,
        251 => 0x0f,
        252 => 0xb0,
        253 => 0x54,
        254 => 0xbb,
        _ => 0x16,
    }
}

/// Multiplication by `x` in GF(2^8) modulo `x^8 + x^4 + x^3 + x + 1`.
pub open spec fn xtime(b: u8) -> u8 {
    if b & 0x80 != 0 {
        (b << 1) ^ 0x1b
    } else {
        b << 1
    }
}

/// The state with every byte substituted.
pub open spec fn sub_bytes(s: Seq<u8>) -> Seq<u8> {
    Seq::new(16, |i: int| sbox(s[i]))
}

/// The state, held column by column, with row `r` rotated left by `r`.
pub open spec fn shift_rows(s: Seq<u8>) -> Seq<u8> {
    Seq::new(16, |i: int| s[(i + 4 * (i % 4)) % 16])
}

/// Byte `i` of the state after each column was multiplied by the fixed
/// polynomial `3x^3 + x^2 + x + 2`.
pub open spec fn mix_byte(s: Seq<u8>, i: int) -> u8 {
    let c = 4 * (i / 4);
    let r = i % 4;
    xtime(s[c + r]) ^ (xtime(s[c + (r + 1) % 4]) ^ s[c + (r + 1) % 4]) ^ s[c + (r + 2) % 4] ^ s[c
        + (r + 3) % 4]
}

pub open spec fn mix_columns(s: Seq<u8>) -> Seq<u8> {
    Seq::new(16, |i: int| mix_byte(s, i))
}

/// The state combined with round key `round` of the expanded key `rk`.
pub open spec fn add_key(s: Seq<u8>, rk: Seq<u8>, round: int) -> Seq<u8> {
    Seq::new(16, |i: int| s[i] ^ rk[16 * round + i])
}

/// The round constant of round `n`, `1 <= n <= 10`.
pub open spec fn rcon(n: int) -> u8 {
    if n == 1 {
        0x01
    } else if n == 2 {
        0x02
    } else if n == 3 {
        0x04
    } else if n == 4 {
        0x08
    } else if n == 5 {
        0x10
    } else if n == 6 {
        0x20
    } else if n == 7 {
        0x40
    } else if n == 8 {
        0x80
    } else if n == 9 {
        0x1b
    } else {
        0x36
    }
}

/// Byte `i` of the key expanded from the 16-byte `key`.
pub open spec fn round_key_byte(key: Seq<u8>, i: nat) -> u8
    decreases i,
{
    if i < 16 {
        key[i as int]
    } else {
        let j = i % 4;
        let w = i / 4;
        let temp = if w % 4 == 0 {
            sbox(round_key_byte(key, (i - 4 - j + (j + 1) % 4) as nat)) ^ (if j == 0 {
                rcon(w as int / 4)
            } else {
                0u8
            })
        } else {
            round_key_byte(key, (i - 4) as nat)
        };
        round_key_byte(key, (i - 16) as nat) ^ temp
    }
}

/// The eleven round keys of a 16-byte key: 176 bytes.
pub open spec fn expanded_key(key: Seq<u8>) -> Seq<u8> {
    Seq::new(176, |i: int| round_key_byte(key, i as nat))
}

/// The state after the initial key addition and `n` full rounds.
pub open spec fn cipher_rounds(rk: Seq<u8>, block: Seq<u8>, n: nat) -> Seq<u8>
    decreases n,
{
    if n == 0 {
        add_key(block, rk, 0)
    } else {
        add_key(
            mix_columns(shift_rows(sub_bytes(cipher_rounds(rk, block, (n - 1) as nat)))),
            rk,
            n as int,
        )
    }
}

/// The encryption of one 16-byte block under the expanded key `rk`.
pub open spec fn encrypt_block(rk: Seq<u8>, block: Seq<u8>) -> Seq<u8> {
    add_key(shift_rows(sub_bytes(cipher_rounds(rk, block, 9))), rk, 10)
}

pub open spec fn xor16(a: Seq<u8>, b: Seq<u8>) -> Seq<u8> {
    Seq::new(16, |i: int| a[i] ^ b[i])
}

/// Cipher block `k` in cipher block chaining: each plain block is combined
/// with the cipher block before it, the first with `iv`.
pub open spec fn cbc_block(rk: Seq<u8>, iv: Seq<u8>, data: Seq<u8>, k: nat) -> Seq<u8>
    decreases k,
{
    encrypt_block(
        rk,
        xor16(
            data.subrange((16 * k) as int, (16 * k + 16) as int),
            if k == 0 {
                iv
            } else {
                cbc_block(rk, iv, data, (k - 1) as nat)
            },
        ),
    )
}

/// The first `k` cipher blocks, one after the other.
pub open spec fn cbc_prefix(rk: Seq<u8>, iv: Seq<u8>, data: Seq<u8>, k: nat) -> Seq<u8>
    decreases k,
{
    if k == 0 {
        Seq::empty()
    } else {
        cbc_prefix(rk, iv, data, (k - 1) as nat) + cbc_block(rk, iv, data, (k - 1) as nat)
    }
}

/// AES-128 in cipher block chaining mode, without padding, of `data`, whose
/// length is a multiple of 16.
pub open spec fn cbc_encrypt(key: Seq<u8>, iv: Seq<u8>, data: Seq<u8>) -> Seq<u8> {
    cbc_prefix(expanded_key(key), iv, data, data.len() / 16)
}

fn substitute(b: u8) -> (r: u8)
    ensures
        r == sbox(b),
{
    match b {
        0 => 0x63,
        1 => 0x7c,
        2 => 0x77,
        3 => 0x7b,
        4 => 0xf2,
        5 => 0x6b,
        6 => 0x6f,
        7 => 0xc5,
        8 => 0x30,
        9 => 0x01,
        10 => 0x67,
        11 => 0x2b,
        12 => 0xfe,
        13 => 0xd7,
        14 => 0xab,
        15 => 0x76,
        16 => 0xca,
        17 => 0x82,
        18 => 0xc9,
        19 => 0x7d,
        20 => 0xfa,
        21 => 0x59,
        22 => 0x47,
        23 => 0xf0,
        24 => 0xad,
        25 => 0xd4,
        26 => 0xa2,
        27 => 0xaf,
        28 => 0x9c,
        29 => 0xa4,
        30 => 0x72,
        31 => 0xc0,
        32 => 0xb7,
        33 => 0xfd,
        34 => 0x93,
        35 => 0x26,
        36 => 0x36,
        37 => 0x3f,
        38 => 0xf7,
        39 => 0xcc,
        40 => 0x34,
        41 => 0xa5,
        42 => 0xe5,
        43 => 0xf1,
        44 => 0x71,
        45 => 0xd8,
        46 => 0x31,
        47 => 0x15,
        48 => 0x04,
        49 => 0xc7,
        50 => 0x23,
        51 => 0xc3,
        52 => 0x18,
        53 => 0x96,
        54 => 0x05,
        55 => 0x9a,
        56 => 0x07,
        57 => 0x12,
        58 => 0x80,
        59 => 0xe2,
        60 => 0xeb,
        61 => 0x27,
        62 => 0xb2,
        63 => 0x75,
        64 => 0x09,
        65 => 0x83,
        66 => 0x2c,
        67 => 0x1a,
        68 => 0x1b,
        69 => 0x6e,
        70 => 0x5a,
        71 => 0xa0,
        72 => 0x52,
        73 => 0x3b,
        74 => 0xd6,
        75 => 0xb3,
        76 => 0x29,
        77 => 0xe3,
        78 => 0x2f,
        79 => 0x84,
        80 => 0x53,
        81 => 0xd1,
        82 => 0x00,
        83 => 0xed,
        84 => 0x20,
        85 => 0xfc,
        86 => 0xb1,
        87 => 0x5b,
        88 => 0x6a,
        89 => 0xcb,
        90 => 0xbe,
        91 => 0x39,
        92 => 0x4a,
        93 => 0x4c,
        94 => 0x58,
        95 => 0xcf,
        96 => 0xd0,
        97 => 0xef,
        98 => 0xaa,
        99 => 0xfb,
        100 => 0x43,
        101 => 0x4d,
        102 => 0x33,
        103 => 0x85,
        104 => 0x45,
        105 => 0xf9,
        106 => 0x02,
        107 => 0x7f,
        108 => 0x50,
        109 => 0x3c,
        110 => 0x9f,
        111 => 0xa8,
        112 => 0x51,
        113 => 0xa3,
        114 => 0x40,
        115 => 0x8f,
        116 => 0x92,
        117 => 0x9d,
        118 => 0x38,
        119 => 0xf5,
        120 => 0xbc,
        121 => 0xb6,
        122 => 0xda,
        123 => 0x21,
        124 => 0x10,
        125 => 0xff,
        126 => 0xf3,
        127 => 0xd2,
        128 => 0xcd,
        129 => 0x0c,
        130 => 0x13,
        131 => 0xec,
        132 => 0x5f,
        133 => 0x97,
        134 => 0x44,
        135 => 0x17,
        136 => 0xc4,
        137 => 0xa7,
        138 => 0x7e,
        139 => 0x3d,
        140 => 0x64,
        141 => 0x5d,
        142 => 0x19,
        143 => 0x73,
        144 => 0x60,
        145 => 0x81,
        146 => 0x4f,
        147 => 0xdc,
        148 => 0x22,
        149 => 0x2a,
        150 => 0x90,
        151 => 0x88,
        152 => 0x46,
        153 => 0xee,
        154 => 0xb8,
        155 => 0x14,
        156 => 0xde,
        157 => 0x5e,
        158 => 0x0b,
        159 => 0xdb,
        160 => 0xe0,
        161 => 0x32,
        162 => 0x3a,
        163 => 0x0a,
        164 => 0x49,
        165 => 0x06,
        166 => 0x24,
        167 => 0x5c,
        168 => 0xc2,
        169 => 0xd3,
        170 => 0xac,
        171 => 0x62,
        172 => 0x91,
        173 => 0x95,
        174 => 0xe4,
        175 => 0x79,
        176 => 0xe7,
        177 => 0xc8,
        178 => 0x37,
        179 => 0x6d,
        180 => 0x8d,
        181 => 0xd5,
        182 => 0x4e,
        183 => 0xa9,
        184 => 0x6c,
        185 => 0x56,
        186 => 0xf4,
        187 => 0xea,
        188 => 0x65,
        189 => 0x7a,
        190 => 0xae,
        191 => 0x08,
        192 => 0xba,
        193 => 0x78,
        194 => 0x25,
        195 => 0x2e,
        196 => 0x1c,
        197 => 0xa6,
        198 => 0xb4,
        199 => 0xc6,
        200 => 0xe8,
        201 => 0xdd,
        202 => 0x74,
        203 => 0x1f,
        204 => 0x4b,
        205 => 0xbd,
        206 => 0x8b,
        207 => 0x8a,
        208 => 0x70,
        209 => 0x3e,
        210 => 0xb5,
        211 => 0x66,
        212 => 0x48,
        213 => 0x03,
        214 => 0xf6,
        215 => 0x0e,
        216 => 0x61,
        217 => 0x35,
        218 => 0x57,
        219 => 0xb9,
        220 => 0x86,
        221 => 0xc1,
        222 => 0x1d,
        223 => 0x9e,
        224 => 0xe1,
        225 => 0xf8,
        226 => 0x98,
        227 => 0x11,
        228 => 0x69,
        229 => 0xd9,
        230 => 0x8e,
        231 => 0x94,
        232 => 0x9b,
        233 => 0x1e,
        234 => 0x87,
        235 => 0xe9,
        236 => 0xce,
        237 => 0x55,
        238 => 0x28,
        239 => 0xdf,
        240 => 0x8c,
        241 => 0xa1,
        242 => 0x89,
        243 => 0x0d,
        244 => 0xbf,
        245 => 0xe6,
        246 => 0x42,
        247 => 0x68,
        248 => 0x41,
        249 => 0x99,
        250 => 0x2d,
        251 => 0x0f,
        252 => 0xb0,
        253 => 0x54,
        254 => 0xbb,
        _ => 0x16,
    }
}

fn double(b: u8) -> (r: u8)
    ensures
        r == xtime(b),
{
    if b & 0x80 != 0 {
        (b << 1) ^ 0x1b
    } else {
        b << 1
    }
}

fn round_constant(n: usize) -> (r: u8)
    ensures
        r == rcon(n as int),
{
    if n == 1 {
        0x01
    } else if n == 2 {
        0x02
    } else if n == 3 {
        0x04
    } else if n == 4 {
        0x08
    } else if n == 5 {
        0x10
    } else if n == 6 {
        0x20
    } else if n == 7 {
        0x40
    } else if n == 8 {
        0x80
    } else if n == 9 {
        0x1b
    } else {
        0x36
    }
}

fn expand_key(key: &[u8]) -> (rk: Vec<u8>)
    requires
        key.len() == 16,
    ensures
        rk@ == expanded_key(key@),
        rk.len() == 176,
{
    let mut rk: Vec<u8> = Vec::new();
    let mut i: usize = 0;
    while i < 176
        invariant
            i <= 176,
            key.len() == 16,
            rk.len() == i,
            forall|k: int| 0 <= k < i ==> rk@[k] == round_key_byte(key@, k as nat),
        decreases 176 - i,
    {
        let b: u8 = if i < 16 {
            key[i]
        } else {
            let j: usize = i % 4;
            let w: usize = i / 4;
            let temp: u8 = if w % 4 == 0 {
                let t: u8 = substitute(rk[i - 4 - j + (j + 1) % 4]);
                if j == 0 {
                    t ^ round_constant(w / 4)
                } else {
                    t ^ 0
                }
            } else {
                rk[i - 4]
            };
            rk[i - 16] ^ temp
        };
        rk.push(b);
        i += 1;
    }
    assert(rk@ =~= expanded_key(key@));
    rk
}

fn sub_shift(s: &Vec<u8>) -> (t: Vec<u8>)
    requires
        s.len() == 16,
    ensures
        t@ == shift_rows(sub_bytes(s@)),
        t.len() == 16,
{
    let mut t: Vec<u8> = Vec::new();
    let mut i: usize = 0;
    while i < 16
        invariant
            i <= 16,
            s.len() == 16,
            t.len() == i,
            forall|k: int| 0 <= k < i ==> t@[k] == sbox(s@[(k + 4 * (k % 4)) % 16]),
        decreases 16 - i,
    {
        t.push(substitute(s[(i + 4 * (i % 4)) % 16]));
        i += 1;
    }
    assert(t@ =~= shift_rows(sub_bytes(s@)));
    t
}

fn mix(s: &Vec<u8>) -> (t: Vec<u8>)
    requires
        s.len() == 16,
    ensures
        t@ == mix_columns(s@),
        t.len() == 16,
{
    let mut t: Vec<u8> = Vec::new();
    let mut i: usize = 0;
    while i < 16
        invariant
            i <= 16,
            s.len() == 16,
            t.len() == i,
            forall|k: int| 0 <= k < i ==> t@[k] == mix_byte(s@, k),
        decreases 16 - i,
    {
        let c: usize = 4 * (i / 4);
        let r: usize = i % 4;
        let a1: u8 = s[c + (r + 1) % 4];
        t.push(double(s[c + r]) ^ (double(a1) ^ a1) ^ s[c + (r + 2) % 4] ^ s[c + (r + 3) % 4]);
        i += 1;
    }
    assert(t@ =~= mix_columns(s@));
    t
}

fn with_key(s: &Vec<u8>, rk: &Vec<u8>, round: usize) -> (t: Vec<u8>)
    requires
        s.len() == 16,
        rk.len() == 176,
        round <= 10,
    ensures
        t@ == add_key(s@, rk@, round as int),
        t.len() == 16,
{
    let mut t: Vec<u8> = Vec::new();
    let mut i: usize = 0;
    while i < 16
        invariant
            i <= 16,
            s.len() == 16,
            rk.len() == 176,
            round <= 10,
            t.len() == i,
            forall|k: int| 0 <= k < i ==> t@[k] == s@[k] ^ rk@[16 * round + k],
        decreases 16 - i,
    {
        t.push(s[i] ^ rk[16 * round + i]);
        i += 1;
    }
    assert(t@ =~= add_key(s@, rk@, round as int));
    t
}

fn encrypt_one(rk: &Vec<u8>, block: &Vec<u8>) -> (out: Vec<u8>)
    requires
        rk.len() == 176,
        block.len() == 16,
    ensures
        out@ == encrypt_block(rk@, block@),
        out.len() == 16,
{
    let mut s = with_key(block, rk, 0);
    let mut n: usize = 1;
    while n < 10
        invariant
            1 <= n <= 10,
            rk.len() == 176,
            s.len() == 16,
            s@ == cipher_rounds(rk@, block@, (n - 1) as nat),
        decreases 10 - n,
    {
        let t = sub_shift(&s);
        let m = mix(&t);
        s = with_key(&m, rk, n);
        n += 1;
    }
    let t = sub_shift(&s);
    with_key(&t, rk, 10)
}

/// Encrypts `data` with AES-128 in cipher block chaining mode, without
/// padding.
pub fn aes128_cbc_encrypt(key: &[u8], iv: &[u8], data: &[u8]) -> (out: Vec<u8>)
    requires
        key.len() == 16,
        iv.len() == 16,
        data.len() % 16 == 0,
    ensures
        out@ == cbc_encrypt(key@, iv@, data@),
        out.len() == data.len(),
{
    let rk = expand_key(key);
    let blocks: usize = data.len() / 16;
    let mut prev = slice_copy(iv, 0, 16);
    assert(prev@ =~= iv@);
    let mut out: Vec<u8> = Vec::new();
    let mut k: usize = 0;
    while k < blocks
        invariant
            k <= blocks,
            blocks == data.len() / 16,
            data.len() % 16 == 0,
            rk.len() == 176,
            prev.len() == 16,
            out.len() == 16 * k,
            prev@ == if k == 0 {
                iv@
            } else {
                cbc_block(rk@, iv@, data@, (k - 1) as nat)
            },
            out@ == cbc_prefix(rk@, iv@, data@, k as nat),
        decreases blocks - k,
    {
        let mut x: Vec<u8> = Vec::new();
        let mut i: usize = 0;
        while i < 16
            invariant
                i <= 16,
                k < blocks,
                blocks == data.len() / 16,
                prev.len() == 16,
                x.len() == i,
                forall|t: int| 0 <= t < i ==> x@[t] == data@[16 * k + t] ^ prev@[t],
            decreases 16 - i,
        {
            x.push(data[16 * k + i] ^ prev[i]);
            i += 1;
        }
        assert(x@ =~= xor16(data@.subrange(16 * k, 16 * k + 16), prev@));
        let c = encrypt_one(&rk, &x);
        append(&mut out, c.as_slice());
        prev = c;
        k += 1;
    }
    out
}

} // verus!
