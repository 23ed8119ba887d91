use vstd::prelude::*;
use vstd::string::*;
use crate::bytes::{append, prefix_equal, slice_copy};
use crate::descriptor::{DescriptorModel, EncryptionDescriptor};
use crate::md5::{byte_of_u32, md5, md5_digest};
use crate::rc4::{rc4, rc4_apply};
use crate::aes::{aes128_cbc_encrypt, cbc_encrypt};
use crate::sha256::{sha256, sha256_digest};
use crate::sha512::{sha384, sha384_digest, sha512, sha512_digest};

verus! {

/// The 32 bytes with which a short password is filled up.
pub open spec fn password_padding() -> Seq<u8> {
    seq![
        0x28u8, 0xBFu8, 0x4Eu8, 0x5Eu8, 0x4Eu8, 0x75u8, 0x8Au8, 0x41u8,
        0x64u8, 0x00u8, 0x4Eu8, 0x56u8, 0xFFu8, 0xFAu8, 0x01u8, 0x08u8,
        0x2Eu8, 0x2Eu8, 0x00u8, 0xB6u8, 0xD0u8, 0x68u8, 0x3Eu8, 0x80u8,
        0x2Fu8, 0x0Cu8, 0xA9u8, 0xFEu8, 0x64u8, 0x53u8, 0x69u8, 0x7Au8,
    ]
}

/// The password cut to 32 bytes, or filled up to 32 bytes from the start of
/// the padding.
pub open spec fn pad_password(pw: Seq<u8>) -> Seq<u8> {
    (pw + password_padding()).subrange(0, 32)
}

/// The permission flags as an unsigned 32-bit word (two's complement).
pub open spec fn permission_word(p: i32) -> u32 {
    if p >= 0 {
        p as u32
    } else {
        (p + 0x1_0000_0000) as u32
    }
}

/// The four bytes of a 32-bit word, lowest first.
pub open spec fn word_bytes(x: u32) -> Seq<u8> {
    Seq::new(4, |k: int| byte_of_u32(x, k))
}

/// What is hashed first to derive the file key.
pub open spec fn key_seed(d: DescriptorModel, pw: Seq<u8>) -> Seq<u8> {
    pad_password(pw) + d.owner_entry + word_bytes(permission_word(d.permissions)) + d.file_id + (
    if d.revision >= 4 && !d.encrypt_metadata {
        seq![0xFFu8, 0xFFu8, 0xFFu8, 0xFFu8]
    } else {
        Seq::<u8>::empty()
    })
}

/// The length of the file key in bytes.
pub open spec fn key_bytes(d: DescriptorModel) -> int {
    if d.revision == 2 {
        5
    } else {
        d.key_length_bits / 8
    }
}

/// `h` after `times` further rounds, each hashing the first `n` bytes of the
/// digest before it.
pub open spec fn rehash(h: Seq<u8>, n: int, times: nat) -> Seq<u8>
    decreases times,
{
    if times == 0 {
        h
    } else {
        md5_digest(rehash(h, n, (times - 1) as nat).subrange(0, n))
    }
}

/// The file key that a password gives for a descriptor of revision 2 to 4.
pub open spec fn file_key(d: DescriptorModel, pw: Seq<u8>) -> Seq<u8> {
    let h = md5_digest(key_seed(d, pw));
    let n = key_bytes(d);
    if d.revision >= 3 {
        rehash(h, n, 50).subrange(0, n)
    } else {
        h.subrange(0, n)
    }
}

/// `key` with every byte combined with `x` by exclusive or.
pub open spec fn xor_key(key: Seq<u8>, x: u8) -> Seq<u8> {
    Seq::new(key.len(), |k: int| key[k] ^ x)
}

/// `data` enciphered with `key`, then with `key` xor 1, and so on up to
/// `key` xor `n`.
pub open spec fn rc4_chain(key: Seq<u8>, data: Seq<u8>, n: nat) -> Seq<u8>
    decreases n,
{
    if n == 0 {
        rc4_apply(key, data)
    } else {
        rc4_apply(xor_key(key, n as u8), rc4_chain(key, data, (n - 1) as nat))
    }
}

/// The validation value that the user entry of `d` holds if `pw` is the
/// user password.
pub open spec fn expected_user_value(d: DescriptorModel, pw: Seq<u8>) -> Seq<u8> {
    if d.revision == 2 {
        rc4_apply(file_key(d, pw), password_padding())
    } else {
        rc4_chain(file_key(d, pw), md5_digest(password_padding() + d.file_id), 19)
    }
}

/// How many leading bytes of the user entry are compared.
pub open spec fn compared_len(d: DescriptorModel) -> int {
    if d.revision == 2 {
        32
    } else {
        16
    }
}

/// Whether `d` is a descriptor of revision 2 to 4 that can be checked: both
/// entries are 32 bytes long, the file identifier and what is hashed with it
/// fit the machine's address space, and the key length is one the revision
/// allows.
pub open spec fn legacy_checkable(d: DescriptorModel) -> bool {
    &&& d.owner_entry.len() == 32
    &&& d.user_entry.len() == 32
    &&& d.file_id.len() <= usize::MAX - 144
    &&& (d.revision == 2 && d.key_length_bits == 40 || (d.revision == 3 || d.revision == 4) && 40
        <= d.key_length_bits <= 128 && d.key_length_bits % 8 == 0)
}

/// Whether `pw` is the user password of a descriptor of revision 2 to 4.
pub open spec fn legacy_matches(d: DescriptorModel, pw: Seq<u8>) -> bool {
    legacy_checkable(d) && expected_user_value(d, pw).subrange(0, compared_len(d))
        == d.user_entry.subrange(0, compared_len(d))
}

fn padding_bytes() -> (p: Vec<u8>)
    ensures
        p@ == password_padding(),
{
    let p: Vec<u8> = vec![
        0x28u8, 0xBFu8, 0x4Eu8, 0x5Eu8, 0x4Eu8, 0x75u8, 0x8Au8, 0x41u8,
        0x64u8, 0x00u8, 0x4Eu8, 0x56u8, 0xFFu8, 0xFAu8, 0x01u8, 0x08u8,
        0x2Eu8, 0x2Eu8, 0x00u8, 0xB6u8, 0xD0u8, 0x68u8, 0x3Eu8, 0x80u8,
        0x2Fu8, 0x0Cu8, 0xA9u8, 0xFEu8, 0x64u8, 0x53u8, 0x69u8, 0x7Au8,
    ];
    assert(p@ =~= password_padding());
    p
}

fn padded_password(pw: &[u8]) -> (out: Vec<u8>)
    ensures
        out@ == pad_password(pw@),
        out.len() == 32,
{
    let pad = padding_bytes();
    let take: usize = if pw.len() < 32 {
        pw.len()
    } else {
        32
    };
    let mut out = slice_copy(pw, 0, take);
    let rest = slice_copy(pad.as_slice(), 0, 32 - take);
    append(&mut out, rest.as_slice());
    assert(out@ =~= pad_password(pw@));
    out
}

fn permission_bytes(p: i32) -> (out: Vec<u8>)
    ensures
        out@ == word_bytes(permission_word(p)),
{
    let w: u32 = if p >= 0 {
        p as u32
    } else {
        (p as i64 + 0x1_0000_0000i64) as u32
    };
    let mut out: Vec<u8> = Vec::new();
    out.push(#[verifier::truncate] (w as u8));
    out.push(#[verifier::truncate] ((w >> 8) as u8));
    out.push(#[verifier::truncate] ((w >> 16) as u8));
    out.push(#[verifier::truncate] ((w >> 24) as u8));
    assert(w >> 0 == w) by (bit_vector);
    assert(out@ =~= word_bytes(w));
    out
}

fn is_legacy_checkable(desc: &EncryptionDescriptor) -> (ok: bool)
    ensures
        ok == legacy_checkable(desc@),
{
    desc.owner_entry.len() == 32 && desc.user_entry.len() == 32 && desc.file_id.len()
        <= usize::MAX - 144 && (desc.revision == 2 && desc.key_length_bits == 40 || (desc.revision
        == 3 || desc.revision == 4) && 40 <= desc.key_length_bits && desc.key_length_bits <= 128
        && desc.key_length_bits % 8 == 0)
}

fn derive_file_key(desc: &EncryptionDescriptor, pw: &[u8]) -> (key: Vec<u8>)
    requires
        legacy_checkable(desc@),
    ensures
        key@ == file_key(desc@, pw@),
        key.len() == key_bytes(desc@),
        5 <= key.len() <= 16,
{
    let mut seed = padded_password(pw);
    append(&mut seed, desc.owner_entry.as_slice());
    let perm = permission_bytes(desc.permissions);
    append(&mut seed, perm.as_slice());
    append(&mut seed, desc.file_id.as_slice());
    if desc.revision >= 4 && !desc.encrypt_metadata {
        seed.push(0xFF);
        seed.push(0xFF);
        seed.push(0xFF);
        seed.push(0xFF);
    }
    assert(seed@ =~= key_seed(desc@, pw@));
    let n: usize = if desc.revision == 2 {
        5
    } else {
        (desc.key_length_bits / 8) as usize
    };
    let mut h = md5(seed.as_slice());
    if desc.revision >= 3 {
        let ghost first = h@;
        let mut k: usize = 0;
        while k < 50
            invariant
                k <= 50,
                5 <= n <= 16,
                h.len() == 16,
                h@ == rehash(first, n as int, k as nat),
            decreases 50 - k,
        {
            let part = slice_copy(h.as_slice(), 0, n);
            h = md5(part.as_slice());
            k += 1;
        }
    }
    slice_copy(h.as_slice(), 0, n)
}

fn xored(key: &Vec<u8>, x: u8) -> (out: Vec<u8>)
    ensures
        out@ == xor_key(key@, x),
{
    let mut out: Vec<u8> = Vec::new();
    let mut i: usize = 0;
    while i < key.len()
        invariant
            i <= key.len(),
            out.len() == i,
            forall|t: int| 0 <= t < i ==> out@[t] == key@[t] ^ x,
        decreases key.len() - i,
    {
        out.push(key[i] ^ x);
        i += 1;
    }
    assert(out@ =~= xor_key(key@, x));
    out
}

fn user_value(desc: &EncryptionDescriptor, pw: &[u8]) -> (out: Vec<u8>)
    requires
        legacy_checkable(desc@),
    ensures
        out@ == expected_user_value(desc@, pw@),
        out.len() == compared_len(desc@),
{
    let key = derive_file_key(desc, pw);
    let mut text = padding_bytes();
    if desc.revision == 2 {
        rc4(key.as_slice(), text.as_slice())
    } else {
        append(&mut text, desc.file_id.as_slice());
        let h = md5(text.as_slice());
        let ghost start = h@;
        let mut x = rc4(key.as_slice(), h.as_slice());
        let mut i: u8 = 1;
        while i < 20
            invariant
                1 <= i <= 20,
                key.len() > 0,
                x.len() == 16,
                x@ == rc4_chain(key@, start, (i - 1) as nat),
            decreases 20 - i,
        {
            let k = xored(&key, i);
            assert(k.len() == key.len());
            x = rc4(k.as_slice(), x.as_slice());
            i += 1;
        }
        x
    }
}

/// Whether the bytes `pw` are the user password of a descriptor of revision
/// 2 to 4. A descriptor that cannot be checked matches nothing.
pub fn legacy_validate(desc: &EncryptionDescriptor, pw: &[u8]) -> (ok: bool)
    ensures
        ok == legacy_matches(desc@, pw@),
{
    if !is_legacy_checkable(desc) {
        return false;
    }
    let expect = user_value(desc, pw);
    let n: usize = if desc.revision == 2 {
        32
    } else {
        16
    };
    prefix_equal(expect.as_slice(), desc.user_entry.as_slice(), n)
}

/// The longest password, in bytes, that a descriptor of revision 5 or 6 takes.
pub const MAX_SALTED_PASSWORD_LEN: usize = 127;

/// The password as a descriptor of revision 5 or 6 takes it: cut to 127 bytes.
pub open spec fn cut_password(pw: Seq<u8>) -> Seq<u8> {
    if pw.len() > MAX_SALTED_PASSWORD_LEN {
        pw.subrange(0, MAX_SALTED_PASSWORD_LEN as int)
    } else {
        pw
    }
}

/// Whether `d` is a descriptor of revision 5 that can be checked: the key
/// has 256 bits and the user entry holds the 32 bytes of the hash, the 8 of
/// the validation salt and the 8 of the key salt.
pub open spec fn salted_checkable(d: DescriptorModel) -> bool {
    d.revision == 5 && d.key_length_bits == 256 && d.user_entry.len() >= 48
}

/// Whether `pw` is the user password of a descriptor of revision 5: the
/// hash of the password followed by the validation salt is the hash that the
/// user entry starts with.
pub open spec fn salted_matches(d: DescriptorModel, pw: Seq<u8>) -> bool {
    salted_checkable(d) && sha256_digest(cut_password(pw) + d.user_entry.subrange(32, 40))
        == d.user_entry.subrange(0, 32)
}

/// Whether the bytes `pw` are the user password of a descriptor of revision
/// 5. A descriptor that cannot be checked matches nothing.
pub fn salted_validate(desc: &EncryptionDescriptor, pw: &[u8]) -> (ok: bool)
    ensures
        ok == salted_matches(desc@, pw@),
{
    if !(desc.revision == 5 && desc.key_length_bits == 256 && desc.user_entry.len() >= 48) {
        return false;
    }
    let take: usize = if pw.len() > MAX_SALTED_PASSWORD_LEN {
        MAX_SALTED_PASSWORD_LEN
    } else {
        pw.len()
    };
    let mut text = slice_copy(pw, 0, take);
    assert(text@ =~= cut_password(pw@));
    let salt = slice_copy(desc.user_entry.as_slice(), 32, 8);
    append(&mut text, salt.as_slice());
    let h = sha256(text.as_slice());
    let same = prefix_equal(h.as_slice(), desc.user_entry.as_slice(), 32);
    assert(h@.subrange(0, 32) =~= h@);
    same
}

/// `unit` written `n` times in a row.
pub open spec fn repeated(unit: Seq<u8>, n: nat) -> Seq<u8>
    decreases n,
{
    if n == 0 {
        Seq::empty()
    } else {
        repeated(unit, (n - 1) as nat) + unit
    }
}

/// The sum of the first `n` bytes of `s`.
pub open spec fn byte_sum(s: Seq<u8>, n: nat) -> int
    decreases n,
{
    if n == 0 {
        0
    } else {
        byte_sum(s, (n - 1) as nat) + s[n - 1]
    }
}

/// The most rounds the hardened hash can take: from round 287 on the last
/// byte of the cipher text, at most 255, always ends it.
pub const MAX_HARDENED_ROUNDS: usize = 287;

/// One round of the hardened hash on the intermediate value `k`: the
/// password and `k`, 64 times in a row, are encrypted with the first half of
/// `k` as key and the second as initial vector; the first sixteen bytes of
/// the cipher text, as a number modulo 3, pick the hash that gives the next
/// value. The next value, and the last byte of the cipher text.
#[verifier::opaque]
pub open spec fn hardened_round(pw: Seq<u8>, k: Seq<u8>) -> (Seq<u8>, u8) {
    let e = cbc_encrypt(k.subrange(0, 16), k.subrange(16, 32), repeated(pw + k, 64));
    let m = byte_sum(e, 16) % 3;
    (
        if m == 0 {
            sha256_digest(e)
        } else if m == 1 {
            sha384_digest(e)
        } else {
            sha512_digest(e)
        },
        e[e.len() - 1],
    )
}

/// The value the hardened hash ends with, from the intermediate value `k`
/// after `done` rounds: it goes on until at least 64 rounds are done and the
/// last byte of the cipher text is at most the number of rounds less 32.
pub open spec fn hardened_from(pw: Seq<u8>, k: Seq<u8>, done: nat) -> Seq<u8>
    decreases MAX_HARDENED_ROUNDS - done,
{
    if done >= MAX_HARDENED_ROUNDS {
        k
    } else {
        let r = hardened_round(pw, k);
        if done + 1 >= 64 && r.1 <= done + 1 - 32 {
            r.0
        } else {
            hardened_from(pw, r.0, done + 1)
        }
    }
}

/// The hardened hash of a password and a salt: 32 bytes.
pub open spec fn hardened_hash(pw: Seq<u8>, salt: Seq<u8>) -> Seq<u8> {
    hardened_from(pw, sha256_digest(pw + salt), 0).subrange(0, 32)
}

/// Whether `pw` is the user password of a descriptor of revision 6: the
/// key has 256 bits, the user entry holds hash and salts, and the hardened
/// hash of the password, cut to 127 bytes, and the validation salt is the
/// hash that the user entry starts with.
pub open spec fn hardened_matches(d: DescriptorModel, pw: Seq<u8>) -> bool {
    d.revision == 6 && d.key_length_bits == 256 && d.user_entry.len() >= 48 && hardened_hash(
        cut_password(pw),
        d.user_entry.subrange(32, 40),
    ) == d.user_entry.subrange(0, 32)
}

/// `unit` written `n` times is `n` times as long as `unit`.
pub proof fn lemma_repeated_len(unit: Seq<u8>, n: nat)
    ensures
        repeated(unit, n).len() == n * unit.len(),
    decreases n,
{
    let l = unit.len() as int;
    if n == 0 {
        assert(0 * l == 0) by (nonlinear_arith);
    } else {
        lemma_repeated_len(unit, (n - 1) as nat);
        assert((n - 1) * l + l == n * l) by (nonlinear_arith);
    }
}

fn hardened_round_exec(pw: &Vec<u8>, k: &Vec<u8>) -> (r: (Vec<u8>, u8))
    requires
        pw.len() <= MAX_SALTED_PASSWORD_LEN,
        32 <= k.len() <= 64,
    ensures
        (r.0@, r.1) == hardened_round(pw@, k@),
        32 <= r.0.len() <= 64,
{
    reveal(hardened_round);
    let mut unit: Vec<u8> = Vec::new();
    append(&mut unit, pw.as_slice());
    append(&mut unit, k.as_slice());
    assert(unit@ =~= pw@ + k@);
    let mut text: Vec<u8> = Vec::new();
    let mut j: usize = 0;
    while j < 64
        invariant
            j <= 64,
            text@ == repeated(unit@, j as nat),
        decreases 64 - j,
    {
        append(&mut text, unit.as_slice());
        j += 1;
    }
    proof {
        lemma_repeated_len(unit@, 64);
    }
    let key = slice_copy(k.as_slice(), 0, 16);
    let iv = slice_copy(k.as_slice(), 16, 16);
    let e = aes128_cbc_encrypt(key.as_slice(), iv.as_slice(), text.as_slice());
    let mut sum: u32 = 0;
    let mut i: usize = 0;
    while i < 16
        invariant
            i <= 16,
            e.len() >= 16,
            sum == byte_sum(e@, i as nat),
            sum <= 255 * i,
        decreases 16 - i,
    {
        sum = sum + e[i] as u32;
        i += 1;
    }
    let m: u32 = sum % 3;
    let next = if m == 0 {
        sha256(e.as_slice())
    } else if m == 1 {
        sha384(e.as_slice())
    } else {
        sha512(e.as_slice())
    };
    (next, e[e.len() - 1])
}

/// Whether the bytes `pw` are the user password of a descriptor of revision
/// 6. A descriptor that cannot be checked matches nothing.
pub fn hardened_validate(desc: &EncryptionDescriptor, pw: &[u8]) -> (ok: bool)
    ensures
        ok == hardened_matches(desc@, pw@),
{
    if !(desc.revision == 6 && desc.key_length_bits == 256 && desc.user_entry.len() >= 48) {
        return false;
    }
    let take: usize = if pw.len() > MAX_SALTED_PASSWORD_LEN {
        MAX_SALTED_PASSWORD_LEN
    } else {
        pw.len()
    };
    let word = slice_copy(pw, 0, take);
    assert(word@ =~= cut_password(pw@));
    let mut first = slice_copy(pw, 0, take);
    let salt = slice_copy(desc.user_entry.as_slice(), 32, 8);
    append(&mut first, salt.as_slice());
    assert(first@ =~= cut_password(pw@) + desc@.user_entry.subrange(32, 40));
    let mut k = sha256(first.as_slice());
    let ghost start = k@;
    let mut done: usize = 0;
    loop
        invariant_except_break
            done < MAX_HARDENED_ROUNDS,
            hardened_from(word@, start, 0) == hardened_from(word@, k@, done as nat),
        invariant
            word.len() <= MAX_SALTED_PASSWORD_LEN,
            32 <= k.len() <= 64,
        ensures
            k@ == hardened_from(word@, start, 0),
        decreases MAX_HARDENED_ROUNDS - done,
    {
        let r = hardened_round_exec(&word, &k);
        k = r.0;
        done += 1;
        if done >= 64 && r.1 as usize <= done - 32 {
            break;
        }
    }
    prefix_equal(k.as_slice(), desc.user_entry.as_slice(), 32)
}

/// The bytes that stand for a candidate's text when it is checked: its UTF-8
/// encoding.
pub open spec fn candidate_bytes(text: Seq<char>) -> Seq<u8> {
    vstd::utf8::encode_utf8(text)
}

/// Whether the password bytes `pw` unlock the document that `d` describes.
/// A descriptor of a revision or key length that is not handled, or with a
/// corrupt entry, is matched by nothing.
#[verifier::opaque]
pub open spec fn password_matches(d: DescriptorModel, pw: Seq<u8>) -> bool {
    if 2 <= d.revision <= 4 {
        legacy_matches(d, pw)
    } else if d.revision == 5 {
        salted_matches(d, pw)
    } else if d.revision == 6 {
        hardened_matches(d, pw)
    } else {
        false
    }
}

/// Whether the password bytes `pw` unlock the document that `desc` describes.
pub fn validate_bytes(desc: &EncryptionDescriptor, pw: &[u8]) -> (ok: bool)
    ensures
        ok == password_matches(desc@, pw@),
{
    reveal(password_matches);
    if 2 <= desc.revision && desc.revision <= 4 {
        legacy_validate(desc, pw)
    } else if desc.revision == 5 {
        salted_validate(desc, pw)
    } else if desc.revision == 6 {
        hardened_validate(desc, pw)
    } else {
        false
    }
}

/// What the SASLprep profile of stringprep makes of a text: the text with
/// its characters mapped and brought to normal form, or nothing where the
/// text holds what the profile prohibits.
pub uninterp spec fn prepared(text: Seq<char>) -> Option<Seq<char>>;

/// Whether every character of `text` is a printable ASCII character.
pub open spec fn plain_text(text: Seq<char>) -> bool {
    forall|i: int| 0 <= i < text.len() ==> 0x20 <= #[trigger] (text[i] as u32) <= 0x7E
}

/// Calls `stringprep::saslprep`. The result is named, not stated: it
/// depends on the text alone. The one fact stated is that function's first
/// step: a text of ASCII characters without control characters comes back
/// as it is.
#[verifier::external_body]
fn prepare(candidate: &str) -> (r: Option<String>)
    ensures
        match r {
            Some(t) => prepared(candidate@) == Some(t@),
            None => prepared(candidate@) is None,
        },
        plain_text(candidate@) ==> r is Some && r.unwrap()@ == candidate@,
{
    match stringprep::saslprep(candidate) {
        Ok(t) => Some(t.into_owned()),
        Err(_) => None,
    }
}

/// Whether the candidate with the text `text` unlocks the document that `d`
/// describes. For revisions 5 and 6 the text is prepared first, and a text
/// that cannot be prepared matches nothing; for the others the text is
/// taken as it is.
pub open spec fn candidate_matches(d: DescriptorModel, text: Seq<char>) -> bool {
    if d.revision == 5 || d.revision == 6 {
        match prepared(text) {
            Some(t) => password_matches(d, candidate_bytes(t)),
            None => false,
        }
    } else {
        password_matches(d, candidate_bytes(text))
    }
}

/// Whether a candidate unlocks the document, given what preparing its text
/// gave.
pub fn validate_prepared(desc: &EncryptionDescriptor, text: &Option<String>) -> (ok: bool)
    ensures
        ok == match *text {
            Some(t) => password_matches(desc@, candidate_bytes(t@)),
            None => false,
        },
{
    match text {
        Some(t) => validate_bytes(desc, t.as_str().as_bytes()),
        None => false,
    }
}

/// Whether `candidate` unlocks the document that `desc` describes. The
/// answer depends on the descriptor's content and the candidate's text only.
pub fn validate(desc: &EncryptionDescriptor, candidate: &str) -> (ok: bool)
    ensures
        ok == candidate_matches(desc@, candidate@),
{
    if desc.revision == 5 || desc.revision == 6 {
        let text = prepare(candidate);
        validate_prepared(desc, &text)
    } else {
        validate_bytes(desc, candidate.as_bytes())
    }
}

/// Two calls of `validate` on descriptors of equal content and candidates of
/// equal text give the same answer.
pub proof fn lemma_validate_deterministic(
    d1: EncryptionDescriptor,
    d2: EncryptionDescriptor,
    c1: Seq<char>,
    c2: Seq<char>,
)
    requires
        d1@ == d2@,
        c1 == c2,
    ensures
        candidate_matches(d1@, c1) == candidate_matches(d2@, c2),
{
}

} // verus!
