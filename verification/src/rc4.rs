use vstd::prelude::*;

verus! {

/// `s` with the entries at `i` and `j` exchanged.
pub open spec fn swapped(s: Seq<u8>, i: int, j: int) -> Seq<u8> {
    s.update(i, s[j]).update(j, s[i])
}

/// The permutation the key schedule starts from.
pub open spec fn identity_perm() -> Seq<u8> {
    Seq::new(256, |k: int| k as u8)
}

/// The permutation and the index `j` after the first `n` steps of the key schedule.
pub open spec fn schedule(key: Seq<u8>, n: nat) -> (Seq<u8>, int)
    decreases n,
{
    if n == 0 {
        (identity_perm(), 0)
    } else {
        let p = schedule(key, (n - 1) as nat);
        let i = n - 1;
        let j = (p.1 + p.0[i] + key[i % (key.len() as int)]) % 256;
        (swapped(p.0, i, j), j)
    }
}

/// The permutation, the two indices and the output after `n` bytes of `data`
/// have been combined with the key stream that starts from `perm`.
pub open spec fn keystream(perm: Seq<u8>, data: Seq<u8>, n: nat) -> (Seq<u8>, int, int, Seq<u8>)
    decreases n,
{
    if n == 0 {
        (perm, 0, 0, Seq::empty())
    } else {
        let p = keystream(perm, data, (n - 1) as nat);
        let i = (p.1 + 1) % 256;
        let j = (p.2 + p.0[i]) % 256;
        let s = swapped(p.0, i, j);
        let k = s[(s[i] + s[j]) % 256];
        (s, i, j, p.3.push(data[n - 1] ^ k))
    }
}

/// RC4 of `data` under `key` (encryption and decryption coincide).
pub open spec fn rc4_apply(key: Seq<u8>, data: Seq<u8>) -> Seq<u8> {
    keystream(schedule(key, 256).0, data, data.len()).3
}

/// Applies RC4 with `key` to `data`.
pub fn rc4(key: &[u8], data: &[u8]) -> (out: Vec<u8>)
    requires
        key.len() > 0,
    ensures
        out@ == rc4_apply(key@, data@),
        out.len() == data.len(),
{
    let mut s: Vec<u8> = Vec::new();
    let mut k: usize = 0;
    while k < 256
        invariant
            k <= 256,
            s.len() == k,
            forall|t: int| 0 <= t < k ==> s@[t] == t as u8,
        decreases 256 - k,
    {
        s.push(k as u8);
        k += 1;
    }
    assert(s@ =~= identity_perm());
    let mut j: usize = 0;
    let mut i: usize = 0;
    while i < 256
        invariant
            i <= 256,
            s.len() == 256,
            j < 256,
            key.len() > 0,
            (s@, j as int) == schedule(key@, i as nat),
        decreases 256 - i,
    {
        j = (j + s[i] as usize + key[i % key.len()] as usize) % 256;
        let t: u8 = s[i];
        let u: u8 = s[j];
        s.set(i, u);
        s.set(j, t);
        i += 1;
    }
    let ghost start = s@;
    let mut out: Vec<u8> = Vec::new();
    let mut a: usize = 0;
    let mut b: usize = 0;
    let mut n: usize = 0;
    while n < data.len()
        invariant
            n <= data.len(),
            s.len() == 256,
            a < 256,
            b < 256,
            out.len() == n,
            (s@, a as int, b as int, out@) == keystream(start, data@, n as nat),
        decreases data.len() - n,
    {
        a = (a + 1) % 256;
        b = (b + s[a] as usize) % 256;
        let t: u8 = s[a];
        let u: u8 = s[b];
        s.set(a, u);
        s.set(b, t);
        let k: u8 = s[(s[a] as usize + s[b] as usize) % 256];
        out.push(data[n] ^ k);
        n += 1;
    }
    out
}

} // verus!
