use vstd::prelude::*;

verus! {

/// Appends every byte of `src` to `dst`.
pub fn append(dst: &mut Vec<u8>, src: &[u8])
    ensures
        final(dst)@ == old(dst)@ + src@,
{
    let ghost before = dst@;
    let mut i: usize = 0;
    while i < src.len()
        invariant
            i <= src.len(),
            dst@ == before + src@.subrange(0, i as int),
        decreases src.len() - i,
    {
        dst.push(src[i]);
        assert(dst@ =~= before + src@.subrange(0, i + 1));
        i += 1;
    }
    assert(dst@ =~= before + src@);
}

/// Copies the `n` bytes of `src` that start at `from`.
pub fn slice_copy(src: &[u8], from: usize, n: usize) -> (out: Vec<u8>)
    requires
        from + n <= src.len(),
    ensures
        out@ == src@.subrange(from as int, from + n),
{
    let mut out: Vec<u8> = Vec::new();
    let mut i: usize = 0;
    while i < n
        invariant
            i <= n,
            from + n <= src.len(),
            out@ == src@.subrange(from as int, from + i),
        decreases n - i,
    {
        out.push(src[from + i]);
        assert(out@ =~= src@.subrange(from as int, from + i + 1));
        i += 1;
    }
    out
}

/// Whether the first `n` bytes of `a` and of `b` agree. Every position is
/// read, whatever the earlier ones gave.
pub fn prefix_equal(a: &[u8], b: &[u8], n: usize) -> (same: bool)
    requires
        n <= a.len(),
        n <= b.len(),
    ensures
        same == (a@.subrange(0, n as int) == b@.subrange(0, n as int)),
{
    let mut same = true;
    let mut i: usize = 0;
    while i < n
        invariant
            i <= n,
            n <= a.len(),
            n <= b.len(),
            same == (a@.subrange(0, i as int) =~= b@.subrange(0, i as int)),
        decreases n - i,
    {
        if a[i] != b[i] {
            same = false;
            assert(a@.subrange(0, i + 1)[i as int] != b@.subrange(0, i + 1)[i as int]);
        } else {
            assert(a@.subrange(0, i as int) =~= a@.subrange(0, i + 1).subrange(0, i as int));
            assert(b@.subrange(0, i as int) =~= b@.subrange(0, i + 1).subrange(0, i as int));
            assert(same ==> a@.subrange(0, i + 1) =~= b@.subrange(0, i + 1));
        }
        i += 1;
    }
    same
}

} // verus!
