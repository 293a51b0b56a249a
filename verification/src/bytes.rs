//! Small byte-buffer helpers used by the framing code.

use vstd::prelude::*;

verus! {

/// Appends every byte of `src` to `out`, in order.
pub fn append_bytes(out: &mut Vec<u8>, src: &[u8])
    ensures
        final(out)@ == old(out)@ + src@,
{
    let n = src.len();
    let mut i: usize = 0;
    while i < n
        invariant
            n == src@.len(),
            i <= n,
            out@ == old(out)@ + src@.take(i as int),
        decreases n - i,
    {
        out.push(src[i]);
        proof {
            assert(src@.take(i as int).push(src@[i as int]) =~= src@.take(i + 1));
        }
        i = i + 1;
    }
    proof {
        assert(src@.take(n as int) =~= src@);
    }
}

/// Copies the bytes `src[from..]` into a fresh vector.
pub fn copy_suffix(src: &[u8], from: usize) -> (out: Vec<u8>)
    requires
        from <= src@.len(),
    ensures
        out@ == src@.skip(from as int),
{
    let mut out: Vec<u8> = Vec::new();
    let n = src.len();
    let mut i: usize = from;
    while i < n
        invariant
            n == src@.len(),
            from <= i <= n,
            out@ == src@.subrange(from as int, i as int),
        decreases n - i,
    {
        out.push(src[i]);
        proof {
            assert(src@.subrange(from as int, i as int).push(src@[i as int]) =~= src@.subrange(
                from as int,
                i + 1,
            ));
        }
        i = i + 1;
    }
    proof {
        assert(src@.subrange(from as int, n as int) =~= src@.skip(from as int));
    }
    out
}

/// Copies the bytes `src[from..to]` into a fresh vector.
pub fn copy_range(src: &[u8], from: usize, to: usize) -> (out: Vec<u8>)
    requires
        from <= to <= src@.len(),
    ensures
        out@ == src@.subrange(from as int, to as int),
{
    let mut out: Vec<u8> = Vec::new();
    let mut i: usize = from;
    while i < to
        invariant
            to <= src@.len(),
            from <= i <= to,
            out@ == src@.subrange(from as int, i as int),
        decreases to - i,
    {
        out.push(src[i]);
        proof {
            assert(src@.subrange(from as int, i as int).push(src@[i as int]) =~= src@.subrange(
                from as int,
                i + 1,
            ));
        }
        i = i + 1;
    }
    out
}

} // verus!
