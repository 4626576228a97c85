//! Bulk writes over a slot buffer: fill, copy from another buffer, and
//! copy within one buffer when the two ranges may overlap.
use vstd::prelude::*;

verus! {

/// `s` with `vals` written from index `start` on.
pub open spec fn overwrite<A>(s: Seq<A>, start: int, vals: Seq<A>) -> Seq<A> {
    Seq::new(
        s.len(),
        |i: int|
            if start <= i < start + vals.len() {
                vals[i - start]
            } else {
                s[i]
            },
    )
}

/// `n` copies of `v`.
pub open spec fn repeat<A>(v: A, n: nat) -> Seq<A> {
    Seq::new(n, |i: int| v)
}

/// Writes `x` into slots `start..end`.
pub fn fill_slots<T: Copy>(v: &mut Vec<T>, start: usize, end: usize, x: T)
    requires
        start <= end <= old(v)@.len(),
    ensures
        final(v)@ == overwrite(old(v)@, start as int, repeat(x, (end - start) as nat)),
{
    let ghost s0 = v@;
    let mut i: usize = start;
    while i < end
        invariant
            start <= i <= end <= s0.len(),
            v@.len() == s0.len(),
            v@ =~= overwrite(s0, start as int, repeat(x, (i - start) as nat)),
        decreases end - i,
    {
        v.set(i, x);
        i = i + 1;
    }
}

/// Copies `len` slots of `src` from `src_start` into `dst` from `dst_start`.
pub fn copy_slots<T: Copy>(dst: &mut Vec<T>, src: &[T], dst_start: usize, src_start: usize, len: usize)
    requires
        dst_start + len <= old(dst)@.len(),
        src_start + len <= src@.len(),
    ensures
        final(dst)@ == overwrite(
            old(dst)@,
            dst_start as int,
            src@.subrange(src_start as int, src_start + len),
        ),
{
    let ghost d0 = dst@;
    proof {
        assert(dst@.len() == dst.len());
        assert(src@.len() == src.len());
    }
    let mut k: usize = 0;
    while k < len
        invariant
            k <= len,
            dst_start + len <= d0.len(),
            src_start + len <= src@.len(),
            dst@.len() == d0.len(),
            d0.len() <= usize::MAX,
            src@.len() <= usize::MAX,
            dst@ =~= overwrite(d0, dst_start as int, src@.subrange(src_start as int, src_start + k)),
        decreases len - k,
    {
        let x = src[src_start + k];
        dst.set(dst_start + k, x);
        k = k + 1;
    }
}

/// Copies `len` slots from `src` to `dst` within one buffer, with the
/// result of copying through a temporary buffer: forward when the
/// destination comes first, backward otherwise.
pub fn copy_slots_within<T: Copy>(v: &mut Vec<T>, dst: usize, src: usize, len: usize)
    requires
        dst + len <= old(v)@.len(),
        src + len <= old(v)@.len(),
    ensures
        final(v)@ == overwrite(old(v)@, dst as int, old(v)@.subrange(src as int, src + len)),
{
    let ghost s0 = v@;
    proof {
        assert(v@.len() == v.len());
    }
    if dst <= src {
        let mut k: usize = 0;
        while k < len
            invariant
                dst <= src,
                k <= len,
                dst + len <= s0.len(),
                src + len <= s0.len(),
                v@.len() == s0.len(),
                s0.len() <= usize::MAX,
                v@ =~= overwrite(s0, dst as int, s0.subrange(src as int, src + k)),
            decreases len - k,
        {
            let x = v[src + k];
            v.set(dst + k, x);
            k = k + 1;
        }
        assert(v@ =~= overwrite(s0, dst as int, s0.subrange(src as int, src + len)));
    } else {
        let mut k: usize = len;
        while k > 0
            invariant
                src < dst,
                k <= len,
                dst + len <= s0.len(),
                src + len <= s0.len(),
                v@.len() == s0.len(),
                s0.len() <= usize::MAX,
                v@ =~= Seq::new(
                    s0.len(),
                    |i: int|
                        if dst + k <= i < dst + len {
                            s0[i - dst + src]
                        } else {
                            s0[i]
                        },
                ),
            decreases k,
        {
            let x = v[src + k - 1];
            v.set(dst + k - 1, x);
            k = k - 1;
        }
        assert(v@ =~= overwrite(s0, dst as int, s0.subrange(src as int, src + len)));
    }
}

} // verus!
