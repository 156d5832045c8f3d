use vstd::prelude::*;
use crate::segment::{Segment, all_wf};

verus! {

/// Sum of the in-memory sizes of `segs`.
pub open spec fn total_memsize(segs: Seq<Segment>) -> nat
    decreases segs.len(),
{
    if segs.len() == 0 {
        0
    } else {
        total_memsize(segs.drop_last()) + segs.last().memory_size as nat
    }
}

/// Where segment `i` starts in the flat image: the in-memory sizes of the
/// segments before it, added up.
pub open spec fn flat_offset(segs: Seq<Segment>, i: int) -> nat {
    total_memsize(segs.take(i))
}

/// A segment as it lies in memory: its file bytes, then zeros up to its
/// in-memory size.
pub open spec fn segment_image(s: Segment) -> Seq<u8> {
    s.content@ + Seq::new((s.memory_size - s.file_size) as nat, |j: int| 0u8)
}

/// The flat image: the segments' memory images one after the other, in order.
pub open spec fn flat_image(segs: Seq<Segment>) -> Seq<u8>
    decreases segs.len(),
{
    if segs.len() == 0 {
        Seq::empty()
    } else {
        flat_image(segs.drop_last()) + segment_image(segs.last())
    }
}

/// The total in-memory size does not shrink when segments are added.
pub proof fn lemma_total_prefix(segs: Seq<Segment>, i: int)
    requires
        0 <= i <= segs.len(),
    ensures
        total_memsize(segs.take(i)) <= total_memsize(segs),
    decreases segs.len(),
{
    if i < segs.len() {
        assert(segs.drop_last().take(i) =~= segs.take(i));
        lemma_total_prefix(segs.drop_last(), i);
    } else {
        assert(segs.take(i) =~= segs);
    }
}

/// Taking one more segment adds its in-memory size.
pub proof fn lemma_total_step(segs: Seq<Segment>, i: int)
    requires
        0 <= i < segs.len(),
    ensures
        total_memsize(segs.take(i + 1)) == total_memsize(segs.take(i)) + segs[i].memory_size,
        flat_image(segs.take(i + 1)) == flat_image(segs.take(i)) + segment_image(segs[i]),
{
    assert(segs.take(i + 1).drop_last() =~= segs.take(i));
}

/// The flat image is exactly as long as the in-memory sizes added up.
pub proof fn lemma_flat_len(segs: Seq<Segment>)
    requires
        all_wf(segs),
    ensures
        flat_image(segs).len() == total_memsize(segs),
    decreases segs.len(),
{
    if segs.len() > 0 {
        assert(segs.last().wf());
        lemma_flat_len(segs.drop_last());
    }
}

/// Each byte of the flat image comes from its segment: inside segment `i`,
/// the byte at `flat_offset(i) + j` is the segment's file byte `j` while
/// `j < file_size`, and zero from there up to `memory_size`.
pub proof fn lemma_flat_bytes(segs: Seq<Segment>, i: int, j: int)
    requires
        all_wf(segs),
        0 <= i < segs.len(),
        0 <= j < segs[i].memory_size,
    ensures
        flat_offset(segs, i) + j < flat_image(segs).len(),
        j < segs[i].file_size ==> flat_image(segs)[flat_offset(segs, i) + j] == segs[i].content@[j],
        segs[i].file_size <= j ==> flat_image(segs)[flat_offset(segs, i) + j] == 0u8,
    decreases segs.len(),
{
    let init = segs.drop_last();
    assert(all_wf(init)) by {
        assert forall|k: int| 0 <= k < init.len() implies #[trigger] init[k].wf() by {
            assert(segs[k].wf());
        }
    }
    lemma_flat_len(init);
    assert(segs[i].wf());
    if i == segs.len() - 1 {
        assert(segs.take(i) =~= init);
    } else {
        assert(init.take(i) =~= segs.take(i));
        lemma_total_step(init, i);
        lemma_total_prefix(init, i + 1);
        lemma_flat_bytes(init, i, j);
    }
}

/// Lays the segments out one after the other: each one's file bytes followed
/// by zeros up to its in-memory size.
pub fn flatten(segs: &Vec<Segment>) -> (r: Vec<u8>)
    requires
        all_wf(segs@),
        total_memsize(segs@) <= usize::MAX,
    ensures
        r@ == flat_image(segs@),
        r@.len() == total_memsize(segs@),
{
    let mut out: Vec<u8> = Vec::new();
    let mut i: usize = 0;
    proof {
        assert(segs@.take(0) =~= Seq::<Segment>::empty());
    }
    while i < segs.len()
        invariant
            0 <= i <= segs@.len(),
            all_wf(segs@),
            total_memsize(segs@) <= usize::MAX,
            out@ == flat_image(segs@.take(i as int)),
            out@.len() == total_memsize(segs@.take(i as int)),
        decreases segs@.len() - i,
    {
        let seg = &segs[i];
        proof {
            assert(seg.wf());
            lemma_total_step(segs@, i as int);
            lemma_total_prefix(segs@, i + 1);
        }
        let ghost before = out@;
        let mut j: usize = 0;
        while j < seg.content.len()
            invariant
                0 <= j <= seg.content@.len(),
                out@ == before + seg.content@.take(j as int),
            decreases seg.content@.len() - j,
        {
            out.push(seg.content[j]);
            j += 1;
            proof {
                assert(seg.content@.take(j as int) =~= seg.content@.take(j - 1).push(seg.content@[j - 1]));
            }
        }
        assert(seg.content@.take(j as int) =~= seg.content@);
        let pad: u64 = seg.memory_size - seg.file_size;
        let mut k: u64 = 0;
        while k < pad
            invariant
                0 <= k <= pad,
                pad == seg.memory_size - seg.file_size,
                out@ == before + seg.content@ + Seq::new(k as nat, |x: int| 0u8),
            decreases pad - k,
        {
            out.push(0u8);
            k += 1;
            proof {
                assert(Seq::new(k as nat, |x: int| 0u8) =~= Seq::new((k - 1) as nat, |x: int| 0u8).push(0u8));
            }
        }
        i += 1;
    }
    assert(segs@.take(i as int) =~= segs@);
    out
}

} // verus!
