use vstd::prelude::*;
use crate::segment::{Segment, all_wf};
use crate::elf_input::{RawHeader, PT_LOAD};
use crate::flatten::{total_memsize, flat_image, flat_offset};

verus! {

/// The loadable headers of `hs`, in table order.
pub open spec fn loadable_headers(hs: Seq<RawHeader>) -> Seq<RawHeader>
    decreases hs.len(),
{
    if hs.len() == 0 {
        Seq::empty()
    } else if hs.last().0 == PT_LOAD {
        loadable_headers(hs.drop_last()).push(hs.last())
    } else {
        loadable_headers(hs.drop_last())
    }
}

/// The header's segment is well formed and its file bytes lie inside a file
/// of `data_len` bytes.
pub open spec fn header_fits(data_len: nat, h: RawHeader) -> bool {
    &&& h.3 <= h.4
    &&& h.1 + h.3 <= data_len
}

/// Segment `s` is the one that header `h` describes in the file `data`.
pub open spec fn segment_from(data: Seq<u8>, h: RawHeader, s: Segment) -> bool {
    &&& s.virtual_address == h.2
    &&& s.file_size == h.3
    &&& s.memory_size == h.4
    &&& s.content@ == data.subrange(h.1 as int, h.1 + h.3)
}

/// `segs` are, one for one, the segments that `hs` describe in `data`.
pub open spec fn segments_from_headers(data: Seq<u8>, hs: Seq<RawHeader>, segs: Seq<Segment>) -> bool {
    &&& segs.len() == hs.len()
    &&& forall|i: int| 0 <= i < hs.len() ==> segment_from(data, hs[i], #[trigger] segs[i])
}

/// Sum of the headers' in-memory sizes.
pub open spec fn headers_memsize(hs: Seq<RawHeader>) -> nat
    decreases hs.len(),
{
    if hs.len() == 0 {
        0
    } else {
        headers_memsize(hs.drop_last()) + hs.last().4 as nat
    }
}

/// Two segment sequences agree on every address, size and content byte.
pub open spec fn same_layout(a: Seq<Segment>, b: Seq<Segment>) -> bool {
    &&& a.len() == b.len()
    &&& forall|i: int| 0 <= i < a.len() ==> {
        &&& (#[trigger] a[i]).virtual_address == b[i].virtual_address
        &&& a[i].file_size == b[i].file_size
        &&& a[i].memory_size == b[i].memory_size
        &&& a[i].content@ == b[i].content@
    }
}

/// Segments built from the same headers of the same file agree everywhere.
pub proof fn lemma_segments_same_layout(data: Seq<u8>, hs: Seq<RawHeader>, a: Seq<Segment>, b: Seq<Segment>)
    requires
        segments_from_headers(data, hs, a),
        segments_from_headers(data, hs, b),
    ensures
        same_layout(a, b),
{
    assert forall|i: int| 0 <= i < a.len() implies {
        &&& (#[trigger] a[i]).virtual_address == b[i].virtual_address
        &&& a[i].file_size == b[i].file_size
        &&& a[i].memory_size == b[i].memory_size
        &&& a[i].content@ == b[i].content@
    } by {
        assert(segment_from(data, hs[i], a[i]));
        assert(segment_from(data, hs[i], b[i]));
    }
}

/// The flat image and the offsets depend only on addresses, sizes and content.
pub proof fn lemma_same_layout_image(a: Seq<Segment>, b: Seq<Segment>)
    requires
        same_layout(a, b),
    ensures
        flat_image(a) == flat_image(b),
        total_memsize(a) == total_memsize(b),
        forall|k: int| 0 <= k <= a.len() ==> flat_offset(a, k) == flat_offset(b, k),
    decreases a.len(),
{
    if a.len() > 0 {
        assert(same_layout(a.drop_last(), b.drop_last()));
        lemma_same_layout_image(a.drop_last(), b.drop_last());
        assert(a.last().content@ == b.last().content@);
    }
    assert forall|k: int| 0 <= k <= a.len() implies flat_offset(a, k) == flat_offset(b, k) by {
        if k < a.len() {
            assert(same_layout(a.take(k), b.take(k)));
            lemma_same_layout_image(a.take(k), b.take(k));
        } else {
            assert(a.take(k) =~= a);
            assert(b.take(k) =~= b);
        }
    }
}

/// The segments' total in-memory size is the headers' total.
pub proof fn lemma_total_from_headers(data: Seq<u8>, hs: Seq<RawHeader>, segs: Seq<Segment>)
    requires
        segments_from_headers(data, hs, segs),
    ensures
        total_memsize(segs) == headers_memsize(hs),
    decreases hs.len(),
{
    if hs.len() > 0 {
        assert(segment_from(data, hs.last(), segs.last()));
        let (h0, s0) = (hs.drop_last(), segs.drop_last());
        assert forall|i: int| 0 <= i < h0.len() implies segment_from(data, h0[i], #[trigger] s0[i]) by {
            assert(segment_from(data, hs[i], segs[i]));
        }
        lemma_total_from_headers(data, h0, s0);
    }
}

/// Keeps the loadable program headers, in table order.
pub fn select_loadable(headers: &Vec<RawHeader>) -> (r: Vec<RawHeader>)
    ensures
        r@ == loadable_headers(headers@),
{
    let mut out: Vec<RawHeader> = Vec::new();
    let mut i: usize = 0;
    proof {
        assert(headers@.take(0) =~= Seq::<RawHeader>::empty());
    }
    while i < headers.len()
        invariant
            0 <= i <= headers@.len(),
            out@ == loadable_headers(headers@.take(i as int)),
        decreases headers@.len() - i,
    {
        let h = headers[i];
        proof {
            assert(headers@.take(i + 1).drop_last() =~= headers@.take(i as int));
        }
        if h.0 == PT_LOAD {
            out.push(h);
        }
        i += 1;
    }
    assert(headers@.take(i as int) =~= headers@);
    out
}

/// The `size` bytes of `data` from `offset`, or `None` where they run past
/// its end.
pub fn segment_bytes(data: &[u8], offset: u64, size: u64) -> (r: Option<Vec<u8>>)
    ensures
        r is Some <==> offset + size <= data@.len(),
        r matches Some(v) ==> v@ == data@.subrange(offset as int, offset + size),
{
    if offset as u128 + size as u128 > data.len() as u128 {
        return None;
    }
    let start: usize = offset as usize;
    let end: usize = start + size as usize;
    let mut out: Vec<u8> = Vec::new();
    let mut i: usize = start;
    while i < end
        invariant
            start <= i <= end <= data@.len(),
            out@ == data@.subrange(start as int, i as int),
        decreases end - i,
    {
        out.push(data[i]);
        i += 1;
        proof {
            assert(data@.subrange(start as int, i as int) =~= data@.subrange(start as int, i - 1).push(data@[i - 1]));
        }
    }
    Some(out)
}

/// Reads the segment of each header out of the file `data`, or `None` where
/// a header's on-file size exceeds its in-memory size or its bytes run past
/// the end of the file.
pub fn segments_from(data: &[u8], headers: &Vec<RawHeader>) -> (r: Option<Vec<Segment>>)
    ensures
        r is Some <==> forall|i: int| 0 <= i < headers@.len() ==> header_fits(data@.len(), #[trigger] headers@[i]),
        r matches Some(segs) ==> segments_from_headers(data@, headers@, segs@) && all_wf(segs@),
{
    let mut out: Vec<Segment> = Vec::new();
    let mut i: usize = 0;
    while i < headers.len()
        invariant
            0 <= i <= headers@.len(),
            forall|k: int| 0 <= k < i ==> header_fits(data@.len(), #[trigger] headers@[k]),
            out@.len() == i,
            forall|k: int| 0 <= k < i ==> segment_from(data@, headers@[k], #[trigger] out@[k]),
            all_wf(out@),
        decreases headers@.len() - i,
    {
        let (_, offset, vaddr, filesz, memsz) = headers[i];
        if filesz > memsz {
            return None;
        }
        match segment_bytes(data, offset, filesz) {
            None => {
                return None;
            },
            Some(content) => {
                let seg = Segment { virtual_address: vaddr, file_size: filesz, memory_size: memsz, content };
                out.push(seg);
            },
        }
        i += 1;
        proof {
            assert(header_fits(data@.len(), headers@[i - 1]));
            assert(segment_from(data@, headers@[i - 1], out@[i - 1]));
        }
    }
    Some(out)
}

} // verus!
