use vstd::prelude::*;
use crate::segment::{Segment, all_wf};
use crate::elf_input::{RawHeader, elf_parse, parse_elf};
use crate::flatten::{total_memsize, flat_image, flatten};
use crate::entry::{EntryTarget, first_containing, entry_offset_in, resolve_entry};
use crate::metadata::{metadata_bytes, metadata_text};
use crate::select::{
    loadable_headers, header_fits, segments_from_headers, headers_memsize, select_loadable,
    segments_from, lemma_total_from_headers, lemma_segments_same_layout, lemma_same_layout_image,
};

verus! {

/// Why no flat image could be made.
#[derive(Clone, Copy, Debug, PartialEq, Eq, Structural)]
pub enum ImageError {
    /// The file is not a readable executable image, a loadable segment has
    /// more bytes on file than in memory or runs past the end of the file, or
    /// the segments do not fit in memory together.
    MalformedImage,
    /// No loadable segment holds the entry address.
    UnresolvedEntry { entry_address: u64 },
}

/// The two artifacts for the bootloader and what they were computed from.
pub struct KernelImage {
    /// The loadable segments, in table order.
    pub segments: Vec<Segment>,
    /// The flat memory image.
    pub image: Vec<u8>,
    /// The segment holding the entry address and the entry's flat offset.
    pub entry: EntryTarget,
    /// The image's total in-memory size.
    pub total_size: u64,
    /// The metadata text.
    pub metadata: Vec<u8>,
}

/// The program header table, empty where the image has none.
pub open spec fn header_table(t: Option<Seq<RawHeader>>) -> Seq<RawHeader> {
    match t {
        Some(hs) => hs,
        None => Seq::empty(),
    }
}

/// Every loadable header fits the file and their sizes fit in memory together.
pub open spec fn headers_usable(data_len: nat, hs: Seq<RawHeader>) -> bool {
    &&& forall|i: int| 0 <= i < hs.len() ==> header_fits(data_len, #[trigger] hs[i])
    &&& headers_memsize(hs) <= usize::MAX
}

/// Some loadable header's range holds `e`.
pub open spec fn some_header_contains(hs: Seq<RawHeader>, e: int) -> bool {
    exists|k: int| 0 <= k < hs.len() && #[trigger] hs[k].2 <= e && e < hs[k].2 + hs[k].4
}

/// `r` is the outcome of flattening the executable image `data`.
pub open spec fn build_outcome(data: Seq<u8>, r: Result<KernelImage, ImageError>) -> bool {
    match elf_parse(data) {
        None => r == Err::<KernelImage, ImageError>(ImageError::MalformedImage),
        Some((entry, table)) => {
            let hs = loadable_headers(header_table(table));
            if !headers_usable(data.len(), hs) {
                r == Err::<KernelImage, ImageError>(ImageError::MalformedImage)
            } else if !some_header_contains(hs, entry as int) {
                r == Err::<KernelImage, ImageError>(ImageError::UnresolvedEntry { entry_address: entry })
            } else {
                match r {
                    Ok(img) => {
                        let segs = img.segments@;
                        &&& segments_from_headers(data, hs, segs)
                        &&& all_wf(segs)
                        &&& img.image@ == flat_image(segs)
                        &&& img.total_size == total_memsize(segs)
                        &&& img.total_size == headers_memsize(hs)
                        &&& img.entry.entry_address == entry
                        &&& first_containing(segs, entry as int, img.entry.segment_index as int)
                        &&& img.entry.flat_offset == entry_offset_in(segs, entry as int, img.entry.segment_index as int)
                        &&& img.metadata@ == metadata_bytes(img.entry.flat_offset as nat, img.total_size as nat)
                    },
                    Err(_) => false,
                }
            }
        },
    }
}

/// Adds up the in-memory sizes of `segs`, or `None` where the sum exceeds
/// the address space.
pub fn total_size(segs: &Vec<Segment>) -> (r: Option<u64>)
    ensures
        r is Some <==> total_memsize(segs@) <= usize::MAX,
        r matches Some(t) ==> t == total_memsize(segs@),
{
    let mut sum: u64 = 0;
    let mut i: usize = 0;
    proof {
        assert(segs@.take(0) =~= Seq::<Segment>::empty());
    }
    while i < segs.len()
        invariant
            0 <= i <= segs@.len(),
            sum == total_memsize(segs@.take(i as int)),
            sum <= usize::MAX,
        decreases segs@.len() - i,
    {
        proof {
            crate::flatten::lemma_total_step(segs@, i as int);
            crate::flatten::lemma_total_prefix(segs@, i + 1);
        }
        let m: u64 = segs[i].memory_size;
        if m > usize::MAX as u64 - sum {
            return None;
        }
        sum = sum + m;
        i += 1;
    }
    assert(segs@.take(i as int) =~= segs@);
    Some(sum)
}

/// Flattens the executable image `data`: selects its loadable segments,
/// lays them out one after the other with zero padding, finds the entry
/// offset and writes the metadata text.
pub fn build_image(data: &[u8]) -> (r: Result<KernelImage, ImageError>)
    ensures
        build_outcome(data@, r),
{
    let (entry, table) = match parse_elf(data) {
        Ok(parsed) => parsed,
        Err(_) => {
            return Err(ImageError::MalformedImage);
        },
    };
    let all_headers: Vec<RawHeader> = match table {
        Some(hs) => hs,
        None => Vec::new(),
    };
    proof {
        assert(all_headers@ == header_table(elf_parse(data@).unwrap().1));
    }
    let headers = select_loadable(&all_headers);
    let segments = match segments_from(data, &headers) {
        Some(segs) => segs,
        None => {
            return Err(ImageError::MalformedImage);
        },
    };
    proof {
        lemma_total_from_headers(data@, headers@, segments@);
    }
    let total = match total_size(&segments) {
        Some(t) => t,
        None => {
            return Err(ImageError::MalformedImage);
        },
    };
    let target = match resolve_entry(&segments, entry) {
        Ok(t) => t,
        Err(_) => {
            proof {
                assert forall|k: int| 0 <= k < headers@.len() implies !(#[trigger] headers@[k].2 <= entry
                    && entry < headers@[k].2 + headers@[k].4) by {
                    assert(!segments@[k].contains(entry as int));
                    assert(crate::select::segment_from(data@, headers@[k], segments@[k]));
                }
            }
            return Err(ImageError::UnresolvedEntry { entry_address: entry });
        },
    };
    proof {
        let k = target.segment_index as int;
        assert(segments@[k].contains(entry as int));
        assert(headers@[k].2 <= entry && entry < headers@[k].2 + headers@[k].4);
    }
    let image = flatten(&segments);
    let metadata = metadata_text(target.flat_offset, total);
    Ok(KernelImage { segments, image, entry: target, total_size: total, metadata })
}

/// Flattening is deterministic: two runs on byte-identical input produce
/// byte-identical artifacts, or fail with the same error.
pub proof fn lemma_build_deterministic(
    data1: Seq<u8>,
    data2: Seq<u8>,
    r1: Result<KernelImage, ImageError>,
    r2: Result<KernelImage, ImageError>,
)
    requires
        data1 == data2,
        build_outcome(data1, r1),
        build_outcome(data2, r2),
    ensures
        r1 is Ok <==> r2 is Ok,
        r1 matches Err(e1) ==> r2 == Err::<KernelImage, ImageError>(e1),
        r1 matches Ok(a) ==> r2 matches Ok(b) && a.image@ == b.image@ && a.metadata@ == b.metadata@
            && a.entry == b.entry && a.total_size == b.total_size,
{
    if let (Ok(a), Ok(b)) = (r1, r2) {
        let (entry, table) = elf_parse(data1).unwrap();
        let hs = loadable_headers(header_table(table));
        lemma_segments_same_layout(data1, hs, a.segments@, b.segments@);
        lemma_same_layout_image(a.segments@, b.segments@);
        let (sa, sb) = (a.segments@, b.segments@);
        let (ka, kb) = (a.entry.segment_index as int, b.entry.segment_index as int);
        assert(sa[ka].contains(entry as int) == sb[ka].contains(entry as int));
        assert(sa[kb].contains(entry as int) == sb[kb].contains(entry as int));
        assert(ka == kb);
    }
}

/// An image without loadable segments flattens to nothing, of total size
/// zero (written `0` in the metadata), and its entry address, which no
/// segment can hold, is reported unresolved.
pub proof fn lemma_no_loadable_segments(data: Seq<u8>, r: Result<KernelImage, ImageError>)
    requires
        build_outcome(data, r),
        elf_parse(data) is Some,
        loadable_headers(header_table(elf_parse(data).unwrap().1)).len() == 0,
    ensures
        flat_image(Seq::<Segment>::empty()).len() == 0,
        total_memsize(Seq::<Segment>::empty()) == 0,
        crate::metadata::decimal(0) == seq!['0' as u8],
        r == Err::<KernelImage, ImageError>(ImageError::UnresolvedEntry { entry_address: elf_parse(data).unwrap().0 }),
{
    assert(crate::metadata::decimal(0) =~= seq!['0' as u8]);
    assert(headers_memsize(loadable_headers(header_table(elf_parse(data).unwrap().1))) == 0);
}

} // verus!
