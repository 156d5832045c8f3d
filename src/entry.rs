use vstd::prelude::*;
use crate::segment::Segment;
use crate::flatten::{total_memsize, flat_offset, lemma_total_step, lemma_total_prefix};

verus! {

/// Where the entry address was found: the segment that holds it and the
/// matching offset in the flat image.
#[derive(Clone, Copy, Debug, PartialEq, Eq, Structural)]
pub struct EntryTarget {
    pub segment_index: usize,
    pub entry_address: u64,
    pub flat_offset: u64,
}

/// No loadable segment holds the entry address.
#[derive(Clone, Copy, Debug, PartialEq, Eq, Structural)]
pub struct UnresolvedEntry {
    pub entry_address: u64,
}

/// Segment `k` is the first, in table order, that holds `e`.
pub open spec fn first_containing(segs: Seq<Segment>, e: int, k: int) -> bool {
    &&& 0 <= k < segs.len()
    &&& segs[k].contains(e)
    &&& forall|j: int| 0 <= j < k ==> !(#[trigger] segs[j].contains(e))
}

/// The offset in the flat image of address `e` inside segment `k`.
pub open spec fn entry_offset_in(segs: Seq<Segment>, e: int, k: int) -> int {
    e - segs[k].virtual_address + flat_offset(segs, k)
}

/// The virtual-address ranges of the segments do not overlap.
pub open spec fn ranges_disjoint(segs: Seq<Segment>) -> bool {
    forall|a: int, b: int, x: int|
        0 <= a < segs.len() && 0 <= b < segs.len() && #[trigger] segs[a].contains(x)
            && #[trigger] segs[b].contains(x) ==> a == b
}

/// Finds the first segment whose range `[virtual_address, virtual_address +
/// memory_size)` holds `entry`, and the entry's offset in the flat image.
pub fn resolve_entry(segs: &Vec<Segment>, entry: u64) -> (r: Result<EntryTarget, UnresolvedEntry>)
    requires
        total_memsize(segs@) <= u64::MAX,
    ensures
        r is Err <==> forall|k: int| 0 <= k < segs@.len() ==> !(#[trigger] segs@[k].contains(entry as int)),
        r matches Err(u) ==> u.entry_address == entry,
        r matches Ok(t) ==> {
            &&& t.entry_address == entry
            &&& first_containing(segs@, entry as int, t.segment_index as int)
            &&& t.flat_offset == entry_offset_in(segs@, entry as int, t.segment_index as int)
        },
{
    let mut offset: u64 = 0;
    let mut i: usize = 0;
    proof {
        assert(segs@.take(0) =~= Seq::<Segment>::empty());
    }
    while i < segs.len()
        invariant
            0 <= i <= segs@.len(),
            total_memsize(segs@) <= u64::MAX,
            offset == flat_offset(segs@, i as int),
            forall|j: int| 0 <= j < i ==> !(#[trigger] segs@[j].contains(entry as int)),
        decreases segs@.len() - i,
    {
        let seg = &segs[i];
        proof {
            lemma_total_step(segs@, i as int);
            lemma_total_prefix(segs@, i + 1);
        }
        if seg.virtual_address <= entry && entry - seg.virtual_address < seg.memory_size {
            let within: u64 = entry - seg.virtual_address;
            assert(segs@[i as int].contains(entry as int));
            return Ok(EntryTarget { segment_index: i, entry_address: entry, flat_offset: within + offset });
        }
        offset = offset + seg.memory_size;
        i += 1;
    }
    Err(UnresolvedEntry { entry_address: entry })
}

/// Where the segments' ranges do not overlap, at most one segment holds the
/// entry address, so the segment found first is the only one.
pub proof fn lemma_entry_unique(segs: Seq<Segment>, e: int, k: int)
    requires
        ranges_disjoint(segs),
        first_containing(segs, e, k),
    ensures
        forall|j: int| 0 <= j < segs.len() && #[trigger] segs[j].contains(e) ==> j == k,
{
}

} // verus!
