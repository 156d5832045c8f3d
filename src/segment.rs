use vstd::prelude::*;

verus! {

/// One loadable segment of an executable image.
///
/// The bytes past `file_size` up to `memory_size` are not stored in the file:
/// they are zero when the segment is loaded.
pub struct Segment {
    pub virtual_address: u64,
    pub file_size: u64,
    pub memory_size: u64,
    pub content: Vec<u8>,
}

impl Segment {
    /// The segment holds exactly its on-file bytes, and its in-memory size
    /// covers them.
    pub open spec fn wf(&self) -> bool {
        &&& self.file_size <= self.memory_size
        &&& self.content@.len() == self.file_size
    }

    /// The entry address `e` lies in `[virtual_address, virtual_address + memory_size)`.
    pub open spec fn contains(&self, e: int) -> bool {
        self.virtual_address <= e < self.virtual_address + self.memory_size
    }

    /// Builds a segment from its addresses and file content.
    pub fn new(virtual_address: u64, memory_size: u64, content: Vec<u8>) -> (r: Segment)
        requires
            content@.len() <= memory_size,
        ensures
            r.virtual_address == virtual_address,
            r.memory_size == memory_size,
            r.file_size == content@.len(),
            r.content@ == content@,
            r.wf(),
    {
        let file_size = content.len() as u64;
        Segment { virtual_address, file_size, memory_size, content }
    }
}

/// Every segment of `segs` is well formed.
pub open spec fn all_wf(segs: Seq<Segment>) -> bool {
    forall|i: int| 0 <= i < segs.len() ==> #[trigger] segs[i].wf()
}

} // verus!
