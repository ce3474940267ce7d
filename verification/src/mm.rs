//! The decisions of the backend that maps shared pages: which page goes
//! to which address, which address is unmapped next, and what follows from
//! the answers of the page table.

use vstd::prelude::*;

verus! {

/// The size of a page, in bytes.
pub const PAGE_SIZE_4K: usize = 0x1000;

/// A memory mapping backend.
#[derive(Debug)]
pub enum Backend {
    /// Pages that several address spaces share. The frames belong to all
    /// of them and go back to the allocator with the last one.
    Shared { pages: Vec<usize> },
}

/// What the backend asks of the page table next while it maps.
#[derive(Clone, Copy, Debug, PartialEq, Eq, Structural)]
pub enum MapStep {
    /// Map the frame at the address.
    MapPage { addr: usize, frame: usize },
    /// Nothing more: the mapping is complete, or it failed.
    Finished(bool),
}

/// What the page table answers to an unmapping, where a page was mapped.
#[derive(Clone, Copy, Debug, PartialEq, Eq, Structural)]
pub struct Unmapped {
    /// The frame that was mapped.
    pub frame: usize,
    /// Whether the page was larger than 4 KiB.
    pub huge: bool,
}

/// What the backend does with the answer to an unmapping.
#[derive(Clone, Copy, Debug, PartialEq, Eq, Structural)]
pub enum UnmapStep {
    /// The page was not mapped: go on with the next.
    Skip,
    /// Flush the address, and give the frame back where one is named.
    Flush { dealloc: Option<usize> },
    /// A huge page: give up.
    Abort,
}

/// The address of page `i` of a mapping that begins at `start`.
pub open spec fn page_addr(start: usize, i: int) -> int {
    start + i * PAGE_SIZE_4K
}

impl Backend {
    /// The frames of the backend.
    pub open spec fn pages(self) -> Seq<usize> {
        match self {
            Backend::Shared { pages } => pages@,
        }
    }

    /// Makes a shared backend of `page_num` pages from the frames of
    /// `source`, which must be that many.
    pub fn new_shared(page_num: usize, source: Vec<usize>) -> (backend: Backend)
        requires
            source@.len() == page_num,
        ensures
            backend.pages() == source@,
    {
        Backend::Shared { pages: source }
    }

    /// Decides the next step of mapping `pages` from `start` on, when
    /// `done` of them are mapped and the last request went as `last_ok`
    /// says: stop with failure after a failure, stop with success after
    /// the last page, and otherwise map the next frame at its address.
    pub fn map_shared(start: usize, pages: &Vec<usize>, done: usize, last_ok: bool) -> (step:
        MapStep)
        requires
            done <= pages@.len(),
            page_addr(start, pages@.len() as int) <= usize::MAX,
        ensures
            step == if !last_ok {
                MapStep::Finished(false)
            } else if done == pages@.len() {
                MapStep::Finished(true)
            } else {
                MapStep::MapPage {
                    addr: page_addr(start, done as int) as usize,
                    frame: pages@[done as int],
                }
            },
    {
        if !last_ok {
            return MapStep::Finished(false);
        }
        if done == pages.len() {
            return MapStep::Finished(true);
        }
        assert(done * PAGE_SIZE_4K <= pages@.len() * PAGE_SIZE_4K) by (nonlinear_arith)
            requires
                done <= pages@.len(),
        ;
        MapStep::MapPage { addr: start + done * PAGE_SIZE_4K, frame: pages[done] }
    }

    /// The address to unmap next while a mapping of `page_num` pages from
    /// `start` on is taken down and `done` of them are dealt with: that of
    /// page `done`, or `None` after the last page.
    pub fn unmap_next(start: usize, page_num: usize, done: usize) -> (addr: Option<usize>)
        requires
            page_addr(start, page_num as int) <= usize::MAX,
        ensures
            addr == if done < page_num {
                Some(page_addr(start, done as int) as usize)
            } else {
                None
            },
    {
        if done >= page_num {
            return None;
        }
        assert(done * PAGE_SIZE_4K <= page_num * PAGE_SIZE_4K) by (nonlinear_arith)
            requires
                done <= page_num,
        ;
        Some(start + done * PAGE_SIZE_4K)
    }

    /// Decides what follows from the answer to one unmapping:
    /// `should_dealloc` says whether this address space is the last that
    /// shares the frames.
    pub fn unmap_shared(should_dealloc: bool, answer: Option<Unmapped>) -> (step: UnmapStep)
        ensures
            step == match answer {
                None => UnmapStep::Skip,
                Some(unmapped) => if unmapped.huge {
                    UnmapStep::Abort
                } else {
                    UnmapStep::Flush {
                        dealloc: if should_dealloc {
                            Some(unmapped.frame)
                        } else {
                            None
                        },
                    }
                },
            },
    {
        match answer {
            None => UnmapStep::Skip,
            Some(unmapped) => {
                if unmapped.huge {
                    return UnmapStep::Abort;
                }
                if should_dealloc {
                    UnmapStep::Flush { dealloc: Some(unmapped.frame) }
                } else {
                    UnmapStep::Flush { dealloc: None }
                }
            },
        }
    }
}

} // verus!
