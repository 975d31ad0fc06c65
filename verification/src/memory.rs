//! The address space of a process, as the list of areas to map into it.
use crate::fs::INodeRef;
use vstd::prelude::*;

verus! {

/// The size of a page in bytes.
pub const PAGE_SIZE: usize = 4096;

/// The start of the page that an address lies in.
pub open spec fn page_floor(addr: int) -> int {
    addr - addr % PAGE_SIZE as int
}

/// The start of the page that an address lies in.
pub fn page_start(addr: usize) -> (r: usize)
    ensures
        r == page_floor(addr as int),
{
    addr - addr % PAGE_SIZE
}

/// What user code may do with the pages of an area.
#[derive(Clone, Copy, Debug, PartialEq, Eq, Structural)]
pub struct MemoryAttr {
    pub user: bool,
    pub readonly: bool,
    pub execute: bool,
}

impl Default for MemoryAttr {
    /// Pages that only the kernel may read and write.
    fn default() -> (r: Self)
        ensures
            r == (MemoryAttr { user: false, readonly: false, execute: false }),
    {
        MemoryAttr { user: false, readonly: false, execute: false }
    }
}

impl MemoryAttr {
    /// The same pages, open to user code.
    pub fn user(self) -> (r: Self)
        ensures
            r == (MemoryAttr { user: true, ..self }),
    {
        MemoryAttr { user: true, ..self }
    }

    /// The same pages, closed to writes.
    pub fn readonly(self) -> (r: Self)
        ensures
            r == (MemoryAttr { readonly: true, ..self }),
    {
        MemoryAttr { readonly: true, ..self }
    }

    /// The same pages, open to execution.
    pub fn execute(self) -> (r: Self)
        ensures
            r == (MemoryAttr { execute: true, ..self }),
    {
        MemoryAttr { execute: true, ..self }
    }
}

/// Where the pages of an area come from.
#[derive(Clone, Copy, Debug)]
pub enum Backing {
    /// From a file: the bytes `file_start..file_end` of `file` stand from `mem_start` on.
    File { file: INodeRef, mem_start: usize, file_start: usize, file_end: usize },
    /// From fresh frames, each at the first access.
    Delay,
    /// From fresh frames, all at once.
    ByFrame,
}

/// A range of addresses that is mapped in one way.
#[derive(Clone, Copy, Debug)]
pub struct MemoryArea {
    pub start: usize,
    pub end: usize,
    pub attr: MemoryAttr,
    pub backing: Backing,
    pub name: &'static str,
}

/// The areas of an address space, in the order in which they are mapped.
#[derive(Debug)]
pub struct MemorySet {
    pub areas: Vec<MemoryArea>,
}

impl MemorySet {
    pub open spec fn view(&self) -> Seq<MemoryArea> {
        self.areas@
    }

    /// An address space with nothing mapped.
    pub fn new() -> (r: Self)
        ensures
            r@ == Seq::<MemoryArea>::empty(),
    {
        MemorySet { areas: Vec::new() }
    }

    /// Maps one more area.
    pub fn push(
        &mut self,
        start: usize,
        end: usize,
        attr: MemoryAttr,
        backing: Backing,
        name: &'static str,
    )
        ensures
            final(self)@ == old(self)@.push(MemoryArea { start, end, attr, backing, name }),
    {
        self.areas.push(MemoryArea { start, end, attr, backing, name });
    }
}

} // verus!
