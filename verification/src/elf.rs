//! ELF images: what to map where, which interpreter to start, and where the program headers
//! will stand in memory.
use crate::elf_format;
use crate::elf_format::{Flags, Header, ProgramHeader, SegmentType};
use crate::elf_read;
use crate::elf_read::SegmentData;
use crate::fs::INodeRef;
use crate::memory;
use crate::memory::{Backing, MemoryArea, MemoryAttr, MemorySet, PAGE_SIZE};
use vstd::prelude::*;

verus! {

/// The bytes of an image together with the header that they begin with.
#[derive(Debug)]
pub struct ElfFile {
    pub input: Vec<u8>,
    pub header: Header,
}

/// A segment that is to be mapped.
pub open spec fn is_load(row: ProgramHeader) -> bool {
    row.kind == Some(SegmentType::Load)
}

/// A segment that holds the path of an interpreter.
pub open spec fn is_interp(row: ProgramHeader) -> bool {
    row.kind == Some(SegmentType::Interp)
}

/// A segment that holds the program header table.
pub open spec fn is_phdr(row: ProgramHeader) -> bool {
    row.kind == Some(SegmentType::Phdr)
}

/// A segment that is mapped from the first byte of the file on.
pub open spec fn is_file_start(row: ProgramHeader) -> bool {
    is_load(row) && row.offset == 0
}

/// A segment of the given kind, mapped from the first byte of the file on if that is asked.
pub open spec fn is_found(row: ProgramHeader, kind: SegmentType, at_file_start: bool) -> bool {
    row.kind == Some(kind) && (at_file_start ==> row.offset == 0)
}

/// The index of the first row that is `wanted`, or the length of the table where none is.
pub open spec fn first(table: Seq<ProgramHeader>, wanted: spec_fn(ProgramHeader) -> bool) -> int
    decreases table.len(),
{
    if table.len() == 0 || wanted(table[0]) {
        0
    } else {
        1 + first(table.drop_first(), wanted)
    }
}

/// Every row up to and with `last` can be read.
pub open spec fn readable_to(data: Seq<u8>, last: int) -> bool {
    forall|i: int| 0 <= i <= last ==> #[trigger] elf_format::row_readable(data, i)
}

/// The rights that the bits of a segment ask for.
pub open spec fn attr_of(flags: Flags) -> MemoryAttr {
    MemoryAttr { user: true, readonly: flags.0 & 2 != 2, execute: flags.0 & 1 == 1 }
}

/// The address behind the last one of a segment.
pub open spec fn segment_end(row: ProgramHeader) -> int {
    row.virtual_addr as usize + row.mem_size as usize
}

/// The area that a segment is mapped to, `bias` bytes above the address it was built for.
pub open spec fn load_area(
    row: ProgramHeader,
    inode: INodeRef,
    bias: usize,
    name: &'static str,
) -> MemoryArea {
    MemoryArea {
        start: (row.virtual_addr as usize + bias) as usize,
        end: (segment_end(row) + bias) as usize,
        attr: attr_of(row.flags),
        backing: Backing::File {
            file: inode,
            mem_start: (row.virtual_addr as usize + bias) as usize,
            file_start: row.offset as usize,
            file_end: (row.offset as usize + row.file_size as usize) as usize,
        },
        name,
    }
}

/// The areas that the segments of a table are mapped to, in the order of the table.
pub open spec fn load_areas(
    table: Seq<ProgramHeader>,
    inode: INodeRef,
    bias: usize,
    name: &'static str,
) -> Seq<MemoryArea> {
    table.filter(|row: ProgramHeader| is_load(row)).map_values(
        |row: ProgramHeader| load_area(row, inode, bias, name),
    )
}

/// The area is the one of some segment of the table that is to be mapped.
pub open spec fn is_area_of(
    table: Seq<ProgramHeader>,
    inode: INodeRef,
    bias: usize,
    name: &'static str,
    area: MemoryArea,
) -> bool {
    exists|i: int|
        0 <= i < table.len() && is_load(#[trigger] table[i]) && area == load_area(
            table[i],
            inode,
            bias,
            name,
        )
}

/// No address or file position of the segment, `bias` bytes up, is too large for a `usize`.
pub open spec fn segment_fits(row: ProgramHeader, bias: int) -> bool {
    &&& segment_end(row) + bias <= usize::MAX
    &&& row.offset as usize + row.file_size as usize <= usize::MAX
}

/// The same of every segment that is to be mapped.
pub open spec fn segments_fit(table: Seq<ProgramHeader>, bias: int) -> bool {
    forall|i: int|
        0 <= i < table.len() && is_load(#[trigger] table[i]) ==> segment_fits(table[i], bias)
}

/// The largest end of a segment that is to be mapped, and 0 where there is none.
pub open spec fn farthest(table: Seq<ProgramHeader>) -> int
    decreases table.len(),
{
    if table.len() == 0 {
        0
    } else {
        let rest = farthest(table.drop_last());
        if is_load(table.last()) && segment_end(table.last()) > rest {
            segment_end(table.last())
        } else {
            rest
        }
    }
}

/// The first page start above all segments that are to be mapped.
pub open spec fn bias_of(table: Seq<ProgramHeader>) -> int {
    memory::page_floor(farthest(table) + PAGE_SIZE)
}

/// Where the program header table will stand in memory: where its own segment says, else
/// behind the start of the file if that is mapped.
pub open spec fn phdr_vaddr(data: Seq<u8>) -> Option<int> {
    let table = elf_format::program_headers(data);
    let own = first(table, |row: ProgramHeader| is_phdr(row));
    let start = first(table, |row: ProgramHeader| is_file_start(row));
    if own < table.len() {
        Some(table[own].virtual_addr as int)
    } else if start < table.len() {
        Some(table[start].virtual_addr + elf_format::ph_offset(data))
    } else {
        None
    }
}

/// The bytes without the zero bytes at their end.
pub open spec fn strip_nul(bytes: Seq<u8>) -> Seq<u8>
    decreases bytes.len(),
{
    if bytes.len() > 0 && bytes.last() == 0 {
        strip_nul(bytes.drop_last())
    } else {
        bytes
    }
}

/// The index of the segment that holds the path of the interpreter.
pub open spec fn interp_index(data: Seq<u8>) -> int {
    first(elf_format::program_headers(data), |row: ProgramHeader| is_interp(row))
}

/// Either the image names no interpreter, or the bytes of its path lie in the image.
pub open spec fn interp_readable(data: Seq<u8>) -> bool {
    let table = elf_format::program_headers(data);
    interp_index(data) < table.len() ==> elf_format::segment_readable(
        data,
        table[interp_index(data)],
    )
}

/// The bytes of the path of the interpreter.
pub open spec fn interp_bytes(data: Seq<u8>) -> Seq<u8> {
    strip_nul(
        elf_format::segment_bytes(
            data,
            elf_format::program_headers(data)[interp_index(data)],
        ),
    )
}

/// The path of the interpreter, or why there is none.
pub open spec fn interpreter(data: Seq<u8>) -> Result<Seq<char>, Seq<char>> {
    if interp_index(data) == elf_format::program_headers(data).len() {
        Err("no interp header"@)
    } else if vstd::utf8::valid_utf8(interp_bytes(data)) {
        Ok(vstd::utf8::decode_utf8(interp_bytes(data)))
    } else {
        Err("failed to convert to utf8"@)
    }
}

/// An image that can be mapped as a program: its program headers, and the bytes of the path
/// of its interpreter, lie in the part of the file that was read, and its addresses fit.
pub open spec fn program_loadable(data: Seq<u8>) -> bool {
    let table = elf_format::program_headers(data);
    &&& elf_format::table_readable(data)
    &&& segments_fit(table, 0)
    &&& farthest(table) + PAGE_SIZE <= usize::MAX
    &&& phdr_vaddr(data) matches Some(addr) ==> addr <= u64::MAX
    &&& interp_readable(data)
}

/// An image that can be mapped as an interpreter at `bias`.
pub open spec fn interpreter_loadable(data: Seq<u8>, bias: usize) -> bool {
    &&& elf_format::table_readable(data)
    &&& segments_fit(elf_format::program_headers(data), bias as int)
    &&& elf_format::entry_point(data) as usize + bias <= usize::MAX
}

/// `first` is the one index that has what its name says.
pub(crate) proof fn lemma_first(table: Seq<ProgramHeader>, wanted: spec_fn(ProgramHeader) -> bool, i: int)
    requires
        0 <= i <= table.len(),
        forall|j: int| 0 <= j < i ==> !wanted(#[trigger] table[j]),
        i < table.len() ==> wanted(table[i]),
    ensures
        first(table, wanted) == i,
    decreases table.len(),
{
    if i > 0 {
        let rest = table.drop_first();
        assert forall|j: int| 0 <= j < i - 1 implies !wanted(#[trigger] rest[j]) by {
            assert(rest[j] == table[j + 1]);
        }
        if i < table.len() {
            assert(rest[i - 1] == table[i]);
        }
        assert(!wanted(table[0]));
        lemma_first(rest, wanted, i - 1);
    }
}

/// No row before `first` is wanted, and the row there is.
pub open spec fn is_first(table: Seq<ProgramHeader>, wanted: spec_fn(ProgramHeader) -> bool) -> bool {
    &&& 0 <= first(table, wanted) <= table.len()
    &&& forall|j: int| 0 <= j < first(table, wanted) ==> !wanted(#[trigger] table[j])
    &&& first(table, wanted) < table.len() ==> wanted(table[first(table, wanted)])
}

/// `first` is in every table what its name says.
pub(crate) proof fn lemma_first_bounds(table: Seq<ProgramHeader>, wanted: spec_fn(ProgramHeader) -> bool)
    ensures
        is_first(table, wanted),
    decreases table.len(),
{
    if table.len() != 0 && !wanted(table[0]) {
        let rest = table.drop_first();
        lemma_first_bounds(rest, wanted);
        assert forall|j: int| 0 <= j < first(table, wanted) implies !wanted(
            #[trigger] table[j],
        ) by {
            if j > 0 {
                assert(rest[j - 1] == table[j]);
            }
        }
        if first(table, wanted) < table.len() {
            assert(rest[first(rest, wanted)] == table[first(table, wanted)]);
        }
    }
}

/// What the three searches of a table look for, and that each ends within the table.
proof fn lemma_searches(table: Seq<ProgramHeader>)
    ensures
        (|row: ProgramHeader| is_found(row, SegmentType::Interp, false)) == (
        |row: ProgramHeader| is_interp(row)),
        (|row: ProgramHeader| is_found(row, SegmentType::Phdr, false)) == (|row: ProgramHeader|
            is_phdr(row)),
        (|row: ProgramHeader| is_found(row, SegmentType::Load, true)) == (|row: ProgramHeader|
            is_file_start(row)),
        is_first(table, |row: ProgramHeader| is_interp(row)),
        is_first(table, |row: ProgramHeader| is_phdr(row)),
        is_first(table, |row: ProgramHeader| is_file_start(row)),
{
    assert((|row: ProgramHeader| is_found(row, SegmentType::Interp, false)) =~= (
    |row: ProgramHeader| is_interp(row)));
    assert((|row: ProgramHeader| is_found(row, SegmentType::Phdr, false)) =~= (
    |row: ProgramHeader| is_phdr(row)));
    assert((|row: ProgramHeader| is_found(row, SegmentType::Load, true)) =~= (
    |row: ProgramHeader| is_file_start(row)));
    lemma_first_bounds(table, |row: ProgramHeader| is_interp(row));
    lemma_first_bounds(table, |row: ProgramHeader| is_phdr(row));
    lemma_first_bounds(table, |row: ProgramHeader| is_file_start(row));
}

/// What one more row adds to the areas.
pub(crate) proof fn lemma_load_areas_step(
    table: Seq<ProgramHeader>,
    i: int,
    inode: INodeRef,
    bias: usize,
    name: &'static str,
)
    requires
        0 <= i < table.len(),
    ensures
        load_areas(table.take(i + 1), inode, bias, name) == if is_load(table[i]) {
            load_areas(table.take(i), inode, bias, name).push(
                load_area(table[i], inode, bias, name),
            )
        } else {
            load_areas(table.take(i), inode, bias, name)
        },
{
    reveal(Seq::filter);
    assert(table.take(i + 1).drop_last() =~= table.take(i));
    assert(load_areas(table.take(i + 1), inode, bias, name) =~= if is_load(table[i]) {
        load_areas(table.take(i), inode, bias, name).push(load_area(table[i], inode, bias, name))
    } else {
        load_areas(table.take(i), inode, bias, name)
    });
}

/// The interpreter is mapped clear of the program: with the bias that the program's segments
/// give, every area of the interpreter begins behind the end of every area of the program.
pub proof fn law_interpreter_clear_of_program(
    program: Seq<ProgramHeader>,
    program_inode: INodeRef,
    interp: Seq<ProgramHeader>,
    interp_inode: INodeRef,
    i: int,
    j: int,
)
    requires
        segments_fit(program, 0),
        farthest(program) + PAGE_SIZE <= usize::MAX,
        segments_fit(interp, bias_of(program)),
        0 <= i < load_areas(program, program_inode, 0, "elf").len(),
        0 <= j < load_areas(interp, interp_inode, bias_of(program) as usize, "elf-interp").len(),
    ensures
        load_areas(program, program_inode, 0, "elf")[i].end < load_areas(
            interp,
            interp_inode,
            bias_of(program) as usize,
            "elf-interp",
        )[j].start,
{
    let wanted = |row: ProgramHeader| is_load(row);
    lemma_farthest_bounds(program);
    lemma_filter_from(program, wanted, i);
    lemma_filter_from(interp, wanted, j);
}

/// The bias is the start of a page, above the end of every segment that is to be mapped.
pub proof fn law_bias_is_a_page_above_the_program(table: Seq<ProgramHeader>, i: int)
    requires
        0 <= i < table.len(),
        is_load(table[i]),
    ensures
        bias_of(table) % PAGE_SIZE as int == 0,
        segment_end(table[i]) < bias_of(table),
{
    lemma_farthest_bounds(table);
}

/// Only zero bytes are taken off the end of a path, and all of them are.
pub proof fn law_strip_nul_takes_all_trailing_zeros(bytes: Seq<u8>)
    ensures
        strip_nul(bytes).len() <= bytes.len(),
        strip_nul(bytes) == bytes.take(strip_nul(bytes).len() as int),
        forall|i: int| strip_nul(bytes).len() <= i < bytes.len() ==> bytes[i] == 0,
        strip_nul(bytes).len() > 0 ==> strip_nul(bytes).last() != 0,
    decreases bytes.len(),
{
    if bytes.len() > 0 && bytes.last() == 0 {
        let rest = bytes.drop_last();
        law_strip_nul_takes_all_trailing_zeros(rest);
        let kept = strip_nul(bytes).len() as int;
        assert(rest.take(kept) =~= bytes.take(kept));
        assert forall|i: int| kept <= i < bytes.len() implies bytes[i] == 0 by {
            if i < rest.len() {
                assert(rest[i] == bytes[i]);
            }
        }
    } else {
        assert(bytes.take(bytes.len() as int) =~= bytes);
    }
}

/// Where a segment is mapped: at the addresses that it names, moved by the bias, with the
/// rights that its bits ask for, from the bytes of the file that it names; and nothing else
/// is mapped.
pub proof fn law_each_area_is_a_load_segment(
    table: Seq<ProgramHeader>,
    inode: INodeRef,
    bias: usize,
    name: &'static str,
)
    ensures
        forall|i: int|
            0 <= i < table.len() && is_load(#[trigger] table[i]) ==> load_areas(
                table,
                inode,
                bias,
                name,
            ).contains(load_area(table[i], inode, bias, name)),
        forall|j: int|
            0 <= j < load_areas(table, inode, bias, name).len() ==> is_area_of(
                table,
                inode,
                bias,
                name,
                #[trigger] load_areas(table, inode, bias, name)[j],
            ),
{
    let wanted = |row: ProgramHeader| is_load(row);
    let areas = load_areas(table, inode, bias, name);
    broadcast use Seq::lemma_filter_contains;
    assert forall|i: int| 0 <= i < table.len() && is_load(#[trigger] table[i]) implies areas.contains(
        load_area(table[i], inode, bias, name),
    ) by {
        assert(wanted(table[i]));
        assert(table.filter(wanted).contains(table[i]));
        let k = table.filter(wanted).index_of(table[i]);
        assert(areas[k] == load_area(table[i], inode, bias, name));
    }
    assert forall|j: int| 0 <= j < areas.len() implies is_area_of(
        table,
        inode,
        bias,
        name,
        #[trigger] areas[j],
    ) by {
        lemma_filter_from(table, wanted, j);
        let i = choose|i: int|
            0 <= i < table.len() && #[trigger] table[i] == table.filter(wanted)[j] && wanted(
                table[i],
            );
        assert(is_load(table[i]) && areas[j] == load_area(table[i], inode, bias, name));
    }
}

/// What a filter keeps comes from the table.
proof fn lemma_filter_from(
    table: Seq<ProgramHeader>,
    wanted: spec_fn(ProgramHeader) -> bool,
    j: int,
)
    requires
        0 <= j < table.filter(wanted).len(),
    ensures
        exists|i: int|
            0 <= i < table.len() && #[trigger] table[i] == table.filter(wanted)[j] && wanted(
                table[i],
            ),
    decreases table.len(),
{
    reveal(Seq::filter);
    let rest = table.drop_last();
    if j < rest.filter(wanted).len() {
        lemma_filter_from(rest, wanted, j);
        let i = choose|i: int|
            0 <= i < rest.len() && #[trigger] rest[i] == rest.filter(wanted)[j] && wanted(rest[i]);
        assert(table[i] == rest[i]);
    } else {
        assert(table[table.len() - 1] == table.filter(wanted)[j]);
    }
}

/// No segment that is to be mapped ends farther than `farthest`.
pub(crate) proof fn lemma_farthest_bounds(table: Seq<ProgramHeader>)
    ensures
        farthest(table) >= 0,
        forall|i: int|
            0 <= i < table.len() && is_load(#[trigger] table[i]) ==> segment_end(table[i])
                <= farthest(table),
    decreases table.len(),
{
    if table.len() > 0 {
        let rest = table.drop_last();
        lemma_farthest_bounds(rest);
        assert forall|i: int| 0 <= i < table.len() && is_load(#[trigger] table[i]) implies segment_end(
            table[i],
        ) <= farthest(table) by {
            if i < rest.len() {
                assert(rest[i] == table[i]);
            }
        }
    }
}

impl Flags {
    /// The rights that the bits of a segment ask for: user code may read the pages, may write
    /// them only if the segment says so, and may execute them only if it says so.
    pub fn to_attr(&self) -> (r: MemoryAttr)
        ensures
            r == attr_of(*self),
    {
        let mut flags = MemoryAttr::default().user();
        if elf_read::is_execute(self.0) {
            flags = flags.execute();
        }
        if !elf_read::is_write(self.0) {
            flags = flags.readonly();
        }
        flags
    }
}

impl ElfFile {
    /// The header is the one that the bytes begin with.
    pub open spec fn wf(&self) -> bool {
        &&& elf_format::header_error(self.input@) is None
        &&& elf_format::header_readable(self.input@)
        &&& self.header == elf_format::header_of(self.input@)
    }

    /// The program header table.
    pub open spec fn table(&self) -> Seq<ProgramHeader> {
        elf_format::program_headers(self.input@)
    }

    /// Reads the header of an image.
    pub fn new(input: &[u8]) -> (r: Result<ElfFile, &'static str>)
        requires
            elf_format::header_readable(input@),
        ensures
            match r {
                Ok(elf) => elf.wf() && elf.input@ == input@,
                Err(e) => elf_format::header_error(input@) == Some(e@),
            },
    {
        match elf_read::read_header(input) {
            Ok(raw) => {
                let mut bytes: Vec<u8> = Vec::new();
                bytes.extend_from_slice(input);
                assert(bytes@ =~= input@);
                Ok(
                    ElfFile {
                        input: bytes,
                        header: Header {
                            type_: elf_read::object_type(raw.type_),
                            machine: elf_read::read_machine(input),
                            entry_point: raw.entry_point,
                            ph_offset: raw.ph_offset,
                            ph_entry_size: raw.ph_entry_size,
                            ph_count: raw.ph_count,
                        },
                    },
                )
            },
            Err(e) => Err(e),
        }
    }

    /// Reads one row of the program header table, if there is such a row.
    pub fn program_header(&self, index: u16) -> (r: Option<ProgramHeader>)
        requires
            self.wf(),
            elf_format::row_readable(self.input@, index as int),
        ensures
            match r {
                Some(row) => index < self.table().len() && row == self.table()[index as int],
                None => index >= self.table().len(),
            },
    {
        match elf_read::read_segment(self.input.as_slice(), index) {
            Ok(raw) => Some(
                ProgramHeader {
                    kind: elf_read::read_segment_type(self.input.as_slice(), index),
                    flags: Flags(raw.flags),
                    offset: raw.offset,
                    virtual_addr: raw.virtual_addr,
                    file_size: raw.file_size,
                    mem_size: raw.mem_size,
                },
            ),
            Err(_) => None,
        }
    }

    /// The areas that the segments of a program are mapped to, and the first page start above
    /// all of them.
    pub fn make_memory_set(&self, inode: INodeRef) -> (r: (MemorySet, usize))
        requires
            self.wf(),
            elf_format::table_readable(self.input@),
            segments_fit(self.table(), 0),
            farthest(self.table()) + PAGE_SIZE <= usize::MAX,
        ensures
            r.0@ == load_areas(self.table(), inode, 0, "elf"),
            r.1 == bias_of(self.table()),
    {
        let mut ms = MemorySet::new();
        let mut farthest_memory: usize = 0;
        let ghost table = self.table();
        let mut i: u16 = 0;
        proof {
            reveal(Seq::filter);
            assert(ms@ =~= load_areas(table.take(0), inode, 0, "elf"));
        }
        while i < self.header.ph_count
            invariant
                self.wf(),
                table == self.table(),
                elf_format::table_readable(self.input@),
                segments_fit(table, 0),
                i <= self.header.ph_count,
                i <= table.len(),
                ms@ == load_areas(table.take(i as int), inode, 0, "elf"),
                farthest_memory == farthest(table.take(i as int)),
            ensures
                i == table.len(),
            decreases self.header.ph_count - i,
        {
            let row = match self.program_header(i) {
                Some(row) => row,
                None => break,
            };
            proof {
                lemma_load_areas_step(table, i as int, inode, 0, "elf");
                assert(table.take(i + 1).drop_last() =~= table.take(i as int));
                assert(row == table[i as int]);
            }
            if let Some(SegmentType::Load) = row.kind {
                let start = row.virtual_addr as usize;
                let end = row.virtual_addr as usize + row.mem_size as usize;
                ms.push(
                    start,
                    end,
                    row.flags.to_attr(),
                    Backing::File {
                        file: inode,
                        mem_start: start,
                        file_start: row.offset as usize,
                        file_end: row.offset as usize + row.file_size as usize,
                    },
                    "elf",
                );
                if end > farthest_memory {
                    farthest_memory = end;
                }
            }
            i = i + 1;
        }
        assert(table.take(i as int) =~= table);
        (ms, memory::page_start(farthest_memory + PAGE_SIZE))
    }

    /// Maps the segments of an interpreter too, each `bias` bytes above the address it was
    /// built for.
    pub fn append_as_interpreter(&self, inode: INodeRef, ms: &mut MemorySet, bias: usize)
        requires
            self.wf(),
            elf_format::table_readable(self.input@),
            segments_fit(self.table(), bias as int),
        ensures
            final(ms)@ == old(ms)@ + load_areas(self.table(), inode, bias, "elf-interp"),
    {
        let ghost table = self.table();
        let ghost before = ms@;
        let mut i: u16 = 0;
        proof {
            reveal(Seq::filter);
            assert(ms@ =~= before + load_areas(table.take(0), inode, bias, "elf-interp"));
        }
        while i < self.header.ph_count
            invariant
                self.wf(),
                table == self.table(),
                elf_format::table_readable(self.input@),
                segments_fit(table, bias as int),
                i <= self.header.ph_count,
                i <= table.len(),
                ms@ == before + load_areas(table.take(i as int), inode, bias, "elf-interp"),
            ensures
                i == table.len(),
            decreases self.header.ph_count - i,
        {
            let row = match self.program_header(i) {
                Some(row) => row,
                None => break,
            };
            proof {
                lemma_load_areas_step(table, i as int, inode, bias, "elf-interp");
                assert(row == table[i as int]);
            }
            if let Some(SegmentType::Load) = row.kind {
                let start = row.virtual_addr as usize + bias;
                let end = row.virtual_addr as usize + row.mem_size as usize + bias;
                ms.push(
                    start,
                    end,
                    row.flags.to_attr(),
                    Backing::File {
                        file: inode,
                        mem_start: start,
                        file_start: row.offset as usize,
                        file_end: row.offset as usize + row.file_size as usize,
                    },
                    "elf-interp",
                );
            }
            i = i + 1;
            assert(ms@ =~= before + load_areas(table.take(i as int), inode, bias, "elf-interp"));
        }
        assert(table.take(i as int) =~= table);
    }

    /// The index of the first row of the given kind, or the length of the table where there
    /// is none. With `at_file_start`, only rows that begin with the first byte of the file
    /// count.
    fn find(&self, kind: SegmentType, at_file_start: bool) -> (r: u16)
        requires
            self.wf(),
            readable_to(
                self.input@,
                first(self.table(), |row: ProgramHeader| is_found(row, kind, at_file_start)),
            ),
        ensures
            r == first(self.table(), |row: ProgramHeader| is_found(row, kind, at_file_start)),
    {
        let ghost wanted = |row: ProgramHeader| is_found(row, kind, at_file_start);
        let mut i: u16 = 0;
        proof {
            lemma_first_bounds(self.table(), wanted);
        }
        while i < self.header.ph_count
            invariant
                self.wf(),
                wanted == (|row: ProgramHeader| is_found(row, kind, at_file_start)),
                readable_to(self.input@, first(self.table(), wanted)),
                0 <= first(self.table(), wanted) <= self.table().len(),
                first(self.table(), wanted) < self.table().len() ==> wanted(
                    self.table()[first(self.table(), wanted)],
                ),
                i <= self.header.ph_count,
                i <= self.table().len(),
                forall|j: int| 0 <= j < i ==> !wanted(#[trigger] self.table()[j]),
            ensures
                i <= self.table().len(),
                forall|j: int| 0 <= j < i ==> !wanted(#[trigger] self.table()[j]),
                i < self.table().len() ==> wanted(self.table()[i as int]),
            decreases self.header.ph_count - i,
        {
            match self.program_header(i) {
                Some(row) => {
                    if let Some(found) = row.kind {
                        if found == kind && (!at_file_start || row.offset == 0) {
                            break;
                        }
                    }
                },
                None => break,
            }
            i = i + 1;
        }
        proof {
            lemma_first(self.table(), wanted, i as int);
        }
        i
    }

    /// The path of the interpreter that is to load this program, if it names one.
    pub fn get_interpreter(&self) -> (r: Result<String, &'static str>)
        requires
            self.wf(),
            readable_to(self.input@, interp_index(self.input@)),
            interp_readable(self.input@),
        ensures
            match r {
                Ok(path) => interpreter(self.input@) == Ok::<Seq<char>, Seq<char>>(path@),
                Err(e) => interpreter(self.input@) == Err::<Seq<char>, Seq<char>>(e@),
            },
    {
        proof {
            lemma_searches(self.table());
        }
        let index = self.find(SegmentType::Interp, false);
        if self.program_header(index).is_none() {
            return Err("no interp header");
        }
        let mut data = match elf_read::read_segment_data(self.input.as_slice(), index) {
            Ok(SegmentData::Undefined(data)) => data,
            Ok(_) => return Err("no interp header"),
            Err(e) => return Err(e),
        };
        // skip NULL
        while data.len() > 0 && data[data.len() - 1] == 0
            invariant
                strip_nul(data@) == interp_bytes(self.input@),
            decreases data.len(),
        {
            let ghost longer = data@;
            data.pop();
            assert(data@ =~= longer.drop_last());
        }
        match elf_read::utf8_text(data.as_slice()) {
            Some(path) => {
                proof {
                    vstd::utf8::encode_utf8_decode_utf8(path@);
                }
                Ok(path)
            },
            None => Err("failed to convert to utf8"),
        }
    }

    /// The address that the program header table will have once the program is mapped, if it
    /// will have one.
    pub fn get_phdr_vaddr(&self) -> (r: Option<u64>)
        requires
            self.wf(),
            readable_to(
                self.input@,
                first(self.table(), |row: ProgramHeader| is_phdr(row)),
            ),
            phdr_vaddr(self.input@) matches Some(addr) ==> addr <= u64::MAX,
        ensures
            match r {
                Some(addr) => phdr_vaddr(self.input@) == Some(addr as int),
                None => phdr_vaddr(self.input@) is None,
            },
    {
        proof {
            lemma_searches(self.table());
        }
        let own = self.find(SegmentType::Phdr, false);
        if let Some(phdr) = self.program_header(own) {
            // if phdr exists in program header, use it
            Some(phdr.virtual_addr)
        } else {
            // otherwise, check if elf is loaded from the beginning, then phdr can be inferred
            let start = self.find(SegmentType::Load, true);
            match self.program_header(start) {
                Some(elf_addr) => Some(elf_addr.virtual_addr + self.header.ph_offset),
                None => None,
            }
        }
    }

    /// Whether every program header can be read.
    fn rows_readable(&self) -> (r: bool)
        requires
            self.wf(),
        ensures
            r == elf_format::table_readable(self.input@),
    {
        if self.header.ph_offset == 0 || self.header.ph_entry_size == 0 {
            return true;
        }
        let len = self.input.len() as u64;
        let wide = self.input[4] == 2;
        let size = self.header.ph_entry_size as u64;
        let least: u64 = if wide { 56 } else { 32 };
        let align: u64 = if wide { 8 } else { 4 };
        let mut start = self.header.ph_offset;
        let mut i: u16 = 0;
        while i < self.header.ph_count
            invariant
                self.wf(),
                self.header.ph_offset > 0,
                self.header.ph_entry_size > 0,
                len == self.input@.len(),
                wide == elf_format::is_64(self.input@),
                size == self.header.ph_entry_size,
                least == if wide { 56int } else { 32int },
                align == if wide { 8int } else { 4int },
                i <= self.header.ph_count,
                start == elf_format::row_start(self.input@, i as int),
                forall|j: int| 0 <= j < i ==> #[trigger] elf_format::row_readable(self.input@, j),
            decreases self.header.ph_count - i,
        {
            if size < least || start > len || size > len - start || start % align != 0 {
                assert(!elf_format::row_readable(self.input@, i as int));
                return false;
            }
            assert((i + 1) * size == i * size + size) by (nonlinear_arith);
            start = start + size;
            i = i + 1;
        }
        true
    }

    /// The largest end of a segment that is to be mapped, where all of them fit `bias` bytes
    /// up.
    fn extent(&self, bias: usize) -> (r: Option<usize>)
        requires
            self.wf(),
            elf_format::table_readable(self.input@),
        ensures
            r is Some <==> segments_fit(self.table(), bias as int),
            r matches Some(end) ==> end == farthest(self.table()),
    {
        let ghost table = self.table();
        let mut farthest_memory: usize = 0;
        let mut i: u16 = 0;
        while i < self.header.ph_count
            invariant
                self.wf(),
                table == self.table(),
                elf_format::table_readable(self.input@),
                i <= self.header.ph_count,
                i <= table.len(),
                forall|j: int|
                    0 <= j < i && is_load(#[trigger] table[j]) ==> segment_fits(
                        table[j],
                        bias as int,
                    ),
                farthest_memory == farthest(table.take(i as int)),
            ensures
                i == table.len(),
            decreases self.header.ph_count - i,
        {
            let row = match self.program_header(i) {
                Some(row) => row,
                None => break,
            };
            proof {
                assert(table.take(i + 1).drop_last() =~= table.take(i as int));
                assert(row == table[i as int]);
            }
            if let Some(SegmentType::Load) = row.kind {
                let end = match (row.virtual_addr as usize).checked_add(row.mem_size as usize) {
                    Some(end) => end,
                    None => return None,
                };
                if end.checked_add(bias).is_none() {
                    return None;
                }
                if (row.offset as usize).checked_add(row.file_size as usize).is_none() {
                    return None;
                }
                if end > farthest_memory {
                    farthest_memory = end;
                }
            }
            i = i + 1;
        }
        assert(table.take(i as int) =~= table);
        Some(farthest_memory)
    }

    /// Whether the address of the program header table fits.
    fn phdr_fits(&self) -> (r: bool)
        requires
            self.wf(),
            elf_format::table_readable(self.input@),
        ensures
            r == (phdr_vaddr(self.input@) matches Some(addr) ==> addr <= u64::MAX),
    {
        proof {
            lemma_searches(self.table());
        }
        let own = self.find(SegmentType::Phdr, false);
        if self.program_header(own).is_some() {
            return true;
        }
        let start = self.find(SegmentType::Load, true);
        match self.program_header(start) {
            Some(row) => row.virtual_addr.checked_add(self.header.ph_offset).is_some(),
            None => true,
        }
    }

    /// Whether the path of the interpreter, if there is one, lies in the image.
    fn interp_in_reach(&self) -> (r: bool)
        requires
            self.wf(),
            elf_format::table_readable(self.input@),
        ensures
            r == interp_readable(self.input@),
    {
        proof {
            lemma_searches(self.table());
        }
        let len = self.input.len() as u64;
        let index = self.find(SegmentType::Interp, false);
        match self.program_header(index) {
            Some(row) => match row.offset.checked_add(row.file_size) {
                Some(end) => end <= len && (self.input[4] == 2 || end <= u32::MAX as u64),
                None => false,
            },
            None => true,
        }
    }

    /// Whether the image can be mapped as a program.
    pub fn is_loadable_program(&self) -> (r: bool)
        requires
            self.wf(),
        ensures
            r == program_loadable(self.input@),
    {
        if !self.rows_readable() {
            return false;
        }
        match self.extent(0) {
            Some(end) => end <= usize::MAX - PAGE_SIZE && self.phdr_fits()
                && self.interp_in_reach(),
            None => false,
        }
    }

    /// Whether the image can be mapped as an interpreter at `bias`.
    pub fn is_loadable_interpreter(&self, bias: usize) -> (r: bool)
        requires
            self.wf(),
        ensures
            r == interpreter_loadable(self.input@, bias),
    {
        self.rows_readable() && self.extent(bias).is_some() && (self.header.entry_point as usize)
            .checked_add(bias).is_some()
    }
}

} // verus!
