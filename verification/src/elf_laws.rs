//! What holds of reading and mapping ELF images, said of the bytes of the image and of the
//! areas that come out.
use crate::elf;
use crate::elf::ElfFile;
use crate::elf_format;
use crate::elf_format::{Flags, Machine, ObjectType, ProgramHeader, SegmentType};
use crate::fs::INodeRef;
use crate::memory::{Backing, MemoryAttr, MemorySet};
use vstd::prelude::*;

verus! {

/// Numbers stand in an image with their least significant byte first.
pub proof fn law_numbers_are_little_endian(data: Seq<u8>, at: int)
    ensures
        elf_format::le(data, at, 2) == data[at] + 0x100 * data[at + 1],
        elf_format::le(data, at, 4) == data[at] + 0x100 * data[at + 1] + 0x1_0000 * data[at + 2]
            + 0x100_0000 * data[at + 3],
        elf_format::le(data, at, 8) == data[at] + 0x100 * data[at + 1] + 0x1_0000 * data[at + 2]
            + 0x100_0000 * data[at + 3] + 0x1_0000_0000 * data[at + 4] + 0x100_0000_0000 * data[at
            + 5] + 0x1_0000_0000_0000 * data[at + 6] + 0x100_0000_0000_0000 * data[at + 7],
{
    reveal_with_fuel(elf_format::le, 9);
}

/// A file is taken as an image exactly where it is long enough, begins with the magic number
/// and has a known class; otherwise the first of these that is missing is named.
pub proof fn law_image_begins_with_magic(input: &[u8], r: Result<ElfFile, &'static str>)
    requires
        call_ensures(ElfFile::new, (input,), r),
    ensures
        ({
            let d = input@;
            let magic = d[0] == 0x7f && d[1] == 0x45 && d[2] == 0x4c && d[3] == 0x46;
            let class = d[4] == 1 || d[4] == 2;
            &&& d.len() < 16 ==> (r matches Err(e) && e@
                == "File is shorter than the first ELF header part"@)
            &&& d.len() >= 16 && !magic ==> (r matches Err(e) && e@
                == "Did not find ELF magic number"@)
            &&& d.len() >= 16 && magic && !class ==> (r matches Err(e) && e@
                == "Invalid ELF class"@)
            &&& d.len() >= 16 && magic && class ==> (r matches Ok(elf) && elf.input@ == d)
        }),
{
}


/// The header of an image is what stands in its bytes: kind and machine as numbers of two
/// bytes at 16 and 18, the rest at the places that its class gives them.
pub proof fn law_header_stands_in_the_image(input: &[u8], r: Result<ElfFile, &'static str>)
    requires
        call_ensures(ElfFile::new, (input,), r),
        r is Ok,
    ensures
        ({
            let d = input@;
            let h = (r->Ok_0).header;
            let kind = elf_format::le(d, 16, 2);
            let machine = elf_format::le(d, 18, 2);
            &&& d[4] == 2 ==> {
                &&& h.entry_point == elf_format::le(d, 24, 8)
                &&& h.ph_offset == elf_format::le(d, 32, 8)
                &&& h.ph_entry_size == elf_format::le(d, 54, 2)
                &&& h.ph_count == elf_format::le(d, 56, 2)
            }
            &&& d[4] != 2 ==> {
                &&& h.entry_point == elf_format::le(d, 24, 4)
                &&& h.ph_offset == elf_format::le(d, 28, 4)
                &&& h.ph_entry_size == elf_format::le(d, 42, 2)
                &&& h.ph_count == elf_format::le(d, 44, 2)
            }
            &&& h.type_ == ObjectType::NoType <==> kind == 0
            &&& h.type_ == ObjectType::Relocatable <==> kind == 1
            &&& h.type_ == ObjectType::Executable <==> kind == 2
            &&& h.type_ == ObjectType::SharedObject <==> kind == 3
            &&& h.type_ == ObjectType::Core <==> kind == 4
            &&& kind > 4 ==> h.type_ == ObjectType::ProcessorSpecific(kind as u16)
            &&& h.machine == Machine::NoMachine <==> machine == 0
            &&& h.machine == Machine::Sparc <==> machine == 2
            &&& h.machine == Machine::X86 <==> machine == 3
            &&& h.machine == Machine::Mips <==> machine == 8
            &&& h.machine == Machine::PowerPc <==> machine == 20
            &&& h.machine == Machine::Arm <==> machine == 40
            &&& h.machine == Machine::SuperH <==> machine == 42
            &&& h.machine == Machine::Ia64 <==> machine == 50
            &&& h.machine == Machine::X86_64 <==> machine == 62
            &&& h.machine == Machine::AArch64 <==> machine == 183
            &&& h.machine == Machine::Bpf <==> machine == 247
            &&& h.machine matches Machine::Other(n) ==> machine == n
            &&& machine == 243 ==> h.machine == Machine::Other(243)
        }),
{
    let d = input@;
    law_numbers_are_little_endian(d, 16);
    law_numbers_are_little_endian(d, 18);
    law_numbers_are_little_endian(d, 24);
    law_numbers_are_little_endian(d, 28);
    law_numbers_are_little_endian(d, 32);
    law_numbers_are_little_endian(d, 42);
    law_numbers_are_little_endian(d, 44);
    law_numbers_are_little_endian(d, 54);
    law_numbers_are_little_endian(d, 56);
}

/// The program header table has as many rows as the header says, if it has a place and a
/// width, and each row is what stands in its bytes.
pub proof fn law_rows_stand_in_the_image(data: Seq<u8>, i: int)
    ensures
        ({
            let wide = data[4] == 2;
            let offset = if wide { elf_format::le(data, 32, 8) } else { elf_format::le(data, 28, 4) };
            let size = if wide { elf_format::le(data, 54, 2) } else { elf_format::le(data, 42, 2) };
            let count = if wide { elf_format::le(data, 56, 2) } else { elf_format::le(data, 44, 2) };
            let at = offset + i * size;
            let kind = elf_format::le(data, at, 4);
            let rows = elf_format::program_headers(data);
            &&& offset > 0 && size > 0 ==> rows.len() == count
            &&& offset == 0 || size == 0 ==> rows.len() == 0
            &&& 0 <= i < rows.len() ==> {
                &&& rows[i].kind == Some(SegmentType::Null) <==> kind == 0
                &&& rows[i].kind == Some(SegmentType::Load) <==> kind == 1
                &&& rows[i].kind == Some(SegmentType::Dynamic) <==> kind == 2
                &&& rows[i].kind == Some(SegmentType::Note) <==> kind == 4
                &&& rows[i].kind == Some(SegmentType::ShLib) <==> kind == 5
                &&& rows[i].kind == Some(SegmentType::Tls) <==> kind == 7
                &&& rows[i].kind == Some(SegmentType::GnuRelro) <==> kind == 0x6474e552
                &&& rows[i].kind matches Some(SegmentType::OsSpecific(n)) ==> n == kind
                    && 0x60000000 <= kind <= 0x6fffffff
                &&& rows[i].kind matches Some(SegmentType::ProcessorSpecific(n)) ==> n == kind
                    && 0x70000000 <= kind <= 0x7fffffff
                &&& rows[i].kind is None <==> 7 < kind < 0x60000000 || 0x7fffffff < kind
                &&& rows[i].kind == Some(SegmentType::Interp) <==> kind == 3
                &&& rows[i].kind == Some(SegmentType::Phdr) <==> kind == 6
                &&& wide ==> {
                    &&& rows[i].flags.0 == elf_format::le(data, at + 4, 4)
                    &&& rows[i].offset == elf_format::le(data, at + 8, 8)
                    &&& rows[i].virtual_addr == elf_format::le(data, at + 16, 8)
                    &&& rows[i].file_size == elf_format::le(data, at + 32, 8)
                    &&& rows[i].mem_size == elf_format::le(data, at + 40, 8)
                }
                &&& !wide ==> {
                    &&& rows[i].flags.0 == elf_format::le(data, at + 24, 4)
                    &&& rows[i].offset == elf_format::le(data, at + 4, 4)
                    &&& rows[i].virtual_addr == elf_format::le(data, at + 8, 4)
                    &&& rows[i].file_size == elf_format::le(data, at + 16, 4)
                    &&& rows[i].mem_size == elf_format::le(data, at + 20, 4)
                }
            }
        }),
{
    law_numbers_are_little_endian(data, 28);
    law_numbers_are_little_endian(data, 32);
    law_numbers_are_little_endian(data, 42);
    law_numbers_are_little_endian(data, 44);
    law_numbers_are_little_endian(data, 54);
    law_numbers_are_little_endian(data, 56);
    let at = elf_format::row_start(data, i);
    law_numbers_are_little_endian(data, at);
    law_numbers_are_little_endian(data, at + 4);
    law_numbers_are_little_endian(data, at + 8);
    law_numbers_are_little_endian(data, at + 16);
    law_numbers_are_little_endian(data, at + 20);
    law_numbers_are_little_endian(data, at + 24);
    law_numbers_are_little_endian(data, at + 32);
    law_numbers_are_little_endian(data, at + 40);
}

/// A row is given exactly where the table of the image has one.
pub proof fn law_row_is_read_from_the_table(elf: &ElfFile, index: u16, r: Option<ProgramHeader>)
    requires
        call_ensures(ElfFile::program_header, (elf, index), r),
    ensures
        r is Some <==> index < elf_format::program_headers(elf.input@).len(),
        r matches Some(row) ==> row == elf_format::program_headers(elf.input@)[index as int],
{
}

/// The rights of a segment are those that its bits ask for: user code may always read, writes
/// are refused exactly where the write bit is clear, and execution is open exactly where the
/// execute bit is set.
pub proof fn law_rights_follow_the_bits(flags: &Flags, r: MemoryAttr)
    requires
        call_ensures(Flags::to_attr, (flags,), r),
    ensures
        r.user,
        r.readonly <==> flags.0 & 2 == 0,
        r.execute <==> flags.0 & 1 != 0,
{
    lemma_bits(flags.0);
}

/// The two ways to ask for one of the lowest bits.
proof fn lemma_bits(bits: u32)
    ensures
        bits & 2 == 0 <==> bits & 2 != 2,
        bits & 1 == 0 <==> bits & 1 != 1,
{
    assert((bits & 2 == 0 <==> bits & 2 != 2) && (bits & 1 == 0
        <==> bits & 1 != 1)) by (bit_vector);
}

/// The areas of a table are its load rows, each once and in their order, at the addresses that
/// they name, moved by the bias, with the rights that their bits ask for, from the bytes of
/// the file that they name. `rows` says which row each area is of.
pub proof fn law_areas_are_the_load_rows(
    table: Seq<ProgramHeader>,
    inode: INodeRef,
    bias: usize,
    name: &'static str,
) -> (rows: Seq<int>)
    requires
        forall|i: int|
            0 <= i < table.len() && (#[trigger] table[i]).kind == Some(SegmentType::Load) ==> {
                &&& table[i].virtual_addr as usize + table[i].mem_size as usize + bias <= usize::MAX
                &&& table[i].offset as usize + table[i].file_size as usize <= usize::MAX
            },
    ensures
        rows.len() == elf::load_areas(table, inode, bias, name).len(),
        forall|j: int, k: int| 0 <= j < k < rows.len() ==> rows[j] < rows[k],
        forall|j: int|
            0 <= j < rows.len() ==> 0 <= #[trigger] rows[j] < table.len()
                && table[rows[j]].kind == Some(
                SegmentType::Load,
            ),
        forall|i: int|
            0 <= i < table.len() && (#[trigger] table[i]).kind == Some(SegmentType::Load)
                ==> rows.contains(i),
        forall|j: int|
            #![trigger rows[j]]
            #![trigger elf::load_areas(table, inode, bias, name)[j]]
            0 <= j < rows.len() ==> {
                let area = elf::load_areas(table, inode, bias, name)[j];
                &&& area.start == table[rows[j]].virtual_addr as usize + bias
                &&& area.end == table[rows[j]].virtual_addr as usize
                    + table[rows[j]].mem_size as usize + bias
                &&& area.attr.user
                &&& area.attr.readonly <==> table[rows[j]].flags.0 & 2 == 0
                &&& area.attr.execute <==> table[rows[j]].flags.0 & 1 != 0
                &&& area.name == name
                &&& area.backing matches Backing::File { file, mem_start, file_start, file_end }
                &&& file == inode
                &&& mem_start == area.start
                &&& file_start == table[rows[j]].offset as usize
                &&& file_end == table[rows[j]].offset as usize + table[rows[j]].file_size as usize
            },
    decreases table.len(),
{
    if table.len() == 0 {
        reveal(Seq::filter);
        assert(elf::load_areas(table, inode, bias, name).len() == 0);
        Seq::empty()
    } else {
        let n = table.len() - 1;
        let rest = table.drop_last();
        assert forall|i: int|
            0 <= i < rest.len() && (#[trigger] rest[i]).kind == Some(SegmentType::Load) implies {
            &&& rest[i].virtual_addr as usize + rest[i].mem_size as usize + bias <= usize::MAX
            &&& rest[i].offset as usize + rest[i].file_size as usize <= usize::MAX
        } by {
            assert(table[i] == rest[i]);
        }
        let before = law_areas_are_the_load_rows(rest, inode, bias, name);
        elf::lemma_load_areas_step(table, n, inode, bias, name);
        assert(table.take(n) =~= rest);
        assert(table.take(n + 1) =~= table);
        let rows = if table[n].kind == Some(SegmentType::Load) {
            before.push(n)
        } else {
            before
        };
        lemma_bits(table[n].flags.0);
        assert forall|i: int|
            0 <= i < table.len() && (#[trigger] table[i]).kind == Some(
                SegmentType::Load,
            ) implies rows.contains(i) by {
            if i < n {
                assert(rest[i] == table[i]);
                assert(before.contains(i));
                let k = before.index_of(i);
                assert(rows[k] == i);
            } else {
                assert(rows[rows.len() - 1] == n);
            }
        }
        assert forall|j: int| 0 <= j < before.len() implies table[#[trigger] before[j]]
            == rest[before[j]] by {
        }
        rows
    }
}

/// The bias of a table is the start of a page, behind the end of every load row, and at most
/// one page behind the last of these ends, or the second page of all where there is no load
/// row.
pub proof fn law_bias_is_the_next_page(table: Seq<ProgramHeader>)
    ensures
        elf::bias_of(table) % 4096 == 0,
        forall|i: int|
            0 <= i < table.len() && (#[trigger] table[i]).kind == Some(SegmentType::Load)
                ==> elf::bias_of(table) > table[i].virtual_addr as usize
                    + table[i].mem_size as usize,
        elf::bias_of(table) == 4096 || exists|i: int|
            0 <= i < table.len() && (#[trigger] table[i]).kind == Some(SegmentType::Load)
                && elf::bias_of(table) <= table[i].virtual_addr as usize
                + table[i].mem_size as usize + 4096,
{
    elf::lemma_farthest_bounds(table);
    lemma_farthest_is_reached(table);
}

/// A program is mapped row by row. Above it stands the bias: the start of a page, behind the
/// end of every load row, and at most one page behind the last of these ends, or the second
/// page of all where there is no load row.
pub proof fn law_program_is_mapped(elf: &ElfFile, inode: INodeRef, r: (MemorySet, usize)) -> (rows:
    Seq<int>)
    requires
        call_ensures(ElfFile::make_memory_set, (elf, inode), r),
        forall|i: int|
            0 <= i < elf_format::program_headers(elf.input@).len()
                && (#[trigger] elf_format::program_headers(elf.input@)[i]).kind
                    == Some(SegmentType::Load) ==> {
                &&& elf_format::program_headers(elf.input@)[i].virtual_addr as usize
                    + elf_format::program_headers(elf.input@)[i].mem_size as usize + 0 <= usize::MAX
                &&& elf_format::program_headers(elf.input@)[i].offset as usize
                    + elf_format::program_headers(elf.input@)[i].file_size as usize <= usize::MAX
            },
    ensures
        rows.len() == r.0@.len(),
        forall|j: int, k: int| 0 <= j < k < rows.len() ==> rows[j] < rows[k],
        forall|j: int|
            0 <= j < rows.len() ==> 0 <= #[trigger] rows[j]
                < elf_format::program_headers(elf.input@).len()
                    && elf_format::program_headers(elf.input@)[rows[j]].kind == Some(
                SegmentType::Load,
            ),
        forall|i: int|
            0 <= i < elf_format::program_headers(elf.input@).len()
                && (#[trigger] elf_format::program_headers(elf.input@)[i]).kind
                    == Some(SegmentType::Load)
                ==> rows.contains(i),
        forall|j: int|
            #![trigger rows[j]]
            #![trigger r.0@[j]]
            0 <= j < rows.len() ==> {
                let table = elf_format::program_headers(elf.input@);
                let area = r.0@[j];
                &&& area.start == table[rows[j]].virtual_addr as usize + 0
                &&& area.end == table[rows[j]].virtual_addr as usize
                    + table[rows[j]].mem_size as usize + 0
                &&& area.attr.user
                &&& area.attr.readonly <==> table[rows[j]].flags.0 & 2 == 0
                &&& area.attr.execute <==> table[rows[j]].flags.0 & 1 != 0
                &&& area.name == "elf"
                &&& area.backing matches Backing::File { file, mem_start, file_start, file_end }
                &&& file == inode
                &&& mem_start == area.start
                &&& file_start == table[rows[j]].offset as usize
                &&& file_end == table[rows[j]].offset as usize + table[rows[j]].file_size as usize
            },
        r.1 as int % 4096 == 0,
        forall|j: int| 0 <= j < r.0@.len() ==> (#[trigger] r.0@[j]).end < r.1,
        rows.len() == 0 ==> r.1 == 4096,
        rows.len() > 0 ==> exists|j: int| 0 <= j < r.0@.len() && r.1
            <= (#[trigger] r.0@[j]).end + 4096,
{
    let table = elf_format::program_headers(elf.input@);
    let rows = law_areas_are_the_load_rows(table, inode, 0, "elf");
    elf::lemma_farthest_bounds(table);
    lemma_farthest_is_reached(table);
    if elf::farthest(table) > 0 {
        let i = choose|i: int|
            0 <= i < table.len() && (#[trigger] table[i]).kind == Some(SegmentType::Load)
                && table[i].virtual_addr as usize + table[i].mem_size as usize == elf::farthest(
                table,
            );
        assert(rows.contains(i));
        assert(r.0@[rows.index_of(i)].end == elf::farthest(table));
    } else if rows.len() > 0 {
        assert(r.0@[0].end <= 0);
    }
    rows
}

/// Some load row ends at the farthest end, unless that is 0.
proof fn lemma_farthest_is_reached(table: Seq<ProgramHeader>)
    ensures
        elf::farthest(table) > 0 ==> exists|i: int|
            0 <= i < table.len() && (#[trigger] table[i]).kind == Some(SegmentType::Load)
                && table[i].virtual_addr as usize + table[i].mem_size as usize == elf::farthest(
                table,
            ),
    decreases table.len(),
{
    if table.len() > 0 {
        let rest = table.drop_last();
        lemma_farthest_is_reached(rest);
        if elf::farthest(table) > 0 {
            if elf::farthest(table) == elf::farthest(rest) {
                let i = choose|i: int|
                    0 <= i < rest.len() && (#[trigger] rest[i]).kind == Some(SegmentType::Load)
                        && rest[i].virtual_addr as usize + rest[i].mem_size as usize
                        == elf::farthest(rest);
                assert(table[i] == rest[i]);
            } else {
                assert(table[table.len() - 1] == table.last());
            }
        }
    }
}

/// An interpreter is mapped row by row, behind what was mapped before, which stays: each load
/// row at the addresses that it names, moved by the bias, with the rights that its bits ask
/// for, from the bytes of the file that it names.
pub proof fn law_interpreter_is_mapped(
    elf: &ElfFile,
    inode: INodeRef,
    ms: &mut MemorySet,
    bias: usize,
) -> (rows: Seq<int>)
    requires
        call_ensures(ElfFile::append_as_interpreter, (elf, inode, ms, bias), ()),
        forall|i: int|
            0 <= i < elf_format::program_headers(elf.input@).len()
                && (#[trigger] elf_format::program_headers(elf.input@)[i]).kind
                    == Some(SegmentType::Load) ==> {
                &&& elf_format::program_headers(elf.input@)[i].virtual_addr as usize
                    + elf_format::program_headers(elf.input@)[i].mem_size as usize + bias
                        <= usize::MAX
                &&& elf_format::program_headers(elf.input@)[i].offset as usize
                    + elf_format::program_headers(elf.input@)[i].file_size as usize <= usize::MAX
            },
    ensures
        final(ms)@.len() == old(ms)@.len() + rows.len(),
        forall|j: int| 0 <= j < old(ms)@.len() ==> #[trigger] final(ms)@[j] == old(ms)@[j],
        forall|j: int, k: int| 0 <= j < k < rows.len() ==> rows[j] < rows[k],
        forall|j: int|
            0 <= j < rows.len() ==> 0 <= #[trigger] rows[j]
                < elf_format::program_headers(elf.input@).len()
                    && elf_format::program_headers(elf.input@)[rows[j]].kind == Some(
                SegmentType::Load,
            ),
        forall|i: int|
            0 <= i < elf_format::program_headers(elf.input@).len()
                && (#[trigger] elf_format::program_headers(elf.input@)[i]).kind
                    == Some(SegmentType::Load)
                ==> rows.contains(i),
        forall|j: int|
            #![trigger rows[j]]
            0 <= j < rows.len() ==> {
                let table = elf_format::program_headers(elf.input@);
                let area = final(ms)@[old(ms)@.len() + j];
                &&& area.start == table[rows[j]].virtual_addr as usize + bias
                &&& area.end == table[rows[j]].virtual_addr as usize
                    + table[rows[j]].mem_size as usize + bias
                &&& area.attr.user
                &&& area.attr.readonly <==> table[rows[j]].flags.0 & 2 == 0
                &&& area.attr.execute <==> table[rows[j]].flags.0 & 1 != 0
                &&& area.name == "elf-interp"
                &&& area.backing matches Backing::File { file, mem_start, file_start, file_end }
                &&& file == inode
                &&& mem_start == area.start
                &&& file_start == table[rows[j]].offset as usize
                &&& file_end == table[rows[j]].offset as usize + table[rows[j]].file_size as usize
            },
{
    let table = elf_format::program_headers(elf.input@);
    let rows = law_areas_are_the_load_rows(table, inode, bias, "elf-interp");
    let new = elf::load_areas(table, inode, bias, "elf-interp");
    assert forall|j: int| 0 <= j < rows.len() implies #[trigger] rows[j] == rows[j]
        && final(ms)@[old(
        ms,
    )@.len() + j] == new[j] by {
    }
    rows
}

/// An interpreter that is mapped at the bias of a program lies clear of it: each of its areas
/// begins behind the end of every area of the program.
pub proof fn law_interpreter_lies_above_the_program(
    program: &ElfFile,
    program_inode: INodeRef,
    mapped: (MemorySet, usize),
    interp: &ElfFile,
    interp_inode: INodeRef,
    ms: &mut MemorySet,
    i: int,
    j: int,
)
    requires
        call_ensures(ElfFile::make_memory_set, (program, program_inode), mapped),
        call_ensures(ElfFile::append_as_interpreter, (interp, interp_inode, ms, mapped.1), ()),
        old(ms)@ == mapped.0@,
        forall|i: int|
            0 <= i < elf_format::program_headers(program.input@).len()
                && (#[trigger] elf_format::program_headers(program.input@)[i]).kind
                    == Some(SegmentType::Load) ==> {
                &&& elf_format::program_headers(program.input@)[i].virtual_addr as usize
                    + elf_format::program_headers(program.input@)[i].mem_size as usize + 0
                        <= usize::MAX
                &&& elf_format::program_headers(program.input@)[i].offset as usize
                    + elf_format::program_headers(program.input@)[i].file_size as usize
                        <= usize::MAX
            },
        forall|i: int|
            0 <= i < elf_format::program_headers(interp.input@).len()
                && (#[trigger] elf_format::program_headers(interp.input@)[i]).kind
                    == Some(SegmentType::Load) ==> {
                &&& elf_format::program_headers(interp.input@)[i].virtual_addr as usize
                    + elf_format::program_headers(interp.input@)[i].mem_size as usize
                        + mapped.1 <= usize::MAX
                &&& elf_format::program_headers(interp.input@)[i].offset as usize
                    + elf_format::program_headers(interp.input@)[i].file_size as usize <= usize::MAX
            },
        0 <= i < mapped.0@.len() <= j < final(ms)@.len(),
    ensures
        final(ms)@[i].end < final(ms)@[j].start,
{
    let rows = law_program_is_mapped(program, program_inode, mapped);
    let table = elf_format::program_headers(interp.input@);
    let interp_rows = law_areas_are_the_load_rows(table, interp_inode, mapped.1, "elf-interp");
    let new = elf::load_areas(table, interp_inode, mapped.1, "elf-interp");
    assert(mapped.0@[i].end < mapped.1);
    assert(final(ms)@[j] == new[j - mapped.0@.len()]);
}


/// The path of the interpreter of an image is the text of the first segment that names one,
/// `i` in the table: its bytes are those of the whole segment up to the zero bytes at the end,
/// and nothing else than bytes that are no text keeps it from being one.
pub proof fn law_path_is_the_whole_segment(data: Seq<u8>, i: int)
    requires
        0 <= i < elf_format::program_headers(data).len(),
        elf_format::program_headers(data)[i].kind == Some(SegmentType::Interp),
        forall|k: int|
            0 <= k < i ==> (#[trigger] elf_format::program_headers(data)[k]).kind != Some(
                SegmentType::Interp,
            ),
        elf_format::program_headers(data)[i].offset + elf_format::program_headers(
            data,
        )[i].file_size <= data.len(),
    ensures
        ({
            let row = elf_format::program_headers(data)[i];
            let segment = data.subrange(row.offset as int, row.offset + row.file_size);
            &&& elf::interpreter(data) matches Ok(path) ==> {
                let bytes = vstd::utf8::encode_utf8(path);
                &&& bytes.len() <= segment.len()
                &&& bytes == segment.take(bytes.len() as int)
                &&& forall|k: int| bytes.len() <= k < segment.len() ==> segment[k] == 0
                &&& bytes.len() > 0 ==> bytes.last() != 0
            }
            &&& elf::interpreter(data) matches Err(e) ==> e == "failed to convert to utf8"@
            &&& forall|n: int|
                0 <= n <= segment.len() && (n == 0 || segment[n - 1] != 0) && (forall|k: int|
                    n <= k < segment.len() ==> segment[k] == 0) ==> (elf::interpreter(data) is Ok
                    <==> vstd::utf8::valid_utf8(#[trigger] segment.take(n)))
        }),
{
    let table = elf_format::program_headers(data);
    let wanted = |row: ProgramHeader| elf::is_interp(row);
    assert forall|k: int| 0 <= k < i implies !wanted(#[trigger] table[k]) by {
    }
    elf::lemma_first(table, wanted, i);
    let row = table[i];
    let segment = data.subrange(row.offset as int, row.offset + row.file_size);
    elf::law_strip_nul_takes_all_trailing_zeros(segment);
    let kept = elf::strip_nul(segment);
    if let Ok(path) = elf::interpreter(data) {
        vstd::utf8::decode_utf8_encode_utf8(kept);
        assert(vstd::utf8::encode_utf8(path) == kept);
    }
    assert forall|n: int|
        0 <= n <= segment.len() && (n == 0 || segment[n - 1] != 0) && (forall|k: int|
            n <= k < segment.len() ==> segment[k] == 0) implies (elf::interpreter(data) is Ok
        <==> vstd::utf8::valid_utf8(#[trigger] segment.take(n))) by {
        if n < kept.len() {
            assert(segment[kept.len() - 1] == 0);
            assert(kept.last() == segment[kept.len() - 1]);
        }
        if kept.len() < n {
            assert(segment[n - 1] == 0);
        }
    }
}

/// The path that is given is that of the whole segment.
pub proof fn law_interpreter_path_is_the_whole_segment(
    elf: &ElfFile,
    r: Result<String, &'static str>,
    i: int,
)
    requires
        call_ensures(ElfFile::get_interpreter, (elf,), r),
        0 <= i < elf_format::program_headers(elf.input@).len(),
        elf_format::program_headers(elf.input@)[i].kind == Some(SegmentType::Interp),
        forall|k: int|
            0 <= k < i ==> (#[trigger] elf_format::program_headers(elf.input@)[k]).kind != Some(
                SegmentType::Interp,
            ),
        elf_format::program_headers(elf.input@)[i].offset + elf_format::program_headers(
            elf.input@,
        )[i].file_size <= elf.input@.len(),
    ensures
        ({
            let row = elf_format::program_headers(elf.input@)[i];
            let segment = elf.input@.subrange(row.offset as int, row.offset + row.file_size);
            &&& r matches Ok(path) ==> {
                let bytes = vstd::utf8::encode_utf8(path@);
                &&& bytes.len() <= segment.len()
                &&& bytes == segment.take(bytes.len() as int)
                &&& forall|k: int| bytes.len() <= k < segment.len() ==> segment[k] == 0
                &&& bytes.len() > 0 ==> bytes.last() != 0
            }
            &&& r matches Err(e) ==> e@ == "failed to convert to utf8"@
            &&& forall|n: int|
                0 <= n <= segment.len() && (n == 0 || segment[n - 1] != 0) && (forall|k: int|
                    n <= k < segment.len() ==> segment[k] == 0) ==> (r is Ok
                    <==> vstd::utf8::valid_utf8(#[trigger] segment.take(n)))
        }),
{
    law_path_is_the_whole_segment(elf.input@, i);
}

/// An image without a segment that names an interpreter has none.
pub proof fn law_no_segment_means_no_path(data: Seq<u8>)
    requires
        forall|k: int|
            0 <= k < elf_format::program_headers(data).len() ==> (
            #[trigger] elf_format::program_headers(data)[k]).kind != Some(SegmentType::Interp),
    ensures
        elf::interpreter(data) == Err::<Seq<char>, Seq<char>>("no interp header"@),
{
    let table = elf_format::program_headers(data);
    let wanted = |row: ProgramHeader| elf::is_interp(row);
    elf::lemma_first(table, wanted, table.len() as int);
}

/// A program without a segment that names an interpreter has none.
pub proof fn law_no_segment_means_no_interpreter(elf: &ElfFile, r: Result<String, &'static str>)
    requires
        call_ensures(ElfFile::get_interpreter, (elf,), r),
        forall|k: int|
            0 <= k < elf_format::program_headers(elf.input@).len() ==> (
            #[trigger] elf_format::program_headers(elf.input@)[k]).kind != Some(
                SegmentType::Interp,
            ),
    ensures
        r matches Err(e) && e@ == "no interp header"@,
{
    law_no_segment_means_no_path(elf.input@);
}

/// Where the header table will stand in memory: at the address of the first row of its own
/// kind; without such a row, where the first load row that begins with the file puts it; and
/// nowhere without either.
pub proof fn law_header_table_has_its_address(data: Seq<u8>, i: int)
    requires
        0 <= i < elf_format::program_headers(data).len(),
    ensures
        ({
            let table = elf_format::program_headers(data);
            let offset = if data[4] == 2 {
                elf_format::le(data, 32, 8)
            } else {
                elf_format::le(data, 28, 4)
            };
            &&& table[i].kind == Some(SegmentType::Phdr) && (forall|k: int|
                0 <= k < i ==> (#[trigger] table[k]).kind != Some(SegmentType::Phdr))
                ==> elf::phdr_vaddr(data) == Some(table[i].virtual_addr as int)
            &&& (forall|k: int|
                0 <= k < table.len() ==> (#[trigger] table[k]).kind != Some(SegmentType::Phdr))
                && table[i].kind == Some(SegmentType::Load) && table[i].offset == 0 && (forall|
                k: int,
            |
                0 <= k < i ==> !((#[trigger] table[k]).kind == Some(SegmentType::Load)
                    && table[k].offset == 0)) ==> elf::phdr_vaddr(data) == Some(
                table[i].virtual_addr + offset,
            )
        }),
{
    let table = elf_format::program_headers(data);
    law_rows_stand_in_the_image(data, 0);
    law_numbers_are_little_endian(data, 28);
    law_numbers_are_little_endian(data, 32);
    let own = |row: ProgramHeader| elf::is_phdr(row);
    let start = |row: ProgramHeader| elf::is_file_start(row);
    if table[i].kind == Some(SegmentType::Phdr) && (forall|k: int|
        0 <= k < i ==> (#[trigger] table[k]).kind != Some(SegmentType::Phdr)) {
        elf::lemma_first(table, own, i);
    }
    if forall|k: int|
        0 <= k < table.len() ==> (#[trigger] table[k]).kind != Some(SegmentType::Phdr) {
        elf::lemma_first(table, own, table.len() as int);
        if table[i].kind == Some(SegmentType::Load) && table[i].offset == 0 && (forall|k: int|
            0 <= k < i ==> !((#[trigger] table[k]).kind == Some(SegmentType::Load)
                && table[k].offset == 0)) {
            elf::lemma_first(table, start, i);
        }
    }
}

/// The header table has no address where no row is of its kind and none maps the file from
/// its first byte on.
pub proof fn law_header_table_may_have_no_address(data: Seq<u8>)
    requires
        forall|k: int|
            0 <= k < elf_format::program_headers(data).len() ==> {
                let row = #[trigger] elf_format::program_headers(data)[k];
                row.kind != Some(SegmentType::Phdr) && !(row.kind == Some(SegmentType::Load)
                    && row.offset == 0)
            },
    ensures
        elf::phdr_vaddr(data) is None,
{
    let table = elf_format::program_headers(data);
    let own = |row: ProgramHeader| elf::is_phdr(row);
    let start = |row: ProgramHeader| elf::is_file_start(row);
    elf::lemma_first(table, own, table.len() as int);
    elf::lemma_first(table, start, table.len() as int);
}

/// The address that is given is that of the header table.
pub proof fn law_address_is_that_of_the_table(elf: &ElfFile, r: Option<u64>)
    requires
        call_ensures(ElfFile::get_phdr_vaddr, (elf,), r),
    ensures
        r is Some <==> elf::phdr_vaddr(elf.input@) is Some,
        r matches Some(addr) ==> elf::phdr_vaddr(elf.input@) == Some(addr as int),
{
}

/// A header table can be read only where each of its rows lies in the image, is wide enough,
/// and begins at a multiple of the widest number in it.
pub proof fn law_readable_row_lies_in_the_image(data: Seq<u8>, i: int)
    requires
        elf_format::table_readable(data),
        0 <= i < elf_format::program_headers(data).len(),
    ensures
        data[4] == 2 ==> {
            let at = elf_format::le(data, 32, 8) + i * elf_format::le(data, 54, 2);
            &&& elf_format::le(data, 54, 2) >= 56
            &&& at + elf_format::le(data, 54, 2) <= data.len()
            &&& at % 8 == 0
        },
        data[4] != 2 ==> {
            let at = elf_format::le(data, 28, 4) + i * elf_format::le(data, 42, 2);
            &&& elf_format::le(data, 42, 2) >= 32
            &&& at + elf_format::le(data, 42, 2) <= data.len()
            &&& at % 4 == 0
        },
{
    law_numbers_are_little_endian(data, 28);
    law_numbers_are_little_endian(data, 32);
    law_numbers_are_little_endian(data, 42);
    law_numbers_are_little_endian(data, 54);
    assert(elf_format::row_readable(data, i));
}

/// A header table can be read wherever that holds of each of its rows.
pub proof fn law_table_in_the_image_is_readable(data: Seq<u8>)
    requires
        forall|i: int|
            #![trigger elf_format::program_headers(data)[i]]
            0 <= i < elf_format::program_headers(data).len() ==> if data[4] == 2 {
                let at = elf_format::le(data, 32, 8) + i * elf_format::le(data, 54, 2);
                &&& elf_format::le(data, 54, 2) >= 56
                &&& at + elf_format::le(data, 54, 2) <= data.len()
                &&& at % 8 == 0
            } else {
                let at = elf_format::le(data, 28, 4) + i * elf_format::le(data, 42, 2);
                &&& elf_format::le(data, 42, 2) >= 32
                &&& at + elf_format::le(data, 42, 2) <= data.len()
                &&& at % 4 == 0
            },
    ensures
        elf_format::table_readable(data),
{
    law_numbers_are_little_endian(data, 28);
    law_numbers_are_little_endian(data, 32);
    law_numbers_are_little_endian(data, 42);
    law_numbers_are_little_endian(data, 54);
    assert forall|i: int|
        0 <= i < elf_format::row_count(data) implies #[trigger] elf_format::row_readable(
        data,
        i,
    ) by {
        let row = elf_format::program_headers(data)[i];
    }
}

/// An image can be mapped as a program exactly where its header table lies in it, every
/// address of a load row, and a page more, fits, the address of the header table fits, and the
/// path of the interpreter lies in the image.
pub proof fn law_loadable_program_fits(elf: &ElfFile, r: bool)
    requires
        call_ensures(ElfFile::is_loadable_program, (elf,), r),
    ensures
        ({
            let data = elf.input@;
            let table = elf_format::program_headers(data);
            r <==> {
                &&& elf_format::table_readable(data)
                &&& forall|i: int|
                    0 <= i < table.len() && (#[trigger] table[i]).kind == Some(SegmentType::Load)
                        ==> {
                        &&& table[i].virtual_addr as usize + table[i].mem_size as usize + 4096
                            <= usize::MAX
                        &&& table[i].offset as usize + table[i].file_size as usize <= usize::MAX
                    }
                &&& elf::phdr_vaddr(data) matches Some(addr) ==> addr <= u64::MAX
                &&& forall|i: int|
                    0 <= i < table.len() && (#[trigger] table[i]).kind == Some(SegmentType::Interp)
                        && (forall|k: int|
                        0 <= k < i
                            ==> (#[trigger] table[k]).kind != Some(SegmentType::Interp)) ==> {
                        &&& table[i].offset + table[i].file_size <= data.len()
                        &&& data[4] == 2 || table[i].offset + table[i].file_size <= u32::MAX
                    }
            }
        }),
{
    let data = elf.input@;
    let table = elf_format::program_headers(data);
    elf::lemma_farthest_bounds(table);
    lemma_farthest_is_reached(table);
    let wanted = |row: ProgramHeader| elf::is_interp(row);
    elf::lemma_first_bounds(table, wanted);
    let first = elf::interp_index(data);
    if first < table.len() {
        assert forall|k: int| 0 <= k < first implies (#[trigger] table[k]).kind != Some(
            SegmentType::Interp,
        ) by {
            assert(!wanted(table[k]));
        }
    }
    assert forall|i: int|
        0 <= i < table.len() && (#[trigger] table[i]).kind == Some(SegmentType::Interp) && (forall|
            k: int,
        |
            0 <= k < i ==> (#[trigger] table[k]).kind != Some(SegmentType::Interp)) implies i
        == first by {
        elf::lemma_first(table, wanted, i);
    }
}

/// An image can be mapped as an interpreter exactly where its header table lies in it and
/// every address of a load row, and its entry point, fits when it is moved by the bias.
pub proof fn law_loadable_interpreter_fits(elf: &ElfFile, bias: usize, r: bool)
    requires
        elf.wf(),
        call_ensures(ElfFile::is_loadable_interpreter, (elf, bias), r),
    ensures
        ({
            let data = elf.input@;
            let table = elf_format::program_headers(data);
            r <==> {
                &&& elf_format::table_readable(data)
                &&& forall|i: int|
                    0 <= i < table.len() && (#[trigger] table[i]).kind == Some(SegmentType::Load)
                        ==> {
                        &&& table[i].virtual_addr as usize + table[i].mem_size as usize + bias
                            <= usize::MAX
                        &&& table[i].offset as usize + table[i].file_size as usize <= usize::MAX
                    }
                &&& elf.header.entry_point as usize + bias <= usize::MAX
            }
        }),
{
}

/// Any bytes can be read as an image that hold the header that their class asks for, or no
/// header at all.
pub proof fn law_any_file_can_be_read(input: &[u8])
    requires
        input@.len()
            < 16 || input@[0] != 0x7f || input@[1] != 0x45 || input@[2] != 0x4c || input@[3]
            != 0x46 || (input@[4] != 1 && input@[4] != 2) || (input@[4] == 1 && input@.len() >= 52)
            || input@.len() >= 64,
    ensures
        call_requires(ElfFile::new, (input,)),
{
}

/// A row of an image that was read can be asked for where there is no such row, and where it
/// lies in the image, is wide enough and begins at a multiple of its widest number.
pub proof fn law_any_row_in_the_image_can_be_read(input: &[u8], elf: ElfFile, index: u16)
    requires
        call_ensures(ElfFile::new, (input,), Ok(elf)),
        input@.len() >= 64,
        index >= elf_format::program_headers(input@).len() || if input@[4] == 2 {
            let at = elf_format::le(input@, 32, 8) + index * elf_format::le(input@, 54, 2);
            &&& elf_format::le(input@, 54, 2) >= 56
            &&& at + elf_format::le(input@, 54, 2) <= input@.len()
            &&& at % 8 == 0
        } else {
            let at = elf_format::le(input@, 28, 4) + index * elf_format::le(input@, 42, 2);
            &&& elf_format::le(input@, 42, 2) >= 32
            &&& at + elf_format::le(input@, 42, 2) <= input@.len()
            &&& at % 4 == 0
        },
    ensures
        call_requires(ElfFile::program_header, (&elf, index)),
{
    law_numbers_are_little_endian(input@, 28);
    law_numbers_are_little_endian(input@, 32);
    law_numbers_are_little_endian(input@, 42);
    law_numbers_are_little_endian(input@, 54);
}

/// Every question about an image that was read, has its header table in it and addresses that
/// fit can be asked.
pub proof fn law_image_that_fits_can_be_asked(
    input: &[u8],
    elf: ElfFile,
    inode: INodeRef,
    ms: &mut MemorySet,
    bias: usize,
)
    requires
        call_ensures(ElfFile::new, (input,), Ok(elf)),
        input@.len() >= 64,
        elf_format::table_readable(input@),
    ensures
        call_requires(ElfFile::is_loadable_program, (&elf,)),
        call_requires(ElfFile::is_loadable_interpreter, (&elf, bias)),
        ({
            let table = elf_format::program_headers(input@);
            &&& (forall|i: int|
                0 <= i < table.len() && (#[trigger] table[i]).kind == Some(SegmentType::Load) ==> {
                    &&& table[i].virtual_addr as usize + table[i].mem_size as usize + 4096
                        <= usize::MAX
                    &&& table[i].offset as usize + table[i].file_size as usize <= usize::MAX
                }) ==> call_requires(ElfFile::make_memory_set, (&elf, inode))
            &&& (forall|i: int|
                0 <= i < table.len() && (#[trigger] table[i]).kind == Some(SegmentType::Load) ==> {
                    &&& table[i].virtual_addr as usize + table[i].mem_size as usize + bias
                        <= usize::MAX
                    &&& table[i].offset as usize + table[i].file_size as usize <= usize::MAX
                }) ==> call_requires(ElfFile::append_as_interpreter, (&elf, inode, ms, bias))
            &&& (forall|i: int|
                0 <= i < table.len() && (#[trigger] table[i]).kind == Some(SegmentType::Interp)
                    ==> {
                    &&& table[i].offset + table[i].file_size <= input@.len()
                    &&& input@[4] == 2 || table[i].offset + table[i].file_size <= u32::MAX
                }) ==> call_requires(ElfFile::get_interpreter, (&elf,))
            &&& (elf::phdr_vaddr(input@) matches Some(addr) ==> addr <= u64::MAX)
                ==> call_requires(ElfFile::get_phdr_vaddr, (&elf,))
        }),
{
    let data = input@;
    let table = elf_format::program_headers(data);
    elf::lemma_farthest_bounds(table);
    lemma_farthest_is_reached(table);
    elf::lemma_first_bounds(table, |row: ProgramHeader| elf::is_interp(row));
    elf::lemma_first_bounds(table, |row: ProgramHeader| elf::is_phdr(row));
    assert forall|i: int| 0 <= i implies #[trigger] elf_format::row_readable(data, i) by {
    }
}

} // verus!
