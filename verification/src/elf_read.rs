//! Reading the parts of an ELF image with the `xmas_elf` crate.
//!
//! `xmas_elf` lays its structures over the bytes of the image. It panics where these do not
//! start at a multiple of eight, so each function below reads from a copy that does. It takes
//! the bytes of a number in the order of the machine it runs on; all machines that this
//! library is for put the least significant byte first.
use crate::elf_format;
use crate::elf_format::{Machine, ObjectType, SegmentType};
use vstd::prelude::*;
use xmas_elf::header;
use xmas_elf::header::Machine as HeaderMachine;
use xmas_elf::program;
use xmas_elf::program::Type as RowType;
use xmas_elf::ElfFile;

verus! {

/// The numbers in an ELF header.
pub(crate) struct RawHeader {
    pub(crate) type_: u16,
    pub(crate) entry_point: u64,
    pub(crate) ph_offset: u64,
    pub(crate) ph_entry_size: u16,
    pub(crate) ph_count: u16,
}

/// The numbers in a program header, but for its type.
pub(crate) struct RawSegment {
    pub(crate) flags: u32,
    pub(crate) offset: u64,
    pub(crate) virtual_addr: u64,
    pub(crate) file_size: u64,
    pub(crate) mem_size: u64,
}

/// What a segment holds.
pub(crate) enum SegmentData {
    Empty,
    Undefined(Vec<u8>),
    Dynamic32,
    Dynamic64,
    Note64,
}

/// `xmas_elf::ElfFile::new` and the getters of its `HeaderPt2`: the header is read where the
/// image begins with the magic number and a known class, with the numbers that stand at the
/// places of the format; otherwise the error says which of the two is missing.
#[verifier::external_body]
pub(crate) fn read_header(data: &[u8]) -> (r: Result<RawHeader, &'static str>)
    requires
        elf_format::header_readable(data@),
    ensures
        match r {
            Ok(h) => {
                &&& elf_format::header_error(data@) is None
                &&& h.type_ == elf_format::type_number(data@)
                &&& h.entry_point == elf_format::entry_point(data@)
                &&& h.ph_offset == elf_format::ph_offset(data@)
                &&& h.ph_entry_size == elf_format::ph_entry_size(data@)
                &&& h.ph_count == elf_format::ph_count(data@)
            },
            Err(e) => elf_format::header_error(data@) == Some(e@),
        },
{
    let mut room = [data, &[0; 8]].concat();
    let at = room.as_ptr().align_offset(8);
    room.copy_within(..data.len(), at);
    let pt2 = ElfFile::new(&room[at..][..data.len()])?.header.pt2;
    Ok(RawHeader {
        type_: pt2.type_().0,
        entry_point: pt2.entry_point(),
        ph_offset: pt2.ph_offset(),
        ph_entry_size: pt2.ph_entry_size(),
        ph_count: pt2.ph_count(),
    })
}

/// `xmas_elf::header::Type_::as_type`: which object type a number stands for.
#[verifier::external_body]
pub(crate) fn object_type(number: u16) -> (r: ObjectType)
    ensures
        r == elf_format::object_type_of(number),
{
    match header::Type_(number).as_type() {
        header::Type::None => ObjectType::NoType,
        header::Type::Relocatable => ObjectType::Relocatable,
        header::Type::Executable => ObjectType::Executable,
        header::Type::SharedObject => ObjectType::SharedObject,
        header::Type::Core => ObjectType::Core,
        header::Type::ProcessorSpecific(n) => ObjectType::ProcessorSpecific(n),
    }
}

/// `xmas_elf::header::HeaderPt2::machine` and `Machine_::as_machine`: the machine that the
/// number in the header stands for.
#[verifier::external_body]
pub(crate) fn read_machine(data: &[u8]) -> (r: Machine)
    requires
        elf_format::header_readable(data@),
        elf_format::header_error(data@) is None,
    ensures
        r == elf_format::machine_of(elf_format::machine_number(data@)),
{
    let mut room = [data, &[0; 8]].concat();
    let at = room.as_ptr().align_offset(8);
    room.copy_within(..data.len(), at);
    let elf = ElfFile::new(&room[at..][..data.len()]).unwrap();
    match elf.header.pt2.machine().as_machine() {
        HeaderMachine::None => Machine::NoMachine, HeaderMachine::Sparc => Machine::Sparc,
        HeaderMachine::X86 => Machine::X86, HeaderMachine::Mips => Machine::Mips,
        HeaderMachine::PowerPC => Machine::PowerPc, HeaderMachine::Arm => Machine::Arm,
        HeaderMachine::SuperH => Machine::SuperH, HeaderMachine::Ia64 => Machine::Ia64,
        HeaderMachine::X86_64 => Machine::X86_64, HeaderMachine::BPF => Machine::Bpf,
        HeaderMachine::AArch64 => Machine::AArch64,
        HeaderMachine::Other(n) => Machine::Other(n),
    }
}

/// `xmas_elf::ElfFile::program_header` and the getters of its result: the numbers of the
/// program header `index`, or an error where the image has no such header.
#[verifier::external_body]
pub(crate) fn read_segment(data: &[u8], index: u16) -> (r: Result<RawSegment, &'static str>)
    requires
        elf_format::header_readable(data@),
        elf_format::header_error(data@) is None,
        elf_format::row_readable(data@, index as int),
    ensures
        match r {
            Ok(s) => {
                let row = elf_format::program_header_at(data@, index as int);
                &&& index < elf_format::row_count(data@)
                &&& s.flags == row.flags.0
                &&& s.offset == row.offset
                &&& s.virtual_addr == row.virtual_addr
                &&& s.file_size == row.file_size
                &&& s.mem_size == row.mem_size
            },
            Err(e) => {
                &&& index >= elf_format::row_count(data@)
                &&& e@ == "There are no program headers in this file"@
            },
        },
{
    let mut room = [data, &[0; 8]].concat();
    let at = room.as_ptr().align_offset(8);
    room.copy_within(..data.len(), at);
    let row = ElfFile::new(&room[at..][..data.len()])?.program_header(index)?;
    Ok(RawSegment {
        flags: row.flags().0,
        offset: row.offset(),
        virtual_addr: row.virtual_addr(),
        file_size: row.file_size(),
        mem_size: row.mem_size(),
    })
}

/// `xmas_elf::program::ProgramHeader::get_type`: what the program header `index` describes,
/// if its number stands for anything.
#[verifier::external_body]
pub(crate) fn read_segment_type(data: &[u8], index: u16) -> (r: Option<SegmentType>)
    requires
        elf_format::header_readable(data@),
        elf_format::header_error(data@) is None,
        elf_format::row_readable(data@, index as int),
        index < elf_format::row_count(data@),
    ensures
        r == elf_format::program_header_at(data@, index as int).kind,
{
    let mut room = [data, &[0; 8]].concat();
    let at = room.as_ptr().align_offset(8);
    room.copy_within(..data.len(), at);
    let elf = ElfFile::new(&room[at..][..data.len()]).unwrap();
    Some(match elf.program_header(index).unwrap().get_type().ok()? {
        RowType::Null => SegmentType::Null, RowType::Load => SegmentType::Load,
        RowType::Dynamic => SegmentType::Dynamic, RowType::Note => SegmentType::Note,
        RowType::Interp => SegmentType::Interp, RowType::ShLib => SegmentType::ShLib,
        RowType::Phdr => SegmentType::Phdr, RowType::Tls => SegmentType::Tls,
        RowType::GnuRelro => SegmentType::GnuRelro,
        RowType::OsSpecific(n) => SegmentType::OsSpecific(n),
        RowType::ProcessorSpecific(n) => SegmentType::ProcessorSpecific(n),
    })
}

/// `xmas_elf::program::ProgramHeader::get_data`, on a program header that names an
/// interpreter: the bytes of the image that the header describes, with no meaning given to
/// them.
#[verifier::external_body]
pub(crate) fn read_segment_data(data: &[u8], index: u16) -> (r: Result<SegmentData, &'static str>)
    requires
        elf_format::header_readable(data@),
        elf_format::header_error(data@) is None,
        elf_format::row_readable(data@, index as int),
        index < elf_format::row_count(data@),
        elf_format::program_header_at(data@, index as int).kind == Some(SegmentType::Interp),
        elf_format::segment_readable(
            data@,
            elf_format::program_header_at(data@, index as int),
        ),
    ensures
        match r {
            Ok(SegmentData::Undefined(bytes)) => bytes@ == elf_format::segment_bytes(
                data@,
                elf_format::program_header_at(data@, index as int),
            ),
            _ => false,
        },
{
    let mut room = [data, &[0; 8]].concat();
    let at = room.as_ptr().align_offset(8);
    room.copy_within(..data.len(), at);
    let elf = ElfFile::new(&room[at..][..data.len()])?;
    Ok(match elf.program_header(index)?.get_data(&elf)? {
        program::SegmentData::Empty => SegmentData::Empty,
        program::SegmentData::Undefined(bytes) => SegmentData::Undefined(bytes.to_vec()),
        program::SegmentData::Dynamic32(_) => SegmentData::Dynamic32,
        program::SegmentData::Dynamic64(_) => SegmentData::Dynamic64,
        program::SegmentData::Note64(_, _) => SegmentData::Note64,
    })
}

/// `xmas_elf::program::Flags::is_execute`: whether the lowest bit is set.
#[verifier::external_body]
pub(crate) fn is_execute(bits: u32) -> (r: bool)
    ensures
        r == (bits & 1 == 1),
{
    program::Flags(bits).is_execute()
}

/// `xmas_elf::program::Flags::is_write`: whether the second lowest bit is set.
#[verifier::external_body]
pub(crate) fn is_write(bits: u32) -> (r: bool)
    ensures
        r == (bits & 2 == 2),
{
    program::Flags(bits).is_write()
}

/// `core::str::from_utf8`: the text that the bytes encode, if they are valid UTF-8.
#[verifier::external_body]
pub(crate) fn utf8_text(bytes: &[u8]) -> (r: Option<String>)
    ensures
        r is Some <==> vstd::utf8::valid_utf8(bytes@),
        r matches Some(text) ==> vstd::utf8::encode_utf8(text@) == bytes@,
{
    core::str::from_utf8(bytes).ok().map(String::from)
}

} // verus!
