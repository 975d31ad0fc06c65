//! Where the numbers of an ELF image stand, and what they mean.
//!
//! Everything here is specification: mathematical functions from the bytes of an image to
//! the header, the program header table and the parts that loading depends on.
use vstd::prelude::*;

verus! {

/// What kind of object an image holds.
#[derive(Clone, Copy, Debug, PartialEq, Eq, Structural)]
pub enum ObjectType {
    NoType,
    Relocatable,
    Executable,
    SharedObject,
    Core,
    ProcessorSpecific(u16),
}

/// The machine that an image was built for.
#[derive(Clone, Copy, Debug, PartialEq, Eq, Structural)]
pub enum Machine {
    NoMachine,
    Sparc,
    X86,
    Mips,
    PowerPc,
    Arm,
    SuperH,
    Ia64,
    X86_64,
    AArch64,
    Bpf,
    Other(u16),
}

/// What a program header describes.
#[derive(Clone, Copy, Debug, PartialEq, Eq, Structural)]
pub enum SegmentType {
    Null,
    Load,
    Dynamic,
    Interp,
    Note,
    ShLib,
    Phdr,
    Tls,
    GnuRelro,
    OsSpecific(u32),
    ProcessorSpecific(u32),
}

/// The fields of the ELF header that loading depends on.
#[derive(Clone, Copy, Debug)]
pub struct Header {
    pub type_: ObjectType,
    pub machine: Machine,
    pub entry_point: u64,
    pub ph_offset: u64,
    pub ph_entry_size: u16,
    pub ph_count: u16,
}

/// The permission bits of a segment.
#[derive(Clone, Copy, Debug, PartialEq, Eq, Structural)]
pub struct Flags(pub u32);

/// One row of the program header table. `kind` is `None` where the row's type number stands
/// for no type at all.
#[derive(Clone, Copy, Debug)]
pub struct ProgramHeader {
    pub kind: Option<SegmentType>,
    pub flags: Flags,
    pub offset: u64,
    pub virtual_addr: u64,
    pub file_size: u64,
    pub mem_size: u64,
}

/// The number whose `width` bytes stand from `at` on, least significant byte first.
pub open spec fn le(data: Seq<u8>, at: int, width: nat) -> nat
    decreases width,
{
    if width == 0 {
        0
    } else {
        data[at] as nat + 256 * le(data, at + 1, (width - 1) as nat)
    }
}

/// Why the bytes cannot be read as an ELF image, if they cannot.
pub open spec fn header_error(data: Seq<u8>) -> Option<Seq<char>> {
    if data.len() < 16 {
        Some("File is shorter than the first ELF header part"@)
    } else if !(data[0] == 0x7f && data[1] == 0x45 && data[2] == 0x4c && data[3] == 0x46) {
        Some("Did not find ELF magic number"@)
    } else if data[4] != 1 && data[4] != 2 {
        Some("Invalid ELF class"@)
    } else {
        None
    }
}

/// Whether addresses in the image are eight bytes wide. Otherwise they are four bytes wide.
pub open spec fn is_64(data: Seq<u8>) -> bool {
    data[4] == 2
}

/// Either there is no header to read, or all of it lies in the image.
pub open spec fn header_readable(data: Seq<u8>) -> bool {
    header_error(data) is None ==> data.len() >= if is_64(data) { 64int } else { 52int }
}

pub open spec fn object_type_of(number: u16) -> ObjectType {
    match number {
        0 => ObjectType::NoType,
        1 => ObjectType::Relocatable,
        2 => ObjectType::Executable,
        3 => ObjectType::SharedObject,
        4 => ObjectType::Core,
        _ => ObjectType::ProcessorSpecific(number),
    }
}

pub open spec fn machine_of(number: u16) -> Machine {
    match number {
        0 => Machine::NoMachine,
        2 => Machine::Sparc,
        3 => Machine::X86,
        8 => Machine::Mips,
        0x14 => Machine::PowerPc,
        0x28 => Machine::Arm,
        0x2a => Machine::SuperH,
        0x32 => Machine::Ia64,
        0x3e => Machine::X86_64,
        0xb7 => Machine::AArch64,
        0xf7 => Machine::Bpf,
        _ => Machine::Other(number),
    }
}

pub open spec fn segment_type_of(number: u32) -> Option<SegmentType> {
    match number {
        0 => Some(SegmentType::Null),
        1 => Some(SegmentType::Load),
        2 => Some(SegmentType::Dynamic),
        3 => Some(SegmentType::Interp),
        4 => Some(SegmentType::Note),
        5 => Some(SegmentType::ShLib),
        6 => Some(SegmentType::Phdr),
        7 => Some(SegmentType::Tls),
        0x6474e552 => Some(SegmentType::GnuRelro),
        _ => if 0x60000000 <= number <= 0x6fffffff {
            Some(SegmentType::OsSpecific(number))
        } else if 0x70000000 <= number <= 0x7fffffff {
            Some(SegmentType::ProcessorSpecific(number))
        } else {
            None
        },
    }
}

/// The number that says what kind of object the image holds.
pub open spec fn type_number(data: Seq<u8>) -> u16 {
    le(data, 16, 2) as u16
}

/// The number that says which machine the image was built for.
pub open spec fn machine_number(data: Seq<u8>) -> u16 {
    le(data, 18, 2) as u16
}

pub open spec fn entry_point(data: Seq<u8>) -> u64 {
    if is_64(data) {
        le(data, 24, 8) as u64
    } else {
        le(data, 24, 4) as u64
    }
}

pub open spec fn ph_offset(data: Seq<u8>) -> u64 {
    if is_64(data) {
        le(data, 32, 8) as u64
    } else {
        le(data, 28, 4) as u64
    }
}

pub open spec fn ph_entry_size(data: Seq<u8>) -> u16 {
    if is_64(data) {
        le(data, 54, 2) as u16
    } else {
        le(data, 42, 2) as u16
    }
}

pub open spec fn ph_count(data: Seq<u8>) -> u16 {
    if is_64(data) {
        le(data, 56, 2) as u16
    } else {
        le(data, 44, 2) as u16
    }
}

/// The header of an image.
pub open spec fn header_of(data: Seq<u8>) -> Header {
    Header {
        type_: object_type_of(type_number(data)),
        machine: machine_of(machine_number(data)),
        entry_point: entry_point(data),
        ph_offset: ph_offset(data),
        ph_entry_size: ph_entry_size(data),
        ph_count: ph_count(data),
    }
}

/// How many program headers the image has: none where the table has no place or no width.
pub open spec fn row_count(data: Seq<u8>) -> nat {
    if ph_offset(data) > 0 && ph_entry_size(data) > 0 {
        ph_count(data) as nat
    } else {
        0
    }
}

/// Where the program header `index` begins.
pub open spec fn row_start(data: Seq<u8>, index: int) -> int {
    ph_offset(data) + index * ph_entry_size(data)
}

/// Either there is no program header `index`, or all of it lies in the image, at an address
/// that its widest field can be read from.
pub open spec fn row_readable(data: Seq<u8>, index: int) -> bool {
    0 <= index < row_count(data) ==> {
        &&& ph_entry_size(data) >= if is_64(data) { 56int } else { 32int }
        &&& row_start(data, index) + ph_entry_size(data) <= data.len()
        &&& row_start(data, index) % if is_64(data) { 8int } else { 4int } == 0
    }
}

/// The number that says what the program header `index` describes.
pub open spec fn segment_type_number(data: Seq<u8>, index: int) -> u32 {
    le(data, row_start(data, index), 4) as u32
}

/// The program header `index`.
pub open spec fn program_header_at(data: Seq<u8>, index: int) -> ProgramHeader {
    let at = row_start(data, index);
    let kind = segment_type_of(segment_type_number(data, index));
    if is_64(data) {
        ProgramHeader {
            kind,
            flags: Flags(le(data, at + 4, 4) as u32),
            offset: le(data, at + 8, 8) as u64,
            virtual_addr: le(data, at + 16, 8) as u64,
            file_size: le(data, at + 32, 8) as u64,
            mem_size: le(data, at + 40, 8) as u64,
        }
    } else {
        ProgramHeader {
            kind,
            flags: Flags(le(data, at + 24, 4) as u32),
            offset: le(data, at + 4, 4) as u64,
            virtual_addr: le(data, at + 8, 4) as u64,
            file_size: le(data, at + 16, 4) as u64,
            mem_size: le(data, at + 20, 4) as u64,
        }
    }
}

/// The program header table.
pub open spec fn program_headers(data: Seq<u8>) -> Seq<ProgramHeader> {
    Seq::new(row_count(data), |i: int| program_header_at(data, i))
}

/// Every program header can be read.
pub open spec fn table_readable(data: Seq<u8>) -> bool {
    forall|i: int| 0 <= i < row_count(data) ==> #[trigger] row_readable(data, i)
}

/// The bytes that a program header describes all lie in the image.
pub open spec fn segment_readable(data: Seq<u8>, row: ProgramHeader) -> bool {
    &&& row.offset + row.file_size <= data.len()
    &&& !is_64(data) ==> row.offset + row.file_size <= u32::MAX
}

/// The bytes that a program header describes.
pub open spec fn segment_bytes(data: Seq<u8>, row: ProgramHeader) -> Seq<u8> {
    data.subrange(row.offset as int, row.offset + row.file_size)
}

} // verus!
