use kernel_process::elf::ElfFile;
use kernel_process::elf_format::{Flags, Machine, ObjectType, SegmentType};
use kernel_process::fs::INodeRef;
use kernel_process::memory::{Backing, MemoryAttr, MemorySet};

const SIZE: usize = 0x3c0;

fn elf_put(image: &mut [u8], at: usize, width: usize, value: u64) {
    for i in 0..width {
        image[at + i] = (value >> (8 * i)) as u8;
    }
}

/// A 64-bit image whose program headers stand behind its header.
fn elf_wide(kind: u16, machine: u16, entry: u64, rows: u16) -> Vec<u8> {
    let mut image = vec![0u8; SIZE];
    image[..4].copy_from_slice(&[0x7f, b'E', b'L', b'F']);
    image[4] = 2;
    image[5] = 1;
    image[6] = 1;
    elf_put(&mut image, 16, 2, kind as u64);
    elf_put(&mut image, 18, 2, machine as u64);
    elf_put(&mut image, 24, 8, entry);
    elf_put(&mut image, 32, 8, 64);
    elf_put(&mut image, 54, 2, 56);
    elf_put(&mut image, 56, 2, rows as u64);
    image
}

/// Sets a row: kind, flags, offset, virtual address, size in the file, size in memory.
fn elf_wide_row(image: &mut [u8], index: usize, row: (u32, u32, u64, u64, u64, u64)) {
    let at = 64 + 56 * index;
    elf_put(image, at, 4, row.0 as u64);
    elf_put(image, at + 4, 4, row.1 as u64);
    elf_put(image, at + 8, 8, row.2);
    elf_put(image, at + 16, 8, row.3);
    elf_put(image, at + 32, 8, row.4);
    elf_put(image, at + 40, 8, row.5);
}

/// A 32-bit image whose program headers stand behind its header.
fn elf_narrow(kind: u16, machine: u16, entry: u32, rows: u16) -> Vec<u8> {
    let mut image = vec![0u8; SIZE];
    image[..4].copy_from_slice(&[0x7f, b'E', b'L', b'F']);
    image[4] = 1;
    image[5] = 1;
    image[6] = 1;
    elf_put(&mut image, 16, 2, kind as u64);
    elf_put(&mut image, 18, 2, machine as u64);
    elf_put(&mut image, 24, 4, entry as u64);
    elf_put(&mut image, 28, 4, 52);
    elf_put(&mut image, 42, 2, 32);
    elf_put(&mut image, 44, 2, rows as u64);
    image
}

fn elf_narrow_row(image: &mut [u8], index: usize, row: (u32, u32, u32, u32, u32, u32)) {
    let at = 52 + 32 * index;
    elf_put(image, at, 4, row.0 as u64);
    elf_put(image, at + 24, 4, row.1 as u64);
    elf_put(image, at + 4, 4, row.2 as u64);
    elf_put(image, at + 8, 4, row.3 as u64);
    elf_put(image, at + 16, 4, row.4 as u64);
    elf_put(image, at + 20, 4, row.5 as u64);
}

fn elf_of(image: &[u8]) -> ElfFile {
    ElfFile::new(image).unwrap()
}

#[test]
fn short_file_is_refused() {
    assert_eq!(
        ElfFile::new(&[0x7f, b'E', b'L', b'F']).unwrap_err(),
        "File is shorter than the first ELF header part"
    );
}

#[test]
fn missing_magic_is_refused() {
    let mut image = elf_wide(2, 0x3e, 0, 0);
    image[1] = b'F';
    assert_eq!(ElfFile::new(&image).unwrap_err(), "Did not find ELF magic number");
}

#[test]
fn unknown_class_is_refused() {
    for class in [0u8, 3, 255] {
        let mut image = elf_wide(2, 0x3e, 0, 0);
        image[4] = class;
        assert_eq!(ElfFile::new(&image).unwrap_err(), "Invalid ELF class");
    }
}

#[test]
fn wide_header_is_read() {
    let elf = elf_of(&elf_wide(3, 0xb7, 0x1234_5678_9abc_def0, 5));
    assert_eq!(elf.header.type_, ObjectType::SharedObject);
    assert_eq!(elf.header.machine, Machine::AArch64);
    assert_eq!(elf.header.entry_point, 0x1234_5678_9abc_def0);
    assert_eq!(elf.header.ph_offset, 64);
    assert_eq!(elf.header.ph_entry_size, 56);
    assert_eq!(elf.header.ph_count, 5);
    assert_eq!(elf.input.len(), SIZE);
}

#[test]
fn narrow_header_is_read() {
    let elf = elf_of(&elf_narrow(2, 243, 0x8048_0123, 3));
    assert_eq!(elf.header.type_, ObjectType::Executable);
    assert_eq!(elf.header.machine, Machine::Other(243));
    assert_eq!(elf.header.entry_point, 0x8048_0123);
    assert_eq!(elf.header.ph_offset, 52);
    assert_eq!(elf.header.ph_entry_size, 32);
    assert_eq!(elf.header.ph_count, 3);
}

#[test]
fn image_is_read_at_any_address() {
    let image = elf_wide(2, 0x3e, 0x40_1000, 0);
    for shift in 0..8 {
        let mut room = vec![0u8; shift];
        room.extend_from_slice(&image);
        assert_eq!(elf_of(&room[shift..]).header.entry_point, 0x40_1000);
    }
}

#[test]
fn every_object_type_is_told_apart() {
    let known = [
        (0, ObjectType::NoType),
        (1, ObjectType::Relocatable),
        (2, ObjectType::Executable),
        (3, ObjectType::SharedObject),
        (4, ObjectType::Core),
        (5, ObjectType::ProcessorSpecific(5)),
        (0xff00, ObjectType::ProcessorSpecific(0xff00)),
    ];
    for (number, kind) in known {
        assert_eq!(elf_of(&elf_wide(number, 0x3e, 0, 0)).header.type_, kind);
    }
}

#[test]
fn every_machine_is_told_apart() {
    let known = [
        (0, Machine::NoMachine),
        (2, Machine::Sparc),
        (3, Machine::X86),
        (8, Machine::Mips),
        (0x14, Machine::PowerPc),
        (0x28, Machine::Arm),
        (0x2a, Machine::SuperH),
        (0x32, Machine::Ia64),
        (0x3e, Machine::X86_64),
        (0xb7, Machine::AArch64),
        (0xf7, Machine::Bpf),
        (243, Machine::Other(243)),
        (1, Machine::Other(1)),
    ];
    for (number, machine) in known {
        assert_eq!(elf_of(&elf_wide(2, number, 0, 0)).header.machine, machine);
    }
}

#[test]
fn every_segment_type_is_told_apart() {
    let known = [
        (0, Some(SegmentType::Null)),
        (1, Some(SegmentType::Load)),
        (2, Some(SegmentType::Dynamic)),
        (3, Some(SegmentType::Interp)),
        (4, Some(SegmentType::Note)),
        (5, Some(SegmentType::ShLib)),
        (6, Some(SegmentType::Phdr)),
        (7, Some(SegmentType::Tls)),
        (0x6474e552, Some(SegmentType::GnuRelro)),
        (0x6474e550, Some(SegmentType::OsSpecific(0x6474e550))),
        (0x6fff_ffff, Some(SegmentType::OsSpecific(0x6fff_ffff))),
        (0x7000_0000, Some(SegmentType::ProcessorSpecific(0x7000_0000))),
        (0x7fff_ffff, Some(SegmentType::ProcessorSpecific(0x7fff_ffff))),
        (8, None),
        (0x5fff_ffff, None),
        (0x8000_0000, None),
    ];
    for (number, kind) in known {
        let mut image = elf_wide(2, 0x3e, 0, 1);
        elf_wide_row(&mut image, 0, (number, 0, 0, 0, 0, 0));
        assert_eq!(elf_of(&image).program_header(0).unwrap().kind, kind);
    }
}

#[test]
fn program_headers_are_read_row_by_row() {
    let mut wide = elf_wide(2, 0x3e, 0, 2);
    elf_wide_row(&mut wide, 0, (1, 5, 1, 2, 3, 4));
    elf_wide_row(&mut wide, 1, (4, 6, 11, 12, 13, 14));
    let row = elf_of(&wide).program_header(1).unwrap();
    assert_eq!(row.kind, Some(SegmentType::Note));
    assert_eq!(row.flags, Flags(6));
    assert_eq!(
        (row.offset, row.virtual_addr, row.file_size, row.mem_size),
        (11, 12, 13, 14)
    );
    assert!(elf_of(&wide).program_header(2).is_none());

    let mut narrow = elf_narrow(2, 3, 0, 2);
    elf_narrow_row(&mut narrow, 1, (1, 7, 21, 22, 23, 24));
    let row = elf_of(&narrow).program_header(1).unwrap();
    assert_eq!(row.kind, Some(SegmentType::Load));
    assert_eq!(row.flags, Flags(7));
    assert_eq!(
        (row.offset, row.virtual_addr, row.file_size, row.mem_size),
        (21, 22, 23, 24)
    );
    assert!(elf_of(&narrow).program_header(2).is_none());
}

#[test]
fn table_without_a_place_or_a_width_has_no_rows() {
    let mut nowhere = elf_wide(2, 0x3e, 0, 4);
    elf_put(&mut nowhere, 32, 8, 0);
    assert!(elf_of(&nowhere).program_header(0).is_none());
    let mut flat = elf_wide(2, 0x3e, 0, 4);
    elf_put(&mut flat, 54, 2, 0);
    assert!(elf_of(&flat).program_header(0).is_none());
    assert!(elf_of(&flat).is_loadable_program());
}

#[test]
fn flags_become_rights() {
    let attr = |readonly, execute| MemoryAttr { user: true, readonly, execute };
    assert_eq!(Flags(0).to_attr(), attr(true, false));
    assert_eq!(Flags(1).to_attr(), attr(true, true));
    assert_eq!(Flags(2).to_attr(), attr(false, false));
    assert_eq!(Flags(3).to_attr(), attr(false, true));
    assert_eq!(Flags(4).to_attr(), attr(true, false));
    assert_eq!(Flags(5).to_attr(), attr(true, true));
    assert_eq!(Flags(6).to_attr(), attr(false, false));
    assert_eq!(Flags(0xffff_fff8).to_attr(), attr(true, false));
}

#[test]
fn load_segments_are_mapped_in_order() {
    let mut image = elf_wide(2, 0x3e, 0, 3);
    elf_wide_row(&mut image, 0, (1, 5, 0, 0x40_0000, 0x1234, 0x1234));
    elf_wide_row(&mut image, 1, (4, 4, 0x2000, 0x90_0000, 0x20, 0x20));
    elf_wide_row(&mut image, 2, (1, 6, 0x2000, 0x60_2000, 0x100, 0x1800));
    let elf = elf_of(&image);
    assert!(elf.is_loadable_program());
    let (ms, bias) = elf.make_memory_set(INodeRef::Node(9));
    assert_eq!(ms.areas.len(), 2);
    let text = ms.areas[0];
    assert_eq!((text.start, text.end, text.name), (0x40_0000, 0x40_1234, "elf"));
    assert_eq!(text.attr, MemoryAttr { user: true, readonly: true, execute: true });
    match text.backing {
        Backing::File { file, mem_start, file_start, file_end } => {
            assert_eq!(file, INodeRef::Node(9));
            assert_eq!((mem_start, file_start, file_end), (0x40_0000, 0, 0x1234));
        }
        _ => panic!("not from the file"),
    }
    let data = ms.areas[1];
    assert_eq!((data.start, data.end, data.name), (0x60_2000, 0x60_3800, "elf"));
    assert_eq!(data.attr, MemoryAttr { user: true, readonly: false, execute: false });
    match data.backing {
        Backing::File { mem_start, file_start, file_end, .. } => {
            assert_eq!((mem_start, file_start, file_end), (0x60_2000, 0x2000, 0x2100));
        }
        _ => panic!("not from the file"),
    }
    assert_eq!(bias, 0x60_4000);
}

#[test]
fn bias_is_the_page_above_the_farthest_segment() {
    let ends = [(0u64, 0x1000usize), (1, 0x1000), (0xfff, 0x1000), (0x1000, 0x2000), (0x1001, 0x2000)];
    for (end, expected) in ends {
        let mut image = elf_wide(2, 0x3e, 0, 2);
        elf_wide_row(&mut image, 0, (1, 5, 0, 0, end, end));
        elf_wide_row(&mut image, 1, (1, 5, 0, 0, 0, end / 2));
        let (_, bias) = elf_of(&image).make_memory_set(INodeRef::Node(0));
        assert_eq!(bias, expected);
        assert_eq!(bias % 4096, 0);
        assert!(bias > end as usize);
    }
    let (ms, bias) = elf_of(&elf_wide(2, 0x3e, 0, 0)).make_memory_set(INodeRef::Node(0));
    assert_eq!((ms.areas.len(), bias), (0, 0x1000));
}

#[test]
fn interpreter_is_mapped_clear_of_the_program() {
    let mut program = elf_wide(2, 0x3e, 0, 1);
    elf_wide_row(&mut program, 0, (1, 5, 0, 0x1_0000, 0x800, 0x800));
    let (mut ms, bias) = elf_of(&program).make_memory_set(INodeRef::Node(1));
    assert_eq!(bias, 0x1_1000);
    let mut interp = elf_wide(3, 0x3e, 0, 2);
    elf_wide_row(&mut interp, 0, (1, 5, 0, 0, 0x300, 0x300));
    elf_wide_row(&mut interp, 1, (1, 6, 0x300, 0x2300, 0x40, 0x80));
    let elf = elf_of(&interp);
    assert!(elf.is_loadable_interpreter(bias));
    elf.append_as_interpreter(INodeRef::Node(2), &mut ms, bias);
    assert_eq!(ms.areas.len(), 3);
    let (text, data) = (ms.areas[1], ms.areas[2]);
    assert_eq!((text.start, text.end, text.name), (0x1_1000, 0x1_1300, "elf-interp"));
    assert_eq!((data.start, data.end, data.name), (0x1_3300, 0x1_3380, "elf-interp"));
    match data.backing {
        Backing::File { file, mem_start, file_start, file_end } => {
            assert_eq!(file, INodeRef::Node(2));
            assert_eq!((mem_start, file_start, file_end), (0x1_3300, 0x300, 0x340));
        }
        _ => panic!("not from the file"),
    }
    assert!(ms.areas[0].end < text.start && ms.areas[0].end < data.start);
}

#[test]
fn nothing_to_map_leaves_the_set_alone() {
    let mut ms = MemorySet::new();
    elf_of(&elf_wide(3, 0x3e, 0, 0)).append_as_interpreter(INodeRef::Node(2), &mut ms, 0x1000);
    assert_eq!(ms.areas.len(), 0);
}

#[test]
fn interpreter_path_loses_its_zero_bytes() {
    let mut image = elf_wide(2, 0x3e, 0, 2);
    elf_wide_row(&mut image, 0, (1, 5, 0, 0, 0, 0));
    elf_wide_row(&mut image, 1, (3, 4, 0x200, 0, 10, 10));
    image[0x200..0x20a].copy_from_slice(b"/lib/ld\0\0\0");
    assert_eq!(elf_of(&image).get_interpreter(), Ok("/lib/ld".to_string()));
    image[0x200..0x20a].copy_from_slice(b"/l\0b/ld.so");
    assert_eq!(elf_of(&image).get_interpreter(), Ok("/l\0b/ld.so".to_string()));
    image[0x200..0x20a].copy_from_slice(&[0; 10]);
    assert_eq!(elf_of(&image).get_interpreter(), Ok(String::new()));
}

#[test]
fn first_interpreter_counts() {
    let mut image = elf_wide(2, 0x3e, 0, 2);
    elf_wide_row(&mut image, 0, (3, 4, 0x200, 0, 2, 2));
    elf_wide_row(&mut image, 1, (3, 4, 0x208, 0, 2, 2));
    image[0x200..0x202].copy_from_slice(b"/a");
    image[0x208..0x20a].copy_from_slice(b"/b");
    assert_eq!(elf_of(&image).get_interpreter(), Ok("/a".to_string()));
}

#[test]
fn program_may_have_no_interpreter() {
    let mut image = elf_wide(2, 0x3e, 0, 1);
    elf_wide_row(&mut image, 0, (1, 5, 0, 0, 0, 0));
    assert_eq!(elf_of(&image).get_interpreter(), Err("no interp header"));
}

#[test]
fn interpreter_path_has_to_be_text() {
    let mut image = elf_wide(2, 0x3e, 0, 1);
    elf_wide_row(&mut image, 0, (3, 4, 0x200, 0, 4, 4));
    image[0x200..0x204].copy_from_slice(&[b'/', 0xff, 0xfe, 0]);
    assert_eq!(elf_of(&image).get_interpreter(), Err("failed to convert to utf8"));
    image[0x200..0x204].copy_from_slice(&[b'/', 0xc3, 0xa4, 0]);
    assert_eq!(elf_of(&image).get_interpreter(), Ok("/\u{e4}".to_string()));
}

#[test]
fn header_table_address_comes_from_its_own_segment() {
    let mut image = elf_wide(2, 0x3e, 0, 2);
    elf_wide_row(&mut image, 0, (1, 5, 0, 0x40_0000, 0, 0));
    elf_wide_row(&mut image, 1, (6, 4, 64, 0x77_0040, 112, 112));
    assert_eq!(elf_of(&image).get_phdr_vaddr(), Some(0x77_0040));
}

#[test]
fn header_table_address_is_inferred_from_the_file_start() {
    let mut image = elf_wide(2, 0x3e, 0, 3);
    elf_wide_row(&mut image, 0, (1, 5, 0x1000, 0x10_0000, 0, 0));
    elf_wide_row(&mut image, 1, (4, 5, 0, 0x20_0000, 0, 0));
    elf_wide_row(&mut image, 2, (1, 5, 0, 0x40_0000, 0, 0));
    assert_eq!(elf_of(&image).get_phdr_vaddr(), Some(0x40_0040));
}

#[test]
fn header_table_may_have_no_address() {
    let mut image = elf_wide(2, 0x3e, 0, 1);
    elf_wide_row(&mut image, 0, (1, 5, 0x1000, 0x40_0000, 0, 0));
    assert_eq!(elf_of(&image).get_phdr_vaddr(), None);
}

#[test]
fn narrow_program_is_mapped() {
    let mut image = elf_narrow(2, 8, 0x40_0000, 2);
    elf_narrow_row(&mut image, 0, (1, 5, 0, 0x40_0000, 0x600, 0x700));
    elf_narrow_row(&mut image, 1, (3, 4, 0x300, 0, 8, 8));
    image[0x300..0x308].copy_from_slice(b"/lib/a\0\0");
    let elf = elf_of(&image);
    assert!(elf.is_loadable_program());
    let (ms, bias) = elf.make_memory_set(INodeRef::Node(4));
    assert_eq!((ms.areas[0].start, ms.areas[0].end), (0x40_0000, 0x40_0700));
    assert_eq!(bias, 0x40_1000);
    assert_eq!(elf.get_interpreter(), Ok("/lib/a".to_string()));
    assert_eq!(elf.get_phdr_vaddr(), Some(0x40_0034));
}

#[test]
fn table_outside_the_image_cannot_be_loaded() {
    let mut outside = elf_wide(2, 0x3e, 0, 1);
    elf_put(&mut outside, 32, 8, (SIZE - 48) as u64);
    assert!(!elf_of(&outside).is_loadable_program());
    assert!(!elf_of(&outside).is_loadable_interpreter(0));
    let mut far = elf_wide(2, 0x3e, 0, 1);
    elf_put(&mut far, 32, 8, u64::MAX - 7);
    assert!(!elf_of(&far).is_loadable_program());
    let mut crooked = elf_wide(2, 0x3e, 0, 1);
    elf_put(&mut crooked, 32, 8, 65);
    assert!(!elf_of(&crooked).is_loadable_program());
    let mut thin = elf_wide(2, 0x3e, 0, 1);
    elf_put(&mut thin, 54, 2, 48);
    assert!(!elf_of(&thin).is_loadable_program());
    let mut long = elf_wide(2, 0x3e, 0, 17);
    assert!(!elf_of(&long).is_loadable_program());
    elf_put(&mut long, 56, 2, 16);
    assert!(elf_of(&long).is_loadable_program());
}

#[test]
fn addresses_that_do_not_fit_cannot_be_loaded() {
    let top = usize::MAX as u64;
    let mut image = elf_wide(2, 0x3e, 0, 1);
    elf_wide_row(&mut image, 0, (1, 5, 8, top, 0, 1));
    assert!(!elf_of(&image).is_loadable_program());
    elf_wide_row(&mut image, 0, (1, 5, 8, top - 4096, 0, 1));
    assert!(!elf_of(&image).is_loadable_program());
    elf_wide_row(&mut image, 0, (1, 5, 8, top - 4096, 0, 0));
    assert!(elf_of(&image).is_loadable_program());
    elf_wide_row(&mut image, 0, (1, 5, top, 0, 1, 0));
    assert!(!elf_of(&image).is_loadable_program());
    elf_wide_row(&mut image, 0, (1, 5, 0, top - 8192, 0, 0));
    assert!(elf_of(&image).is_loadable_interpreter(8192));
    assert!(!elf_of(&image).is_loadable_interpreter(8193));
    let late = elf_wide(3, 0x3e, top, 0);
    assert!(elf_of(&late).is_loadable_interpreter(0));
    assert!(!elf_of(&late).is_loadable_interpreter(1));
}

#[test]
fn inferred_table_address_has_to_fit() {
    let mut image = elf_wide(2, 0x3e, 0, 2);
    elf_wide_row(&mut image, 0, (1, 5, 0, u64::MAX - 8191, 0, 0));
    assert!(elf_of(&image).is_loadable_program());
    elf_put(&mut image, 32, 8, 8192);
    assert!(!elf_of(&image).is_loadable_program());
}

#[test]
fn interpreter_path_outside_the_image_cannot_be_loaded() {
    let mut image = elf_wide(2, 0x3e, 0, 1);
    elf_wide_row(&mut image, 0, (3, 4, 0x3b8, 0, 8, 8));
    assert!(elf_of(&image).is_loadable_program());
    elf_wide_row(&mut image, 0, (3, 4, 0x3b8, 0, 9, 9));
    assert!(!elf_of(&image).is_loadable_program());
    elf_wide_row(&mut image, 0, (3, 4, u64::MAX, 0, 1, 1));
    assert!(!elf_of(&image).is_loadable_program());
}
