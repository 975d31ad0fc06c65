//! What holds of the steps in which a program is loaded, said of the bytes that were read and
//! of the address space that comes out.
use crate::elf;
use crate::elf_format;
use crate::elf_format::{Machine, SegmentType};
use crate::elf_laws;
use crate::fs::INodeRef;
use crate::kernel::Kernel;
use crate::loader;
use crate::loader::{
    Arch, LoadEvent, LoadStage, LoadStep, ProgramPart, UserVm, UserVmLoad, HEAD_SIZE,
};
use crate::memory::Backing;
use crate::thread::Thread;
use vstd::prelude::*;

verus! {

/// Each machine runs the images that have its number.
pub proof fn law_machine_runs_its_own_images(arch: &Arch, machine: Machine, r: bool)
    requires
        call_ensures(Arch::runs, (arch, machine), r),
    ensures
        r <==> match *arch {
            Arch::X86_64 => machine == Machine::X86_64,
            Arch::AArch64 => machine == Machine::AArch64,
            Arch::RiscV => machine == Machine::Other(243),
            Arch::Mips => machine == Machine::Mips,
        },
{
}

/// What the numbers in a header say of an image.
proof fn lemma_header_numbers(d: Seq<u8>)
    ensures
        loader::is_startable(d) <==> elf_format::le(d, 16, 2) == 2 || elf_format::le(d, 16, 2) == 3,
        forall|arch: Arch|
            elf_format::header_of(d).machine == #[trigger] arch.machine() <==> elf_format::le(
                d,
                18,
                2,
            ) == (match arch {
                Arch::X86_64 => 62int,
                Arch::AArch64 => 183int,
                Arch::RiscV => 243int,
                Arch::Mips => 8int,
            }),
        elf_format::entry_point(d) == (if d[4] == 2 {
            elf_format::le(d, 24, 8)
        } else {
            elf_format::le(d, 24, 4)
        }),
        elf_format::ph_entry_size(d) == (if d[4] == 2 {
            elf_format::le(d, 54, 2)
        } else {
            elf_format::le(d, 42, 2)
        }),
        elf_format::ph_count(d) == (if d[4] == 2 {
            elf_format::le(d, 56, 2)
        } else {
            elf_format::le(d, 44, 2)
        }),
{
    elf_laws::law_numbers_are_little_endian(d, 16);
    elf_laws::law_numbers_are_little_endian(d, 18);
    elf_laws::law_numbers_are_little_endian(d, 24);
    elf_laws::law_numbers_are_little_endian(d, 42);
    elf_laws::law_numbers_are_little_endian(d, 44);
    elf_laws::law_numbers_are_little_endian(d, 54);
    elf_laws::law_numbers_are_little_endian(d, 56);
}

/// A program is refused exactly where its first bytes are no header, or name neither an
/// executable (2) nor a shared object (3), or another machine; the first of these is the
/// reason. Otherwise the load goes on or is done.
pub proof fn law_program_is_judged_by_its_header<K: Kernel>(
    load: UserVmLoad,
    head: [u8; HEAD_SIZE],
    step: LoadStep,
)
    requires
        call_ensures(Thread::<K>::new_user_vm, (load, LoadEvent::Read(Some(head))), step),
        load.stage is Program,
    ensures
        ({
            let d = head@;
            let magic = d[0] == 0x7f && d[1] == 0x45 && d[2] == 0x4c && d[3] == 0x46;
            let class = d[4] == 1 || d[4] == 2;
            let kind = elf_format::le(d, 16, 2);
            let machine = elf_format::le(d, 18, 2);
            let own = match load.arch {
                Arch::X86_64 => 62int,
                Arch::AArch64 => 183int,
                Arch::RiscV => 243int,
                Arch::Mips => 8int,
            };
            if !magic {
                step matches LoadStep::Fail(e) && e@ == "Did not find ELF magic number"@
            } else if !class {
                step matches LoadStep::Fail(e) && e@ == "Invalid ELF class"@
            } else if kind != 2 && kind != 3 {
                step matches LoadStep::Fail(e) && e@ == "ELF is not executable or shared object"@
            } else if machine != own {
                step matches LoadStep::Fail(e) && e@ == "invalid ELF arch"@
            } else {
                step is Lookup || step is Done
            }
        }),
{
    lemma_header_numbers(head@);
    assert(load.arch.machine() == load.arch.machine());
}

/// What cannot be read cannot be loaded, be it the program or its interpreter.
pub proof fn law_failed_read_fails<K: Kernel>(load: UserVmLoad, step: LoadStep)
    requires
        call_ensures(Thread::<K>::new_user_vm, (load, LoadEvent::Read(None)), step),
    ensures
        step matches LoadStep::Fail(e) && e@ == "failed to read from INode"@,
{
}

/// A program that is not refused and whose first segment that names an interpreter is `i` in
/// its table has the path looked up that is the text of that whole segment; where the segment
/// holds no text, it is loaded without interpreter.
pub proof fn law_named_interpreter_is_looked_up<K: Kernel>(
    load: UserVmLoad,
    head: [u8; HEAD_SIZE],
    step: LoadStep,
    i: int,
)
    requires
        call_ensures(Thread::<K>::new_user_vm, (load, LoadEvent::Read(Some(head))), step),
        load.stage is Program,
        !(step is Fail),
        0 <= i < elf_format::program_headers(head@).len(),
        elf_format::program_headers(head@)[i].kind == Some(SegmentType::Interp),
        forall|k: int|
            0 <= k < i
                ==> (#[trigger] elf_format::program_headers(head@)[k]).kind != Some(SegmentType::Interp),
        elf_format::program_headers(head@)[i].offset
            + elf_format::program_headers(head@)[i].file_size <= HEAD_SIZE,
    ensures
        ({
            let row = elf_format::program_headers(head@)[i];
            let segment = head@.subrange(row.offset as int, row.offset + row.file_size);
            &&& step matches LoadStep::Lookup(_, path) ==> {
                let bytes = vstd::utf8::encode_utf8(path@);
                &&& bytes.len() <= segment.len()
                &&& bytes == segment.take(bytes.len() as int)
                &&& forall|k: int| bytes.len() <= k < segment.len() ==> segment[k] == 0
                &&& bytes.len() > 0 ==> bytes.last() != 0
            }
            &&& forall|n: int|
                0 <= n <= segment.len() && (n == 0 || segment[n - 1] != 0) && (forall|k: int|
                    n <= k < segment.len() ==> segment[k] == 0) ==> (step is Lookup
                    <==> vstd::utf8::valid_utf8(#[trigger] segment.take(n)))
            &&& step is Lookup || step is Done
        }),
{
    elf_laws::law_path_is_the_whole_segment(head@, i);
}

/// A program that is not refused and has no segment that names an interpreter is loaded at
/// once.
pub proof fn law_program_without_interpreter_is_done<K: Kernel>(
    load: UserVmLoad,
    head: [u8; HEAD_SIZE],
    step: LoadStep,
)
    requires
        call_ensures(Thread::<K>::new_user_vm, (load, LoadEvent::Read(Some(head))), step),
        load.stage is Program,
        !(step is Fail),
        forall|k: int|
            0 <= k < elf_format::program_headers(head@).len()
                ==> (#[trigger] elf_format::program_headers(head@)[k]).kind != Some(SegmentType::Interp),
    ensures
        step is Done,
{
    elf_laws::law_no_segment_means_no_path(head@);
}

/// A program that is loaded without interpreter has its load rows mapped in their order, each
/// at the addresses that it names, with the rights that its bits ask for, from the bytes of
/// the program that it names; behind them the stack, of which the last four pages are there at
/// once. It starts at its entry point, with the arguments that the load began with and the
/// auxiliary vector that its header gives.
pub proof fn law_static_program_is_laid_out<K: Kernel>(
    load: UserVmLoad,
    head: [u8; HEAD_SIZE],
    user_vm: UserVm,
) -> (rows: Seq<int>)
    requires
        call_ensures(
            Thread::<K>::new_user_vm,
            (load, LoadEvent::Read(Some(head))),
            LoadStep::Done(user_vm),
        ),
        load.stage is Program,
        16384 <= load.stack.size,
        load.stack.offset + load.stack.size <= usize::MAX,
        forall|i: int|
            0 <= i < elf_format::program_headers(head@).len()
                && (#[trigger] elf_format::program_headers(head@)[i]).kind
                    == Some(SegmentType::Load) ==> {
                &&& elf_format::program_headers(head@)[i].virtual_addr as usize
                    + elf_format::program_headers(head@)[i].mem_size as usize + 0 <= usize::MAX
                &&& elf_format::program_headers(head@)[i].offset as usize
                    + elf_format::program_headers(head@)[i].file_size as usize <= usize::MAX
            },
    ensures
        user_vm.vm@.len() == rows.len() + 2,
        forall|j: int, k: int| 0 <= j < k < rows.len() ==> rows[j] < rows[k],
        forall|j: int|
            0 <= j < rows.len() ==> 0 <= #[trigger] rows[j]
                < elf_format::program_headers(head@).len()
                    && elf_format::program_headers(head@)[rows[j]].kind == Some(
                SegmentType::Load,
            ),
        forall|i: int|
            0 <= i < elf_format::program_headers(head@).len()
                && (#[trigger] elf_format::program_headers(head@)[i]).kind
                    == Some(SegmentType::Load)
                ==> rows.contains(i),
        forall|j: int|
            #![trigger rows[j]]
            0 <= j < rows.len() ==> {
                let table = elf_format::program_headers(head@);
                let area = user_vm.vm@[j];
                &&& area.start == table[rows[j]].virtual_addr as usize + 0
                &&& area.end == table[rows[j]].virtual_addr as usize
                    + table[rows[j]].mem_size as usize + 0
                &&& area.attr.user
                &&& area.attr.readonly <==> table[rows[j]].flags.0 & 2 == 0
                &&& area.attr.execute <==> table[rows[j]].flags.0 & 1 != 0
                &&& area.name == "elf"
                &&& area.backing matches Backing::File { file, mem_start, file_start, file_end }
                &&& file == load.inode
                &&& mem_start == area.start
                &&& file_start == table[rows[j]].offset as usize
                &&& file_end == table[rows[j]].offset as usize + table[rows[j]].file_size as usize
            },
        ({
            let later = user_vm.vm@[user_vm.vm@.len() - 2];
            let now = user_vm.vm@[user_vm.vm@.len() - 1];
            let top = load.stack.offset + load.stack.size;
            &&& later.start == load.stack.offset
            &&& later.end == top - 16384
            &&& now.start == top - 16384
            &&& now.end == top
            &&& later.attr.user && !later.attr.readonly && later.attr.execute
            &&& now.attr.user && !now.attr.readonly && now.attr.execute
            &&& later.backing == Backing::Delay
            &&& now.backing == Backing::ByFrame
            &&& later.name == "user_stack_delay"
            &&& now.name == "user_stack"
            &&& user_vm.ustack_top == top
        }),
        user_vm.init_info.args == load.args,
        user_vm.init_info.envs == load.envs,
        user_vm.entry_addr == ((if head@[4] == 2 {
            elf_format::le(head@, 24, 8)
        } else {
            elf_format::le(head@, 24, 4)
        }) as u64) as usize,
        ({
            let d = head@;
            let auxv = user_vm.init_info.auxv@;
            &&& auxv.contains_key(4) && auxv[4] == (if d[4] == 2 {
                elf_format::le(d, 54, 2)
            } else {
                elf_format::le(d, 42, 2)
            })
            &&& auxv.contains_key(5) && auxv[5] == (if d[4] == 2 {
                elf_format::le(d, 56, 2)
            } else {
                elf_format::le(d, 44, 2)
            })
            &&& auxv.contains_key(6) && auxv[6] == 4096
            &&& auxv.contains_key(3) <==> elf::phdr_vaddr(d) is Some
            &&& elf::phdr_vaddr(d) matches Some(addr) ==> auxv[3] == (addr as u64) as usize
            &&& forall|k: u8| #[trigger] auxv.contains_key(k) ==> 3 <= k <= 6
        }),
{
    lemma_header_numbers(head@);
    let table = elf_format::program_headers(head@);
    let rows = elf_laws::law_areas_are_the_load_rows(table, load.inode, 0, "elf");
    let areas = elf::load_areas(table, load.inode, 0, "elf");
    assert forall|j: int| 0 <= j < rows.len() implies #[trigger] rows[j] == rows[j]
        && user_vm.vm@[j] == areas[j] by {
    }
    rows
}

/// A program that waits for its interpreter keeps what it was begun with, and what it
/// contributes to its address space is what it would be mapped to without interpreter. The
/// bias is the start of a page, behind the end of every load row, and at most one page behind
/// the last of these ends, or the second page of all where there is no load row.
pub proof fn law_dynamic_program_is_prepared<K: Kernel>(
    load: UserVmLoad,
    head: [u8; HEAD_SIZE],
    next: UserVmLoad,
    path: String,
    part: ProgramPart,
) -> (rows: Seq<int>)
    requires
        call_ensures(
            Thread::<K>::new_user_vm,
            (load, LoadEvent::Read(Some(head))),
            LoadStep::Lookup(next, path),
        ),
        load.stage is Program,
        next.stage == LoadStage::Lookup(part),
        forall|i: int|
            0 <= i < elf_format::program_headers(head@).len()
                && (#[trigger] elf_format::program_headers(head@)[i]).kind
                    == Some(SegmentType::Load) ==> {
                &&& elf_format::program_headers(head@)[i].virtual_addr as usize
                    + elf_format::program_headers(head@)[i].mem_size as usize + 0 <= usize::MAX
                &&& elf_format::program_headers(head@)[i].offset as usize
                    + elf_format::program_headers(head@)[i].file_size as usize <= usize::MAX
            },
    ensures
        next.arch == load.arch,
        next.stack == load.stack,
        next.inode == load.inode,
        next.args == load.args,
        next.envs == load.envs,
        part.vm@.len() == rows.len(),
        forall|j: int, k: int| 0 <= j < k < rows.len() ==> rows[j] < rows[k],
        forall|j: int|
            0 <= j < rows.len() ==> 0 <= #[trigger] rows[j]
                < elf_format::program_headers(head@).len()
                    && elf_format::program_headers(head@)[rows[j]].kind == Some(
                SegmentType::Load,
            ),
        forall|i: int|
            0 <= i < elf_format::program_headers(head@).len()
                && (#[trigger] elf_format::program_headers(head@)[i]).kind
                    == Some(SegmentType::Load)
                ==> rows.contains(i),
        forall|j: int|
            #![trigger rows[j]]
            0 <= j < rows.len() ==> {
                let table = elf_format::program_headers(head@);
                let area = part.vm@[j];
                &&& area.start == table[rows[j]].virtual_addr as usize + 0
                &&& area.end == table[rows[j]].virtual_addr as usize
                    + table[rows[j]].mem_size as usize + 0
                &&& area.attr.user
                &&& area.attr.readonly <==> table[rows[j]].flags.0 & 2 == 0
                &&& area.attr.execute <==> table[rows[j]].flags.0 & 1 != 0
                &&& area.name == "elf"
                &&& area.backing matches Backing::File { file, mem_start, file_start, file_end }
                &&& file == load.inode
                &&& mem_start == area.start
                &&& file_start == table[rows[j]].offset as usize
                &&& file_end == table[rows[j]].offset as usize + table[rows[j]].file_size as usize
            },
        part.bias as int % 4096 == 0,
        forall|i: int|
            0 <= i < elf_format::program_headers(head@).len()
                && (#[trigger] elf_format::program_headers(head@)[i]).kind
                    == Some(SegmentType::Load)
                ==> part.bias > elf_format::program_headers(head@)[i].virtual_addr as usize
                    + elf_format::program_headers(head@)[i].mem_size as usize,
        part.bias == 4096 || exists|i: int|
            0 <= i < elf_format::program_headers(head@).len()
                && (#[trigger] elf_format::program_headers(head@)[i]).kind
                    == Some(SegmentType::Load)
                && part.bias <= elf_format::program_headers(head@)[i].virtual_addr as usize
                    + elf_format::program_headers(head@)[i].mem_size as usize + 4096,
        part.entry_point == ((if head@[4] == 2 {
            elf_format::le(head@, 24, 8)
        } else {
            elf_format::le(head@, 24, 4)
        }) as u64) as usize,
        ({
            let d = head@;
            let auxv = part.auxv@;
            &&& auxv.contains_key(4) && auxv[4] == (if d[4] == 2 {
                elf_format::le(d, 54, 2)
            } else {
                elf_format::le(d, 42, 2)
            })
            &&& auxv.contains_key(5) && auxv[5] == (if d[4] == 2 {
                elf_format::le(d, 56, 2)
            } else {
                elf_format::le(d, 44, 2)
            })
            &&& auxv.contains_key(6) && auxv[6] == 4096
            &&& auxv.contains_key(3) <==> elf::phdr_vaddr(d) is Some
            &&& elf::phdr_vaddr(d) matches Some(addr) ==> auxv[3] == (addr as u64) as usize
            &&& forall|k: u8| #[trigger] auxv.contains_key(k) ==> 3 <= k <= 6
        }),
{
    lemma_header_numbers(head@);
    let table = elf_format::program_headers(head@);
    elf_laws::law_bias_is_the_next_page(table);
    let rows = elf_laws::law_areas_are_the_load_rows(table, load.inode, 0, "elf");
    let areas = elf::load_areas(table, load.inode, 0, "elf");
    assert forall|j: int| 0 <= j < rows.len() implies #[trigger] rows[j] == rows[j]
        && part.vm@[j] == areas[j] by {
    }
    rows
}

/// The stage of a load that waits for its interpreter is the lookup of it.
pub proof fn law_lookup_is_waited_for<K: Kernel>(
    load: UserVmLoad,
    event: LoadEvent,
    next: UserVmLoad,
    path: String,
)
    requires
        call_ensures(Thread::<K>::new_user_vm, (load, event), LoadStep::Lookup(next, path)),
    ensures
        load.stage is Program,
        next.stage is Lookup,
{
}

/// The interpreter that is found is read, and nothing of the load changes; where none is
/// found the load fails.
pub proof fn law_found_interpreter_is_read<K: Kernel>(
    load: UserVmLoad,
    part: ProgramPart,
    found: Option<INodeRef>,
    step: LoadStep,
)
    requires
        call_ensures(Thread::<K>::new_user_vm, (load, LoadEvent::Found(found)), step),
        load.stage == LoadStage::Lookup(part),
    ensures
        match found {
            Some(inode) => step == LoadStep::Read(
                UserVmLoad { stage: LoadStage::Interpreter(part, inode), ..load },
                inode,
            ),
            None => step matches LoadStep::Fail(e) && e@ == "interpreter not found"@,
        },
{
}

/// An interpreter is refused exactly where its first bytes are no header.
pub proof fn law_interpreter_is_judged_by_its_header<K: Kernel>(
    load: UserVmLoad,
    head: [u8; HEAD_SIZE],
    step: LoadStep,
)
    requires
        call_ensures(Thread::<K>::new_user_vm, (load, LoadEvent::Read(Some(head))), step),
        load.stage is Interpreter,
    ensures
        ({
            let d = head@;
            let magic = d[0] == 0x7f && d[1] == 0x45 && d[2] == 0x4c && d[3] == 0x46;
            let class = d[4] == 1 || d[4] == 2;
            if !magic {
                step matches LoadStep::Fail(e) && e@ == "Did not find ELF magic number"@
            } else if !class {
                step matches LoadStep::Fail(e) && e@ == "Invalid ELF class"@
            } else {
                step is Done
            }
        }),
{
}

/// A program that is loaded with its interpreter has what it contributed mapped first, then
/// the load rows of the interpreter, each moved by the bias of the program, with the rights
/// that its bits ask for, from the bytes of the interpreter that it names, and then the stack.
/// It starts at the entry point of the interpreter, moved by the bias; its auxiliary vector
/// tells besides where the program itself starts and what the bias is.
pub proof fn law_dynamic_program_is_laid_out<K: Kernel>(
    load: UserVmLoad,
    part: ProgramPart,
    inode: INodeRef,
    head: [u8; HEAD_SIZE],
    user_vm: UserVm,
) -> (rows: Seq<int>)
    requires
        call_ensures(
            Thread::<K>::new_user_vm,
            (load, LoadEvent::Read(Some(head))),
            LoadStep::Done(user_vm),
        ),
        load.stage == LoadStage::Interpreter(part, inode),
        16384 <= load.stack.size,
        load.stack.offset + load.stack.size <= usize::MAX,
        forall|i: int|
            0 <= i < elf_format::program_headers(head@).len()
                && (#[trigger] elf_format::program_headers(head@)[i]).kind
                    == Some(SegmentType::Load) ==> {
                &&& elf_format::program_headers(head@)[i].virtual_addr as usize
                    + elf_format::program_headers(head@)[i].mem_size as usize + part.bias
                        <= usize::MAX
                &&& elf_format::program_headers(head@)[i].offset as usize
                    + elf_format::program_headers(head@)[i].file_size as usize <= usize::MAX
            },
    ensures
        user_vm.vm@.len() == part.vm@.len() + rows.len() + 2,
        forall|j: int| 0 <= j < part.vm@.len() ==> #[trigger] user_vm.vm@[j] == part.vm@[j],
        forall|j: int, k: int| 0 <= j < k < rows.len() ==> rows[j] < rows[k],
        forall|j: int|
            0 <= j < rows.len() ==> 0 <= #[trigger] rows[j]
                < elf_format::program_headers(head@).len()
                    && elf_format::program_headers(head@)[rows[j]].kind == Some(
                SegmentType::Load,
            ),
        forall|i: int|
            0 <= i < elf_format::program_headers(head@).len()
                && (#[trigger] elf_format::program_headers(head@)[i]).kind
                    == Some(SegmentType::Load)
                ==> rows.contains(i),
        forall|j: int|
            #![trigger rows[j]]
            0 <= j < rows.len() ==> {
                let table = elf_format::program_headers(head@);
                let area = user_vm.vm@[part.vm@.len() + j];
                &&& area.start == table[rows[j]].virtual_addr as usize + part.bias
                &&& area.end == table[rows[j]].virtual_addr as usize
                    + table[rows[j]].mem_size as usize + part.bias
                &&& area.attr.user
                &&& area.attr.readonly <==> table[rows[j]].flags.0 & 2 == 0
                &&& area.attr.execute <==> table[rows[j]].flags.0 & 1 != 0
                &&& area.name == "elf-interp"
                &&& area.backing matches Backing::File { file, mem_start, file_start, file_end }
                &&& file == inode
                &&& mem_start == area.start
                &&& file_start == table[rows[j]].offset as usize
                &&& file_end == table[rows[j]].offset as usize + table[rows[j]].file_size as usize
            },
        ({
            let later = user_vm.vm@[user_vm.vm@.len() - 2];
            let now = user_vm.vm@[user_vm.vm@.len() - 1];
            let top = load.stack.offset + load.stack.size;
            &&& later.start == load.stack.offset
            &&& later.end == top - 16384
            &&& now.start == top - 16384
            &&& now.end == top
            &&& later.attr.user && !later.attr.readonly && later.attr.execute
            &&& now.attr.user && !now.attr.readonly && now.attr.execute
            &&& later.backing == Backing::Delay
            &&& now.backing == Backing::ByFrame
            &&& later.name == "user_stack_delay"
            &&& now.name == "user_stack"
            &&& user_vm.ustack_top == top
        }),
        user_vm.init_info.args == load.args,
        user_vm.init_info.envs == load.envs,
        user_vm.entry_addr == (((if head@[4] == 2 {
            elf_format::le(head@, 24, 8)
        } else {
            elf_format::le(head@, 24, 4)
        }) as u64) as usize) + part.bias,
        ({
            let auxv = user_vm.init_info.auxv@;
            &&& auxv.contains_key(9) && auxv[9] == part.entry_point
            &&& auxv.contains_key(7) && auxv[7] == part.bias
            &&& forall|k: u8|
                k != 7 && k != 9 ==> (#[trigger] auxv.contains_key(k)
                    <==> part.auxv@.contains_key(k))
            &&& forall|k: u8|
                k != 7 && k != 9 && #[trigger] part.auxv@.contains_key(k) ==> auxv[k]
                    == part.auxv@[k]
        }),
{
    lemma_header_numbers(head@);
    let table = elf_format::program_headers(head@);
    let rows = elf_laws::law_areas_are_the_load_rows(table, inode, part.bias, "elf-interp");
    let areas = elf::load_areas(table, inode, part.bias, "elf-interp");
    assert forall|j: int| 0 <= j < rows.len() implies #[trigger] rows[j] == rows[j]
        && user_vm.vm@[part.vm@.len() + j] == areas[j] by {
    }
    rows
}

/// A load can go on with an event exactly where the stack has four pages and fits, the event
/// answers what the load waits for, and an image that it brings is refused or can be mapped.
pub proof fn law_load_goes_on_with_its_answer(load: &UserVmLoad, event: &LoadEvent, r: bool)
    requires
        call_ensures(UserVmLoad::can_take, (load, event), r),
    ensures
        r <==> 16384 <= load.stack.size && load.stack.offset + load.stack.size <= usize::MAX
            && match (load.stage, *event) {
            (LoadStage::Program, LoadEvent::Read(Some(head))) => {
                let d = head@;
                let kind = elf_format::le(d, 16, 2);
                let machine = elf_format::le(d, 18, 2);
                let own = match load.arch {
                    Arch::X86_64 => 62int,
                    Arch::AArch64 => 183int,
                    Arch::RiscV => 243int,
                    Arch::Mips => 8int,
                };
                d[0] == 0x7f && d[1] == 0x45 && d[2] == 0x4c && d[3] == 0x46 && (d[4] == 1 || d[4]
                    == 2) && (kind == 2 || kind == 3) && machine == own ==> elf::program_loadable(d)
            },
            (LoadStage::Interpreter(part, _), LoadEvent::Read(Some(head))) => {
                let d = head@;
                d[0] == 0x7f && d[1] == 0x45 && d[2] == 0x4c && d[3] == 0x46 && (d[4] == 1 || d[4]
                    == 2) ==> elf::interpreter_loadable(d, part.bias)
            },
            (LoadStage::Program, LoadEvent::Read(None)) => true,
            (LoadStage::Interpreter(_, _), LoadEvent::Read(None)) => true,
            (LoadStage::Lookup(_), LoadEvent::Found(_)) => true,
            _ => false,
        },
{
    assert(load.arch.machine() == load.arch.machine());
    if let LoadEvent::Read(Some(head)) = *event {
        lemma_header_numbers(head@);
    }
}

/// A load begins by waiting for the program, with what it is given.
pub proof fn law_load_begins_with_the_program(
    arch: Arch,
    stack: loader::UserStack,
    inode: INodeRef,
    args: Vec<String>,
    envs: Vec<String>,
    r: UserVmLoad,
)
    requires
        call_ensures(UserVmLoad::new, (arch, stack, inode, args, envs), r),
    ensures
        r.stage is Program,
        r.arch == arch,
        r.stack == stack,
        r.inode == inode,
        r.args == args,
        r.envs == envs,
{
}

/// A load can always be taken a step further by an event that it was found to go on with.
pub proof fn law_load_can_take_its_step<K: Kernel>(load: UserVmLoad, event: LoadEvent)
    requires
        call_ensures(UserVmLoad::can_take, (&load, &event), true),
    ensures
        call_requires(Thread::<K>::new_user_vm, (load, event)),
{
}

} // verus!
