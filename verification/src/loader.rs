//! Making the address space of a new program.
//!
//! The kernel reads files and looks up paths; the decisions in between are made here. The
//! kernel begins with a [`UserVmLoad`] and the first bytes of the program, hands each outcome
//! over as a [`LoadEvent`], and does what the [`LoadStep`] says until it is `Done` or `Fail`.
use crate::abi;
use crate::abi::ProcInitInfo;
use crate::elf;
use crate::elf::ElfFile;
use crate::elf_format;
use crate::elf_format::{Machine, ObjectType, ProgramHeader};
use crate::fs::INodeRef;
use crate::kernel::Kernel;
use crate::memory::{Backing, MemoryArea, MemoryAttr, MemorySet, PAGE_SIZE};
use crate::thread::Thread;
use std::collections::BTreeMap;
use vstd::prelude::*;

verus! {

/// How many bytes of an image are read to find its headers. Bytes past the end of the file
/// are zero.
pub const HEAD_SIZE: usize = 0x3c0;

/// The machine that the kernel runs on.
#[derive(Clone, Copy, Debug, PartialEq, Eq, Structural)]
pub enum Arch {
    X86_64,
    AArch64,
    RiscV,
    Mips,
}

impl Arch {
    /// What an image for this machine has in its header.
    pub open spec fn machine(self) -> Machine {
        match self {
            Arch::X86_64 => Machine::X86_64,
            Arch::AArch64 => Machine::AArch64,
            Arch::RiscV => Machine::Other(243),
            Arch::Mips => Machine::Mips,
        }
    }

    /// Whether an image was built for this machine.
    pub fn runs(&self, machine: Machine) -> (r: bool)
        ensures
            r == (machine == self.machine()),
    {
        match self {
            Arch::X86_64 => machine == Machine::X86_64,
            Arch::AArch64 => machine == Machine::AArch64,
            Arch::RiscV => machine == Machine::Other(243),
            Arch::Mips => machine == Machine::Mips,
        }
    }
}

/// Where the stack of a user program stands.
#[derive(Clone, Copy, Debug)]
pub struct UserStack {
    pub offset: usize,
    pub size: usize,
}

impl UserStack {
    /// The stack lies in the address space and has at least four pages.
    pub open spec fn wf(&self) -> bool {
        &&& 4 * PAGE_SIZE <= self.size
        &&& self.offset + self.size <= usize::MAX
    }

    /// The address behind the stack.
    pub open spec fn top(&self) -> usize {
        (self.offset + self.size) as usize
    }

    /// The two areas of the stack: the last four pages are there at once, for the arguments
    /// are written to them; the rest come as they are needed.
    pub open spec fn areas(&self) -> Seq<MemoryArea> {
        let attr = MemoryAttr { user: true, readonly: false, execute: true };
        let split = (self.top() - 4 * PAGE_SIZE) as usize;
        seq![
            MemoryArea {
                start: self.offset,
                end: split,
                attr,
                backing: Backing::Delay,
                name: "user_stack_delay",
            },
            MemoryArea {
                start: split,
                end: self.top(),
                attr,
                backing: Backing::ByFrame,
                name: "user_stack",
            },
        ]
    }
}

/// What the program itself contributes to its address space.
#[derive(Debug)]
pub struct ProgramPart {
    pub vm: MemorySet,
    pub bias: usize,
    pub auxv: BTreeMap<u8, usize>,
    pub entry_point: usize,
}

/// What the load is waiting for.
#[derive(Debug)]
pub enum LoadStage {
    /// The first bytes of the program.
    Program,
    /// The inode of the interpreter that the program names.
    Lookup(ProgramPart),
    /// The first bytes of the interpreter, which has this inode.
    Interpreter(ProgramPart, INodeRef),
}

/// A program that is being loaded.
#[derive(Debug)]
pub struct UserVmLoad {
    pub arch: Arch,
    pub stack: UserStack,
    pub inode: INodeRef,
    pub args: Vec<String>,
    pub envs: Vec<String>,
    pub stage: LoadStage,
}

/// What the kernel learned.
#[derive(Debug)]
pub enum LoadEvent {
    /// The first bytes of the file that was to be read, or `None` where that failed.
    Read(Option<[u8; HEAD_SIZE]>),
    /// The inode of the path that was to be looked up, or `None` where there is none.
    Found(Option<INodeRef>),
}

/// The address space of a program that is ready to start.
#[derive(Debug)]
pub struct UserVm {
    /// The areas to map.
    pub vm: MemorySet,
    /// Where the program starts.
    pub entry_addr: usize,
    /// The top of the stack, below which `init_info` is to be pushed.
    pub ustack_top: usize,
    /// What to push on the stack.
    pub init_info: ProcInitInfo,
}

/// A loaded program after the kernel made its address space.
#[derive(Debug)]
pub struct MappedProgram {
    /// What was loaded.
    pub user_vm: UserVm,
    /// The token of the address space that the areas were mapped in.
    pub vm_token: usize,
    /// The top of the stack after the initial information was pushed.
    pub ustack_top: usize,
}

/// What the kernel has to do next.
#[derive(Debug)]
pub enum LoadStep {
    /// Read the first bytes of this inode.
    Read(UserVmLoad, INodeRef),
    /// Look up this path.
    Lookup(UserVmLoad, String),
    /// Map the areas, push the initial information and start the program.
    Done(UserVm),
    /// Give up, for this reason.
    Fail(&'static str),
}

/// An object that can be started: an executable, or a shared object.
pub open spec fn is_startable(data: Seq<u8>) -> bool {
    elf_format::header_of(data).type_ == ObjectType::Executable || elf_format::header_of(
        data,
    ).type_ == ObjectType::SharedObject
}

/// Why an image is refused before any of its segments is looked at, if it is.
pub open spec fn refusal(data: Seq<u8>, arch: Arch) -> Option<Seq<char>> {
    if elf_format::header_error(data) is Some {
        elf_format::header_error(data)
    } else if !is_startable(data) {
        Some("ELF is not executable or shared object"@)
    } else if elf_format::header_of(data).machine != arch.machine() {
        Some("invalid ELF arch"@)
    } else {
        None
    }
}

/// The auxiliary vector of a program that needs no interpreter.
pub open spec fn program_auxv(data: Seq<u8>) -> Map<u8, usize> {
    let known = map![
        abi::AT_PHENT => elf_format::ph_entry_size(data) as usize,
        abi::AT_PHNUM => elf_format::ph_count(data) as usize,
        abi::AT_PAGESZ => PAGE_SIZE,
    ];
    match elf::phdr_vaddr(data) {
        Some(addr) => known.insert(abi::AT_PHDR, (addr as u64) as usize),
        None => known,
    }
}

/// The stack is mapped without a gap: the pages that come later end where the four eager ones
/// begin, and these end at the top of the stack.
pub proof fn law_stack_has_no_gap(stack: UserStack)
    requires
        stack.wf(),
    ensures
        stack.areas()[0].start == stack.offset,
        stack.areas()[0].start <= stack.areas()[0].end,
        stack.areas()[0].end == stack.areas()[1].start,
        stack.areas()[1].end == stack.top(),
        stack.areas()[1].end - stack.areas()[1].start == 4 * PAGE_SIZE,
{
}

/// Every answer brings a load closer to its end, so it asks the kernel at most three times.
pub proof fn law_load_comes_to_an_end(load: UserVmLoad, event: LoadEvent, step: LoadStep)
    requires
        load.steps_to(event, step),
    ensures
        load.questions_left() <= 3,
        step matches LoadStep::Read(next, _) ==> 0 < next.questions_left() < load.questions_left(),
        step matches LoadStep::Lookup(next, _) ==> 0 < next.questions_left()
            < load.questions_left(),
{
}

/// A program that names an interpreter gets both mapped, the program where it was built for
/// and the interpreter by the bias above it; it starts in the interpreter, which finds where
/// the program starts and how far it was moved itself, and the arguments are those that the
/// load began with.
pub proof fn law_dynamic_program_starts_in_interpreter(
    load: UserVmLoad,
    head: [u8; HEAD_SIZE],
    asked: UserVmLoad,
    path: String,
    inode: INodeRef,
    reading: UserVmLoad,
    wanted: INodeRef,
    interp_head: [u8; HEAD_SIZE],
    user_vm: UserVm,
)
    requires
        load.stage is Program,
        load.steps_to(LoadEvent::Read(Some(head)), LoadStep::Lookup(asked, path)),
        asked.steps_to(LoadEvent::Found(Some(inode)), LoadStep::Read(reading, wanted)),
        reading.steps_to(LoadEvent::Read(Some(interp_head)), LoadStep::Done(user_vm)),
    ensures
        elf::interpreter(head@) == Ok::<Seq<char>, Seq<char>>(path@),
        wanted == inode,
        ({
            let table = elf_format::program_headers(head@);
            let bias = elf::bias_of(table) as usize;
            user_vm.is_of(
                load,
                elf::load_areas(table, load.inode, 0, "elf") + elf::load_areas(
                    elf_format::program_headers(interp_head@),
                    inode,
                    bias,
                    "elf-interp",
                ),
                elf_format::entry_point(interp_head@) as usize + bias,
                program_auxv(head@).insert(
                    abi::AT_ENTRY,
                    elf_format::entry_point(head@) as usize,
                ).insert(abi::AT_BASE, bias),
            )
        }),
{
}

impl ProgramPart {
    /// The part is that of the given image.
    pub open spec fn is_of(&self, data: Seq<u8>, inode: INodeRef) -> bool {
        let table = elf_format::program_headers(data);
        &&& self.vm@ == elf::load_areas(table, inode, 0, "elf")
        &&& self.bias == elf::bias_of(table)
        &&& self.auxv@ == program_auxv(data)
        &&& self.entry_point == elf_format::entry_point(data) as usize
    }
}

impl UserVm {
    /// The address space has the given areas and below them the stack, and it starts as given.
    pub open spec fn is_of(
        &self,
        load: UserVmLoad,
        areas: Seq<MemoryArea>,
        entry_addr: int,
        auxv: Map<u8, usize>,
    ) -> bool {
        &&& self.vm@ == areas + load.stack.areas()
        &&& self.entry_addr == entry_addr
        &&& self.ustack_top == load.stack.top()
        &&& self.init_info.args == load.args
        &&& self.init_info.envs == load.envs
        &&& self.init_info.auxv@ == auxv
    }
}

impl UserVmLoad {
    /// The same load at another stage.
    pub open spec fn moved_to(&self, next: UserVmLoad) -> bool {
        &&& next.arch == self.arch
        &&& next.stack == self.stack
        &&& next.inode == self.inode
        &&& next.args == self.args
        &&& next.envs == self.envs
    }

    /// The event answers what the load is waiting for, and the images that it brings can be
    /// mapped.
    pub open spec fn accepts(&self, event: LoadEvent) -> bool {
        &&& self.stack.wf()
        &&& match (self.stage, event) {
            (LoadStage::Program, LoadEvent::Read(Some(head))) => refusal(head@, self.arch) is None
                ==> elf::program_loadable(head@),
            (LoadStage::Program, LoadEvent::Read(None)) => true,
            (LoadStage::Lookup(_), LoadEvent::Found(_)) => true,
            (LoadStage::Interpreter(part, _), LoadEvent::Read(Some(head))) => {
                elf_format::header_error(head@) is None ==> elf::interpreter_loadable(
                    head@,
                    part.bias,
                )
            },
            (LoadStage::Interpreter(_, _), LoadEvent::Read(None)) => true,
            _ => false,
        }
    }

    /// What follows the event.
    pub open spec fn steps_to(&self, event: LoadEvent, step: LoadStep) -> bool {
        match (self.stage, event) {
            (LoadStage::Program, LoadEvent::Read(Some(head))) => match refusal(
                head@,
                self.arch,
            ) {
                Some(reason) => step matches LoadStep::Fail(e) && e@ == reason,
                None => match elf::interpreter(head@) {
                    Ok(path) => {
                        &&& step matches LoadStep::Lookup(next, p)
                        &&& p@ == path
                        &&& self.moved_to(next)
                        &&& next.stage matches LoadStage::Lookup(part)
                        &&& part.is_of(head@, self.inode)
                    },
                    Err(_) => {
                        &&& step matches LoadStep::Done(user_vm)
                        &&& user_vm.is_of(
                            *self,
                            elf::load_areas(
                                elf_format::program_headers(head@),
                                self.inode,
                                0,
                                "elf",
                            ),
                            (elf_format::entry_point(head@) as usize) as int,
                            program_auxv(head@),
                        )
                    },
                },
            },
            (LoadStage::Lookup(part), LoadEvent::Found(Some(inode))) => {
                &&& step matches LoadStep::Read(next, wanted)
                &&& wanted == inode
                &&& self.moved_to(next)
                &&& next.stage == LoadStage::Interpreter(part, inode)
            },
            (LoadStage::Lookup(_), LoadEvent::Found(None)) => {
                step matches LoadStep::Fail(e) && e@ == "interpreter not found"@
            },
            (LoadStage::Interpreter(part, inode), LoadEvent::Read(Some(head))) => {
                match elf_format::header_error(head@) {
                    Some(reason) => step matches LoadStep::Fail(e) && e@ == reason,
                    None => {
                        &&& step matches LoadStep::Done(user_vm)
                        &&& user_vm.is_of(
                            *self,
                            part.vm@ + elf::load_areas(
                                elf_format::program_headers(head@),
                                inode,
                                part.bias,
                                "elf-interp",
                            ),
                            elf_format::entry_point(head@) as usize + part.bias,
                            part.auxv@.insert(abi::AT_ENTRY, part.entry_point).insert(
                                abi::AT_BASE,
                                part.bias,
                            ),
                        )
                    },
                }
            },
            (_, LoadEvent::Read(None)) => {
                step matches LoadStep::Fail(e) && e@ == "failed to read from INode"@
            },
            _ => false,
        }
    }

    /// How many more times the load may ask the kernel for something.
    pub open spec fn questions_left(&self) -> nat {
        match self.stage {
            LoadStage::Program => 3,
            LoadStage::Lookup(_) => 2,
            LoadStage::Interpreter(_, _) => 1,
        }
    }

    /// Begins to load the program in `inode`. Its first bytes are to be read.
    pub fn new(
        arch: Arch,
        stack: UserStack,
        inode: INodeRef,
        args: Vec<String>,
        envs: Vec<String>,
    ) -> (r: Self)
        ensures
            r == (UserVmLoad { arch, stack, inode, args, envs, stage: LoadStage::Program }),
    {
        UserVmLoad { arch, stack, inode, args, envs, stage: LoadStage::Program }
    }

    /// Whether the load can go on with this event.
    pub fn can_take(&self, event: &LoadEvent) -> (r: bool)
        ensures
            r == self.accepts(*event),
    {
        if self.stack.size < 4 * PAGE_SIZE {
            return false;
        }
        if self.stack.offset.checked_add(self.stack.size).is_none() {
            return false;
        }
        match (&self.stage, event) {
            (LoadStage::Program, LoadEvent::Read(Some(head))) => match ElfFile::new(
                head.as_slice(),
            ) {
                Ok(elf) => {
                    let startable = elf.header.type_ == ObjectType::Executable || elf.header.type_
                        == ObjectType::SharedObject;
                    !startable || !self.arch.runs(elf.header.machine) || elf.is_loadable_program()
                },
                Err(_) => true,
            },
            (LoadStage::Program, LoadEvent::Read(None)) => true,
            (LoadStage::Lookup(_), LoadEvent::Found(_)) => true,
            (LoadStage::Interpreter(part, _), LoadEvent::Read(Some(head))) => match ElfFile::new(
                head.as_slice(),
            ) {
                Ok(elf) => elf.is_loadable_interpreter(part.bias),
                Err(_) => true,
            },
            (LoadStage::Interpreter(_, _), LoadEvent::Read(None)) => true,
            _ => false,
        }
    }
}

/// Maps the stack and gathers what the program starts with.
fn finish(
    load_stack: UserStack,
    args: Vec<String>,
    envs: Vec<String>,
    mut vm: MemorySet,
    entry_addr: usize,
    auxv: BTreeMap<u8, usize>,
) -> (r: UserVm)
    requires
        load_stack.wf(),
    ensures
        r.vm@ == vm@ + load_stack.areas(),
        r.entry_addr == entry_addr,
        r.ustack_top == load_stack.top(),
        r.init_info == (ProcInitInfo { args, envs, auxv }),
{
    let ustack_bottom = load_stack.offset;
    let ustack_top = load_stack.offset + load_stack.size;
    let ghost mapped = vm@;
    vm.push(
        ustack_bottom,
        ustack_top - PAGE_SIZE * 4,
        MemoryAttr::default().user().execute(),
        Backing::Delay,
        "user_stack_delay",
    );
    // The initial information is written next, so the last four pages are mapped eagerly.
    vm.push(
        ustack_top - PAGE_SIZE * 4,
        ustack_top,
        MemoryAttr::default().user().execute(),
        Backing::ByFrame,
        "user_stack",
    );
    assert(vm@ =~= mapped + load_stack.areas());
    UserVm { vm, entry_addr, ustack_top, init_info: ProcInitInfo { args, envs, auxv } }
}

/// The auxiliary vector of a program that needs no interpreter.
fn make_auxv(elf: &ElfFile) -> (auxv: BTreeMap<u8, usize>)
    requires
        elf.wf(),
        elf::program_loadable(elf.input@),
    ensures
        auxv@ == program_auxv(elf.input@),
{
    broadcast use vstd::std_specs::btree::group_btree_axioms;

    let mut auxv: BTreeMap<u8, usize> = BTreeMap::new();
    if let Some(phdr_vaddr) = elf.get_phdr_vaddr() {
        auxv.insert(abi::AT_PHDR, phdr_vaddr as usize);
    }
    auxv.insert(abi::AT_PHENT, elf.header.ph_entry_size as usize);
    auxv.insert(abi::AT_PHNUM, elf.header.ph_count as usize);
    auxv.insert(abi::AT_PAGESZ, PAGE_SIZE);
    assert(auxv@ =~= program_auxv(elf.input@));
    auxv
}

impl<K: Kernel> Thread<K> {
    /// Makes the address space of a new program, one outside answer after the other.
    pub fn new_user_vm(load: UserVmLoad, event: LoadEvent) -> (r: LoadStep)
        requires
            load.accepts(event),
        ensures
            load.steps_to(event, r),
    {
        broadcast use vstd::std_specs::btree::group_btree_axioms;

        match (load.stage, event) {
            (LoadStage::Program, LoadEvent::Read(Some(head))) => {
                // Parse ELF
                let elf = match ElfFile::new(head.as_slice()) {
                    Ok(elf) => elf,
                    Err(e) => return LoadStep::Fail(e),
                };
                // Check ELF type
                match elf.header.type_ {
                    ObjectType::Executable => {},
                    ObjectType::SharedObject => {},
                    _ => return LoadStep::Fail("ELF is not executable or shared object"),
                }
                // Check ELF arch
                if !load.arch.runs(elf.header.machine) {
                    return LoadStep::Fail("invalid ELF arch");
                }
                let auxv = make_auxv(&elf);
                let entry_addr = elf.header.entry_point as usize;
                let (vm, bias) = elf.make_memory_set(load.inode);
                // Check interpreter (for dynamic link)
                match elf.get_interpreter() {
                    Ok(loader_path) => LoadStep::Lookup(
                        UserVmLoad {
                            arch: load.arch,
                            stack: load.stack,
                            inode: load.inode,
                            args: load.args,
                            envs: load.envs,
                            stage: LoadStage::Lookup(
                                ProgramPart { vm, bias, auxv, entry_point: entry_addr },
                            ),
                        },
                        loader_path,
                    ),
                    Err(_) => LoadStep::Done(
                        finish(load.stack, load.args, load.envs, vm, entry_addr, auxv),
                    ),
                }
            },
            (LoadStage::Lookup(part), LoadEvent::Found(Some(inode))) => LoadStep::Read(
                UserVmLoad {
                    arch: load.arch,
                    stack: load.stack,
                    inode: load.inode,
                    args: load.args,
                    envs: load.envs,
                    stage: LoadStage::Interpreter(part, inode),
                },
                inode,
            ),
            (LoadStage::Lookup(_), LoadEvent::Found(None)) => LoadStep::Fail("interpreter not found"),
            (LoadStage::Interpreter(part, inode), LoadEvent::Read(Some(head))) => {
                // When interpreter is used, map both dynamic linker and executable
                let elf_interp = match ElfFile::new(head.as_slice()) {
                    Ok(elf) => elf,
                    Err(e) => return LoadStep::Fail(e),
                };
                let bias = part.bias;
                let mut vm = part.vm;
                let mut auxv = part.auxv;
                elf_interp.append_as_interpreter(inode, &mut vm, bias);
                auxv.insert(abi::AT_ENTRY, part.entry_point);
                auxv.insert(abi::AT_BASE, bias);
                let entry_addr = elf_interp.header.entry_point as usize + bias;
                LoadStep::Done(finish(load.stack, load.args, load.envs, vm, entry_addr, auxv))
            },
            _ => LoadStep::Fail("failed to read from INode"),
        }
    }
}

} // verus!
