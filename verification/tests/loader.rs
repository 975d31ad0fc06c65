use kernel_process::abi;
use kernel_process::elf_format::Machine;
use kernel_process::fs::INodeRef;
use kernel_process::kernel::Kernel;
use kernel_process::loader::{
    Arch, LoadEvent, LoadStage, LoadStep, MappedProgram, UserStack, UserVm, UserVmLoad, HEAD_SIZE,
};
use kernel_process::memory::{Backing, MemoryAttr};
use kernel_process::table::ProcessTable;
use kernel_process::thread::{Context, Thread};

struct LoaderKernel;

impl Kernel for LoaderKernel {
    type Condvar = u8;
    type SemProc = u8;
    type SignalAction = u8;
    type SignalStack = u8;
    type TrapFrame = u8;
}

const STACK: UserStack = UserStack { offset: 0x7000_0000, size: 0x8000 };

fn loader_put(head: &mut [u8], at: usize, width: usize, value: u64) {
    for i in 0..width {
        head[at + i] = (value >> (8 * i)) as u8;
    }
}

fn loader_head(kind: u16, machine: u16, entry: u64, rows: &[(u32, u32, u64, u64, u64, u64)]) -> [u8; HEAD_SIZE] {
    let mut head = [0u8; HEAD_SIZE];
    head[..4].copy_from_slice(&[0x7f, b'E', b'L', b'F']);
    head[4] = 2;
    head[5] = 1;
    head[6] = 1;
    loader_put(&mut head, 16, 2, kind as u64);
    loader_put(&mut head, 18, 2, machine as u64);
    loader_put(&mut head, 24, 8, entry);
    loader_put(&mut head, 32, 8, 64);
    loader_put(&mut head, 54, 2, 56);
    loader_put(&mut head, 56, 2, rows.len() as u64);
    for (i, row) in rows.iter().enumerate() {
        let at = 64 + 56 * i;
        loader_put(&mut head, at, 4, row.0 as u64);
        loader_put(&mut head, at + 4, 4, row.1 as u64);
        loader_put(&mut head, at + 8, 8, row.2);
        loader_put(&mut head, at + 16, 8, row.3);
        loader_put(&mut head, at + 32, 8, row.4);
        loader_put(&mut head, at + 40, 8, row.5);
    }
    head
}

fn static_head() -> [u8; HEAD_SIZE] {
    loader_head(2, 0x3e, 0x40_0100, &[(1, 5, 0, 0x40_0000, 0x2000, 0x2000)])
}

fn dynamic_head() -> [u8; HEAD_SIZE] {
    let mut head = loader_head(
        3,
        0x3e,
        0x1100,
        &[(6, 4, 64, 0x40, 168, 168), (3, 4, 0x200, 0x200, 15, 15), (1, 5, 0, 0, 0x2345, 0x2345)],
    );
    head[0x200..0x20f].copy_from_slice(b"/lib/ld-musl.so");
    head
}

fn interp_head() -> [u8; HEAD_SIZE] {
    loader_head(3, 0x3e, 0x123, &[(1, 5, 0, 0, 0x500, 0x600)])
}

fn begin(arch: Arch) -> UserVmLoad {
    UserVmLoad::new(
        arch,
        STACK,
        INodeRef::Node(7),
        vec!["prog".to_string(), "-x".to_string()],
        vec!["HOME=/".to_string()],
    )
}

fn take(load: UserVmLoad, event: LoadEvent) -> LoadStep {
    assert!(load.can_take(&event));
    Thread::<LoaderKernel>::new_user_vm(load, event)
}

fn failure(step: LoadStep) -> &'static str {
    match step {
        LoadStep::Fail(reason) => reason,
        _ => panic!("did not fail"),
    }
}

fn asked_for_interpreter() -> (UserVmLoad, String) {
    match take(begin(Arch::X86_64), LoadEvent::Read(Some(dynamic_head()))) {
        LoadStep::Lookup(load, path) => (load, path),
        _ => panic!("no lookup"),
    }
}

fn reading_interpreter() -> UserVmLoad {
    let (load, _) = asked_for_interpreter();
    match take(load, LoadEvent::Found(Some(INodeRef::Node(8)))) {
        LoadStep::Read(load, inode) => {
            assert_eq!(inode, INodeRef::Node(8));
            load
        }
        _ => panic!("no read"),
    }
}

fn check_stack(user_vm: &UserVm) {
    let n = user_vm.vm.areas.len();
    let (later, now) = (user_vm.vm.areas[n - 2], user_vm.vm.areas[n - 1]);
    let attr = MemoryAttr { user: true, readonly: false, execute: true };
    assert_eq!((later.start, later.end, later.name), (0x7000_0000, 0x7000_4000, "user_stack_delay"));
    assert_eq!((now.start, now.end, now.name), (0x7000_4000, 0x7000_8000, "user_stack"));
    assert_eq!((later.attr, now.attr), (attr, attr));
    assert!(matches!(later.backing, Backing::Delay));
    assert!(matches!(now.backing, Backing::ByFrame));
    assert_eq!(user_vm.ustack_top, 0x7000_8000);
    assert_eq!(user_vm.init_info.args, vec!["prog".to_string(), "-x".to_string()]);
    assert_eq!(user_vm.init_info.envs, vec!["HOME=/".to_string()]);
}

#[test]
fn static_program_is_loaded_in_one_step() {
    let user_vm = match take(begin(Arch::X86_64), LoadEvent::Read(Some(static_head()))) {
        LoadStep::Done(user_vm) => user_vm,
        _ => panic!("not done"),
    };
    assert_eq!(user_vm.entry_addr, 0x40_0100);
    assert_eq!(user_vm.vm.areas.len(), 3);
    assert_eq!((user_vm.vm.areas[0].start, user_vm.vm.areas[0].end), (0x40_0000, 0x40_2000));
    check_stack(&user_vm);
    let auxv: Vec<(u8, usize)> = user_vm.init_info.auxv.iter().map(|(k, v)| (*k, *v)).collect();
    assert_eq!(
        auxv,
        vec![
            (abi::AT_PHDR, 0x40_0040),
            (abi::AT_PHENT, 56),
            (abi::AT_PHNUM, 1),
            (abi::AT_PAGESZ, 4096),
        ]
    );
}

#[test]
fn program_without_table_address_has_no_such_entry() {
    let head = loader_head(2, 0x3e, 0, &[(1, 5, 0x1000, 0x40_0000, 0, 0)]);
    match take(begin(Arch::X86_64), LoadEvent::Read(Some(head))) {
        LoadStep::Done(user_vm) => {
            assert!(!user_vm.init_info.auxv.contains_key(&abi::AT_PHDR));
            assert_eq!(user_vm.init_info.auxv.len(), 3);
        }
        _ => panic!("not done"),
    }
}

#[test]
fn dynamic_program_is_loaded_with_its_interpreter() {
    let (load, path) = asked_for_interpreter();
    assert_eq!(path, "/lib/ld-musl.so");
    assert!(matches!(load.stage, LoadStage::Lookup(_)));
    let load = reading_interpreter();
    let user_vm = match take(load, LoadEvent::Read(Some(interp_head()))) {
        LoadStep::Done(user_vm) => user_vm,
        _ => panic!("not done"),
    };
    let areas: Vec<(usize, usize, &str)> =
        user_vm.vm.areas.iter().map(|a| (a.start, a.end, a.name)).collect();
    assert_eq!(
        areas,
        vec![
            (0, 0x2345, "elf"),
            (0x3000, 0x3600, "elf-interp"),
            (0x7000_0000, 0x7000_4000, "user_stack_delay"),
            (0x7000_4000, 0x7000_8000, "user_stack"),
        ]
    );
    match user_vm.vm.areas[1].backing {
        Backing::File { file, .. } => assert_eq!(file, INodeRef::Node(8)),
        _ => panic!("not from the file"),
    }
    assert_eq!(user_vm.entry_addr, 0x3123);
    check_stack(&user_vm);
    let auxv: Vec<(u8, usize)> = user_vm.init_info.auxv.iter().map(|(k, v)| (*k, *v)).collect();
    assert_eq!(
        auxv,
        vec![
            (abi::AT_PHDR, 0x40),
            (abi::AT_PHENT, 56),
            (abi::AT_PHNUM, 3),
            (abi::AT_PAGESZ, 4096),
            (abi::AT_BASE, 0x3000),
            (abi::AT_ENTRY, 0x1100),
        ]
    );
}

#[test]
fn thread_starts_where_the_load_says() {
    let user_vm = match take(reading_interpreter(), LoadEvent::Read(Some(interp_head()))) {
        LoadStep::Done(user_vm) => user_vm,
        _ => panic!("not done"),
    };
    let mut table = ProcessTable::<LoaderKernel>::new();
    assert!(table.can_add());
    let program = MappedProgram { user_vm, vm_token: 0x50, ustack_top: 0x7000_7f00 };
    let thread = Thread::new_user(&mut table, "/bin/prog", [0, 1, 2], Ok(program), 0x60).ok().unwrap();
    match thread.context {
        Context::UserThread { entry_addr, ustack_top, kstack_top, vm_token } => {
            assert_eq!(
                (entry_addr, ustack_top, kstack_top, vm_token),
                (0x3123, 0x7000_7f00, 0x60, 0x50)
            );
        }
        _ => panic!("no user thread"),
    }
}

#[test]
fn unreadable_path_means_no_interpreter() {
    let mut head = dynamic_head();
    head[0x200] = 0xff;
    match take(begin(Arch::X86_64), LoadEvent::Read(Some(head))) {
        LoadStep::Done(user_vm) => assert_eq!(user_vm.entry_addr, 0x1100),
        _ => panic!("not done"),
    }
}

#[test]
fn program_that_cannot_be_read_fails() {
    assert_eq!(failure(take(begin(Arch::X86_64), LoadEvent::Read(None))), "failed to read from INode");
}

#[test]
fn interpreter_that_cannot_be_read_fails() {
    assert_eq!(failure(take(reading_interpreter(), LoadEvent::Read(None))), "failed to read from INode");
}

#[test]
fn missing_interpreter_fails() {
    let (load, _) = asked_for_interpreter();
    assert_eq!(failure(take(load, LoadEvent::Found(None))), "interpreter not found");
}

#[test]
fn program_that_is_no_image_fails() {
    assert_eq!(
        failure(take(begin(Arch::X86_64), LoadEvent::Read(Some([0; HEAD_SIZE])))),
        "Did not find ELF magic number"
    );
    let mut head = static_head();
    head[4] = 0;
    assert_eq!(failure(take(begin(Arch::X86_64), LoadEvent::Read(Some(head)))), "Invalid ELF class");
}

#[test]
fn interpreter_that_is_no_image_fails() {
    assert_eq!(
        failure(take(reading_interpreter(), LoadEvent::Read(Some([0; HEAD_SIZE])))),
        "Did not find ELF magic number"
    );
}

#[test]
fn object_that_cannot_be_started_fails() {
    for kind in [0, 1, 4, 0xfe00] {
        let head = loader_head(kind, 0x3e, 0, &[]);
        assert_eq!(
            failure(take(begin(Arch::X86_64), LoadEvent::Read(Some(head)))),
            "ELF is not executable or shared object"
        );
    }
}

#[test]
fn program_for_another_machine_fails() {
    let machines = [
        (Arch::X86_64, 0x3e),
        (Arch::AArch64, 0xb7),
        (Arch::RiscV, 243),
        (Arch::Mips, 8),
    ];
    for (arch, number) in machines {
        for (_, other) in machines {
            let step = take(begin(arch), LoadEvent::Read(Some(loader_head(2, other, 0, &[]))));
            if other == number {
                assert!(matches!(step, LoadStep::Done(_)));
            } else {
                assert_eq!(failure(step), "invalid ELF arch");
            }
        }
    }
    assert!(Arch::RiscV.runs(Machine::Other(243)));
    assert!(!Arch::RiscV.runs(Machine::Other(242)));
}

#[test]
fn kind_is_tested_before_the_machine() {
    let head = loader_head(1, 0xb7, 0, &[]);
    assert_eq!(
        failure(take(begin(Arch::X86_64), LoadEvent::Read(Some(head)))),
        "ELF is not executable or shared object"
    );
}

#[test]
fn refused_image_is_taken_whatever_its_segments() {
    let broken = [(1, 5, 0, u64::MAX, 0, u64::MAX)];
    let event = LoadEvent::Read(Some(loader_head(2, 0xb7, 0, &broken)));
    assert!(begin(Arch::X86_64).can_take(&event));
    let event = LoadEvent::Read(Some(loader_head(2, 0x3e, 0, &broken)));
    assert!(!begin(Arch::X86_64).can_take(&event));
}

#[test]
fn interpreter_that_does_not_fit_is_not_taken() {
    let far = [(1, 5, 0, u64::MAX - 0x2fff, 0, 0)];
    let load = reading_interpreter();
    assert!(!load.can_take(&LoadEvent::Read(Some(loader_head(3, 0x3e, 0, &far)))));
    assert!(load.can_take(&LoadEvent::Read(Some(interp_head()))));
}

#[test]
fn answer_to_another_question_is_not_taken() {
    assert!(!begin(Arch::X86_64).can_take(&LoadEvent::Found(None)));
    let (load, _) = asked_for_interpreter();
    assert!(!load.can_take(&LoadEvent::Read(None)));
    assert!(!reading_interpreter().can_take(&LoadEvent::Found(Some(INodeRef::Node(1)))));
}

#[test]
fn stack_has_to_lie_in_the_address_space() {
    let stacks = [
        (usize::MAX, 1, false),
        (0, 4 * 4096 - 1, false),
        (0, 4 * 4096, true),
        (0x1_0000, 4 * 4096 - 1, false),
        (0x1_0000, 4096, false),
        (0x1_0000, 4 * 4096, true),
        (usize::MAX - 0x8000, 0x8000, true),
    ];
    for (offset, size, fits) in stacks {
        let load = UserVmLoad::new(
            Arch::X86_64,
            UserStack { offset, size },
            INodeRef::Node(0),
            vec![],
            vec![],
        );
        assert_eq!(load.can_take(&LoadEvent::Read(None)), fits);
    }
}
