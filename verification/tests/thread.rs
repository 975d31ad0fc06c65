use kernel_process::abi::ProcInitInfo;
use kernel_process::fs::{FileHandle, FileLike, INodeRef, OpenOptions};
use kernel_process::kernel::Kernel;
use kernel_process::loader::{MappedProgram, UserVm};
use kernel_process::memory::MemorySet;
use kernel_process::process::ExitStage;
use kernel_process::signal::{Siginfo, Sigset};
use kernel_process::table::{process, process_group, ProcessTable};
use kernel_process::thread::{Context, Thread};
use std::collections::BTreeMap;
use std::sync::Condvar;

struct ThreadKernel;

#[derive(Default, Clone, Copy, Debug, PartialEq)]
struct Action(u32);

impl Kernel for ThreadKernel {
    type Condvar = Condvar;
    type SemProc = Vec<u32>;
    type SignalAction = Action;
    type SignalStack = u8;
    type TrapFrame = [usize; 2];
}

type Table = ProcessTable<ThreadKernel>;

/// A program in the address space `.0` that starts at `.1` on a stack that ends at `.2`.
fn mapped((vm_token, entry_addr, ustack_top): (usize, usize, usize)) -> MappedProgram {
    let init_info = ProcInitInfo { args: vec![], envs: vec![], auxv: BTreeMap::new() };
    let user_vm = UserVm { vm: MemorySet::new(), entry_addr, ustack_top: 0x8000_0000, init_info };
    MappedProgram { user_vm, vm_token, ustack_top }
}

fn user_thread(table: &mut Table, path: &str, program: (usize, usize, usize), kstack_top: usize) -> Box<Thread<ThreadKernel>> {
    assert!(table.can_add());
    Thread::new_user(table, path, [4, 5, 6], Ok(mapped(program)), kstack_top).ok().unwrap()
}

fn handle_at(table: &Table, pid: usize, fd: usize) -> &FileHandle {
    match &process(table, pid).unwrap().files[&fd] {
        FileLike::File(handle) => handle,
        _ => panic!("no inode"),
    }
}

#[test]
fn init_thread_is_blank() {
    let thread = Thread::<ThreadKernel>::new_init();
    assert!(matches!(thread.context, Context::Null));
    assert_eq!((thread.kstack, thread.clear_child_tid, thread.vm, thread.tf), (0, 0, 0, 0));
    assert_eq!(thread.proc.get(), 0);
    assert_eq!(thread.sig_mask, Sigset(0));
}

#[test]
fn kernel_thread_has_a_process_without_files() {
    let mut table = Table::new();
    let thread = Thread::new_kernel(&mut table, 0x100, 5, 0x2000, 0x3000);
    match thread.context {
        Context::KernelThread { entry, arg, kstack_top, vm_token } => {
            assert_eq!((entry, arg, kstack_top, vm_token), (0x100, 5, 0x3000, 0x2000));
        }
        _ => panic!("no kernel thread"),
    }
    assert_eq!((thread.kstack, thread.clear_child_tid, thread.vm, thread.tf), (0x3000, 0, 0x2000, 0));
    assert_eq!(thread.sig_mask, Sigset::empty());
    let p = process(&table, thread.proc.get()).unwrap();
    assert_eq!((p.pid.get(), p.pgid, p.parent.get(), p.vm), (1, -1, 0, 0x2000));
    assert!(p.files.is_empty() && p.futexes.is_empty() && p.child_exit_code.is_empty());
    assert!(p.children.is_empty() && p.threads.is_empty() && p.sig_queue.is_empty());
    assert_eq!((p.cwd.as_str(), p.exec_path.as_str()), ("/", ""));
    assert_eq!(p.pending_sigset, Sigset::empty());
    assert_eq!(p.dispositions, [Action(0); 65]);
    assert!(p.semaphores.is_empty());
    assert_eq!(p.sigaltstack, 0);
}

#[test]
fn user_process_starts_with_three_files() {
    let mut table = Table::new();
    let thread = user_thread(&mut table, "/bin/sh", (0x9000, 0x40_0100, 0x7fff_0000), 0x3000);
    match thread.context {
        Context::UserThread { entry_addr, ustack_top, kstack_top, vm_token } => {
            assert_eq!(
                (entry_addr, ustack_top, kstack_top, vm_token),
                (0x40_0100, 0x7fff_0000, 0x3000, 0x9000)
            );
        }
        _ => panic!("no user thread"),
    }
    assert_eq!((thread.kstack, thread.clear_child_tid, thread.vm, thread.tf), (0x3000, 0, 0x9000, 0));
    let pid = thread.proc.get();
    let p = process(&table, pid).unwrap();
    assert_eq!((p.pgid, p.parent.get(), p.vm), (0, 0, 0x9000));
    assert_eq!((p.cwd.as_str(), p.exec_path.as_str()), ("/", "/bin/sh"));
    assert_eq!(p.files.keys().copied().collect::<Vec<usize>>(), vec![0, 1, 2]);
    let read = OpenOptions { read: true, write: false, append: false, nonblock: false };
    let write = OpenOptions { read: false, write: true, append: false, nonblock: false };
    let expected = [
        (INodeRef::Stdin, read, "stdin"),
        (INodeRef::Stdout, write, "stdout"),
        (INodeRef::Stdout, write, "stderr"),
    ];
    for (fd, (inode, options, path)) in expected.iter().enumerate() {
        let handle = handle_at(&table, pid, fd);
        assert_eq!(handle.description, 4 + fd);
        assert_eq!((handle.inode, handle.options), (*inode, *options));
        assert_eq!(handle.path, *path);
        assert!(!handle.pipe && !handle.fd_cloexec);
    }
    assert_eq!(p.dispositions.len(), 65);
}

#[test]
fn failed_load_makes_no_process() {
    let mut table = Table::new();
    let first = user_thread(&mut table, "/bin/sh", (1, 0, 0), 0);
    let r = Thread::new_user(&mut table, "/bin/ls", [7, 8, 9], Err("invalid ELF arch"), 0x3000);
    assert_eq!(r.err(), Some("invalid ELF arch"));
    assert!(!table.contains(2));
    assert_eq!(process(&table, first.proc.get()).unwrap().exec_path, "/bin/sh");
    assert_eq!(user_thread(&mut table, "/bin/ls", (2, 0, 0), 0).proc.get(), 2);
}

#[test]
fn fork_copies_what_is_inherited() {
    let mut table = Table::new();
    let mut thread = user_thread(&mut table, "/bin/sh", (0x9000, 0, 0), 0);
    thread.sig_mask = Sigset(6);
    thread.clear_child_tid = 0x77;
    let mut p = table.release(1).unwrap();
    p.add_file(FileLike::Other(33));
    p.cwd = "/home".to_string();
    p.pgid = 4;
    p.semaphores = vec![1, 2];
    p.dispositions[5] = Action(9);
    p.get_futex(0x10);
    p.child_exit_code.insert(8, 8);
    p.sig_queue.push_back((Siginfo::new(1, 2, 3), -1));
    p.pending_sigset = Sigset(2);
    p.sigaltstack = 3;
    p.threads = vec![1];
    table.restore(p);
    let child = thread.fork(&mut table, &[7, 8], 0xa000, 0x5000);
    match child.context {
        Context::Fork { tf, kstack_top, vm_token } => {
            assert_eq!((tf, kstack_top, vm_token), ([7, 8], 0x5000, 0xa000));
        }
        _ => panic!("no fork"),
    }
    assert_eq!((child.kstack, child.clear_child_tid, child.vm, child.tf), (0x5000, 0, 0xa000, 0));
    assert_eq!(child.sig_mask, Sigset(6));
    assert_eq!(child.proc.get(), 2);
    let p = process(&table, 1).unwrap();
    let c = process(&table, 2).unwrap();
    assert_eq!(p.children, vec![child.proc]);
    assert_eq!((c.parent.get(), c.pgid, c.vm), (1, 4, 0xa000));
    assert_eq!(c.files.keys().copied().collect::<Vec<usize>>(), vec![0, 1, 2, 3]);
    assert!(matches!(c.files[&3], FileLike::Other(33)));
    assert_eq!(handle_at(&table, 2, 1).path, "stdout");
    for fd in 0..3 {
        assert_eq!(handle_at(&table, 2, fd).description, handle_at(&table, 1, fd).description);
    }
    assert_eq!((c.cwd.as_str(), c.exec_path.as_str()), ("/home", "/bin/sh"));
    assert_eq!(c.semaphores, vec![1, 2]);
    assert_eq!(c.dispositions, p.dispositions);
    assert_eq!(c.dispositions[5], Action(9));
    assert!(c.futexes.is_empty() && c.children.is_empty() && c.threads.is_empty());
    assert!(c.child_exit_code.is_empty() && c.sig_queue.is_empty());
    assert_eq!((c.pending_sigset, c.sigaltstack), (Sigset(0), 0));
    assert_eq!((p.threads.len(), p.sigaltstack, p.vm), (1, 3, 0x9000));
    let group: Vec<usize> = process_group(&table, 4).iter().map(|p| p.pid.get()).collect();
    assert_eq!(group, vec![1, 2]);
}

#[test]
fn children_are_listed_in_the_order_of_their_forks() {
    let mut table = Table::new();
    let thread = user_thread(&mut table, "/bin/sh", (0, 0, 0), 0);
    let a = thread.fork(&mut table, &[0, 0], 1, 0);
    let b = thread.fork(&mut table, &[0, 0], 2, 0);
    let grandchild = a.fork(&mut table, &[0, 0], 3, 0);
    assert_eq!(process(&table, 1).unwrap().children, vec![a.proc, b.proc]);
    assert_eq!(process(&table, a.proc.get()).unwrap().children, vec![grandchild.proc]);
    assert_eq!(process(&table, grandchild.proc.get()).unwrap().parent, a.proc);
}

#[test]
fn clone_stays_in_the_process() {
    let mut table = Table::new();
    let mut thread = user_thread(&mut table, "/bin/sh", (0x9000, 0, 0), 0);
    thread.sig_mask = Sigset(12);
    let clone = thread.clone(&[1, 2], 0x600, 0x700, 0x800, 0x5000);
    match clone.context {
        Context::Clone { tf, stack_top, kstack_top, vm_token, tls } => {
            assert_eq!(
                (tf, stack_top, kstack_top, vm_token, tls),
                ([1, 2], 0x600, 0x5000, 0x9000, 0x700)
            );
        }
        _ => panic!("no clone"),
    }
    assert_eq!((clone.kstack, clone.clear_child_tid, clone.vm, clone.tf), (0x5000, 0x800, 0x9000, 0));
    assert_eq!((clone.proc, clone.sig_mask), (thread.proc, Sigset(12)));
    thread.set_tid(&mut table, 1);
    clone.set_tid(&mut table, 2);
    assert_eq!(process(&table, 1).unwrap().threads, vec![1, 2]);
}

#[test]
fn thread_and_process_share_the_address_space() {
    let mut table = Table::new();
    let a = Thread::new_kernel(&mut table, 0, 0, 11, 0);
    let b = user_thread(&mut table, "", (22, 0, 0), 0);
    let c = b.fork(&mut table, &[0, 0], 33, 0);
    let d = c.clone(&[0, 0], 0, 0, 0, 0);
    table.exit(c.proc.get(), ExitStage::Files, 1);
    table.exit(c.proc.get(), ExitStage::Forget, 1);
    for thread in [&a, &b, &c, &d] {
        assert_eq!(process(&table, thread.proc.get()).unwrap().vm, thread.vm);
    }
}
