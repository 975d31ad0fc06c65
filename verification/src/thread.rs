//! Threads: how each of the ways to start one sets it up.
//!
//! The kernel makes address spaces and kernel stacks and hands over the token of the one and
//! the top of the other; what a thread and its process are then made of is decided here.
use crate::elf;
use crate::elf_format;
use crate::fs::{FileHandle, FileLike, INodeRef, OpenOptions};
use crate::kernel::Kernel;
use crate::loader;
use crate::loader::{LoadEvent, LoadStep, MappedProgram, UserVmLoad, HEAD_SIZE};
use crate::maps;
use crate::pid::Pid;
use crate::process;
use crate::process::{ExitStage, ExitStep, Process};
use crate::signal::{Siginfo, Sigset};
use crate::table;
use crate::table::ProcessTable;
use std::collections::{BTreeMap, VecDeque};
use std::sync::Arc;
use vstd::prelude::*;

verus! {

/// What a thread goes on with when it is switched to for the first time.
pub enum Context<K: Kernel> {
    /// Nothing: the thread already runs.
    Null,
    /// A function of the kernel.
    KernelThread { entry: usize, arg: usize, kstack_top: usize, vm_token: usize },
    /// A program.
    UserThread { entry_addr: usize, ustack_top: usize, kstack_top: usize, vm_token: usize },
    /// The place where its parent entered the kernel.
    Fork { tf: K::TrapFrame, kstack_top: usize, vm_token: usize },
    /// The same place, on a stack of its own.
    Clone { tf: K::TrapFrame, stack_top: usize, kstack_top: usize, vm_token: usize, tls: usize },
}

/// A thread.
pub struct Thread<K: Kernel> {
    pub context: Context<K>,
    /// The top of the kernel stack.
    pub kstack: usize,
    /// Kernel performs futex wake when thread exits.
    pub clear_child_tid: usize,
    /// The token of the address space. This is the same as that of the process.
    pub vm: usize,
    /// The number of the process.
    pub proc: Pid,
    pub sig_mask: Sigset,
    /// The address of the trap frame while the thread is in the kernel.
    pub tf: usize,
}

/// The three files that a program starts with: the console to read from, and twice to write
/// to, each with a description of its own.
pub open spec fn is_stdio(files: Map<usize, FileLike>, descriptions: [usize; 3]) -> bool {
    &&& files.dom() == set![0usize, 1usize, 2usize]
    &&& is_console_file(files[0], descriptions[0], INodeRef::Stdin, true, "stdin"@)
    &&& is_console_file(files[1], descriptions[1], INodeRef::Stdout, false, "stdout"@)
    &&& is_console_file(files[2], descriptions[2], INodeRef::Stdout, false, "stderr"@)
}

/// The console, open in one direction.
pub open spec fn is_console_file(
    file: FileLike,
    description: usize,
    inode: INodeRef,
    read: bool,
    path: Seq<char>,
) -> bool {
    &&& file matches FileLike::File(handle)
    &&& handle.description == description
    &&& handle.inode == inode
    &&& handle.options == (OpenOptions { read, write: !read, append: false, nonblock: false })
    &&& handle.path@ == path
    &&& !handle.pipe
    &&& !handle.fd_cloexec
}

/// What every new process has, however it came to be.
pub open spec fn is_unused<K: Kernel>(process: Process<K>) -> bool {
    &&& process.futexes@ == Map::<usize, Arc<K::Condvar>>::empty()
    &&& process.children@ == Seq::<Pid>::empty()
    &&& process.threads@ == Seq::<usize>::empty()
    &&& call_ensures(K::Condvar::default, (), *process.child_exit)
    &&& process.child_exit_code@ == Map::<usize, usize>::empty()
    &&& process.sig_queue@ == Seq::<(Siginfo, isize)>::empty()
    &&& process.pending_sigset == Sigset(0)
    &&& call_ensures(K::SignalStack::default, (), process.sigaltstack)
}

/// What every new process has that was not forked.
pub open spec fn is_first_of_family<K: Kernel>(process: Process<K>) -> bool {
    &&& is_unused(process)
    &&& process.cwd@ == "/"@
    &&& call_ensures(K::SemProc::default, (), process.semaphores)
    &&& process.parent@ == 0
    &&& process::is_default_actions::<K>(process.dispositions@)
}

/// What a forked process has from its parent.
pub open spec fn is_copy_of<K: Kernel>(process: Process<K>, parent: Process<K>) -> bool {
    &&& is_unused(process)
    &&& process.files@ == parent.files@
    &&& process.cwd@ == parent.cwd@
    &&& process.exec_path@ == parent.exec_path@
    &&& cloned(parent.semaphores, process.semaphores)
    &&& process.pgid == parent.pgid
    &&& process.parent == parent.pid
    &&& process.dispositions == parent.dispositions
}

/// The table `after` is `before` with a new process for the program, which has the lowest
/// number that was free, and `thread` is its first thread: it starts where the load says, on
/// the stack that the initial information was pushed on.
pub open spec fn has_started<K: Kernel>(
    after: &ProcessTable<K>,
    before: &ProcessTable<K>,
    thread: Thread<K>,
    exec_path: Seq<char>,
    descriptions: [usize; 3],
    program: MappedProgram,
    kstack_top: usize,
) -> bool {
    let process = after.at(thread.proc@);
    &&& after.has_added(before, process, thread.proc@)
    &&& is_first_of_family(process)
    &&& process.vm == program.vm_token
    &&& is_stdio(process.files@, descriptions)
    &&& process.exec_path@ == exec_path
    &&& process.pgid == 0
    &&& thread.is_in(after)
    &&& thread.context == (Context::<K>::UserThread {
        entry_addr: program.user_vm.entry_addr,
        ustack_top: program.ustack_top,
        kstack_top,
        vm_token: program.vm_token,
    })
    &&& thread.kstack == kstack_top
    &&& thread.clear_child_tid == 0
    &&& thread.vm == program.vm_token
    &&& thread.sig_mask == Sigset(0)
    &&& thread.tf == 0
}

/// The table `after` is `before` after the process `parent` forked a child, which has the
/// lowest number that was free.
pub open spec fn has_forked<K: Kernel>(
    after: &ProcessTable<K>,
    before: &ProcessTable<K>,
    parent: usize,
    child: Pid,
) -> bool {
    &&& maps::is_lowest_free(before@, Pid::INIT, child@)
    &&& after@ == before@.insert(child@, after@[child@]).insert(parent, after@[parent])
    &&& after.is_live(child@)
    &&& after.at(child@).pid == child
    &&& is_copy_of(after.at(child@), before.at(parent))
    &&& after.is_live(parent)
    &&& after.at(parent).children@ == before.at(parent).children@.push(child)
    &&& after.at(parent) == (Process {
        children: after.at(parent).children,
        ..before.at(parent)
    })
}

/// The table `after` is `before` after the process was told of the thread.
pub open spec fn has_joined<K: Kernel>(
    after: &ProcessTable<K>,
    before: &ProcessTable<K>,
    pid: usize,
    tid: usize,
) -> bool {
    &&& after.is_live(pid)
    &&& after@ == before@.insert(pid, after@[pid])
    &&& after.at(pid).threads@ == before.at(pid).threads@.push(tid)
    &&& after.at(pid) == (Process { threads: after.at(pid).threads, ..before.at(pid) })
}

/// A program that needs no interpreter starts at the entry point that its image names.
pub proof fn law_static_program_starts_at_its_entry<K: Kernel>(
    load: UserVmLoad,
    head: [u8; HEAD_SIZE],
    program: MappedProgram,
    after: &ProcessTable<K>,
    before: &ProcessTable<K>,
    thread: Thread<K>,
    exec_path: Seq<char>,
    descriptions: [usize; 3],
    kstack_top: usize,
)
    requires
        load.stage is Program,
        load.steps_to(LoadEvent::Read(Some(head)), LoadStep::Done(program.user_vm)),
        has_started(after, before, thread, exec_path, descriptions, program, kstack_top),
    ensures
        thread.context == (Context::<K>::UserThread {
            entry_addr: elf_format::entry_point(head@) as usize,
            ustack_top: program.ustack_top,
            kstack_top,
            vm_token: program.vm_token,
        }),
        after.at(thread.proc@).vm == program.vm_token,
{
}

/// A program that names an interpreter starts at the entry point of the interpreter, moved by
/// the bias of the program.
pub proof fn law_dynamic_program_starts_at_moved_entry<K: Kernel>(
    load: UserVmLoad,
    head: [u8; HEAD_SIZE],
    asked: UserVmLoad,
    path: String,
    inode: INodeRef,
    reading: UserVmLoad,
    wanted: INodeRef,
    interp_head: [u8; HEAD_SIZE],
    program: MappedProgram,
    after: &ProcessTable<K>,
    before: &ProcessTable<K>,
    thread: Thread<K>,
    exec_path: Seq<char>,
    descriptions: [usize; 3],
    kstack_top: usize,
)
    requires
        load.stage is Program,
        load.steps_to(LoadEvent::Read(Some(head)), LoadStep::Lookup(asked, path)),
        asked.steps_to(LoadEvent::Found(Some(inode)), LoadStep::Read(reading, wanted)),
        reading.steps_to(LoadEvent::Read(Some(interp_head)), LoadStep::Done(program.user_vm)),
        has_started(after, before, thread, exec_path, descriptions, program, kstack_top),
    ensures
        thread.context matches Context::UserThread { entry_addr, .. } && entry_addr
            == elf_format::entry_point(interp_head@) as usize + (elf::bias_of(
            elf_format::program_headers(head@),
        ) as usize),
        after.at(thread.proc@).vm == program.vm_token,
{
    loader::law_dynamic_program_starts_in_interpreter(
        load,
        head,
        asked,
        path,
        inode,
        reading,
        wanted,
        interp_head,
        program.user_vm,
    );
}

/// A thread and its process keep the same address space, whatever becomes of the table, until
/// the process is taken out.
pub proof fn law_thread_keeps_address_space<K: Kernel>(
    thread: &Thread<K>,
    before: &ProcessTable<K>,
    after: &ProcessTable<K>,
)
    requires
        thread.is_in(before),
        after.keeps(before),
    ensures
        thread.is_in(after),
{
}

/// Parent and child know each other, are two processes, and have the same group and signal
/// actions; under each descriptor they share one open file description.
pub proof fn law_fork_links_parent_and_child<K: Kernel>(
    before: &ProcessTable<K>,
    after: &ProcessTable<K>,
    parent: usize,
    child: Pid,
)
    requires
        before.wf(),
        before.is_live(parent),
        has_forked(after, before, parent, child),
    ensures
        child@ != parent,
        after.at(child@).parent@ == parent,
        after.at(parent).children@.contains(child),
        after.at(child@).files@ == after.at(parent).files@,
        forall|fd: usize| #[trigger]
            after.at(parent).files@.contains_key(fd) ==> {
                &&& after.at(child@).files@.contains_key(fd)
                &&& after.at(parent).files@[fd] matches FileLike::File(handle) ==> after.at(
                    child@,
                ).files@[fd] matches FileLike::File(other) && other.description
                    == handle.description
            },
        after.at(child@).pgid == after.at(parent).pgid,
        after.at(child@).dispositions == after.at(parent).dispositions,
{
    assert(before@.contains_key(parent));
    assert(after.at(parent).children@.last() == child);
}

/// A forked process is found in the group of its parent.
pub proof fn law_child_is_in_group_of_parent<K: Kernel>(
    before: &ProcessTable<K>,
    after: &ProcessTable<K>,
    parent: usize,
    child: Pid,
    group: Seq<&Process<K>>,
)
    requires
        before.wf(),
        before.is_live(parent),
        has_forked(after, before, parent, child),
        after.is_group(group, after.at(parent).pgid),
    ensures
        exists|i: int| 0 <= i < group.len() && (#[trigger] group[i]).pid == child,
{
    law_fork_links_parent_and_child(before, after, parent, child);
    assert(after.is_live(child@) && after.at(child@).pgid == after.at(parent).pgid);
    let i = choose|i: int| 0 <= i < group.len() && (#[trigger] group[i]).pid@ == child@;
    assert(*group[i] == after.at(child@));
}

/// Two children that a process forks one after the other, whatever happened in between, are
/// two processes with numbers that were never given out before, and the parent lists them in
/// the order of the forks. The first child keeps its address space.
pub proof fn law_two_forks_make_two_children<K: Kernel>(
    before: &ProcessTable<K>,
    first: &ProcessTable<K>,
    between: &ProcessTable<K>,
    second: &ProcessTable<K>,
    parent: usize,
    a: Pid,
    b: Pid,
)
    requires
        before.wf(),
        before.is_live(parent),
        has_forked(first, before, parent, a),
        between.wf(),
        between.keeps(first),
        forall|pid: usize| #[trigger] first@.contains_key(pid) ==> between@.contains_key(pid),
        between.at(parent).children@ == first.at(parent).children@,
        has_forked(second, between, parent, b),
    ensures
        a != b,
        a@ != b@,
        a@ != parent,
        b@ != parent,
        !before@.contains_key(a@),
        !before@.contains_key(b@),
        second.at(parent).children@ == before.at(parent).children@.push(a).push(b),
        second.is_live(a@),
        second.at(a@).vm == first.at(a@).vm,
{
    law_fork_links_parent_and_child(before, first, parent, a);
    assert(before@.contains_key(parent));
    assert(first.is_live(parent));
    assert(between.is_live(parent));
    law_fork_links_parent_and_child(between, second, parent, b);
    assert(first.is_live(a@) && first@.contains_key(a@));
    assert(between.is_live(a@));
    if before@.contains_key(b@) {
        assert(first@.contains_key(b@));
    }
}

/// When a forked process exits, its parent has the exit code, under the number of the child,
/// and what the parent waits for is notified.
pub proof fn law_exit_code_reaches_parent<K: Kernel>(
    before: &ProcessTable<K>,
    forked: &ProcessTable<K>,
    closing: &ProcessTable<K>,
    told: &ProcessTable<K>,
    ending: &ProcessTable<K>,
    done: &ProcessTable<K>,
    parent: usize,
    child: Pid,
    exit_code: usize,
    steps: (ExitStep<K>, ExitStep<K>, ExitStep<K>, ExitStep<K>),
)
    requires
        before.wf(),
        before.is_live(parent),
        has_forked(forked, before, parent, child),
        closing.has_passed(forked, child@, ExitStage::Files, exit_code, steps.0),
        told.has_passed(closing, child@, ExitStage::Parent, exit_code, steps.1),
        ending.has_passed(told, child@, ExitStage::Threads, exit_code, steps.2),
        done.has_passed(ending, child@, ExitStage::Forget, exit_code, steps.3),
    ensures
        done.is_live(parent),
        done.at(parent).child_exit_code@.contains_key(child@),
        done.at(parent).child_exit_code@[child@] == exit_code,
        steps.1 == ExitStep::<K>::Notify(Some(before.at(parent).child_exit)),
        done.at(child@).has_exited(),
        done.at(child@).files@ == Map::<usize, FileLike>::empty(),
{
    law_fork_links_parent_and_child(before, forked, parent, child);
    table::law_exit_keeps_its_order(
        forked,
        closing,
        told,
        ending,
        done,
        child@,
        exit_code,
        steps,
    );
}

/// A thread whose number no other process has is found in the process that was told of it.
pub proof fn law_new_thread_is_found<K: Kernel>(
    before: &ProcessTable<K>,
    after: &ProcessTable<K>,
    pid: usize,
    tid: usize,
)
    requires
        has_joined(after, before, pid, tid),
        forall|other: usize|
            other != pid && #[trigger] before.is_live(other) ==> !before.at(
                other,
            ).threads@.contains(tid),
    ensures
        after.is_first_with(tid, pid),
{
    assert(after.at(pid).threads@.last() == tid);
    assert forall|other: usize| other < pid && #[trigger] after.is_live(other) implies !after.at(
        other,
    ).threads@.contains(tid) by {
        assert(before.is_live(other));
    }
}

/// Opens the console in one direction.
fn console_file(description: usize, inode: INodeRef, read: bool, path: &str) -> (r: FileLike)
    ensures
        is_console_file(r, description, inode, read, path@),
{
    FileLike::File(
        FileHandle::new(
            description,
            inode,
            OpenOptions { read, write: !read, append: false, nonblock: false },
            path.to_owned(),
            false,
            false,
        ),
    )
}

/// The three files that a program starts with.
fn stdio_files(descriptions: [usize; 3]) -> (files: BTreeMap<usize, FileLike>)
    ensures
        is_stdio(files@, descriptions),
{
    broadcast use vstd::std_specs::btree::group_btree_axioms;

    let mut files: BTreeMap<usize, FileLike> = BTreeMap::new();
    files.insert(0, console_file(descriptions[0], INodeRef::Stdin, true, "stdin"));
    files.insert(1, console_file(descriptions[1], INodeRef::Stdout, false, "stdout"));
    files.insert(2, console_file(descriptions[2], INodeRef::Stdout, false, "stderr"));
    assert(files@.dom() =~= set![0usize, 1usize, 2usize]);
    files
}

impl<K: Kernel> Thread<K> {
    /// The process of the thread is in the table, in the thread's own address space.
    pub open spec fn is_in(&self, table: &ProcessTable<K>) -> bool {
        table.is_live(self.proc@) && table.at(self.proc@).vm == self.vm
    }

    /// Make a struct for the init thread
    pub fn new_init() -> (r: Box<Thread<K>>)
        ensures
            r.context == Context::<K>::Null,
            r.kstack == 0,
            r.clear_child_tid == 0,
            r.vm == 0,
            r.proc@ == 0,
            r.sig_mask == Sigset(0),
            r.tf == 0,
    {
        Box::new(
            Thread {
                context: Context::Null,
                kstack: 0,
                clear_child_tid: 0,
                vm: 0,
                proc: Pid::new(0),
                sig_mask: Sigset::empty(),
                tf: 0,
            },
        )
    }

    /// Make a new kernel thread starting from `entry` with `arg`
    pub fn new_kernel(
        table: &mut ProcessTable<K>,
        entry: usize,
        arg: usize,
        vm_token: usize,
        kstack_top: usize,
    ) -> (r: Box<Thread<K>>)
        requires
            old(table).wf(),
            old(table).has_room(),
        ensures
            final(table).wf(),
            final(table).keeps(old(table)),
            final(table).has_added(old(table), final(table).at(r.proc@), r.proc@),
            is_first_of_family(final(table).at(r.proc@)),
            final(table).at(r.proc@).vm == vm_token,
            final(table).at(r.proc@).files@ == Map::<usize, FileLike>::empty(),
            final(table).at(r.proc@).exec_path@ == Seq::<char>::empty(),
            final(table).at(r.proc@).pgid == -1,
            r.is_in(final(table)),
            r.context == (Context::<K>::KernelThread { entry, arg, kstack_top, vm_token }),
            r.kstack == kstack_top,
            r.clear_child_tid == 0,
            r.vm == vm_token,
            r.sig_mask == Sigset(0),
            r.tf == 0,
    {
        let process = Process {
            vm: vm_token,
            files: BTreeMap::new(),
            cwd: "/".to_owned(),
            exec_path: String::new(),
            futexes: BTreeMap::new(),
            semaphores: K::SemProc::default(),
            pid: Pid::new(0),
            pgid: -1,  // a kernel thread is in no group
            parent: Pid::new(0),
            children: Vec::new(),
            threads: Vec::new(),
            child_exit: Arc::new(K::Condvar::default()),
            child_exit_code: BTreeMap::new(),
            sig_queue: VecDeque::new(),
            pending_sigset: Sigset::empty(),
            dispositions: process::default_actions::<K>(),
            sigaltstack: K::SignalStack::default(),
        };
        let proc = process.add_to_table(table);
        Box::new(
            Thread {
                context: Context::KernelThread { entry, arg, kstack_top, vm_token },
                kstack: kstack_top,
                clear_child_tid: 0,
                vm: vm_token,
                proc,
                sig_mask: Sigset::empty(),
                tf: 0,
            },
        )
    }

    /// Make a new user process from a program that was loaded. `descriptions` are the open
    /// file descriptions that the kernel made for its three files.
    ///
    /// Where the load failed there is no new process, and the reason is handed back.
    pub fn new_user(
        table: &mut ProcessTable<K>,
        exec_path: &str,
        descriptions: [usize; 3],
        loaded: Result<MappedProgram, &'static str>,
        kstack_top: usize,
    ) -> (r: Result<Box<Thread<K>>, &'static str>)
        requires
            old(table).wf(),
            loaded is Ok ==> old(table).has_room(),
        ensures
            final(table).wf(),
            final(table).keeps(old(table)),
            match loaded {
                Ok(program) => r matches Ok(thread) && has_started(
                    final(table),
                    old(table),
                    *thread,
                    exec_path@,
                    descriptions,
                    program,
                    kstack_top,
                ),
                Err(reason) => r == Err::<Box<Thread<K>>, &'static str>(reason) && final(table)@
                    == old(table)@,
            },
    {
        let program = match loaded {
            Ok(program) => program,
            Err(reason) => return Err(reason),
        };
        let vm_token = program.vm_token;
        let entry_addr = program.user_vm.entry_addr;
        let ustack_top = program.ustack_top;
        let process = Process {
            vm: vm_token,
            files: stdio_files(descriptions),
            cwd: "/".to_owned(),
            exec_path: exec_path.to_owned(),
            futexes: BTreeMap::new(),
            semaphores: K::SemProc::default(),
            pid: Pid::new(0),
            pgid: 0,
            parent: Pid::new(0),
            children: Vec::new(),
            threads: Vec::new(),
            child_exit: Arc::new(K::Condvar::default()),
            child_exit_code: BTreeMap::new(),
            pending_sigset: Sigset::empty(),
            sig_queue: VecDeque::new(),
            dispositions: process::default_actions::<K>(),
            sigaltstack: K::SignalStack::default(),
        };
        let proc = process.add_to_table(table);
        Ok(
            Box::new(
                Thread {
                    context: Context::UserThread { entry_addr, ustack_top, kstack_top, vm_token },
                    kstack: kstack_top,
                    clear_child_tid: 0,
                    vm: vm_token,
                    proc,
                    sig_mask: Sigset::default(),
                    tf: 0,
                },
            ),
        )
    }

    /// Fork a new process from current one. `vm_token` is a copy of the address space of this
    /// thread.
    pub fn fork(
        &self,
        table: &mut ProcessTable<K>,
        tf: &K::TrapFrame,
        vm_token: usize,
        kstack_top: usize,
    ) -> (r: Box<Thread<K>>)
        requires
            old(table).wf(),
            old(table).has_room(),
            old(table).is_live(self.proc@),
        ensures
            final(table).wf(),
            final(table).keeps(old(table)),
            has_forked(final(table), old(table), self.proc@, r.proc),
            final(table).at(r.proc@).vm == vm_token,
            r.is_in(final(table)),
            r.context == (Context::<K>::Fork { tf: *tf, kstack_top, vm_token }),
            r.kstack == kstack_top,
            r.clear_child_tid == 0,
            r.vm == vm_token,
            r.sig_mask == self.sig_mask,
            r.tf == 0,
    {
        let proc = table::process(table, self.proc.get()).unwrap();
        let new_proc = Process {
            vm: vm_token,
            files: proc.files.clone(),  // share open file descriptions
            cwd: proc.cwd.clone(),
            exec_path: proc.exec_path.clone(),
            futexes: BTreeMap::new(),
            semaphores: proc.semaphores.clone(),
            pid: Pid::new(0),
            pgid: proc.pgid,
            parent: proc.pid,
            children: Vec::new(),
            threads: Vec::new(),
            child_exit: Arc::new(K::Condvar::default()),
            child_exit_code: BTreeMap::new(),
            pending_sigset: Sigset::empty(),
            sig_queue: VecDeque::new(),
            dispositions: proc.dispositions,
            sigaltstack: K::SignalStack::default(),
        };
        let child = new_proc.add_to_table(table);
        // link to parent
        table.add_child(self.proc.get(), child);
        proof {
            assert(old(table)@.contains_key(self.proc@));
            table.at(child@).pid.law_number_identifies(child);
        }
        Box::new(
            Thread {
                context: Context::Fork { tf: *tf, kstack_top, vm_token },
                kstack: kstack_top,
                clear_child_tid: 0,
                vm: vm_token,
                proc: child,
                sig_mask: self.sig_mask,
                tf: 0,
            },
        )
    }

    /// Create a new thread in the same process.
    pub fn clone(
        &self,
        tf: &K::TrapFrame,
        stack_top: usize,
        tls: usize,
        clear_child_tid: usize,
        kstack_top: usize,
    ) -> (r: Box<Thread<K>>)
        ensures
            r.context == (Context::<K>::Clone {
                tf: *tf,
                stack_top,
                kstack_top,
                vm_token: self.vm,
                tls,
            }),
            r.kstack == kstack_top,
            r.clear_child_tid == clear_child_tid,
            r.vm == self.vm,
            r.proc == self.proc,
            r.sig_mask == self.sig_mask,
            r.tf == 0,
    {
        Box::new(
            Thread {
                context: Context::Clone { tf: *tf, stack_top, kstack_top, vm_token: self.vm, tls },
                kstack: kstack_top,
                clear_child_tid,
                vm: self.vm,
                proc: self.proc,
                sig_mask: self.sig_mask,
                tf: 0,
            },
        )
    }

    /// Tells the process of the thread the number that the thread was given.
    pub fn set_tid(&self, table: &mut ProcessTable<K>, tid: usize)
        requires
            old(table).wf(),
            old(table).is_live(self.proc@),
        ensures
            final(table).wf(),
            final(table).keeps(old(table)),
            has_joined(final(table), old(table), self.proc@, tid),
    {
        // add it to threads
        table.add_thread(self.proc.get(), tid);
    }
}

} // verus!
