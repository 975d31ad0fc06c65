//! What holds of new threads and their processes, said of their fields.
use crate::fs::{FileLike, INodeRef};
use crate::kernel::Kernel;
use crate::loader::MappedProgram;
use crate::process::Process;
use crate::table::ProcessTable;
use crate::thread::{Context, Thread};
use vstd::prelude::*;

verus! {

/// The init thread is in no process, goes on with nothing and blocks no signal.
pub proof fn law_init_thread_is_blank<K: Kernel>(r: Box<Thread<K>>)
    requires
        call_ensures(Thread::<K>::new_init, (), r),
    ensures
        r.context is Null,
        r.proc@ == 0,
        r.vm == 0,
        r.kstack == 0,
        r.clear_child_tid == 0,
        r.tf == 0,
        r.sig_mask.0 == 0,
{
}

/// A kernel thread goes on with its function and argument, on its stack, in its address
/// space, and blocks no signal. It is the first of a process of its own, which has the lowest
/// number that was free, is in no group, has no parent, no file, no path, and nothing else that
/// a process gathers while it runs. No other process changes.
pub proof fn law_kernel_thread_is_set_up<K: Kernel>(
    table: &mut ProcessTable<K>,
    entry: usize,
    arg: usize,
    vm_token: usize,
    kstack_top: usize,
    r: Box<Thread<K>>,
)
    requires
        call_ensures(Thread::<K>::new_kernel, (table, entry, arg, vm_token, kstack_top), r),
    ensures
        r.context == (Context::<K>::KernelThread { entry, arg, kstack_top, vm_token }),
        r.kstack == kstack_top,
        r.vm == vm_token,
        r.clear_child_tid == 0,
        r.tf == 0,
        r.sig_mask.0 == 0,
        1 <= r.proc@,
        !old(table)@.contains_key(r.proc@),
        forall|k: usize| 1 <= k && !(#[trigger] old(table)@.contains_key(k)) ==> r.proc@ <= k,
        final(table)@.contains_key(r.proc@),
        ({
            &&& final(table)@[r.proc@] matches Some(process)
            &&& process.pid@ == r.proc@
            &&& process.vm == vm_token
            &&& process.pgid == -1
            &&& process.exec_path@.len() == 0
            &&& forall|k: usize| !(#[trigger] process.files@.contains_key(k))
            &&& forall|k: usize| !(#[trigger] process.futexes@.contains_key(k))
            &&& process.children@.len() == 0
            &&& process.threads@.len() == 0
            &&& call_ensures(K::Condvar::default, (), *process.child_exit)
            &&& forall|k: usize| !(#[trigger] process.child_exit_code@.contains_key(k))
            &&& process.sig_queue@.len() == 0
            &&& process.pending_sigset.0 == 0
            &&& call_ensures(K::SignalStack::default, (), process.sigaltstack)
            &&& process.cwd@ == "/"@
            &&& call_ensures(K::SemProc::default, (), process.semaphores)
            &&& process.parent@ == 0
            &&& forall|i: int|
                0 <= i < 65 ==> #[trigger] process.dispositions@[i] == process.dispositions@[0]
            &&& call_ensures(K::SignalAction::default, (), process.dispositions@[0])
        }),
        forall|k: usize|
            k != r.proc@ ==> (#[trigger] final(table)@.contains_key(k)
                <==> old(table)@.contains_key(k)),
        forall|k: usize|
            k != r.proc@ && #[trigger] old(table)@.contains_key(k) ==> final(table)@[k]
                == old(table)@[k],
{
}

/// A program that was loaded goes on at its entry, on the stack that its arguments were pushed
/// on, in its address space, and blocks no signal. It is the first of a process of its own,
/// which has the lowest number that was free, is in group 0, has no parent, and nothing that a
/// process gathers while it runs, but three files: descriptor 0 reads the console, and 1 and 2
/// write to it. No other process changes.
pub proof fn law_user_thread_is_set_up<K: Kernel>(
    table: &mut ProcessTable<K>,
    exec_path: &str,
    descriptions: [usize; 3],
    program: MappedProgram,
    kstack_top: usize,
    r: Result<Box<Thread<K>>, &'static str>,
) -> (thread: Box<Thread<K>>)
    requires
        call_ensures(
            Thread::<K>::new_user,
            (table, exec_path, descriptions, Ok(program), kstack_top),
            r,
        ),
    ensures
        r == Ok::<Box<Thread<K>>, &'static str>(thread),
        thread.context == (Context::<K>::UserThread {
            entry_addr: program.user_vm.entry_addr,
            ustack_top: program.ustack_top,
            kstack_top,
            vm_token: program.vm_token,
        }),
        thread.kstack == kstack_top,
        thread.vm == program.vm_token,
        thread.clear_child_tid == 0,
        thread.tf == 0,
        thread.sig_mask.0 == 0,
        1 <= thread.proc@,
        !old(table)@.contains_key(thread.proc@),
        forall|k: usize| 1 <= k && !(#[trigger] old(table)@.contains_key(k)) ==> thread.proc@ <= k,
        final(table)@.contains_key(thread.proc@),
        ({
            &&& final(table)@[thread.proc@] matches Some(process)
            &&& process.pid@ == thread.proc@
            &&& process.vm == program.vm_token
            &&& process.pgid == 0
            &&& process.exec_path@ == exec_path@
            &&& forall|k: usize| #[trigger] process.files@.contains_key(k) <==> k <= 2
            &&& process.files@[0] matches FileLike::File(h0)
            &&& h0.description == descriptions[0]
            &&& h0.inode == INodeRef::Stdin
            &&& h0.options.read == true
            &&& h0.options.write != true
            &&& !h0.options.append && !h0.options.nonblock
            &&& h0.path@ == "stdin"@
            &&& !h0.pipe && !h0.fd_cloexec
            &&& process.files@[1] matches FileLike::File(h1)
            &&& h1.description == descriptions[1]
            &&& h1.inode == INodeRef::Stdout
            &&& h1.options.read == false
            &&& h1.options.write != false
            &&& !h1.options.append && !h1.options.nonblock
            &&& h1.path@ == "stdout"@
            &&& !h1.pipe && !h1.fd_cloexec
            &&& process.files@[2] matches FileLike::File(h2)
            &&& h2.description == descriptions[2]
            &&& h2.inode == INodeRef::Stdout
            &&& h2.options.read == false
            &&& h2.options.write != false
            &&& !h2.options.append && !h2.options.nonblock
            &&& h2.path@ == "stderr"@
            &&& !h2.pipe && !h2.fd_cloexec
            &&& forall|k: usize| !(#[trigger] process.futexes@.contains_key(k))
            &&& process.children@.len() == 0
            &&& process.threads@.len() == 0
            &&& call_ensures(K::Condvar::default, (), *process.child_exit)
            &&& forall|k: usize| !(#[trigger] process.child_exit_code@.contains_key(k))
            &&& process.sig_queue@.len() == 0
            &&& process.pending_sigset.0 == 0
            &&& call_ensures(K::SignalStack::default, (), process.sigaltstack)
            &&& process.cwd@ == "/"@
            &&& call_ensures(K::SemProc::default, (), process.semaphores)
            &&& process.parent@ == 0
            &&& forall|i: int|
                0 <= i < 65 ==> #[trigger] process.dispositions@[i] == process.dispositions@[0]
            &&& call_ensures(K::SignalAction::default, (), process.dispositions@[0])
        }),
        forall|k: usize|
            k != thread.proc@ ==> (#[trigger] final(table)@.contains_key(k)
                <==> old(table)@.contains_key(k)),
        forall|k: usize|
            k != thread.proc@ && #[trigger] old(table)@.contains_key(k) ==> final(table)@[k]
                == old(table)@[k],
{
    r->Ok_0
}

/// The thread of a program that was started blocks no signal, whatever its number.
pub proof fn law_started_program_blocks_no_signal<K: Kernel>(
    table: &mut ProcessTable<K>,
    exec_path: &str,
    descriptions: [usize; 3],
    program: MappedProgram,
    kstack_top: usize,
    thread: Box<Thread<K>>,
    signal: u64,
)
    requires
        call_ensures(
            Thread::<K>::new_user,
            (table, exec_path, descriptions, Ok(program), kstack_top),
            Ok(thread),
        ),
        signal < 64,
    ensures
        (thread.sig_mask.0 >> signal) & 1 == 0,
{
    let mask = thread.sig_mask.0;
    assert((mask >> signal) & 1 == 0) by (bit_vector)
        requires
            mask == 0,
            signal < 64,
    ;
}

/// A load that failed starts nothing: the table stays as it is, and the reason comes back.
pub proof fn law_failed_load_starts_nothing<K: Kernel>(
    table: &mut ProcessTable<K>,
    exec_path: &str,
    descriptions: [usize; 3],
    reason: &'static str,
    kstack_top: usize,
    r: Result<Box<Thread<K>>, &'static str>,
)
    requires
        call_ensures(
            Thread::<K>::new_user,
            (table, exec_path, descriptions, Err(reason), kstack_top),
            r,
        ),
    ensures
        r == Err::<Box<Thread<K>>, &'static str>(reason),
        final(table)@ == old(table)@,
{
}

/// A forked thread goes on where its parent entered the kernel, on its own stack, in the
/// address space that it is given, and blocks the signals that its parent blocks. Its process
/// has the lowest number that was free, is a child of the process of the parent, has its open
/// files, its paths, its semaphores, its group and its signal actions, and nothing else that a
/// process gathers while it runs. The parent lists the child behind its other children and
/// keeps all else; no other process changes.
pub proof fn law_forked_thread_is_set_up<K: Kernel>(
    parent: &Thread<K>,
    table: &mut ProcessTable<K>,
    tf: &K::TrapFrame,
    vm_token: usize,
    kstack_top: usize,
    r: Box<Thread<K>>,
)
    requires
        call_ensures(Thread::<K>::fork, (parent, table, tf, vm_token, kstack_top), r),
        old(table).wf(),
        old(table)@.contains_key(parent.proc@),
        old(table)@[parent.proc@] is Some,
    ensures
        r.context == (Context::<K>::Fork { tf: *tf, kstack_top, vm_token }),
        r.kstack == kstack_top,
        r.vm == vm_token,
        r.clear_child_tid == 0,
        r.tf == 0,
        r.sig_mask == parent.sig_mask,
        1 <= r.proc@,
        !old(table)@.contains_key(r.proc@),
        forall|k: usize| 1 <= k && !(#[trigger] old(table)@.contains_key(k)) ==> r.proc@ <= k,
        final(table)@.contains_key(r.proc@),
        r.proc@ != parent.proc@,
        ({
            let before = old(table)@[parent.proc@]->0;
            &&& final(table)@[r.proc@] matches Some(process)
            &&& process.pid@ == r.proc@
            &&& process.parent@ == parent.proc@
            &&& process.vm == vm_token
            &&& forall|k: usize| #[trigger]
                process.files@.contains_key(k) <==> before.files@.contains_key(k)
            &&& forall|k: usize| #[trigger]
                before.files@.contains_key(k) ==> process.files@[k] == before.files@[k]
            &&& process.cwd@ == before.cwd@
            &&& process.exec_path@ == before.exec_path@
            &&& cloned(before.semaphores, process.semaphores)
            &&& process.pgid == before.pgid
            &&& process.dispositions == before.dispositions
            &&& forall|k: usize| !(#[trigger] process.futexes@.contains_key(k))
            &&& process.children@.len() == 0
            &&& process.threads@.len() == 0
            &&& call_ensures(K::Condvar::default, (), *process.child_exit)
            &&& forall|k: usize| !(#[trigger] process.child_exit_code@.contains_key(k))
            &&& process.sig_queue@.len() == 0
            &&& process.pending_sigset.0 == 0
            &&& call_ensures(K::SignalStack::default, (), process.sigaltstack)
        }),
        ({
            let before = old(table)@[parent.proc@]->0;
            &&& final(table)@[parent.proc@] matches Some(after)
            &&& after.children@.len() == before.children@.len() + 1
            &&& after.children@.last()@ == r.proc@
            &&& after.children@.drop_last() == before.children@
            &&& after == (Process { children: after.children, ..before })
        }),
        forall|k: usize|
            k != r.proc@ ==> (#[trigger] final(table)@.contains_key(k)
                <==> old(table)@.contains_key(k)),
        forall|k: usize|
            k != r.proc@ && k != parent.proc@ && #[trigger] old(table)@.contains_key(k)
                ==> final(table)@[k] == old(table)@[k],
{
    let before = table@[parent.proc@]->0;
    assert(before.children@.push(r.proc).drop_last() =~= before.children@);
}

/// A forked process waits for its own children on a condition variable that was made for it in
/// this fork. Where that is a new one, no process of the table waits on it but the child, and
/// where no two processes shared one before, none do after.
pub proof fn law_forked_process_waits_on_its_own<K: Kernel>(
    parent: &Thread<K>,
    table: &mut ProcessTable<K>,
    tf: &K::TrapFrame,
    vm_token: usize,
    kstack_top: usize,
    r: Box<Thread<K>>,
)
    requires
        call_ensures(Thread::<K>::fork, (parent, table, tf, vm_token, kstack_top), r),
        old(table).wf(),
        old(table)@.contains_key(parent.proc@),
        old(table)@[parent.proc@] is Some,
    ensures
        final(table)@[r.proc@] matches Some(child) && call_ensures(
            K::Condvar::default,
            (),
            *child.child_exit,
        ),
        ({
            let own = final(table)@[r.proc@]->0.child_exit;
            (forall|k: usize| #[trigger]
                old(table)@.contains_key(k) ==> (old(table)@[k] matches Some(p) ==> p.child_exit
                    != own)) ==> forall|k: usize|
                k != r.proc@ && #[trigger] final(table)@.contains_key(k) ==> (
                final(table)@[k] matches Some(p) ==> p.child_exit != own)
        }),
        forall|k: usize|
            k != r.proc@ && #[trigger] final(table)@.contains_key(k) ==> (
            final(table)@[k] matches Some(p) ==> (old(table)@[k] matches Some(q) && p.child_exit
                == q.child_exit)),
{
    assert forall|k: usize|
        k != r.proc@ && #[trigger] final(table)@.contains_key(k) && final(
            table)@[k] is Some implies old(table)@.contains_key(k) && old(table)@[k] is Some
        && (final(table)@[k]->0).child_exit == (old(table)@[k]->0).child_exit by {
    }
}

/// Two children that are forked one after the other are two processes, known to the parent in
/// the order of the forks.
pub proof fn law_second_fork_makes_another_child<K: Kernel>(
    parent: &Thread<K>,
    first: &mut ProcessTable<K>,
    second: &mut ProcessTable<K>,
    tf_a: &K::TrapFrame,
    tf_b: &K::TrapFrame,
    vm_a: usize,
    vm_b: usize,
    kstack_a: usize,
    kstack_b: usize,
    a: Box<Thread<K>>,
    b: Box<Thread<K>>,
)
    requires
        call_ensures(Thread::<K>::fork, (parent, first, tf_a, vm_a, kstack_a), a),
        call_ensures(Thread::<K>::fork, (parent, second, tf_b, vm_b, kstack_b), b),
        *old(second) == *final(first),
        old(first).wf(),
        old(first)@.contains_key(parent.proc@),
        old(first)@[parent.proc@] is Some,
    ensures
        a.proc@ != b.proc@,
        final(second)@[a.proc@] matches Some(p) && p.vm == vm_a && p.parent@ == parent.proc@,
        final(second)@[b.proc@] matches Some(p) && p.vm == vm_b && p.parent@ == parent.proc@,
        final(second)@[parent.proc@] matches Some(p) && p.children@ == (
        old(first)@[parent.proc@]->0).children@.push(a.proc).push(b.proc),
{
    assert(old(first)@.contains_key(parent.proc@));
    assert(final(first)@.contains_key(a.proc@));
    assert(final(first)@.contains_key(parent.proc@));
}

/// A cloned thread goes on where its parent entered the kernel, on the stack and with the
/// thread-local storage that it is given; it is in the same process and address space and
/// blocks the same signals.
pub proof fn law_cloned_thread_is_set_up<K: Kernel>(
    parent: &Thread<K>,
    tf: &K::TrapFrame,
    stack_top: usize,
    tls: usize,
    clear_child_tid: usize,
    kstack_top: usize,
    r: Box<Thread<K>>,
)
    requires
        call_ensures(
            Thread::<K>::clone,
            (parent, tf, stack_top, tls, clear_child_tid, kstack_top),
            r,
        ),
    ensures
        r.context == (Context::<K>::Clone {
            tf: *tf,
            stack_top,
            kstack_top,
            vm_token: parent.vm,
            tls,
        }),
        r.kstack == kstack_top,
        r.clear_child_tid == clear_child_tid,
        r.vm == parent.vm,
        r.proc@ == parent.proc@,
        r.sig_mask == parent.sig_mask,
        r.tf == 0,
{
}

/// A thread that joins its process is the last that the process lists; nothing else changes.
pub proof fn law_joined_thread_is_listed<K: Kernel>(
    thread: &Thread<K>,
    table: &mut ProcessTable<K>,
    tid: usize,
)
    requires
        call_ensures(Thread::<K>::set_tid, (thread, table, tid), ()),
        old(table)@.contains_key(thread.proc@),
        old(table)@[thread.proc@] is Some,
    ensures
        ({
            let before = old(table)@[thread.proc@]->0;
            &&& final(table)@[thread.proc@] matches Some(after)
            &&& after.threads@.len() == before.threads@.len() + 1
            &&& after.threads@.last() == tid
            &&& after.threads@.drop_last() == before.threads@
            &&& after == (Process { threads: after.threads, ..before })
        }),
        forall|k: usize| #[trigger]
            final(table)@.contains_key(k) <==> old(table)@.contains_key(k),
        forall|k: usize|
            k != thread.proc@ && #[trigger] old(table)@.contains_key(k) ==> final(table)@[k]
                == old(table)@[k],
{
    let before = table@[thread.proc@]->0;
    assert(before.threads@.push(tid).drop_last() =~= before.threads@);
}

/// Every way to start a thread is open as long as each process of the table stands under its
/// own number, from 1 on: a number has to be left where a process is made, and the process of
/// a thread that forks or joins has to be there.
pub proof fn law_threads_can_be_started<K: Kernel>(
    thread: &Thread<K>,
    table: &mut ProcessTable<K>,
    tf: &K::TrapFrame,
    exec_path: &str,
    descriptions: [usize; 3],
    loaded: Result<MappedProgram, &'static str>,
    a: usize,
    b: usize,
    c: usize,
    d: usize,
)
    requires
        forall|k: usize| #[trigger]
            old(table)@.contains_key(k) ==> 1 <= k && (old(table)@[k] matches Some(p)
                ==> p.pid@ == k),
    ensures
        call_requires(Thread::<K>::clone, (thread, tf, a, b, c, d)),
        loaded is Err ==> call_requires(
            Thread::<K>::new_user,
            (table, exec_path, descriptions, loaded, a),
        ),
        (exists|k: usize| 1 <= k && !(#[trigger] old(table)@.contains_key(k))) ==> {
            &&& call_requires(Thread::<K>::new_kernel, (table, a, b, c, d))
            &&& call_requires(
                Thread::<K>::new_user,
                (table, exec_path, descriptions, loaded, a),
            )
        },
        (exists|k: usize| 1 <= k && !(#[trigger] old(table)@.contains_key(k))) && old(
            table)@.contains_key(thread.proc@) && old(table)@[thread.proc@] is Some
            ==> call_requires(Thread::<K>::fork, (thread, table, tf, a, b)),
        old(table)@.contains_key(thread.proc@) && old(table)@[thread.proc@] is Some
            ==> call_requires(Thread::<K>::set_tid, (thread, table, a)),
{
    assert(old(table).wf());
}

} // verus!
