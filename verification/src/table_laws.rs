//! What holds of the table of processes across the calls on it, said of its entries.
use crate::kernel::Kernel;
use crate::pid::Pid;
use crate::process::{ExitStage, ExitStep, Process};
use crate::process_laws;
use crate::table;
use crate::table::ProcessTable;
use vstd::prelude::*;

verus! {

/// A process that is added gets the lowest number from 1 on that was never given out, and
/// keeps all else that it has; no other entry of the table changes.
pub proof fn law_added_process_has_its_number<K: Kernel>(
    process: Process<K>,
    table: &mut ProcessTable<K>,
    pid: Pid,
)
    requires
        call_ensures(Process::<K>::add_to_table, (process, table), pid),
    ensures
        1 <= pid@,
        !old(table)@.contains_key(pid@),
        forall|k: usize| 1 <= k && !(#[trigger] old(table)@.contains_key(k)) ==> pid@ <= k,
        final(table)@.contains_key(pid@),
        ({
            &&& final(table)@[pid@] matches Some(added)
            &&& added.pid@ == pid@
            &&& added.vm == process.vm
            &&& added.files == process.files
            &&& added.cwd == process.cwd
            &&& added.exec_path == process.exec_path
            &&& added.futexes == process.futexes
            &&& added.semaphores == process.semaphores
            &&& added.pgid == process.pgid
            &&& added.parent == process.parent
            &&& added.children == process.children
            &&& added.threads == process.threads
            &&& added.child_exit == process.child_exit
            &&& added.child_exit_code == process.child_exit_code
            &&& added.sig_queue == process.sig_queue
            &&& added.pending_sigset == process.pending_sigset
            &&& added.dispositions == process.dispositions
            &&& added.sigaltstack == process.sigaltstack
        }),
        forall|k: usize|
            k != pid@ ==> (#[trigger] final(table)@.contains_key(k)
                <==> old(table)@.contains_key(k)),
        forall|k: usize|
            k != pid@ && #[trigger] old(table)@.contains_key(k) ==> final(table)@[k]
                == old(table)@[k],
{
}

/// A new table has no entry.
pub proof fn law_new_table_is_empty<K: Kernel>(r: ProcessTable<K>)
    requires
        call_ensures(ProcessTable::<K>::new, (), r),
    ensures
        forall|k: usize| !(#[trigger] r@.contains_key(k)),
{
}

/// There is room for a process exactly where a number from 1 on was never given out.
pub proof fn law_room_is_a_free_number<K: Kernel>(table: &ProcessTable<K>, r: bool)
    requires
        call_ensures(ProcessTable::<K>::can_add, (table,), r),
    ensures
        r <==> exists|k: usize| 1 <= k && !(#[trigger] table@.contains_key(k)),
{
}

/// A process that is taken out was there, is handed over as it was, and leaves its number
/// taken; a number without process gives nothing and changes nothing. No other entry changes.
pub proof fn law_released_process_leaves_its_number<K: Kernel>(
    table: &mut ProcessTable<K>,
    pid: usize,
    r: Option<Process<K>>,
)
    requires
        call_ensures(ProcessTable::<K>::release, (table, pid), r),
    ensures
        r is Some <==> old(table)@.contains_key(pid) && old(table)@[pid] is Some,
        r is Some ==> r == old(table)@[pid] && final(table)@.contains_key(pid) && final(
            table)@[pid] is None,
        r is None ==> final(table)@ == old(table)@,
        forall|k: usize| #[trigger]
            final(table)@.contains_key(k) <==> old(table)@.contains_key(k),
        forall|k: usize|
            k != pid && #[trigger] old(table)@.contains_key(k) ==> final(table)@[k]
                == old(table)@[k],
{
}

/// A process that is put back is found as it is under its number; no other entry changes.
pub proof fn law_restored_process_is_back<K: Kernel>(
    table: &mut ProcessTable<K>,
    process: Process<K>,
)
    requires
        call_ensures(ProcessTable::<K>::restore, (table, process), ()),
    ensures
        final(table)@.contains_key(process.pid@),
        final(table)@[process.pid@] == Some(process),
        forall|k: usize|
            k != process.pid@ ==> (#[trigger] final(table)@.contains_key(k)
                <==> old(table)@.contains_key(k)),
        forall|k: usize|
            k != process.pid@ && #[trigger] old(table)@.contains_key(k) ==> final(table)@[k]
                == old(table)@[k],
{
}

/// A process that is taken out and put back leaves the table as it was.
pub proof fn law_release_and_restore_change_nothing<K: Kernel>(
    taken: &mut ProcessTable<K>,
    back: &mut ProcessTable<K>,
    pid: usize,
    process: Process<K>,
)
    requires
        old(taken).wf(),
        call_ensures(ProcessTable::<K>::release, (taken, pid), Some(process)),
        call_ensures(ProcessTable::<K>::restore, (back, process), ()),
        *old(back) == *final(taken),
    ensures
        final(back)@ == old(taken)@,
{
    assert(process.pid@ == pid);
    assert(final(back)@ =~= old(taken)@);
}

/// A number was given out exactly where the table has an entry for it.
pub proof fn law_given_numbers_are_known<K: Kernel>(table: &ProcessTable<K>, pid: usize, r: bool)
    requires
        call_ensures(ProcessTable::<K>::contains, (table, pid), r),
    ensures
        r <==> table@.contains_key(pid),
{
}

/// A process is found by its number exactly where it is there, as it is there.
pub proof fn law_process_is_found_by_number<K: Kernel>(
    table: &ProcessTable<K>,
    pid: usize,
    r: Option<&Process<K>>,
)
    requires
        call_ensures(table::process::<K>, (table, pid), r),
    ensures
        r is Some <==> table@.contains_key(pid) && table@[pid] is Some,
        r matches Some(p) ==> table@[pid] == Some(*p),
{
}

/// A process that is added is found by the number that it was given.
pub proof fn law_added_process_is_found<K: Kernel>(
    process: Process<K>,
    table: &mut ProcessTable<K>,
    pid: Pid,
    after: &ProcessTable<K>,
    found: Option<&Process<K>>,
)
    requires
        call_ensures(Process::<K>::add_to_table, (process, table), pid),
        *after == *final(table),
        call_ensures(table::process::<K>, (after, pid@), found),
    ensures
        found matches Some(p) && p.pid@ == pid@ && p.vm == process.vm && p.files == process.files,
{
}

/// The process of a thread is found exactly where some process lists the thread. It is there
/// under its number, lists the thread, and none with a lower number does.
pub proof fn law_process_of_a_thread_is_found<K: Kernel>(
    table: &ProcessTable<K>,
    tid: usize,
    r: Option<&Process<K>>,
)
    requires
        call_ensures(table::process_of::<K>, (table, tid), r),
    ensures
        r matches Some(p) ==> {
            &&& table@.contains_key(p.pid@)
            &&& table@[p.pid@] == Some(*p)
            &&& p.threads@.contains(tid)
            &&& forall|k: usize|
                k < p.pid@ && #[trigger] table@.contains_key(k) ==> (table@[k] matches Some(q)
                    ==> !q.threads@.contains(tid))
        },
        r is None ==> forall|k: usize| #[trigger]
            table@.contains_key(k) ==> (table@[k] matches Some(q) ==> !q.threads@.contains(tid)),
{
    if r is None {
        assert(forall|pid: usize| #[trigger]
            table.is_live(pid) ==> !table.at(pid).threads@.contains(tid));
    }
    assert forall|k: usize| #[trigger] table@.contains_key(k) && table@[k] is Some implies (
    r is None ==> !(table@[k]->0).threads@.contains(tid)) && (r is Some && k < (r->0).pid@
        ==> !(table@[k]->0).threads@.contains(tid)) by {
        assert(table.is_live(k));
        assert(table.at(k) == table@[k]->0);
    }
}

/// A group is every process with its number, each once, in the order of the numbers of the
/// processes, and no other.
pub proof fn law_group_is_all_its_processes<K: Kernel>(
    table: &ProcessTable<K>,
    pgid: i32,
    r: Vec<&Process<K>>,
)
    requires
        call_ensures(table::process_group::<K>, (table, pgid), r),
    ensures
        forall|i: int, j: int| 0 <= i < j < r@.len() ==> r@[i].pid@ < r@[j].pid@,
        forall|i: int|
            0 <= i < r@.len() ==> {
                let p = #[trigger] r@[i];
                &&& p.pgid == pgid
                &&& table@.contains_key(p.pid@)
                &&& table@[p.pid@] == Some(*p)
            },
        forall|k: usize| #[trigger]
            table@.contains_key(k) ==> (table@[k] matches Some(q) && q.pgid == pgid ==> exists|
                i: int,
            |
                0 <= i < r@.len() && (#[trigger] r@[i]).pid@ == k),
{
    assert forall|k: usize| #[trigger] table@.contains_key(k) && table@[k] is Some && (
    table@[k]->0).pgid == pgid implies exists|i: int|
        0 <= i < r@.len() && (#[trigger] r@[i]).pid@ == k by {
        assert(table.is_live(k));
    }
}

/// At no stage of an exit does any process but the one that exits and its parent change, and
/// no entry comes or goes.
pub proof fn law_exit_touches_nobody_else<K: Kernel>(
    table: &mut ProcessTable<K>,
    pid: usize,
    stage: ExitStage,
    exit_code: usize,
    step: ExitStep<K>,
)
    requires
        call_ensures(ProcessTable::<K>::exit, (table, pid, stage, exit_code), step),
        old(table)@.contains_key(pid),
        old(table)@[pid] is Some,
    ensures
        forall|k: usize| #[trigger]
            final(table)@.contains_key(k) <==> old(table)@.contains_key(k),
        forall|k: usize|
            k != pid && k != old(table)@[pid]->0.parent@ && #[trigger] old(table)@.contains_key(k)
                ==> final(table)@[k] == old(table)@[k],
        !(stage is Parent) ==> forall|k: usize|
            k != pid && #[trigger] old(table)@.contains_key(k) ==> final(table)@[k] == old(
                table)@[k],
{
}

/// Every exit code that was left with a process stays there, unchanged, when another process
/// exits, at whatever stage.
pub proof fn law_exit_codes_stay_until_fetched<K: Kernel>(
    table: &mut ProcessTable<K>,
    pid: usize,
    stage: ExitStage,
    exit_code: usize,
    step: ExitStep<K>,
    holder: usize,
    child: usize,
)
    requires
        call_ensures(ProcessTable::<K>::exit, (table, pid, stage, exit_code), step),
        old(table)@.contains_key(pid),
        old(table)@[pid] is Some,
        old(table)@[pid]->0.parent@ != pid,
        old(table)@.contains_key(holder),
        old(table)@[holder] is Some,
        old(table)@[holder]->0.child_exit_code@.contains_key(child),
        child != pid,
    ensures
        final(table)@.contains_key(holder),
        final(table)@[holder] matches Some(p) && p.child_exit_code@.contains_key(child)
            && p.child_exit_code@[child] == old(table)@[holder]->0.child_exit_code@[child],
{
}

/// A process hands over all its files at the first stage of its exit, in the order of their
/// descriptors, and keeps none, but all else.
pub proof fn law_exit_in_the_table_hands_over_all_files<K: Kernel>(
    table: &mut ProcessTable<K>,
    pid: usize,
    exit_code: usize,
    step: ExitStep<K>,
) -> (fds: Seq<usize>)
    requires
        call_ensures(ProcessTable::<K>::exit, (table, pid, ExitStage::Files, exit_code), step),
        old(table)@.contains_key(pid),
        old(table)@[pid] is Some,
    ensures
        step matches ExitStep::Close(list) && list@.len() == fds.len() && forall|i: int|
            0 <= i < fds.len() ==> #[trigger] list@[i] == old(table)@[pid]->0.files@[fds[i]],
        forall|i: int, j: int| 0 <= i < j < fds.len() ==> fds[i] < fds[j],
        forall|i: int|
            0 <= i < fds.len() ==> old(table)@[pid]->0.files@.contains_key(#[trigger] fds[i]),
        forall|fd: usize| #[trigger]
            old(table)@[pid]->0.files@.contains_key(fd) ==> fds.contains(fd),
        ({
            &&& final(table)@[pid] matches Some(after)
            &&& forall|fd: usize| !(#[trigger] after.files@.contains_key(fd))
            &&& after == (Process { files: after.files, ..old(table)@[pid]->0 })
        }),
{
    if let ExitStep::Close(list) = step {
        process_laws::law_files_have_the_order_of_descriptors(list@, table@[pid]->0.files@)
    } else {
        Seq::empty()
    }
}

/// The exit code of a process is left with its parent, where that is there, at the second
/// stage, and what the parent waits for is notified; the process keeps all that it has.
pub proof fn law_exit_in_the_table_reaches_the_parent<K: Kernel>(
    table: &mut ProcessTable<K>,
    pid: usize,
    exit_code: usize,
    step: ExitStep<K>,
)
    requires
        call_ensures(ProcessTable::<K>::exit, (table, pid, ExitStage::Parent, exit_code), step),
        old(table)@.contains_key(pid),
        old(table)@[pid] is Some,
        old(table)@[pid]->0.parent@ != pid,
    ensures
        final(table)@[pid] == old(table)@[pid],
        ({
            let parent = old(table)@[pid]->0.parent@;
            if old(table)@.contains_key(parent) && old(table)@[parent] is Some {
                let before = old(table)@[parent]->0;
                &&& final(table)@[parent] matches Some(after)
                &&& after.child_exit_code@.contains_key(pid)
                &&& after.child_exit_code@[pid] == exit_code
                &&& after == (Process { child_exit_code: after.child_exit_code, ..before })
                &&& step matches ExitStep::Notify(Some(condvar))
                &&& condvar == before.child_exit
            } else {
                step matches ExitStep::Notify(None) && final(table)@ == old(table)@
            }
        }),
{
    let parent = table@[pid]->0.parent@;
    if !(table@.contains_key(parent) && table@[parent] is Some) {
        assert(final(table)@ =~= old(table)@);
    }
}

/// The threads of a process are all to exit, with code 1, at the third stage of its exit,
/// while the table stays as it is.
pub proof fn law_exit_in_the_table_ends_all_threads<K: Kernel>(
    table: &mut ProcessTable<K>,
    pid: usize,
    exit_code: usize,
    step: ExitStep<K>,
)
    requires
        call_ensures(ProcessTable::<K>::exit, (table, pid, ExitStage::Threads, exit_code), step),
        old(table)@.contains_key(pid),
        old(table)@[pid] is Some,
    ensures
        step matches ExitStep::ExitThreads(tids, code) && tids@ == old(table)@[pid]->0.threads@
            && code == 1,
        final(table)@ == old(table)@,
{
    assert(final(table)@ =~= old(table)@);
}

/// The threads of a process are forgotten at the last stage of its exit; it keeps all else.
pub proof fn law_exit_in_the_table_forgets_the_threads<K: Kernel>(
    table: &mut ProcessTable<K>,
    pid: usize,
    exit_code: usize,
    step: ExitStep<K>,
)
    requires
        call_ensures(ProcessTable::<K>::exit, (table, pid, ExitStage::Forget, exit_code), step),
        old(table)@.contains_key(pid),
        old(table)@[pid] is Some,
    ensures
        step is Done,
        ({
            &&& final(table)@[pid] matches Some(after)
            &&& after.threads@.len() == 0
            &&& after == (Process { threads: after.threads, ..old(table)@[pid]->0 })
        }),
{
}

/// Two children of one parent that both leave their exit codes leave both. In between anything
/// may have happened that left the codes of the parent where they were.
pub proof fn law_parent_has_the_codes_of_both_children<K: Kernel>(
    first: &mut ProcessTable<K>,
    second: &mut ProcessTable<K>,
    parent: usize,
    a: usize,
    b: usize,
    code_a: usize,
    code_b: usize,
    step_a: ExitStep<K>,
    step_b: ExitStep<K>,
)
    requires
        call_ensures(ProcessTable::<K>::exit, (first, a, ExitStage::Parent, code_a), step_a),
        call_ensures(ProcessTable::<K>::exit, (second, b, ExitStage::Parent, code_b), step_b),
        a != b,
        a != parent,
        b != parent,
        old(first)@.contains_key(a),
        old(first)@[a] matches Some(p) && p.parent@ == parent,
        old(first)@.contains_key(parent),
        old(first)@[parent] is Some,
        old(second)@.contains_key(b),
        old(second)@[b] matches Some(p) && p.parent@ == parent,
        old(second)@.contains_key(parent),
        old(second)@[parent] is Some,
        final(first)@[parent]->0.child_exit_code@ <= old(second)@[parent]->0.child_exit_code@,
    ensures
        ({
            &&& final(second)@[parent] matches Some(p)
            &&& p.child_exit_code@.contains_key(a)
            &&& p.child_exit_code@.contains_key(b)
            &&& p.child_exit_code@[a] == code_a
            &&& p.child_exit_code@[b] == code_b
        }),
{
    assert(final(first)@[parent]->0.child_exit_code@.contains_key(a));
}

/// Every call on a table can be made as long as each process in it stands under its own
/// number, from 1 on: a process can be added where a number is left, exited where it is there
/// and is not its own parent, and put back where its number was given out.
pub proof fn law_table_in_order_can_be_called<K: Kernel>(
    table: &mut ProcessTable<K>,
    seen: &ProcessTable<K>,
    process: Process<K>,
    pid: usize,
    pgid: i32,
    stage: ExitStage,
    exit_code: usize,
)
    requires
        forall|k: usize| #[trigger]
            old(table)@.contains_key(k) ==> 1 <= k && (old(table)@[k] matches Some(p)
                ==> p.pid@ == k),
        *seen == *old(table),
    ensures
        call_requires(table::process_of::<K>, (seen, pid)),
        call_requires(table::process_group::<K>, (seen, pgid)),
        call_requires(table::process::<K>, (seen, pid)),
        call_requires(ProcessTable::<K>::release, (table, pid)),
        old(table)@.contains_key(process.pid@) ==> call_requires(
            ProcessTable::<K>::restore,
            (table, process),
        ),
        old(table)@.contains_key(pid) && (old(table)@[pid] matches Some(p) && p.parent@ != pid)
            ==> call_requires(ProcessTable::<K>::exit, (table, pid, stage, exit_code)),
        (exists|k: usize| 1 <= k && !(#[trigger] old(table)@.contains_key(k))) ==> call_requires(
            Process::<K>::add_to_table,
            (process, table),
        ),
{
    assert(seen.wf());
}

/// A table stays in order: each process stands under its own number, from 1 on, after every
/// call, where it did before.
pub proof fn law_table_stays_in_order<K: Kernel>(
    added: &mut ProcessTable<K>,
    released: &mut ProcessTable<K>,
    restored: &mut ProcessTable<K>,
    exited: &mut ProcessTable<K>,
    process: Process<K>,
    given: Pid,
    pid: usize,
    r: Option<Process<K>>,
    stage: ExitStage,
    exit_code: usize,
    step: ExitStep<K>,
    k: usize,
)
    requires
        call_ensures(Process::<K>::add_to_table, (process, added), given),
        call_ensures(ProcessTable::<K>::release, (released, pid), r),
        call_ensures(ProcessTable::<K>::restore, (restored, process), ()),
        call_ensures(ProcessTable::<K>::exit, (exited, pid, stage, exit_code), step),
    ensures
        final(added)@.contains_key(k) ==> 1 <= k && (final(added)@[k] matches Some(p) ==> p.pid@
            == k),
        final(released)@.contains_key(k) ==> 1 <= k && (final(released)@[k] matches Some(p)
            ==> p.pid@ == k),
        final(restored)@.contains_key(k) ==> 1 <= k && (final(restored)@[k] matches Some(p)
            ==> p.pid@ == k),
        final(exited)@.contains_key(k) ==> 1 <= k && (final(exited)@[k] matches Some(p) ==> p.pid@
            == k),
{
}

} // verus!
