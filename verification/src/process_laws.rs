//! What holds of a process across the calls on it, said of its fields.
use crate::fs::FileLike;
use crate::kernel::Kernel;
use crate::maps;
use crate::process;
use crate::process::{ExitStage, ExitStep, Process};
use std::sync::Arc;
use vstd::prelude::*;

verus! {

/// A descriptor that is sought from a start on is free, not below the start, and no higher
/// than any other that is free.
pub proof fn law_lowest_descriptor_is_found<K: Kernel>(process: &Process<K>, arg: usize, r: usize)
    requires
        call_ensures(Process::<K>::get_free_fd_from, (process, arg), r),
    ensures
        arg <= r,
        !process.files@.contains_key(r),
        forall|k: usize| arg <= k && !(#[trigger] process.files@.contains_key(k)) ==> r <= k,
{
}

/// There is a descriptor from a start on exactly where one of them is free.
pub proof fn law_free_descriptor_is_noticed<K: Kernel>(process: &Process<K>, arg: usize, r: bool)
    requires
        call_ensures(Process::<K>::has_free_fd_from, (process, arg), r),
    ensures
        r <==> exists|k: usize| arg <= k && !(#[trigger] process.files@.contains_key(k)),
{
}

/// A file that is added is open under a descriptor that was free, and that is lower than any
/// other that was; all other files, and all else of the process, stay as they are.
pub proof fn law_added_file_is_open<K: Kernel>(
    process: &mut Process<K>,
    file: FileLike,
    fd: usize,
)
    requires
        call_ensures(Process::<K>::add_file, (process, file), fd),
    ensures
        !old(process).files@.contains_key(fd),
        forall|k: usize| !(#[trigger] old(process).files@.contains_key(k)) ==> fd <= k,
        final(process).files@.contains_key(fd),
        final(process).files@[fd] == file,
        forall|k: usize|
            k != fd ==> (#[trigger] final(process).files@.contains_key(k)
                <==> old(process).files@.contains_key(k)),
        forall|k: usize|
            k != fd && #[trigger] old(process).files@.contains_key(k) ==> final(process).files@[k]
                == old(process).files@[k],
        *final(process) == (Process { files: final(process).files, ..*old(process) }),
{
}

/// A futex that is given stands under its address from then on. Where it stood there already
/// nothing changes; where it did not, it is one that was made for this request. The futexes of
/// all other addresses, and all else of the process, stay as they are.
pub proof fn law_given_futex_stands_under_its_address<K: Kernel>(
    process: &mut Process<K>,
    uaddr: usize,
    r: Arc<K::Condvar>,
)
    requires
        call_ensures(Process::<K>::get_futex, (process, uaddr), r),
    ensures
        final(process).futexes@.contains_key(uaddr),
        final(process).futexes@[uaddr] == r,
        old(process).futexes@.contains_key(uaddr) ==> r == old(process).futexes@[uaddr],
        !old(process).futexes@.contains_key(uaddr) ==> call_ensures(
            K::Condvar::default,
            (),
            *r,
        ),
        forall|k: usize|
            k != uaddr ==> (#[trigger] final(process).futexes@.contains_key(k)
                <==> old(process).futexes@.contains_key(k)),
        forall|k: usize|
            k != uaddr && #[trigger] old(process).futexes@.contains_key(k)
                ==> final(process).futexes@[k] == old(process).futexes@[k],
        *final(process) == (Process { futexes: final(process).futexes, ..*old(process) }),
{
}

/// Who asks for the futex of an address twice is given the same one.
pub proof fn law_futex_is_given_again<K: Kernel>(
    first: &mut Process<K>,
    second: &mut Process<K>,
    uaddr: usize,
    a: Arc<K::Condvar>,
    b: Arc<K::Condvar>,
)
    requires
        call_ensures(Process::<K>::get_futex, (first, uaddr), a),
        call_ensures(Process::<K>::get_futex, (second, uaddr), b),
        *old(second) == *final(first),
    ensures
        a == b,
        final(second).futexes@ == old(second).futexes@,
{
}

/// The stages of an exit come one after the other: files, parent, threads, and last the
/// threads are forgotten.
pub proof fn law_stages_follow_each_other(stage: &ExitStage, r: Option<ExitStage>)
    requires
        call_ensures(ExitStage::next, (stage,), r),
    ensures
        *stage is Files ==> r == Some(ExitStage::Parent),
        *stage is Parent ==> r == Some(ExitStage::Threads),
        *stage is Threads ==> r == Some(ExitStage::Forget),
        *stage is Forget ==> r is None,
{
}

/// The open files have the order of their descriptors: `fds` names each descriptor once, from
/// the lowest to the highest, and says which file stands where.
pub proof fn law_files_have_the_order_of_descriptors(
    list: Seq<FileLike>,
    files: Map<usize, FileLike>,
) -> (fds: Seq<usize>)
    requires
        process::is_file_list(list, files),
    ensures
        list.len() == fds.len(),
        forall|i: int, j: int| 0 <= i < j < fds.len() ==> fds[i] < fds[j],
        forall|i: int| 0 <= i < fds.len() ==> files.contains_key(#[trigger] fds[i]),
        forall|fd: usize| #[trigger] files.contains_key(fd) ==> fds.contains(fd),
        forall|i: int| 0 <= i < fds.len() ==> #[trigger] list[i] == files[fds[i]],
{
    let fds = choose|fds: Seq<usize>| #[trigger]
        maps::is_key_list(fds, files) && list == fds.map_values(|fd: usize| files[fd]);
    assert forall|i: int| 0 <= i < fds.len() implies files.contains_key(#[trigger] fds[i]) by {
        assert(fds.contains(fds[i]));
    }
    fds
}

/// At the first stage of its exit a process hands over all its files, in the order of their
/// descriptors, and keeps none; all else of it, and its parent, stay as they are.
pub proof fn law_exit_hands_over_all_files<K: Kernel>(
    process: &mut Process<K>,
    parent: Option<&mut Process<K>>,
    exit_code: usize,
    step: ExitStep<K>,
) -> (fds: Seq<usize>)
    requires
        call_ensures(
            Process::<K>::exit,
            (process, parent, ExitStage::Files, exit_code),
            step,
        ),
    ensures
        step matches ExitStep::Close(list) && list@.len() == fds.len() && forall|i: int|
            0 <= i < fds.len() ==> #[trigger] list@[i] == old(process).files@[fds[i]],
        forall|i: int, j: int| 0 <= i < j < fds.len() ==> fds[i] < fds[j],
        forall|i: int|
            0 <= i < fds.len() ==> old(process).files@.contains_key(#[trigger] fds[i]),
        forall|fd: usize| #[trigger] old(process).files@.contains_key(fd) ==> fds.contains(fd),
        forall|fd: usize| !(#[trigger] final(process).files@.contains_key(fd)),
        *final(process) == (Process { files: final(process).files, ..*old(process) }),
        parent matches Some(p) ==> *final(p) == *p,
{
    if let ExitStep::Close(list) = step {
        law_files_have_the_order_of_descriptors(list@, process.files@)
    } else {
        Seq::empty()
    }
}

/// At the second stage the exit code of a process is left with its parent, under the number of
/// the process. Every code that was left there under another number is still there, unchanged,
/// and all else of the parent, and the process, stay as they are. What is notified is what the
/// parent waits for.
pub proof fn law_exit_leaves_its_code_with_the_parent<K: Kernel>(
    process: &mut Process<K>,
    parent: &mut Process<K>,
    exit_code: usize,
    step: ExitStep<K>,
)
    requires
        call_ensures(
            Process::<K>::exit,
            (process, Some(parent), ExitStage::Parent, exit_code),
            step,
        ),
    ensures
        final(parent).child_exit_code@.contains_key(old(process).pid@),
        final(parent).child_exit_code@[old(process).pid@] == exit_code,
        forall|k: usize|
            k != old(process).pid@ ==> (#[trigger] final(parent).child_exit_code@.contains_key(k)
                <==> old(parent).child_exit_code@.contains_key(k)),
        forall|k: usize|
            k != old(process).pid@ && #[trigger] old(parent).child_exit_code@.contains_key(k)
                ==> final(parent).child_exit_code@[k] == old(parent).child_exit_code@[k],
        *final(parent) == (Process {
            child_exit_code: final(parent).child_exit_code,
            ..*old(parent)
        }),
        *final(process) == *old(process),
        step matches ExitStep::Notify(Some(condvar)) && condvar == old(parent).child_exit,
{
}

/// A process without a living parent leaves its code with nobody and notifies nobody.
pub proof fn law_exit_without_parent_notifies_nobody<K: Kernel>(
    process: &mut Process<K>,
    exit_code: usize,
    step: ExitStep<K>,
)
    requires
        call_ensures(Process::<K>::exit, (process, None, ExitStage::Parent, exit_code), step),
    ensures
        step matches ExitStep::Notify(None),
        *final(process) == *old(process),
{
}

/// At the third stage every thread of the process is to exit, with code 1, in the order in
/// which they joined; process and parent stay as they are.
pub proof fn law_exit_ends_all_threads<K: Kernel>(
    process: &mut Process<K>,
    parent: Option<&mut Process<K>>,
    exit_code: usize,
    step: ExitStep<K>,
)
    requires
        call_ensures(
            Process::<K>::exit,
            (process, parent, ExitStage::Threads, exit_code),
            step,
        ),
    ensures
        step matches ExitStep::ExitThreads(tids, code) && tids@ == old(process).threads@ && code
            == 1,
        *final(process) == *old(process),
        parent matches Some(p) ==> *final(p) == *p,
{
}

/// At the last stage the threads are forgotten, and with that the process counts as exited;
/// all else of it, and its parent, stay as they are.
pub proof fn law_exit_forgets_the_threads<K: Kernel>(
    process: &mut Process<K>,
    parent: Option<&mut Process<K>>,
    exit_code: usize,
    step: ExitStep<K>,
)
    requires
        call_ensures(
            Process::<K>::exit,
            (process, parent, ExitStage::Forget, exit_code),
            step,
        ),
    ensures
        step is Done,
        final(process).threads@.len() == 0,
        *final(process) == (Process { threads: final(process).threads, ..*old(process) }),
        parent matches Some(p) ==> *final(p) == *p,
{
}

/// Two children of one parent that both leave their exit codes leave both: the code of the
/// first is still there after the second came. In between the parent may have been left more
/// codes, as long as that of the first was not fetched.
pub proof fn law_both_children_leave_their_codes<K: Kernel>(
    a: &mut Process<K>,
    b: &mut Process<K>,
    parent: &mut Process<K>,
    later: &mut Process<K>,
    code_a: usize,
    code_b: usize,
    step_a: ExitStep<K>,
    step_b: ExitStep<K>,
)
    requires
        call_ensures(Process::<K>::exit, (a, Some(parent), ExitStage::Parent, code_a), step_a),
        call_ensures(Process::<K>::exit, (b, Some(later), ExitStage::Parent, code_b), step_b),
        old(a).pid@ != old(b).pid@,
        final(parent).child_exit_code@ <= old(later).child_exit_code@,
    ensures
        final(later).child_exit_code@.contains_key(old(a).pid@),
        final(later).child_exit_code@.contains_key(old(b).pid@),
        final(later).child_exit_code@[old(a).pid@] == code_a,
        final(later).child_exit_code@[old(b).pid@] == code_b,
{
    assert(final(parent).child_exit_code@.contains_key(old(a).pid@));
}

/// A process counts as exited exactly where it has no thread.
pub proof fn law_exited_means_no_thread<K: Kernel>(process: &Process<K>, r: bool)
    requires
        call_ensures(Process::<K>::exited, (process,), r),
    ensures
        r <==> process.threads@.len() == 0,
{
}

/// A thread belongs to a process exactly where the process lists it.
pub proof fn law_listed_threads_belong<K: Kernel>(process: &Process<K>, tid: usize, r: bool)
    requires
        call_ensures(Process::<K>::has_thread, (process, tid), r),
    ensures
        r <==> exists|i: int|
            0 <= i < process.threads@.len() && #[trigger] process.threads@[i] == tid,
{
    if r {
        let i = process.threads@.index_of(tid);
        assert(process.threads@[i] == tid);
    }
}

/// A descriptor can be sought wherever one is free, and every other call on a process can
/// always be made.
pub proof fn law_process_can_be_called<K: Kernel>(
    process: &mut Process<K>,
    seen: &Process<K>,
    parent: Option<&mut Process<K>>,
    arg: usize,
    file: FileLike,
    stage: ExitStage,
)
    requires
        exists|k: usize| arg <= k && !(#[trigger] seen.files@.contains_key(k)),
    ensures
        call_requires(Process::<K>::get_free_fd_from, (seen, arg)),
        call_requires(Process::<K>::add_file, (process, file)),
        call_requires(Process::<K>::get_futex, (process, arg)),
        call_requires(Process::<K>::exit, (process, parent, stage, arg)),
{
}

} // verus!
