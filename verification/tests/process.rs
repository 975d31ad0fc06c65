use kernel_process::fs::{FileHandle, FileLike, INodeRef, OpenOptions};
use kernel_process::kernel::Kernel;
use kernel_process::process::{ExitStage, ExitStep, Process, THREAD_EXIT_CODE};
use kernel_process::table::ProcessTable;
use kernel_process::thread::Thread;
use std::sync::{Arc, Condvar};

struct ProcessKernel;

impl Kernel for ProcessKernel {
    type Condvar = Condvar;
    type SemProc = u8;
    type SignalAction = u8;
    type SignalStack = u8;
    type TrapFrame = u8;
}

fn bare_process() -> Process<ProcessKernel> {
    let mut table = ProcessTable::new();
    let thread = Thread::new_kernel(&mut table, 0, 0, 0, 0);
    table.release(thread.proc.get()).unwrap()
}

fn other(number: usize) -> FileLike {
    FileLike::Other(number)
}

fn number_of(file: &FileLike) -> usize {
    match file {
        FileLike::Other(number) => *number,
        FileLike::File(_) => panic!("an inode"),
    }
}

#[test]
fn files_get_the_lowest_free_descriptors() {
    let mut process = bare_process();
    assert_eq!(process.add_file(other(10)), 0);
    assert_eq!(process.add_file(other(11)), 1);
    assert_eq!(process.add_file(other(12)), 2);
    process.files.remove(&1);
    assert_eq!(process.add_file(other(13)), 1);
    assert_eq!(process.add_file(other(14)), 3);
    let open: Vec<(usize, usize)> =
        process.files.iter().map(|(fd, file)| (*fd, number_of(file))).collect();
    assert_eq!(open, vec![(0, 10), (1, 13), (2, 12), (3, 14)]);
}

#[test]
fn free_descriptor_is_sought_from_a_start() {
    let mut process = bare_process();
    assert_eq!(process.get_free_fd_from(0), 0);
    assert_eq!(process.get_free_fd_from(7), 7);
    for fd in [0, 1, 3, 4, 5] {
        process.files.insert(fd, other(fd));
    }
    assert_eq!(process.get_free_fd_from(0), 2);
    assert_eq!(process.get_free_fd_from(2), 2);
    assert_eq!(process.get_free_fd_from(3), 6);
    assert_eq!(process.get_free_fd_from(1000), 1000);
    assert_eq!(process.get_free_fd_from(usize::MAX), usize::MAX);
}

#[test]
fn descriptors_can_run_out_above_a_start() {
    let mut process = bare_process();
    assert!(process.has_free_fd_from(usize::MAX));
    process.files.insert(usize::MAX, other(1));
    assert!(!process.has_free_fd_from(usize::MAX));
    assert!(process.has_free_fd_from(usize::MAX - 1));
    assert!(process.has_free_fd_from(0));
}

#[test]
fn futex_is_made_once() {
    let mut process = bare_process();
    let a = process.get_futex(0x1000);
    let b = process.get_futex(0x2000);
    let again = process.get_futex(0x1000);
    assert!(Arc::ptr_eq(&a, &again));
    assert!(!Arc::ptr_eq(&a, &b));
    assert_eq!(process.futexes.len(), 2);
    assert!(Arc::ptr_eq(&process.futexes[&0x2000], &b));
}

#[test]
fn futexes_are_those_asked_for() {
    let mut process = bare_process();
    let asked = [3usize, 1, 3, 2, 1, 3];
    let given: Vec<Arc<Condvar>> = asked.iter().map(|a| process.get_futex(*a)).collect();
    for i in 0..asked.len() {
        for j in 0..asked.len() {
            assert_eq!(Arc::ptr_eq(&given[i], &given[j]), asked[i] == asked[j]);
        }
    }
    assert_eq!(process.futexes.keys().copied().collect::<Vec<usize>>(), vec![1, 2, 3]);
}

#[test]
fn threads_of_a_process_are_known() {
    let mut process = bare_process();
    assert!(!process.has_thread(4));
    process.threads = vec![3, 4];
    assert!(process.has_thread(3));
    assert!(process.has_thread(4));
    assert!(!process.has_thread(5));
}

fn closed(step: ExitStep<ProcessKernel>) -> Vec<usize> {
    match step {
        ExitStep::Close(files) => files.iter().map(number_of).collect(),
        _ => panic!("no files"),
    }
}

fn woken(step: ExitStep<ProcessKernel>) -> Option<Arc<Condvar>> {
    match step {
        ExitStep::Notify(condvar) => condvar,
        _ => panic!("no parent"),
    }
}

fn ended(step: ExitStep<ProcessKernel>) -> (Vec<usize>, usize) {
    match step {
        ExitStep::ExitThreads(tids, code) => (tids, code),
        _ => panic!("no threads"),
    }
}

#[test]
fn exit_goes_through_its_stages() {
    assert_eq!(ExitStage::Files.next(), Some(ExitStage::Parent));
    assert_eq!(ExitStage::Parent.next(), Some(ExitStage::Threads));
    assert_eq!(ExitStage::Threads.next(), Some(ExitStage::Forget));
    assert_eq!(ExitStage::Forget.next(), None);
}

#[test]
fn exit_closes_then_wakes_then_ends_threads() {
    let mut process = bare_process();
    let mut parent = bare_process();
    process.files.insert(5, other(50));
    process.files.insert(0, other(60));
    process.files.insert(9, other(70));
    process.threads = vec![12, 11];
    assert!(!process.exited());

    let step = process.exit(Some(&mut parent), ExitStage::Files, 3);
    assert_eq!(closed(step), vec![60, 50, 70]);
    assert!(process.files.is_empty());
    assert!(parent.child_exit_code.is_empty());

    let step = process.exit(Some(&mut parent), ExitStage::Parent, 3);
    assert!(Arc::ptr_eq(&woken(step).unwrap(), &parent.child_exit));
    assert_eq!(parent.child_exit_code.len(), 1);
    assert_eq!(parent.child_exit_code[&process.pid.get()], 3);
    assert!(!process.exited());

    let step = process.exit(Some(&mut parent), ExitStage::Threads, 3);
    assert_eq!(ended(step), (vec![12, 11], 1));
    assert_eq!(THREAD_EXIT_CODE, 1);
    assert!(!process.exited());

    let step = process.exit(Some(&mut parent), ExitStage::Forget, 3);
    assert!(matches!(step, ExitStep::Done));
    assert!(process.exited());
    assert_eq!(parent.child_exit_code.len(), 1);
}

#[test]
fn exit_without_parent_wakes_nobody() {
    let mut process = bare_process();
    process.files.insert(1, other(1));
    process.threads = vec![2];
    assert_eq!(closed(process.exit(None, ExitStage::Files, 0)), vec![1]);
    assert!(woken(process.exit(None, ExitStage::Parent, 0)).is_none());
    assert_eq!(ended(process.exit(None, ExitStage::Threads, 0)), (vec![2], 1));
    process.exit(None, ExitStage::Forget, 0);
    assert!(process.exited());
}

fn exit_fully(process: &mut Process<ProcessKernel>, parent: &mut Process<ProcessKernel>, code: usize) {
    let mut stage = Some(ExitStage::Files);
    while let Some(now) = stage {
        process.exit(Some(parent), now, code);
        stage = now.next();
    }
}

#[test]
fn exit_keeps_all_else() {
    let mut process = bare_process();
    let mut parent = bare_process();
    process.get_futex(8);
    process.child_exit_code.insert(4, 5);
    process.pgid = 6;
    exit_fully(&mut process, &mut parent, 0);
    assert_eq!(process.futexes.len(), 1);
    assert_eq!(process.child_exit_code[&4], 5);
    assert_eq!((process.pgid, process.pid.get()), (6, 1));
    assert_eq!(process.cwd, "/");
}

#[test]
fn second_exit_only_notifies() {
    let mut process = bare_process();
    let mut parent = bare_process();
    process.files.insert(1, other(1));
    process.threads = vec![2];
    exit_fully(&mut process, &mut parent, 1);
    assert!(closed(process.exit(Some(&mut parent), ExitStage::Files, 2)).is_empty());
    assert!(woken(process.exit(Some(&mut parent), ExitStage::Parent, 2)).is_some());
    assert_eq!(ended(process.exit(Some(&mut parent), ExitStage::Threads, 2)), (vec![], 1));
    assert_eq!(parent.child_exit_code[&1], 2);
}

#[test]
fn file_handle_keeps_what_it_was_made_of() {
    let options = OpenOptions { read: true, write: true, append: false, nonblock: true };
    let handle = FileHandle::new(77, INodeRef::Node(5), options, "/a".to_string(), true, false);
    let copy = handle.clone();
    for h in [&handle, &copy] {
        assert_eq!((h.description, h.inode), (77, INodeRef::Node(5)));
        assert_eq!(h.options, options);
        assert_eq!(h.path, "/a");
        assert!(h.pipe && !h.fd_cloexec);
    }
    match FileLike::File(handle).clone() {
        FileLike::File(h) => assert_eq!(h.path, "/a"),
        _ => panic!("no inode"),
    }
    assert_eq!(number_of(&other(3).clone()), 3);
}
