use kernel_process::kernel::Kernel;
use kernel_process::process::{ExitStage, ExitStep};
use kernel_process::table::{process, process_group, process_of, ProcessTable};
use kernel_process::thread::Thread;
use std::sync::{Arc, Condvar};

struct TableKernel;

impl Kernel for TableKernel {
    type Condvar = Condvar;
    type SemProc = u8;
    type SignalAction = u8;
    type SignalStack = u8;
    type TrapFrame = u8;
}

fn table_of(n: usize) -> (ProcessTable<TableKernel>, Vec<Box<Thread<TableKernel>>>) {
    let mut table = ProcessTable::new();
    let mut threads = Vec::new();
    for vm in 0..n {
        assert!(table.can_add());
        threads.push(Thread::new_kernel(&mut table, 0, 0, vm, 0));
    }
    (table, threads)
}

fn set_group(table: &mut ProcessTable<TableKernel>, pid: usize, pgid: i32) {
    let mut p = table.release(pid).unwrap();
    p.pgid = pgid;
    assert!(table.contains(pid));
    table.restore(p);
}

#[test]
fn empty_table_has_no_process() {
    let table = ProcessTable::<TableKernel>::new();
    assert!(process(&table, 0).is_none());
    assert!(process(&table, 1).is_none());
    assert!(process_of(&table, 1).is_none());
    assert!(process_group(&table, -1).is_empty());
    assert!(!table.contains(1));
    assert!(table.can_add());
}

#[test]
fn processes_are_found_by_number() {
    let (table, _) = table_of(3);
    assert_eq!(process(&table, 2).unwrap().pid.get(), 2);
    assert_eq!(process(&table, 2).unwrap().vm, 1);
    assert!(process(&table, 0).is_none());
    assert!(process(&table, 4).is_none());
}

#[test]
fn number_of_a_released_process_stays_taken() {
    let (mut table, _) = table_of(3);
    assert_eq!(table.release(2).unwrap().pid.get(), 2);
    assert!(process(&table, 2).is_none());
    assert!(table.contains(2));
    assert!(table.release(2).is_none());
    assert!(table.release(9).is_none());
    assert!(!table.contains(9));
    let thread = Thread::new_kernel(&mut table, 0, 0, 0, 0);
    assert_eq!(thread.proc.get(), 4);
}

#[test]
fn released_process_can_be_put_back() {
    let (mut table, _) = table_of(2);
    let mut p = table.release(1).unwrap();
    p.cwd = "/tmp".to_string();
    table.restore(p);
    assert_eq!(process(&table, 1).unwrap().cwd, "/tmp");
    assert_eq!(process(&table, 2).unwrap().cwd, "/");
}

#[test]
fn process_of_a_thread_is_found() {
    let (mut table, threads) = table_of(3);
    threads[0].set_tid(&mut table, 10);
    threads[2].set_tid(&mut table, 30);
    threads[2].set_tid(&mut table, 31);
    assert_eq!(process_of(&table, 10).unwrap().pid.get(), 1);
    assert_eq!(process_of(&table, 30).unwrap().pid.get(), 3);
    assert_eq!(process_of(&table, 31).unwrap().pid.get(), 3);
    assert!(process_of(&table, 20).is_none());
    assert_eq!(process(&table, 3).unwrap().threads, vec![30, 31]);
    table.release(3);
    assert!(process_of(&table, 30).is_none());
}

#[test]
fn lowest_process_with_a_thread_counts() {
    let (mut table, threads) = table_of(3);
    threads[2].set_tid(&mut table, 7);
    threads[1].set_tid(&mut table, 7);
    assert_eq!(process_of(&table, 7).unwrap().pid.get(), 2);
}

#[test]
fn group_is_listed_in_order() {
    let (mut table, _) = table_of(5);
    for pid in [5, 2, 4] {
        set_group(&mut table, pid, 8);
    }
    table.release(4);
    let pids: Vec<usize> = process_group(&table, 8).iter().map(|p| p.pid.get()).collect();
    assert_eq!(pids, vec![2, 5]);
    let pids: Vec<usize> = process_group(&table, -1).iter().map(|p| p.pid.get()).collect();
    assert_eq!(pids, vec![1, 3]);
    assert!(process_group(&table, 0).is_empty());
}

/// Goes through all stages and gives what the kernel is left to do at each.
fn exit_steps(table: &mut ProcessTable<TableKernel>, pid: usize, code: usize) -> Vec<ExitStep<TableKernel>> {
    let mut steps = Vec::new();
    let mut stage = Some(ExitStage::Files);
    while let Some(now) = stage {
        assert_ne!(process(table, pid).unwrap().parent.get(), pid);
        steps.push(table.exit(pid, now, code));
        stage = now.next();
    }
    steps
}

#[test]
fn exit_in_the_table_reaches_the_parent() {
    let (mut table, threads) = table_of(1);
    let child = threads[0].fork(&mut table, &0, 5, 0);
    child.set_tid(&mut table, 77);
    let steps = exit_steps(&mut table, child.proc.get(), 9);
    let parent = process(&table, 1).unwrap();
    assert_eq!(parent.child_exit_code[&2], 9);
    match &steps[1] {
        ExitStep::Notify(Some(condvar)) => assert!(Arc::ptr_eq(condvar, &parent.child_exit)),
        _ => panic!("nobody woken"),
    }
    match &steps[2] {
        ExitStep::ExitThreads(tids, code) => assert_eq!((tids.clone(), *code), (vec![77], 1)),
        _ => panic!("no thread ended"),
    }
    assert!(matches!(steps[3], ExitStep::Done));
    assert!(process(&table, 2).unwrap().exited());
}

#[test]
fn exit_code_is_there_before_the_process_counts_as_exited() {
    let (mut table, threads) = table_of(1);
    let child = threads[0].fork(&mut table, &0, 5, 0);
    child.set_tid(&mut table, 77);
    table.exit(2, ExitStage::Files, 9);
    assert!(process(&table, 1).unwrap().child_exit_code.is_empty());
    table.exit(2, ExitStage::Parent, 9);
    assert_eq!(process(&table, 1).unwrap().child_exit_code[&2], 9);
    assert!(!process(&table, 2).unwrap().exited());
    table.exit(2, ExitStage::Threads, 9);
    assert!(!process(&table, 2).unwrap().exited());
    table.exit(2, ExitStage::Forget, 9);
    assert!(process(&table, 2).unwrap().exited());
}

#[test]
fn exit_after_the_parent_is_gone_wakes_nobody() {
    let (mut table, threads) = table_of(1);
    let child = threads[0].fork(&mut table, &0, 5, 0);
    child.set_tid(&mut table, 77);
    table.release(1);
    let steps = exit_steps(&mut table, child.proc.get(), 9);
    assert!(matches!(steps[1], ExitStep::Notify(None)));
    assert!(process(&table, 1).is_none());
    assert!(table.contains(1));
}

#[test]
fn exit_of_a_process_without_parent() {
    let (mut table, threads) = table_of(2);
    threads[0].set_tid(&mut table, 1);
    assert!(matches!(exit_steps(&mut table, 1, 0)[1], ExitStep::Notify(None)));
    assert!(process(&table, 1).unwrap().exited());
    assert!(process(&table, 2).unwrap().child_exit_code.is_empty());
}
