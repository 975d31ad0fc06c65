use kernel_process::kernel::Kernel;
use kernel_process::pid::Pid;
use kernel_process::table::ProcessTable;
use kernel_process::thread::Thread;

struct PidKernel;

impl Kernel for PidKernel {
    type Condvar = u8;
    type SemProc = u8;
    type SignalAction = u8;
    type SignalStack = u8;
    type TrapFrame = u8;
}

/// The numbers of so many processes, made one after the other.
fn first_pids(n: usize) -> Vec<Pid> {
    let mut table = ProcessTable::<PidKernel>::new();
    (0..n).map(|_| Thread::new_kernel(&mut table, 0, 0, 0, 0).proc).collect()
}

#[test]
fn pid_gives_its_number() {
    let pids = first_pids(3);
    assert_eq!(Pid::INIT, 1);
    assert_eq!((pids[0].get(), pids[1].get(), pids[2].get()), (1, 2, 3));
}

#[test]
fn init_is_the_first_pid() {
    let pids = first_pids(2);
    assert!(pids[0].is_init());
    assert!(!pids[1].is_init());
    assert!(!Thread::<PidKernel>::new_init().proc.is_init());
}

#[test]
fn pid_is_shown_in_decimal() {
    let pids = first_pids(110);
    for pid in &pids {
        assert_eq!(pid.to_string(), format!("{}", pid.get()));
    }
    assert_eq!(pids[6].to_string(), "7");
    assert_eq!(pids[9].to_string(), "10");
    assert_eq!(pids[108].to_string(), "109");
    assert_eq!(Thread::<PidKernel>::new_init().proc.to_string(), "0");
}

#[test]
fn pids_are_compared_by_number() {
    let pids = first_pids(2);
    assert!(pids[0] < pids[1] && !(pids[1] < pids[0]) && !(pids[0] < pids[0]));
    assert!(pids[0] <= pids[0] && pids[1] > pids[0]);
    assert_eq!(pids[0].max(pids[1]), pids[1]);
    assert_eq!(pids[1].partial_cmp(&pids[0]), Some(pids[1].cmp(&pids[0])));
    assert_eq!(pids[0], first_pids(1)[0]);
    assert_ne!(pids[0], pids[1]);
}
