use kernel_process::signal::{Kill, Siginfo, Sigset, RTMAX, SIGNAL_COUNT};

#[test]
fn new_siginfo_has_its_numbers() {
    let info = Siginfo::new(9, -3, 17);
    assert_eq!(info.deref().signo, 9);
    assert_eq!(info.deref().errno, -3);
    assert_eq!(info.deref().code, 17);
}

#[test]
fn sender_is_unknown_at_first() {
    let mut info = Siginfo::new(9, 0, 0);
    assert_eq!(*info.deref_mut().deref_mut().kill_mut(), Kill { pid: 0, uid: 0 });
}

#[test]
fn sender_is_read_back() {
    let mut info = Siginfo::new(15, 1, 2);
    *info.deref_mut().deref_mut().kill_mut() = Kill { pid: 42, uid: 1000 };
    let kill = info.deref_mut().deref_mut().kill_mut();
    assert_eq!((kill.pid, kill.uid), (42, 1000));
    kill.pid = 43;
    assert_eq!(*info.deref_mut().deref_mut().kill_mut(), Kill { pid: 43, uid: 1000 });
    let inner = info.deref();
    assert_eq!((inner.signo, inner.errno, inner.code), (15, 1, 2));
}

#[test]
fn numbers_can_be_set() {
    let mut info = Siginfo::new(1, 2, 3);
    info.deref_mut().deref_mut().kill_mut().uid = 5;
    info.deref_mut().code = 30;
    assert_eq!(info.deref().signo, 1);
    assert_eq!(info.deref().code, 30);
    assert_eq!(info.deref_mut().deref_mut().kill_mut().uid, 5);
}

#[test]
fn copies_are_independent() {
    let a = Siginfo::new(1, 2, 3);
    let mut b = a;
    b.deref_mut().signo = 7;
    b.deref_mut().deref_mut().kill_mut().pid = 8;
    assert_eq!(a, Siginfo::new(1, 2, 3));
    assert_ne!(a, b);
    assert_ne!(a.deref().deref(), b.deref().deref());
}

#[test]
fn empty_sigset_has_no_signal() {
    assert_eq!(Sigset::empty(), Sigset(0));
    assert_eq!(Sigset::default(), Sigset::empty());
    assert_eq!((RTMAX, SIGNAL_COUNT), (64, 65));
}
