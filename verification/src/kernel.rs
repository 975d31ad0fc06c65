//! What the process structures take from the kernel around them.
use vstd::prelude::*;

verus! {

/// The types of a kernel that processes and threads carry without looking inside.
pub trait Kernel {
    /// Something that threads wait for.
    type Condvar: Default;

    /// The semaphores that a process has open.
    type SemProc: Default + Clone;

    /// What is to be done when a signal arrives.
    type SignalAction: Default + Copy;

    /// The stack that signal handlers run on.
    type SignalStack: Default;

    /// The registers of a thread that has entered the kernel.
    type TrapFrame: Copy;
}

} // verus!
