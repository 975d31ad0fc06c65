//! A process: what its threads share.
use crate::fs::FileLike;
use crate::kernel::Kernel;
use crate::maps;
use crate::pid::Pid;
use crate::signal::{Siginfo, Sigset, SIGNAL_COUNT};
use std::collections::{BTreeMap, VecDeque};
use std::sync::Arc;
use vstd::prelude::*;

verus! {

/// What the threads of a process share.
pub struct Process<K: Kernel> {
    // resources
    /// The token of the address space.
    pub vm: usize,
    pub files: BTreeMap<usize, FileLike>,
    pub cwd: String,
    pub exec_path: String,
    pub futexes: BTreeMap<usize, Arc<K::Condvar>>,
    pub semaphores: K::SemProc,
    // relationship
    /// i.e. tgid, usually the tid of first thread
    pub pid: Pid,
    pub pgid: i32,
    /// The number of the parent, and 0 where there never was one.
    pub parent: Pid,
    pub children: Vec<Pid>,
    /// threads in the same process
    pub threads: Vec<usize>,
    // for waiting child
    /// notified when a child process is going to terminate
    pub child_exit: Arc<K::Condvar>,
    /// child processes store their exit codes here, by their numbers
    pub child_exit_code: BTreeMap<usize, usize>,
    /// delivered signals, each with the thread that it is for; -1 stands for any thread
    pub sig_queue: VecDeque<(Siginfo, isize)>,
    pub pending_sigset: Sigset,
    /// What to do on each signal, by its number.
    pub dispositions: [K::SignalAction; SIGNAL_COUNT],
    pub sigaltstack: K::SignalStack,
}

/// What a process that exits does next. Between two stages the kernel does its part.
#[derive(Clone, Copy, Debug, PartialEq, Eq, Structural)]
pub enum ExitStage {
    /// Let go of the files.
    Files,
    /// Leave the exit code with the parent.
    Parent,
    /// Name the threads that are to exit.
    Threads,
    /// Forget the threads.
    Forget,
}

/// What the kernel has to do before the next stage.
pub enum ExitStep<K: Kernel> {
    /// Close these files, one after the other.
    Close(Vec<FileLike>),
    /// Wake one thread that waits here, if there is anything to wait for.
    Notify(Option<Arc<K::Condvar>>),
    /// Make these threads exit, with this code.
    ExitThreads(Vec<usize>, usize),
    /// Nothing: the process has exited.
    Done,
}

/// The code that the threads of an exiting process exit with.
pub const THREAD_EXIT_CODE: usize = 1;

/// The open files, in the order of their descriptors.
pub open spec fn is_file_list(list: Seq<FileLike>, files: Map<usize, FileLike>) -> bool {
    exists|fds: Seq<usize>| #[trigger]
        maps::is_key_list(fds, files) && list == fds.map_values(|fd: usize| files[fd])
}

/// What the kernel is given to do at a stage of the exit of `process`, whose parent, if it is
/// alive, waits for `waker`.
pub open spec fn is_exit_step<K: Kernel>(
    process: Process<K>,
    waker: Option<Arc<K::Condvar>>,
    stage: ExitStage,
    step: ExitStep<K>,
) -> bool {
    match stage {
        ExitStage::Files => step matches ExitStep::Close(files) && is_file_list(
            files@,
            process.files@,
        ),
        ExitStage::Parent => step == ExitStep::<K>::Notify(waker),
        ExitStage::Threads => step matches ExitStep::ExitThreads(tids, code) && tids@
            == process.threads@ && code == THREAD_EXIT_CODE,
        ExitStage::Forget => step is Done,
    }
}

impl ExitStage {
    /// The stage that follows: files, parent, threads, and then the threads are forgotten.
    pub open spec fn follower(self) -> Option<ExitStage> {
        match self {
            ExitStage::Files => Some(ExitStage::Parent),
            ExitStage::Parent => Some(ExitStage::Threads),
            ExitStage::Threads => Some(ExitStage::Forget),
            ExitStage::Forget => None,
        }
    }

    /// The stage that follows.
    pub fn next(&self) -> (r: Option<ExitStage>)
        ensures
            r == self.follower(),
    {
        match self {
            ExitStage::Files => Some(ExitStage::Parent),
            ExitStage::Parent => Some(ExitStage::Threads),
            ExitStage::Threads => Some(ExitStage::Forget),
            ExitStage::Forget => None,
        }
    }
}

/// The actions that a process that nothing was ever set for has: the same default for every
/// signal.
pub open spec fn is_default_actions<K: Kernel>(actions: Seq<K::SignalAction>) -> bool {
    exists|action: K::SignalAction|
        #[trigger] call_ensures(K::SignalAction::default, (), action) && actions == Seq::new(
            SIGNAL_COUNT as nat,
            |i: int| action,
        )
}

/// The open files have one order, and none is left out of it.
pub proof fn law_file_list_is_complete(
    files: Map<usize, FileLike>,
    list: Seq<FileLike>,
    other: Seq<FileLike>,
)
    requires
        is_file_list(list, files),
        is_file_list(other, files),
    ensures
        list == other,
        forall|fd: usize| #[trigger] files.contains_key(fd) ==> list.contains(files[fd]),
{
    let fds = choose|fds: Seq<usize>| #[trigger]
        maps::is_key_list(fds, files) && list == fds.map_values(|fd: usize| files[fd]);
    let other_fds = choose|fds: Seq<usize>| #[trigger]
        maps::is_key_list(fds, files) && other == fds.map_values(|fd: usize| files[fd]);
    maps::law_key_list_is_unique(files, fds, other_fds);
    assert forall|fd: usize| #[trigger] files.contains_key(fd) implies list.contains(
        files[fd],
    ) by {
        assert(fds.contains(fd));
        assert(list[fds.index_of(fd)] == files[fd]);
    }
}

/// A process that has exited and exits again has no file to close and no thread to end.
pub proof fn law_second_exit_only_notifies<K: Kernel>(
    process: Process<K>,
    waker: Option<Arc<K::Condvar>>,
    stage: ExitStage,
    step: ExitStep<K>,
)
    requires
        process.has_exited(),
        process.files@ == Map::<usize, FileLike>::empty(),
        is_exit_step(process, waker, stage, step),
    ensures
        step matches ExitStep::Close(files) ==> files@.len() == 0,
        step matches ExitStep::ExitThreads(tids, _) ==> tids@.len() == 0,
{
    if let ExitStep::Close(files) = step {
        let fds = choose|fds: Seq<usize>| #[trigger]
            maps::is_key_list(fds, process.files@) && files@ == fds.map_values(
                |fd: usize| process.files@[fd],
            );
        if fds.len() > 0 {
            assert(fds.contains(fds[0]));
            assert(process.files@.contains_key(fds[0]));
        }
    }
}

/// Of two files that are added one after the other, the second gets the higher descriptor,
/// and both are then open under their descriptors, as is every file from before.
pub proof fn law_added_files_stay_apart(
    files: Map<usize, FileLike>,
    a: FileLike,
    fd_a: usize,
    b: FileLike,
    fd_b: usize,
)
    requires
        maps::is_lowest_free(files, 0, fd_a),
        maps::is_lowest_free(files.insert(fd_a, a), 0, fd_b),
    ensures
        fd_a < fd_b,
        files.insert(fd_a, a).insert(fd_b, b)[fd_a] == a,
        files.insert(fd_a, a).insert(fd_b, b)[fd_b] == b,
        files <= files.insert(fd_a, a).insert(fd_b, b),
{
    if fd_b < fd_a {
        assert(files.contains_key(fd_b));
    }
    assert(!files.insert(fd_a, a).contains_key(fd_b));
}

/// What one more element adds to a prefix.
proof fn lemma_take_one_more(keys: Seq<usize>, i: int)
    requires
        0 <= i < keys.len(),
    ensures
        forall|k: usize| #[trigger]
            keys.take(i + 1).contains(k) <==> keys.take(i).contains(k) || k == keys[i],
        forall|j: int| 0 <= j < i && keys[j] == keys[i] ==> #[trigger] keys.take(i).contains(
            keys[j],
        ),
{
    assert forall|k: usize| #[trigger] keys.take(i + 1).contains(k) implies keys.take(i).contains(k)
        || k == keys[i] by {
        let j = keys.take(i + 1).index_of(k);
        if j < i {
            assert(keys.take(i)[j] == k);
        }
    }
    assert forall|k: usize| keys.take(i).contains(k) || k == keys[i] implies #[trigger] keys.take(
        i + 1,
    ).contains(k) by {
        if keys.take(i).contains(k) {
            let j = keys.take(i).index_of(k);
            assert(keys.take(i + 1)[j] == k);
        } else {
            assert(keys.take(i + 1)[i] == k);
        }
    }
    assert forall|j: int| 0 <= j < i && keys[j] == keys[i] implies #[trigger] keys.take(
        i,
    ).contains(keys[j]) by {
        assert(keys.take(i)[j] == keys[j]);
    }
}

/// The default actions of a process.
pub(crate) fn default_actions<K: Kernel>() -> (r: [K::SignalAction; SIGNAL_COUNT])
    ensures
        is_default_actions::<K>(r@),
{
    let action = K::SignalAction::default();
    let actions = [action; SIGNAL_COUNT];
    assert(actions@ =~= Seq::new(SIGNAL_COUNT as nat, |i: int| action));
    actions
}

impl<K: Kernel> Process<K> {
    /// The same process with another number.
    pub open spec fn with_pid(self, pid: Pid) -> Process<K> {
        Process { pid, ..self }
    }

    /// No thread of the process is left.
    pub open spec fn has_exited(&self) -> bool {
        self.threads@.len() == 0
    }

    /// This process is `before` after it was asked for the futex at `uaddr` and gave `r`. The
    /// first request for an address makes a condition variable.
    pub open spec fn has_given_futex(&self, before: &Self, uaddr: usize, r: Arc<K::Condvar>) -> bool {
        &&& if before.futexes@.contains_key(uaddr) {
            &&& r == before.futexes@[uaddr]
            &&& self.futexes@ == before.futexes@
        } else {
            &&& call_ensures(K::Condvar::default, (), *r)
            &&& self.futexes@ == before.futexes@.insert(uaddr, r)
        }
        &&& *self == (Process { futexes: self.futexes, ..*before })
    }

    /// The request `i` of a history led from one state of it to the next.
    pub open spec fn is_request(
        states: Seq<Self>,
        uaddrs: Seq<usize>,
        given: Seq<Arc<K::Condvar>>,
        i: int,
    ) -> bool {
        states[i + 1].has_given_futex(&states[i], uaddrs[i], given[i])
    }

    /// However often and in whatever order futexes are asked for: requests for one address are
    /// given the same condition variable, there is a futex for every address that was asked
    /// for and for no other but those from before, these stay as they were, and so does all
    /// else.
    pub proof fn law_futexes_are_kept(
        states: Seq<Self>,
        uaddrs: Seq<usize>,
        given: Seq<Arc<K::Condvar>>,
    )
        requires
            states.len() == uaddrs.len() + 1,
            given.len() == uaddrs.len(),
            forall|i: int| 0 <= i < uaddrs.len() ==> #[trigger] Self::is_request(
                states,
                uaddrs,
                given,
                i,
            ),
        ensures
            forall|i: int, j: int|
                0 <= i < uaddrs.len() && 0 <= j < uaddrs.len() && uaddrs[i] == uaddrs[j]
                    ==> given[i] == given[j],
            forall|i: int|
                0 <= i < uaddrs.len() ==> states.last().futexes@[#[trigger] uaddrs[i]] == given[i],
            states.last().futexes@.dom() == states[0].futexes@.dom().union(uaddrs.to_set()),
            states[0].futexes@ <= states.last().futexes@,
            states.last() == (Process { futexes: states.last().futexes, ..states[0] }),
        decreases uaddrs.len(),
    {
        if uaddrs.len() == 0 {
            assert(uaddrs.to_set() =~= Set::<usize>::empty());
            assert(states.last().futexes@.dom() =~= states[0].futexes@.dom().union(
                uaddrs.to_set(),
            ));
        } else {
            let n = uaddrs.len() - 1;
            let (s, u, g) = (states.drop_last(), uaddrs.drop_last(), given.drop_last());
            assert forall|i: int| 0 <= i < u.len() implies #[trigger] Self::is_request(
                s,
                u,
                g,
                i,
            ) by {
                assert(Self::is_request(states, uaddrs, given, i));
            }
            Self::law_futexes_are_kept(s, u, g);
            assert(Self::is_request(states, uaddrs, given, n));
            assert(s.last() == states[n]);
            assert forall|i: int| 0 <= i < uaddrs.len() implies states.last().futexes@[
                #[trigger] uaddrs[i]] == given[i] by {
                if i < n {
                    assert(u[i] == uaddrs[i]);
                    assert(u.to_set().contains(u[i]));
                }
            }
            assert(uaddrs.to_set() =~= u.to_set().insert(uaddrs[n])) by {
                assert forall|a: usize| uaddrs.to_set().contains(a) implies u.to_set().insert(
                    uaddrs[n],
                ).contains(a) by {
                    let i = uaddrs.index_of(a);
                    if i < n {
                        assert(u[i] == a);
                    }
                }
                assert forall|a: usize| u.to_set().insert(uaddrs[n]).contains(
                    a,
                ) implies uaddrs.to_set().contains(a) by {
                    if a == uaddrs[n] {
                        assert(uaddrs[n] == a);
                    } else {
                        let i = u.index_of(a);
                        assert(uaddrs[i] == a);
                    }
                }
            }
            assert(states.last().futexes@.dom() =~= states[0].futexes@.dom().union(
                uaddrs.to_set(),
            ));
        }
    }

    /// No two addresses have the same condition variable.
    pub open spec fn has_futexes_apart(&self) -> bool {
        forall|a: usize, b: usize|
            #![trigger self.futexes@.contains_key(a), self.futexes@.contains_key(b)]
            self.futexes@.contains_key(a) && self.futexes@.contains_key(b) && self.futexes@[a]
                == self.futexes@[b] ==> a == b
    }

    /// The condition variable is none of those that the process has.
    pub open spec fn is_new_condvar(&self, condvar: Arc<K::Condvar>) -> bool {
        forall|a: usize| #[trigger] self.futexes@.contains_key(a) ==> self.futexes@[a] != condvar
    }

    /// Where every condition variable that a first request makes is a new one, two requests
    /// are given the same condition variable exactly where they are for the same address,
    /// however often and in whatever order futexes are asked for.
    pub proof fn law_futexes_stay_apart(
        states: Seq<Self>,
        uaddrs: Seq<usize>,
        given: Seq<Arc<K::Condvar>>,
    )
        requires
            states.len() == uaddrs.len() + 1,
            given.len() == uaddrs.len(),
            states[0].has_futexes_apart(),
            forall|i: int|
                0 <= i < uaddrs.len() ==> #[trigger] Self::is_request(states, uaddrs, given, i)
                    && (states[i].futexes@.contains_key(uaddrs[i]) || states[i].is_new_condvar(
                    given[i],
                )),
        ensures
            states.last().has_futexes_apart(),
            forall|i: int, j: int|
                0 <= i < uaddrs.len() && 0 <= j < uaddrs.len() ==> (given[i] == given[j]
                    <==> uaddrs[i] == uaddrs[j]),
        decreases uaddrs.len(),
    {
        Self::law_futexes_are_kept(states, uaddrs, given);
        if uaddrs.len() > 0 {
            let n = uaddrs.len() - 1;
            let (s, u, g) = (states.drop_last(), uaddrs.drop_last(), given.drop_last());
            assert forall|i: int| 0 <= i < u.len() implies #[trigger] Self::is_request(
                s,
                u,
                g,
                i,
            ) && (s[i].futexes@.contains_key(u[i]) || s[i].is_new_condvar(g[i])) by {
                assert(Self::is_request(states, uaddrs, given, i));
            }
            Self::law_futexes_stay_apart(s, u, g);
            assert(Self::is_request(states, uaddrs, given, n));
            assert(s.last() == states[n]);
        }
        assert forall|i: int, j: int|
            0 <= i < uaddrs.len() && 0 <= j < uaddrs.len() && given[i]
                == given[j] implies uaddrs[i] == uaddrs[j] by {
            let last = states.last();
            assert(uaddrs.to_set().contains(uaddrs[i]));
            assert(uaddrs.to_set().contains(uaddrs[j]));
            assert(last.futexes@.contains_key(uaddrs[i]));
            assert(last.futexes@.contains_key(uaddrs[j]));
        }
    }

    /// This process is `before` after a stage of its exit.
    pub open spec fn has_passed(&self, before: Process<K>, stage: ExitStage) -> bool {
        match stage {
            ExitStage::Files => {
                &&& self.files@ == Map::<usize, FileLike>::empty()
                &&& *self == (Process { files: self.files, ..before })
            },
            ExitStage::Parent => *self == before,
            ExitStage::Threads => *self == before,
            ExitStage::Forget => {
                &&& self.has_exited()
                &&& *self == (Process { threads: self.threads, ..before })
            },
        }
    }

    /// This process is `before` after a child of it, with number `pid`, left its exit code.
    pub open spec fn has_exit_code(
        &self,
        before: Process<K>,
        pid: usize,
        exit_code: usize,
    ) -> bool {
        &&& self.child_exit_code@ == before.child_exit_code@.insert(pid, exit_code)
        &&& *self == (Process { child_exit_code: self.child_exit_code, ..before })
    }

    /// Whether the thread belongs to the process.
    pub fn has_thread(&self, tid: usize) -> (r: bool)
        ensures
            r == self.threads@.contains(tid),
    {
        let mut i: usize = 0;
        while i < self.threads.len()
            invariant
                i <= self.threads.len(),
                forall|j: int| 0 <= j < i ==> self.threads@[j] != tid,
            decreases self.threads.len() - i,
        {
            if self.threads[i] == tid {
                return true;
            }
            i = i + 1;
        }
        false
    }

    /// Get the lowest available fd.
    fn get_free_fd(&self) -> (r: usize)
        ensures
            maps::is_lowest_free(self.files@, 0, r),
    {
        proof {
            maps::law_some_number_is_free(&self.files);
        }
        self.get_free_fd_from(0)
    }

    /// Get the lowest available fd greater than or equal to `arg`.
    pub fn get_free_fd_from(&self, arg: usize) -> (r: usize)
        requires
            maps::has_free(self.files@, arg),
        ensures
            maps::is_lowest_free(self.files@, arg, r),
    {
        maps::lowest_free(&self.files, arg)
    }

    /// Whether there is an available fd greater than or equal to `arg`.
    pub fn has_free_fd_from(&self, arg: usize) -> (r: bool)
        ensures
            r == maps::has_free(self.files@, arg),
    {
        maps::find_free(&self.files, arg).is_some()
    }

    /// Add a file to the process, return its fd.
    pub fn add_file(&mut self, file_like: FileLike) -> (fd: usize)
        ensures
            maps::is_lowest_free(old(self).files@, 0, fd),
            final(self).files@ == old(self).files@.insert(fd, file_like),
            *final(self) == (Process { files: final(self).files, ..*old(self) }),
    {
        broadcast use vstd::std_specs::btree::group_btree_axioms;

        let fd = self.get_free_fd();
        self.files.insert(fd, file_like);
        fd
    }

    /// The condition variable of a futex. The first request for an address makes one.
    ///
    /// The contract compares condition variables by value, and two that threads can wait for
    /// are the same value only where they are the same one. `law_futexes_stay_apart` says when
    /// two addresses have two of them.
    pub fn get_futex(&mut self, uaddr: usize) -> (r: Arc<K::Condvar>)
        ensures
            final(self).has_given_futex(old(self), uaddr, r),
    {
        broadcast use vstd::std_specs::btree::group_btree_axioms;

        if !self.futexes.contains_key(&uaddr) {
            self.futexes.insert(uaddr, Arc::new(K::Condvar::default()));
        }
        self.futexes.get(&uaddr).unwrap().clone()
    }

    /// Exit the process, one stage after the other.
    /// Kill all threads and notify parent with the exit code.
    ///
    /// `parent` is the parent, where it is still alive. What is returned is left for the
    /// kernel to do before the next stage. Each call is one stage; where the stages follow one
    /// another as [`ExitStage::next`] gives them, from `Files` on, the files are closed before
    /// the parent has the exit code, the parent has it before any thread is made to exit, and
    /// the process counts as exited only after all of this.
    pub fn exit(
        &mut self,
        parent: Option<&mut Process<K>>,
        stage: ExitStage,
        exit_code: usize,
    ) -> (r: ExitStep<K>)
        ensures
            final(self).has_passed(*old(self), stage),
            parent matches Some(p) ==> if stage is Parent {
                final(p).has_exit_code(*p, old(self).pid@, exit_code)
            } else {
                *final(p) == *p
            },
            is_exit_step(
                *old(self),
                match parent {
                    Some(p) => Some(p.child_exit),
                    None => None,
                },
                stage,
                r,
            ),
    {
        broadcast use vstd::std_specs::btree::group_btree_axioms;

        match stage {
            ExitStage::Files => ExitStep::Close(self.take_files()),
            ExitStage::Parent => match parent {
                Some(parent) => {
                    parent.child_exit_code.insert(self.pid.get(), exit_code);
                    ExitStep::Notify(Some(parent.child_exit.clone()))
                },
                None => ExitStep::Notify(None),
            },
            ExitStage::Threads => {
                let tids = self.threads.clone();
                assert(tids@ =~= self.threads@);
                ExitStep::ExitThreads(tids, THREAD_EXIT_CODE)
            },
            ExitStage::Forget => {
                self.threads.clear();
                ExitStep::Done
            },
        }
    }

    /// Takes all files out, in the order of their descriptors.
    fn take_files(&mut self) -> (r: Vec<FileLike>)
        ensures
            is_file_list(r@, old(self).files@),
            final(self).files@ == Map::<usize, FileLike>::empty(),
            *final(self) == (Process { files: final(self).files, ..*old(self) }),
    {
        broadcast use vstd::std_specs::btree::group_btree_axioms;

        let mut files: Vec<FileLike> = Vec::new();
        let fds = maps::key_list(&self.files);
        let mut i: usize = 0;
        while i < fds.len()
            invariant
                i <= fds.len(),
                maps::is_key_list(fds@, old(self).files@),
                forall|k: usize| #[trigger]
                    self.files@.contains_key(k) <==> old(self).files@.contains_key(k) && !fds@.take(
                        i as int,
                    ).contains(k),
                forall|k: usize| #[trigger]
                    self.files@.contains_key(k) ==> self.files@[k] == old(self).files@[k],
                *self == (Process { files: self.files, ..*old(self) }),
                files@ == fds@.take(i as int).map_values(|fd: usize| old(self).files@[fd]),
            decreases fds.len() - i,
        {
            let fd = fds[i];
            proof {
                assert(fds@.contains(fd));
                assert(fds@.take(i + 1) =~= fds@.take(i as int).push(fd));
                lemma_take_one_more(fds@, i as int);
            }
            let file = self.files.remove(&fd).unwrap();
            files.push(file);
            i = i + 1;
        }
        proof {
            assert(fds@.take(fds.len() as int) =~= fds@);
            assert(self.files@ =~= Map::<usize, FileLike>::empty());
        }
        files
    }

    /// Whether no thread of the process is left.
    pub fn exited(&self) -> (r: bool)
        ensures
            r == self.has_exited(),
    {
        self.threads.is_empty()
    }
}

} // verus!
