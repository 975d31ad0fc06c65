//! The table of all processes.
use crate::fs::FileLike;
use crate::kernel::Kernel;
use crate::maps;
use crate::pid::Pid;
use crate::process;
use crate::process::{ExitStage, ExitStep, Process};
use std::collections::BTreeMap;
use std::sync::Arc;
use vstd::prelude::*;

verus! {

/// Records the mapping between pid and process. The entry of a process that is gone stays,
/// empty, so that its number is not given out again.
pub struct ProcessTable<K: Kernel> {
    processes: BTreeMap<usize, Option<Process<K>>>,
}

impl<K: Kernel> ProcessTable<K> {
    pub closed spec fn view(&self) -> Map<usize, Option<Process<K>>> {
        self.processes@
    }

    /// No process has a number below that of the init process, and each knows its number.
    pub open spec fn wf(&self) -> bool {
        forall|pid: usize| #[trigger]
            self@.contains_key(pid) ==> {
                &&& Pid::INIT <= pid
                &&& self@[pid] matches Some(p) ==> p.pid@ == pid
            }
    }

    /// There is a process with this number.
    pub open spec fn is_live(&self, pid: usize) -> bool {
        self@.contains_key(pid) && self@[pid] is Some
    }

    /// The process with this number.
    pub open spec fn at(&self, pid: usize) -> Process<K> {
        self@[pid]->0
    }

    /// There is a number left for one more process.
    pub open spec fn has_room(&self) -> bool {
        maps::has_free(self@, Pid::INIT)
    }

    /// This table has what `before` had, and `process` under the lowest number that was free.
    pub open spec fn has_added(&self, before: &Self, process: Process<K>, pid: usize) -> bool {
        &&& maps::is_lowest_free(before@, Pid::INIT, pid)
        &&& self.is_live(pid)
        &&& self.at(pid).pid@ == pid
        &&& self.at(pid) == process.with_pid(self.at(pid).pid)
        &&& self@ == before@.insert(pid, self@[pid])
    }

    /// Every process that was in `before` is in this table, in the same address space.
    pub open spec fn keeps(&self, before: &Self) -> bool {
        forall|pid: usize| #[trigger]
            before.is_live(pid) ==> self.is_live(pid) && self.at(pid).vm == before.at(pid).vm
    }

    /// What the parent of a process waits for, where there is such a parent.
    pub open spec fn waker_of(&self, pid: usize) -> Option<Arc<K::Condvar>> {
        if self.is_live(self.at(pid).parent@) {
            Some(self.at(self.at(pid).parent@).child_exit)
        } else {
            None
        }
    }

    /// This table is `before` after a stage of the exit of the process: the process is as the
    /// stage leaves it, its parent, if that is alive, has its exit code from the one stage on
    /// that is about it, all else is as it was, and `step` is left for the kernel to do.
    pub open spec fn has_passed(
        &self,
        before: &Self,
        pid: usize,
        stage: ExitStage,
        exit_code: usize,
        step: ExitStep<K>,
    ) -> bool {
        let parent = before.at(pid).parent@;
        let told = stage is Parent && before.is_live(parent);
        &&& self@.dom() == before@.dom()
        &&& self.is_live(pid)
        &&& self.at(pid).has_passed(before.at(pid), stage)
        &&& told ==> self.is_live(parent) && self.at(parent).has_exit_code(
            before.at(parent),
            pid,
            exit_code,
        )
        &&& forall|other: usize|
            other != pid && !(told && other == parent) && #[trigger] before@.contains_key(other)
                ==> self@[other] == before@[other]
        &&& process::is_exit_step(before.at(pid), before.waker_of(pid), stage, step)
    }

    /// The processes are those of the group, in the order of their numbers.
    pub open spec fn is_group(&self, group: Seq<&Process<K>>, pgid: i32) -> bool {
        &&& forall|i: int, j: int| 0 <= i < j < group.len() ==> group[i].pid@ < group[j].pid@
        &&& forall|i: int|
            0 <= i < group.len() ==> {
                let p = #[trigger] group[i];
                self.is_live(p.pid@) && *p == self.at(p.pid@) && p.pgid == pgid
            }
        &&& forall|pid: usize| #[trigger]
            self.is_live(pid) && self.at(pid).pgid == pgid ==> exists|i: int|
                0 <= i < group.len() && (#[trigger] group[i]).pid@ == pid
    }

    /// The thread belongs to the process with this number, and to none with a lower one.
    pub open spec fn is_first_with(&self, tid: usize, pid: usize) -> bool {
        &&& self.is_live(pid)
        &&& self.at(pid).threads@.contains(tid)
        &&& forall|other: usize|
            other < pid && #[trigger] self.is_live(other) ==> !self.at(other).threads@.contains(
                tid,
            )
    }

    /// A table without processes.
    pub fn new() -> (r: Self)
        ensures
            r.wf(),
            r@ == Map::<usize, Option<Process<K>>>::empty(),
    {
        ProcessTable { processes: BTreeMap::new() }
    }

    /// Whether there is a number left for one more process.
    pub fn can_add(&self) -> (r: bool)
        ensures
            r == self.has_room(),
    {
        maps::find_free(&self.processes, Pid::INIT).is_some()
    }

    /// Takes out a process that nothing refers to any more. Its number stays taken.
    pub fn release(&mut self, pid: usize) -> (r: Option<Process<K>>)
        requires
            old(self).wf(),
        ensures
            final(self).wf(),
            match r {
                Some(p) => {
                    &&& old(self).is_live(pid)
                    &&& p == old(self).at(pid)
                    &&& final(self)@ == old(self)@.insert(pid, None)
                },
                None => !old(self).is_live(pid) && final(self)@ == old(self)@,
            },
    {
        broadcast use vstd::std_specs::btree::group_btree_axioms;

        let ghost before = self@;
        match self.processes.remove(&pid) {
            Some(entry) => {
                self.processes.insert(pid, None);
                assert(self@ =~= before.insert(pid, None));
                if entry.is_none() {
                    assert(before[pid] is None);
                    assert(self@ =~= before);
                }
                entry
            },
            None => {
                assert(self@ =~= before);
                None
            },
        }
    }

    /// Puts a process back that was taken out.
    pub fn restore(&mut self, process: Process<K>)
        requires
            old(self).wf(),
            old(self)@.contains_key(process.pid@),
        ensures
            final(self).wf(),
            final(self)@ == old(self)@.insert(process.pid@, Some(process)),
    {
        broadcast use vstd::std_specs::btree::group_btree_axioms;

        let pid = process.pid.get();
        self.processes.insert(pid, Some(process));
        assert(self@ =~= old(self)@.insert(pid, Some(process)));
    }

    /// Whether the number was given out.
    pub fn contains(&self, pid: usize) -> (r: bool)
        ensures
            r == self@.contains_key(pid),
    {
        broadcast use vstd::std_specs::btree::group_btree_axioms;

        self.processes.contains_key(&pid)
    }

    /// Adds a child to a process.
    pub(crate) fn add_child(&mut self, pid: usize, child: Pid)
        requires
            old(self).wf(),
            old(self).is_live(pid),
        ensures
            final(self).wf(),
            final(self).keeps(old(self)),
            final(self).is_live(pid),
            final(self)@ == old(self)@.insert(pid, final(self)@[pid]),
            final(self).at(pid).children@ == old(self).at(pid).children@.push(child),
            final(self).at(pid) == (Process {
                children: final(self).at(pid).children,
                ..old(self).at(pid)
            }),
    {
        broadcast use vstd::std_specs::btree::group_btree_axioms;

        let mut process = self.processes.remove(&pid).unwrap().unwrap();
        process.children.push(child);
        self.processes.insert(pid, Some(process));
        proof {
            self.lemma_stays_in_order(old(self));
        }
    }

    /// Adds a thread to a process.
    pub(crate) fn add_thread(&mut self, pid: usize, tid: usize)
        requires
            old(self).wf(),
            old(self).is_live(pid),
        ensures
            final(self).wf(),
            final(self).keeps(old(self)),
            final(self).is_live(pid),
            final(self)@ == old(self)@.insert(pid, final(self)@[pid]),
            final(self).at(pid).threads@ == old(self).at(pid).threads@.push(tid),
            final(self).at(pid) == (Process {
                threads: final(self).at(pid).threads,
                ..old(self).at(pid)
            }),
    {
        broadcast use vstd::std_specs::btree::group_btree_axioms;

        let mut process = self.processes.remove(&pid).unwrap().unwrap();
        process.threads.push(tid);
        self.processes.insert(pid, Some(process));
        proof {
            self.lemma_stays_in_order(old(self));
        }
    }

    /// A table in which every process from before is still there, with its number and address
    /// space, and every new one has its own number, is a table in order.
    proof fn lemma_stays_in_order(&self, before: &Self)
        requires
            before.wf(),
            forall|pid: usize| #[trigger]
                before@.contains_key(pid) ==> match before@[pid] {
                    Some(p) => self@[pid] matches Some(q) && q.pid == p.pid && q.vm == p.vm,
                    None => self@[pid] is None,
                },
            forall|pid: usize| #[trigger] before@.contains_key(pid) ==> self@.contains_key(pid),
            forall|pid: usize| #[trigger]
                self@.contains_key(pid) && !before@.contains_key(pid) ==> {
                    &&& Pid::INIT <= pid
                    &&& self@[pid] matches Some(p) ==> p.pid@ == pid
                },
        ensures
            self.wf(),
            self.keeps(before),
    {
        assert forall|pid: usize| #[trigger] self@.contains_key(pid) implies {
            &&& Pid::INIT <= pid
            &&& self@[pid] matches Some(p) ==> p.pid@ == pid
        } by {
            if before@.contains_key(pid) {
                assert(self@[pid] is Some ==> before@[pid] is Some);
            }
        }
        assert forall|pid: usize| #[trigger] before.is_live(pid) implies self.is_live(pid)
            && self.at(pid).vm == before.at(pid).vm by {
            assert(before@.contains_key(pid));
        }
    }

    /// Exits a process of the table, one stage after the other.
    pub fn exit(&mut self, pid: usize, stage: ExitStage, exit_code: usize) -> (r: ExitStep<K>)
        requires
            old(self).wf(),
            old(self).is_live(pid),
            stage is Parent ==> old(self).at(pid).parent@ != pid,
        ensures
            final(self).wf(),
            final(self).keeps(old(self)),
            final(self).has_passed(old(self), pid, stage, exit_code, r),
    {
        broadcast use vstd::std_specs::btree::group_btree_axioms;

        let mut process = self.processes.remove(&pid).unwrap().unwrap();
        let parent_pid = process.parent.get();
        let told = match stage {
            ExitStage::Parent => true,
            _ => false,
        };
        let step = if told {
            match self.processes.remove(&parent_pid) {
                Some(Some(mut parent)) => {
                    let step = process.exit(Some(&mut parent), stage, exit_code);
                    self.processes.insert(parent_pid, Some(parent));
                    step
                },
                Some(None) => {
                    self.processes.insert(parent_pid, None);
                    process.exit(None, stage, exit_code)
                },
                None => process.exit(None, stage, exit_code),
            }
        } else {
            process.exit(None, stage, exit_code)
        };
        self.processes.insert(pid, Some(process));
        proof {
            assert(self@.dom() =~= old(self)@.dom());
            self.lemma_stays_in_order(old(self));
        }
        step
    }
}

/// A process that goes through all stages of its exit, `start` being the table before and the
/// other four what each stage leaves: its files are handed over to be closed first; then its
/// parent, if that is alive, has the exit code, while the process still has its threads; then
/// these are made to exit; and only then the process counts as exited. No other process is
/// touched.
pub proof fn law_exit_keeps_its_order<K: Kernel>(
    start: &ProcessTable<K>,
    closing: &ProcessTable<K>,
    told: &ProcessTable<K>,
    ending: &ProcessTable<K>,
    done: &ProcessTable<K>,
    pid: usize,
    exit_code: usize,
    steps: (ExitStep<K>, ExitStep<K>, ExitStep<K>, ExitStep<K>),
)
    requires
        start.is_live(pid),
        start.at(pid).parent@ != pid,
        closing.has_passed(start, pid, ExitStage::Files, exit_code, steps.0),
        told.has_passed(closing, pid, ExitStage::Parent, exit_code, steps.1),
        ending.has_passed(told, pid, ExitStage::Threads, exit_code, steps.2),
        done.has_passed(ending, pid, ExitStage::Forget, exit_code, steps.3),
    ensures
        steps.0 matches ExitStep::Close(files) && process::is_file_list(
            files@,
            start.at(pid).files@,
        ),
        start.is_live(start.at(pid).parent@) ==> {
            let parent = start.at(pid).parent@;
            &&& closing.at(parent) == start.at(parent)
            &&& told.at(parent).has_exit_code(start.at(parent), pid, exit_code)
            &&& steps.1 == ExitStep::<K>::Notify(Some(start.at(parent).child_exit))
            &&& done.is_live(parent)
            &&& done.at(parent) == told.at(parent)
        },
        !start.is_live(start.at(pid).parent@) ==> steps.1 == ExitStep::<K>::Notify(None),
        told.at(pid).threads == start.at(pid).threads,
        ending.at(pid).threads == start.at(pid).threads,
        steps.2 matches ExitStep::ExitThreads(tids, code) && tids@ == start.at(pid).threads@
            && code == process::THREAD_EXIT_CODE,
        done.is_live(pid),
        done.at(pid).has_exited(),
        done.at(pid).files@ == Map::<usize, FileLike>::empty(),
        done.at(pid) == (Process {
            files: done.at(pid).files,
            threads: done.at(pid).threads,
            ..start.at(pid)
        }),
        done@.dom() == start@.dom(),
        forall|other: usize|
            other != pid && other != start.at(pid).parent@ && #[trigger] start@.contains_key(other)
                ==> done@[other] == start@[other],
{
    let parent = start.at(pid).parent@;
    if start.is_live(parent) {
        assert(start@.contains_key(parent));
        assert(closing@.contains_key(parent));
        assert(told@.contains_key(parent));
        assert(ending@.contains_key(parent));
    }
    if closing.is_live(parent) {
        assert(closing@.contains_key(parent));
        assert(start@.contains_key(parent));
    }
    assert forall|other: usize|
        other != pid && other != parent && #[trigger] start@.contains_key(
            other,
        ) implies done@[other] == start@[other] by {
        assert(closing@.contains_key(other));
        assert(told@.contains_key(other));
        assert(ending@.contains_key(other));
    }
}

/// The first process of a kernel is the init process.
pub proof fn law_first_process_is_init<K: Kernel>(
    empty: &ProcessTable<K>,
    after: &ProcessTable<K>,
    process: Process<K>,
    pid: usize,
)
    requires
        empty@ == Map::<usize, Option<Process<K>>>::empty(),
        after.has_added(empty, process, pid),
    ensures
        pid == Pid::INIT,
{
    if pid > Pid::INIT {
        assert(empty@.contains_key(Pid::INIT));
    }
}

/// No two processes have the same number.
pub proof fn law_number_names_one_process<K: Kernel>(table: &ProcessTable<K>, a: usize, b: usize)
    requires
        table.wf(),
        table.is_live(a),
        table.is_live(b),
        table.at(a).pid == table.at(b).pid,
    ensures
        a == b,
        a != 0,
{
    assert(table@.contains_key(a) && table@.contains_key(b));
}

/// A number is given out once: neither a process that is there nor one that is gone shares
/// its number with a process that is added, and adding one takes nothing away.
pub proof fn law_number_is_not_reused<K: Kernel>(
    before: &ProcessTable<K>,
    after: &ProcessTable<K>,
    process: Process<K>,
    pid: usize,
    other: usize,
)
    requires
        after.has_added(before, process, pid),
        before@.contains_key(other),
    ensures
        pid != other,
        after@.contains_key(other),
        after@[other] == before@[other],
{
}

/// A process that is taken out and put back unchanged leaves the table as it was.
pub proof fn law_restore_undoes_release<K: Kernel>(
    before: &ProcessTable<K>,
    released: &ProcessTable<K>,
    restored: &ProcessTable<K>,
    pid: usize,
)
    requires
        before.wf(),
        before.is_live(pid),
        released@ == before@.insert(pid, None),
        restored@ == released@.insert(before.at(pid).pid@, Some(before.at(pid))),
    ensures
        restored@ == before@,
{
    assert(restored@ =~= before@);
}

/// A thread is found in one process only.
pub proof fn law_thread_has_one_process<K: Kernel>(
    table: &ProcessTable<K>,
    tid: usize,
    a: usize,
    b: usize,
)
    requires
        table.is_first_with(tid, a),
        table.is_first_with(tid, b),
    ensures
        a == b,
{
}

/// A group is found in one way only: the same processes in the same order.
pub proof fn law_group_is_unique<K: Kernel>(
    table: &ProcessTable<K>,
    pgid: i32,
    a: Seq<&Process<K>>,
    b: Seq<&Process<K>>,
)
    requires
        table.is_group(a, pgid),
        table.is_group(b, pgid),
    ensures
        a == b,
{
    let pids = Map::new(
        |pid: usize| table.is_live(pid) && table.at(pid).pgid == pgid,
        |pid: usize| table.at(pid),
    );
    lemma_group_keys(table, pgid, a, pids);
    lemma_group_keys(table, pgid, b, pids);
    let pids_a = a.map_values(|p: &Process<K>| p.pid@);
    let pids_b = b.map_values(|p: &Process<K>| p.pid@);
    maps::law_key_list_is_unique(pids, pids_a, pids_b);
    assert forall|i: int| 0 <= i < a.len() implies a[i] == b[i] by {
        assert(pids_a[i] == pids_b[i]);
    }
    assert(a =~= b);
}

/// The numbers of a group, in their order.
proof fn lemma_group_keys<K: Kernel>(
    table: &ProcessTable<K>,
    pgid: i32,
    group: Seq<&Process<K>>,
    pids: Map<usize, Process<K>>,
)
    requires
        table.is_group(group, pgid),
        forall|pid: usize| #[trigger]
            pids.contains_key(pid) <==> table.is_live(pid) && table.at(pid).pgid == pgid,
    ensures
        maps::is_key_list(group.map_values(|p: &Process<K>| p.pid@), pids),
{
    let keys = group.map_values(|p: &Process<K>| p.pid@);
    assert forall|k: usize| keys.contains(k) <==> #[trigger] pids.contains_key(k) by {
        if keys.contains(k) {
            let i = keys.index_of(k);
            assert(group[i].pid@ == k);
        }
        if pids.contains_key(k) {
            assert(table.is_live(k));
            let i = choose|i: int| 0 <= i < group.len() && (#[trigger] group[i]).pid@ == k;
            assert(keys[i] == k);
        }
    }
}

/// Return the process which thread `tid` is in
pub fn process_of<K: Kernel>(table: &ProcessTable<K>, tid: usize) -> (r: Option<&Process<K>>)
    requires
        table.wf(),
    ensures
        match r {
            Some(p) => table.is_first_with(tid, p.pid@) && *p == table.at(p.pid@),
            None => forall|pid: usize| #[trigger]
                table.is_live(pid) ==> !table.at(pid).threads@.contains(tid),
        },
{
    broadcast use vstd::std_specs::btree::group_btree_axioms;

    let pids = maps::key_list(&table.processes);
    let mut i: usize = 0;
    while i < pids.len()
        invariant
            table.wf(),
            i <= pids.len(),
            maps::is_key_list(pids@, table@),
            forall|j: int|
                0 <= j < i && table.is_live(#[trigger] pids@[j]) ==> !table.at(
                    pids@[j],
                ).threads@.contains(tid),
        decreases pids.len() - i,
    {
        let pid = pids[i];
        assert(pids@.contains(pid));
        if let Some(process) = process(table, pid) {
            if process.has_thread(tid) {
                assert forall|other: usize| other < pid && #[trigger] table.is_live(
                    other,
                ) implies !table.at(other).threads@.contains(tid) by {
                    assert(table@.contains_key(other));
                    let j = pids@.index_of(other);
                    if j > i {
                        assert(pids@[i as int] < pids@[j]);
                    }
                }
                return Some(process);
            }
        }
        i = i + 1;
    }
    assert forall|pid: usize| #[trigger] table.is_live(pid) implies !table.at(
        pid,
    ).threads@.contains(tid) by {
        assert(table@.contains_key(pid));
        assert(pids@[pids@.index_of(pid)] == pid);
    }
    None
}

/// The process with this number, if it is alive.
pub fn process<K: Kernel>(table: &ProcessTable<K>, pid: usize) -> (r: Option<&Process<K>>)
    ensures
        match r {
            Some(p) => table.is_live(pid) && *p == table.at(pid),
            None => !table.is_live(pid),
        },
{
    broadcast use vstd::std_specs::btree::group_btree_axioms;

    match table.processes.get(&pid) {
        Some(Some(process)) => Some(process),
        _ => None,
    }
}

/// The processes of a group, in the order of their numbers.
pub fn process_group<K: Kernel>(table: &ProcessTable<K>, pgid: i32) -> (r: Vec<&Process<K>>)
    requires
        table.wf(),
    ensures
        table.is_group(r@, pgid),
{
    broadcast use vstd::std_specs::btree::group_btree_axioms;

    let pids = maps::key_list(&table.processes);
    let mut group: Vec<&Process<K>> = Vec::new();
    let mut i: usize = 0;
    while i < pids.len()
        invariant
            table.wf(),
            i <= pids.len(),
            maps::is_key_list(pids@, table@),
            forall|k: int, j: int| 0 <= k < j < group@.len() ==> group@[k].pid@ < group@[j].pid@,
            forall|k: int|
                0 <= k < group@.len() ==> {
                    let p = #[trigger] group@[k];
                    &&& table.is_live(p.pid@)
                    &&& *p == table.at(p.pid@)
                    &&& p.pgid == pgid
                    &&& i < pids@.len() ==> p.pid@ < pids@[i as int]
                },
            forall|j: int|
                0 <= j < i && table.is_live(#[trigger] pids@[j]) && table.at(pids@[j]).pgid == pgid
                    ==> exists|k: int|
                    0 <= k < group@.len() && (#[trigger] group@[k]).pid@ == pids@[j],
        decreases pids.len() - i,
    {
        let pid = pids[i];
        assert(pids@.contains(pid));
        let ghost before = group@;
        if let Some(process) = process(table, pid) {
            if process.pgid == pgid {
                group.push(process);
                assert(group@[before.len() as int].pid@ == pid);
            }
        }
        proof {
            assert forall|j: int|
                0 <= j < i + 1 && table.is_live(#[trigger] pids@[j]) && table.at(pids@[j]).pgid
                    == pgid implies exists|k: int|
                0 <= k < group@.len() && (#[trigger] group@[k]).pid@ == pids@[j] by {
                if j < i {
                    let k = choose|k: int|
                        0 <= k < before.len() && (#[trigger] before[k]).pid@ == pids@[j];
                    assert(group@[k] == before[k]);
                }
            }
            if i + 1 < pids@.len() {
                assert(pids@[i as int] < pids@[i + 1]);
            }
        }
        i = i + 1;
    }
    assert forall|pid: usize| #[trigger] table.is_live(pid) && table.at(pid).pgid
        == pgid implies exists|k: int|
        0 <= k < group@.len() && (#[trigger] group@[k]).pid@ == pid by {
        assert(table@.contains_key(pid));
        assert(pids@[pids@.index_of(pid)] == pid);
    }
    group
}

impl<K: Kernel> Process<K> {
    /// Assign a pid and put itself to the process table.
    pub fn add_to_table(self, table: &mut ProcessTable<K>) -> (r: Pid)
        requires
            old(table).wf(),
            old(table).has_room(),
        ensures
            final(table).wf(),
            final(table).keeps(old(table)),
            final(table).has_added(old(table), self, r@),
    {
        broadcast use vstd::std_specs::btree::group_btree_axioms;

        // assign pid, do not start from 0
        let pid = Pid::new(maps::lowest_free(&table.processes, Pid::INIT));
        let mut process = self;
        process.pid = pid;
        // put to process table
        table.processes.insert(pid.get(), Some(process));
        proof {
            assert(table@ =~= old(table)@.insert(pid@, table@[pid@]));
            table.lemma_stays_in_order(old(table));
        }
        pid
    }
}

} // verus!
