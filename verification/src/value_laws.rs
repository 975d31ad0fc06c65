//! What holds of the values that processes are made of.
use crate::fs::{FileHandle, FileLike, INodeRef, OpenOptions};
use crate::maps;
use crate::memory;
use crate::memory::{Backing, MemoryArea, MemoryAttr, MemorySet};
use crate::pid;
use crate::pid::Pid;
use crate::signal::{Fields, InfoInner, Kill, Siginfo, Sigset};
use std::collections::BTreeMap;
use vstd::prelude::*;

verus! {

/// The decimal notation of a number ends with its last digit, and what stands before that is
/// the notation of the rest; a number below ten has nothing else.
pub proof fn law_decimal_is_built_from_digits(n: nat)
    ensures
        n < 10 ==> pid::decimal(n).len() == 1,
        n >= 10 ==> pid::decimal(n).drop_last() == pid::decimal(n / 10),
        pid::decimal(n).len() > 0,
        n % 10 == 0 ==> pid::decimal(n).last() == '0',
        n % 10 == 1 ==> pid::decimal(n).last() == '1',
        n % 10 == 2 ==> pid::decimal(n).last() == '2',
        n % 10 == 3 ==> pid::decimal(n).last() == '3',
        n % 10 == 4 ==> pid::decimal(n).last() == '4',
        n % 10 == 5 ==> pid::decimal(n).last() == '5',
        n % 10 == 6 ==> pid::decimal(n).last() == '6',
        n % 10 == 7 ==> pid::decimal(n).last() == '7',
        n % 10 == 8 ==> pid::decimal(n).last() == '8',
        n % 10 == 9 ==> pid::decimal(n).last() == '9',
{
    if n >= 10 {
        assert(pid::decimal(n).drop_last() =~= pid::decimal(n / 10));
    }
}

/// A pid shows its number in decimal notation.
pub proof fn law_pid_shows_its_number(pid: &Pid, number: usize, r: String)
    requires
        call_ensures(Pid::get, (pid,), number),
        call_ensures(Pid::to_string, (pid,), r),
    ensures
        r@ == pid::decimal(number as nat),
{
}

/// The init process is the one with number 1.
pub proof fn law_init_has_number_one(pid: &Pid, number: usize, r: bool)
    requires
        call_ensures(Pid::get, (pid,), number),
        call_ensures(Pid::is_init, (pid,), r),
    ensures
        r <==> number == 1,
        number == pid@,
{
}

/// The empty set of signals, which is also the default, has none of them.
pub proof fn law_empty_set_has_no_signal(a: Sigset, b: Sigset, signal: u64)
    requires
        call_ensures(Sigset::empty, (), a),
        call_ensures(<Sigset as Default>::default, (), b),
        signal < 64,
    ensures
        (a.0 >> signal) & 1 == 0,
        (b.0 >> signal) & 1 == 0,
{
    let (x, y) = (a.0, b.0);
    assert((x >> signal) & 1 == 0 && (y >> signal) & 1 == 0) by (bit_vector)
        requires
            x == 0,
            y == 0,
            signal < 64,
    ;
}

/// New information about a signal has the numbers that it is made with, and they are read back.
pub proof fn law_signal_numbers_are_read_back(
    signo: i32,
    errno: i32,
    code: i32,
    info: Siginfo,
    inner: &InfoInner,
)
    requires
        call_ensures(Siginfo::new, (signo, errno, code), info),
        call_ensures(Siginfo::deref, (&info,), inner),
    ensures
        inner.signo == signo,
        inner.errno == errno,
        inner.code == code,
{
}

/// The sender of a signal of which nothing was set has pid 0 and uid 0.
pub proof fn law_sender_is_unknown_at_first(
    signo: i32,
    errno: i32,
    code: i32,
    info: &mut Siginfo,
    inner: &mut InfoInner,
    fields: &mut Fields,
    kill: &mut Kill,
)
    requires
        call_ensures(Siginfo::new, (signo, errno, code), *info),
        call_ensures(Siginfo::deref_mut, (info,), inner),
        call_ensures(InfoInner::deref_mut, (inner,), fields),
        call_ensures(Fields::kill_mut, (fields,), kill),
    ensures
        old(kill).pid == 0,
        old(kill).uid == 0,
{
}

/// What is written as the sender of a signal is read as its sender, and the numbers of the
/// signal stay as they are.
pub proof fn law_sender_is_read_back(
    info: &mut Siginfo,
    inner: &mut InfoInner,
    fields: &mut Fields,
    kill: &mut Kill,
    again: &mut Siginfo,
    again_inner: &mut InfoInner,
    again_fields: &mut Fields,
    again_kill: &mut Kill,
)
    requires
        call_ensures(Siginfo::deref_mut, (info,), inner),
        call_ensures(InfoInner::deref_mut, (inner,), fields),
        call_ensures(Fields::kill_mut, (fields,), kill),
        *old(again) == *final(info),
        call_ensures(Siginfo::deref_mut, (again,), again_inner),
        call_ensures(InfoInner::deref_mut, (again_inner,), again_fields),
        call_ensures(Fields::kill_mut, (again_fields,), again_kill),
    ensures
        *old(again_kill) == *final(kill),
        old(again_inner).signo == old(inner).signo,
        old(again_inner).errno == old(inner).errno,
        old(again_inner).code == old(inner).code,
{
}

/// The page of an address starts at a multiple of 4096, not behind the address and less than
/// 4096 before it.
pub proof fn law_page_of_an_address(addr: usize, r: usize)
    requires
        call_ensures(memory::page_start, (addr,), r),
    ensures
        r as int % 4096 == 0,
        r <= addr < r + 4096,
{
}

/// Pages are closed to user code and to execution, and open to writes, until something else is
/// asked for; and each request changes one of the three.
pub proof fn law_rights_are_given_one_by_one(
    start: MemoryAttr,
    attr: MemoryAttr,
    user: MemoryAttr,
    readonly: MemoryAttr,
    execute: MemoryAttr,
)
    requires
        call_ensures(<MemoryAttr as Default>::default, (), start),
        call_ensures(MemoryAttr::user, (attr,), user),
        call_ensures(MemoryAttr::readonly, (attr,), readonly),
        call_ensures(MemoryAttr::execute, (attr,), execute),
    ensures
        !start.user && !start.readonly && !start.execute,
        user.user && user.readonly == attr.readonly && user.execute == attr.execute,
        readonly.user == attr.user && readonly.readonly && readonly.execute == attr.execute,
        execute.user == attr.user && execute.readonly == attr.readonly && execute.execute,
{
}

/// A new address space has nothing mapped.
pub proof fn law_new_memory_set_is_empty(r: MemorySet)
    requires
        call_ensures(MemorySet::new, (), r),
    ensures
        r.areas@.len() == 0,
{
}

/// An area that is mapped comes behind those from before, which stay, and is what was asked
/// for.
pub proof fn law_mapped_area_comes_last(
    ms: &mut MemorySet,
    start: usize,
    end: usize,
    attr: MemoryAttr,
    backing: Backing,
    name: &'static str,
)
    requires
        call_ensures(MemorySet::push, (ms, start, end, attr, backing, name), ()),
    ensures
        final(ms).areas@.len() == old(ms).areas@.len() + 1,
        forall|i: int|
            0 <= i < old(ms).areas@.len() ==> #[trigger] final(ms).areas@[i] == old(ms).areas@[i],
        final(ms).areas@.last() == (MemoryArea { start, end, attr, backing, name }),
{
}

/// An open file is what it was opened as.
pub proof fn law_open_file_is_as_it_was_opened(
    description: usize,
    inode: INodeRef,
    options: OpenOptions,
    path: String,
    pipe: bool,
    fd_cloexec: bool,
    r: FileHandle,
)
    requires
        call_ensures(
            FileHandle::new,
            (description, inode, options, path, pipe, fd_cloexec),
            r,
        ),
    ensures
        r.description == description,
        r.inode == inode,
        r.options == options,
        r.path == path,
        r.pipe == pipe,
        r.fd_cloexec == fd_cloexec,
{
}

/// Another handle of an open file shares its description and is equal to it in all else.
pub proof fn law_second_handle_shares_the_description(
    handle: &FileHandle,
    r: FileHandle,
    file: &FileLike,
    s: FileLike,
)
    requires
        call_ensures(<FileHandle as Clone>::clone, (handle,), r),
        call_ensures(<FileLike as Clone>::clone, (file,), s),
    ensures
        r.description == handle.description,
        r.inode == handle.inode,
        r.options == handle.options,
        r.path == handle.path,
        r.pipe == handle.pipe,
        r.fd_cloexec == handle.fd_cloexec,
        s == *file,
{
}

/// A number that is found is free, not below the start, and no higher than any other that is;
/// none is found exactly where none is free.
pub proof fn law_found_number_is_the_lowest<V>(m: &BTreeMap<usize, V>, from: usize, r: Option<usize>)
    requires
        call_ensures(maps::find_free::<V>, (m, from), r),
    ensures
        r is Some <==> exists|k: usize| from <= k && !(#[trigger] m@.contains_key(k)),
        r matches Some(n) ==> from <= n && !m@.contains_key(n),
        forall|k: usize|
            from <= k && !(#[trigger] m@.contains_key(k)) ==> (r matches Some(n) && n <= k),
{
    if let Some(n) = r {
        assert(!m@.contains_key(n));
    }
}

/// The number that is given where one is free is the lowest of them.
pub proof fn law_given_number_is_the_lowest<V>(m: &BTreeMap<usize, V>, from: usize, r: usize)
    requires
        call_ensures(maps::lowest_free::<V>, (m, from), r),
    ensures
        from <= r,
        !m@.contains_key(r),
        forall|k: usize| from <= k && !(#[trigger] m@.contains_key(k)) ==> r <= k,
{
}

/// The keys of a map are listed each once, from the lowest to the highest.
pub proof fn law_keys_are_listed_in_order<V>(m: &BTreeMap<usize, V>, r: Vec<usize>)
    requires
        call_ensures(maps::key_list::<V>, (m,), r),
    ensures
        forall|i: int, j: int| 0 <= i < j < r@.len() ==> r@[i] < r@[j],
        forall|i: int| 0 <= i < r@.len() ==> m@.contains_key(#[trigger] r@[i]),
        forall|k: usize| #[trigger] m@.contains_key(k) ==> r@.contains(k),
{
    assert forall|i: int| 0 <= i < r@.len() implies m@.contains_key(#[trigger] r@[i]) by {
        assert(r@.contains(r@[i]));
    }
}

} // verus!
