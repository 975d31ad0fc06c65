//! Signals, as far as a process holds them.
use vstd::prelude::*;

verus! {

/// The highest signal number.
pub const RTMAX: usize = 64;

/// How many signal numbers there are, with 0, which stands for no signal.
pub const SIGNAL_COUNT: usize = RTMAX + 1;

/// A set of signals, one bit each.
#[derive(Clone, Copy, Debug, PartialEq, Eq, Structural)]
pub struct Sigset(pub u64);

impl Sigset {
    /// The set without signals.
    pub fn empty() -> (r: Self)
        ensures
            r == Sigset(0),
    {
        Sigset(0)
    }
}

impl Default for Sigset {
    fn default() -> (r: Self)
        ensures
            r == Sigset(0),
    {
        Sigset(0)
    }
}

/// Who sent a signal with `kill`.
#[derive(Clone, Copy, Debug, PartialEq, Eq, Structural)]
pub struct Kill {
    pub pid: i32,
    pub uid: u32,
}

/// What is known of a signal beyond its numbers. All of it is zero until it is set.
#[derive(Clone, Copy, Debug, PartialEq, Eq, Structural)]
pub struct Fields {
    kill: Kill,
}

impl Fields {
    /// The sender.
    pub closed spec fn sender(&self) -> Kill {
        self.kill
    }

    /// There is nothing in the fields but the sender.
    pub proof fn law_sender_identifies(self, other: Fields)
        ensures
            self.sender() == other.sender() <==> self == other,
    {
    }

    /// The sender, to be read or set.
    pub fn kill_mut(&mut self) -> (r: &mut Kill)
        ensures
            *r == old(self).sender(),
            final(self).sender() == *final(r),
    {
        &mut self.kill
    }
}

/// The numbers of a signal together with its fields.
#[derive(Clone, Copy, Debug, PartialEq, Eq, Structural)]
pub struct InfoInner {
    pub signo: i32,
    pub errno: i32,
    pub code: i32,
    pub fields: Fields,
}

impl InfoInner {
    /// The fields, to be read.
    pub fn deref(&self) -> (r: &Fields)
        ensures
            *r == self.fields,
    {
        &self.fields
    }

    /// The fields, to be read or set. The numbers stay as they are.
    pub fn deref_mut(&mut self) -> (r: &mut Fields)
        ensures
            *r == old(self).fields,
            *final(self) == (InfoInner { fields: *final(r), ..*old(self) }),
    {
        &mut self.fields
    }
}

/// What a process is told about a signal.
#[derive(Clone, Copy, Debug, PartialEq, Eq, Structural)]
pub struct Siginfo {
    inner: InfoInner,
}

impl Siginfo {
    /// The information.
    pub closed spec fn view(&self) -> InfoInner {
        self.inner
    }

    /// There is nothing in the structure but the information.
    pub proof fn law_info_identifies(self, other: Siginfo)
        ensures
            self@ == other@ <==> self == other,
    {
    }

    /// Information about a signal of which only the numbers are known.
    pub fn new(signo: i32, errno: i32, code: i32) -> (r: Self)
        ensures
            r@.signo == signo,
            r@.errno == errno,
            r@.code == code,
            r@.fields.sender() == (Kill { pid: 0, uid: 0 }),
    {
        Siginfo {
            inner: InfoInner {
                signo,
                errno,
                code,
                fields: Fields { kill: Kill { pid: 0, uid: 0 } },
            },
        }
    }

    /// The information, to be read.
    pub fn deref(&self) -> (r: &InfoInner)
        ensures
            *r == self@,
    {
        &self.inner
    }

    /// The information, to be read or set.
    pub fn deref_mut(&mut self) -> (r: &mut InfoInner)
        ensures
            *r == old(self)@,
            final(self)@ == *final(r),
    {
        &mut self.inner
    }
}

} // verus!
