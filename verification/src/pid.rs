//! Process numbers.
use std::cmp::Ordering;
use vstd::prelude::*;
use vstd::string::StringExecFns;

verus! {

/// The number of a process, kept apart from all other numbers.
#[derive(Clone, Copy, Debug, PartialEq, Eq, Ord, Structural)]
pub struct Pid(usize);

/// The digit that stands for a number below ten.
pub open spec fn digit_char(d: nat) -> char {
    (48 + d) as char
}

/// A number in decimal notation.
pub open spec fn decimal(n: nat) -> Seq<char>
    decreases n,
{
    if n < 10 {
        seq![digit_char(n)]
    } else {
        decimal(n / 10).push(digit_char(n % 10))
    }
}

impl Pid {
    /// The number of the init process, and the lowest that a process can have.
    pub const INIT: usize = 1;

    pub closed spec fn view(&self) -> usize {
        self.0
    }

    pub(crate) fn new(pid: usize) -> (r: Pid)
        ensures
            r@ == pid,
    {
        Pid(pid)
    }

    /// The plain number.
    pub fn get(&self) -> (r: usize)
        ensures
            r == self@,
    {
        self.0
    }

    /// Return whether this pid represents the init process
    pub fn is_init(&self) -> (r: bool)
        ensures
            r == (self@ == Pid::INIT),
    {
        self.0 == Self::INIT
    }

    /// The number in decimal notation.
    pub fn to_string(&self) -> (r: String)
        ensures
            r@ == decimal(self@ as nat),
    {
        to_decimal(self.0)
    }

    /// Two pids are the same pid exactly where their numbers are.
    pub proof fn law_number_identifies(self, other: Pid)
        ensures
            self@ == other@ <==> self == other,
    {
    }

    /// Pids are ordered as their numbers are.
    pub proof fn law_order_is_that_of_numbers(self, other: Pid)
        ensures
            vstd::std_specs::cmp::PartialOrdSpec::partial_cmp_spec(&self, &other) == Some(
                if self@ < other@ {
                    Ordering::Less
                } else if self@ == other@ {
                    Ordering::Equal
                } else {
                    Ordering::Greater
                },
            ),
    {
    }
}

impl PartialOrd for Pid {
    fn partial_cmp(&self, other: &Self) -> (r: Option<Ordering>) {
        if self.0 < other.0 {
            Some(Ordering::Less)
        } else if self.0 == other.0 {
            Some(Ordering::Equal)
        } else {
            Some(Ordering::Greater)
        }
    }
}

impl vstd::std_specs::cmp::PartialOrdSpecImpl for Pid {
    open spec fn obeys_partial_cmp_spec() -> bool {
        true
    }

    open spec fn partial_cmp_spec(&self, other: &Self) -> Option<Ordering> {
        if self@ < other@ {
            Some(Ordering::Less)
        } else if self@ == other@ {
            Some(Ordering::Equal)
        } else {
            Some(Ordering::Greater)
        }
    }
}

fn digit(d: usize) -> (r: &'static str)
    requires
        d < 10,
    ensures
        r@ == seq![digit_char(d as nat)],
{
    proof {
        reveal_strlit("0");
        reveal_strlit("1");
        reveal_strlit("2");
        reveal_strlit("3");
        reveal_strlit("4");
        reveal_strlit("5");
        reveal_strlit("6");
        reveal_strlit("7");
        reveal_strlit("8");
        reveal_strlit("9");
    }
    match d {
        0 => "0",
        1 => "1",
        2 => "2",
        3 => "3",
        4 => "4",
        5 => "5",
        6 => "6",
        7 => "7",
        8 => "8",
        _ => "9",
    }
}

fn to_decimal(n: usize) -> (r: String)
    ensures
        r@ == decimal(n as nat),
    decreases n,
{
    let mut text = if n < 10 {
        String::new()
    } else {
        to_decimal(n / 10)
    };
    text.append(digit(n % 10));
    assert(text@ =~= decimal(n as nat));
    text
}

} // verus!
