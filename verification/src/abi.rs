//! What a program finds on its stack when it starts.
use std::collections::BTreeMap;
use vstd::prelude::*;

verus! {

/// The address of the program header table.
pub const AT_PHDR: u8 = 3;

/// The size of a program header.
pub const AT_PHENT: u8 = 4;

/// The number of program headers.
pub const AT_PHNUM: u8 = 5;

/// The size of a page.
pub const AT_PAGESZ: u8 = 6;

/// The address that the interpreter was moved by.
pub const AT_BASE: u8 = 7;

/// The address that the program itself starts at.
pub const AT_ENTRY: u8 = 9;

/// The arguments, the environment and the auxiliary vector of a program.
#[derive(Debug)]
pub struct ProcInitInfo {
    pub args: Vec<String>,
    pub envs: Vec<String>,
    pub auxv: BTreeMap<u8, usize>,
}

} // verus!
