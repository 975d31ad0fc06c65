pub mod abi;
pub mod elf;
pub mod elf_format;
pub mod elf_laws;
mod elf_read;
pub mod fs;
pub mod kernel;
pub mod loader;
pub mod loader_laws;
pub mod maps;
pub mod memory;
pub mod pid;
pub mod process;
pub mod process_laws;
pub mod signal;
pub mod table;
pub mod table_laws;
pub mod thread;
pub mod thread_laws;
pub mod value_laws;
