# kernel_process

Processes and threads of a small kernel, with their behaviour stated in contracts and proved
by Verus.

- `elf_format`, `elf_read`, `elf`: what the bytes of an ELF image mean, how they are read, and
  which areas of memory a program and its interpreter are mapped to.
- `loader`: the steps from an inode to an address space that is ready to start. The kernel
  reads files and looks up paths; each of its answers leads to the next step.
- `memory`, `fs`, `abi`, `signal`, `pid`, `kernel`: the values that processes are made of.
- `maps`: searching maps that are keyed by numbers.
- `process`, `table`, `thread`: processes, the table of all processes, and the ways in which
  threads come into being.

`src/` is the verified library. `elf_read` holds all that is believed without proof: what the
`xmas_elf` crate and `core::str::from_utf8` return. `xmas_elf` takes the bytes of a number in
the order of the machine that it runs on, so what is stated of it holds on machines that put
the least significant byte first. Proof functions named `law_..` state what
holds across several functions.

`app/` is the kernel around the library: locks, file access, memory mapping and the switch
between threads, against a `Machine` trait that a kernel implements.
