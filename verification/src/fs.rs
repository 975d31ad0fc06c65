//! Open files, as a process holds them.
use vstd::prelude::*;

verus! {

/// An inode of the kernel's file systems.
#[derive(Clone, Copy, Debug, PartialEq, Eq, Structural)]
pub enum INodeRef {
    /// The console, to read from.
    Stdin,
    /// The console, to write to.
    Stdout,
    /// The inode that the kernel finds by this number.
    Node(usize),
}

/// How a file was opened.
#[derive(Clone, Copy, Debug, PartialEq, Eq, Structural)]
pub struct OpenOptions {
    pub read: bool,
    pub write: bool,
    pub append: bool,
    pub nonblock: bool,
}

/// An open inode.
#[derive(Debug)]
pub struct FileHandle {
    /// The open file description, as the kernel finds it by this number. Handles with the same
    /// number share one description: its position in the file, and how it was opened.
    pub description: usize,
    pub inode: INodeRef,
    pub options: OpenOptions,
    pub path: String,
    pub pipe: bool,
    pub fd_cloexec: bool,
}

impl FileHandle {
    /// Opens an inode. `description` is a description that the kernel made for it.
    pub fn new(
        description: usize,
        inode: INodeRef,
        options: OpenOptions,
        path: String,
        pipe: bool,
        fd_cloexec: bool,
    ) -> (r: Self)
        ensures
            r == (FileHandle { description, inode, options, path, pipe, fd_cloexec }),
    {
        FileHandle { description, inode, options, path, pipe, fd_cloexec }
    }
}

impl Clone for FileHandle {
    /// Another handle of the same open file description.
    fn clone(&self) -> (r: Self)
        ensures
            r == *self,
    {
        FileHandle {
            description: self.description,
            inode: self.inode,
            options: self.options,
            path: self.path.clone(),
            pipe: self.pipe,
            fd_cloexec: self.fd_cloexec,
        }
    }
}

/// What a file descriptor stands for.
#[derive(Debug)]
pub enum FileLike {
    /// An open inode.
    File(FileHandle),
    /// Anything else that can be read from and written to: what the kernel finds by this
    /// number.
    Other(usize),
}

impl Clone for FileLike {
    fn clone(&self) -> (r: Self)
        ensures
            r == *self,
    {
        match self {
            FileLike::File(file) => FileLike::File(file.clone()),
            FileLike::Other(number) => FileLike::Other(*number),
        }
    }
}

} // verus!
