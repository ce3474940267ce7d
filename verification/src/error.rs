//! The canonical error taxonomy of the file system, and the POSIX error
//! number that stands for each error at the system-call boundary.

use vstd::prelude::*;

verus! {

/// A backend-neutral file system error.
#[derive(Clone, Copy, Debug, PartialEq, Eq, Structural)]
pub enum VfsError {
    /// An address is already in use.
    AddrInUse,
    /// The entry to create exists already.
    AlreadyExists,
    /// A pointer handed in by the caller is null or unusable.
    BadAddress,
    /// The file descriptor names no open file of the kind asked for.
    BadFileDescriptor,
    /// A connection was refused.
    ConnectionRefused,
    /// A connection was reset.
    ConnectionReset,
    /// A directory to remove or to replace still has entries.
    DirectoryNotEmpty,
    /// Stored data is malformed.
    InvalidData,
    /// An argument is not acceptable: a bad name, a bad rename, bad UTF-8.
    InvalidInput,
    /// The storage below failed.
    Io,
    /// The operation needs a file and met a directory.
    IsADirectory,
    /// A name is longer than the file system allows.
    NameTooLong,
    /// Memory is exhausted.
    NoMemory,
    /// The operation needs a directory and met something else.
    NotADirectory,
    /// An endpoint is not connected.
    NotConnected,
    /// A path or a name is absent.
    NotFound,
    /// A result does not fit the space the caller provided.
    OutOfRange,
    /// The operation is denied by policy or by the backend.
    PermissionDenied,
    /// The object is in use.
    ResourceBusy,
    /// No space, or no identifier, is left.
    StorageFull,
    /// Every file descriptor is taken.
    TooManyOpenFiles,
    /// The backend does not offer the operation.
    Unsupported,
    /// A non-blocking operation found nothing to do.
    WouldBlock,
}

/// The result of a file system operation.
pub type VfsResult<T> = Result<T, VfsError>;

pub const ENOENT: i32 = 2;

pub const EIO: i32 = 5;

pub const EBADF: i32 = 9;

pub const EAGAIN: i32 = 11;

pub const ENOMEM: i32 = 12;

pub const EACCES: i32 = 13;

pub const EFAULT: i32 = 14;

pub const EBUSY: i32 = 16;

pub const EEXIST: i32 = 17;

pub const ENOTDIR: i32 = 20;

pub const EISDIR: i32 = 21;

pub const EINVAL: i32 = 22;

pub const EMFILE: i32 = 24;

pub const ENOSPC: i32 = 28;

pub const ERANGE: i32 = 34;

pub const ENAMETOOLONG: i32 = 36;

pub const ENOSYS: i32 = 38;

pub const ENOTEMPTY: i32 = 39;

pub const EADDRINUSE: i32 = 98;

pub const ECONNRESET: i32 = 104;

pub const ENOTCONN: i32 = 107;

pub const ECONNREFUSED: i32 = 111;

impl VfsError {
    /// The POSIX error number of each error.
    pub open spec fn spec_errno(self) -> i32 {
        match self {
            VfsError::AddrInUse => EADDRINUSE,
            VfsError::AlreadyExists => EEXIST,
            VfsError::BadAddress => EFAULT,
            VfsError::BadFileDescriptor => EBADF,
            VfsError::ConnectionRefused => ECONNREFUSED,
            VfsError::ConnectionReset => ECONNRESET,
            VfsError::DirectoryNotEmpty => ENOTEMPTY,
            VfsError::InvalidData => EINVAL,
            VfsError::InvalidInput => EINVAL,
            VfsError::Io => EIO,
            VfsError::IsADirectory => EISDIR,
            VfsError::NameTooLong => ENAMETOOLONG,
            VfsError::NoMemory => ENOMEM,
            VfsError::NotADirectory => ENOTDIR,
            VfsError::NotConnected => ENOTCONN,
            VfsError::NotFound => ENOENT,
            VfsError::OutOfRange => ERANGE,
            VfsError::PermissionDenied => EACCES,
            VfsError::ResourceBusy => EBUSY,
            VfsError::StorageFull => ENOSPC,
            VfsError::TooManyOpenFiles => EMFILE,
            VfsError::Unsupported => ENOSYS,
            VfsError::WouldBlock => EAGAIN,
        }
    }

    /// Returns the POSIX error number of this error, a positive number.
    #[verifier::when_used_as_spec(spec_errno)]
    pub fn errno(self) -> (e: i32)
        ensures
            e == self.spec_errno(),
            0 < e <= 133,
    {
        match self {
            VfsError::AddrInUse => EADDRINUSE,
            VfsError::AlreadyExists => EEXIST,
            VfsError::BadAddress => EFAULT,
            VfsError::BadFileDescriptor => EBADF,
            VfsError::ConnectionRefused => ECONNREFUSED,
            VfsError::ConnectionReset => ECONNRESET,
            VfsError::DirectoryNotEmpty => ENOTEMPTY,
            VfsError::InvalidData => EINVAL,
            VfsError::InvalidInput => EINVAL,
            VfsError::Io => EIO,
            VfsError::IsADirectory => EISDIR,
            VfsError::NameTooLong => ENAMETOOLONG,
            VfsError::NoMemory => ENOMEM,
            VfsError::NotADirectory => ENOTDIR,
            VfsError::NotConnected => ENOTCONN,
            VfsError::NotFound => ENOENT,
            VfsError::OutOfRange => ERANGE,
            VfsError::PermissionDenied => EACCES,
            VfsError::ResourceBusy => EBUSY,
            VfsError::StorageFull => ENOSPC,
            VfsError::TooManyOpenFiles => EMFILE,
            VfsError::Unsupported => ENOSYS,
            VfsError::WouldBlock => EAGAIN,
        }
    }

    /// Returns what a system call hands back for this error: the negated
    /// error number.
    pub fn to_return_code(self) -> (r: i32)
        ensures
            r == -self.spec_errno(),
            r < 0,
    {
        -self.errno()
    }
}

} // verus!
