//! What the ext4 adapter makes of the values of its codec: errors and
//! node types.

use crate::error::VfsError;
use crate::types::NodeType;
use axerrno::LinuxError;
use vstd::prelude::*;

verus! {

/// The type of an inode as the ext4 codec tells it.
#[derive(Clone, Copy, Debug, PartialEq, Eq, Structural)]
pub enum InodeType {
    Unknown,
    Fifo,
    CharacterDevice,
    Directory,
    BlockDevice,
    RegularFile,
    Symlink,
    Socket,
}

/// Whether `code` is an error number that Linux defines: 1 to 133, but
/// for 41 and 58, which are other names of 11 and 35.
pub open spec fn is_linux_errno(code: int) -> bool {
    1 <= code <= 133 && code != 41 && code != 58
}

/// `LinuxError::try_from` of axerrno, and the number of the error that it
/// gives: the code itself where Linux defines it, and nothing otherwise.
#[verifier::external_body]
fn linux_error_code(code: i32) -> (known: Option<i32>)
    ensures
        known == if is_linux_errno(code as int) {
            Some(code)
        } else {
            None::<i32>
        },
{
    LinuxError::try_from(code).ok().map(|e| e.code())
}

/// The file system error that stands for an error number that Linux
/// defines. A number that the taxonomy has no name for is an I/O error.
pub open spec fn spec_error_of_errno(code: i32) -> VfsError {
    if code == crate::error::EADDRINUSE {
        VfsError::AddrInUse
    } else if code == crate::error::EEXIST {
        VfsError::AlreadyExists
    } else if code == crate::error::EFAULT {
        VfsError::BadAddress
    } else if code == crate::error::ECONNREFUSED {
        VfsError::ConnectionRefused
    } else if code == crate::error::ECONNRESET {
        VfsError::ConnectionReset
    } else if code == crate::error::ENOTEMPTY {
        VfsError::DirectoryNotEmpty
    } else if code == crate::error::EINVAL {
        VfsError::InvalidData
    } else if code == crate::error::EIO {
        VfsError::Io
    } else if code == crate::error::EISDIR {
        VfsError::IsADirectory
    } else if code == crate::error::ENOMEM {
        VfsError::NoMemory
    } else if code == crate::error::ENOTDIR {
        VfsError::NotADirectory
    } else if code == crate::error::ENOTCONN {
        VfsError::NotConnected
    } else if code == crate::error::ENOENT {
        VfsError::NotFound
    } else if code == crate::error::EACCES {
        VfsError::PermissionDenied
    } else if code == crate::error::EBUSY {
        VfsError::ResourceBusy
    } else if code == crate::error::ENOSPC {
        VfsError::StorageFull
    } else if code == crate::error::ENOSYS {
        VfsError::Unsupported
    } else if code == crate::error::EAGAIN {
        VfsError::WouldBlock
    } else {
        VfsError::Io
    }
}

/// Returns the file system error that stands for an error number that
/// Linux defines.
pub fn error_of_errno(code: i32) -> (e: VfsError)
    ensures
        e == spec_error_of_errno(code),
{
    if code == crate::error::EADDRINUSE {
        VfsError::AddrInUse
    } else if code == crate::error::EEXIST {
        VfsError::AlreadyExists
    } else if code == crate::error::EFAULT {
        VfsError::BadAddress
    } else if code == crate::error::ECONNREFUSED {
        VfsError::ConnectionRefused
    } else if code == crate::error::ECONNRESET {
        VfsError::ConnectionReset
    } else if code == crate::error::ENOTEMPTY {
        VfsError::DirectoryNotEmpty
    } else if code == crate::error::EINVAL {
        VfsError::InvalidData
    } else if code == crate::error::EIO {
        VfsError::Io
    } else if code == crate::error::EISDIR {
        VfsError::IsADirectory
    } else if code == crate::error::ENOMEM {
        VfsError::NoMemory
    } else if code == crate::error::ENOTDIR {
        VfsError::NotADirectory
    } else if code == crate::error::ENOTCONN {
        VfsError::NotConnected
    } else if code == crate::error::ENOENT {
        VfsError::NotFound
    } else if code == crate::error::EACCES {
        VfsError::PermissionDenied
    } else if code == crate::error::EBUSY {
        VfsError::ResourceBusy
    } else if code == crate::error::ENOSPC {
        VfsError::StorageFull
    } else if code == crate::error::ENOSYS {
        VfsError::Unsupported
    } else if code == crate::error::EAGAIN {
        VfsError::WouldBlock
    } else {
        VfsError::Io
    }
}

/// The file system error that stands for the code of an error of the
/// ext4 codec. A code that is no error number of Linux is an I/O error.
pub open spec fn spec_into_vfs_err(code: i32) -> VfsError {
    if is_linux_errno(code as int) {
        spec_error_of_errno(code)
    } else {
        VfsError::Io
    }
}

/// Returns the file system error that stands for the code of an error
/// of the ext4 codec.
pub fn into_vfs_err(code: i32) -> (e: VfsError)
    ensures
        e == spec_into_vfs_err(code),
{
    match linux_error_code(code) {
        Some(known) => error_of_errno(known),
        None => VfsError::Io,
    }
}

/// The node type that stands for each inode type of the ext4 codec.
pub open spec fn spec_into_vfs_type(ty: InodeType) -> NodeType {
    match ty {
        InodeType::RegularFile => NodeType::RegularFile,
        InodeType::Directory => NodeType::Directory,
        InodeType::CharacterDevice => NodeType::CharacterDevice,
        InodeType::BlockDevice => NodeType::BlockDevice,
        InodeType::Fifo => NodeType::Fifo,
        InodeType::Socket => NodeType::Socket,
        InodeType::Symlink => NodeType::Symlink,
        InodeType::Unknown => NodeType::Unknown,
    }
}

/// Returns the node type that stands for an inode type of the ext4
/// codec.
pub fn into_vfs_type(ty: InodeType) -> (node_type: NodeType)
    ensures
        node_type == spec_into_vfs_type(ty),
{
    match ty {
        InodeType::RegularFile => NodeType::RegularFile,
        InodeType::Directory => NodeType::Directory,
        InodeType::CharacterDevice => NodeType::CharacterDevice,
        InodeType::BlockDevice => NodeType::BlockDevice,
        InodeType::Fifo => NodeType::Fifo,
        InodeType::Socket => NodeType::Socket,
        InodeType::Symlink => NodeType::Symlink,
        InodeType::Unknown => NodeType::Unknown,
    }
}

} // verus!
