use axerrno::{AxError, LinuxError};
use axvfs::error::VfsError;
use axvfs::ext4::util::{error_of_errno, into_vfs_err, into_vfs_type, InodeType};
use axvfs::types::NodeType;

#[test]
fn codes_of_the_ext4_codec() {
    assert_eq!(into_vfs_err(98), VfsError::AddrInUse);
    assert_eq!(into_vfs_err(17), VfsError::AlreadyExists);
    assert_eq!(into_vfs_err(14), VfsError::BadAddress);
    assert_eq!(into_vfs_err(111), VfsError::ConnectionRefused);
    assert_eq!(into_vfs_err(104), VfsError::ConnectionReset);
    assert_eq!(into_vfs_err(39), VfsError::DirectoryNotEmpty);
    assert_eq!(into_vfs_err(22), VfsError::InvalidData);
    assert_eq!(into_vfs_err(5), VfsError::Io);
    assert_eq!(into_vfs_err(21), VfsError::IsADirectory);
    assert_eq!(into_vfs_err(12), VfsError::NoMemory);
    assert_eq!(into_vfs_err(20), VfsError::NotADirectory);
    assert_eq!(into_vfs_err(107), VfsError::NotConnected);
    assert_eq!(into_vfs_err(2), VfsError::NotFound);
    assert_eq!(into_vfs_err(13), VfsError::PermissionDenied);
    assert_eq!(into_vfs_err(16), VfsError::ResourceBusy);
    assert_eq!(into_vfs_err(28), VfsError::StorageFull);
    assert_eq!(into_vfs_err(38), VfsError::Unsupported);
    assert_eq!(into_vfs_err(11), VfsError::WouldBlock);
}

#[test]
fn other_codes_are_io_errors() {
    for code in [0, -1, -17, 1, 3, 9, 24, 34, 41, 58, 133, 134, 1000, i32::MAX, i32::MIN] {
        assert_eq!(into_vfs_err(code), VfsError::Io);
    }
    assert_eq!(error_of_errno(17), VfsError::AlreadyExists);
    assert_eq!(error_of_errno(1), VfsError::Io);
}

#[test]
fn inode_types_of_the_ext4_codec() {
    assert_eq!(into_vfs_type(InodeType::RegularFile), NodeType::RegularFile);
    assert_eq!(into_vfs_type(InodeType::Directory), NodeType::Directory);
    assert_eq!(into_vfs_type(InodeType::CharacterDevice), NodeType::CharacterDevice);
    assert_eq!(into_vfs_type(InodeType::BlockDevice), NodeType::BlockDevice);
    assert_eq!(into_vfs_type(InodeType::Fifo), NodeType::Fifo);
    assert_eq!(into_vfs_type(InodeType::Socket), NodeType::Socket);
    assert_eq!(into_vfs_type(InodeType::Symlink), NodeType::Symlink);
    assert_eq!(into_vfs_type(InodeType::Unknown), NodeType::Unknown);
}

#[test]
fn error_numbers_of_the_taxonomy() {
    assert_eq!(VfsError::NotFound.errno(), 2);
    assert_eq!(VfsError::AlreadyExists.errno(), 17);
    assert_eq!(VfsError::IsADirectory.errno(), 21);
    assert_eq!(VfsError::NotADirectory.errno(), 20);
    assert_eq!(VfsError::DirectoryNotEmpty.errno(), 39);
    assert_eq!(VfsError::InvalidInput.errno(), 22);
    assert_eq!(VfsError::InvalidData.errno(), 22);
    assert_eq!(VfsError::PermissionDenied.errno(), 13);
    assert_eq!(VfsError::Io.errno(), 5);
    assert_eq!(VfsError::StorageFull.errno(), 28);
    assert_eq!(VfsError::Unsupported.errno(), 38);
    assert_eq!(VfsError::ResourceBusy.errno(), 16);
    assert_eq!(VfsError::BadAddress.errno(), 14);
    assert_eq!(VfsError::WouldBlock.errno(), 11);
    assert_eq!(VfsError::BadFileDescriptor.errno(), 9);
    assert_eq!(VfsError::TooManyOpenFiles.errno(), 24);
    assert_eq!(VfsError::OutOfRange.errno(), 34);
    assert_eq!(VfsError::NameTooLong.errno(), 36);
    assert_eq!(VfsError::NotFound.to_return_code(), -2);
    assert_eq!(VfsError::TooManyOpenFiles.to_return_code(), -24);
}

#[test]
fn error_numbers_agree_with_axerrno() {
    let pairs = [
        (VfsError::AddrInUse, AxError::AddrInUse),
        (VfsError::AlreadyExists, AxError::AlreadyExists),
        (VfsError::BadAddress, AxError::BadAddress),
        (VfsError::BadFileDescriptor, AxError::BadFileDescriptor),
        (VfsError::ConnectionRefused, AxError::ConnectionRefused),
        (VfsError::ConnectionReset, AxError::ConnectionReset),
        (VfsError::DirectoryNotEmpty, AxError::DirectoryNotEmpty),
        (VfsError::InvalidData, AxError::InvalidData),
        (VfsError::InvalidInput, AxError::InvalidInput),
        (VfsError::Io, AxError::Io),
        (VfsError::IsADirectory, AxError::IsADirectory),
        (VfsError::NameTooLong, AxError::NameTooLong),
        (VfsError::NoMemory, AxError::NoMemory),
        (VfsError::NotADirectory, AxError::NotADirectory),
        (VfsError::NotConnected, AxError::NotConnected),
        (VfsError::NotFound, AxError::NotFound),
        (VfsError::OutOfRange, AxError::OutOfRange),
        (VfsError::PermissionDenied, AxError::PermissionDenied),
        (VfsError::ResourceBusy, AxError::ResourceBusy),
        (VfsError::StorageFull, AxError::StorageFull),
        (VfsError::TooManyOpenFiles, AxError::TooManyOpenFiles),
        (VfsError::Unsupported, AxError::Unsupported),
        (VfsError::WouldBlock, AxError::WouldBlock),
    ];
    for (ours, theirs) in pairs {
        assert_eq!(ours.errno(), LinuxError::from(theirs).code());
    }
}
