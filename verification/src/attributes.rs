//! Attribute records of directories and files.

use vstd::prelude::*;

verus! {

/// The kind of a node.
#[derive(Clone, Copy, Debug, PartialEq, Eq, Structural)]
pub enum FileKind {
    Directory,
    RegularFile,
}

/// What a node reports about itself. The four timestamps are seconds since the epoch.
#[derive(Clone, Copy, Debug, PartialEq, Eq, Structural)]
pub struct FileAttributes {
    pub ino: u64,
    pub size: u64,
    pub blocks: u64,
    pub atime: u64,
    pub mtime: u64,
    pub ctime: u64,
    pub crtime: u64,
    pub kind: FileKind,
    pub perm: u16,
    pub nlink: u32,
    pub uid: u32,
    pub gid: u32,
    pub rdev: u32,
    pub flags: u32,
}

/// Permission bits of every directory: read and search for owner and group.
pub const DIRECTORY_PERMISSIONS: u16 = 0o550;

/// Permission bits of every file: read for owner and group.
pub const FILE_READ_PERMISSIONS: u16 = 0o440;

/// Permission bits added to a writable file.
pub const FILE_WRITE_PERMISSIONS: u16 = 0o220;

/// Permission bits added to an executable file.
pub const FILE_EXECUTE_PERMISSIONS: u16 = 0o110;

/// The permission bits of a file with the given flags.
pub open spec fn file_permissions(executable: bool, writable: bool) -> u16 {
    (FILE_READ_PERMISSIONS + if writable {
        FILE_WRITE_PERMISSIONS as int
    } else {
        0
    } + if executable {
        FILE_EXECUTE_PERMISSIONS as int
    } else {
        0
    }) as u16
}

/// The attribute record of the directory `inode_number` owned by `uid` and `gid`.
pub open spec fn directory_attributes_of(inode_number: u64, uid: u32, gid: u32) -> FileAttributes {
    FileAttributes {
        ino: inode_number,
        size: 0,
        blocks: 0,
        atime: 0,
        mtime: 0,
        ctime: 0,
        crtime: 0,
        kind: FileKind::Directory,
        perm: DIRECTORY_PERMISSIONS,
        nlink: 1,
        uid,
        gid,
        rdev: 0,
        flags: 0,
    }
}

/// The attribute record of the file `inode_number` of `size` bytes owned by `uid` and `gid`.
pub open spec fn file_attributes_of(
    inode_number: u64,
    size: u64,
    executable: bool,
    writable: bool,
    uid: u32,
    gid: u32,
) -> FileAttributes {
    FileAttributes {
        ino: inode_number,
        size,
        blocks: 1,
        atime: 0,
        mtime: 0,
        ctime: 0,
        crtime: 0,
        kind: FileKind::RegularFile,
        perm: file_permissions(executable, writable),
        nlink: 1,
        uid,
        gid,
        rdev: 0,
        flags: 0,
    }
}

/// `users::get_current_uid` returns the user id of the running process; nothing is claimed
/// of its value.
pub assume_specification[ users::get_current_uid ]() -> (uid: u32)
;

/// `users::get_current_gid` returns the group id of the running process; nothing is claimed
/// of its value.
pub assume_specification[ users::get_current_gid ]() -> (gid: u32)
;

/// The attribute record of a directory with a given owner.
pub fn directory_attributes(inode_number: u64, uid: u32, gid: u32) -> (attributes: FileAttributes)
    ensures
        attributes == directory_attributes_of(inode_number, uid, gid),
{
    FileAttributes {
        ino: inode_number,
        size: 0,
        blocks: 0,
        atime: 0,
        mtime: 0,
        ctime: 0,
        crtime: 0,
        kind: FileKind::Directory,
        perm: DIRECTORY_PERMISSIONS,
        nlink: 1,
        uid,
        gid,
        rdev: 0,
        flags: 0,
    }
}

/// The attribute record of a file with a given owner.
pub fn file_attributes(
    inode_number: u64,
    size: u64,
    executable: bool,
    writable: bool,
    uid: u32,
    gid: u32,
) -> (attributes: FileAttributes)
    ensures
        attributes == file_attributes_of(inode_number, size, executable, writable, uid, gid),
{
    let mut permissions: u16 = FILE_READ_PERMISSIONS;
    if writable {
        permissions += FILE_WRITE_PERMISSIONS;
    }
    if executable {
        permissions += FILE_EXECUTE_PERMISSIONS;
    }
    FileAttributes {
        ino: inode_number,
        size,
        blocks: 1,
        atime: 0,
        mtime: 0,
        ctime: 0,
        crtime: 0,
        kind: FileKind::RegularFile,
        perm: permissions,
        nlink: 1,
        uid,
        gid,
        rdev: 0,
        flags: 0,
    }
}

/// The attribute record of a directory owned by the running process.
pub fn create_directory_attributes(inode_number: u64) -> (attributes: FileAttributes)
    ensures
        attributes == directory_attributes_of(inode_number, attributes.uid, attributes.gid),
{
    directory_attributes(inode_number, users::get_current_uid(), users::get_current_gid())
}

/// The attribute record of a file owned by the running process.
pub fn create_file_attributes(
    inode_number: u64,
    size: u64,
    executable: bool,
    writable: bool,
) -> (attributes: FileAttributes)
    ensures
        attributes == file_attributes_of(
            inode_number,
            size,
            executable,
            writable,
            attributes.uid,
            attributes.gid,
        ),
{
    file_attributes(
        inode_number,
        size,
        executable,
        writable,
        users::get_current_uid(),
        users::get_current_gid(),
    )
}

} // verus!
