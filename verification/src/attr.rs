//! Attribute records and the ambient values they are stamped with.

use vstd::prelude::*;

verus! {

/// Nanoseconds in one second.
pub const NSEC_PER_SEC: i32 = 1_000_000_000;

/// Permission bits of a directory.
pub const DIR_PERM: u16 = 0o755;

/// Permission bits of a regular file.
pub const FILE_PERM: u16 = 0o644;

/// Link count carried by every attribute record.
pub const LINK_COUNT: u32 = 2;

/// A point in time: whole seconds since the epoch and the nanoseconds past
/// that second.
#[derive(Clone, Copy, Debug, PartialEq, Eq, Hash)]
pub struct Timespec {
    pub sec: i64,
    pub nsec: i32,
}

impl Timespec {
    /// The nanosecond part lies within one second.
    pub open spec fn wf(self) -> bool {
        0 <= self.nsec < NSEC_PER_SEC
    }
}

/// Kind of a filesystem entry.
#[derive(Clone, Copy, Debug, PartialEq, Eq, Hash, Structural)]
pub enum FileType {
    RegularFile,
    Directory,
}

/// Metadata of one node.
#[derive(Clone, Copy, Debug, PartialEq, Eq, Hash)]
pub struct FileAttr {
    /// Inode number.
    pub ino: u64,
    /// Size in bytes.
    pub size: u64,
    /// Size in blocks.
    pub blocks: u64,
    /// Time of last access.
    pub atime: Timespec,
    /// Time of last modification.
    pub mtime: Timespec,
    /// Time of last change.
    pub ctime: Timespec,
    /// Time of creation.
    pub crtime: Timespec,
    /// Kind of entry.
    pub kind: FileType,
    /// Permission bits.
    pub perm: u16,
    /// Number of hard links.
    pub nlink: u32,
    /// Owning user.
    pub uid: u32,
    /// Owning group.
    pub gid: u32,
    /// Device id.
    pub rdev: u32,
    /// Flags.
    pub flags: u32,
}

/// What the surroundings contribute to a fresh attribute record: the current
/// time and the identity of the running process.
#[derive(Clone, Copy, Debug, PartialEq, Eq, Hash)]
pub struct Context {
    pub now: Timespec,
    pub uid: u32,
    pub gid: u32,
}

/// Permission bits given to an entry of the given kind.
pub open spec fn default_perm(kind: FileType) -> u16 {
    match kind {
        FileType::Directory => DIR_PERM,
        FileType::RegularFile => FILE_PERM,
    }
}

/// The attribute record of an entry that is stamped with `ctx`.
pub open spec fn fresh_attr(ino: u64, size: u64, kind: FileType, ctx: Context) -> FileAttr {
    FileAttr {
        ino,
        size,
        blocks: 0,
        atime: ctx.now,
        mtime: ctx.now,
        ctime: ctx.now,
        crtime: ctx.now,
        kind,
        perm: default_perm(kind),
        nlink: LINK_COUNT,
        uid: ctx.uid,
        gid: ctx.gid,
        rdev: 0,
        flags: 0,
    }
}

impl FileAttr {
    /// The context this record was stamped with, read back from its access
    /// time and owner.
    pub open spec fn context(self) -> Context {
        Context { now: self.atime, uid: self.uid, gid: self.gid }
    }

    /// Builds the attribute record of an entry stamped with `ctx`.
    pub fn stamped(ino: u64, size: u64, kind: FileType, ctx: &Context) -> (attr: FileAttr)
        ensures
            attr == fresh_attr(ino, size, kind, *ctx),
    {
        let perm: u16 = match kind {
            FileType::Directory => DIR_PERM,
            FileType::RegularFile => FILE_PERM,
        };
        FileAttr {
            ino,
            size,
            blocks: 0,
            atime: ctx.now,
            mtime: ctx.now,
            ctime: ctx.now,
            crtime: ctx.now,
            kind,
            perm,
            nlink: LINK_COUNT,
            uid: ctx.uid,
            gid: ctx.gid,
            rdev: 0,
            flags: 0,
        }
    }
}

/// Reads the clock through `time::now` and `Tm::to_timespec` of the `time`
/// crate. Trusted: the nanosecond part of what comes back lies within one
/// second, which `time::Timespec::new` asserts before it returns. Nothing is
/// claimed of the seconds.
#[verifier::external_body]
fn clock_now() -> (t: Timespec)
    ensures
        t.wf(),
{
    let t = time::now().to_timespec();
    Timespec { sec: t.sec, nsec: t.nsec }
}

/// Asks `nix::unistd::getuid` for the real user id of the process. Trusted:
/// nothing is claimed of the id.
#[verifier::external_body]
fn process_uid() -> (uid: u32) {
    nix::unistd::getuid().as_raw()
}

/// Asks `nix::unistd::getgid` for the real group id of the process. Trusted:
/// nothing is claimed of the id.
#[verifier::external_body]
fn process_gid() -> (gid: u32) {
    nix::unistd::getgid().as_raw()
}

impl Context {
    /// The current time and the ids of the running process.
    pub fn current() -> (ctx: Context)
        ensures
            ctx.now.wf(),
    {
        Context { now: clock_now(), uid: process_uid(), gid: process_gid() }
    }
}

/// Builds the attribute record of an entry created now by the running
/// process: the given inode, size and kind, the permission bits of the kind,
/// all four timestamps equal to the current time, and the ids of the process
/// as owner.
pub fn file_create(ino: u64, size: u64, ftype: FileType) -> (attr: FileAttr)
    ensures
        attr == fresh_attr(ino, size, ftype, attr.context()),
        attr.atime.wf(),
{
    let ctx = Context::current();
    FileAttr::stamped(ino, size, ftype, &ctx)
}

} // verus!
