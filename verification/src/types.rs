//! Plain values that describe a node: its type, its mode bits, its
//! timestamps and the snapshot that `metadata` returns.

use vstd::prelude::*;

verus! {

/// The type of a file system node.
#[derive(Clone, Copy, Debug, PartialEq, Eq, Structural)]
pub enum NodeType {
    Unknown,
    Fifo,
    CharacterDevice,
    Directory,
    BlockDevice,
    RegularFile,
    Symlink,
    Socket,
}

impl NodeType {
    /// The number of each type as POSIX writes it into the top bits of
    /// `st_mode`.
    pub open spec fn spec_type_bits(self) -> u8 {
        match self {
            NodeType::Unknown => 0,
            NodeType::Fifo => 0o1,
            NodeType::CharacterDevice => 0o2,
            NodeType::Directory => 0o4,
            NodeType::BlockDevice => 0o6,
            NodeType::RegularFile => 0o10,
            NodeType::Symlink => 0o12,
            NodeType::Socket => 0o14,
        }
    }

    /// Returns the POSIX number of this type.
    #[verifier::when_used_as_spec(spec_type_bits)]
    pub fn type_bits(self) -> (bits: u8)
        ensures
            bits == self.spec_type_bits(),
            bits <= 0o14,
    {
        match self {
            NodeType::Unknown => 0,
            NodeType::Fifo => 0o1,
            NodeType::CharacterDevice => 0o2,
            NodeType::Directory => 0o4,
            NodeType::BlockDevice => 0o6,
            NodeType::RegularFile => 0o10,
            NodeType::Symlink => 0o12,
            NodeType::Socket => 0o14,
        }
    }

    /// Returns the type that a POSIX number stands for; a number that
    /// stands for none gives `Unknown`.
    pub fn from_type_bits(bits: u8) -> (ty: NodeType)
        ensures
            ty.spec_type_bits() == bits || ty == NodeType::Unknown,
            forall|t: NodeType| t.spec_type_bits() == bits ==> ty == t,
    {
        if bits == 0o1 {
            NodeType::Fifo
        } else if bits == 0o2 {
            NodeType::CharacterDevice
        } else if bits == 0o4 {
            NodeType::Directory
        } else if bits == 0o6 {
            NodeType::BlockDevice
        } else if bits == 0o10 {
            NodeType::RegularFile
        } else if bits == 0o12 {
            NodeType::Symlink
        } else if bits == 0o14 {
            NodeType::Socket
        } else {
            NodeType::Unknown
        }
    }
}

/// The twelve mode bits of a node: read, write and execute for owner, group
/// and others, and set-uid, set-gid and sticky.
#[derive(Clone, Copy, Debug, PartialEq, Eq, Structural)]
pub struct NodePermission {
    pub bits: u16,
}

/// The mask of the twelve mode bits.
pub const PERMISSION_MASK: u16 = 0o7777;

/// The mode of a node created without one: read and write for everybody.
pub const DEFAULT_PERMISSION: u16 = 0o666;

impl NodePermission {
    /// Makes a mode from raw bits, dropping every bit that is no mode bit.
    pub fn from_bits_truncate(bits: u16) -> (mode: NodePermission)
        ensures
            mode.bits == bits & PERMISSION_MASK,
            mode.bits <= PERMISSION_MASK,
    {
        assert(bits & 0o7777 <= 0o7777) by (bit_vector);
        NodePermission { bits: bits & PERMISSION_MASK }
    }

    /// Returns the raw bits.
    pub fn bits(&self) -> (bits: u16)
        ensures
            bits == self.bits,
    {
        self.bits
    }
}

impl Default for NodePermission {
    fn default() -> (mode: NodePermission)
        ensures
            mode.bits == DEFAULT_PERMISSION,
    {
        NodePermission { bits: DEFAULT_PERMISSION }
    }
}

/// A span of time in whole seconds and nanoseconds; as a timestamp, the time
/// since the Unix epoch.
#[derive(Clone, Copy, Debug, PartialEq, Eq, Structural)]
pub struct Duration {
    pub secs: u64,
    pub nanos: u32,
}

/// The nanoseconds in a second.
pub const NANOS_PER_SEC: u32 = 1_000_000_000;

impl Duration {
    /// The span of no time, and the epoch itself.
    pub open spec fn zero() -> Duration {
        Duration { secs: 0, nanos: 0 }
    }

    /// Whether the nanoseconds are less than a second.
    pub open spec fn wf(self) -> bool {
        self.nanos < NANOS_PER_SEC
    }

    /// Makes a span of `secs` seconds and `nanos` nanoseconds. Whole
    /// seconds among the nanoseconds are carried over; the seconds must
    /// have room for them.
    pub fn new(secs: u64, nanos: u32) -> (d: Duration)
        requires
            secs + nanos / NANOS_PER_SEC <= u64::MAX,
        ensures
            d.secs == secs + nanos / NANOS_PER_SEC,
            d.nanos == nanos % NANOS_PER_SEC,
            d.wf(),
    {
        Duration { secs: secs + (nanos / NANOS_PER_SEC) as u64, nanos: nanos % NANOS_PER_SEC }
    }

    /// Returns the whole seconds.
    pub fn as_secs(&self) -> (secs: u64)
        ensures
            secs == self.secs,
    {
        self.secs
    }

    /// Returns the nanoseconds beyond the whole seconds.
    pub fn subsec_nanos(&self) -> (nanos: u32)
        ensures
            nanos == self.nanos,
    {
        self.nanos
    }
}

impl Default for Duration {
    fn default() -> (d: Duration)
        ensures
            d == Duration::zero(),
            d.wf(),
    {
        Duration { secs: 0, nanos: 0 }
    }
}

/// What is known of a node at one moment.
#[derive(Clone, Copy, Debug, PartialEq, Eq, Structural)]
pub struct Metadata {
    /// The device that holds the node.
    pub device: u64,
    /// The inode number.
    pub inode: u64,
    /// The number of names that the node has.
    pub nlink: u64,
    /// The mode bits.
    pub mode: NodePermission,
    /// The type of the node.
    pub node_type: NodeType,
    /// The owning user.
    pub uid: u32,
    /// The owning group.
    pub gid: u32,
    /// The size in bytes.
    pub size: u64,
    /// The preferred block size for I/O.
    pub block_size: u64,
    /// The number of 512-byte blocks.
    pub blocks: u64,
    /// The time of the last access.
    pub atime: Duration,
    /// The time of the last modification.
    pub mtime: Duration,
    /// The time of the last status change.
    pub ctime: Duration,
}

impl Metadata {
    /// Whether each of the three timestamps has less than a second of
    /// nanoseconds.
    pub open spec fn times_ok(self) -> bool {
        self.atime.wf() && self.mtime.wf() && self.ctime.wf()
    }
}

} // verus!
