//! Values that the FAT codec hands out, and what the adapter makes of them:
//! timestamps, metadata and errors.

use crate::error::VfsError;
use crate::strings::str_eq;
use crate::types::{Duration, Metadata, NodePermission, NodeType, DEFAULT_PERMISSION};
use chrono::{DateTime, NaiveDate, TimeZone, Utc};
use std::cmp::Ordering;
use vstd::prelude::*;
use vstd::std_specs::cmp::{PartialEqSpecImpl, PartialOrdSpecImpl};

verus! {

/// A calendar date as a FAT directory entry records it.
#[derive(Clone, Copy, Debug, PartialEq, Eq, Structural)]
pub struct DosDate {
    /// The full year, 1980 to 2107.
    pub year: u16,
    /// The month, 1 to 12.
    pub month: u16,
    /// The day of the month, 1 to 31.
    pub day: u16,
}

/// A time of day as a FAT directory entry records it.
#[derive(Clone, Copy, Debug, PartialEq, Eq, Structural)]
pub struct DosTime {
    /// The hour, 0 to 23.
    pub hour: u16,
    /// The minute, 0 to 59.
    pub min: u16,
    /// The second, 0 to 59.
    pub sec: u16,
    /// The milliseconds, 0 to 999.
    pub millis: u16,
}

/// A date and a time of day as a FAT directory entry records them.
#[derive(Clone, Copy, Debug, PartialEq, Eq, Structural)]
pub struct DosDateTime {
    pub date: DosDate,
    pub time: DosTime,
}

impl DosTime {
    /// Midnight.
    pub open spec fn midnight() -> DosTime {
        DosTime { hour: 0, min: 0, sec: 0, millis: 0 }
    }
}

/// What the FAT codec tells of a file or a directory.
#[derive(Clone, Copy, Debug, PartialEq, Eq, Structural)]
pub struct FatFileInfo {
    /// The size in bytes; a directory has none.
    pub size: Option<u32>,
    /// The day of the last access.
    pub accessed: DosDate,
    /// The time of the last modification.
    pub modified: DosDateTime,
    /// The time of creation.
    pub created: DosDateTime,
}

/// An error of the FAT codec.
#[derive(Clone, Copy, Debug, PartialEq, Eq, Structural)]
pub enum FatError {
    /// The storage below failed.
    Io,
    /// A read met the end of the storage.
    UnexpectedEof,
    /// A write stored nothing.
    WriteZero,
    /// A parameter was not acceptable.
    InvalidInput,
    /// The entry was not found.
    NotFound,
    /// The entry exists already.
    AlreadyExists,
    /// The directory to remove has entries.
    DirectoryIsNotEmpty,
    /// The structures on the volume contradict each other.
    CorruptedFileSystem,
    /// The volume is full.
    NotEnoughSpace,
    /// The name is too long or empty.
    InvalidFileNameLength,
    /// The name holds a character that FAT cannot store.
    UnsupportedFileNameCharacter,
}

/// The time from the Unix epoch to the given UTC date and time of day, in
/// whole seconds and nanoseconds, as chrono computes it: `None` where the
/// date or the time of day does not exist or lies before the epoch.
pub uninterp spec fn utc_since_epoch(
    year: int,
    month: int,
    day: int,
    hour: int,
    min: int,
    sec: int,
    milli: int,
) -> Option<(u64, u32)>;

/// Asks chrono for the time between the Unix epoch and a UTC date and time
/// of day: `NaiveDate::from_ymd_opt`, then `and_hms_milli_opt`, read as UTC
/// with `from_local_datetime`, then `signed_duration_since` the epoch and
/// `to_std`. The contract names the result, which is `None` where one of
/// these calls gives none, and says that the nanoseconds are less than a
/// second, as `Duration::subsec_nanos` of the standard library promises.
#[verifier::external_body]
pub(crate) fn chrono_since_epoch(
    year: i32,
    month: u32,
    day: u32,
    hour: u32,
    min: u32,
    sec: u32,
    milli: u32,
) -> (since: Option<(u64, u32)>)
    ensures
        since == utc_since_epoch(
            year as int,
            month as int,
            day as int,
            hour as int,
            min as int,
            sec as int,
            milli as int,
        ),
        since matches Some((_, nanos)) ==> nanos < crate::types::NANOS_PER_SEC,
{
    let date = NaiveDate::from_ymd_opt(year, month, day)?;
    let time = date.and_hms_milli_opt(hour, min, sec, milli)?;
    let utc = Utc.from_local_datetime(&time).single()?;
    let since = utc.signed_duration_since(DateTime::UNIX_EPOCH).to_std().ok()?;
    Some((since.as_secs(), since.subsec_nanos()))
}

/// The timestamp that stands for a time since the epoch, and the epoch
/// itself where there is none.
pub open spec fn spec_timestamp_or_epoch(since: Option<(u64, u32)>) -> Duration {
    match since {
        Some((secs, nanos)) => Duration { secs, nanos },
        None => Duration::zero(),
    }
}

/// Returns the timestamp that stands for a time since the epoch, and the
/// epoch itself where there is none.
pub fn timestamp_or_epoch(since: Option<(u64, u32)>) -> (stamp: Duration)
    ensures
        stamp == spec_timestamp_or_epoch(since),
        (since matches Some((_, nanos)) ==> nanos < crate::types::NANOS_PER_SEC) ==> stamp.wf(),
{
    match since {
        Some((secs, nanos)) => Duration { secs, nanos },
        None => Duration::default(),
    }
}

/// The Unix timestamp of a FAT date and time, read as UTC.
pub open spec fn spec_dos_to_unix(date: DosDateTime) -> Duration {
    spec_timestamp_or_epoch(
        utc_since_epoch(
            date.date.year as int,
            date.date.month as int,
            date.date.day as int,
            date.time.hour as int,
            date.time.min as int,
            date.time.sec as int,
            date.time.millis as int,
        ),
    )
}

/// Converts a FAT date and time, read as UTC, to a Unix timestamp.
///
/// A date or a time of day that does not exist gives the epoch.
pub fn dos_to_unix(date: DosDateTime) -> (stamp: Duration)
    ensures
        stamp == spec_dos_to_unix(date),
        stamp.wf(),
{
    let since = chrono_since_epoch(
        date.date.year as i32,
        date.date.month as u32,
        date.date.day as u32,
        date.time.hour as u32,
        date.time.min as u32,
        date.time.sec as u32,
        date.time.millis as u32,
    );
    timestamp_or_epoch(since)
}

/// The size of a block of a FAT file, in bytes.
pub const FAT_BLOCK_SIZE: u64 = 512;

/// The metadata of a FAT file or directory.
pub open spec fn spec_file_metadata(file: FatFileInfo, node_type: NodeType) -> Metadata {
    let size: u64 = match file.size {
        Some(size) => size as u64,
        None => 0,
    };
    Metadata {
        inode: 1,
        device: 0,
        nlink: 1,
        mode: NodePermission { bits: DEFAULT_PERMISSION },
        node_type,
        uid: 0,
        gid: 0,
        size,
        block_size: FAT_BLOCK_SIZE,
        blocks: size / FAT_BLOCK_SIZE,
        atime: spec_dos_to_unix(DosDateTime { date: file.accessed, time: DosTime::midnight() }),
        mtime: spec_dos_to_unix(file.modified),
        ctime: spec_dos_to_unix(file.created),
    }
}

/// Makes the metadata of a FAT file or directory from what the codec tells
/// of it.
///
/// FAT records no owner, mode or link count: the mode is the default, the
/// owner is root and there is one link. The block count is the size in
/// whole blocks of 512 bytes, rounded down. The access time has the
/// resolution of a day and is given as midnight of that day.
pub fn file_metadata(file: &FatFileInfo, node_type: NodeType) -> (metadata: Metadata)
    ensures
        metadata == spec_file_metadata(*file, node_type),
        metadata.times_ok(),
{
    let size: u64 = match file.size {
        Some(size) => size as u64,
        None => 0,
    };
    Metadata {
        inode: 1,
        device: 0,
        nlink: 1,
        mode: NodePermission::default(),
        node_type,
        uid: 0,
        gid: 0,
        size,
        block_size: FAT_BLOCK_SIZE,
        blocks: size / FAT_BLOCK_SIZE,
        atime: dos_to_unix(
            DosDateTime {
                date: file.accessed,
                time: DosTime { hour: 0, min: 0, sec: 0, millis: 0 },
            },
        ),
        mtime: dos_to_unix(file.modified),
        ctime: dos_to_unix(file.created),
    }
}

/// The file system error that stands for each error of the FAT codec.
pub open spec fn spec_into_vfs_err(err: FatError) -> VfsError {
    match err {
        FatError::AlreadyExists => VfsError::AlreadyExists,
        FatError::CorruptedFileSystem => VfsError::InvalidData,
        FatError::DirectoryIsNotEmpty => VfsError::DirectoryNotEmpty,
        FatError::InvalidFileNameLength => VfsError::InvalidData,
        FatError::InvalidInput => VfsError::InvalidData,
        FatError::UnsupportedFileNameCharacter => VfsError::InvalidData,
        FatError::NotEnoughSpace => VfsError::StorageFull,
        FatError::NotFound => VfsError::NotFound,
        FatError::UnexpectedEof => VfsError::Io,
        FatError::WriteZero => VfsError::Io,
        FatError::Io => VfsError::Io,
    }
}

/// Returns the file system error that stands for an error of the FAT
/// codec.
pub fn into_vfs_err(err: FatError) -> (e: VfsError)
    ensures
        e == spec_into_vfs_err(err),
{
    match err {
        FatError::AlreadyExists => VfsError::AlreadyExists,
        FatError::CorruptedFileSystem => VfsError::InvalidData,
        FatError::DirectoryIsNotEmpty => VfsError::DirectoryNotEmpty,
        FatError::InvalidFileNameLength => VfsError::InvalidData,
        FatError::InvalidInput | FatError::UnsupportedFileNameCharacter => VfsError::InvalidData,
        FatError::NotEnoughSpace => VfsError::StorageFull,
        FatError::NotFound => VfsError::NotFound,
        FatError::UnexpectedEof | FatError::WriteZero => VfsError::Io,
        _ => VfsError::Io,
    }
}

/// The kind of an I/O error in which the FAT codec tells what went
/// wrong.
#[derive(Clone, Copy, Debug, PartialEq, Eq, Structural)]
pub enum IoKind {
    NotFound,
    AlreadyExists,
    InvalidInput,
    UnexpectedEof,
    WriteZero,
    /// An error that has only its message to tell it by.
    Other,
    /// Any kind that the codec does not use.
    Unlisted,
}

/// The error of the FAT codec that an I/O error of a kind, with a
/// message, stands for. The kind decides, and for errors without a kind
/// of their own the message of the codec.
pub open spec fn spec_sort_error(kind: IoKind, message: Seq<char>) -> FatError {
    match kind {
        IoKind::NotFound => FatError::NotFound,
        IoKind::AlreadyExists => FatError::AlreadyExists,
        IoKind::InvalidInput => FatError::InvalidInput,
        IoKind::UnexpectedEof => FatError::UnexpectedEof,
        IoKind::WriteZero => FatError::WriteZero,
        IoKind::Other => if message == "Directory not empty"@ {
            FatError::DirectoryIsNotEmpty
        } else if message == "No space left on device"@ {
            FatError::NotEnoughSpace
        } else if message == "File name is empty"@ || message == "File name too long"@ {
            FatError::InvalidFileNameLength
        } else if message == "File name contains unsupported characters"@ {
            FatError::UnsupportedFileNameCharacter
        } else {
            FatError::Io
        },
        IoKind::Unlisted => FatError::Io,
    }
}

/// Sorts an I/O error of the FAT codec by its kind and its message.
pub fn sort_error(kind: IoKind, message: &str) -> (e: FatError)
    ensures
        e == spec_sort_error(kind, message@),
{
    match kind {
        IoKind::NotFound => FatError::NotFound,
        IoKind::AlreadyExists => FatError::AlreadyExists,
        IoKind::InvalidInput => FatError::InvalidInput,
        IoKind::UnexpectedEof => FatError::UnexpectedEof,
        IoKind::WriteZero => FatError::WriteZero,
        IoKind::Other => if str_eq(message, "Directory not empty") {
            FatError::DirectoryIsNotEmpty
        } else if str_eq(message, "No space left on device") {
            FatError::NotEnoughSpace
        } else if str_eq(message, "File name is empty") || str_eq(message, "File name too long") {
            FatError::InvalidFileNameLength
        } else if str_eq(message, "File name contains unsupported characters") {
            FatError::UnsupportedFileNameCharacter
        } else {
            FatError::Io
        },
        IoKind::Unlisted => FatError::Io,
    }
}

/// The ASCII lower-case form of a byte.
pub open spec fn lower_byte(b: u8) -> u8 {
    if 65 <= b <= 90 {
        (b + 32) as u8
    } else {
        b
    }
}

/// The ASCII lower-case form of a string of bytes.
pub open spec fn lower_bytes(bytes: Seq<u8>) -> Seq<u8> {
    Seq::new(bytes.len(), |i: int| lower_byte(bytes[i]))
}

/// The number of places, from `from` on, up to which two strings of bytes
/// agree, counted from the start.
pub open spec fn agree_until(a: Seq<u8>, b: Seq<u8>, from: int) -> int
    decreases a.len() - from,
{
    if from < 0 || from >= a.len() || from >= b.len() || a[from] != b[from] {
        from
    } else {
        agree_until(a, b, from + 1)
    }
}

/// The order of two strings of bytes as a dictionary has it: the first
/// place where they differ decides, and a string comes before the strings
/// that it begins.
pub open spec fn lexical_order(a: Seq<u8>, b: Seq<u8>) -> Ordering {
    let k = agree_until(a, b, 0);
    if k >= a.len() {
        if k >= b.len() {
            Ordering::Equal
        } else {
            Ordering::Less
        }
    } else if k >= b.len() {
        Ordering::Greater
    } else if a[k] < b[k] {
        Ordering::Less
    } else {
        Ordering::Greater
    }
}

/// Two strings of bytes agree up to the shorter length, or differ at the
/// place where the agreement ends.
pub proof fn lemma_agree_until(a: Seq<u8>, b: Seq<u8>, from: int)
    requires
        0 <= from <= a.len(),
        from <= b.len(),
    ensures
        from <= agree_until(a, b, from) <= a.len(),
        agree_until(a, b, from) <= b.len(),
        forall|i: int| from <= i < agree_until(a, b, from) ==> a[i] == b[i],
        agree_until(a, b, from) < a.len() && agree_until(a, b, from) < b.len() ==> a[agree_until(
            a,
            b,
            from,
        )] != b[agree_until(a, b, from)],
    decreases a.len() - from,
{
    if from < a.len() && from < b.len() && a[from] == b[from] {
        lemma_agree_until(a, b, from + 1);
    }
}

fn to_lower_byte(b: u8) -> (lower: u8)
    ensures
        lower == lower_byte(b),
{
    if 65 <= b && b <= 90 {
        b + 32
    } else {
        b
    }
}

/// Returns the first place at which the lower-case forms of two strings
/// of bytes differ; the shorter length where there is none.
fn first_difference(a: &[u8], b: &[u8]) -> (k: usize)
    ensures
        k == agree_until(lower_bytes(a@), lower_bytes(b@), 0),
        k <= a@.len(),
        k <= b@.len(),
{
    let mut k: usize = 0;
    while k < a.len() && k < b.len()
        invariant
            k <= a@.len(),
            k <= b@.len(),
            agree_until(lower_bytes(a@), lower_bytes(b@), 0) == agree_until(
                lower_bytes(a@),
                lower_bytes(b@),
                k as int,
            ),
        decreases a@.len() - k,
    {
        if to_lower_byte(a[k]) != to_lower_byte(b[k]) {
            return k;
        }
        k += 1;
    }
    k
}

/// A string that is compared without regard to ASCII case.
#[derive(Clone, Debug)]
pub struct CaseInsensitiveString(pub String);

impl CaseInsensitiveString {
    /// The bytes of the string in ASCII lower case: what is compared.
    pub open spec fn folded(&self) -> Seq<u8> {
        lower_bytes(vstd::utf8::encode_utf8(self.0@))
    }

    /// Compares two strings as a dictionary does, without regard to ASCII
    /// case.
    pub fn cmp(&self, other: &Self) -> (order: Ordering)
        ensures
            order == lexical_order(self.folded(), other.folded()),
    {
        let a = self.0.as_str().as_bytes();
        let b = other.0.as_str().as_bytes();
        let k = first_difference(a, b);
        if k >= a.len() {
            if k >= b.len() {
                Ordering::Equal
            } else {
                Ordering::Less
            }
        } else if k >= b.len() {
            Ordering::Greater
        } else if to_lower_byte(a[k]) < to_lower_byte(b[k]) {
            Ordering::Less
        } else {
            Ordering::Greater
        }
    }
}

impl PartialEq for CaseInsensitiveString {
    fn eq(&self, other: &Self) -> (same: bool) {
        let a = self.0.as_str().as_bytes();
        let b = other.0.as_str().as_bytes();
        let k = first_difference(a, b);
        proof {
            lemma_agree_until(lower_bytes(a@), lower_bytes(b@), 0);
            if k == a@.len() && k == b@.len() {
                assert(lower_bytes(a@) =~= lower_bytes(b@));
            }
        }
        k == a.len() && k == b.len()
    }
}

impl PartialEqSpecImpl for CaseInsensitiveString {
    open spec fn obeys_eq_spec() -> bool {
        true
    }

    open spec fn eq_spec(&self, other: &Self) -> bool {
        self.folded() == other.folded()
    }
}

impl Eq for CaseInsensitiveString {

}

impl PartialOrd for CaseInsensitiveString {
    fn partial_cmp(&self, other: &Self) -> (order: Option<Ordering>) {
        Some(self.cmp(other))
    }
}

impl PartialOrdSpecImpl for CaseInsensitiveString {
    open spec fn obeys_partial_cmp_spec() -> bool {
        true
    }

    open spec fn partial_cmp_spec(&self, other: &Self) -> Option<Ordering> {
        Some(lexical_order(self.folded(), other.folded()))
    }
}

} // verus!
