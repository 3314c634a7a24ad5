//! Kinds of directory entries, and the classification of an entry from what
//! the file system reported of it.

use vstd::prelude::*;

verus! {

/// The permission bits that let the owner, the group or anyone else execute a
/// file.
pub const EXECUTE_BITS: u32 = 0o111;

/// What a directory entry is. The kinds are ordered as they are declared:
/// directories first, unknown entries last.
#[derive(Debug, Clone, Copy, PartialEq, Eq, Structural, PartialOrd, Ord, Hash)]
pub enum Kind {
    Directory,
    File,
    Executable,
    Symlink,
    Unknown,
}

/// The type of a file as the file system names it.
#[derive(Debug, Clone, Copy, PartialEq, Eq, Structural)]
pub enum FileType {
    Regular,
    Directory,
    Symlink,
    Other,
}

/// A point in time: seconds since the epoch, and the nanoseconds past that
/// second.
#[derive(Debug, Clone, Copy, PartialEq, Eq, Structural)]
pub struct Timestamp {
    pub secs: i64,
    pub nanos: u32,
}

/// What the file system reported of one entry. `mode` holds the permission
/// bits where the platform has them.
#[derive(Debug, Clone, Copy, PartialEq, Eq, Structural)]
pub struct Metadata {
    pub file_type: FileType,
    pub mode: Option<u32>,
    pub len: usize,
    pub created: Option<Timestamp>,
    pub modified: Option<Timestamp>,
    pub accessed: Option<Timestamp>,
}

/// The kind of an entry together with the metadata that the listing keeps.
#[derive(Debug, Clone, Copy, PartialEq, Eq, Structural)]
pub struct Classification {
    pub kind: Kind,
    pub mode: Option<u32>,
    pub size_bytes: Option<usize>,
    pub created_at: Option<Timestamp>,
    pub modified_at: Option<Timestamp>,
    pub accessed_at: Option<Timestamp>,
}

impl Kind {
    /// The place of a kind in the order of kinds.
    pub open spec fn rank(self) -> int {
        match self {
            Kind::Directory => 0,
            Kind::File => 1,
            Kind::Executable => 2,
            Kind::Symlink => 3,
            Kind::Unknown => 4,
        }
    }

    /// The place of a kind in the order of kinds.
    pub fn position(&self) -> (place: u8)
        ensures
            place == self.rank(),
    {
        match self {
            Kind::Directory => 0,
            Kind::File => 1,
            Kind::Executable => 2,
            Kind::Symlink => 3,
            Kind::Unknown => 4,
        }
    }

    pub fn is_directory(&self) -> (yes: bool)
        ensures
            yes == (*self == Kind::Directory),
    {
        match self {
            Kind::Directory => true,
            _ => false,
        }
    }
}

/// The nanoseconds of one second.
pub const NANOS_PER_SEC: u32 = 1_000_000_000;

impl Timestamp {
    /// The point in time in nanoseconds since the epoch.
    pub open spec fn instant(self) -> int {
        self.secs * 1_000_000_000 + self.nanos
    }

    /// The nanoseconds lie within one second.
    pub open spec fn wf(self) -> bool {
        self.nanos < 1_000_000_000
    }

    /// `self` stands before `other` in the order of timestamps: by seconds,
    /// then by nanoseconds.
    pub open spec fn precedes(self, other: Timestamp) -> bool {
        self.secs < other.secs || (self.secs == other.secs && self.nanos <= other.nanos)
    }
}

/// The timestamp of a point in time that lies `secs` seconds and `nanos`
/// nanoseconds away from the epoch, before it or behind it. There is none
/// where the nanoseconds do not lie within one second or the seconds are
/// beyond what a timestamp holds.
///
/// A point before the epoch is counted from the second at or before it: one
/// and a half seconds before the epoch are second -2 and half a second.
pub open spec fn stamp_of(before_epoch: bool, secs: u64, nanos: u32) -> Option<Timestamp> {
    if nanos >= 1_000_000_000 || secs > i64::MAX {
        None
    } else if !before_epoch {
        Some(Timestamp { secs: secs as i64, nanos })
    } else if nanos == 0 {
        Some(Timestamp { secs: (-(secs as int)) as i64, nanos: 0 })
    } else {
        Some(Timestamp { secs: (-(secs as int) - 1) as i64, nanos: (1_000_000_000 - nanos) as u32 })
    }
}

/// The timestamp of a point in time that lies `secs` seconds and `nanos`
/// nanoseconds away from the epoch.
pub fn timestamp_of(before_epoch: bool, secs: u64, nanos: u32) -> (stamp: Option<Timestamp>)
    ensures
        stamp == stamp_of(before_epoch, secs, nanos),
{
    if nanos >= NANOS_PER_SEC || secs > 0x7fff_ffff_ffff_ffff {
        return None;
    }
    let whole = secs as i64;
    if !before_epoch {
        Some(Timestamp { secs: whole, nanos })
    } else if nanos == 0 {
        Some(Timestamp { secs: -whole, nanos: 0 })
    } else {
        Some(Timestamp { secs: -whole - 1, nanos: NANOS_PER_SEC - nanos })
    }
}

/// A timestamp that is made is well formed and stands for the point in time
/// that was given: as far behind the epoch, or as far before it.
pub proof fn lemma_stamp_is_the_instant(before_epoch: bool, secs: u64, nanos: u32)
    requires
        stamp_of(before_epoch, secs, nanos) is Some,
    ensures
        stamp_of(before_epoch, secs, nanos)->0.wf(),
        stamp_of(before_epoch, secs, nanos)->0.instant() == if before_epoch {
            -(secs * 1_000_000_000 + nanos)
        } else {
            secs * 1_000_000_000 + nanos
        },
{
}

/// Well-formed timestamps stand in the order of the points in time that they
/// stand for.
pub proof fn lemma_stamps_order_as_instants(left: Timestamp, right: Timestamp)
    requires
        left.wf(),
        right.wf(),
    ensures
        left.precedes(right) <==> left.instant() <= right.instant(),
{
}

/// A mode with at least one execute bit set.
pub open spec fn has_execute_bit(mode: u32) -> bool {
    mode & 0o111 != 0
}

/// The kind of an entry of type `file_type` whose permission bits are `mode`.
/// A regular file is an executable where some execute bit is set; without
/// permission bits it is a plain file. What is neither a regular file, a
/// directory nor a symbolic link is unknown.
pub open spec fn kind_of(mode: Option<u32>, file_type: FileType) -> Kind {
    match file_type {
        FileType::Regular => match mode {
            Some(bits) => if has_execute_bit(bits) {
                Kind::Executable
            } else {
                Kind::File
            },
            None => Kind::File,
        },
        FileType::Directory => Kind::Directory,
        FileType::Symlink => Kind::Symlink,
        FileType::Other => Kind::Unknown,
    }
}

/// The classification of an entry whose metadata could not be read.
pub open spec fn unreadable() -> Classification {
    Classification {
        kind: Kind::Unknown,
        mode: None,
        size_bytes: None,
        created_at: None,
        modified_at: None,
        accessed_at: None,
    }
}

/// The classification of an entry from its metadata, where it could be read.
pub open spec fn classified(metadata: Option<Metadata>) -> Classification {
    match metadata {
        Some(read) => Classification {
            kind: kind_of(read.mode, read.file_type),
            mode: read.mode,
            size_bytes: Some(read.len),
            created_at: read.created,
            modified_at: read.modified,
            accessed_at: read.accessed,
        },
        None => unreadable(),
    }
}

pub fn make_kind(mode: Option<u32>, file_type: FileType) -> (kind: Kind)
    ensures
        kind == kind_of(mode, file_type),
{
    match file_type {
        FileType::Regular => match mode {
            Some(bits) => if bits & EXECUTE_BITS != 0 {
                Kind::Executable
            } else {
                Kind::File
            },
            None => Kind::File,
        },
        FileType::Directory => Kind::Directory,
        FileType::Symlink => Kind::Symlink,
        FileType::Other => Kind::Unknown,
    }
}

/// Classifies an entry from its metadata. An entry whose metadata could not
/// be read is unknown and carries no metadata; nothing else is lost.
pub fn classify(metadata: Option<Metadata>) -> (outcome: Classification)
    ensures
        outcome == classified(metadata),
        metadata is None ==> outcome == unreadable(),
        metadata is Some ==> outcome.size_bytes is Some,
{
    match metadata {
        Some(read) => Classification {
            kind: make_kind(read.mode, read.file_type),
            mode: read.mode,
            size_bytes: Some(read.len),
            created_at: read.created,
            modified_at: read.modified,
            accessed_at: read.accessed,
        },
        None => Classification {
            kind: Kind::Unknown,
            mode: None,
            size_bytes: None,
            created_at: None,
            modified_at: None,
            accessed_at: None,
        },
    }
}

/// Only a regular file can be an executable, and only with permission bits.
pub proof fn lemma_executable_needs_execute_bit(mode: Option<u32>, file_type: FileType)
    ensures
        kind_of(mode, file_type) == Kind::Executable <==> file_type == FileType::Regular
            && mode is Some && has_execute_bit(mode->0),
{
}

} // verus!
