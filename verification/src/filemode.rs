//! Conversion from POSIX `mode_t` values to the file-mode bitset that the
//! file-sync wire format carries.

use vstd::prelude::*;

verus! {

/// Mask of the file-type bits of a POSIX mode.
pub const S_IFMT: u32 = 0o170000;

/// POSIX file type: directory.
pub const S_IFDIR: u32 = 0o040000;

/// POSIX file type: regular file.
pub const S_IFREG: u32 = 0o100000;

/// POSIX file type: symbolic link.
pub const S_IFLNK: u32 = 0o120000;

/// POSIX file type: named pipe.
pub const S_IFIFO: u32 = 0o010000;

/// POSIX file type: socket.
pub const S_IFSOCK: u32 = 0o140000;

/// POSIX file type: character device.
pub const S_IFCHR: u32 = 0o020000;

/// POSIX file type: block device.
pub const S_IFBLK: u32 = 0o060000;

/// POSIX set-user-id bit.
pub const S_ISUID: u32 = 0o4000;

/// POSIX set-group-id bit.
pub const S_ISGID: u32 = 0o2000;

/// POSIX sticky bit.
pub const S_ISVTX: u32 = 0o1000;

/// The nine permission bits, shared by both formats.
pub const PERMISSION_MASK: u32 = 0o777;

/// External bit 31: directory.
pub const GO_MODE_DIR: u32 = 0x80000000;

/// External bit 27: symbolic link.
pub const GO_MODE_SYMLINK: u32 = 0x08000000;

/// External bit 26: device file.
pub const GO_MODE_DEVICE: u32 = 0x04000000;

/// External bit 25: named pipe.
pub const GO_MODE_NAMED_PIPE: u32 = 0x02000000;

/// External bit 24: socket.
pub const GO_MODE_SOCKET: u32 = 0x01000000;

/// External bit 23: set-user-id.
pub const GO_MODE_SETUID: u32 = 0x00800000;

/// External bit 22: set-group-id.
pub const GO_MODE_SETGID: u32 = 0x00400000;

/// External bit 21: character device.
pub const GO_MODE_CHAR_DEVICE: u32 = 0x00200000;

/// External bit 20: sticky.
pub const GO_MODE_STICKY: u32 = 0x00100000;

/// Every external bit that marks a file type.
pub const GO_MODE_TYPE_MASK: u32 = 0x8f200000;

/// The external type bits that stand for a POSIX file type, given as the
/// mode already masked with `S_IFMT`. Regular files and unknown types have
/// none.
pub open spec fn type_bits(file_type: u32) -> u32 {
    if file_type == S_IFDIR {
        GO_MODE_DIR
    } else if file_type == S_IFLNK {
        GO_MODE_SYMLINK
    } else if file_type == S_IFIFO {
        GO_MODE_NAMED_PIPE
    } else if file_type == S_IFSOCK {
        GO_MODE_SOCKET
    } else if file_type == S_IFCHR {
        GO_MODE_CHAR_DEVICE | GO_MODE_DEVICE
    } else if file_type == S_IFBLK {
        GO_MODE_DEVICE
    } else {
        0
    }
}

/// The external bits that stand for the set-user-id, set-group-id and sticky
/// bits of a POSIX mode.
pub open spec fn special_bits(mode: u32) -> u32 {
    (if mode & S_ISUID != 0 { GO_MODE_SETUID } else { 0 })
        | (if mode & S_ISGID != 0 { GO_MODE_SETGID } else { 0 })
        | (if mode & S_ISVTX != 0 { GO_MODE_STICKY } else { 0 })
}

/// The external file mode of a POSIX mode: its nine permission bits, its
/// special bits moved to their external positions, and the bits of its type.
pub open spec fn go_mode_of(mode: u32) -> u32 {
    (mode & PERMISSION_MASK) | special_bits(mode) | type_bits(mode & S_IFMT)
}

/// The nine permission bits pass through unchanged.
pub proof fn lemma_permission_bits_kept(mode: u32)
    ensures
        go_mode_of(mode) & PERMISSION_MASK == mode & PERMISSION_MASK,
{
    let g = go_mode_of(mode);
    let s = special_bits(mode);
    let t = type_bits(mode & S_IFMT);
    lemma_special_bits_range(mode);
    assert(g & 0o777u32 == mode & 0o777u32) by (bit_vector)
        requires
            g == (mode & 0o777u32) | s | t,
            s & 0xff2fffffu32 == 0,
            t & 0x70dfffffu32 == 0,
    ;
}

/// The set-user-id, set-group-id and sticky bits are set in the external
/// mode exactly when they are set in the POSIX mode.
pub proof fn lemma_special_bits_mapped(mode: u32)
    ensures
        (go_mode_of(mode) & GO_MODE_SETUID != 0) <==> (mode & S_ISUID != 0),
        (go_mode_of(mode) & GO_MODE_SETGID != 0) <==> (mode & S_ISGID != 0),
        (go_mode_of(mode) & GO_MODE_STICKY != 0) <==> (mode & S_ISVTX != 0),
{
    let g = go_mode_of(mode);
    let su: u32 = if mode & S_ISUID != 0 { GO_MODE_SETUID } else { 0 };
    let sg: u32 = if mode & S_ISGID != 0 { GO_MODE_SETGID } else { 0 };
    let st: u32 = if mode & S_ISVTX != 0 { GO_MODE_STICKY } else { 0 };
    let t = type_bits(mode & S_IFMT);
    lemma_special_bits_range(mode);
    assert(g & 0x00800000u32 == su && g & 0x00400000u32 == sg && g & 0x00100000u32 == st)
        by (bit_vector)
        requires
            g == (mode & 0o777u32) | (su | sg | st) | t,
            su == 0 || su == 0x00800000u32,
            sg == 0 || sg == 0x00400000u32,
            st == 0 || st == 0x00100000u32,
            t & 0x70dfffffu32 == 0,
    ;
}

/// The type bits of the external mode are those that the table gives for
/// the POSIX file type, and no others.
pub proof fn lemma_type_bits_mapped(mode: u32)
    ensures
        go_mode_of(mode) & GO_MODE_TYPE_MASK == type_bits(mode & S_IFMT),
        (go_mode_of(mode) & GO_MODE_DIR != 0) <==> (mode & S_IFMT == S_IFDIR),
        (go_mode_of(mode) & GO_MODE_SYMLINK != 0) <==> (mode & S_IFMT == S_IFLNK),
        (go_mode_of(mode) & GO_MODE_NAMED_PIPE != 0) <==> (mode & S_IFMT == S_IFIFO),
        (go_mode_of(mode) & GO_MODE_SOCKET != 0) <==> (mode & S_IFMT == S_IFSOCK),
        (go_mode_of(mode) & GO_MODE_CHAR_DEVICE != 0) <==> (mode & S_IFMT == S_IFCHR),
        (go_mode_of(mode) & GO_MODE_DEVICE != 0) <==> (mode & S_IFMT == S_IFCHR || mode & S_IFMT
            == S_IFBLK),
{
    let g = go_mode_of(mode);
    let s = special_bits(mode);
    let t = type_bits(mode & S_IFMT);
    lemma_special_bits_range(mode);
    assert(g & 0x8f200000u32 == t) by (bit_vector)
        requires
            g == (mode & 0o777u32) | s | t,
            s & 0xff2fffffu32 == 0,
            t & 0x70dfffffu32 == 0,
    ;
    assert(g & 0x80000000u32 == t & 0x80000000u32 && g & 0x08000000u32 == t & 0x08000000u32 && g
        & 0x04000000u32 == t & 0x04000000u32 && g & 0x02000000u32 == t & 0x02000000u32 && g
        & 0x01000000u32 == t & 0x01000000u32 && g & 0x00200000u32 == t & 0x00200000u32)
        by (bit_vector)
        requires
            g & 0x8f200000u32 == t,
    ;
    assert(0x80000000u32 & 0x80000000u32 != 0 && 0x08000000u32 & 0x80000000u32 == 0 && 0x02000000u32
        & 0x80000000u32 == 0 && 0x01000000u32 & 0x80000000u32 == 0 && (0x00200000u32
        | 0x04000000u32) & 0x80000000u32 == 0 && 0x04000000u32 & 0x80000000u32 == 0 && 0u32
        & 0x80000000u32 == 0) by (bit_vector);
    assert(0x80000000u32 & 0x08000000u32 == 0 && 0x08000000u32 & 0x08000000u32 != 0 && 0x02000000u32
        & 0x08000000u32 == 0 && 0x01000000u32 & 0x08000000u32 == 0 && (0x00200000u32
        | 0x04000000u32) & 0x08000000u32 == 0 && 0x04000000u32 & 0x08000000u32 == 0 && 0u32
        & 0x08000000u32 == 0) by (bit_vector);
    assert(0x80000000u32 & 0x04000000u32 == 0 && 0x08000000u32 & 0x04000000u32 == 0 && 0x02000000u32
        & 0x04000000u32 == 0 && 0x01000000u32 & 0x04000000u32 == 0 && (0x00200000u32
        | 0x04000000u32) & 0x04000000u32 != 0 && 0x04000000u32 & 0x04000000u32 != 0 && 0u32
        & 0x04000000u32 == 0) by (bit_vector);
    assert(0x80000000u32 & 0x02000000u32 == 0 && 0x08000000u32 & 0x02000000u32 == 0 && 0x02000000u32
        & 0x02000000u32 != 0 && 0x01000000u32 & 0x02000000u32 == 0 && (0x00200000u32
        | 0x04000000u32) & 0x02000000u32 == 0 && 0x04000000u32 & 0x02000000u32 == 0 && 0u32
        & 0x02000000u32 == 0) by (bit_vector);
    assert(0x80000000u32 & 0x01000000u32 == 0 && 0x08000000u32 & 0x01000000u32 == 0 && 0x02000000u32
        & 0x01000000u32 == 0 && 0x01000000u32 & 0x01000000u32 != 0 && (0x00200000u32
        | 0x04000000u32) & 0x01000000u32 == 0 && 0x04000000u32 & 0x01000000u32 == 0 && 0u32
        & 0x01000000u32 == 0) by (bit_vector);
    assert(0x80000000u32 & 0x00200000u32 == 0 && 0x08000000u32 & 0x00200000u32 == 0 && 0x02000000u32
        & 0x00200000u32 == 0 && 0x01000000u32 & 0x00200000u32 == 0 && (0x00200000u32
        | 0x04000000u32) & 0x00200000u32 != 0 && 0x04000000u32 & 0x00200000u32 == 0 && 0u32
        & 0x00200000u32 == 0) by (bit_vector);
}

/// A regular file carries no type bit.
pub proof fn lemma_regular_file_has_no_type_bit(mode: u32)
    requires
        mode & S_IFMT == S_IFREG,
    ensures
        go_mode_of(mode) & GO_MODE_TYPE_MASK == 0,
{
    lemma_type_bits_mapped(mode);
}

/// The external mode holds no bit beyond the permission, special and type
/// bits.
pub proof fn lemma_no_other_bits(mode: u32)
    ensures
        go_mode_of(mode) & !(PERMISSION_MASK | GO_MODE_SETUID | GO_MODE_SETGID | GO_MODE_STICKY
            | GO_MODE_TYPE_MASK) == 0,
{
    let g = go_mode_of(mode);
    let s = special_bits(mode);
    let t = type_bits(mode & S_IFMT);
    lemma_special_bits_range(mode);
    assert(g & !(0o777u32 | 0x00800000u32 | 0x00400000u32 | 0x00100000u32 | 0x8f200000u32) == 0)
        by (bit_vector)
        requires
            g == (mode & 0o777u32) | s | t,
            s & 0xff2fffffu32 == 0,
            t & 0x70dfffffu32 == 0,
    ;
}

/// The special bits lie within bits 20, 22 and 23, and the type bits within
/// the type mask.
proof fn lemma_special_bits_range(mode: u32)
    ensures
        special_bits(mode) & 0xff2fffffu32 == 0,
        type_bits(mode & S_IFMT) & 0x70dfffffu32 == 0,
{
    let su: u32 = if mode & S_ISUID != 0 { GO_MODE_SETUID } else { 0 };
    let sg: u32 = if mode & S_ISGID != 0 { GO_MODE_SETGID } else { 0 };
    let st: u32 = if mode & S_ISVTX != 0 { GO_MODE_STICKY } else { 0 };
    assert((su | sg | st) & 0xff2fffffu32 == 0) by (bit_vector)
        requires
            su == 0 || su == 0x00800000u32,
            sg == 0 || sg == 0x00400000u32,
            st == 0 || st == 0x00100000u32,
    ;
    let t = type_bits(mode & S_IFMT);
    assert(t & 0x70dfffffu32 == 0) by (bit_vector)
        requires
            t == 0 || t == 0x80000000u32 || t == 0x08000000u32 || t == 0x02000000u32 || t
                == 0x01000000u32 || t == (0x00200000u32 | 0x04000000u32) || t == 0x04000000u32,
    ;
}

/// A POSIX `mode_t` value: permissions in the low twelve bits, the file type
/// under `S_IFMT`.
#[derive(Debug, Clone, Copy, PartialEq, Eq, Hash)]
pub struct UnixMode(pub u32);

impl UnixMode {
    /// Wraps a raw mode.
    #[inline]
    pub fn new(mode: u32) -> (r: Self)
        ensures
            r.0 == mode,
    {
        UnixMode(mode)
    }

    /// The raw mode.
    #[inline]
    pub fn as_u32(self) -> (r: u32)
        ensures
            r == self.0,
    {
        self.0
    }
}

/// An external file mode, as the daemon reads it.
#[derive(Debug, Clone, Copy, PartialEq, Eq, Hash)]
pub struct GoFileMode(pub u32);

impl GoFileMode {
    /// Wraps a raw external mode.
    #[inline]
    pub fn new(mode: u32) -> (r: Self)
        ensures
            r.0 == mode,
    {
        GoFileMode(mode)
    }

    /// The raw external mode.
    #[inline]
    pub fn as_u32(self) -> (r: u32)
        ensures
            r == self.0,
    {
        self.0
    }
}

impl From<u32> for UnixMode {
    #[inline]
    fn from(mode: u32) -> (r: Self) {
        UnixMode(mode)
    }
}

impl vstd::std_specs::convert::FromSpecImpl<u32> for UnixMode {
    open spec fn obeys_from_spec() -> bool {
        true
    }

    open spec fn from_spec(mode: u32) -> Self {
        UnixMode(mode)
    }
}

impl From<UnixMode> for u32 {
    #[inline]
    fn from(mode: UnixMode) -> (r: Self) {
        mode.0
    }
}

impl vstd::std_specs::convert::FromSpecImpl<UnixMode> for u32 {
    open spec fn obeys_from_spec() -> bool {
        true
    }

    open spec fn from_spec(mode: UnixMode) -> Self {
        mode.0
    }
}

impl From<u32> for GoFileMode {
    #[inline]
    fn from(mode: u32) -> (r: Self) {
        GoFileMode(mode)
    }
}

impl vstd::std_specs::convert::FromSpecImpl<u32> for GoFileMode {
    open spec fn obeys_from_spec() -> bool {
        true
    }

    open spec fn from_spec(mode: u32) -> Self {
        GoFileMode(mode)
    }
}

impl From<GoFileMode> for u32 {
    #[inline]
    fn from(mode: GoFileMode) -> (r: Self) {
        mode.0
    }
}

impl vstd::std_specs::convert::FromSpecImpl<GoFileMode> for u32 {
    open spec fn obeys_from_spec() -> bool {
        true
    }

    open spec fn from_spec(mode: GoFileMode) -> Self {
        mode.0
    }
}

impl From<UnixMode> for GoFileMode {
    /// The external bitset of a POSIX mode.
    fn from(unix_mode: UnixMode) -> (r: Self) {
        let mode: u32 = unix_mode.0;
        let file_type: u32 = mode & S_IFMT;
        let setuid: u32 = if mode & S_ISUID != 0 { GO_MODE_SETUID } else { 0 };
        let setgid: u32 = if mode & S_ISGID != 0 { GO_MODE_SETGID } else { 0 };
        let sticky: u32 = if mode & S_ISVTX != 0 { GO_MODE_STICKY } else { 0 };
        let kind: u32 = if file_type == S_IFDIR {
            GO_MODE_DIR
        } else if file_type == S_IFLNK {
            GO_MODE_SYMLINK
        } else if file_type == S_IFIFO {
            GO_MODE_NAMED_PIPE
        } else if file_type == S_IFSOCK {
            GO_MODE_SOCKET
        } else if file_type == S_IFCHR {
            GO_MODE_CHAR_DEVICE | GO_MODE_DEVICE
        } else if file_type == S_IFBLK {
            GO_MODE_DEVICE
        } else {
            0
        };
        GoFileMode((mode & PERMISSION_MASK) | (setuid | setgid | sticky) | kind)
    }
}

impl vstd::std_specs::convert::FromSpecImpl<UnixMode> for GoFileMode {
    open spec fn obeys_from_spec() -> bool {
        true
    }

    open spec fn from_spec(unix_mode: UnixMode) -> Self {
        GoFileMode(go_mode_of(unix_mode.0))
    }
}

/// The raw external mode of a raw POSIX mode.
#[inline]
pub fn unix_mode_to_go_filemode(unix_mode: u32) -> (r: u32)
    ensures
        r == go_mode_of(unix_mode),
{
    GoFileMode::from(UnixMode::from(unix_mode)).as_u32()
}

} // verus!
