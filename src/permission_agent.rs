use vstd::prelude::*;
use crate::paths::{display_name, file_name, file_name_of};
use crate::types::{octal, push_octal};

verus! {

/// The attribute flags of a file on the Windows side.
#[derive(Debug, Clone, Copy, PartialEq, Eq, Structural)]
pub struct WindowsFileAttributes {
    pub read_only: bool,
    pub hidden: bool,
    pub system: bool,
    pub archive: bool,
}

/// The nine permission bits of a file on the Linux side.
#[derive(Debug, Clone, Copy, PartialEq, Eq, Structural)]
pub struct LinuxPermissions {
    pub owner_read: bool,
    pub owner_write: bool,
    pub owner_execute: bool,
    pub group_read: bool,
    pub group_write: bool,
    pub group_execute: bool,
    pub other_read: bool,
    pub other_write: bool,
    pub other_execute: bool,
}

/// `v` when `b` holds, else no bits.
pub open spec fn bit_if(b: bool, v: u32) -> u32 {
    if b {
        v
    } else {
        0
    }
}

/// The octal mode of a set of permissions.
pub open spec fn mode_of(p: LinuxPermissions) -> u32 {
    bit_if(p.owner_read, 0o400) | bit_if(p.owner_write, 0o200) | bit_if(p.owner_execute, 0o100)
        | bit_if(p.group_read, 0o040) | bit_if(p.group_write, 0o020) | bit_if(
        p.group_execute,
        0o010,
    ) | bit_if(p.other_read, 0o004) | bit_if(p.other_write, 0o002) | bit_if(
        p.other_execute,
        0o001,
    )
}

/// The permissions that the low nine bits of `mode` grant.
pub open spec fn permissions_of(mode: u32) -> LinuxPermissions {
    LinuxPermissions {
        owner_read: mode & 0o400 != 0,
        owner_write: mode & 0o200 != 0,
        owner_execute: mode & 0o100 != 0,
        group_read: mode & 0o040 != 0,
        group_write: mode & 0o020 != 0,
        group_execute: mode & 0o010 != 0,
        other_read: mode & 0o004 != 0,
        other_write: mode & 0o002 != 0,
        other_execute: mode & 0o001 != 0,
    }
}

/// The Linux permissions given to a file with Windows attributes `a`: the
/// owner may always read, and may write and execute unless the file is
/// read-only; the group may read unless it is hidden, and write and execute
/// unless it is read-only or hidden; others may read and execute unless it is
/// hidden or a system file, and never write.
pub open spec fn linux_of_windows(a: WindowsFileAttributes) -> LinuxPermissions {
    LinuxPermissions {
        owner_read: true,
        owner_write: !a.read_only,
        owner_execute: !a.read_only,
        group_read: !a.hidden,
        group_write: !a.read_only && !a.hidden,
        group_execute: !a.read_only && !a.hidden,
        other_read: !a.hidden && !a.system,
        other_write: false,
        other_execute: !a.hidden && !a.system,
    }
}

/// The Windows attributes given to a file with Linux permissions `p`:
/// read-only unless the owner may write, hidden unless others may read, a
/// system file unless others may execute, and always to be archived.
pub open spec fn windows_of_linux(p: LinuxPermissions) -> WindowsFileAttributes {
    WindowsFileAttributes {
        read_only: !p.owner_write,
        hidden: !p.other_read,
        system: !p.other_execute,
        archive: true,
    }
}

/// The attribute flags that the Windows attribute word `bits` carries.
pub open spec fn attributes_of_bits(bits: u32) -> WindowsFileAttributes {
    WindowsFileAttributes {
        read_only: bits & 0x1 != 0,
        hidden: bits & 0x2 != 0,
        system: bits & 0x4 != 0,
        archive: bits & 0x20 != 0,
    }
}

/// The attribute word `bits` with its read-only, hidden, system and archive
/// bits set as `a` says and every other bit kept.
pub open spec fn bits_with_attributes(bits: u32, a: WindowsFileAttributes) -> u32 {
    (bits & !0x27u32) | bit_if(a.read_only, 0x1) | bit_if(a.hidden, 0x2) | bit_if(a.system, 0x4)
        | bit_if(a.archive, 0x20)
}

fn bit_when(b: bool, v: u32) -> (r: u32)
    ensures
        r == bit_if(b, v),
{
    if b {
        v
    } else {
        0
    }
}

/// Mapping between the two platforms' permission models.
pub struct PermissionAgent;

impl PermissionAgent {
    /// Maps Windows file attributes to Linux permissions.
    pub fn windows_to_linux(attrs: &WindowsFileAttributes) -> (r: LinuxPermissions)
        ensures
            r == linux_of_windows(*attrs),
    {
        LinuxPermissions {
            owner_read: true,
            owner_write: !attrs.read_only,
            owner_execute: !attrs.read_only,
            group_read: !attrs.hidden,
            group_write: !attrs.read_only && !attrs.hidden,
            group_execute: !attrs.read_only && !attrs.hidden,
            other_read: !attrs.hidden && !attrs.system,
            other_write: false,
            other_execute: !attrs.hidden && !attrs.system,
        }
    }

    /// Maps Linux permissions to Windows file attributes.
    pub fn linux_to_windows(perms: &LinuxPermissions) -> (r: WindowsFileAttributes)
        ensures
            r == windows_of_linux(*perms),
    {
        WindowsFileAttributes {
            read_only: !perms.owner_write,
            hidden: !perms.other_read,
            system: !perms.other_execute,
            archive: true,
        }
    }

    /// The octal mode of a set of permissions.
    pub fn linux_to_octal(perms: &LinuxPermissions) -> (r: u32)
        ensures
            r == mode_of(*perms),
            r <= 0o777,
    {
        let r: u32 = bit_when(perms.owner_read, 0o400) | bit_when(perms.owner_write, 0o200) | bit_when(
            perms.owner_execute,
            0o100,
        ) | bit_when(perms.group_read, 0o040) | bit_when(perms.group_write, 0o020) | bit_when(
            perms.group_execute,
            0o010,
        ) | bit_when(perms.other_read, 0o004) | bit_when(perms.other_write, 0o002) | bit_when(
            perms.other_execute,
            0o001,
        );
        proof {
            lemma_mode_bits(
                bit_if(perms.owner_read, 0o400),
                bit_if(perms.owner_write, 0o200),
                bit_if(perms.owner_execute, 0o100),
                bit_if(perms.group_read, 0o040),
                bit_if(perms.group_write, 0o020),
                bit_if(perms.group_execute, 0o010),
                bit_if(perms.other_read, 0o004),
                bit_if(perms.other_write, 0o002),
                bit_if(perms.other_execute, 0o001),
            );
        }
        r
    }

    /// The permissions that the low nine bits of `octal` grant; higher bits
    /// are ignored.
    pub fn octal_to_linux(octal: u32) -> (r: LinuxPermissions)
        ensures
            r == permissions_of(octal),
    {
        LinuxPermissions {
            owner_read: (octal & 0o400) != 0,
            owner_write: (octal & 0o200) != 0,
            owner_execute: (octal & 0o100) != 0,
            group_read: (octal & 0o040) != 0,
            group_write: (octal & 0o020) != 0,
            group_execute: (octal & 0o010) != 0,
            other_read: (octal & 0o004) != 0,
            other_write: (octal & 0o002) != 0,
            other_execute: (octal & 0o001) != 0,
        }
    }

    /// The attributes carried by a Windows attribute word.
    pub fn attributes_from_bits(bits: u32) -> (r: WindowsFileAttributes)
        ensures
            r == attributes_of_bits(bits),
    {
        WindowsFileAttributes {
            read_only: (bits & 0x1) != 0,
            hidden: (bits & 0x2) != 0,
            system: (bits & 0x4) != 0,
            archive: (bits & 0x20) != 0,
        }
    }

    /// The attributes simulated for a file on a system without Windows
    /// attribute words: `read_only` is the negation of the permissions'
    /// read-only flag `readonly`, a file whose name starts with a dot is
    /// hidden, no file is a system file, and every file is to be archived.
    pub fn attributes_from_unix(readonly: bool, path: &str) -> (r: WindowsFileAttributes)
        ensures
            r.read_only == !readonly,
            r.hidden == (file_name_of(path@) is Some && display_name(path@).len() > 0
                && display_name(path@)[0] == '.'),
            !r.system,
            r.archive,
    {
        let hidden = match file_name(path) {
            Some(n) => n.unicode_len() > 0 && n.get_char(0) == '.',
            None => false,
        };
        WindowsFileAttributes { read_only: !readonly, hidden, system: false, archive: true }
    }

    /// The attribute word `bits` with the four attribute bits set from
    /// `attrs` and every other bit kept.
    pub fn attributes_to_bits(bits: u32, attrs: &WindowsFileAttributes) -> (r: u32)
        ensures
            r == bits_with_attributes(bits, *attrs),
    {
        (bits & !0x27u32) | bit_when(attrs.read_only, 0x1) | bit_when(attrs.hidden, 0x2)
            | bit_when(attrs.system, 0x4) | bit_when(attrs.archive, 0x20)
    }
}

/// The Linux mode given to a file with the Windows attributes listed.
pub fn map_windows_to_linux_attrs(read_only: bool, hidden: bool, system: bool, archive: bool) -> (r:
    u32)
    ensures
        r == mode_of(
            linux_of_windows(WindowsFileAttributes { read_only, hidden, system, archive }),
        ),
{
    let attrs = WindowsFileAttributes { read_only, hidden, system, archive };
    let perms = PermissionAgent::windows_to_linux(&attrs);
    PermissionAgent::linux_to_octal(&perms)
}

/// The Windows attributes given to a file with Linux mode `octal_permissions`.
pub fn map_linux_to_windows_attrs(octal_permissions: u32) -> (r: WindowsFileAttributes)
    ensures
        r == windows_of_linux(permissions_of(octal_permissions)),
{
    let perms = PermissionAgent::octal_to_linux(octal_permissions);
    PermissionAgent::linux_to_windows(&perms)
}

/// A file mode in octal notation, as listings show it.
pub fn format_permissions(mode: u32) -> (r: String)
    ensures
        r@ == octal(mode as nat),
{
    let mut s = String::new();
    push_octal(&mut s, mode);
    s
}

proof fn lemma_mode_bits(a: u32, b: u32, c: u32, d: u32, e: u32, f: u32, g: u32, h: u32, i: u32)
    requires
        a == 0 || a == 0o400,
        b == 0 || b == 0o200,
        c == 0 || c == 0o100,
        d == 0 || d == 0o040,
        e == 0 || e == 0o020,
        f == 0 || f == 0o010,
        g == 0 || g == 0o004,
        h == 0 || h == 0o002,
        i == 0 || i == 0o001,
    ensures
        (a | b | c | d | e | f | g | h | i) <= 0o777,
        (a | b | c | d | e | f | g | h | i) & 0o400 == a,
        (a | b | c | d | e | f | g | h | i) & 0o200 == b,
        (a | b | c | d | e | f | g | h | i) & 0o100 == c,
        (a | b | c | d | e | f | g | h | i) & 0o040 == d,
        (a | b | c | d | e | f | g | h | i) & 0o020 == e,
        (a | b | c | d | e | f | g | h | i) & 0o010 == f,
        (a | b | c | d | e | f | g | h | i) & 0o004 == g,
        (a | b | c | d | e | f | g | h | i) & 0o002 == h,
        (a | b | c | d | e | f | g | h | i) & 0o001 == i,
{
    assert((a | b | c | d | e | f | g | h | i) <= 0o777) by (bit_vector)
        requires
            a == 0 || a == 0o400,
            b == 0 || b == 0o200,
            c == 0 || c == 0o100,
            d == 0 || d == 0o040,
            e == 0 || e == 0o020,
            f == 0 || f == 0o010,
            g == 0 || g == 0o004,
            h == 0 || h == 0o002,
            i == 0 || i == 0o001,
    ;
    assert((a | b | c | d | e | f | g | h | i) & 0o400 == a && (a | b | c | d | e | f | g | h | i)
        & 0o200 == b && (a | b | c | d | e | f | g | h | i) & 0o100 == c && (a | b | c | d | e | f
        | g | h | i) & 0o040 == d && (a | b | c | d | e | f | g | h | i) & 0o020 == e && (a | b | c
        | d | e | f | g | h | i) & 0o010 == f && (a | b | c | d | e | f | g | h | i) & 0o004 == g
        && (a | b | c | d | e | f | g | h | i) & 0o002 == h && (a | b | c | d | e | f | g | h | i)
        & 0o001 == i) by (bit_vector)
        requires
            a == 0 || a == 0o400,
            b == 0 || b == 0o200,
            c == 0 || c == 0o100,
            d == 0 || d == 0o040,
            e == 0 || e == 0o020,
            f == 0 || f == 0o010,
            g == 0 || g == 0o004,
            h == 0 || h == 0o002,
            i == 0 || i == 0o001,
    ;
}

/// Permissions survive a trip through their octal mode.
pub proof fn lemma_mode_round_trip(p: LinuxPermissions)
    ensures
        permissions_of(mode_of(p)) == p,
        mode_of(p) <= 0o777,
{
    lemma_mode_bits(
        bit_if(p.owner_read, 0o400),
        bit_if(p.owner_write, 0o200),
        bit_if(p.owner_execute, 0o100),
        bit_if(p.group_read, 0o040),
        bit_if(p.group_write, 0o020),
        bit_if(p.group_execute, 0o010),
        bit_if(p.other_read, 0o004),
        bit_if(p.other_write, 0o002),
        bit_if(p.other_execute, 0o001),
    );
}

/// A mode survives a trip through permissions up to its low nine bits.
pub proof fn lemma_permissions_round_trip(mode: u32)
    ensures
        mode_of(permissions_of(mode)) == mode & 0o777,
{
    let p = permissions_of(mode);
    assert(bit_if(p.owner_read, 0o400) == mode & 0o400) by {
        assert((mode & 0o400 != 0) ==> mode & 0o400 == 0o400) by (bit_vector);
    }
    assert(bit_if(p.owner_write, 0o200) == mode & 0o200) by {
        assert((mode & 0o200 != 0) ==> mode & 0o200 == 0o200) by (bit_vector);
    }
    assert(bit_if(p.owner_execute, 0o100) == mode & 0o100) by {
        assert((mode & 0o100 != 0) ==> mode & 0o100 == 0o100) by (bit_vector);
    }
    assert(bit_if(p.group_read, 0o040) == mode & 0o040) by {
        assert((mode & 0o040 != 0) ==> mode & 0o040 == 0o040) by (bit_vector);
    }
    assert(bit_if(p.group_write, 0o020) == mode & 0o020) by {
        assert((mode & 0o020 != 0) ==> mode & 0o020 == 0o020) by (bit_vector);
    }
    assert(bit_if(p.group_execute, 0o010) == mode & 0o010) by {
        assert((mode & 0o010 != 0) ==> mode & 0o010 == 0o010) by (bit_vector);
    }
    assert(bit_if(p.other_read, 0o004) == mode & 0o004) by {
        assert((mode & 0o004 != 0) ==> mode & 0o004 == 0o004) by (bit_vector);
    }
    assert(bit_if(p.other_write, 0o002) == mode & 0o002) by {
        assert((mode & 0o002 != 0) ==> mode & 0o002 == 0o002) by (bit_vector);
    }
    assert(bit_if(p.other_execute, 0o001) == mode & 0o001) by {
        assert((mode & 0o001 != 0) ==> mode & 0o001 == 0o001) by (bit_vector);
    }
    assert((mode & 0o400) | (mode & 0o200) | (mode & 0o100) | (mode & 0o040) | (mode & 0o020) | (
    mode & 0o010) | (mode & 0o004) | (mode & 0o002) | (mode & 0o001) == mode & 0o777)
        by (bit_vector);
}

} // verus!
