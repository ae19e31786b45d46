use circle9::permission_agent::{
    format_permissions, map_linux_to_windows_attrs, map_windows_to_linux_attrs, LinuxPermissions,
    PermissionAgent, WindowsFileAttributes,
};

fn attrs(read_only: bool, hidden: bool, system: bool, archive: bool) -> WindowsFileAttributes {
    WindowsFileAttributes { read_only, hidden, system, archive }
}

#[test]
fn windows_attributes_map_to_modes() {
    assert_eq!(map_windows_to_linux_attrs(false, false, false, true), 0o775);
    assert_eq!(map_windows_to_linux_attrs(true, false, false, false), 0o445);
    assert_eq!(map_windows_to_linux_attrs(false, true, false, false), 0o700);
    assert_eq!(map_windows_to_linux_attrs(false, false, true, false), 0o770);
}

#[test]
fn modes_map_to_windows_attributes() {
    assert_eq!(map_linux_to_windows_attrs(0o755), attrs(false, false, false, true));
    assert_eq!(map_linux_to_windows_attrs(0o640), attrs(false, true, true, true));
    assert_eq!(map_linux_to_windows_attrs(0o444), attrs(true, false, true, true));
}

#[test]
fn octal_round_trip() {
    for mode in [0u32, 0o777, 0o644, 0o751, 0o100644] {
        let perms = PermissionAgent::octal_to_linux(mode);
        assert_eq!(PermissionAgent::linux_to_octal(&perms), mode & 0o777);
        assert_eq!(PermissionAgent::octal_to_linux(PermissionAgent::linux_to_octal(&perms)), perms);
    }
    let p = PermissionAgent::octal_to_linux(0o640);
    assert_eq!(
        p,
        LinuxPermissions {
            owner_read: true,
            owner_write: true,
            owner_execute: false,
            group_read: true,
            group_write: false,
            group_execute: false,
            other_read: false,
            other_write: false,
            other_execute: false,
        }
    );
}

#[test]
fn windows_to_linux_and_back() {
    let perms = PermissionAgent::windows_to_linux(&attrs(true, true, false, true));
    assert!(perms.owner_read && !perms.owner_write && !perms.group_read && !perms.other_read);
    assert_eq!(PermissionAgent::linux_to_windows(&perms), attrs(true, true, true, true));
}

#[test]
fn attribute_words() {
    assert_eq!(PermissionAgent::attributes_from_bits(0x21), attrs(true, false, false, true));
    assert_eq!(PermissionAgent::attributes_from_bits(0x06), attrs(false, true, true, false));
    assert_eq!(PermissionAgent::attributes_to_bits(0xFF, &attrs(false, false, false, false)), 0xD8);
    assert_eq!(PermissionAgent::attributes_to_bits(0x100, &attrs(true, true, true, true)), 0x127);
}

#[test]
fn unix_files_get_simulated_attributes() {
    let a = PermissionAgent::attributes_from_unix(true, "/home/u/.bashrc");
    assert_eq!(a, attrs(false, true, false, true));
    let b = PermissionAgent::attributes_from_unix(false, "/home/u/notes.txt");
    assert_eq!(b, attrs(true, false, false, true));
    let c = PermissionAgent::attributes_from_unix(false, "/");
    assert!(!c.hidden);
}

#[test]
fn modes_print_in_octal() {
    assert_eq!(format_permissions(0o100644), "100644");
    assert_eq!(format_permissions(0o755), "755");
    assert_eq!(format_permissions(0), "0");
}
