use buildkit_client::filemode::{
    unix_mode_to_go_filemode, GoFileMode, UnixMode, GO_MODE_CHAR_DEVICE, GO_MODE_DEVICE,
    GO_MODE_DIR, GO_MODE_NAMED_PIPE, GO_MODE_SETGID, GO_MODE_SETUID, GO_MODE_SOCKET,
    GO_MODE_STICKY, GO_MODE_SYMLINK,
};

#[test]
fn test_regular_file() {
    let unix_mode = UnixMode::from(0o100644);
    let go_mode = GoFileMode::from(unix_mode);
    assert_eq!(go_mode.as_u32(), 0o644);

    assert_eq!(unix_mode_to_go_filemode(0o100644), 0o644);
}

#[test]
fn test_directory() {
    let unix_mode = UnixMode::from(0o040755);
    let go_mode = GoFileMode::from(unix_mode);
    assert_eq!(go_mode.as_u32(), GO_MODE_DIR | 0o755);
    assert_eq!(go_mode.as_u32(), 0x800001ed);
}

#[test]
fn test_symlink() {
    let unix_mode = UnixMode::from(0o120777);
    let go_mode = GoFileMode::from(unix_mode);
    assert_eq!(go_mode.as_u32(), GO_MODE_SYMLINK | 0o777);
}

#[test]
fn test_named_pipe() {
    let unix_mode = UnixMode::from(0o010644);
    let go_mode = GoFileMode::from(unix_mode);
    assert_eq!(go_mode.as_u32(), GO_MODE_NAMED_PIPE | 0o644);
}

#[test]
fn test_socket() {
    let unix_mode = UnixMode::from(0o140666);
    let go_mode = GoFileMode::from(unix_mode);
    assert_eq!(go_mode.as_u32(), GO_MODE_SOCKET | 0o666);
}

#[test]
fn test_char_device() {
    let unix_mode = UnixMode::from(0o020666);
    let go_mode = GoFileMode::from(unix_mode);
    assert_eq!(
        go_mode.as_u32(),
        GO_MODE_CHAR_DEVICE | GO_MODE_DEVICE | 0o666
    );
}

#[test]
fn test_block_device() {
    let unix_mode = UnixMode::from(0o060666);
    let go_mode = GoFileMode::from(unix_mode);
    assert_eq!(go_mode.as_u32(), GO_MODE_DEVICE | 0o666);
}

#[test]
fn test_setuid_bit() {
    let unix_mode = UnixMode::from(0o104755);
    let go_mode = GoFileMode::from(unix_mode);
    assert_eq!(go_mode.as_u32(), GO_MODE_SETUID | 0o755);
}

#[test]
fn test_setgid_bit() {
    let unix_mode = UnixMode::from(0o102755);
    let go_mode = GoFileMode::from(unix_mode);
    assert_eq!(go_mode.as_u32(), GO_MODE_SETGID | 0o755);
}

#[test]
fn test_sticky_bit() {
    let unix_mode = UnixMode::from(0o041755);
    let go_mode = GoFileMode::from(unix_mode);
    assert_eq!(go_mode.as_u32(), GO_MODE_DIR | GO_MODE_STICKY | 0o755);
}

#[test]
fn test_all_special_bits() {
    let unix_mode = UnixMode::from(0o107777);
    let go_mode = GoFileMode::from(unix_mode);
    assert_eq!(
        go_mode.as_u32(),
        GO_MODE_SETUID | GO_MODE_SETGID | GO_MODE_STICKY | 0o777
    );
}

#[test]
fn test_into_conversion() {
    let unix_mode = UnixMode::from(0o040755);
    let go_mode: GoFileMode = unix_mode.into();
    assert_eq!(go_mode.as_u32(), 0x800001ed);
}

#[test]
fn test_type_conversions() {
    let original = 0o100644u32;
    let unix_mode = UnixMode::from(original);
    let go_mode = GoFileMode::from(unix_mode);
    let result = go_mode.as_u32();

    assert_eq!(result, 0o644);
}

#[test]
fn raw_values_pass_through_the_wrappers() {
    assert_eq!(UnixMode::new(0o755).as_u32(), 0o755);
    assert_eq!(GoFileMode::new(0x800001ed).as_u32(), 0x800001ed);
    assert_eq!(u32::from(UnixMode::new(7)), 7);
    assert_eq!(u32::from(GoFileMode::new(9)), 9);
}

#[test]
fn unknown_file_type_keeps_only_permissions() {
    assert_eq!(unix_mode_to_go_filemode(0o170644), 0o644);
    assert_eq!(unix_mode_to_go_filemode(0o000644), 0o644);
}
