use shared_lib::machine::{tsc_value, QemuExitCode, QEMU_EXIT_PORT};

#[test]
fn exit_codes() {
    assert_eq!(QEMU_EXIT_PORT, 0xf4);
    assert_eq!(QemuExitCode::Success.as_u8(), 0x10);
    assert_eq!(QemuExitCode::Failed.as_u8(), 0x11);
}

#[test]
fn tsc_halves() {
    assert_eq!(tsc_value(0, 0), 0);
    assert_eq!(tsc_value(1, 0), 1);
    assert_eq!(tsc_value(0, 1), 0x1_0000_0000);
    assert_eq!(tsc_value(0xdead_beef, 0x1234_5678), 0x1234_5678_dead_beef);
    assert_eq!(tsc_value(u32::MAX, u32::MAX), u64::MAX);
}
