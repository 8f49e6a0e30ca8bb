#[test]
fn exit_codes_are_the_documented_values() {
    assert_eq!(ksx_backend::EXIT_CANNOT_START, 2);
    assert_eq!(ksx_backend::EXIT_RUNTIME_FAILURE, 3);
    // 2 means the same thing across every ksx command.
    assert_eq!(ksx_backend::EXIT_CANNOT_START, ksx_backend::winusb::EXIT_REFUSED);
    assert_eq!(ksx_backend::EXIT_CANNOT_START, ksx_backend::setup::EXIT_REFUSED);
}
