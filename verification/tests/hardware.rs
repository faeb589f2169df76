use morse_utils::InternalLcdCommand::{PrivateCommand, PublicCommand, RawCommand};
use morse_utils::{be_busted, LcdCommand, PrivateLcdCommand};

#[test]
fn command_bytes() {
    assert_eq!(2, PublicCommand(LcdCommand::ReturnHome).get_numeric());
    assert_eq!(1, PublicCommand(LcdCommand::ClearDisplay).get_numeric());
    assert_eq!(3, PublicCommand(LcdCommand::ReturnHomeAlt).get_numeric());
    assert_eq!(56, PrivateCommand(PrivateLcdCommand::SetDefault8Bit).get_numeric());
    assert_eq!(15, PrivateCommand(PrivateLcdCommand::DisplayOnCursorBlink).get_numeric());
    assert_eq!(6, PrivateCommand(PrivateLcdCommand::EntryModeDefault).get_numeric());
    assert_eq!(48, PrivateCommand(PrivateLcdCommand::FunctionSet4Bit1).get_numeric());
    assert_eq!(32, PrivateCommand(PrivateLcdCommand::FunctionSet4Bit2).get_numeric());
    assert_eq!(40, PrivateCommand(PrivateLcdCommand::SetDefault4Bit).get_numeric());
    assert_eq!(0x8A, RawCommand(0x8A).get_numeric());
}

#[test]
fn narrowing_always_fails() {
    assert!(be_busted().is_err());
}
