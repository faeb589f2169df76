use vstd::prelude::*;

verus! {

// Command encoding for the character display: the library provides the
// byte each command stands for; driving pins and timing sit with the
// hardware layer around it.

/// A timing source the hardware layer implements.
pub trait Delay {
    fn delay_us(&self, us: u16);

    fn delay_ms(&self, ms: u16);
}

#[derive(PartialEq, Eq, Clone, Debug, Structural)]
pub enum LcdCommand {
    ReturnHome,
    ReturnHomeAlt,
    ClearDisplay,
}

#[derive(PartialEq, Eq, Clone, Debug, Structural)]
pub enum PrivateLcdCommand {
    SetDefault8Bit,
    SetDefault4Bit,
    DisplayOnCursorBlink,
    EntryModeDefault,
    FunctionSet4Bit1,
    FunctionSet4Bit2,
}

#[derive(PartialEq, Eq, Clone, Debug, Structural)]
pub enum InternalLcdCommand {
    PrivateCommand(PrivateLcdCommand),
    PublicCommand(LcdCommand),
    RawCommand(u8),
}

/// The byte the display expects for each command.
pub open spec fn numeric_of(c: InternalLcdCommand) -> u8 {
    match c {
        InternalLcdCommand::PublicCommand(LcdCommand::ReturnHome) => 2,
        InternalLcdCommand::PublicCommand(LcdCommand::ClearDisplay) => 1,
        InternalLcdCommand::PublicCommand(LcdCommand::ReturnHomeAlt) => 3,
        InternalLcdCommand::PrivateCommand(PrivateLcdCommand::SetDefault8Bit) => 56,
        InternalLcdCommand::PrivateCommand(PrivateLcdCommand::DisplayOnCursorBlink) => 15,
        InternalLcdCommand::PrivateCommand(PrivateLcdCommand::EntryModeDefault) => 6,
        InternalLcdCommand::PrivateCommand(PrivateLcdCommand::FunctionSet4Bit1) => 48,
        InternalLcdCommand::PrivateCommand(PrivateLcdCommand::FunctionSet4Bit2) => 32,
        InternalLcdCommand::PrivateCommand(PrivateLcdCommand::SetDefault4Bit) => 40,
        InternalLcdCommand::RawCommand(me) => me,
    }
}

impl InternalLcdCommand {
    /// The byte the display expects for this command.
    pub fn get_numeric(&self) -> (r: u8)
        ensures
            r == numeric_of(*self),
    {
        match self {
            InternalLcdCommand::PublicCommand(LcdCommand::ReturnHome) => 0b00000010,
            InternalLcdCommand::PublicCommand(LcdCommand::ClearDisplay) => 0b0000001,
            InternalLcdCommand::PublicCommand(LcdCommand::ReturnHomeAlt) => 0b00000011,
            InternalLcdCommand::PrivateCommand(PrivateLcdCommand::SetDefault8Bit) => 0b00111000,
            InternalLcdCommand::PrivateCommand(PrivateLcdCommand::DisplayOnCursorBlink) => 0b00001111,
            InternalLcdCommand::PrivateCommand(PrivateLcdCommand::EntryModeDefault) => 0b00000110,
            InternalLcdCommand::PrivateCommand(PrivateLcdCommand::FunctionSet4Bit1) => 0b00110000,
            InternalLcdCommand::PrivateCommand(PrivateLcdCommand::FunctionSet4Bit2) => 0b00100000,
            InternalLcdCommand::PrivateCommand(PrivateLcdCommand::SetDefault4Bit) => 0b00101000,
            InternalLcdCommand::RawCommand(me) => *me,
        }
    }
}

} // verus!
