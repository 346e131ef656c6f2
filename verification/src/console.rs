//! Kinds of console messages and the colours they are shown in.

use vstd::prelude::*;

verus! {

/// Red, green, blue.
pub type Color = (u8, u8, u8);

/// The colour of the time stamp in front of a message.
pub const TIME_COLOR: Color = (255, 242, 204);

/// What a console message is.
#[derive(Clone, Copy, Debug, PartialEq, Eq)]
pub enum MessageType {
    /// A command as it was entered.
    Command,
    /// Information.
    Info,
    /// An error.
    Error,
    /// Anything else, in a colour of its own.
    Misc(Color),
}

impl MessageType {
    /// The colour a message of this kind is shown in.
    pub open spec fn spec_color(self) -> Color {
        match self {
            MessageType::Command => (243u8, 145u8, 137u8),
            MessageType::Info => (255u8, 255u8, 255u8),
            MessageType::Error => (249u8, 7u8, 22u8),
            MessageType::Misc(color) => color,
        }
    }

    /// The colour a message of this kind is shown in.
    pub fn color(&self) -> (color: Color)
        ensures
            color == self.spec_color(),
    {
        match self {
            MessageType::Command => (243, 145, 137),
            MessageType::Info => (255, 255, 255),
            MessageType::Error => (249, 7, 22),
            MessageType::Misc(color) => *color,
        }
    }
}

} // verus!
