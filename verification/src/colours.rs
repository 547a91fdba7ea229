//! The fixed colours the bot's response embeds use, held as plain RGB
//! channels. The boundary that talks to the chat platform converts them into
//! the platform library's colour type.

use vstd::prelude::*;

verus! {

/// One colour as red, green and blue channels.
#[derive(Clone, Copy, Debug, PartialEq, Eq, Structural)]
pub struct Rgb {
    pub red: u8,
    pub green: u8,
    pub blue: u8,
}

/// The palette used by the bot's response embeds.
pub struct EmbedColours;

impl EmbedColours {
    /// An ocean blue, for neutral informational messages.
    pub fn info() -> (c: Rgb)
        ensures
            c == (Rgb { red: 0, green: 127, blue: 255 }),
    {
        Rgb { red: 0, green: 127, blue: 255 }
    }

    /// A spring green, for successes.
    pub fn good() -> (c: Rgb)
        ensures
            c == (Rgb { red: 0, green: 255, blue: 127 }),
    {
        Rgb { red: 0, green: 255, blue: 127 }
    }

    /// An amber, for rejections and failures.
    pub fn error() -> (c: Rgb)
        ensures
            c == (Rgb { red: 255, green: 127, blue: 0 }),
    {
        Rgb { red: 255, green: 127, blue: 0 }
    }
}

} // verus!
