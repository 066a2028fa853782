//! The patterns of the two bring-up programs: a message blinked on the status
//! indicator, and two circles that grow on the display.

use vstd::prelude::*;

verus! {

/// The diameter at which a growing circle starts over.
pub const DIAMETER_LIMIT: u32 = 160;

/// How long the indicator is lit and how long it is then dark.
#[derive(Clone, Copy, Debug, PartialEq, Eq, Structural)]
pub struct Blink {
    /// Milliseconds for which the indicator is lit; zero leaves it dark.
    pub lit_ms: u32,
    /// Milliseconds for which the indicator stays dark afterwards.
    pub dark_ms: u32,
}

/// The blink for one symbol of a message: a dot is a short blink, a dash a
/// long one, a blank a pause, and every symbol is followed by a gap. Any other
/// symbol is only the gap.
pub open spec fn blink_for(symbol: char) -> Blink {
    if symbol == '.' {
        Blink { lit_ms: 200, dark_ms: 300 }
    } else if symbol == '-' {
        Blink { lit_ms: 700, dark_ms: 300 }
    } else if symbol == ' ' {
        Blink { lit_ms: 0, dark_ms: 800 }
    } else {
        Blink { lit_ms: 0, dark_ms: 300 }
    }
}

/// The diameter of a growing circle one frame on.
pub open spec fn grown_from(diameter: u32) -> int {
    (diameter + 1) % (DIAMETER_LIMIT as int)
}

/// The blink for one symbol of a message.
pub fn blink(symbol: char) -> (pattern: Blink)
    ensures
        pattern == blink_for(symbol),
{
    if symbol == '.' {
        Blink { lit_ms: 200, dark_ms: 300 }
    } else if symbol == '-' {
        Blink { lit_ms: 700, dark_ms: 300 }
    } else if symbol == ' ' {
        Blink { lit_ms: 0, dark_ms: 800 }
    } else {
        Blink { lit_ms: 0, dark_ms: 300 }
    }
}

/// The diameter of a growing circle one frame on: one more, starting over at
/// `DIAMETER_LIMIT`.
pub fn grown(diameter: u32) -> (next: u32)
    ensures
        next == grown_from(diameter),
        next < DIAMETER_LIMIT,
{
    ((diameter as u64 + 1) % DIAMETER_LIMIT as u64) as u32
}

} // verus!
