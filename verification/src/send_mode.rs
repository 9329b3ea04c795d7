//! Per-destination annotation policy: whether a destination receives the
//! message at all, and whether the message's frequency string is prefixed.

use vstd::prelude::*;

verus! {

/// Send policy for one destination. `Off` excludes the destination,
/// `Normal` sends the plain message, `Frequency` prefixes the message
/// with its frequency annotation.
#[derive(Debug, Clone, Copy, PartialEq, Eq, Structural)]
pub enum SendMode {
    Off,
    Normal,
    Frequency,
}

impl SendMode {
    /// What `next` returns, as a spec-level function.
    pub open spec fn next_spec(self) -> SendMode {
        match self {
            SendMode::Off => SendMode::Normal,
            SendMode::Normal => SendMode::Frequency,
            SendMode::Frequency => SendMode::Off,
        }
    }

    /// Cycle to the next mode: Off -> Normal -> Frequency -> Off.
    pub fn next(self) -> (r: SendMode)
        ensures
            r == self.next_spec(),
    {
        match self {
            SendMode::Off => SendMode::Normal,
            SendMode::Normal => SendMode::Frequency,
            SendMode::Frequency => SendMode::Off,
        }
    }

    /// A destination takes part in a send exactly when its mode is not `Off`.
    pub fn active(self) -> (r: bool)
        ensures
            r == (self != SendMode::Off),
    {
        if let SendMode::Off = self {
            false
        } else {
            true
        }
    }
}

impl Default for SendMode {
    fn default() -> (r: SendMode)
        ensures
            r == SendMode::Off,
    {
        SendMode::Off
    }
}

/// Cycling three times returns to the starting mode, whatever it was.
pub proof fn lemma_next_cycles(m: SendMode)
    ensures
        m.next_spec().next_spec().next_spec() == m,
{
}

} // verus!
