//! What a key does when pressed, and the four bytes that say so.

use crate::bits::{high_byte, le16, le_bytes, low_byte, word};
use crate::protocol::{HidUsage, MacroSlot};
use vstd::prelude::*;

verus! {

/// What a key does when pressed.
#[derive(Debug, Clone, Copy, PartialEq, Eq, Structural)]
pub enum KeyAction {
    /// Nothing; on an overlay layer, whatever the layer below does.
    Disabled,
    /// Types one key.
    Key(HidUsage),
    /// Types several keys at once.
    Chord(HidUsage, HidUsage, HidUsage),
    /// Plays a macro.
    Macro { kind: u8, slot: MacroSlot },
    /// Sends a consumer control usage.
    Consumer(u16),
    /// Is the Fn key.
    Fn,
    /// Something else, kept as its bytes.
    Other(u8, u8, u8, u8),
}

/// The only byte of three that is not zero, if exactly one is.
pub open spec fn lone_usage(a: u8, b: u8, c: u8) -> Option<u8> {
    if b == 0 && c == 0 && a != 0 {
        Some(a)
    } else if a == 0 && c == 0 && b != 0 {
        Some(b)
    } else if a == 0 && b == 0 && c != 0 {
        Some(c)
    } else {
        None
    }
}

impl KeyAction {
    /// The action that four config bytes stand for. Type 0 holds up to three usages, type
    /// 3 a consumer usage, type 9 a macro, and `[10, 1, 0, 0]` is the Fn key.
    pub open spec fn decoded(b: Seq<u8>) -> KeyAction {
        if b[0] == 0 {
            if b[1] == 0 && b[2] == 0 && b[3] == 0 {
                KeyAction::Disabled
            } else {
                match lone_usage(b[1], b[2], b[3]) {
                    Some(code) => KeyAction::Key(HidUsage { code }),
                    None => KeyAction::Chord(
                        HidUsage { code: b[1] },
                        HidUsage { code: b[2] },
                        HidUsage { code: b[3] },
                    ),
                }
            }
        } else if b[0] == 3 && b[1] == 0 {
            KeyAction::Consumer(le16(b[2], b[3]))
        } else if b[0] == 9 && b[3] == 0 {
            KeyAction::Macro { kind: b[1], slot: MacroSlot { slot: b[2] } }
        } else if b[0] == 10 && b[1] == 1 && b[2] == 0 && b[3] == 0 {
            KeyAction::Fn
        } else {
            KeyAction::Other(b[0], b[1], b[2], b[3])
        }
    }

    /// The config bytes of an action.
    pub open spec fn encoded(self) -> Seq<u8> {
        match self {
            KeyAction::Disabled => seq![0u8, 0u8, 0u8, 0u8],
            KeyAction::Key(u) => seq![0u8, 0u8, u.code, 0u8],
            KeyAction::Chord(a, b, c) => seq![0u8, a.code, b.code, c.code],
            KeyAction::Macro { kind, slot } => seq![9u8, kind, slot.slot, 0u8],
            KeyAction::Consumer(w) => seq![3u8, 0u8] + le_bytes(w),
            KeyAction::Fn => seq![10u8, 1u8, 0u8, 0u8],
            KeyAction::Other(a, b, c, d) => seq![a, b, c, d],
        }
    }

    /// The action that four config bytes stand for.
    pub fn from_config_bytes(b: [u8; 4]) -> (r: KeyAction)
        ensures
            r == KeyAction::decoded(b@),
    {
        if b[0] == 0 {
            if b[1] == 0 && b[2] == 0 && b[3] == 0 {
                KeyAction::Disabled
            } else if b[2] == 0 && b[3] == 0 {
                KeyAction::Key(HidUsage { code: b[1] })
            } else if b[1] == 0 && b[3] == 0 {
                KeyAction::Key(HidUsage { code: b[2] })
            } else if b[1] == 0 && b[2] == 0 {
                KeyAction::Key(HidUsage { code: b[3] })
            } else {
                KeyAction::Chord(
                    HidUsage { code: b[1] },
                    HidUsage { code: b[2] },
                    HidUsage { code: b[3] },
                )
            }
        } else if b[0] == 3 && b[1] == 0 {
            KeyAction::Consumer(word(b[2], b[3]))
        } else if b[0] == 9 && b[3] == 0 {
            KeyAction::Macro { kind: b[1], slot: MacroSlot { slot: b[2] } }
        } else if b[0] == 10 && b[1] == 1 && b[2] == 0 && b[3] == 0 {
            KeyAction::Fn
        } else {
            KeyAction::Other(b[0], b[1], b[2], b[3])
        }
    }

    /// The config bytes of an action.
    pub fn to_config_bytes(&self) -> (r: [u8; 4])
        ensures
            r@ == self.encoded(),
    {
        let r: [u8; 4] = match *self {
            KeyAction::Disabled => [0, 0, 0, 0],
            KeyAction::Key(u) => [0, 0, u.code, 0],
            KeyAction::Chord(a, b, c) => [0, a.code, b.code, c.code],
            KeyAction::Macro { kind, slot } => [9, kind, slot.slot, 0],
            KeyAction::Consumer(w) => [3, 0, low_byte(w), high_byte(w)],
            KeyAction::Fn => [10, 1, 0, 0],
            KeyAction::Other(a, b, c, d) => [a, b, c, d],
        };
        assert(r@ =~= self.encoded());
        r
    }
}

/// Writing an action and reading it back changes nothing, for every action that bytes
/// stand for.
pub proof fn action_round_trip(b: Seq<u8>)
    requires
        b.len() == 4,
    ensures
        KeyAction::decoded(KeyAction::decoded(b).encoded()) == KeyAction::decoded(b),
{
    if b[0] == 3 && b[1] == 0 {
        crate::bits::le16_round_trip(b[2], b[3]);
        crate::bits::le_bytes_round_trip(le16(b[2], b[3]));
    }
}

/// Whether four bytes are an empty slot.
pub open spec fn is_empty_slot(b: Seq<u8>) -> bool {
    b == seq![0u8, 0u8, 0u8, 0u8]
}

/// An action is [`KeyAction::Disabled`] exactly for an empty slot.
pub proof fn only_empty_slots_are_disabled(b: Seq<u8>)
    requires
        b.len() == 4,
    ensures
        (KeyAction::decoded(b) == KeyAction::Disabled) == is_empty_slot(b),
{
    assert(is_empty_slot(b) == (b =~= seq![0u8, 0u8, 0u8, 0u8]));
}

} // verus!
