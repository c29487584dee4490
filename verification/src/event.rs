//! The trigger event filter: raw three-byte note messages to note numbers.

use vstd::prelude::*;

verus! {

/// Status byte of the note message family that is listened to.
pub const NOTE_STATUS: u8 = 144;

/// The note carried by `message`, if it is a sounding note message: exactly
/// three bytes, the status byte first, and a velocity above zero last.
pub open spec fn note_on_of(message: Seq<u8>) -> Option<u8> {
    if message.len() == 3 && message[0] == NOTE_STATUS && message[2] != 0 {
        Some(message[1])
    } else {
        None
    }
}

/// Filters one raw event. A message of another length or status, and a note
/// message with velocity zero (a release), yield `None`.
pub fn parse_note_on(message: &[u8]) -> (note: Option<u8>)
    ensures
        note == note_on_of(message@),
{
    if message.len() == 3 && message[0] == NOTE_STATUS && message[2] != 0 {
        Some(message[1])
    } else {
        None
    }
}

} // verus!
