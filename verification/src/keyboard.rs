//! The state of one key of the sixteen-key hex keypad, as the machine sees
//! it. Polling physical keys and mapping host keys to hex nibbles is the
//! input collaborator's concern; the machine only consumes these states.

use vstd::prelude::*;

verus! {

/// Whether a keypad key is currently held down.
#[derive(Clone, Copy, Debug, PartialEq, Eq, Structural)]
pub enum KeyState {
    Pressed,
    Released,
}

} // verus!
