//! Input capabilities of a seat.

use vstd::prelude::*;
use wayland_client::protocol::wl_seat::Capability;

verus! {

/// The bit of the seat's capability mask that stands for a keyboard.
pub const KEYBOARD: u32 = 2;

/// The key code that ends the session: the topmost-left key.
pub const EXIT_KEY: u32 = 1;

/// Whether a capability mask announces a keyboard.
pub open spec fn offers_keyboard(capabilities: u32) -> bool {
    capabilities & KEYBOARD == KEYBOARD
}

/// Calls `contains` of wayland-client's `wl_seat::Capability` with
/// `Capability::Keyboard` on the mask, taken as it stands by
/// `Capability::from_bits_retain`. Trusted: the protocol gives the keyboard
/// the value 2, and `contains` holds exactly when every bit of its argument
/// is set in the mask.
#[verifier::external_body]
pub(crate) fn mask_contains_keyboard(capabilities: u32) -> (held: bool)
    ensures
        held == (capabilities & 2 == 2),
{
    Capability::from_bits_retain(capabilities).contains(Capability::Keyboard)
}

} // verus!
