//! Screen-fade transition core.
//!
//! Coordinates a "fade to black and back" effect that is synchronized with a
//! discrete application-state change: darken every overlay, commit the pending
//! state exactly when an overlay first saturates at full opacity, then fade
//! back to clear.  The crate is generic over the kind of state being switched;
//! the host engine supplies the clock, the renderer and the surface
//! add/remove notifications, and drives the functions here once per tick.

pub mod alpha;
pub mod overlay;
pub mod transition;
