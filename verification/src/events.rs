//! The event vocabulary of the multiplexed stream: periodic ticks, raw
//! input passed through untouched, and the application's own events. The
//! three sources feed one queue owned by the embedding program; the
//! consumer loop sees only values of this type.

use vstd::prelude::*;
use crate::types::Response;

verus! {

/// An event the application itself produces.
pub enum AppEvent {
    /// Stop consuming events and leave.
    Quit,
    /// The current input line was submitted.
    Enter,
    /// A response was delivered, by a handler or by the poller.
    Response(Response),
}

/// One event of the multiplexed stream. Raw input events are opaque to the
/// core and pass through to the presentation layer unchanged.
pub enum Event<I> {
    /// The periodic tick; carries nothing.
    Tick,
    /// One raw input event.
    Input(I),
    /// One application event.
    App(AppEvent),
}

} // verus!
