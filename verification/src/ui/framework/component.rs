//! What a component answers to an event.
use vstd::prelude::*;

use crate::input::action::Action;

verus! {

/// The outcome of handing an event to a component.
#[derive(Debug, PartialEq, Eq)]
pub enum EventResult {
    /// Event was consumed by this component.
    Consumed,
    /// Event was not handled; pass to next layer.
    Ignored,
    /// Component emits an action.
    Action(Action),
}

} // verus!
