//! Capture arbitration between spatial input methods and input handlers,
//! with the delta-tracking handler actions that build on it.
//!
//! Input methods (hands, controller tips, rays) compete for input handlers.
//! In every tick each method is offered to the handlers in the order of
//! their nearness, and goes to the first that has asked for it. The handlers
//! are told of the methods that they hold and of those that nobody holds,
//! and answer with requests and releases. A request counts in the next tick
//! and in no later one: a handler that is to keep a method asks for it in
//! every tick.
//!
//! The methods and the handlers of a tick are handed over as two lists, the
//! registry. A tick runs in this order: the ordering of the candidates of
//! each input method (`order_handlers`), `arbitrate`, `send_input_data`, the
//! updates of the handlers' actions, and `transfer_input_method_events`.
//!
//! The library knows nothing of geometry. Lengths come to it as ordered
//! integer keys, and what a method reports to a handler is carried as it is.

use vstd::prelude::*;

pub mod default_input_methods;
pub mod entity;
pub mod hand;
pub mod handler_actions;
pub mod input_handler;
pub mod input_method;
pub mod input_method_capturing;
pub mod input_method_data;
pub mod order_helper;

verus! {

/// What is to be done about the mark that keeps an input method out of the
/// protocol.
#[derive(Clone, Copy, Debug, PartialEq, Eq, Structural)]
pub enum DisabledChange {
    /// The method is tracked again: the mark goes.
    Remove,
    /// The method lost tracking: it gets the mark.
    Insert,
    /// The mark says what is the case.
    Keep,
}

/// Holds the mark of an input method against whether the method is tracked.
pub fn update_input_method_disabled(active: bool, currently_disabled: bool) -> (change:
    DisabledChange)
    ensures
        change == if active && currently_disabled {
            DisabledChange::Remove
        } else if !active && !currently_disabled {
            DisabledChange::Insert
        } else {
            DisabledChange::Keep
        },
{
    match (active, currently_disabled) {
        (true, true) => DisabledChange::Remove,
        (false, false) => DisabledChange::Insert,
        _ => DisabledChange::Keep,
    }
}

} // verus!
