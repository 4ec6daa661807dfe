//! Bindings from physical controllers onto engine triggers and
//! values.

use vstd::prelude::*;

verus! {

/// What fires a trigger.
#[derive(Clone, Copy, Debug, PartialEq, Eq, Structural)]
pub enum TriggerBinding {
    MidiTrigger { channel: u8, note: u8 },
    KeyboardTrigger,
}

/// A momentary control: whether it is held and whether it fired on
/// the latest tick.
pub struct Trigger {
    pub bindings: Vec<TriggerBinding>,
    pub triggered: bool,
    pub just_triggered: bool,
}

impl Trigger {
    /// An idle trigger with the given bindings.
    pub fn new(bindings: Vec<TriggerBinding>) -> (r: Trigger)
        ensures
            r.bindings == bindings,
            !r.triggered,
            !r.just_triggered,
    {
        Trigger { bindings, triggered: false, just_triggered: false }
    }
}

/// What feeds a continuous value.
#[derive(Clone, Copy, Debug, PartialEq, Eq, Structural)]
pub enum ValueBinding {
    MidiValue { channel: u8, control: u8 },
}

} // verus!
