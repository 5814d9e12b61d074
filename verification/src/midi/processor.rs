//! Controller events: their two numbers, and the action the mapped control runs.
use vstd::prelude::*;

use crate::action::{Action, Effect, EffectView};
use crate::ui::state::mapped_action;
use std::collections::HashMap;

verus! {

broadcast use vstd::std_specs::hash::group_hash_axioms;

/// A controller change: which control moved, and to what value.
#[derive(Debug, Clone, Copy, PartialEq, Eq, Structural)]
pub struct ControllerEvent {
    pub cc: u8,
    pub value: u8,
}

/// The low byte of an integer, as a truncating cast to `u8` keeps it.
pub open spec fn low_byte(x: int) -> u8 {
    (x % 256) as u8
}

/// The low byte keeps a number below 256 as it is and forgets multiples of 256,
/// as a cast to `u8` does.
pub proof fn lemma_low_byte(x: int)
    ensures
        0 <= x < 256 ==> low_byte(x) == x,
        low_byte(x + 256) == low_byte(x),
        low_byte(x) as int == x - 256 * (x / 256),
{
    vstd::arithmetic::div_mod::lemma_fundamental_div_mod(x, 256);
    vstd::arithmetic::div_mod::lemma_mod_bound(x, 256);
    vstd::arithmetic::div_mod::lemma_mod_add_multiples_vanish(x, 256);
    if 0 <= x < 256 {
        vstd::arithmetic::div_mod::lemma_small_mod(x as nat, 256);
    }
}

/// The controller event that a sequencer event with parameter `param` and value
/// `value` stands for: both are cut down to their low byte.
pub fn controller_event(param: u32, value: i32) -> (r: ControllerEvent)
    ensures
        r.cc == low_byte(param as int),
        r.value == low_byte(value as int),
{
    let cc = (param % 256) as u8;
    let v = value as u32;
    assert(v as int == (if value >= 0 { value as int } else { value + 0x1_0000_0000 })) by (bit_vector)
        requires v == value as u32;
    let value_byte = (v % 256) as u8;
    assert((value as int) % 256 == (v as int) % 256);
    ControllerEvent { cc, value: value_byte }
}

/// What handling one controller event gives: the event, for the window, and
/// what its mapped action asks of the system.
pub struct Dispatch {
    pub event: ControllerEvent,
    pub effect: Effect,
}

/// Handles a controller event with the given mappings: the action the control
/// is mapped to is performed on the value; an unmapped control does nothing.
pub fn dispatch_controller(mappings: &HashMap<u8, Action>, param: u32, value: i32) -> (r: Dispatch)
    ensures
        r.event.cc == low_byte(param as int),
        r.event.value == low_byte(value as int),
        r.effect@ == mapped_action(mappings@, r.event.cc).effect(r.event.value),
{
    let event = controller_event(param, value);
    let effect = match mappings.get(&event.cc) {
        Some(action) => action.execute(event.value),
        None => Effect::Nothing,
    };
    Dispatch { event, effect }
}

} // verus!
