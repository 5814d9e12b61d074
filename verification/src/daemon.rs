//! The decisions of the background daemon: when to look at the settings again,
//! when to take up the mappings found there, and what a controller event does.
use vstd::prelude::*;

use crate::action::{Action, Effect};
use crate::config::Config;
use crate::midi::processor::{dispatch_controller, low_byte};
use crate::ui::state::mapped_action;
use std::collections::HashMap;

verus! {

broadcast use vstd::std_specs::hash::group_hash_axioms;

/// How long the daemon waits between looks at the settings file, in nanoseconds.
pub const CONFIG_CHECK_NANOS: u128 = 5_000_000_000;

/// The state the daemon keeps: the mappings in force.
pub struct Daemon {
    pub mappings: HashMap<u8, Action>,
}

impl Daemon {
    /// A daemon running the mappings of the saved settings.
    pub fn new(config: Config) -> (r: Daemon)
        ensures
            r.mappings@ == config.mappings@,
    {
        Daemon { mappings: config.mappings }
    }

    /// Whether it is time to read the settings again: more than five seconds
    /// have passed since the last look.
    pub fn config_check_due(elapsed_nanos: u128) -> (r: bool)
        ensures
            r == (elapsed_nanos > CONFIG_CHECK_NANOS),
    {
        elapsed_nanos > CONFIG_CHECK_NANOS
    }

    /// Takes up freshly read settings. The mappings are replaced only when their
    /// number differs from the number in force; the result says whether they were.
    pub fn reload(&mut self, fresh: Config) -> (r: bool)
        ensures
            r == (fresh.mappings@.len() != old(self).mappings@.len()),
            r ==> final(self).mappings@ == fresh.mappings@,
            !r ==> final(self).mappings@ == old(self).mappings@,
    {
        if fresh.mappings.len() != self.mappings.len() {
            self.mappings = fresh.mappings;
            true
        } else {
            false
        }
    }

    /// The number of mappings in force.
    pub fn mapping_count(&self) -> (r: usize)
        ensures
            r == self.mappings@.len(),
    {
        self.mappings.len()
    }

    /// What a controller event with parameter `param` and value `value` asks of
    /// the system: the mapped action performed on the value's low byte.
    pub fn on_controller(&self, param: u32, value: i32) -> (r: Effect)
        ensures
            r@ == mapped_action(self.mappings@, low_byte(param as int)).effect(
                low_byte(value as int),
            ),
    {
        dispatch_controller(&self.mappings, param, value).effect
    }
}

} // verus!
