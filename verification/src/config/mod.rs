//! The saved settings: which action each control is mapped to, and two switches.
use vstd::prelude::*;

pub mod persistence;

pub use persistence::{autostart_plan, load_config_from, AutostartPlan, ConfigFile};

use crate::action::Action;
use std::collections::HashMap;

verus! {

/// The saved settings.
#[derive(Clone)]
pub struct Config {
    /// The action of each mapped control, by controller number.
    pub mappings: HashMap<u8, Action>,
    /// Whether the mappings stay active when the window is closed.
    pub background_enabled: bool,
    /// Whether the program starts when the user logs in.
    pub autostart_enabled: bool,
}

/// The mathematical value of a [`Config`].
pub struct ConfigView {
    pub mappings: Map<u8, Action>,
    pub background_enabled: bool,
    pub autostart_enabled: bool,
}

impl View for Config {
    type V = ConfigView;

    open spec fn view(&self) -> ConfigView {
        ConfigView {
            mappings: self.mappings@,
            background_enabled: self.background_enabled,
            autostart_enabled: self.autostart_enabled,
        }
    }
}

impl Config {
    /// The settings with the autostart switch set to `enabled` and all else kept.
    pub fn with_autostart(self, enabled: bool) -> (r: Config)
        ensures
            r.mappings@ == self.mappings@,
            r.background_enabled == self.background_enabled,
            r.autostart_enabled == enabled,
    {
        let mut c = self;
        c.autostart_enabled = enabled;
        c
    }
}

impl Default for Config {
    /// No mappings, and both switches off.
    fn default() -> (r: Config)
        ensures
            r.mappings@ == Map::<u8, Action>::empty(),
            !r.background_enabled,
            !r.autostart_enabled,
    {
        Config { mappings: HashMap::new(), background_enabled: false, autostart_enabled: false }
    }
}

} // verus!
