//! The mapping state the window and the MIDI thread share.
use vstd::prelude::*;

use crate::action::Action;
use crate::config::{Config, ConfigView};
use std::collections::HashMap;

verus! {

broadcast use vstd::std_specs::hash::group_hash_axioms;

/// The mappings in force and the background switch.
pub struct AppState {
    pub mappings: HashMap<u8, Action>,
    pub background_enabled: bool,
}

/// The action a control is mapped to in `m`: `NoAction` for an unmapped control.
pub open spec fn mapped_action(m: Map<u8, Action>, cc: u8) -> Action {
    if m.contains_key(cc) {
        m[cc]
    } else {
        Action::NoAction
    }
}

/// The mappings after choosing `action` for `cc`: choosing `NoAction` unmaps it.
pub open spec fn with_choice(m: Map<u8, Action>, cc: u8, action: Action) -> Map<u8, Action> {
    if action == Action::NoAction {
        m.remove(cc)
    } else {
        m.insert(cc, action)
    }
}

/// The settings that saving a state with these mappings and background switch
/// writes over the settings `stored`: only the autostart switch is kept from them.
pub open spec fn saved_config(mappings: Map<u8, Action>, background: bool, stored: ConfigView) -> ConfigView {
    ConfigView { mappings, background_enabled: background, autostart_enabled: stored.autostart_enabled }
}

impl AppState {
    /// The state that the saved settings start with.
    pub fn new(config: Config) -> (r: AppState)
        ensures
            r.mappings@ == config.mappings@,
            r.background_enabled == config.background_enabled,
    {
        AppState { mappings: config.mappings, background_enabled: config.background_enabled }
    }

    /// The settings that saving the state writes: its mappings and background
    /// switch, and the autostart switch of the settings already `stored`.
    pub fn save(&self, stored: Config) -> (r: Config)
        ensures
            r@ == saved_config(self.mappings@, self.background_enabled, stored@),
            r.mappings@ == self.mappings@,
            r.background_enabled == self.background_enabled,
            r.autostart_enabled == stored.autostart_enabled,
    {
        let mut config = stored;
        config.mappings = self.mappings.clone();
        config.background_enabled = self.background_enabled;
        config
    }

    /// Maps `cc` to `action`; `NoAction` unmaps it.
    pub fn update_mapping(&mut self, cc: u8, action: Action)
        ensures
            final(self).mappings@ == with_choice(old(self).mappings@, cc, action),
            final(self).background_enabled == old(self).background_enabled,
    {
        if action == Action::NoAction {
            self.mappings.remove(&cc);
        } else {
            self.mappings.insert(cc, action);
        }
    }

    /// Unmaps `cc`.
    pub fn remove_mapping(&mut self, cc: u8)
        ensures
            final(self).mappings@ == old(self).mappings@.remove(cc),
            final(self).background_enabled == old(self).background_enabled,
    {
        self.mappings.remove(&cc);
    }

    /// Sets the background switch.
    pub fn set_background_enabled(&mut self, enabled: bool)
        ensures
            final(self).mappings@ == old(self).mappings@,
            final(self).background_enabled == enabled,
    {
        self.background_enabled = enabled;
    }

    /// Whether the mappings stay active when the window is closed.
    pub fn is_background_enabled(&self) -> (r: bool)
        ensures
            r == self.background_enabled,
    {
        self.background_enabled
    }

    /// The action `cc` is mapped to, `NoAction` when it is unmapped.
    pub fn mapping_for(&self, cc: u8) -> (r: Action)
        ensures
            r == mapped_action(self.mappings@, cc),
    {
        match self.mappings.get(&cc) {
            Some(a) => *a,
            None => Action::NoAction,
        }
    }
}

/// A control reads back the action last chosen for it, and choosing an action
/// for one control leaves every other control as it was.
pub proof fn lemma_choice_read_back(m: Map<u8, Action>, cc: u8, action: Action, other: u8)
    requires
        other != cc,
    ensures
        mapped_action(with_choice(m, cc, action), cc) == action,
        mapped_action(with_choice(m, cc, action), other) == mapped_action(m, other),
{
}

/// Saving writes the state's own mappings and background switch whatever the stored
/// settings hold; only the autostart switch is taken from the stored settings.
pub proof fn lemma_save_takes_state(m: Map<u8, Action>, background: bool, stored: ConfigView)
    ensures
        saved_config(m, background, stored).mappings == m,
        saved_config(m, background, stored).background_enabled == background,
        saved_config(m, background, stored).autostart_enabled == stored.autostart_enabled,
{
}

/// Saving the state that settings were loaded into, over those same settings,
/// writes them back unchanged.
pub proof fn lemma_save_after_load(c: ConfigView)
    ensures
        saved_config(c.mappings, c.background_enabled, c) == c,
{
}

/// Clearing a control makes it read back as unmapped, as choosing `NoAction` does.
pub proof fn lemma_clear_is_no_action(m: Map<u8, Action>, cc: u8)
    ensures
        m.remove(cc) == with_choice(m, cc, Action::NoAction),
        mapped_action(m.remove(cc), cc) == Action::NoAction,
{
}

} // verus!
