//! What the saved settings are taken to be, and what the login autostart entry holds.
use vstd::prelude::*;

use crate::action::Action;
use crate::config::Config;
use std::collections::HashMap;
use vstd::string::StringExecFns;

verus! {

/// What reading the settings file gave.
pub enum ConfigFile {
    /// The file could not be read (most often: it does not exist yet).
    Unreadable,
    /// The file was read but does not hold valid settings.
    Malformed,
    /// The file holds these settings.
    Parsed(Config),
}

/// The settings in force after reading the settings file: what it holds; the
/// defaults when it holds no valid settings; and, when there is no file to read,
/// the defaults with background mode on.
pub fn load_config_from(file: ConfigFile) -> (r: Config)
    ensures
        match file {
            ConfigFile::Parsed(c) => r@ == c@,
            ConfigFile::Malformed => r.mappings@ == Map::<u8, Action>::empty()
                && !r.background_enabled && !r.autostart_enabled,
            ConfigFile::Unreadable => r.mappings@ == Map::<u8, Action>::empty()
                && r.background_enabled && !r.autostart_enabled,
        },
{
    match file {
        ConfigFile::Parsed(c) => c,
        ConfigFile::Malformed => Config::default(),
        ConfigFile::Unreadable => {
            let mut c = Config::default();
            c.background_enabled = true;
            c
        },
    }
}

/// The desktop entry that starts the program in the background at login.
pub open spec fn desktop_entry_text() -> Seq<char> {
    "[Desktop Entry]\nType=Application\nName=MIDI Mapper\nExec=midi-mapper-linux --background\nIcon=midi-mapper-linux\nTerminal=false\nCategories=Audio;AudioVideo;\nX-GNOME-Autostart-enabled=true"@
}

/// What keeping the login autostart entry in line with the switch asks for.
pub enum AutostartPlan {
    /// Write the entry with these contents (creating its directory).
    Install(String),
    /// Remove the entry.
    Remove,
}

/// The change to the autostart entry for the switch being `enabled`.
pub fn autostart_plan(enabled: bool) -> (r: AutostartPlan)
    ensures
        match r {
            AutostartPlan::Install(s) => enabled && s@ == desktop_entry_text(),
            AutostartPlan::Remove => !enabled,
        },
{
    if enabled {
        AutostartPlan::Install(
            String::from_str(
                "[Desktop Entry]\nType=Application\nName=MIDI Mapper\nExec=midi-mapper-linux --background\nIcon=midi-mapper-linux\nTerminal=false\nCategories=Audio;AudioVideo;\nX-GNOME-Autostart-enabled=true",
            ),
        )
    } else {
        AutostartPlan::Remove
    }
}

} // verus!
