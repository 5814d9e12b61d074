use midi_mapper_linux::config::{autostart_plan, load_config_from, AutostartPlan, ConfigFile};
use midi_mapper_linux::{Action, Config};
use std::collections::HashMap;

const ORIGINAL_ENTRY: &str = "[Desktop Entry]\n\
            Type=Application\n\
            Name=MIDI Mapper\n\
            Exec=midi-mapper-linux --background\n\
            Icon=midi-mapper-linux\n\
            Terminal=false\n\
            Categories=Audio;AudioVideo;\n\
            X-GNOME-Autostart-enabled=true";

#[test]
fn default_config_is_empty_and_off() {
    let c = Config::default();
    assert!(c.mappings.is_empty());
    assert!(!c.background_enabled);
    assert!(!c.autostart_enabled);
}

#[test]
fn missing_file_turns_background_on() {
    let c = load_config_from(ConfigFile::Unreadable);
    assert!(c.mappings.is_empty());
    assert!(c.background_enabled);
    assert!(!c.autostart_enabled);
}

#[test]
fn malformed_file_gives_defaults() {
    let c = load_config_from(ConfigFile::Malformed);
    assert!(c.mappings.is_empty());
    assert!(!c.background_enabled);
    assert!(!c.autostart_enabled);
}

#[test]
fn parsed_file_is_kept() {
    let mut m = HashMap::new();
    m.insert(16u8, Action::SystemVolume);
    m.insert(41u8, Action::PlayPause);
    let c = Config { mappings: m.clone(), background_enabled: false, autostart_enabled: true };
    let r = load_config_from(ConfigFile::Parsed(c));
    assert_eq!(r.mappings, m);
    assert!(!r.background_enabled);
    assert!(r.autostart_enabled);
}

#[test]
fn autostart_entry_text() {
    match autostart_plan(true) {
        AutostartPlan::Install(s) => assert_eq!(s, ORIGINAL_ENTRY),
        AutostartPlan::Remove => panic!("enabling installs the entry"),
    }
    assert!(matches!(autostart_plan(false), AutostartPlan::Remove));
}

#[test]
fn with_autostart_sets_only_the_switch() {
    let mut m = HashMap::new();
    m.insert(3u8, Action::Mute);
    let c = Config { mappings: m.clone(), background_enabled: true, autostart_enabled: false };
    let c = c.with_autostart(true);
    assert_eq!(c.mappings, m);
    assert!(c.background_enabled);
    assert!(c.autostart_enabled);
    let c = c.with_autostart(false);
    assert!(!c.autostart_enabled);
    assert!(c.background_enabled);
}
