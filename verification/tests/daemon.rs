use midi_mapper_linux::action::Effect;
use midi_mapper_linux::daemon::Daemon;
use midi_mapper_linux::{Action, Config};
use std::collections::HashMap;

fn config(pairs: &[(u8, Action)]) -> Config {
    let mut m = HashMap::new();
    for (cc, a) in pairs {
        m.insert(*cc, *a);
    }
    Config { mappings: m, background_enabled: true, autostart_enabled: false }
}

#[test]
fn check_every_five_seconds() {
    assert!(!Daemon::config_check_due(0));
    assert!(!Daemon::config_check_due(5_000_000_000));
    assert!(Daemon::config_check_due(5_000_000_001));
}

#[test]
fn reload_only_when_count_changes() {
    let mut d = Daemon::new(config(&[(1, Action::Mute)]));
    assert!(!d.reload(config(&[(2, Action::Play)])));
    assert_eq!(d.mappings.get(&1), Some(&Action::Mute));
    assert!(d.reload(config(&[(2, Action::Play), (3, Action::Pause)])));
    assert_eq!(d.mapping_count(), 2);
    assert_eq!(d.mappings.get(&3), Some(&Action::Pause));
    assert!(d.reload(config(&[])));
    assert_eq!(d.mapping_count(), 0);
}

#[test]
fn controller_events_reach_actions() {
    let d = Daemon::new(config(&[(16, Action::SystemVolume), (45, Action::Mute)]));
    match d.on_controller(16, 127) {
        Effect::Run(c) => assert_eq!(c.args[2], "100%"),
        _ => panic!("volume"),
    }
    assert!(matches!(d.on_controller(45, 0), Effect::Nothing));
    assert!(matches!(d.on_controller(45, 127), Effect::Run(_)));
    assert!(matches!(d.on_controller(46, 127), Effect::Nothing));
}
