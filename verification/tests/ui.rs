use midi_mapper_linux::config::Config;
use midi_mapper_linux::ui::{
    cc_label, close_request, connection_status, row_name, row_to_add, start_minimized, AppState, CloseOutcome,
};
use midi_mapper_linux::Action;
use std::collections::HashMap;

fn state_with(pairs: &[(u8, Action)], background: bool) -> AppState {
    let mut m = HashMap::new();
    for (cc, a) in pairs {
        m.insert(*cc, *a);
    }
    AppState::new(Config { mappings: m, background_enabled: background, autostart_enabled: false })
}

#[test]
fn row_names_and_labels() {
    assert_eq!(row_name(0), "cc-000");
    assert_eq!(row_name(7), "cc-007");
    assert_eq!(row_name(42), "cc-042");
    assert_eq!(row_name(255), "cc-255");
    assert_eq!(cc_label(7), "CC07");
    assert_eq!(cc_label(42), "CC42");
    assert_eq!(cc_label(100), "CC100");
    for cc in 0..=255u8 {
        assert_eq!(row_name(cc), format!("cc-{:03}", cc));
        assert_eq!(cc_label(cc), format!("CC{:02}", cc));
    }
}

#[test]
fn rows_sort_by_controller_number() {
    for a in 0..=255u8 {
        for b in 0..=255u8 {
            assert_eq!(row_name(a) < row_name(b), a < b);
        }
    }
}

#[test]
fn update_mapping_sets_and_clears() {
    let mut s = state_with(&[(1, Action::Mute)], true);
    s.update_mapping(2, Action::Play);
    assert_eq!(s.mapping_for(2), Action::Play);
    assert_eq!(s.mapping_for(1), Action::Mute);
    s.update_mapping(1, Action::NoAction);
    assert_eq!(s.mapping_for(1), Action::NoAction);
    assert!(!s.mappings.contains_key(&1));
    s.update_mapping(2, Action::Pause);
    assert_eq!(s.mapping_for(2), Action::Pause);
    assert_eq!(s.mappings.len(), 1);
    assert!(s.is_background_enabled());
}

#[test]
fn remove_mapping_unmaps() {
    let mut s = state_with(&[(1, Action::Mute), (3, Action::Play)], false);
    s.remove_mapping(1);
    assert_eq!(s.mapping_for(1), Action::NoAction);
    assert_eq!(s.mapping_for(3), Action::Play);
    s.remove_mapping(99);
    assert_eq!(s.mappings.len(), 1);
}

#[test]
fn save_keeps_stored_autostart() {
    let mut s = state_with(&[(5, Action::NextTrack)], false);
    s.set_background_enabled(true);
    let stored = Config { mappings: HashMap::new(), background_enabled: false, autostart_enabled: true };
    let c = s.save(stored);
    assert_eq!(c.mappings.get(&5), Some(&Action::NextTrack));
    assert_eq!(c.mappings.len(), 1);
    assert!(c.background_enabled);
    assert!(c.autostart_enabled);
}

#[test]
fn close_and_start_choices() {
    assert_eq!(close_request(true), CloseOutcome::Hide);
    assert_eq!(close_request(false), CloseOutcome::Quit);
    assert!(start_minimized(true, true));
    assert!(!start_minimized(true, false));
    assert!(!start_minimized(false, true));
}

#[test]
fn status_line_texts() {
    assert_eq!(connection_status("nanoKONTROL2", &Ok(())), "✓ Connected to nanoKONTROL2");
    assert_eq!(
        connection_status("nanoKONTROL2", &Err("Device 'nanoKONTROL2' not found".to_string())),
        "× Device 'nanoKONTROL2' not found"
    );
}

#[test]
fn rows_are_added_once_per_control() {
    let shown = vec![3u8, 7];
    assert_eq!(row_to_add(None, &shown), None);
    assert_eq!(row_to_add(Some(7), &shown), None);
    assert_eq!(row_to_add(Some(9), &shown), Some(9));
    assert_eq!(row_to_add(Some(0), &vec![]), Some(0));
}
