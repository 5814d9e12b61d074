use midi_mapper_linux::action::{
    cycle_audio_command, cycle_audio_has_outputs,
    execute_cycle_audio, execute_media, execute_mute_toggle, execute_next_track, execute_pause,
    execute_play, execute_play_pause, execute_previous_track, execute_volume_change,
    get_default_sink_command, list_sinks_command, mpris_players, next_sink_index,
    player_query_command, sink_names, volume_percent, Effect, MediaMethod, ProcessCommand,
};
use midi_mapper_linux::Action;

fn cmd(c: &ProcessCommand) -> (String, Vec<String>) {
    (c.program.clone(), c.args.clone())
}

fn strs(v: &[&str]) -> Vec<String> {
    v.iter().map(|s| s.to_string()).collect()
}

#[test]
fn labels_of_every_action() {
    let expected = [
        "None",
        "System Volume",
        "Mute Toggle",
        "Play/Pause",
        "Cycle Audio Output",
        "Next Track",
        "Previous Track",
        "Play",
        "Pause",
    ];
    let all = Action::all();
    for (i, a) in all.iter().enumerate() {
        assert_eq!(a.label(), expected[i]);
    }
}

#[test]
fn index_and_from_round_trip() {
    for (i, a) in Action::all().iter().enumerate() {
        assert_eq!(a.index(), i as u32);
        assert_eq!(Action::from(a.index()), *a);
        assert_eq!(Action::from_index(i as u32), *a);
    }
    assert_eq!(Action::from(0u32), Action::NoAction);
    assert_eq!(Action::from(9u32), Action::NoAction);
    assert_eq!(Action::from(u32::MAX), Action::NoAction);
    assert_eq!(Action::COUNT, 9);
    assert_eq!(Action::ALL, Action::all());
    assert_eq!(Action::ALL[3], Action::PlayPause);
}

#[test]
fn should_execute_rules() {
    assert!(!Action::NoAction.should_execute(0));
    assert!(!Action::NoAction.should_execute(127));
    assert!(Action::SystemVolume.should_execute(0));
    assert!(Action::SystemVolume.should_execute(64));
    for a in [
        Action::Mute,
        Action::PlayPause,
        Action::CycleAudioOutput,
        Action::NextTrack,
        Action::PreviousTrack,
        Action::Play,
        Action::Pause,
    ] {
        assert!(!a.should_execute(0));
        assert!(a.should_execute(1));
        assert!(a.should_execute(127));
    }
}

#[test]
fn volume_matches_float_formula() {
    for v in 0..=255u8 {
        let expected = (v as f64 / 127.0 * 100.0) as u32;
        assert_eq!(volume_percent(v), expected, "value {}", v);
    }
    assert_eq!(volume_percent(0), 0);
    assert_eq!(volume_percent(127), 100);
    assert_eq!(volume_percent(64), 50);
}

#[test]
fn volume_command_text() {
    let c = execute_volume_change(127);
    assert_eq!(
        cmd(&c),
        ("pactl".to_string(), strs(&["set-sink-volume", "@DEFAULT_SINK@", "100%"]))
    );
    let c = execute_volume_change(0);
    assert_eq!(c.args[2], "0%");
    let c = execute_volume_change(13);
    assert_eq!(c.args[2], "10%");
}

#[test]
fn fixed_pactl_commands() {
    assert_eq!(
        cmd(&execute_mute_toggle()),
        ("pactl".to_string(), strs(&["set-sink-mute", "@DEFAULT_SINK@", "toggle"]))
    );
    assert_eq!(
        cmd(&list_sinks_command()),
        ("pactl".to_string(), strs(&["list", "short", "sinks"]))
    );
    assert_eq!(
        cmd(&get_default_sink_command()),
        ("pactl".to_string(), strs(&["get-default-sink"]))
    );
    assert_eq!(cmd(&player_query_command()), ("qdbus".to_string(), vec![]));
}

#[test]
fn execute_dispatches_each_action() {
    assert!(matches!(Action::NoAction.execute(127), Effect::Nothing));
    assert!(matches!(Action::Mute.execute(0), Effect::Nothing));
    match Action::SystemVolume.execute(127) {
        Effect::Run(c) => assert_eq!(c.args[2], "100%"),
        _ => panic!("volume runs a command"),
    }
    match Action::Mute.execute(1) {
        Effect::Run(c) => assert_eq!(c.args[2], "toggle"),
        _ => panic!("mute runs a command"),
    }
    assert!(matches!(Action::PlayPause.execute(1), Effect::Media(MediaMethod::PlayPause)));
    assert!(matches!(Action::NextTrack.execute(1), Effect::Media(MediaMethod::Next)));
    assert!(matches!(Action::PreviousTrack.execute(1), Effect::Media(MediaMethod::Previous)));
    assert!(matches!(Action::Play.execute(1), Effect::Media(MediaMethod::Play)));
    assert!(matches!(Action::Pause.execute(1), Effect::Media(MediaMethod::Pause)));
    assert!(matches!(Action::CycleAudioOutput.execute(1), Effect::CycleAudioOutput));
    assert!(matches!(Action::CycleAudioOutput.execute(0), Effect::Nothing));
}

const PACTL_SINKS: &str = "47\talsa_output.pci-0000_00_1f.3.analog-stereo\tmodule-alsa-card.c\ts32le 2ch 48000Hz\tSUSPENDED\n\
52\tbluez_output.AA_BB.1\tmodule-bluez5-device.c\ts16le 2ch 44100Hz\tRUNNING\n\
nofieldline\n\
60\tcombined\n";

#[test]
fn sink_names_from_listing() {
    assert_eq!(
        sink_names(PACTL_SINKS),
        strs(&[
            "alsa_output.pci-0000_00_1f.3.analog-stereo",
            "bluez_output.AA_BB.1",
            "combined"
        ])
    );
    assert!(sink_names("").is_empty());
    assert!(sink_names("no tabs here\nnor here").is_empty());
    assert_eq!(sink_names("1\t\t\n"), strs(&[""]));
}

#[test]
fn cycle_moves_to_next_and_wraps() {
    let sinks = sink_names(PACTL_SINKS);
    assert_eq!(next_sink_index(&sinks, "alsa_output.pci-0000_00_1f.3.analog-stereo\n"), 1);
    assert_eq!(next_sink_index(&sinks, "  bluez_output.AA_BB.1 \n"), 2);
    assert_eq!(next_sink_index(&sinks, "combined"), 0);
    assert_eq!(next_sink_index(&sinks, "unknown"), 0);
    assert_eq!(next_sink_index(&sinks, ""), 0);
    let c = execute_cycle_audio(&sinks, "combined\n");
    assert_eq!(
        cmd(&c),
        (
            "pactl".to_string(),
            strs(&["set-default-sink", "alsa_output.pci-0000_00_1f.3.analog-stereo"])
        )
    );
    let one = strs(&["only"]);
    assert_eq!(next_sink_index(&one, "only"), 0);
}

const QDBUS: &str = ":1.0\n org.freedesktop.DBus\n org.mpris.MediaPlayer2.spotify\r\n org.mpris.MediaPlayer2.vlc.instance42 \norg.kde.kded6\n";

#[test]
fn players_from_listing() {
    assert_eq!(
        mpris_players(QDBUS),
        strs(&["org.mpris.MediaPlayer2.spotify", "org.mpris.MediaPlayer2.vlc.instance42"])
    );
    assert!(mpris_players("").is_empty());
    assert!(mpris_players("org.mpris.MediaPlayer\n").is_empty());
}

#[test]
fn media_commands_for_every_player() {
    let cs = execute_play_pause(QDBUS);
    assert_eq!(cs.len(), 2);
    assert_eq!(
        cmd(&cs[0]),
        (
            "qdbus".to_string(),
            strs(&[
                "org.mpris.MediaPlayer2.spotify",
                "/org/mpris/MediaPlayer2",
                "org.mpris.MediaPlayer2.Player.PlayPause"
            ])
        )
    );
    assert_eq!(cs[1].args[0], "org.mpris.MediaPlayer2.vlc.instance42");
    assert_eq!(execute_next_track(QDBUS)[0].args[2], "org.mpris.MediaPlayer2.Player.Next");
    assert_eq!(
        execute_previous_track(QDBUS)[1].args[2],
        "org.mpris.MediaPlayer2.Player.Previous"
    );
    assert_eq!(execute_play(QDBUS)[0].args[2], "org.mpris.MediaPlayer2.Player.Play");
    assert_eq!(execute_pause(QDBUS)[0].args[2], "org.mpris.MediaPlayer2.Player.Pause");
    assert_eq!(
        execute_media(MediaMethod::Next, QDBUS)[1].args[2],
        "org.mpris.MediaPlayer2.Player.Next"
    );
    assert!(execute_play("").is_empty());
}

#[test]
fn cycle_command_needs_listing_outputs_and_current() {
    assert!(!cycle_audio_has_outputs(None));
    assert!(!cycle_audio_has_outputs(Some("")));
    assert!(!cycle_audio_has_outputs(Some("no tabs\n")));
    assert!(cycle_audio_has_outputs(Some(PACTL_SINKS)));
    assert!(cycle_audio_command(None, Some("combined")).is_none());
    assert!(cycle_audio_command(Some(""), Some("combined")).is_none());
    assert!(cycle_audio_command(Some(PACTL_SINKS), None).is_none());
    let c = cycle_audio_command(Some(PACTL_SINKS), Some("combined\n")).unwrap();
    assert_eq!(
        cmd(&c),
        (
            "pactl".to_string(),
            strs(&["set-default-sink", "alsa_output.pci-0000_00_1f.3.analog-stereo"])
        )
    );
}

#[test]
fn cycling_n_times_visits_every_output_once() {
    let sinks = sink_names(PACTL_SINKS);
    let n = sinks.len();
    for start in 0..n {
        let mut current = format!("{}\n", sinks[start]);
        let mut seen = Vec::new();
        for _ in 0..n {
            let c = execute_cycle_audio(&sinks, &current);
            let next = c.args[1].clone();
            seen.push(next.clone());
            current = format!("{}\n", next);
        }
        assert_eq!(seen[n - 1], sinks[start]);
        let mut sorted = seen.clone();
        sorted.sort();
        sorted.dedup();
        assert_eq!(sorted.len(), n);
        assert_eq!(seen[0], sinks[(start + 1) % n]);
    }
}
