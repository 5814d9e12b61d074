use midi_mapper_linux::action::Effect;
use midi_mapper_linux::midi::{
    controller_event, dispatch_controller, find_device_client, find_readable_port, ClientInfo,
    PortInfo,
};
use midi_mapper_linux::Action;
use std::collections::HashMap;

#[test]
fn controller_numbers_truncate_like_casts() {
    for (p, v) in [(0u32, 0i32), (7, 127), (300, -1), (u32::MAX, i32::MIN), (256, 256), (65, -129)] {
        let e = controller_event(p, v);
        assert_eq!(e.cc, p as u8);
        assert_eq!(e.value, v as u8);
    }
}

#[test]
fn dispatch_runs_mapped_action() {
    let mut m = HashMap::new();
    m.insert(41u8, Action::PlayPause);
    m.insert(0u8, Action::SystemVolume);
    let d = dispatch_controller(&m, 41, 127);
    assert_eq!((d.event.cc, d.event.value), (41, 127));
    assert!(matches!(d.effect, Effect::Media(_)));
    let d = dispatch_controller(&m, 41, 0);
    assert!(matches!(d.effect, Effect::Nothing));
    let d = dispatch_controller(&m, 42, 127);
    assert!(matches!(d.effect, Effect::Nothing));
    let d = dispatch_controller(&m, 256, 64);
    match d.effect {
        Effect::Run(c) => assert_eq!(c.args[2], "50%"),
        _ => panic!("volume on cc 0"),
    }
}

fn client(id: i32, name: Option<&str>) -> ClientInfo {
    ClientInfo { id, name: name.map(|s| s.to_string()) }
}

#[test]
fn device_client_search() {
    let clients = vec![
        client(0, Some("System")),
        client(14, Some("nanoKONTROL2 fake system")),
        client(20, None),
        client(24, Some("nanoKONTROL2")),
        client(28, Some("nanoKONTROL2 second")),
    ];
    assert_eq!(find_device_client(&clients, "nanoKONTROL2"), Ok(24));
    assert_eq!(
        find_device_client(&clients, "Launchpad"),
        Err("Device 'Launchpad' not found".to_string())
    );
    assert_eq!(find_device_client(&clients, ""), Ok(20));
    assert_eq!(
        find_device_client(&vec![], "x"),
        Err("Device 'x' not found".to_string())
    );
}

#[test]
fn readable_port_search() {
    let ports = vec![
        PortInfo { id: 0, readable: false },
        PortInfo { id: 1, readable: true },
        PortInfo { id: 2, readable: true },
    ];
    assert_eq!(find_readable_port(&ports), Ok(1));
    assert_eq!(
        find_readable_port(&vec![PortInfo { id: 0, readable: false }]),
        Err("No readable port found".to_string())
    );
}
