use bigsound::background::{Action, Background, Event, Rest};
use bigsound::profile::Profile;
use bigsound::service::BigSoundService;
use bigsound::strmap::StrMap;

fn start(profiles: &[(&str, &str)], output: Option<&str>) -> (Background, BigSoundService) {
    let mut map = StrMap::new();
    for (name, pattern) in profiles {
        let mut params = StrMap::new();
        params.insert("bigbass:mix".to_string(), 0.5f64.to_bits());
        map.insert(
            name.to_string(),
            Profile {
                name: name.to_string(),
                file: format!("{name}.json"),
                description: String::new(),
                match_patterns: vec![pattern.to_string()],
                params,
            },
        );
    }
    let service = BigSoundService::new(41, map, output.map(|s| s.to_string()));
    (Background::new(), service)
}

fn read(sink: &str) -> Event {
    Event::SinkRead(Some(sink.to_string()))
}

#[test]
fn nothing_is_pushed_without_a_change() {
    let (mut b, mut s) = start(&[], None);
    assert!(matches!(b.run_background(&mut s, Event::Woke), Action::ReadSink));
    let action = b.run_background(&mut s, Event::SinkRead(None));
    assert!(matches!(action, Action::Sleep(Rest::NoSink)));
}

#[test]
fn a_change_is_pushed_once() {
    let (mut b, mut s) = start(&[], None);
    s.set("bigbass:mix", 0.1f64.to_bits()).ok().unwrap();
    match b.run_background(&mut s, Event::Woke) {
        Action::Push(pushes) => assert_eq!(pushes.len(), 25),
        _ => panic!("no push"),
    }
    assert!(matches!(b.run_background(&mut s, Event::Pushed), Action::ReadSink));
    assert!(matches!(b.run_background(&mut s, read("BigSound")), Action::Sleep(Rest::OwnSink)));
    assert!(matches!(b.run_background(&mut s, Event::Woke), Action::ReadSink));
}

#[test]
fn the_output_is_pinned_in_every_round() {
    let (mut b, mut s) = start(&[], Some("usb"));
    for id in [7u32, 8] {
        assert!(matches!(b.run_background(&mut s, Event::Woke), Action::Locate));
        match b.run_background(&mut s, Event::Located(Some(id))) {
            Action::Pin { sink, args } => {
                assert_eq!(sink, "usb");
                assert_eq!(args[2], id.to_string());
            }
            _ => panic!("no pin"),
        }
        assert!(matches!(b.run_background(&mut s, Event::Pinned), Action::ReadSink));
        b.run_background(&mut s, Event::SinkRead(None));
    }
    assert!(matches!(b.run_background(&mut s, Event::Woke), Action::Locate));
    assert!(matches!(b.run_background(&mut s, Event::Located(None)), Action::ReadSink));
}

#[test]
fn a_new_sink_gets_its_profile_once() {
    let (mut b, mut s) = start(&[("Bluetooth", "^bluez"), ("BigSound", "^$")], None);
    b.run_background(&mut s, Event::Woke);
    match b.run_background(&mut s, read("bluez.1")) {
        Action::Apply { profile, pushes } => {
            assert_eq!(profile, "Bluetooth");
            assert_eq!(pushes.len(), 25);
        }
        _ => panic!("no profile"),
    }
    assert_eq!(s.active_profile(), "Bluetooth");
    assert!(matches!(b.run_background(&mut s, Event::Pushed), Action::Sleep(Rest::Applied)));
    assert!(matches!(b.run_background(&mut s, Event::Woke), Action::Push(_)));
    assert!(matches!(b.run_background(&mut s, Event::Pushed), Action::ReadSink));
    assert!(matches!(b.run_background(&mut s, read("bluez.1")), Action::Sleep(Rest::SameSink)));
    b.run_background(&mut s, Event::Woke);
    match b.run_background(&mut s, read("other")) {
        Action::Apply { profile, .. } => assert_eq!(profile, "BigSound"),
        _ => panic!("no fallback"),
    }
}

#[test]
fn a_sink_without_a_profile_is_remembered() {
    let (mut b, mut s) = start(&[], None);
    b.run_background(&mut s, Event::Woke);
    assert!(matches!(b.run_background(&mut s, read("x")), Action::Sleep(Rest::NoProfile)));
    b.run_background(&mut s, Event::Woke);
    assert!(matches!(b.run_background(&mut s, read("x")), Action::Sleep(Rest::SameSink)));
}

#[test]
fn stray_events_are_ignored() {
    let (mut b, mut s) = start(&[], Some("usb"));
    assert!(matches!(b.run_background(&mut s, Event::Pushed), Action::Ignore));
    assert!(matches!(b.run_background(&mut s, read("x")), Action::Ignore));
    assert!(matches!(b.run_background(&mut s, Event::Woke), Action::Locate));
    assert!(matches!(b.run_background(&mut s, Event::Woke), Action::Ignore));
    assert!(matches!(b.run_background(&mut s, Event::Located(None)), Action::ReadSink));
}
