use bigsound::profile::Profile;
use bigsound::push::{PushEvent, PushStage};
use bigsound::routing::{choose_output, load_output_device, save_output_device};
use bigsound::service::{user_profile_path, BigSoundService, SinkChange};
use bigsound::strmap::StrMap;

fn profile(name: &str, patterns: &[&str], params: &[(&str, f64)]) -> Profile {
    let mut map = StrMap::new();
    for (key, value) in params {
        map.insert(key.to_string(), value.to_bits());
    }
    Profile {
        name: name.to_string(),
        file: format!("{name}.json"),
        description: String::new(),
        match_patterns: patterns.iter().map(|p| p.to_string()).collect(),
        params: map,
    }
}

fn service(profiles: Vec<Profile>) -> BigSoundService {
    let mut map = StrMap::new();
    for p in profiles {
        map.insert(p.name.clone(), p);
    }
    BigSoundService::new(41, map, None)
}

fn value(s: &BigSoundService, name: &str) -> f64 {
    match s.get(name) {
        Ok(bits) => f64::from_bits(bits),
        Err(e) => panic!("{}", e.message),
    }
}

#[test]
fn a_new_service_has_the_defaults() {
    let s = service(vec![]);
    assert_eq!(s.node_id(), 41);
    assert_eq!(s.cache_gen(), 0);
    assert_eq!(s.list().len(), 17);
    assert_eq!(s.list()[0], "bigbass:target_freq");
    assert_eq!(s.list()[16], "bigloud:mix");
    assert_eq!(value(&s, "bigbass:target_freq"), 90.0);
    assert_eq!(value(&s, "bigloud:ceiling_db"), -1.0);
    assert_eq!(s.active_profile(), "");
    assert_eq!(s.get_output_device(), "");
    assert_eq!(s.profile_count(), 0);
    assert_eq!(s.cache_snapshot().len(), 25);
}

#[test]
fn set_then_get() {
    let mut s = service(vec![]);
    let pushes = s.set("bigbass:drive", 0.75f64.to_bits()).ok().unwrap();
    let pairs: Vec<(&str, f64)> =
        pushes.iter().map(|p| (p.internal, f64::from_bits(p.value))).collect();
    assert_eq!(pairs, vec![("bigbass_l:drive", 0.75), ("bigbass_r:drive", 0.75)]);
    assert_eq!(value(&s, "bigbass:drive"), 0.75);
    assert_eq!(value(&s, "bigbass:mix"), 0.35);
    assert_eq!(s.cache_gen(), 1);
    s.set("bigbass:drive", 0.5f64.to_bits()).ok().unwrap();
    assert_eq!(value(&s, "bigbass:drive"), 0.5);
    assert_eq!(s.cache_gen(), 2);
}

#[test]
fn bad_parameters_are_refused() {
    let mut s = service(vec![]);
    let e = s.set("nobody", 1f64.to_bits()).err().unwrap();
    assert_eq!(e.message, "unknown parameter 'nobody'");
    let e = s.get("nobody").err().unwrap();
    assert_eq!(e.message, "unknown parameter 'nobody'");
    for v in [f64::NAN, f64::INFINITY, f64::NEG_INFINITY] {
        let e = s.set("nobody", v.to_bits()).err().unwrap();
        assert_eq!(e.message, format!("value must be finite (got {v})"));
    }
    assert_eq!(s.cache_gen(), 0);
    assert!(s.set("bigbass:mix", f64::MAX.to_bits()).is_ok());
}

#[test]
fn profiles_are_listed_in_order() {
    let s = service(vec![
        profile("b", &[], &[]),
        profile("B", &[], &[]),
        profile("a", &[], &[]),
        profile("10", &[], &[]),
    ]);
    assert_eq!(s.list_profiles(), vec!["10", "B", "a", "b"]);
    assert_eq!(s.profile_count(), 4);
}

#[test]
fn applying_a_profile() {
    let mut s = service(vec![profile("P", &[], &[("bigbass:mix", 0.9), ("bigloud:mix", 0.5)])]);
    let pushes = s.apply_profile("P").ok().unwrap();
    assert_eq!(pushes.len(), 25);
    assert_eq!(value(&s, "bigbass:mix"), 0.9);
    assert_eq!(value(&s, "bigloud:mix"), 0.5);
    assert_eq!(value(&s, "bigbass:drive"), 0.45);
    assert_eq!(s.active_profile(), "P");
    assert_eq!(s.cache_gen(), 1);
    let e = s.apply_profile("Q").err().unwrap();
    assert_eq!(e.message, "no such profile 'Q'");
    assert_eq!(s.get_profile("Q").err().unwrap().message, "no such profile 'Q'");
    assert_eq!(s.get_profile("P").ok().unwrap().name, "P");
    s.apply_profile("P").ok().unwrap();
    assert_eq!(value(&s, "bigbass:mix"), 0.9);
}

#[test]
fn saving_and_applying_brings_the_values_back() {
    let mut s = service(vec![]);
    s.set("bigbass:mix", 0.8f64.to_bits()).ok().unwrap();
    let (saved, path) = s.save_profile("My Mix", "/u/profiles").ok().unwrap();
    assert_eq!(path, "/u/profiles/99-user-My Mix.json");
    assert_eq!(saved.name, "My Mix");
    assert_eq!(saved.file, "99-user-My Mix.json");
    assert_eq!(saved.description, "User-saved profile");
    assert!(saved.match_patterns.is_empty());
    assert_eq!(saved.params.len(), 17);
    s.profile_saved(saved);
    s.set("bigbass:mix", 0.1f64.to_bits()).ok().unwrap();
    s.apply_profile("My Mix").ok().unwrap();
    assert_eq!(value(&s, "bigbass:mix"), 0.8);
    assert_eq!(s.list_profiles(), vec!["My Mix"]);
}

#[test]
fn bad_profile_names_are_refused() {
    let s = service(vec![]);
    let text = "profile name must be 1..=64 ASCII chars: alphanumeric, '-', '_', or space";
    for name in ["", "a/b", "..", "é", "a\0", "a∕b", &"x".repeat(65)] {
        assert_eq!(s.save_profile(name, "/d").err().unwrap().message, text);
        assert_eq!(s.delete_profile(name, true).err().unwrap().message, text);
        assert_eq!(user_profile_path("/d", name).err().unwrap().message, text);
    }
    assert!(s.save_profile(&"x".repeat(64), "/d").is_ok());
    assert!(s.save_profile("a-B_9 z", "/d").is_ok());
}

#[test]
fn deleting_a_profile() {
    let mut s = service(vec![profile("P", &[], &[]), profile("Q", &[], &[])]);
    let e = s.delete_profile("P", false).err().unwrap();
    assert_eq!(e.message, "no user profile 'P' (built-in profiles can't be deleted)");
    assert!(s.delete_profile("P", true).is_ok());
    s.profile_deleted("P");
    assert_eq!(s.list_profiles(), vec!["Q"]);
    s.profile_deleted("P");
    assert_eq!(s.list_profiles(), vec!["Q"]);
}

#[test]
fn choosing_an_output() {
    let mut s = service(vec![]);
    assert_eq!(s.set_output_device(" alsa.usb \n").ok().unwrap(), Some("alsa.usb".to_string()));
    assert_eq!(s.get_output_device(), "alsa.usb");
    assert_eq!(s.enforce_output_device(), Some("alsa.usb".to_string()));
    let e = s.set_output_device(" BigSound ").err().unwrap();
    assert_eq!(e.message, "invalid sink name ' BigSound '");
    assert_eq!(s.get_output_device(), "alsa.usb");
    for name in ["", "  ", "auto", "AUTO", " Automatic "] {
        assert_eq!(s.set_output_device(name).ok().unwrap(), None);
        assert_eq!(s.get_output_device(), "");
        assert_eq!(s.enforce_output_device(), None);
    }
    for name in ["a b", "é", "a\u{7}b", &"x".repeat(257)] {
        assert!(s.set_output_device(name).is_err());
    }
    assert!(s.set_output_device(&"x".repeat(256)).is_ok());
}

#[test]
fn the_choice_survives_a_restart() {
    for name in ["alsa.usb", "", "auto", " x "] {
        let target = choose_output(name).ok().unwrap();
        let text = save_output_device(&target);
        assert_eq!(load_output_device(Some(&text)), target);
        assert_eq!(choose_output(&text).ok().unwrap(), target);
    }
    assert_eq!(load_output_device(None), None);
    assert_eq!(load_output_device(Some(" \n")), None);
    assert_eq!(load_output_device(Some("usb\n")), Some("usb".to_string()));
    let s = BigSoundService::new(1, StrMap::new(), Some("usb".to_string()));
    assert_eq!(s.get_output_device(), "usb");
}

#[test]
fn routing_the_output() {
    let mut s = service(vec![]);
    assert_eq!(s.route_output(Some("usb"), None), None);
    assert_eq!(
        s.route_output(Some("usb"), Some(9)).unwrap(),
        vec!["-n", "default", "9", "target.object", "\"usb\"", "Spa:String:JSON"]
    );
    assert_eq!(
        s.route_output(None, Some(9)).unwrap(),
        vec!["-n", "default", "-d", "9", "target.object"]
    );
}

fn gone() -> PushEvent {
    PushEvent::Pushed(Err("no global 41".to_string()))
}

#[test]
fn a_fresh_node_id_is_kept_on_a_retry() {
    let mut s = service(vec![]);
    let stage = s.begin_push();
    assert!(matches!(stage, PushStage::Push { node_id: 41, retry: false }));
    let stage = s.push_step(stage, gone());
    assert!(matches!(stage, PushStage::Discover { node_id: 41, .. }));
    assert_eq!(s.node_id(), 41);
    let stage = s.push_step(stage, PushEvent::Discovered(Some(77)));
    assert!(matches!(stage, PushStage::Push { node_id: 77, retry: true }));
    assert_eq!(s.node_id(), 77);
    let stage = s.push_step(stage, gone());
    assert!(matches!(stage, PushStage::Done(Err(_))));
    assert_eq!(s.node_id(), 77);
    assert!(matches!(s.begin_push(), PushStage::Push { node_id: 77, retry: false }));
}

#[test]
fn the_node_id_stays_without_a_retry() {
    for found in [Some(41), None] {
        let mut s = service(vec![]);
        let stage = s.begin_push();
        let stage = s.push_step(stage, gone());
        match s.push_step(stage, PushEvent::Discovered(found)) {
            PushStage::Done(Err(e)) => assert_eq!(e, "no global 41"),
            _ => panic!("not over"),
        }
        assert_eq!(s.node_id(), 41);
    }
    let mut s = service(vec![]);
    for outcome in [Ok(()), Err("denied".to_string())] {
        let stage = s.begin_push();
        let stage = s.push_step(stage, PushEvent::Pushed(outcome));
        assert!(matches!(stage, PushStage::Done(_)));
        assert_eq!(s.node_id(), 41);
    }
}

#[test]
fn default_sink_readings() {
    let mut s = service(vec![]);
    let read = |s: &mut BigSoundService, sink: &str| s.note_default_sink(&Some(sink.to_string()));
    assert_eq!(s.note_default_sink(&None), SinkChange::Missing);
    assert_eq!(read(&mut s, "BigSound"), SinkChange::Own);
    assert_eq!(read(&mut s, "BigSound::port"), SinkChange::Own);
    assert_eq!(s.last_default_sink(), None);
    assert_eq!(read(&mut s, "BigSoundX"), SinkChange::Changed);
    assert_eq!(s.last_default_sink(), Some("BigSoundX".to_string()));
    assert_eq!(read(&mut s, "BigSoundX"), SinkChange::Same);
    assert_eq!(read(&mut s, "BigSound"), SinkChange::Own);
    assert_eq!(read(&mut s, "BigSoundX"), SinkChange::Same);
    assert_eq!(read(&mut s, "usb::p"), SinkChange::Changed);
    assert_eq!(read(&mut s, "BigSoundX"), SinkChange::Changed);
}

#[test]
fn unknown_sinks_fall_back_to_bigsound() {
    let mut s = service(vec![
        profile("BigSound", &[], &[("bigbass:mix", 0.25)]),
        profile("Bluetooth", &["^bluez"], &[("bigbass:mix", 0.75)]),
    ]);
    assert_eq!(s.profile_for("bluez.1").unwrap().name, "Bluetooth");
    assert_eq!(s.profile_for("unknown").unwrap().name, "BigSound");
    assert_eq!(s.or_fallback(None).unwrap().name, "BigSound");
    let (name, pushes) = s.apply_for_sink("unknown").unwrap();
    assert_eq!((name.as_str(), pushes.len()), ("BigSound", 25));
    assert_eq!(value(&s, "bigbass:mix"), 0.25);
    assert_eq!(s.active_profile(), "BigSound");
    let mut empty = service(vec![]);
    assert!(empty.apply_for_sink("unknown").is_none());
    assert!(empty.or_fallback(None).is_none());
    assert!(empty.apply_found(None).is_none());
    let (name, _) = empty.apply_found(Some(profile("X", &[], &[("bigbass:mix", 0.125)]))).unwrap();
    assert_eq!(name, "X");
    assert_eq!(value(&empty, "bigbass:mix"), 0.125);
    empty = service(vec![]);
    assert!(empty.apply_for_sink("other").is_none());
    assert_eq!(empty.active_profile(), "");
}
