use bigsound::controls::{push_cache_to_pipewire, push_param};
use bigsound::params::{param_named, resolve_internal, Param, PARAM_COUNT};
use bigsound::profile::{
    any_hit, byte_text, find_matching_profile, first_matching, is_acceptable_key, load_profiles,
    profile_files, sanitise_profile, Profile,
};
use bigsound::strmap::StrMap;

fn profile(name: &str, patterns: &[&str], params: &[(&str, f64)]) -> Profile {
    let mut map = StrMap::new();
    for (key, value) in params {
        map.insert(key.to_string(), value.to_bits());
    }
    Profile {
        name: name.to_string(),
        file: format!("{name}.json"),
        description: format!("{name} profile"),
        match_patterns: patterns.iter().map(|p| p.to_string()).collect(),
        params: map,
    }
}

fn keyed(profiles: Vec<Profile>) -> StrMap<Profile> {
    let mut map = StrMap::new();
    for p in profiles {
        map.insert(p.name.clone(), p);
    }
    map
}

const TABLE: [(&str, &[&str], f64); 17] = [
    ("bigbass:target_freq", &["bigbass_l:target_freq", "bigbass_r:target_freq"], 90.0),
    ("bigbass:drive", &["bigbass_l:drive", "bigbass_r:drive"], 0.45),
    ("bigbass:mix", &["bigbass_l:mix", "bigbass_r:mix"], 0.35),
    ("bigbass:cut_dry_lows", &["bigbass_l:cut_dry_lows", "bigbass_r:cut_dry_lows"], 0.0),
    ("bigbass:loudness_db", &["bigbass_l:loudness_db", "bigbass_r:loudness_db"], 2.5),
    ("bigclarity:target_freq", &["bigclarity_l:target_freq", "bigclarity_r:target_freq"], 4000.0),
    ("bigclarity:drive", &["bigclarity_l:drive", "bigclarity_r:drive"], 0.3),
    ("bigclarity:mix", &["bigclarity_l:mix", "bigclarity_r:mix"], 0.2),
    ("bigspace:width", &["bigspace:width"], 1.2),
    ("bigspace:bass_keep_hz", &["bigspace:bass_keep_hz"], 150.0),
    ("bigspace:mix", &["bigspace:mix"], 1.0),
    ("bigcross:amount", &["bigcross:amount"], 0.3),
    ("bigcross:cutoff_hz", &["bigcross:cutoff_hz"], 700.0),
    ("bigcross:delay_us", &["bigcross:delay_us"], 280.0),
    ("bigloud:amount", &["bigloud:amount"], 0.4),
    ("bigloud:ceiling_db", &["bigloud:ceiling_db"], -1.0),
    ("bigloud:mix", &["bigloud:mix"], 1.0),
];

#[test]
fn parameter_table() {
    assert_eq!(PARAM_COUNT, TABLE.len());
    for (i, (name, controls, default)) in TABLE.iter().enumerate() {
        let param = Param::at(i);
        assert_eq!(param.name(), *name);
        assert_eq!(param.internals(), controls.to_vec());
        assert_eq!(f64::from_bits(param.default_value()), *default);
        assert_eq!(resolve_internal(name), Some(controls.to_vec()));
        assert!(param_named(name) == Some(param));
    }
    assert_eq!(resolve_internal("bigbass_l:drive"), None);
    assert_eq!(resolve_internal(""), None);
}

#[test]
fn pushes_of_one_parameter() {
    let mut pushes = Vec::new();
    push_param(&mut pushes, Param::at(1), 7);
    let pairs: Vec<(&str, u64)> = pushes.iter().map(|p| (p.internal, p.value)).collect();
    assert_eq!(pairs, vec![("bigbass_l:drive", 7), ("bigbass_r:drive", 7)]);
}

#[test]
fn pushes_of_a_cache_follow_the_table() {
    let mut cache: StrMap<u64> = StrMap::new();
    cache.insert("bigloud:mix".to_string(), 3);
    cache.insert("bigbass:mix".to_string(), 1);
    cache.insert("nobody".to_string(), 9);
    let pushes = push_cache_to_pipewire(&cache);
    let pairs: Vec<(&str, u64)> = pushes.iter().map(|p| (p.internal, p.value)).collect();
    assert_eq!(pairs, vec![("bigbass_l:mix", 1), ("bigbass_r:mix", 1), ("bigloud:mix", 3)]);
}

#[test]
fn map_operations() {
    let mut map: StrMap<u64> = StrMap::new();
    map.insert("a".to_string(), 1);
    map.insert("b".to_string(), 2);
    map.insert("a".to_string(), 3);
    assert_eq!(map.len(), 2);
    assert_eq!(map.get("a"), Some(&3));
    let copy = map.clone();
    map.remove("a");
    map.remove("missing");
    assert_eq!(map.get("a"), None);
    assert_eq!(map.len(), 1);
    assert_eq!(copy.get("a"), Some(&3));
    assert_eq!(copy.len(), 2);
}

#[test]
fn acceptable_keys_are_parameters() {
    for (name, _, _) in TABLE {
        assert!(is_acceptable_key(name));
    }
    for name in ["", "bigbass", "bigbass:drive ", "bigbass:\u{7}drive", "évil"] {
        assert!(!is_acceptable_key(name));
    }
    assert!(!is_acceptable_key(&"x".repeat(65)));
}

#[test]
fn unknown_keys_are_dropped() {
    let mut p = profile("x", &[], &[("bigbass:mix", 0.5), ("evil", 1.0), ("", 2.0)]);
    let mut dropped = sanitise_profile(&mut p);
    dropped.sort();
    assert_eq!(dropped, vec!["".to_string(), "evil".to_string()]);
    assert_eq!(p.params.len(), 1);
    assert_eq!(p.params.get("bigbass:mix"), Some(&0.5f64.to_bits()));
    assert_eq!(p.description, "x profile");
    assert!(sanitise_profile(&mut p).is_empty());
    assert_eq!(p.params.len(), 1);
}

#[test]
fn profile_files_are_the_json_files_in_order() {
    let names: Vec<Vec<u8>> = ["20-b.json", ".json", "README", "10-a.json", "x.JSON", "00.json", "..json"]
        .iter()
        .map(|s| s.as_bytes().to_vec())
        .collect();
    let files = profile_files(&names);
    let expected: Vec<Vec<u8>> = ["..json", "00.json", "10-a.json", "20-b.json"]
        .iter()
        .map(|s| s.as_bytes().to_vec())
        .collect();
    assert_eq!(files, expected);
    let raw = vec![b"\xff.json".to_vec(), b"a.json".to_vec()];
    assert_eq!(profile_files(&raw), vec![b"a.json".to_vec(), b"\xff.json".to_vec()]);
}

#[test]
fn user_profiles_replace_system_profiles() {
    let system = vec![
        profile("A", &[], &[("bigbass:mix", 0.1)]),
        profile("B", &[], &[("bigbass:mix", 0.2), ("junk", 1.0)]),
    ];
    let user = vec![profile("A", &[], &[("bigbass:mix", 0.9)])];
    let (map, dropped) = load_profiles(system, user);
    assert_eq!(map.len(), 2);
    assert_eq!(map.get("A").unwrap().params.get("bigbass:mix"), Some(&0.9f64.to_bits()));
    assert_eq!(map.get("B").unwrap().params.len(), 1);
    assert_eq!(dropped, vec![vec![], vec!["junk".to_string()], vec![]]);
}

#[test]
fn the_last_profile_of_a_name_counts() {
    let user = vec![
        profile("A", &[], &[("bigbass:mix", 0.1)]),
        profile("A", &[], &[("bigbass:mix", 0.3)]),
    ];
    let (map, _) = load_profiles(Vec::new(), user);
    assert_eq!(map.get("A").unwrap().params.get("bigbass:mix"), Some(&0.3f64.to_bits()));
}

fn from_file(mut p: Profile, file: &str) -> Profile {
    p.file = file.to_string();
    p
}

#[test]
fn matching_goes_by_file_name() {
    let map = keyed(vec![
        from_file(profile("Headphones", &["headphone", "alsa"], &[]), "20-headphones.json"),
        from_file(profile("Bluetooth", &["^bluez_"], &[]), "30-bt.json"),
        from_file(profile("Anything", &[], &[]), "00-default.json"),
        from_file(profile("Broken", &["("], &[]), "05-broken.json"),
        from_file(profile("Laptop", &["alsa.*speaker$"], &[]), "10-laptop.json"),
    ]);
    let found = |sink: &str| find_matching_profile(&map, sink).map(|p| p.name.clone());
    assert_eq!(found("bluez_output.11"), Some("Bluetooth".to_string()));
    assert_eq!(found("x.bluez_output"), None);
    assert_eq!(found("alsa_output.pci::speaker"), Some("Laptop".to_string()));
    assert_eq!(found("alsa_output.pci::headphones"), Some("Headphones".to_string()));
    assert_eq!(found("hdmi"), None);
    assert_eq!(found("("), None);
}

#[test]
fn files_of_one_name_go_by_the_name_of_the_profile() {
    let map = keyed(vec![
        from_file(profile("b", &["x"], &[]), "10.json"),
        from_file(profile("a", &["x"], &[]), "10.json"),
    ]);
    assert_eq!(find_matching_profile(&map, "x").unwrap().name, "a");
    assert_eq!(byte_text(&b"a\xff.json".to_vec()), "a\u{ff}.json");
}

#[test]
fn the_first_name_among_the_hits() {
    let map = keyed(vec![profile("b", &[], &[]), profile("a", &[], &[]), profile("c", &[], &[])]);
    assert_eq!(first_matching(&map, &vec![true, true, true]).unwrap().name, "a");
    assert_eq!(first_matching(&map, &vec![true, false, true]).unwrap().name, "b");
    assert!(first_matching(&map, &vec![false, false, false]).is_none());
    assert!(any_hit(&vec![None, Some(false), Some(true)]));
    assert!(!any_hit(&vec![None, Some(false)]));
}
