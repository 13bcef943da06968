use bigsound::cli::{active_line, column_width, show_line};
use bigsound::ui::{
    active_profile, description_of, locale_dir, output_rows, profile_description, profile_index,
    shown_description, slider_specs, user_catalogue, user_locale_dir,
};
use bigsound::json::Json;
use bigsound::wav::{check_args, decoding, Decoding, SampleFormat};

fn strings(list: &[&str]) -> Vec<String> {
    list.iter().map(|s| s.to_string()).collect()
}

#[test]
fn sliders() {
    let rows: Vec<(&str, &str, f64, f64, f64, i32, f64)> = slider_specs()
        .iter()
        .map(|s| {
            let f = f64::from_bits;
            (s.title, s.param.name(), f(s.min), f(s.max), f(s.step), s.digits, f(s.default))
        })
        .collect();
    assert_eq!(
        rows,
        vec![
            ("Bass", "bigbass:loudness_db", -12.0, 12.0, 0.5, 1, 2.5),
            ("Bass Frequency (Hz)", "bigbass:target_freq", 40.0, 200.0, 5.0, 0, 90.0),
            ("Bass Mix", "bigbass:mix", 0.0, 1.0, 0.05, 2, 0.35),
            ("Clarity", "bigclarity:mix", 0.0, 1.0, 0.05, 2, 0.2),
            ("Space", "bigspace:width", 0.0, 1.5, 0.05, 2, 1.2),
            ("Crossfeed (Headphones)", "bigcross:amount", 0.0, 1.0, 0.05, 2, 0.3),
            ("Loudness", "bigloud:amount", 0.0, 1.0, 0.05, 2, 0.4),
            ("Output Ceiling (dB)", "bigloud:ceiling_db", -3.0, 0.0, 0.1, 1, -1.0),
        ]
    );
    for s in slider_specs() {
        assert!(!s.subtitle.is_empty());
        assert_eq!(s.default, s.param.default_value());
    }
}

#[test]
fn the_chosen_profile_row() {
    let names = strings(&["Audiophile", "BigSound", "Punchy"]);
    assert_eq!(profile_index(&names, Some("Punchy")), Some(2));
    assert_eq!(profile_index(&names, None), Some(1));
    assert_eq!(profile_index(&names, Some("gone")), None);
    assert_eq!(profile_index(&strings(&["x"]), None), None);
    assert_eq!(active_profile(String::new()), None);
    assert_eq!(active_profile("P".to_string()), Some("P".to_string()));
}

#[test]
fn profile_descriptions() {
    let text = br#"{"name": "P", "description": "Warm", "params": {}}"#;
    assert_eq!(profile_description(text), Some("Warm".to_string()));
    assert_eq!(profile_description(b"{\"description\": 3}"), None);
    assert_eq!(profile_description(b"{}"), None);
    assert_eq!(profile_description(b"oops"), None);
    let json = Json::Object(vec![("description".to_string(), Json::Text("d".to_string()))]);
    assert_eq!(description_of(&json), Some("d".to_string()));
    assert_eq!(shown_description(Some(String::new())), None);
    assert_eq!(shown_description(Some("d".to_string())), Some("d".to_string()));
    assert_eq!(shown_description(None), None);
}

#[test]
fn output_device_rows() {
    let devices = vec![
        ("usb".to_string(), "USB".to_string()),
        ("hdmi".to_string(), "HDMI".to_string()),
    ];
    let rows = output_rows(&devices, "Automatic", "hdmi");
    assert_eq!(rows.names, strings(&["", "usb", "hdmi"]));
    assert_eq!(rows.labels, strings(&["Automatic", "USB", "HDMI"]));
    assert_eq!(rows.selected, 2);
    assert_eq!(output_rows(&devices, "Automatic", "").selected, 0);
    assert_eq!(output_rows(&devices, "Automatic", "gone").selected, 0);
}

#[test]
fn message_catalogues() {
    assert_eq!(user_locale_dir("/home/u"), "/home/u/.local/share/locale");
    assert_eq!(
        user_catalogue("/home/u"),
        "/home/u/.local/share/locale/pt_BR/LC_MESSAGES/bigsound.mo"
    );
    assert_eq!(locale_dir("/home/u", true), "/home/u/.local/share/locale");
    assert_eq!(locale_dir("/home/u", false), "/usr/share/locale");
    assert_eq!(user_locale_dir(""), "/.local/share/locale");
}

#[test]
fn shown_parameters_are_aligned() {
    let names = strings(&["bigbass:mix", "bigspace:bass_keep_hz", ""]);
    let width = column_width(&names);
    assert_eq!(width, 21);
    assert_eq!(column_width(&Vec::new()), 0);
    assert_eq!(column_width(&strings(&["é"])), 2);
    for n in &names {
        let expected = format!("  {n:<width$}  =  {v}", width = width, v = 0.35);
        assert_eq!(show_line(n, width, "0.35"), expected);
    }
    assert_eq!(show_line("abc", 1, "NaN"), "  abc  =  NaN");
    assert_eq!(active_line(""), "(no profile applied yet)");
    assert_eq!(active_line("Punchy"), "Punchy");
}

fn check(drive: f32, mix: f32, target: f32, loudness: f32) -> Result<(), &'static str> {
    check_args(drive.to_bits(), mix.to_bits(), target.to_bits(), loudness.to_bits())
}

#[test]
fn offline_arguments() {
    assert_eq!(check(60.0, 50.0, 100.0, 4.0), Ok(()));
    assert_eq!(check(0.0, 100.0, 20.0, -12.0), Ok(()));
    assert_eq!(check(-0.0, 0.0, 500.0, 12.0), Ok(()));
    assert_eq!(check(100.5, 101.0, 1.0, 40.0), Err("--drive must be in 0..=100"));
    assert_eq!(check(f32::NAN, 0.0, 100.0, 0.0), Err("--drive must be in 0..=100"));
    assert_eq!(check(0.0, -1.0, 1.0, 40.0), Err("--mix must be in 0..=100"));
    assert_eq!(check(0.0, 1.0, 19.9, 40.0), Err("--target must be in 20..=500 Hz"));
    assert_eq!(check(0.0, 1.0, 20.0, 12.1), Err("--loudness must be in -12..=+12 dB"));
}

#[test]
fn sample_decoding() {
    assert_eq!(decoding(SampleFormat::Float, 32), Ok(Decoding::Float));
    for bits in 1u16..=32 {
        let full_scale = 1i64 << (bits - 1);
        assert_eq!(decoding(SampleFormat::Int, bits), Ok(Decoding::Int { full_scale }));
    }
    assert_eq!(
        decoding(SampleFormat::Float, 64),
        Err("unsupported WAV format: Float @ 64 bits".to_string())
    );
    assert_eq!(
        decoding(SampleFormat::Int, 33),
        Err("unsupported WAV format: Int @ 33 bits".to_string())
    );
}
