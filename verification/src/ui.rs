//! What the window shows: the sliders, the profiles and the output devices.

use crate::json::{parse_json, parsed_json, Json};
use crate::params::Param;
use crate::paths::opt_text;
use crate::service::opt_string;
use crate::text::{join2, str_eq, texts};
use crate::value::rank;
use vstd::prelude::*;

verus! {

/// One slider. The title and the subtitle are keys of the message catalogue;
/// the numbers are bit patterns of doubles.
pub struct SliderSpec {
    pub title: &'static str,
    pub subtitle: &'static str,
    /// The parameter that it drives.
    pub param: Param,
    pub min: u64,
    pub max: u64,
    pub step: u64,
    /// The digits shown after the point.
    pub digits: i32,
    /// What a reset brings back.
    pub default: u64,
}

/// The contents of a slider.
pub struct SliderView {
    pub title: Seq<char>,
    pub subtitle: Seq<char>,
    pub param: Param,
    pub min: u64,
    pub max: u64,
    pub step: u64,
    pub digits: i32,
    pub default: u64,
}

impl View for SliderSpec {
    type V = SliderView;

    open spec fn view(&self) -> SliderView {
        SliderView {
            title: self.title@,
            subtitle: self.subtitle@,
            param: self.param,
            min: self.min,
            max: self.max,
            step: self.step,
            digits: self.digits,
            default: self.default,
        }
    }
}

/// The sliders of the window, from top to bottom.
pub open spec fn sliders() -> Seq<SliderView> {
    seq![
        SliderView {
            title: "Bass"@,
            subtitle: "Make-up gain on the psychoacoustic bass enhancement"@,
            param: Param::BassLoudnessDb,
            min: 0xc028_0000_0000_0000,
            max: 0x4028_0000_0000_0000,
            step: 0x3fe0_0000_0000_0000,
            digits: 1,
            default: 0x4004_0000_0000_0000,
        },
        SliderView {
            title: "Bass Frequency (Hz)"@,
            subtitle: "Below this the speaker rolls off; harmonics are synthesised here"@,
            param: Param::BassTargetFreq,
            min: 0x4044_0000_0000_0000,
            max: 0x4069_0000_0000_0000,
            step: 0x4014_0000_0000_0000,
            digits: 0,
            default: 0x4056_8000_0000_0000,
        },
        SliderView {
            title: "Bass Mix"@,
            subtitle: "How much of the synthesised harmonic content to add"@,
            param: Param::BassMix,
            min: 0x0000_0000_0000_0000,
            max: 0x3ff0_0000_0000_0000,
            step: 0x3fa9_9999_9999_999a,
            digits: 2,
            default: 0x3fd6_6666_6666_6666,
        },
        SliderView {
            title: "Clarity"@,
            subtitle: "Treble exciter — sparkle on hi-hats, vocals, strings"@,
            param: Param::ClarityMix,
            min: 0x0000_0000_0000_0000,
            max: 0x3ff0_0000_0000_0000,
            step: 0x3fa9_9999_9999_999a,
            digits: 2,
            default: 0x3fc9_9999_9999_999a,
        },
        SliderView {
            title: "Space"@,
            subtitle: "Stereo widening — 1.0 neutral, >1.0 wider. Above 1.5 hard-panned content can phase-flip; cap is intentional."@,
            param: Param::SpaceWidth,
            min: 0x0000_0000_0000_0000,
            max: 0x3ff8_0000_0000_0000,
            step: 0x3fa9_9999_9999_999a,
            digits: 2,
            default: 0x3ff3_3333_3333_3333,
        },
        SliderView {
            title: "Crossfeed (Headphones)"@,
            subtitle: "Out-of-head soundstage — moves the image forward, less fatigue. 0 on speakers."@,
            param: Param::CrossAmount,
            min: 0x0000_0000_0000_0000,
            max: 0x3ff0_0000_0000_0000,
            step: 0x3fa9_9999_9999_999a,
            digits: 2,
            default: 0x3fd3_3333_3333_3333,
        },
        SliderView {
            title: "Loudness"@,
            subtitle: "Compressor strength — higher = louder average, less dynamic"@,
            param: Param::LoudAmount,
            min: 0x0000_0000_0000_0000,
            max: 0x3ff0_0000_0000_0000,
            step: 0x3fa9_9999_9999_999a,
            digits: 2,
            default: 0x3fd9_9999_9999_999a,
        },
        SliderView {
            title: "Output Ceiling (dB)"@,
            subtitle: "Peak limiter target — closer to 0 = louder peaks, more risk"@,
            param: Param::LoudCeilingDb,
            min: 0xc008_0000_0000_0000,
            max: 0x0000_0000_0000_0000,
            step: 0x3fb9_9999_9999_999a,
            digits: 1,
            default: 0xbff0_0000_0000_0000,
        },
    ]
}

/// The sliders of the window, from top to bottom.
pub fn slider_specs() -> (specs: Vec<SliderSpec>)
    ensures
        specs@.len() == sliders().len(),
        forall|i: int| 0 <= i < specs@.len() ==> (#[trigger] specs@[i])@ == sliders()[i],
{
    vec![
        SliderSpec {
            title: "Bass",
            subtitle: "Make-up gain on the psychoacoustic bass enhancement",
            param: Param::BassLoudnessDb,
            min: 0xc028_0000_0000_0000,
            max: 0x4028_0000_0000_0000,
            step: 0x3fe0_0000_0000_0000,
            digits: 1,
            default: 0x4004_0000_0000_0000,
        },
        SliderSpec {
            title: "Bass Frequency (Hz)",
            subtitle: "Below this the speaker rolls off; harmonics are synthesised here",
            param: Param::BassTargetFreq,
            min: 0x4044_0000_0000_0000,
            max: 0x4069_0000_0000_0000,
            step: 0x4014_0000_0000_0000,
            digits: 0,
            default: 0x4056_8000_0000_0000,
        },
        SliderSpec {
            title: "Bass Mix",
            subtitle: "How much of the synthesised harmonic content to add",
            param: Param::BassMix,
            min: 0x0000_0000_0000_0000,
            max: 0x3ff0_0000_0000_0000,
            step: 0x3fa9_9999_9999_999a,
            digits: 2,
            default: 0x3fd6_6666_6666_6666,
        },
        SliderSpec {
            title: "Clarity",
            subtitle: "Treble exciter — sparkle on hi-hats, vocals, strings",
            param: Param::ClarityMix,
            min: 0x0000_0000_0000_0000,
            max: 0x3ff0_0000_0000_0000,
            step: 0x3fa9_9999_9999_999a,
            digits: 2,
            default: 0x3fc9_9999_9999_999a,
        },
        SliderSpec {
            title: "Space",
            subtitle: "Stereo widening — 1.0 neutral, >1.0 wider. Above 1.5 hard-panned content can phase-flip; cap is intentional.",
            param: Param::SpaceWidth,
            min: 0x0000_0000_0000_0000,
            max: 0x3ff8_0000_0000_0000,
            step: 0x3fa9_9999_9999_999a,
            digits: 2,
            default: 0x3ff3_3333_3333_3333,
        },
        SliderSpec {
            title: "Crossfeed (Headphones)",
            subtitle: "Out-of-head soundstage — moves the image forward, less fatigue. 0 on speakers.",
            param: Param::CrossAmount,
            min: 0x0000_0000_0000_0000,
            max: 0x3ff0_0000_0000_0000,
            step: 0x3fa9_9999_9999_999a,
            digits: 2,
            default: 0x3fd3_3333_3333_3333,
        },
        SliderSpec {
            title: "Loudness",
            subtitle: "Compressor strength — higher = louder average, less dynamic",
            param: Param::LoudAmount,
            min: 0x0000_0000_0000_0000,
            max: 0x3ff0_0000_0000_0000,
            step: 0x3fa9_9999_9999_999a,
            digits: 2,
            default: 0x3fd9_9999_9999_999a,
        },
        SliderSpec {
            title: "Output Ceiling (dB)",
            subtitle: "Peak limiter target — closer to 0 = louder peaks, more risk",
            param: Param::LoudCeilingDb,
            min: 0xc008_0000_0000_0000,
            max: 0x0000_0000_0000_0000,
            step: 0x3fb9_9999_9999_999a,
            digits: 1,
            default: 0xbff0_0000_0000_0000,
        },
    ]
}

/// A reset brings back the default of the parameter that the slider drives.
pub proof fn law_slider_defaults(i: int)
    requires
        0 <= i < sliders().len(),
    ensures
        sliders()[i].default == sliders()[i].param.default_bits(),
{
}

/// The default of a slider lies on the slider.
pub proof fn law_default_on_slider(i: int)
    requires
        0 <= i < sliders().len(),
    ensures
        rank(sliders()[i].min) <= rank(sliders()[i].default) <= rank(sliders()[i].max),
{
}

/// No two sliders drive the same parameter.
pub proof fn law_sliders_distinct(i: int, j: int)
    requires
        0 <= i < j < sliders().len(),
    ensures
        sliders()[i].param != sliders()[j].param,
{
}

/// `at` is the first position at which a list holds a text.
pub open spec fn first_position(names: Seq<Seq<char>>, name: Seq<char>, at: int) -> bool {
    &&& 0 <= at < names.len()
    &&& names[at] == name
    &&& forall|j: int| 0 <= j < at ==> #[trigger] names[j] != name
}

fn position(names: &Vec<String>, name: &str) -> (found: Option<usize>)
    ensures
        match found {
            Some(at) => first_position(texts(names@), name@, at as int),
            None => !texts(names@).contains(name@),
        },
{
    let mut i: usize = 0;
    while i < names.len()
        invariant
            i <= names@.len(),
            forall|j: int| 0 <= j < i ==> #[trigger] texts(names@)[j] != name@,
        decreases names@.len() - i,
    {
        if str_eq(names[i].as_str(), name) {
            assert(texts(names@)[i as int] == name@);
            return Some(i);
        }
        i = i + 1;
    }
    None
}

/// The profile that was applied last; `None` for an empty name.
pub fn active_profile(name: String) -> (active: Option<String>)
    ensures
        opt_string(active) == (if name@.len() == 0 {
            None
        } else {
            Some(name@)
        }),
{
    if name.as_str().is_empty() {
        None
    } else {
        Some(name)
    }
}

/// The profile that the window shows as chosen: the active one, or `BigSound`
/// where none was applied yet.
pub open spec fn shown_profile(active: Option<Seq<char>>) -> Seq<char> {
    match active {
        Some(name) => name,
        None => "BigSound"@,
    }
}

/// Where the profile that is shown as chosen stands in the list; `None` where it
/// is not in the list.
pub fn profile_index(names: &Vec<String>, active: Option<&str>) -> (index: Option<usize>)
    ensures
        match index {
            Some(at) => first_position(
                texts(names@),
                shown_profile(opt_text(active)),
                at as int,
            ),
            None => !texts(names@).contains(shown_profile(opt_text(active))),
        },
{
    match active {
        Some(name) => position(names, name),
        None => position(names, "BigSound"),
    }
}

/// The description in the text of a profile.
pub open spec fn description_in(text: Seq<u8>) -> Option<Seq<char>> {
    match parsed_json(text) {
        Some(tree) => tree.text_field("description"@),
        None => None,
    }
}

/// The description in the text of a profile, as the daemon serves it.
pub fn profile_description(text: &[u8]) -> (description: Option<String>)
    ensures
        opt_string(description) == description_in(text@),
{
    match parse_json(text) {
        Some(json) => description_of(&json),
        None => None,
    }
}

/// The description of a profile.
pub fn description_of(profile: &Json) -> (description: Option<String>)
    ensures
        opt_string(description) == profile@.text_field("description"@),
{
    match profile.get_str("description") {
        Some(text) => Some(text.to_owned()),
        None => None,
    }
}

/// What is shown below the name of a profile; an empty description is not shown.
pub fn shown_description(description: Option<String>) -> (shown: Option<String>)
    ensures
        opt_string(shown) == (match opt_string(description) {
            Some(text) => if text.len() == 0 {
                None
            } else {
                Some(text)
            },
            None => None,
        }),
{
    match description {
        Some(text) => if text.as_str().is_empty() {
            None
        } else {
            Some(text)
        },
        None => None,
    }
}

/// The rows of the choice of the output device.
pub struct OutputRows {
    /// What is sent when a row is chosen.
    pub names: Vec<String>,
    /// What the user sees.
    pub labels: Vec<String>,
    /// The row that is chosen at first.
    pub selected: usize,
}

/// The rows: automatic routing first, with an empty name, then the devices in
/// their order. The current choice is selected, or the first row where no device
/// has its name.
pub fn output_rows(devices: &Vec<(String, String)>, automatic: &str, current: &str) -> (rows:
    OutputRows)
    ensures
        rows.names@.len() == devices@.len() + 1,
        rows.labels@.len() == devices@.len() + 1,
        rows.names@[0]@ == Seq::<char>::empty(),
        rows.labels@[0]@ == automatic@,
        forall|i: int|
            0 <= i < devices@.len() ==> (#[trigger] rows.names@[i + 1])@ == devices@[i].0@,
        forall|i: int|
            0 <= i < devices@.len() ==> (#[trigger] rows.labels@[i + 1])@ == devices@[i].1@,
        if texts(rows.names@).contains(current@) {
            first_position(texts(rows.names@), current@, rows.selected as int)
        } else {
            rows.selected == 0
        },
{
    let mut names: Vec<String> = Vec::new();
    let mut labels: Vec<String> = Vec::new();
    names.push(String::new());
    labels.push(automatic.to_owned());
    assert(names@[0]@ =~= Seq::<char>::empty());
    let mut i: usize = 0;
    while i < devices.len()
        invariant
            i <= devices@.len(),
            names@.len() == i + 1,
            labels@.len() == i + 1,
            names@[0]@ == Seq::<char>::empty(),
            labels@[0]@ == automatic@,
            forall|j: int| 0 <= j < i ==> (#[trigger] names@[j + 1])@ == devices@[j].0@,
            forall|j: int| 0 <= j < i ==> (#[trigger] labels@[j + 1])@ == devices@[j].1@,
        decreases devices@.len() - i,
    {
        names.push(devices[i].0.clone());
        labels.push(devices[i].1.clone());
        i = i + 1;
    }
    let selected: usize = match position(&names, current) {
        Some(at) => at,
        None => 0,
    };
    OutputRows { names, labels, selected }
}

/// The directory of the user's own message catalogues.
pub open spec fn spec_user_locale_dir(home: Seq<char>) -> Seq<char> {
    home + "/.local/share/locale"@
}

/// The directory of the user's own message catalogues; `home` is empty where the
/// user has no home.
pub fn user_locale_dir(home: &str) -> (dir: String)
    ensures
        dir@ == spec_user_locale_dir(home@),
{
    join2(home, "/.local/share/locale")
}

/// The catalogue whose presence says that the user has catalogues of their own.
pub fn user_catalogue(home: &str) -> (path: String)
    ensures
        path@ == spec_user_locale_dir(home@) + "/pt_BR/LC_MESSAGES/bigsound.mo"@,
{
    join2(user_locale_dir(home).as_str(), "/pt_BR/LC_MESSAGES/bigsound.mo")
}

/// The directory that messages are looked up in, where `installed` says that the
/// user has catalogues of their own: theirs, otherwise the system's.
pub fn locale_dir(home: &str, installed: bool) -> (dir: String)
    ensures
        dir@ == (if installed {
            spec_user_locale_dir(home@)
        } else {
            "/usr/share/locale"@
        }),
{
    if installed {
        user_locale_dir(home)
    } else {
        "/usr/share/locale".to_owned()
    }
}

/// What each slider is called and says.
pub proof fn law_slider_texts()
    ensures
        sliders().len() == 8,
        sliders()[0].title == "Bass"@,
        sliders()[0].subtitle == "Make-up gain on the psychoacoustic bass enhancement"@,
        sliders()[1].title == "Bass Frequency (Hz)"@,
        sliders()[1].subtitle
            == "Below this the speaker rolls off; harmonics are synthesised here"@,
        sliders()[2].title == "Bass Mix"@,
        sliders()[2].subtitle == "How much of the synthesised harmonic content to add"@,
        sliders()[3].title == "Clarity"@,
        sliders()[3].subtitle == "Treble exciter — sparkle on hi-hats, vocals, strings"@,
        sliders()[4].title == "Space"@,
        sliders()[4].subtitle
            == "Stereo widening — 1.0 neutral, >1.0 wider. Above 1.5 hard-panned content can phase-flip; cap is intentional."@,
        sliders()[5].title == "Crossfeed (Headphones)"@,
        sliders()[5].subtitle
            == "Out-of-head soundstage — moves the image forward, less fatigue. 0 on speakers."@,
        sliders()[6].title == "Loudness"@,
        sliders()[6].subtitle == "Compressor strength — higher = louder average, less dynamic"@,
        sliders()[7].title == "Output Ceiling (dB)"@,
        sliders()[7].subtitle == "Peak limiter target — closer to 0 = louder peaks, more risk"@,
{
}

/// The contents of a slider, field by field.
pub proof fn law_slider_contents(s: SliderSpec)
    ensures
        s@.title == s.title@,
        s@.subtitle == s.subtitle@,
        s@.param == s.param,
        s@.min == s.min && s@.max == s.max && s@.step == s.step,
        s@.digits == s.digits,
        s@.default == s.default,
{
}

/// The position of a text holds it, and no position before does.
pub proof fn law_first_position(names: Seq<Seq<char>>, name: Seq<char>, at: int, j: int)
    requires
        first_position(names, name, at),
        0 <= j < names.len(),
        names[j] == name,
    ensures
        0 <= at <= j,
        names[at] == name,
{
}

/// The active profile is the one shown; where none was applied, BigSound is.
pub proof fn law_shown_profile(name: Seq<char>)
    ensures
        shown_profile(Some(name)) == name,
        shown_profile(None) == "BigSound"@,
{
}

/// The description is the string in the field of that name; a text that is no
/// JSON, or that has no such string, has none.
pub proof fn law_description(text: Seq<u8>)
    ensures
        parsed_json(text) is None ==> description_in(text) is None,
        parsed_json(text) is Some && parsed_json(text)->0.field("description"@) is Some
            && parsed_json(text)->0.field("description"@)->0 is Text ==> description_in(text)
            == Some(parsed_json(text)->0.field("description"@)->0->Text_0),
        description_in(text) is Some ==> parsed_json(text) is Some && parsed_json(text)->0.field(
            "description"@,
        ) is Some && parsed_json(text)->0.field("description"@)->0 is Text,
{
}

/// The user's own catalogues are below the home directory.
pub proof fn law_user_locale_dir(home: Seq<char>)
    ensures
        spec_user_locale_dir(home) == home + "/.local/share/locale"@,
{
}

} // verus!
