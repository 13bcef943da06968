//! The tunable parameters: public names, the plugin controls behind each, and
//! the defaults of the balanced profile.

use crate::text::str_eq;
use vstd::prelude::*;

verus! {

/// A tunable parameter of the chain.
#[derive(Clone, Copy, PartialEq, Eq, Structural, Debug)]
pub enum Param {
    BassTargetFreq,
    BassDrive,
    BassMix,
    BassCutDryLows,
    BassLoudnessDb,
    ClarityTargetFreq,
    ClarityDrive,
    ClarityMix,
    SpaceWidth,
    SpaceBassKeepHz,
    SpaceMix,
    CrossAmount,
    CrossCutoffHz,
    CrossDelayUs,
    LoudAmount,
    LoudCeilingDb,
    LoudMix,
}

/// The number of parameters.
pub const PARAM_COUNT: usize = 17;

impl Param {
    /// The parameters, in the order in which they are listed and pushed.
    pub open spec fn all() -> Seq<Param> {
        seq![
            Param::BassTargetFreq,
            Param::BassDrive,
            Param::BassMix,
            Param::BassCutDryLows,
            Param::BassLoudnessDb,
            Param::ClarityTargetFreq,
            Param::ClarityDrive,
            Param::ClarityMix,
            Param::SpaceWidth,
            Param::SpaceBassKeepHz,
            Param::SpaceMix,
            Param::CrossAmount,
            Param::CrossCutoffHz,
            Param::CrossDelayUs,
            Param::LoudAmount,
            Param::LoudCeilingDb,
            Param::LoudMix,
        ]
    }

    /// The name that clients use.
    pub open spec fn public_name(self) -> Seq<char> {
        match self {
            Param::BassTargetFreq => "bigbass:target_freq"@,
            Param::BassDrive => "bigbass:drive"@,
            Param::BassMix => "bigbass:mix"@,
            Param::BassCutDryLows => "bigbass:cut_dry_lows"@,
            Param::BassLoudnessDb => "bigbass:loudness_db"@,
            Param::ClarityTargetFreq => "bigclarity:target_freq"@,
            Param::ClarityDrive => "bigclarity:drive"@,
            Param::ClarityMix => "bigclarity:mix"@,
            Param::SpaceWidth => "bigspace:width"@,
            Param::SpaceBassKeepHz => "bigspace:bass_keep_hz"@,
            Param::SpaceMix => "bigspace:mix"@,
            Param::CrossAmount => "bigcross:amount"@,
            Param::CrossCutoffHz => "bigcross:cutoff_hz"@,
            Param::CrossDelayUs => "bigcross:delay_us"@,
            Param::LoudAmount => "bigloud:amount"@,
            Param::LoudCeilingDb => "bigloud:ceiling_db"@,
            Param::LoudMix => "bigloud:mix"@,
        }
    }

    /// The controls of the filter chain that carry the parameter: one per
    /// channel for a mono module, one for a stereo module.
    pub open spec fn controls(self) -> Seq<Seq<char>> {
        match self {
            Param::BassTargetFreq => seq!["bigbass_l:target_freq"@, "bigbass_r:target_freq"@],
            Param::BassDrive => seq!["bigbass_l:drive"@, "bigbass_r:drive"@],
            Param::BassMix => seq!["bigbass_l:mix"@, "bigbass_r:mix"@],
            Param::BassCutDryLows => seq!["bigbass_l:cut_dry_lows"@, "bigbass_r:cut_dry_lows"@],
            Param::BassLoudnessDb => seq!["bigbass_l:loudness_db"@, "bigbass_r:loudness_db"@],
            Param::ClarityTargetFreq => seq!["bigclarity_l:target_freq"@, "bigclarity_r:target_freq"@],
            Param::ClarityDrive => seq!["bigclarity_l:drive"@, "bigclarity_r:drive"@],
            Param::ClarityMix => seq!["bigclarity_l:mix"@, "bigclarity_r:mix"@],
            Param::SpaceWidth => seq!["bigspace:width"@],
            Param::SpaceBassKeepHz => seq!["bigspace:bass_keep_hz"@],
            Param::SpaceMix => seq!["bigspace:mix"@],
            Param::CrossAmount => seq!["bigcross:amount"@],
            Param::CrossCutoffHz => seq!["bigcross:cutoff_hz"@],
            Param::CrossDelayUs => seq!["bigcross:delay_us"@],
            Param::LoudAmount => seq!["bigloud:amount"@],
            Param::LoudCeilingDb => seq!["bigloud:ceiling_db"@],
            Param::LoudMix => seq!["bigloud:mix"@],
        }
    }

    /// The default value.
    pub open spec fn default_bits(self) -> u64 {
        match self {
            Param::BassTargetFreq => 0x4056_8000_0000_0000,
            Param::BassDrive => 0x3fdc_cccc_cccc_cccd,
            Param::BassMix => 0x3fd6_6666_6666_6666,
            Param::BassCutDryLows => 0x0000_0000_0000_0000,
            Param::BassLoudnessDb => 0x4004_0000_0000_0000,
            Param::ClarityTargetFreq => 0x40af_4000_0000_0000,
            Param::ClarityDrive => 0x3fd3_3333_3333_3333,
            Param::ClarityMix => 0x3fc9_9999_9999_999a,
            Param::SpaceWidth => 0x3ff3_3333_3333_3333,
            Param::SpaceBassKeepHz => 0x4062_c000_0000_0000,
            Param::SpaceMix => 0x3ff0_0000_0000_0000,
            Param::CrossAmount => 0x3fd3_3333_3333_3333,
            Param::CrossCutoffHz => 0x4085_e000_0000_0000,
            Param::CrossDelayUs => 0x4071_8000_0000_0000,
            Param::LoudAmount => 0x3fd9_9999_9999_999a,
            Param::LoudCeilingDb => 0xbff0_0000_0000_0000,
            Param::LoudMix => 0x3ff0_0000_0000_0000,
        }
    }

    /// The parameter at position `index` of the list.
    pub fn at(index: usize) -> (param: Param)
        requires
            index < PARAM_COUNT,
        ensures
            param == Param::all()[index as int],
    {
        match index {
            0 => Param::BassTargetFreq,
            1 => Param::BassDrive,
            2 => Param::BassMix,
            3 => Param::BassCutDryLows,
            4 => Param::BassLoudnessDb,
            5 => Param::ClarityTargetFreq,
            6 => Param::ClarityDrive,
            7 => Param::ClarityMix,
            8 => Param::SpaceWidth,
            9 => Param::SpaceBassKeepHz,
            10 => Param::SpaceMix,
            11 => Param::CrossAmount,
            12 => Param::CrossCutoffHz,
            13 => Param::CrossDelayUs,
            14 => Param::LoudAmount,
            15 => Param::LoudCeilingDb,
            _ => Param::LoudMix,
        }
    }

    /// The name that clients use.
    pub fn name(self) -> (name: &'static str)
        ensures
            name@ == self.public_name(),
    {
        match self {
            Param::BassTargetFreq => "bigbass:target_freq",
            Param::BassDrive => "bigbass:drive",
            Param::BassMix => "bigbass:mix",
            Param::BassCutDryLows => "bigbass:cut_dry_lows",
            Param::BassLoudnessDb => "bigbass:loudness_db",
            Param::ClarityTargetFreq => "bigclarity:target_freq",
            Param::ClarityDrive => "bigclarity:drive",
            Param::ClarityMix => "bigclarity:mix",
            Param::SpaceWidth => "bigspace:width",
            Param::SpaceBassKeepHz => "bigspace:bass_keep_hz",
            Param::SpaceMix => "bigspace:mix",
            Param::CrossAmount => "bigcross:amount",
            Param::CrossCutoffHz => "bigcross:cutoff_hz",
            Param::CrossDelayUs => "bigcross:delay_us",
            Param::LoudAmount => "bigloud:amount",
            Param::LoudCeilingDb => "bigloud:ceiling_db",
            Param::LoudMix => "bigloud:mix",
        }
    }

    /// The controls of the filter chain that carry the parameter.
    pub fn internals(self) -> (controls: Vec<&'static str>)
        ensures
            strs(controls@) == self.controls(),
    {
        match self {
            Param::BassTargetFreq => two("bigbass_l:target_freq", "bigbass_r:target_freq"),
            Param::BassDrive => two("bigbass_l:drive", "bigbass_r:drive"),
            Param::BassMix => two("bigbass_l:mix", "bigbass_r:mix"),
            Param::BassCutDryLows => two("bigbass_l:cut_dry_lows", "bigbass_r:cut_dry_lows"),
            Param::BassLoudnessDb => two("bigbass_l:loudness_db", "bigbass_r:loudness_db"),
            Param::ClarityTargetFreq => two("bigclarity_l:target_freq", "bigclarity_r:target_freq"),
            Param::ClarityDrive => two("bigclarity_l:drive", "bigclarity_r:drive"),
            Param::ClarityMix => two("bigclarity_l:mix", "bigclarity_r:mix"),
            Param::SpaceWidth => one("bigspace:width"),
            Param::SpaceBassKeepHz => one("bigspace:bass_keep_hz"),
            Param::SpaceMix => one("bigspace:mix"),
            Param::CrossAmount => one("bigcross:amount"),
            Param::CrossCutoffHz => one("bigcross:cutoff_hz"),
            Param::CrossDelayUs => one("bigcross:delay_us"),
            Param::LoudAmount => one("bigloud:amount"),
            Param::LoudCeilingDb => one("bigloud:ceiling_db"),
            Param::LoudMix => one("bigloud:mix"),
        }
    }

    /// The default value, as the bit pattern of a double.
    pub fn default_value(self) -> (bits: u64)
        ensures
            bits == self.default_bits(),
    {
        match self {
            // 90.0
            Param::BassTargetFreq => 0x4056_8000_0000_0000,
            // 0.45
            Param::BassDrive => 0x3fdc_cccc_cccc_cccd,
            // 0.35
            Param::BassMix => 0x3fd6_6666_6666_6666,
            // 0.0
            Param::BassCutDryLows => 0x0000_0000_0000_0000,
            // 2.5
            Param::BassLoudnessDb => 0x4004_0000_0000_0000,
            // 4000.0
            Param::ClarityTargetFreq => 0x40af_4000_0000_0000,
            // 0.3
            Param::ClarityDrive => 0x3fd3_3333_3333_3333,
            // 0.2
            Param::ClarityMix => 0x3fc9_9999_9999_999a,
            // 1.2
            Param::SpaceWidth => 0x3ff3_3333_3333_3333,
            // 150.0
            Param::SpaceBassKeepHz => 0x4062_c000_0000_0000,
            // 1.0
            Param::SpaceMix => 0x3ff0_0000_0000_0000,
            // 0.3
            Param::CrossAmount => 0x3fd3_3333_3333_3333,
            // 700.0
            Param::CrossCutoffHz => 0x4085_e000_0000_0000,
            // 280.0
            Param::CrossDelayUs => 0x4071_8000_0000_0000,
            // 0.4
            Param::LoudAmount => 0x3fd9_9999_9999_999a,
            // -1.0
            Param::LoudCeilingDb => 0xbff0_0000_0000_0000,
            // 1.0
            Param::LoudMix => 0x3ff0_0000_0000_0000,
        }
    }
}

/// The contents of a sequence of string slices.
pub open spec fn strs(slices: Seq<&'static str>) -> Seq<Seq<char>> {
    Seq::new(slices.len(), |i: int| slices[i]@)
}

fn one(a: &'static str) -> (v: Vec<&'static str>)
    ensures
        strs(v@) == seq![a@],
{
    let mut v: Vec<&'static str> = Vec::new();
    v.push(a);
    assert(strs(v@) =~= seq![a@]);
    v
}

fn two(a: &'static str, b: &'static str) -> (v: Vec<&'static str>)
    ensures
        strs(v@) == seq![a@, b@],
{
    let mut v: Vec<&'static str> = Vec::new();
    v.push(a);
    v.push(b);
    assert(strs(v@) =~= seq![a@, b@]);
    v
}

/// Some parameter has this public name.
pub open spec fn is_param(name: Seq<char>) -> bool {
    exists|p: Param| p.public_name() == name
}

/// The parameter of this public name.
pub open spec fn param_of(name: Seq<char>) -> Param {
    choose|p: Param| p.public_name() == name
}

/// The public names.
pub open spec fn param_names() -> Set<Seq<char>> {
    Set::new(|name: Seq<char>| is_param(name))
}

/// Every parameter is listed, at one position.
pub proof fn law_all_listed(p: Param) -> (i: int)
    ensures
        0 <= i < PARAM_COUNT,
        Param::all().len() == PARAM_COUNT,
        Param::all()[i] == p,
        forall|j: int| 0 <= j < PARAM_COUNT && j != i ==> Param::all()[j] != p,
{
    match p {
        Param::BassTargetFreq => 0,
        Param::BassDrive => 1,
        Param::BassMix => 2,
        Param::BassCutDryLows => 3,
        Param::BassLoudnessDb => 4,
        Param::ClarityTargetFreq => 5,
        Param::ClarityDrive => 6,
        Param::ClarityMix => 7,
        Param::SpaceWidth => 8,
        Param::SpaceBassKeepHz => 9,
        Param::SpaceMix => 10,
        Param::CrossAmount => 11,
        Param::CrossCutoffHz => 12,
        Param::CrossDelayUs => 13,
        Param::LoudAmount => 14,
        Param::LoudCeilingDb => 15,
        Param::LoudMix => 16,
    }
}

/// What tells the public names apart: the length and two of the characters.
spec fn mark(name: Seq<char>) -> (nat, char, char) {
    (name.len(), name[3], name[8])
}

/// No two parameters share a public name.
pub proof fn law_names_distinct(p: Param, q: Param)
    ensures
        p.public_name() == q.public_name() ==> p == q,
{
    lemma_mark(p);
    lemma_mark(q);
}

spec fn mark_of(p: Param) -> (nat, char, char) {
    match p {
        Param::BassTargetFreq => (19, 'b', 't'),
        Param::BassDrive => (13, 'b', 'd'),
        Param::BassMix => (11, 'b', 'm'),
        Param::BassCutDryLows => (20, 'b', 'c'),
        Param::BassLoudnessDb => (19, 'b', 'l'),
        Param::ClarityTargetFreq => (22, 'c', 't'),
        Param::ClarityDrive => (16, 'c', 't'),
        Param::ClarityMix => (14, 'c', 't'),
        Param::SpaceWidth => (14, 's', ':'),
        Param::SpaceBassKeepHz => (21, 's', ':'),
        Param::SpaceMix => (12, 's', ':'),
        Param::CrossAmount => (15, 'c', ':'),
        Param::CrossCutoffHz => (18, 'c', ':'),
        Param::CrossDelayUs => (17, 'c', ':'),
        Param::LoudAmount => (14, 'l', 'a'),
        Param::LoudCeilingDb => (18, 'l', 'c'),
        Param::LoudMix => (11, 'l', 'm'),
    }
}

proof fn lemma_mark(p: Param)
    ensures
        mark(p.public_name()) == mark_of(p),
{
    reveal_strlit("bigbass:target_freq");
    reveal_strlit("bigbass:drive");
    reveal_strlit("bigbass:mix");
    reveal_strlit("bigbass:cut_dry_lows");
    reveal_strlit("bigbass:loudness_db");
    reveal_strlit("bigclarity:target_freq");
    reveal_strlit("bigclarity:drive");
    reveal_strlit("bigclarity:mix");
    reveal_strlit("bigspace:width");
    reveal_strlit("bigspace:bass_keep_hz");
    reveal_strlit("bigspace:mix");
    reveal_strlit("bigcross:amount");
    reveal_strlit("bigcross:cutoff_hz");
    reveal_strlit("bigcross:delay_us");
    reveal_strlit("bigloud:amount");
    reveal_strlit("bigloud:ceiling_db");
    reveal_strlit("bigloud:mix");
}

/// The parameter of a public name is the one that has it.
pub proof fn lemma_param_of(p: Param)
    ensures
        is_param(p.public_name()),
        param_of(p.public_name()) == p,
{
    let q = param_of(p.public_name());
    law_names_distinct(p, q);
}

/// The parameter of a public name.
pub fn param_named(name: &str) -> (param: Option<Param>)
    ensures
        param is Some <==> is_param(name@),
        param matches Some(p) ==> p == param_of(name@) && p.public_name() == name@,
{
    let mut i: usize = 0;
    while i < PARAM_COUNT
        invariant
            i <= PARAM_COUNT,
            forall|j: int| 0 <= j < i ==> (#[trigger] Param::all()[j]).public_name() != name@,
        decreases PARAM_COUNT - i,
    {
        let param: Param = Param::at(i);
        if str_eq(param.name(), name) {
            proof {
                lemma_param_of(param);
            }
            return Some(param);
        }
        i = i + 1;
    }
    proof {
        if is_param(name@) {
            let j = law_all_listed(param_of(name@));
            assert(Param::all()[j].public_name() != name@);
        }
    }
    None
}

/// The controls behind a public name; `None` for a name that no parameter has.
pub fn resolve_internal(name: &str) -> (controls: Option<Vec<&'static str>>)
    ensures
        controls is Some <==> is_param(name@),
        controls matches Some(v) ==> strs(v@) == param_of(name@).controls(),
{
    match param_named(name) {
        Some(param) => Some(param.internals()),
        None => None,
    }
}

/// The public names are those of the seventeen listed parameters.
pub proof fn law_is_param(name: Seq<char>)
    ensures
        is_param(name) <==> exists|i: int|
            0 <= i < 17 && (#[trigger] Param::all()[i]).public_name() == name,
        param_names().contains(name) <==> is_param(name),
        is_param(name) ==> param_of(name).public_name() == name,
{
    if is_param(name) {
        let i = law_all_listed(param_of(name));
        assert(Param::all()[i].public_name() == name);
    }
}

/// A parameter of a stereo module is carried by the control of its own name. One
/// of a mono module is carried by two: those of the left and of the right
/// instance of the module, under the same key.
pub proof fn law_controls(p: Param) -> (parts: (Seq<char>, Seq<char>))
    ensures
        p.public_name() == parts.0.push(':') + parts.1,
        p.controls().len() == 1 || p.controls().len() == 2,
        p.controls().len() == 1 ==> p.controls()[0] == p.public_name(),
        p.controls().len() == 2 ==> p.controls()[0] == parts.0 + seq!['_', 'l', ':'] + parts.1
            && p.controls()[1] == parts.0 + seq!['_', 'r', ':'] + parts.1,
        p.controls().len() == 2 <==> parts.0 == "bigbass"@ || parts.0 == "bigclarity"@,
{
    reveal_strlit("bigbass");
    reveal_strlit("bigclarity");
    reveal_strlit("bigbass:target_freq");
    reveal_strlit("bigbass:drive");
    reveal_strlit("bigbass:mix");
    reveal_strlit("bigbass:cut_dry_lows");
    reveal_strlit("bigbass:loudness_db");
    reveal_strlit("bigclarity:target_freq");
    reveal_strlit("bigclarity:drive");
    reveal_strlit("bigclarity:mix");
    reveal_strlit("bigspace:width");
    reveal_strlit("bigspace:bass_keep_hz");
    reveal_strlit("bigspace:mix");
    reveal_strlit("bigcross:amount");
    reveal_strlit("bigcross:cutoff_hz");
    reveal_strlit("bigcross:delay_us");
    reveal_strlit("bigloud:amount");
    reveal_strlit("bigloud:ceiling_db");
    reveal_strlit("bigloud:mix");
    reveal_strlit("bigbass_l:target_freq");
    reveal_strlit("bigbass_r:target_freq");
    reveal_strlit("bigbass_l:drive");
    reveal_strlit("bigbass_r:drive");
    reveal_strlit("bigbass_l:mix");
    reveal_strlit("bigbass_r:mix");
    reveal_strlit("bigbass_l:cut_dry_lows");
    reveal_strlit("bigbass_r:cut_dry_lows");
    reveal_strlit("bigbass_l:loudness_db");
    reveal_strlit("bigbass_r:loudness_db");
    reveal_strlit("bigclarity_l:target_freq");
    reveal_strlit("bigclarity_r:target_freq");
    reveal_strlit("bigclarity_l:drive");
    reveal_strlit("bigclarity_r:drive");
    reveal_strlit("bigclarity_l:mix");
    reveal_strlit("bigclarity_r:mix");
    let name = p.public_name();
    let n: int = match p {
        Param::BassTargetFreq | Param::BassDrive | Param::BassMix | Param::BassCutDryLows
        | Param::BassLoudnessDb | Param::LoudAmount | Param::LoudCeilingDb | Param::LoudMix => 7,
        Param::ClarityTargetFreq | Param::ClarityDrive | Param::ClarityMix => 10,
        _ => 8,
    };
    let module = name.take(n);
    let key = name.skip(n + 1);
    assert(name =~= module.push(':') + key);
    if p.controls().len() == 2 {
        assert(p.controls()[0] =~= module + seq!['_', 'l', ':'] + key);
        assert(p.controls()[1] =~= module + seq!['_', 'r', ':'] + key);
        assert(module =~= "bigbass"@ || module =~= "bigclarity"@);
    } else {
        assert(module[3] == name[3]);
        assert(module != "bigbass"@);
        assert(module != "bigclarity"@);
    }
    (module, key)
}

/// The contents of string slices, one by one.
pub proof fn law_strs(slices: Seq<&'static str>, i: int)
    requires
        0 <= i < slices.len(),
    ensures
        strs(slices).len() == slices.len(),
        strs(slices)[i] == slices[i]@,
{
}

} // verus!
