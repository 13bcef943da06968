//! Where the per-user state lives.
//!
//! Paths are Unix paths as text. The two environment variables are read by the
//! caller; one that is unset, or that is not Unicode, is `None`.

use crate::text::{chars_of, join2, join3};
use vstd::prelude::*;

verus! {

/// Where the profiles shipped with the system are.
pub const SYSTEM_PROFILES_DIR: &'static str = "/usr/share/bigsound/profiles";

/// `part` below `base`: an absolute `part` stands for itself, otherwise one `/`
/// separates the two, unless `base` is empty or ends with one.
pub open spec fn joined(base: Seq<char>, part: Seq<char>) -> Seq<char> {
    if base.len() == 0 || (part.len() > 0 && part[0] == '/') {
        part
    } else if base.last() == '/' {
        base + part
    } else {
        base + "/"@ + part
    }
}

/// `part` below `base`.
pub fn join_path(base: &str, part: &str) -> (path: String)
    ensures
        path@ == joined(base@, part@),
{
    let start: Vec<char> = chars_of(base);
    let rest: Vec<char> = chars_of(part);
    if start.len() == 0 || (rest.len() > 0 && rest[0] == '/') {
        part.to_owned()
    } else if start[start.len() - 1] == '/' {
        join2(base, part)
    } else {
        join3(base, "/", part)
    }
}

/// The configuration directory: `$XDG_CONFIG_HOME`, or `.config` below `$HOME`,
/// or `.config` below the current directory.
pub open spec fn spec_config_base(xdg: Option<Seq<char>>, home: Option<Seq<char>>) -> Seq<char> {
    match (xdg, home) {
        (Some(dir), _) => dir,
        (None, Some(dir)) => joined(dir, ".config"@),
        (None, None) => joined("."@, ".config"@),
    }
}

/// The contents of an optional string.
pub open spec fn opt_text(s: Option<&str>) -> Option<Seq<char>> {
    match s {
        Some(t) => Some(t@),
        None => None,
    }
}

/// The configuration directory.
pub fn config_base(xdg_config_home: Option<&str>, home: Option<&str>) -> (path: String)
    ensures
        path@ == spec_config_base(opt_text(xdg_config_home), opt_text(home)),
{
    match xdg_config_home {
        Some(dir) => dir.to_owned(),
        None => match home {
            Some(dir) => join_path(dir, ".config"),
            None => join_path(".", ".config"),
        },
    }
}

/// The directory of the user's own profiles.
pub open spec fn spec_user_profiles_dir(
    xdg: Option<Seq<char>>,
    home: Option<Seq<char>>,
) -> Seq<char> {
    joined(joined(spec_config_base(xdg, home), "bigsound"@), "profiles"@)
}

/// The directory of the user's own profiles.
pub fn user_profiles_dir(xdg_config_home: Option<&str>, home: Option<&str>) -> (path: String)
    ensures
        path@ == spec_user_profiles_dir(opt_text(xdg_config_home), opt_text(home)),
{
    let base: String = config_base(xdg_config_home, home);
    join_path(join_path(base.as_str(), "bigsound").as_str(), "profiles")
}

/// The file that holds the user's choice of output device.
pub fn output_device_state_path(xdg_config_home: Option<&str>, home: Option<&str>) -> (path: String)
    ensures
        path@ == joined(
            joined(spec_config_base(opt_text(xdg_config_home), opt_text(home)), "bigsound"@),
            "output-device"@,
        ),
{
    let base: String = config_base(xdg_config_home, home);
    join_path(join_path(base.as_str(), "bigsound").as_str(), "output-device")
}

/// The directory that saved profiles are written to: the user's own.
pub fn profiles_dir(xdg_config_home: Option<&str>, home: Option<&str>) -> (path: String)
    ensures
        path@ == spec_user_profiles_dir(opt_text(xdg_config_home), opt_text(home)),
{
    user_profiles_dir(xdg_config_home, home)
}

// Laws ------------------------------------------------------------------------

/// A relative part goes below a directory with one separator between the two; an
/// absolute one stands for itself, and so does one below nothing.
pub proof fn law_joined(base: Seq<char>, part: Seq<char>)
    requires
        part.len() == 0 || part[0] != '/',
    ensures
        base.len() > 0 && base.last() != '/' ==> joined(base, part) == base.push('/') + part,
        joined(base.push('/'), part) == base.push('/') + part,
        joined(Seq::empty(), part) == part,
        joined(base, seq!['/'] + part) == seq!['/'] + part,
{
    reveal_strlit("/");
    assert("/"@ =~= seq!['/']);
    assert(base + "/"@ =~= base.push('/'));
    assert(base.push('/').last() == '/');
    assert((seq!['/'] + part)[0] == '/');
}

/// The configuration directory is `$XDG_CONFIG_HOME` where it is set, otherwise
/// `.config` below `$HOME`, otherwise below the current directory. The user's
/// profiles are in `bigsound/profiles` below it.
pub proof fn law_user_dirs(xdg: Seq<char>, home: Seq<char>, other: Option<Seq<char>>)
    ensures
        spec_config_base(Some(xdg), other) == xdg,
        spec_config_base(None, Some(home)) == joined(home, ".config"@),
        spec_config_base(None, None) == "./.config"@,
        spec_user_profiles_dir(Some(xdg), other) == joined(joined(xdg, "bigsound"@), "profiles"@),
        spec_user_profiles_dir(None, Some(home)) == joined(
            joined(joined(home, ".config"@), "bigsound"@),
            "profiles"@,
        ),
{
    reveal_strlit("./.config");
    reveal_strlit(".config");
    reveal_strlit(".");
    reveal_strlit("/");
    assert("."@ + "/"@ + ".config"@ =~= "./.config"@);
}

/// The contents of an optional string.
pub proof fn law_opt_text(s: &str)
    ensures
        opt_text(Some(s)) == Some(s@),
        opt_text(None) is None,
{
}

} // verus!
