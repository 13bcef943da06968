//! Profiles: named bundles of parameter values, with patterns that say for
//! which output they are applied by themselves.

use crate::params::{is_param, param_named, Param};
use crate::strmap::{lemma_map_of_dom, map_of, StrMap};
use crate::text::{
    chars_of, is_graphic, is_stable_order, law_sorted, law_stable_order_unique,
    lemma_precedes_irreflexive, lemma_precedes_total, lemma_precedes_transitive, lists, precedes,
    sort_order, spec_is_graphic, str_eq, str_precedes, texts,
};
use vstd::prelude::*;

verus! {

/// The contents of a profile.
#[verifier::ext_equal]
pub struct ProfileView {
    pub name: Seq<char>,
    pub file: Seq<char>,
    pub description: Seq<char>,
    pub match_patterns: Seq<Seq<char>>,
    pub params: Map<Seq<char>, u64>,
}

/// A named bundle of parameter values, with a list of patterns that are matched
/// against the identifier of the default sink.
pub struct Profile {
    pub name: String,
    /// The name of the file that it comes from, with a character for each byte.
    pub file: String,
    pub description: String,
    /// With no pattern the profile is never applied by itself.
    pub match_patterns: Vec<String>,
    /// Values by public name, each the bit pattern of a double.
    pub params: StrMap<u64>,
}

impl View for Profile {
    type V = ProfileView;

    open spec fn view(&self) -> ProfileView {
        ProfileView {
            name: self.name@,
            file: self.file@,
            description: self.description@,
            match_patterns: texts(self.match_patterns@),
            params: self.params@,
        }
    }
}

impl Clone for Profile {
    fn clone(&self) -> (copy: Self)
        ensures
            copy@ == self@,
    {
        let mut match_patterns: Vec<String> = Vec::new();
        let mut i: usize = 0;
        while i < self.match_patterns.len()
            invariant
                i <= self.match_patterns@.len(),
                match_patterns@.len() == i,
                forall|j: int|
                    0 <= j < i ==> (#[trigger] match_patterns@[j])@ == self.match_patterns@[j]@,
            decreases self.match_patterns@.len() - i,
        {
            match_patterns.push(self.match_patterns[i].clone());
            i = i + 1;
        }
        assert(texts(match_patterns@) =~= texts(self.match_patterns@));
        Profile {
            name: self.name.clone(),
            file: self.file.clone(),
            description: self.description.clone(),
            match_patterns,
            params: self.params.clone(),
        }
    }
}

// Loading ---------------------------------------------------------------------

/// A key that a loaded profile may hold: the public name of a parameter, and
/// no more than 64 printable characters.
pub open spec fn acceptable_key(key: Seq<char>) -> bool {
    &&& 0 < key.len() <= 64
    &&& forall|i: int| 0 <= i < key.len() ==> spec_is_graphic(#[trigger] key[i])
    &&& is_param(key)
}

/// Whether a loaded profile may hold this key.
pub fn is_acceptable_key(key: &str) -> (yes: bool)
    ensures
        yes == acceptable_key(key@),
{
    let chars: Vec<char> = chars_of(key);
    if chars.len() == 0 || chars.len() > 64 {
        return false;
    }
    let mut i: usize = 0;
    while i < chars.len()
        invariant
            i <= chars@.len(),
            chars@ == key@,
            forall|j: int| 0 <= j < i ==> spec_is_graphic(#[trigger] chars@[j]),
        decreases chars@.len() - i,
    {
        if !is_graphic(chars[i]) {
            return false;
        }
        i = i + 1;
    }
    match param_named(key) {
        Some(_) => true,
        None => false,
    }
}

/// The acceptable keys.
pub open spec fn acceptable_keys() -> Set<Seq<char>> {
    Set::new(|key: Seq<char>| acceptable_key(key))
}

/// Every public name is an acceptable key.
pub proof fn law_names_acceptable(p: Param)
    ensures
        acceptable_key(p.public_name()),
{
    crate::params::lemma_param_of(p);
    reveal_strlit("bigbass:target_freq");
    reveal_strlit("bigbass:drive");
    reveal_strlit("bigbass:mix");
    reveal_strlit("bigbass:cut_dry_lows");
    reveal_strlit("bigbass:loudness_db");
    reveal_strlit("bigclarity:target_freq");
    reveal_strlit("bigclarity:drive");
    reveal_strlit("bigclarity:mix");
    reveal_strlit("bigspace:width");
    reveal_strlit("bigspace:bass_keep_hz");
    reveal_strlit("bigspace:mix");
    reveal_strlit("bigcross:amount");
    reveal_strlit("bigcross:cutoff_hz");
    reveal_strlit("bigcross:delay_us");
    reveal_strlit("bigloud:amount");
    reveal_strlit("bigloud:ceiling_db");
    reveal_strlit("bigloud:mix");
}

/// The profile without the keys that it may not hold.
pub open spec fn sanitised(profile: ProfileView) -> ProfileView {
    ProfileView { params: profile.params.restrict(acceptable_keys()), ..profile }
}

/// Drops every key that a loaded profile may not hold, and returns the dropped
/// keys, each once.
pub fn sanitise_profile(profile: &mut Profile) -> (dropped: Vec<String>)
    ensures
        final(profile)@ == sanitised(old(profile)@),
        final(profile).name == old(profile).name,
        final(profile).file == old(profile).file,
        final(profile).description == old(profile).description,
        final(profile).match_patterns == old(profile).match_patterns,
        forall|key: Seq<char>| #[trigger]
            texts(dropped@).contains(key) <==> old(profile)@.params.dom().contains(key)
                && !acceptable_key(key),
        texts(dropped@).no_duplicates(),
{
    let mut kept: StrMap<u64> = StrMap::new();
    let mut dropped: Vec<String> = Vec::new();
    let ghost pairs = profile.params.pairs();
    let ghost whole = profile.params@;
    proof {
        profile.params.lemma_pairs();
        assert(pairs.take(0) =~= Seq::empty());
        assert(Map::<Seq<char>, u64>::empty().restrict(acceptable_keys()) =~= Map::empty());
    }
    let mut i: usize = 0;
    while i < profile.params.len()
        invariant
            i <= pairs.len(),
            pairs == profile.params.pairs(),
            profile.params@ == whole,
            *profile == *old(profile),
            texts(dropped@).no_duplicates(),
            kept@ == map_of(pairs.take(i as int)).restrict(acceptable_keys()),
            forall|key: Seq<char>| #[trigger]
                texts(dropped@).contains(key) <==> map_of(pairs.take(i as int)).dom().contains(key)
                    && !acceptable_key(key),
        decreases pairs.len() - i,
    {
        let key: String = profile.params.key_at(i).clone();
        let value: u64 = *profile.params.value_at(i);
        let ghost name = key@;
        let ghost before = map_of(pairs.take(i as int));
        let ghost after = map_of(pairs.take(i + 1));
        assert(pairs.take(i + 1).drop_last() == pairs.take(i as int));
        assert(after == before.insert(name, value));
        if is_acceptable_key(key.as_str()) {
            kept.insert(key, value);
            assert(kept@ =~= after.restrict(acceptable_keys()));
        } else {
            let ghost earlier = texts(dropped@);
            dropped.push(key);
            proof {
                assert(texts(dropped@) =~= earlier.push(name));
                lemma_map_of_dom(pairs.take(i as int), name);
                assert(!before.dom().contains(name)) by {
                    if before.dom().contains(name) {
                        let j = choose|j: int|
                            0 <= j < i && (#[trigger] pairs.take(i as int)[j]).0 == name;
                        assert(pairs[j].0 != pairs[i as int].0);
                    }
                }
                assert(!earlier.contains(name));
                assert(after.restrict(acceptable_keys()) =~= before.restrict(acceptable_keys()));
                assert forall|k: Seq<char>| #[trigger]
                    texts(dropped@).contains(k) <==> after.dom().contains(k) && !acceptable_key(
                        k,
                    ) by {
                    lemma_contains_push(earlier, name, k);
                }
            }
        }
        i = i + 1;
    }
    assert(pairs.take(i as int) == pairs);
    profile.params = kept;
    assert(profile@ =~= sanitised(old(profile)@));
    dropped
}

proof fn lemma_contains_push(s: Seq<Seq<char>>, x: Seq<char>, k: Seq<char>)
    ensures
        s.push(x).contains(k) <==> s.contains(k) || k == x,
{
    let t = s.push(x);
    if t.contains(k) {
        let at = choose|at: int| 0 <= at < t.len() && t[at] == k;
        if at < s.len() {
            assert(s[at] == k);
        }
    }
    if s.contains(k) {
        let at = choose|at: int| 0 <= at < s.len() && s[at] == k;
        assert(t[at] == k);
    }
    if k == x {
        assert(t[s.len() as int] == k);
    }
}

/// Sanitising a second time changes nothing.
pub proof fn law_sanitise_once(profile: ProfileView)
    ensures
        sanitised(sanitised(profile)) == sanitised(profile),
{
    assert(sanitised(sanitised(profile)).params =~= sanitised(profile).params);
}

/// The extension of profile files, with its dot.
pub open spec fn json_suffix() -> Seq<u8> {
    seq![46u8, 106u8, 115u8, 111u8, 110u8]
}

/// A file name whose extension is `json`: it ends with `.json`, and that is not
/// all of it.
pub open spec fn is_profile_file(name: Seq<u8>) -> bool {
    name.len() > 5 && name.skip(name.len() - 5) == json_suffix()
}

fn has_json_extension(name: &Vec<u8>) -> (yes: bool)
    ensures
        yes == is_profile_file(name@),
{
    let n: usize = name.len();
    if n > 5 && name[n - 5] == 46 && name[n - 4] == 106 && name[n - 3] == 115 && name[n - 2] == 111
        && name[n - 1] == 110 {
        assert(name@.skip(n - 5) =~= json_suffix());
        true
    } else {
        proof {
            if n > 5 {
                let end = name@.skip(n - 5);
                assert(end[0] == name@[n - 5] && end[1] == name@[n - 4] && end[2] == name@[n - 3]
                    && end[3] == name@[n - 2] && end[4] == name@[n - 1]);
            }
        }
        false
    }
}

/// Bytes as the characters of the same numbers, whose order is that of the
/// bytes.
pub open spec fn byte_chars(bytes: Seq<u8>) -> Seq<char> {
    Seq::new(bytes.len(), |i: int| bytes[i] as char)
}

/// Bytes as the characters of the same numbers.
pub fn byte_text(bytes: &Vec<u8>) -> (text: String)
    ensures
        text@ == byte_chars(bytes@),
{
    let mut text = String::new();
    let mut i: usize = 0;
    while i < bytes.len()
        invariant
            i <= bytes@.len(),
            text@ == byte_chars(bytes@).take(i as int),
        decreases bytes@.len() - i,
    {
        text.push(bytes[i] as char);
        assert(byte_chars(bytes@).take(i + 1) =~= byte_chars(bytes@).take(i as int).push(
            byte_chars(bytes@)[i as int],
        ));
        i = i + 1;
    }
    assert(byte_chars(bytes@).take(i as int) =~= byte_chars(bytes@));
    text
}

/// The contents of a list of byte strings.
pub open spec fn byte_strings(names: Seq<Vec<u8>>) -> Seq<Seq<u8>> {
    Seq::new(names.len(), |i: int| names[i]@)
}

/// The keys by which file names are sorted.
pub open spec fn file_keys(names: Seq<Seq<u8>>) -> Seq<Seq<char>> {
    Seq::new(names.len(), |i: int| byte_chars(names[i]))
}

/// The profile files among the names of a directory, in their order.
pub open spec fn profile_names(names: Seq<Seq<u8>>) -> Seq<Seq<u8>>
    decreases names.len(),
{
    if names.len() == 0 {
        Seq::empty()
    } else if is_profile_file(names.last()) {
        profile_names(names.drop_last()).push(names.last())
    } else {
        profile_names(names.drop_last())
    }
}

/// `listed` holds the file names sorted by their bytes.
pub open spec fn sorted_by_bytes(names: Seq<Seq<u8>>, listed: Seq<Seq<u8>>) -> bool {
    exists|order: Seq<usize>| #[trigger]
        is_stable_order(file_keys(names), order) && listed == Seq::new(
            order.len(),
            |i: int| names[order[i] as int],
        )
}

/// The profile files of a directory, in the order in which they are read.
pub fn profile_files(names: &Vec<Vec<u8>>) -> (files: Vec<Vec<u8>>)
    ensures
        sorted_by_bytes(profile_names(byte_strings(names@)), byte_strings(files@)),
{
    let ghost all = byte_strings(names@);
    let mut found: Vec<usize> = Vec::new();
    let mut keys: Vec<String> = Vec::new();
    let ghost mut picked: Seq<Seq<u8>> = Seq::empty();
    let mut i: usize = 0;
    while i < names.len()
        invariant
            i <= names@.len(),
            all == byte_strings(names@),
            picked == profile_names(all.take(i as int)),
            found@.len() == picked.len(),
            forall|k: int|
                0 <= k < picked.len() ==> (#[trigger] found@[k]) < names@.len() && picked[k]
                    == all[found@[k] as int],
            texts(keys@) == file_keys(picked),
        decreases names@.len() - i,
    {
        assert(all.take(i + 1).drop_last() == all.take(i as int));
        if has_json_extension(&names[i]) {
            let ghost keys_before = keys@;
            let ghost picked_before = picked;
            keys.push(byte_text(&names[i]));
            found.push(i);
            proof {
                picked = picked.push(all[i as int]);
                assert(texts(keys@) =~= texts(keys_before).push(byte_chars(all[i as int])));
                assert(file_keys(picked) =~= file_keys(picked_before).push(
                    byte_chars(all[i as int]),
                ));
            }
        }
        i = i + 1;
    }
    assert(all.take(i as int) == all);
    let order: Vec<usize> = sort_order(&keys);
    let mut files: Vec<Vec<u8>> = Vec::new();
    let mut k: usize = 0;
    while k < order.len()
        invariant
            k <= order@.len(),
            all == byte_strings(names@),
            is_stable_order(file_keys(picked), order@),
            found@.len() == picked.len(),
            forall|j: int|
                0 <= j < picked.len() ==> (#[trigger] found@[j]) < names@.len() && picked[j]
                    == all[found@[j] as int],
            byte_strings(files@) == Seq::new(k as nat, |j: int| picked[order@[j] as int]),
        decreases order@.len() - k,
    {
        let file: Vec<u8> = names[found[order[k]]].clone();
        let ghost before = files@;
        files.push(file);
        assert(byte_strings(files@) =~= byte_strings(before).push(file@));
        k = k + 1;
    }
    files
}

/// There is one order in which the profile files of a directory are read.
pub proof fn law_files_read_in_one_order(
    names: Seq<Seq<u8>>,
    a: Seq<Seq<u8>>,
    b: Seq<Seq<u8>>,
)
    requires
        sorted_by_bytes(names, a),
        sorted_by_bytes(names, b),
    ensures
        a == b,
{
    let x = choose|order: Seq<usize>| #[trigger]
        is_stable_order(file_keys(names), order) && a == Seq::new(
            order.len(),
            |i: int| names[order[i] as int],
        );
    let y = choose|order: Seq<usize>| #[trigger]
        is_stable_order(file_keys(names), order) && b == Seq::new(
            order.len(),
            |i: int| names[order[i] as int],
        );
    law_stable_order_unique(file_keys(names), x, y);
}

/// The contents of a list of profiles.
pub open spec fn profile_views(profiles: Seq<Profile>) -> Seq<ProfileView> {
    Seq::new(profiles.len(), |i: int| profiles[i]@)
}

/// The profiles by name, sanitised; a later one replaces an earlier one of the
/// same name.
pub open spec fn loaded(profiles: Seq<ProfileView>) -> Map<Seq<char>, ProfileView>
    decreases profiles.len(),
{
    if profiles.len() == 0 {
        Map::empty()
    } else {
        loaded(profiles.drop_last()).insert(profiles.last().name, sanitised(profiles.last()))
    }
}

/// The profiles by name: those of the system first, so that the user's own
/// replace them. With them comes, for each profile in the order in which they
/// are loaded, the list of keys that were dropped from it.
pub fn load_profiles(system: Vec<Profile>, user: Vec<Profile>) -> (result: (
    StrMap<Profile>,
    Vec<Vec<String>>,
))
    ensures
        result.0@ == loaded(profile_views(system@) + profile_views(user@)),
        result.1@.len() == system@.len() + user@.len(),
        forall|i: int, key: Seq<char>|
            0 <= i < result.1@.len() ==> (#[trigger] texts(result.1@[i]@).contains(key) <==> (
            profile_views(system@) + profile_views(user@))[i].params.dom().contains(key)
                && !acceptable_key(key)),
        forall|i: int|
            0 <= i < result.1@.len() ==> texts((#[trigger] result.1@[i])@).no_duplicates(),
        profiles_ok(result.0@),
{
    let mut all: Vec<Profile> = system;
    let mut more: Vec<Profile> = user;
    let ghost views = profile_views(system@) + profile_views(user@);
    all.append(&mut more);
    assert(profile_views(all@) =~= views);
    let mut map: StrMap<Profile> = StrMap::new();
    let mut dropped: Vec<Vec<String>> = Vec::new();
    let mut i: usize = 0;
    while i < all.len()
        invariant
            i <= all@.len(),
            profile_views(all@) == views,
            map@ == loaded(views.take(i as int)),
            dropped@.len() == i,
            forall|k: int, key: Seq<char>|
                0 <= k < i ==> (#[trigger] texts(dropped@[k]@).contains(key)
                    <==> views[k].params.dom().contains(key) && !acceptable_key(key)),
            forall|k: int|
                0 <= k < i ==> texts((#[trigger] dropped@[k])@).no_duplicates(),
        decreases all@.len() - i,
    {
        let mut profile: Profile = all[i].clone();
        assert(profile@ == views[i as int]);
        let keys: Vec<String> = sanitise_profile(&mut profile);
        dropped.push(keys);
        map.insert(profile.name.clone(), profile);
        assert(views.take(i + 1).drop_last() == views.take(i as int));
        i = i + 1;
    }
    assert(views.take(i as int) == views);
    proof {
        law_loaded_ok(views);
    }
    (map, dropped)
}

/// Of the profiles of one name the last one counts.
pub proof fn law_last_profile_wins(profiles: Seq<ProfileView>, i: int)
    requires
        0 <= i < profiles.len(),
        forall|j: int| i < j < profiles.len() ==> (#[trigger] profiles[j]).name != profiles[i].name,
    ensures
        loaded(profiles).dom().contains(profiles[i].name),
        loaded(profiles)[profiles[i].name] == sanitised(profiles[i]),
    decreases profiles.len(),
{
    if i < profiles.len() - 1 {
        let front = profiles.drop_last();
        assert forall|j: int| i < j < front.len() implies (#[trigger] front[j]).name
            != front[i].name by {
            assert(profiles[j].name != profiles[i].name);
        }
        law_last_profile_wins(front, i);
        assert(profiles[profiles.len() - 1].name != profiles[i].name);
    }
}

/// A profile of the user replaces every profile of the system of the same name.
pub proof fn law_user_profile_wins(system: Seq<ProfileView>, user: Seq<ProfileView>, i: int)
    requires
        0 <= i < user.len(),
        forall|j: int| i < j < user.len() ==> (#[trigger] user[j]).name != user[i].name,
    ensures
        loaded(system + user).dom().contains(user[i].name),
        loaded(system + user)[user[i].name] == sanitised(user[i]),
{
    let all = system + user;
    let at = system.len() + i;
    assert(all[at] == user[i]);
    assert forall|j: int| at < j < all.len() implies (#[trigger] all[j]).name != all[at].name by {
        assert(all[j] == user[j - system.len()]);
    }
    law_last_profile_wins(all, at);
}

/// Every profile stands under its own name and holds acceptable keys only.
pub open spec fn profiles_ok(profiles: Map<Seq<char>, ProfileView>) -> bool {
    forall|name: Seq<char>| #[trigger]
        profiles.dom().contains(name) ==> profiles[name].name == name
            && profiles[name].params.dom().subset_of(acceptable_keys())
}

/// What is loaded is keyed by name and holds the names of parameters only.
pub proof fn law_loaded_ok(profiles: Seq<ProfileView>)
    ensures
        profiles_ok(loaded(profiles)),
    decreases profiles.len(),
{
    if profiles.len() > 0 {
        law_loaded_ok(profiles.drop_last());
    }
}

// Matching --------------------------------------------------------------------

/// What `Regex::new` and `Regex::is_match` make of a pattern and a text: `None`
/// where the pattern does not compile, otherwise whether it matches somewhere in
/// the text.
pub uninterp spec fn regex_search(pattern: Seq<char>, text: Seq<char>) -> Option<bool>;

/// `regex::Regex::new`, and on the compiled pattern `Regex::is_match`. Claims
/// only that the result depends on the pattern and the text alone.
#[verifier::external_body]
fn search(pattern: &str, text: &str) -> (found: Option<bool>)
    ensures
        found == regex_search(pattern@, text@),
{
    match regex::Regex::new(pattern) {
        Ok(compiled) => Some(compiled.is_match(text)),
        Err(_) => None,
    }
}

/// Some pattern compiled and matched.
pub open spec fn some_hit(found: Seq<Option<bool>>) -> bool {
    exists|i: int| 0 <= i < found.len() && found[i] == Some(true)
}

/// Whether some pattern compiled and matched.
pub fn any_hit(found: &Vec<Option<bool>>) -> (hit: bool)
    ensures
        hit == some_hit(found@),
{
    let mut i: usize = 0;
    while i < found.len()
        invariant
            i <= found@.len(),
            forall|j: int| 0 <= j < i ==> found@[j] != Some(true),
        decreases found@.len() - i,
    {
        if let Some(matched) = found[i] {
            if matched {
                assert(found@[i as int] == Some(true));
                return true;
            }
        }
        i = i + 1;
    }
    false
}

/// What the patterns of a profile make of a sink identifier.
pub open spec fn pattern_results(patterns: Seq<Seq<char>>, sink: Seq<char>) -> Seq<Option<bool>> {
    Seq::new(patterns.len(), |i: int| regex_search(patterns[i], sink))
}

/// A pattern of the profile matches the sink identifier.
pub open spec fn profile_hits(profile: ProfileView, sink: Seq<char>) -> bool {
    some_hit(pattern_results(profile.match_patterns, sink))
}

fn hits(profile: &Profile, sink_name: &str) -> (hit: bool)
    ensures
        hit == profile_hits(profile@, sink_name@),
{
    let mut found: Vec<Option<bool>> = Vec::new();
    let mut i: usize = 0;
    while i < profile.match_patterns.len()
        invariant
            i <= profile.match_patterns@.len(),
            found@.len() == i,
            forall|j: int|
                0 <= j < i ==> #[trigger] found@[j] == regex_search(
                    profile.match_patterns@[j]@,
                    sink_name@,
                ),
        decreases profile.match_patterns@.len() - i,
    {
        found.push(search(profile.match_patterns[i].as_str(), sink_name));
        i = i + 1;
    }
    assert(found@ =~= pattern_results(profile@.match_patterns, sink_name@));
    any_hit(&found)
}

/// A profile and the name that it stands under is tried before another: by the
/// name of its file, and for files of one name by its own.
pub open spec fn tried_before(a: (Seq<char>, ProfileView), b: (Seq<char>, ProfileView)) -> bool {
    precedes(a.1.file, b.1.file) || (a.1.file == b.1.file && precedes(a.0, b.0))
}

proof fn lemma_tried_before_transitive(
    a: (Seq<char>, ProfileView),
    b: (Seq<char>, ProfileView),
    c: (Seq<char>, ProfileView),
)
    requires
        tried_before(a, b),
        tried_before(b, c),
    ensures
        tried_before(a, c),
{
    if precedes(a.1.file, b.1.file) && precedes(b.1.file, c.1.file) {
        lemma_precedes_transitive(a.1.file, b.1.file, c.1.file);
    } else if a.1.file == b.1.file && b.1.file == c.1.file {
        lemma_precedes_transitive(a.0, b.0, c.0);
    }
}

fn is_tried_before(a_name: &String, a: &Profile, b_name: &String, b: &Profile) -> (yes: bool)
    ensures
        yes == tried_before((a_name@, a@), (b_name@, b@)),
{
    str_precedes(a.file.as_str(), b.file.as_str()) || (str_eq(a.file.as_str(), b.file.as_str())
        && str_precedes(a_name.as_str(), b_name.as_str()))
}

/// Of the profiles with a pattern that matches the sink identifier, the one
/// under `name` is tried first.
pub open spec fn first_hit(
    profiles: Map<Seq<char>, ProfileView>,
    sink: Seq<char>,
    name: Seq<char>,
) -> bool {
    &&& profiles.dom().contains(name)
    &&& profile_hits(profiles[name], sink)
    &&& forall|other: Seq<char>| #[trigger]
        profiles.dom().contains(other) && profile_hits(profiles[other], sink) ==> !tried_before(
            (other, profiles[other]),
            (name, profiles[name]),
        )
}

/// Of the profiles that hit, `hits` saying which do in the order in which they
/// are held, the one that is tried first.
pub fn first_matching<'a>(profiles: &'a StrMap<Profile>, hits: &Vec<bool>) -> (found: Option<
    &'a Profile,
>)
    requires
        hits@.len() == profiles.pairs().len(),
    ensures
        found is Some <==> hits@.contains(true),
        found matches Some(p) ==> exists|k: int|
            {
                &&& 0 <= k < hits@.len() && #[trigger] hits@[k]
                &&& p@ == profiles.pairs()[k].1 && p@ == profiles@[profiles.pairs()[k].0]
                &&& forall|j: int|
                    0 <= j < hits@.len() && #[trigger] hits@[j] ==> !tried_before(
                        profiles.pairs()[j],
                        profiles.pairs()[k],
                    )
            },
{
    let ghost pairs = profiles.pairs();
    let mut best: Option<usize> = None;
    let mut i: usize = 0;
    while i < hits.len()
        invariant
            pairs == profiles.pairs(),
            i <= hits@.len() == pairs.len(),
            match best {
                Some(k) => k < i && hits@[k as int] && forall|j: int|
                    0 <= j < i && #[trigger] hits@[j] ==> !tried_before(
                        pairs[j],
                        pairs[k as int],
                    ),
                None => forall|j: int| 0 <= j < i ==> !#[trigger] hits@[j],
            },
        decreases hits@.len() - i,
    {
        if hits[i] {
            let earlier: bool = match best {
                Some(k) => is_tried_before(
                    profiles.key_at(i),
                    profiles.value_at(i),
                    profiles.key_at(k),
                    profiles.value_at(k),
                ),
                None => true,
            };
            if earlier {
                proof {
                    lemma_precedes_irreflexive(pairs[i as int].1.file);
                    lemma_precedes_irreflexive(pairs[i as int].0);
                    if let Some(k) = best {
                        assert forall|j: int| 0 <= j < i && #[trigger] hits@[j] implies !tried_before(
                            pairs[j],
                            pairs[i as int],
                        ) by {
                            if tried_before(pairs[j], pairs[i as int]) {
                                lemma_tried_before_transitive(
                                    pairs[j],
                                    pairs[i as int],
                                    pairs[k as int],
                                );
                            }
                        }
                    }
                }
                best = Some(i);
            }
        }
        i = i + 1;
    }
    match best {
        Some(k) => {
            assert(hits@[k as int]);
            Some(profiles.value_at(k))
        },
        None => None,
    }
}

/// The profile that applies to a sink: of those with a pattern that matches its
/// identifier, the one that is tried first. Patterns that do not compile
/// match nothing.
pub fn find_matching_profile<'a>(profiles: &'a StrMap<Profile>, sink_name: &str) -> (found: Option<
    &'a Profile,
>)
    ensures
        found is Some <==> exists|name: Seq<char>| #[trigger]
            profiles@.dom().contains(name) && profile_hits(profiles@[name], sink_name@),
        forall|name: Seq<char>, i: int|
            profiles@.dom().contains(name) && 0 <= i < profiles@[name].match_patterns.len()
                && #[trigger] regex_search(profiles@[name].match_patterns[i], sink_name@) == Some(
                true,
            ) ==> found is Some,
        found matches Some(p) ==> exists|i: int|
            0 <= i < p@.match_patterns.len() && #[trigger] regex_search(
                p@.match_patterns[i],
                sink_name@,
            ) == Some(true),
        found matches Some(p) ==> exists|name: Seq<char>| #[trigger]
            first_hit(profiles@, sink_name@, name) && p@ == profiles@[name],
{
    let mut marks: Vec<bool> = Vec::new();
    let ghost pairs = profiles.pairs();
    let n: usize = profiles.len();
    let mut i: usize = 0;
    while i < n
        invariant
            i <= n == pairs.len(),
            pairs == profiles.pairs(),
            marks@.len() == i,
            forall|j: int| 0 <= j < i ==> profiles@.dom().contains((#[trigger] pairs[j]).0),
            forall|j: int| 0 <= j < i ==> profiles@[(#[trigger] pairs[j]).0] == pairs[j].1,
            forall|j: int|
                0 <= j < i ==> #[trigger] marks@[j] == profile_hits(pairs[j].1, sink_name@),
        decreases n - i,
    {
        let _ = profiles.key_at(i);
        marks.push(hits(profiles.value_at(i), sink_name));
        i = i + 1;
    }
    let found: Option<&Profile> = first_matching(profiles, &marks);
    proof {
        assert forall|name: Seq<char>, i: int|
            profiles@.dom().contains(name) && 0 <= i < profiles@[name].match_patterns.len()
                && #[trigger] regex_search(profiles@[name].match_patterns[i], sink_name@) == Some(
                true,
            ) implies profile_hits(profiles@[name], sink_name@) by {
            law_pattern_hits(profiles@[name], sink_name@, i);
        }
        profiles.lemma_pairs();
        assert forall|name: Seq<char>| #[trigger]
            profiles@.dom().contains(name) && profile_hits(
                profiles@[name],
                sink_name@,
            ) implies marks@.contains(true) by {
            lemma_map_of_dom(pairs, name);
            let j = choose|j: int| 0 <= j < pairs.len() && (#[trigger] pairs[j]).0 == name;
            assert(marks@[j]);
        }
        if let Some(p) = found {
            let k = choose|k: int|
                {
                    &&& 0 <= k < marks@.len() && #[trigger] marks@[k]
                    &&& p@ == profiles.pairs()[k].1 && p@ == profiles@[profiles.pairs()[k].0]
                    &&& forall|j: int|
                        0 <= j < marks@.len() && #[trigger] marks@[j] ==> !tried_before(
                            profiles.pairs()[j],
                            profiles.pairs()[k],
                        )
                };
            let name = pairs[k].0;
            assert(profiles@.dom().contains(name) && profile_hits(profiles@[name], sink_name@));
            assert forall|other: Seq<char>| #[trigger]
                profiles@.dom().contains(other) && profile_hits(
                    profiles@[other],
                    sink_name@,
                ) implies !tried_before((other, profiles@[other]), (name, profiles@[name])) by {
                lemma_map_of_dom(pairs, other);
                let j = choose|j: int| 0 <= j < pairs.len() && (#[trigger] pairs[j]).0 == other;
                assert(marks@[j]);
            }
            assert(first_hit(profiles@, sink_name@, name));
            let i = law_hit_has_pattern(p@, sink_name@);
        }
    }
    found
}

/// Of two profiles that match, the one from the file that comes first is applied.
pub proof fn law_earlier_file_wins(
    profiles: Map<Seq<char>, ProfileView>,
    sink: Seq<char>,
    early: Seq<char>,
    late: Seq<char>,
)
    requires
        profiles.dom().contains(early),
        profile_hits(profiles[early], sink),
        precedes(profiles[early].file, profiles[late].file),
    ensures
        !first_hit(profiles, sink, late),
{
}

/// The profile that applies does not depend on the order in which the profiles
/// are held: there is one that is tried first.
pub proof fn law_first_hit_unique(
    profiles: Map<Seq<char>, ProfileView>,
    sink: Seq<char>,
    a: Seq<char>,
    b: Seq<char>,
)
    requires
        first_hit(profiles, sink, a),
        first_hit(profiles, sink, b),
    ensures
        a == b,
{
    lemma_precedes_total(profiles[a].file, profiles[b].file);
    lemma_precedes_total(a, b);
}

// Laws ------------------------------------------------------------------------

/// The contents of a profile, field by field.
pub proof fn law_profile_contents(p: Profile, i: int)
    ensures
        p@.name == p.name@,
        p@.file == p.file@,
        p@.description == p.description@,
        p@.match_patterns.len() == p.match_patterns@.len(),
        0 <= i < p.match_patterns@.len() ==> p@.match_patterns[i] == p.match_patterns@[i]@,
        p@.params == p.params@,
{
}

/// The keys that a profile may hold are the public names of the parameters, all
/// of them and no others.
pub proof fn law_acceptable_keys(key: Seq<char>)
    ensures
        acceptable_key(key) <==> exists|p: Param| #[trigger] p.public_name() == key,
        acceptable_keys().contains(key) <==> acceptable_key(key),
{
    if exists|p: Param| #[trigger] p.public_name() == key {
        let p = choose|p: Param| #[trigger] p.public_name() == key;
        law_names_acceptable(p);
    }
}

/// Sanitising takes away keys that no parameter has, and changes nothing else.
pub proof fn law_sanitise_keeps(profile: ProfileView, key: Seq<char>)
    ensures
        sanitised(profile).name == profile.name,
        sanitised(profile).file == profile.file,
        sanitised(profile).description == profile.description,
        sanitised(profile).match_patterns == profile.match_patterns,
        sanitised(profile).params.dom().contains(key) <==> profile.params.dom().contains(key)
            && exists|p: Param| #[trigger] p.public_name() == key,
        sanitised(profile).params.dom().contains(key) ==> sanitised(profile).params[key]
            == profile.params[key],
{
    law_acceptable_keys(key);
}

/// What is loaded under a name is the last profile of that name as it was read:
/// its file, its description, its patterns, and the value of every parameter
/// that it gives one.
pub proof fn law_loaded_as_read(profiles: Seq<ProfileView>, i: int, key: Seq<char>)
    requires
        0 <= i < profiles.len(),
        forall|j: int| i < j < profiles.len() ==> (#[trigger] profiles[j]).name != profiles[i].name,
    ensures
        loaded(profiles).dom().contains(profiles[i].name),
        loaded(profiles)[profiles[i].name].name == profiles[i].name,
        loaded(profiles)[profiles[i].name].file == profiles[i].file,
        loaded(profiles)[profiles[i].name].description == profiles[i].description,
        loaded(profiles)[profiles[i].name].match_patterns == profiles[i].match_patterns,
        loaded(profiles)[profiles[i].name].params.dom().contains(key)
            <==> profiles[i].params.dom().contains(key) && exists|p: Param| #[trigger]
            p.public_name() == key,
        loaded(profiles)[profiles[i].name].params.dom().contains(key) ==> loaded(
            profiles,
        )[profiles[i].name].params[key] == profiles[i].params[key],
{
    law_last_profile_wins(profiles, i);
    law_sanitise_keeps(profiles[i], key);
}

/// A name is loaded exactly if a profile of that name was read.
pub proof fn law_loaded_names(profiles: Seq<ProfileView>, name: Seq<char>)
    ensures
        loaded(profiles).dom().contains(name) <==> exists|i: int|
            0 <= i < profiles.len() && (#[trigger] profiles[i]).name == name,
    decreases profiles.len(),
{
    if profiles.len() > 0 {
        let front = profiles.drop_last();
        law_loaded_names(front, name);
        if exists|i: int| 0 <= i < front.len() && (#[trigger] front[i]).name == name {
            let i = choose|i: int| 0 <= i < front.len() && (#[trigger] front[i]).name == name;
            assert(profiles[i].name == name);
        }
        if exists|i: int| 0 <= i < profiles.len() && (#[trigger] profiles[i]).name == name {
            let i = choose|i: int| 0 <= i < profiles.len() && (#[trigger] profiles[i]).name == name;
            if i < front.len() {
                assert(front[i].name == name);
            }
        }
    }
}

/// A file holds a profile exactly if its name is something followed by `.json`.
pub proof fn law_profile_file(name: Seq<u8>, stem: Seq<u8>)
    ensures
        is_profile_file(stem + seq![0x2eu8, 0x6au8, 0x73u8, 0x6fu8, 0x6eu8]) <==> stem.len() > 0,
        is_profile_file(name) ==> name.len() > 5 && name == name.take(name.len() - 5) + seq![
            0x2eu8,
            0x6au8,
            0x73u8,
            0x6fu8,
            0x6eu8,
        ],
{
    let end = seq![0x2eu8, 0x6au8, 0x73u8, 0x6fu8, 0x6eu8];
    let whole = stem + end;
    assert(whole.skip(whole.len() - 5) =~= end);
    if is_profile_file(name) {
        assert(name =~= name.take(name.len() - 5) + name.skip(name.len() - 5));
    }
}

/// Bytes keep their number and their order as characters.
pub proof fn law_byte_chars(bytes: Seq<u8>, i: int)
    requires
        0 <= i < bytes.len(),
    ensures
        byte_chars(bytes).len() == bytes.len(),
        byte_chars(bytes)[i] as int == bytes[i] as int,
{
}

/// The profile files of two lists are those of the first and those of the
/// second; of one file it is that file or none.
pub proof fn law_profile_names(a: Seq<Seq<u8>>, b: Seq<Seq<u8>>, name: Seq<u8>)
    ensures
        profile_names(a + b) == profile_names(a) + profile_names(b),
        profile_names(seq![name]) == (if is_profile_file(name) {
            seq![name]
        } else {
            Seq::empty()
        }),
    decreases b.len(),
{
    let empty = Seq::<Seq<u8>>::empty();
    assert(seq![name].drop_last() =~= empty);
    assert(profile_names(empty) =~= empty);
    assert(profile_names(seq![name]) =~= (if is_profile_file(name) {
        seq![name]
    } else {
        empty
    }));
    if b.len() == 0 {
        assert(a + b =~= a);
        assert(profile_names(a) + profile_names(b) =~= profile_names(a));
    } else {
        assert((a + b).drop_last() =~= a + b.drop_last());
        law_profile_names(a, b.drop_last(), name);
        assert(profile_names(a + b) =~= profile_names(a) + profile_names(b));
    }
}

/// The files that are read are the profile files, sorted by the bytes of their
/// names.
pub proof fn law_files_sorted(names: Seq<Seq<u8>>, listed: Seq<Seq<u8>>, a: int, b: int, i: int)
    requires
        sorted_by_bytes(names, listed),
        0 <= a < b < listed.len(),
        0 <= i < names.len(),
    ensures
        listed.len() == names.len(),
        !precedes(byte_chars(listed[b]), byte_chars(listed[a])),
        listed.contains(names[i]),
        names.contains(listed[a]),
{
    let order = choose|order: Seq<usize>| #[trigger]
        is_stable_order(file_keys(names), order) && listed == Seq::new(
            order.len(),
            |i: int| names[order[i] as int],
        );
    law_sorted(file_keys(names), order, a, b, i);
    let k = choose|k: int| 0 <= k < order.len() && #[trigger] order[k] == i;
    assert(listed[k] == names[i]);
    assert(names[order[a] as int] == listed[a]);
    assert(order[b] < names.len());
}

/// Every pattern of a profile counts: whichever matches, the profile does.
pub proof fn law_pattern_hits(profile: ProfileView, sink: Seq<char>, i: int)
    requires
        0 <= i < profile.match_patterns.len(),
        regex_search(profile.match_patterns[i], sink) == Some(true),
    ensures
        profile_hits(profile, sink),
{
    assert(pattern_results(profile.match_patterns, sink)[i] == Some(true));
}

/// A profile that matches has a pattern that does.
pub proof fn law_hit_has_pattern(profile: ProfileView, sink: Seq<char>) -> (i: int)
    requires
        profile_hits(profile, sink),
    ensures
        0 <= i < profile.match_patterns.len(),
        regex_search(profile.match_patterns[i], sink) == Some(true),
{
    let found = pattern_results(profile.match_patterns, sink);
    choose|i: int| 0 <= i < found.len() && found[i] == Some(true)
}

proof fn lemma_first_hit_among(
    profiles: Map<Seq<char>, ProfileView>,
    sink: Seq<char>,
    names: Set<Seq<char>>,
) -> (first: Seq<char>)
    requires
        names.finite(),
        names.subset_of(profiles.dom()),
        exists|n: Seq<char>| #[trigger] names.contains(n) && profile_hits(profiles[n], sink),
    ensures
        names.contains(first),
        profile_hits(profiles[first], sink),
        forall|other: Seq<char>| #[trigger]
            names.contains(other) && profile_hits(profiles[other], sink) ==> !tried_before(
                (other, profiles[other]),
                (first, profiles[first]),
            ),
    decreases names.len(),
{
    let n = choose|n: Seq<char>| #[trigger] names.contains(n) && profile_hits(profiles[n], sink);
    let rest = names.remove(n);
    lemma_precedes_irreflexive(n);
    lemma_precedes_irreflexive(profiles[n].file);
    if exists|m: Seq<char>| #[trigger] rest.contains(m) && profile_hits(profiles[m], sink) {
        let best = lemma_first_hit_among(profiles, sink, rest);
        if tried_before((n, profiles[n]), (best, profiles[best])) {
            assert forall|other: Seq<char>| #[trigger]
                names.contains(other) && profile_hits(profiles[other], sink) implies !tried_before(
                (other, profiles[other]),
                (n, profiles[n]),
            ) by {
                if other != n && tried_before((other, profiles[other]), (n, profiles[n])) {
                    assert(rest.contains(other));
                    lemma_tried_before_transitive(
                        (other, profiles[other]),
                        (n, profiles[n]),
                        (best, profiles[best]),
                    );
                }
            }
            n
        } else {
            assert forall|other: Seq<char>| #[trigger]
                names.contains(other) && profile_hits(profiles[other], sink) implies !tried_before(
                (other, profiles[other]),
                (best, profiles[best]),
            ) by {
                if other != n {
                    assert(rest.contains(other));
                }
            }
            best
        }
    } else {
        assert forall|other: Seq<char>| #[trigger]
            names.contains(other) && profile_hits(profiles[other], sink) implies !tried_before(
            (other, profiles[other]),
            (n, profiles[n]),
        ) by {
            if other != n {
                assert(rest.contains(other));
            }
        }
        n
    }
}

/// Where a pattern of some profile matches, a profile is found, and a pattern of
/// that one matches.
pub proof fn law_match_is_found(
    profiles: Map<Seq<char>, ProfileView>,
    sink: Seq<char>,
    name: Seq<char>,
    i: int,
) -> (found: (Seq<char>, int))
    requires
        profiles.dom().finite(),
        profiles.dom().contains(name),
        0 <= i < profiles[name].match_patterns.len(),
        regex_search(profiles[name].match_patterns[i], sink) == Some(true),
    ensures
        first_hit(profiles, sink, found.0),
        profiles.dom().contains(found.0),
        0 <= found.1 < profiles[found.0].match_patterns.len(),
        regex_search(profiles[found.0].match_patterns[found.1], sink) == Some(true),
{
    law_pattern_hits(profiles[name], sink, i);
    let first = lemma_first_hit_among(profiles, sink, profiles.dom());
    (first, law_hit_has_pattern(profiles[first], sink))
}

/// Of two profiles that match, the one whose file is named first is found, and
/// for files of one name the one whose own name comes first.
pub proof fn law_match_order(
    profiles: Map<Seq<char>, ProfileView>,
    sink: Seq<char>,
    found: Seq<char>,
    other: Seq<char>,
    i: int,
)
    requires
        first_hit(profiles, sink, found),
        profiles.dom().contains(other),
        0 <= i < profiles[other].match_patterns.len(),
        regex_search(profiles[other].match_patterns[i], sink) == Some(true),
    ensures
        !precedes(profiles[other].file, profiles[found].file),
        profiles[other].file == profiles[found].file ==> !precedes(other, found),
{
    law_pattern_hits(profiles[other], sink, i);
}

/// Every profile file is read once: as many are listed as there are, and each of
/// them is.
pub proof fn law_files_complete(names: Seq<Seq<u8>>, listed: Seq<Seq<u8>>, i: int)
    requires
        sorted_by_bytes(names, listed),
    ensures
        listed.len() == names.len(),
        0 <= i < names.len() ==> listed.contains(names[i]),
        0 <= i < listed.len() ==> names.contains(listed[i]),
{
    let order = choose|order: Seq<usize>| #[trigger]
        is_stable_order(file_keys(names), order) && listed == Seq::new(
            order.len(),
            |i: int| names[order[i] as int],
        );
    if 0 <= i < names.len() {
        assert(lists(order, i));
        let k = choose|k: int| 0 <= k < order.len() && order[k] == i;
        assert(listed[k] == names[i]);
    }
    if 0 <= i < listed.len() {
        assert(order[i] < names.len());
        assert(names[order[i] as int] == listed[i]);
    }
}

/// The contents of lists of profiles and of file names, one by one.
pub proof fn law_list_contents(profiles: Seq<Profile>, names: Seq<Vec<u8>>, i: int)
    ensures
        profile_views(profiles).len() == profiles.len(),
        0 <= i < profiles.len() ==> profile_views(profiles)[i] == profiles[i]@,
        byte_strings(names).len() == names.len(),
        0 <= i < names.len() ==> byte_strings(names)[i] == names[i]@,
{
}

/// What is loaded under a name is the last profile of that name as it was read,
/// the user's behind those of the system: its file, its description, its
/// patterns, and the value of every parameter that it gives one.
pub proof fn law_load_keeps(
    system: Vec<Profile>,
    user: Vec<Profile>,
    result: (StrMap<Profile>, Vec<Vec<String>>),
    read: Profile,
    i: int,
    key: Seq<char>,
)
    requires
        call_ensures(load_profiles, (system, user), result),
        0 <= i < system@.len() + user@.len(),
        read == (system@ + user@)[i],
        forall|j: int|
            i < j < system@.len() + user@.len() ==> (#[trigger] (system@ + user@)[j]).name@
                != read.name@,
    ensures
        result.0@.dom().contains(read.name@),
        result.0@[read.name@].name == read.name@,
        result.0@[read.name@].file == read.file@,
        result.0@[read.name@].description == read.description@,
        result.0@[read.name@].match_patterns == texts(read.match_patterns@),
        result.0@[read.name@].params.dom().contains(key) <==> read.params@.dom().contains(key)
            && exists|p: Param| #[trigger] p.public_name() == key,
        result.0@[read.name@].params.dom().contains(key) ==> result.0@[read.name@].params[key]
            == read.params@[key],
{
    let all = system@ + user@;
    let views = profile_views(system@) + profile_views(user@);
    assert(views =~= profile_views(all));
    assert(views[i] == read@);
    assert forall|j: int| i < j < views.len() implies (#[trigger] views[j]).name
        != views[i].name by {
        assert(views[j] == all[j]@);
    }
    law_loaded_as_read(views, i, key);
}

/// Whichever pattern of whichever profile matches, a profile is found, and the
/// one that is found has a pattern that matches.
pub proof fn law_match_is_returned(
    profiles: &StrMap<Profile>,
    sink_name: &str,
    found: Option<&Profile>,
    name: Seq<char>,
    i: int,
) -> (k: int)
    requires
        call_ensures(find_matching_profile, (profiles, sink_name), found),
        profiles@.dom().contains(name),
        0 <= i < profiles@[name].match_patterns.len(),
        regex_search(profiles@[name].match_patterns[i], sink_name@) == Some(true),
    ensures
        found is Some,
        0 <= k < found->0.match_patterns@.len(),
        regex_search(found->0.match_patterns@[k]@, sink_name@) == Some(true),
{
    law_pattern_hits(profiles@[name], sink_name@, i);
    let args = (profiles, sink_name);
    assert(args.0@.dom().contains(name) && profile_hits(args.0@[name], args.1@));
    assert(found is Some);
    assert(exists|other: Seq<char>| #[trigger]
        first_hit(profiles@, sink_name@, other) && found->0@ == profiles@[other]);
    law_hit_has_pattern(found->0@, sink_name@)
}

/// Where no pattern of any profile matches, no profile is found.
pub proof fn law_no_match_is_returned(
    profiles: &StrMap<Profile>,
    sink_name: &str,
    found: Option<&Profile>,
)
    requires
        call_ensures(find_matching_profile, (profiles, sink_name), found),
        forall|name: Seq<char>, i: int|
            profiles@.dom().contains(name) && 0 <= i < profiles@[name].match_patterns.len()
                ==> #[trigger] regex_search(profiles@[name].match_patterns[i], sink_name@) != Some(
                true,
            ),
    ensures
        found is None,
{
    if found is Some {
        let name = choose|name: Seq<char>| #[trigger]
            profiles@.dom().contains(name) && profile_hits(profiles@[name], sink_name@);
        let i = law_hit_has_pattern(profiles@[name], sink_name@);
        assert(regex_search(profiles@[name].match_patterns[i], sink_name@) == Some(true));
    }
}

} // verus!
