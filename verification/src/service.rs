//! The state of the daemon and the requests that it serves.
//!
//! The caller owns the outside world: it runs the PipeWire tools, reads and
//! writes files, and serves the bus. It calls a method here for every decision
//! and does what the result says.

use crate::controls::{
    cache_pushes, param_pushes, push_cache_to_pipewire, push_pairs, push_param, ControlPush,
};
use crate::params::{is_param, param_named, param_names, param_of, Param, PARAM_COUNT};
use crate::paths::{join_path, joined, opt_text};
use crate::pipewire::{metadata_args, set_output_target};
use crate::profile::{
    acceptable_keys, byte_chars, find_matching_profile, first_hit, is_profile_file,
    law_acceptable_keys, law_first_hit_unique, law_hit_has_pattern, law_match_is_found, law_match_order,
    law_names_acceptable, law_user_profile_wins, loaded, profile_hits, profiles_ok, regex_search,
    sanitised, Profile, ProfileView,
};
use crate::push::{
    looks_stale, next_stage, push_with_refresh, start_push, PushEvent, PushStage,
};
use crate::routing::{
    acceptable_choice, asks_automatic, choose_output, chosen, law_names_accepted, state_text,
};
use crate::strmap::{map_of, StrMap};
use crate::text::{
    all_white, chars_of, comes_before, is_alphanumeric, is_stable_order, join3, lists, precedes,
    same_but_case, sort_order, spec_is_alphanumeric, starts, starts_with, str_eq, texts, trimmed,
};
use crate::value::{finite, is_finite, non_finite_name, non_finite_text};
use vstd::prelude::*;

verus! {

/// A request that is refused, with the reason.
pub struct InvalidArgs {
    pub message: String,
}

/// The contents of the daemon's state.
#[verifier::ext_equal]
pub struct ServiceView {
    /// The id of the `BigSound` sink.
    pub node_id: u32,
    /// The parameter values by public name.
    pub cache: Map<Seq<char>, u64>,
    /// Goes up by one with every change of the parameter values.
    pub cache_gen: u64,
    /// The profiles by name.
    pub profiles: Map<Seq<char>, ProfileView>,
    /// The profile that was applied last.
    pub active_profile: Option<Seq<char>>,
    /// The default sink that was seen last.
    pub last_default_sink: Option<Seq<char>>,
    /// The id of the `BigSound.output` stream, 0 where it is not known.
    pub output_node_id: u32,
    /// The sink that the output is pinned to; `None` for automatic routing.
    pub output_device: Option<Seq<char>>,
}

/// What holds of every state: there is a value for every parameter and for
/// nothing else, and the profiles are keyed by name and hold the names of
/// parameters only.
pub open spec fn state_ok(s: ServiceView) -> bool {
    &&& s.cache.dom() == param_names()
    &&& profiles_ok(s.profiles)
}

/// The defaults of the parameters.
pub open spec fn default_cache() -> Map<Seq<char>, u64> {
    Map::new(|name: Seq<char>| is_param(name), |name: Seq<char>| param_of(name).default_bits())
}

/// The next generation; the count wraps around.
pub open spec fn next_gen(gen: u64) -> u64 {
    if gen == u64::MAX {
        0
    } else {
        (gen + 1) as u64
    }
}

/// The contents of an optional string.
pub open spec fn opt_string(s: Option<String>) -> Option<Seq<char>> {
    match s {
        Some(t) => Some(t@),
        None => None,
    }
}

/// The state of the daemon.
pub struct BigSoundService {
    node_id: u32,
    cache: StrMap<u64>,
    cache_gen: u64,
    profiles: StrMap<Profile>,
    active_profile: Option<String>,
    last_default_sink: Option<String>,
    output_node_id: u32,
    output_device: Option<String>,
}

impl View for BigSoundService {
    type V = ServiceView;

    closed spec fn view(&self) -> ServiceView {
        ServiceView {
            node_id: self.node_id,
            cache: self.cache@,
            cache_gen: self.cache_gen,
            profiles: self.profiles@,
            active_profile: opt_string(self.active_profile),
            last_default_sink: opt_string(self.last_default_sink),
            output_node_id: self.output_node_id,
            output_device: opt_string(self.output_device),
        }
    }
}

/// The state after a parameter was given a value.
pub open spec fn after_set(s: ServiceView, name: Seq<char>, value: u64) -> ServiceView {
    ServiceView { cache: s.cache.insert(name, value), cache_gen: next_gen(s.cache_gen), ..s }
}

/// The state after a profile was applied: its values replace those of the cache.
pub open spec fn after_apply(s: ServiceView, profile: ProfileView) -> ServiceView {
    ServiceView {
        cache: s.cache.union_prefer_right(profile.params),
        cache_gen: next_gen(s.cache_gen),
        active_profile: Some(profile.name),
        ..s
    }
}

/// `profile` holds acceptable keys only.
pub open spec fn profile_ok(profile: ProfileView) -> bool {
    profile.params.dom().subset_of(acceptable_keys())
}

/// Why a request that names an unknown parameter is refused.
pub open spec fn unknown_parameter(name: Seq<char>) -> Seq<char> {
    "unknown parameter '"@ + name + "'"@
}

/// Why a request that names an unknown profile is refused.
pub open spec fn no_such_profile(name: Seq<char>) -> Seq<char> {
    "no such profile '"@ + name + "'"@
}

/// Why a value that is not finite is refused.
pub open spec fn not_finite(value: u64) -> Seq<char> {
    "value must be finite (got "@ + non_finite_name(value) + ")"@
}

/// The state after a step of a push: an id that a look-up found is kept when the
/// push is tried again with it; nothing else changes.
pub open spec fn after_push_step(s: ServiceView, stage: PushStage, event: PushEvent) -> ServiceView {
    let next = next_stage(stage, event);
    ServiceView {
        node_id: if stage is Discover && next is Push {
            next->Push_node_id
        } else {
            s.node_id
        },
        ..s
    }
}

/// A name under which a profile can be saved: 1 to 64 ASCII letters, digits,
/// dashes, underscores and spaces.
pub open spec fn valid_profile_name(name: Seq<char>) -> bool {
    &&& 0 < name.len() <= 64
    &&& forall|i: int|
        0 <= i < name.len() ==> spec_is_alphanumeric(#[trigger] name[i]) || name[i] == '-'
            || name[i] == '_' || name[i] == ' '
}

/// Why a name under which no profile can be saved is refused.
pub open spec fn bad_profile_name() -> Seq<char> {
    "profile name must be 1..=64 ASCII chars: alphanumeric, '-', '_', or space"@
}

fn name_refusal() -> (e: InvalidArgs)
    ensures
        e.message@ == bad_profile_name(),
{
    InvalidArgs {
        message:
            "profile name must be 1..=64 ASCII chars: alphanumeric, '-', '_', or space".to_owned(),
    }
}

fn is_valid_profile_name(name: &str) -> (yes: bool)
    ensures
        yes == valid_profile_name(name@),
{
    let chars: Vec<char> = chars_of(name);
    if chars.len() == 0 || chars.len() > 64 {
        return false;
    }
    let mut i: usize = 0;
    while i < chars.len()
        invariant
            i <= chars@.len(),
            chars@ == name@,
            forall|j: int|
                0 <= j < i ==> spec_is_alphanumeric(#[trigger] chars@[j]) || chars@[j] == '-'
                    || chars@[j] == '_' || chars@[j] == ' ',
        decreases chars@.len() - i,
    {
        let c: char = chars[i];
        if !(is_alphanumeric(c) || c == '-' || c == '_' || c == ' ') {
            return false;
        }
        i = i + 1;
    }
    true
}

/// The name of the file of a profile that the user saved.
pub open spec fn user_file_name(name: Seq<char>) -> Seq<char> {
    "99-user-"@ + name + ".json"@
}

/// The file of a profile that the user saved.
pub open spec fn user_profile_file(dir: Seq<char>, name: Seq<char>) -> Seq<char> {
    joined(dir, user_file_name(name))
}

/// The file of a profile that the user saved, in the directory `dir`.
pub fn user_profile_path(dir: &str, name: &str) -> (path: Result<String, InvalidArgs>)
    ensures
        path is Ok <==> valid_profile_name(name@),
        path matches Ok(p) ==> p@ == user_profile_file(dir@, name@),
        path matches Err(e) ==> e.message@ == bad_profile_name(),
{
    if !is_valid_profile_name(name) {
        return Err(name_refusal());
    }
    Ok(join_path(dir, join3("99-user-", name, ".json").as_str()))
}

/// The profile that saves the current parameter values.
pub open spec fn snapshot(s: ServiceView, name: Seq<char>) -> ProfileView {
    ProfileView {
        name,
        file: user_file_name(name),
        description: "User-saved profile"@,
        match_patterns: Seq::empty(),
        params: s.cache,
    }
}

/// The state after a profile was saved.
pub open spec fn after_saved(s: ServiceView, profile: ProfileView) -> ServiceView {
    ServiceView { profiles: s.profiles.insert(profile.name, profile), ..s }
}

/// The state after a profile was deleted.
pub open spec fn after_deleted(s: ServiceView, name: Seq<char>) -> ServiceView {
    ServiceView { profiles: s.profiles.remove(name), ..s }
}

/// What a reading of the default sink says.
#[derive(Clone, Copy, PartialEq, Eq, Structural, Debug)]
pub enum SinkChange {
    /// There is no default sink.
    Missing,
    /// The default sink is BigSound itself.
    Own,
    /// The default sink is the one that was seen last.
    Same,
    /// The default sink changed.
    Changed,
}

/// What a reading of the default sink says.
pub open spec fn sink_change(s: ServiceView, current: Option<Seq<char>>) -> SinkChange {
    match current {
        None => SinkChange::Missing,
        Some(sink) => if starts(sink, "BigSound::"@) || sink == "BigSound"@ {
            SinkChange::Own
        } else if s.last_default_sink == Some(sink) {
            SinkChange::Same
        } else {
            SinkChange::Changed
        },
    }
}

/// The state after the default sink was read: a change is remembered.
pub open spec fn after_sink(s: ServiceView, current: Option<Seq<char>>) -> ServiceView {
    if sink_change(s, current) == SinkChange::Changed {
        ServiceView { last_default_sink: current, ..s }
    } else {
        s
    }
}

/// The profile for a sink: of those with a pattern that matches, the one that is
/// tried first; otherwise the one called `BigSound`; otherwise none.
pub open spec fn sink_profile(
    profiles: Map<Seq<char>, ProfileView>,
    sink: Seq<char>,
) -> Option<ProfileView> {
    if exists|name: Seq<char>| first_hit(profiles, sink, name) {
        Some(profiles[choose|name: Seq<char>| first_hit(profiles, sink, name)])
    } else {
        fallback(profiles)
    }
}

/// The profile for a sink that no pattern matches.
pub open spec fn fallback(profiles: Map<Seq<char>, ProfileView>) -> Option<ProfileView> {
    if profiles.dom().contains("BigSound"@) {
        Some(profiles["BigSound"@])
    } else {
        None
    }
}

/// The contents of an optional profile.
pub open spec fn opt_profile(profile: Option<Profile>) -> Option<ProfileView> {
    match profile {
        Some(p) => Some(p@),
        None => None,
    }
}

impl BigSoundService {
    /// Every state is well formed.
    #[verifier::type_invariant]
    pub open spec fn inv(self) -> bool {
        state_ok(self@)
    }

    /// The state in which the daemon starts: every parameter has its default.
    pub fn new(node_id: u32, profiles: StrMap<Profile>, output_device: Option<String>) -> (service:
        BigSoundService)
        requires
            profiles_ok(profiles@),
        ensures
            state_ok(service@),
            service@ == (ServiceView {
                node_id,
                cache: default_cache(),
                cache_gen: 0,
                profiles: profiles@,
                active_profile: None,
                last_default_sink: None,
                output_node_id: 0,
                output_device: opt_string(output_device),
            }),
    {
        let mut cache: StrMap<u64> = StrMap::new();
        let mut i: usize = 0;
        while i < PARAM_COUNT
            invariant
                i <= PARAM_COUNT,
                forall|j: int|
                    0 <= j < i ==> cache@.dom().contains(
                        (#[trigger] Param::all()[j]).public_name(),
                    ),
                forall|name: Seq<char>| #[trigger]
                    cache@.dom().contains(name) ==> is_param(name) && cache@[name] == param_of(
                        name,
                    ).default_bits(),
            decreases PARAM_COUNT - i,
        {
            let param: Param = Param::at(i);
            proof {
                crate::params::lemma_param_of(param);
            }
            cache.insert(param.name().to_owned(), param.default_value());
            i = i + 1;
        }
        proof {
            assert forall|name: Seq<char>| is_param(name) implies #[trigger] cache@.dom().contains(
                name,
            ) by {
                let j = crate::params::law_all_listed(param_of(name));
                assert(cache@.dom().contains(Param::all()[j].public_name()));
            }
            assert(cache@ =~= default_cache());
            assert(cache@.dom() =~= param_names());
        }
        BigSoundService {
            node_id,
            cache,
            cache_gen: 0,
            profiles,
            active_profile: None,
            last_default_sink: None,
            output_node_id: 0,
            output_device,
        }
    }

    /// Counts a change of the parameter values.
    fn bump_cache_gen(&mut self)
        ensures
            final(self)@ == (ServiceView { cache_gen: next_gen(old(self)@.cache_gen), ..old(self)@ }),
    {
        proof {
            use_type_invariant(&*self);
        }
        if self.cache_gen == u64::MAX {
            self.cache_gen = 0;
        } else {
            self.cache_gen = self.cache_gen + 1;
        }
    }

    /// Gives a parameter a value. On success the returned pushes are to be made.
    /// A value that is not finite is refused, and so is an unknown parameter.
    pub fn set(&mut self, name: &str, value: u64) -> (result: Result<Vec<ControlPush>, InvalidArgs>)
        ensures
            state_ok(final(self)@),
            result is Ok <==> finite(value) && is_param(name@),
            match result {
                Ok(pushes) => final(self)@ == after_set(old(self)@, name@, value) && push_pairs(
                    pushes@,
                ) == param_pushes(param_of(name@), value),
                Err(e) => final(self)@ == old(self)@ && e.message@ == (if !finite(value) {
                    not_finite(value)
                } else {
                    unknown_parameter(name@)
                }),
            },
    {
        proof {
            use_type_invariant(&*self);
        }
        if !is_finite(value) {
            return Err(
                InvalidArgs {
                    message: join3("value must be finite (got ", non_finite_text(value), ")"),
                },
            );
        }
        let param: Param = match param_named(name) {
            Some(param) => param,
            None => {
                return Err(InvalidArgs { message: join3("unknown parameter '", name, "'") });
            },
        };
        let mut cache: StrMap<u64> = self.cache.clone();
        cache.insert(name.to_owned(), value);
        assert(cache@.dom() =~= param_names());
        self.cache = cache;
        self.bump_cache_gen();
        let mut pushes: Vec<ControlPush> = Vec::new();
        assert(push_pairs(pushes@) =~= Seq::empty());
        push_param(&mut pushes, param, value);
        assert(push_pairs(pushes@) =~= param_pushes(param, value));
        Ok(pushes)
    }

    /// The value of a parameter.
    pub fn get(&self, name: &str) -> (result: Result<u64, InvalidArgs>)
        ensures
            result is Ok <==> is_param(name@),
            result matches Ok(value) ==> value == self@.cache[name@],
            result matches Err(e) ==> e.message@ == unknown_parameter(name@),
    {
        proof {
            use_type_invariant(self);
        }
        match self.cache.get(name) {
            Some(value) => Ok(*value),
            None => Err(InvalidArgs { message: join3("unknown parameter '", name, "'") }),
        }
    }

    /// The public names of the parameters, in their order.
    pub fn list(&self) -> (names: Vec<String>)
        ensures
            texts(names@) == Seq::new(
                PARAM_COUNT as nat,
                |i: int| Param::all()[i].public_name(),
            ),
    {
        let mut names: Vec<String> = Vec::new();
        let mut i: usize = 0;
        while i < PARAM_COUNT
            invariant
                i <= PARAM_COUNT,
                names@.len() == i,
                forall|j: int|
                    0 <= j < i ==> (#[trigger] names@[j])@ == Param::all()[j].public_name(),
            decreases PARAM_COUNT - i,
        {
            names.push(Param::at(i).name().to_owned());
            i = i + 1;
        }
        names
    }

    /// Applies a profile. The returned pushes are to be made.
    fn apply_profile_inner(&mut self, profile: &Profile) -> (pushes: Vec<ControlPush>)
        requires
            profile_ok(profile@),
        ensures
            state_ok(final(self)@),
            final(self)@ == after_apply(old(self)@, profile@),
            push_pairs(pushes@) == cache_pushes(final(self)@.cache),
    {
        proof {
            use_type_invariant(&*self);
        }
        let ghost pairs = profile.params.pairs();
        let ghost before = self.cache@;
        let mut cache: StrMap<u64> = self.cache.clone();
        let n: usize = profile.params.len();
        let mut i: usize = 0;
        proof {
            profile.params.lemma_pairs();
            assert(pairs.take(0) =~= Seq::empty());
            assert(before.union_prefer_right(Map::empty()) =~= before);
        }
        while i < n
            invariant
                i <= n == pairs.len(),
                pairs == profile.params.pairs(),
                cache@ == before.union_prefer_right(map_of(pairs.take(i as int))),
            decreases n - i,
        {
            let ghost earlier = map_of(pairs.take(i as int));
            cache.insert(profile.params.key_at(i).clone(), *profile.params.value_at(i));
            proof {
                assert(pairs.take(i + 1).drop_last() == pairs.take(i as int));
                assert(before.union_prefer_right(earlier.insert(pairs[i as int].0, pairs[i as int].1))
                    =~= before.union_prefer_right(earlier).insert(
                    pairs[i as int].0,
                    pairs[i as int].1,
                ));
            }
            i = i + 1;
        }
        assert(pairs.take(i as int) == pairs);
        proof {
            assert forall|name: Seq<char>| #[trigger]
                profile@.params.dom().contains(name) implies is_param(name) by {
                assert(acceptable_keys().contains(name));
            }
            assert(cache@.dom() =~= param_names());
        }
        self.cache = cache;
        self.bump_cache_gen();
        self.active_profile = Some(profile.name.clone());
        push_cache_to_pipewire(&self.cache)
    }

    /// The names of the profiles, sorted.
    pub fn list_profiles(&self) -> (names: Vec<String>)
        ensures
            forall|name: Seq<char>| #[trigger]
                texts(names@).contains(name) <==> self@.profiles.dom().contains(name),
            forall|i: int, j: int|
                0 <= i < j < names@.len() ==> precedes(
                    (#[trigger] names@[i])@,
                    (#[trigger] names@[j])@,
                ),
    {
        let mut keys: Vec<String> = Vec::new();
        let ghost pairs = self.profiles.pairs();
        let n: usize = self.profiles.len();
        let mut i: usize = 0;
        while i < n
            invariant
                i <= n == pairs.len(),
                pairs == self.profiles.pairs(),
                keys@.len() == i,
                forall|j: int| 0 <= j < i ==> (#[trigger] keys@[j])@ == pairs[j].0,
            decreases n - i,
        {
            keys.push(self.profiles.key_at(i).clone());
            i = i + 1;
        }
        let order: Vec<usize> = sort_order(&keys);
        let mut names: Vec<String> = Vec::new();
        let mut k: usize = 0;
        while k < order.len()
            invariant
                k <= order@.len(),
                is_stable_order(texts(keys@), order@),
                names@.len() == k,
                forall|j: int| 0 <= j < k ==> (#[trigger] names@[j])@ == keys@[order@[j] as int]@,
            decreases order@.len() - k,
        {
            names.push(keys[order[k]].clone());
            k = k + 1;
        }
        proof {
            self.profiles.lemma_pairs();
            assert forall|name: Seq<char>| #[trigger]
                texts(names@).contains(name) <==> self@.profiles.dom().contains(name) by {
                crate::strmap::lemma_map_of_dom(pairs, name);
                if texts(names@).contains(name) {
                    let j = choose|j: int| 0 <= j < names@.len() && texts(names@)[j] == name;
                    assert(names@[j]@ == name);
                    assert(pairs[order@[j] as int].0 == name);
                }
                if self@.profiles.dom().contains(name) {
                    let at = choose|at: int| 0 <= at < pairs.len() && (#[trigger] pairs[at]).0
                        == name;
                    assert(lists(order@, at));
                    let a = choose|a: int| 0 <= a < order@.len() && order@[a] == at;
                    assert(texts(names@)[a] == name);
                }
            }
            assert forall|i: int, j: int| 0 <= i < j < names@.len() implies precedes(
                (#[trigger] names@[i])@,
                (#[trigger] names@[j])@,
            ) by {
                let x = order@[i] as int;
                let y = order@[j] as int;
                assert(comes_before(texts(keys@), x, y));
                if x < y {
                    assert(pairs[x].0 != pairs[y].0);
                }
            }
        }
        names
    }

    /// The profile of a name.
    pub fn get_profile(&self, name: &str) -> (result: Result<&Profile, InvalidArgs>)
        ensures
            result is Ok <==> self@.profiles.dom().contains(name@),
            result matches Ok(profile) ==> profile@ == self@.profiles[name@],
            result matches Err(e) ==> e.message@ == no_such_profile(name@),
    {
        match self.profiles.get(name) {
            Some(profile) => Ok(profile),
            None => Err(InvalidArgs { message: join3("no such profile '", name, "'") }),
        }
    }

    /// Applies the profile of a name. On success the returned pushes are to be
    /// made.
    pub fn apply_profile(&mut self, name: &str) -> (result: Result<Vec<ControlPush>, InvalidArgs>)
        ensures
            state_ok(final(self)@),
            result is Ok <==> old(self)@.profiles.dom().contains(name@),
            match result {
                Ok(pushes) => final(self)@ == after_apply(
                    old(self)@,
                    old(self)@.profiles[name@],
                ) && push_pairs(pushes@) == cache_pushes(final(self)@.cache),
                Err(e) => final(self)@ == old(self)@ && e.message@ == no_such_profile(name@),
            },
    {
        proof {
            use_type_invariant(&*self);
        }
        let profile: Profile = match self.profiles.get(name) {
            Some(profile) => profile.clone(),
            None => {
                return Err(InvalidArgs { message: join3("no such profile '", name, "'") });
            },
        };
        Ok(self.apply_profile_inner(&profile))
    }

    /// The profile that saves the current parameter values under a name, and the
    /// file that it is to be written to. Once that is done, `profile_saved` is
    /// to be called.
    pub fn save_profile(&self, name: &str, dir: &str) -> (result: Result<
        (Profile, String),
        InvalidArgs,
    >)
        ensures
            result is Ok <==> valid_profile_name(name@),
            result matches Ok(saved) ==> saved.0@ == snapshot(self@, name@) && profile_ok(
                saved.0@,
            ) && saved.1@ == user_profile_file(dir@, name@),
            result matches Err(e) ==> e.message@ == bad_profile_name(),
    {
        proof {
            use_type_invariant(self);
        }
        match user_profile_path(dir, name) {
            Ok(path) => {
                let profile = Profile {
                    name: name.to_owned(),
                    file: join3("99-user-", name, ".json"),
                    description: "User-saved profile".to_owned(),
                    match_patterns: Vec::new(),
                    params: self.cache.clone(),
                };
                proof {
                    assert(profile@ =~= snapshot(self@, name@));
                    assert forall|key: Seq<char>| #[trigger]
                        profile@.params.dom().contains(key) implies acceptable_keys().contains(
                        key,
                    ) by {
                        assert(param_names().contains(key));
                        crate::profile::law_names_acceptable(param_of(key));
                    }
                }
                Ok((profile, path))
            },
            Err(e) => Err(e),
        }
    }

    /// Takes a profile that was saved into the list.
    pub fn profile_saved(&mut self, profile: Profile)
        requires
            profile_ok(profile@),
        ensures
            state_ok(final(self)@),
            final(self)@ == after_saved(old(self)@, profile@),
    {
        proof {
            use_type_invariant(&*self);
        }
        let mut profiles: StrMap<Profile> = StrMap::new();
        std::mem::swap(&mut profiles, &mut self.profiles);
        profiles.insert(profile.name.clone(), profile);
        self.profiles = profiles;
    }

    /// Whether a user profile may be deleted, where `exists` says that its file
    /// is there. Once the file is removed, `profile_deleted` is to be called.
    pub fn delete_profile(&self, name: &str, exists: bool) -> (result: Result<(), InvalidArgs>)
        ensures
            result is Ok <==> valid_profile_name(name@) && exists,
            result matches Err(e) ==> e.message@ == (if !valid_profile_name(name@) {
                bad_profile_name()
            } else {
                "no user profile '"@ + name@ + "' (built-in profiles can't be deleted)"@
            }),
    {
        if !is_valid_profile_name(name) {
            return Err(name_refusal());
        }
        if !exists {
            return Err(
                InvalidArgs {
                    message: join3(
                        "no user profile '",
                        name,
                        "' (built-in profiles can't be deleted)",
                    ),
                },
            );
        }
        Ok(())
    }

    /// Takes a profile whose file was removed out of the list.
    pub fn profile_deleted(&mut self, name: &str)
        ensures
            state_ok(final(self)@),
            final(self)@ == after_deleted(old(self)@, name@),
    {
        proof {
            use_type_invariant(&*self);
        }
        let mut profiles: StrMap<Profile> = StrMap::new();
        std::mem::swap(&mut profiles, &mut self.profiles);
        profiles.remove(name);
        self.profiles = profiles;
    }

    /// The sink that the output is pinned to, empty for automatic routing.
    pub fn get_output_device(&self) -> (name: String)
        ensures
            name@ == state_text(self@.output_device),
    {
        match &self.output_device {
            Some(sink) => sink.clone(),
            None => String::new(),
        }
    }

    /// Chooses the sink that the output is pinned to, or automatic routing. On
    /// success the choice is to be written to the state file, and the output is
    /// to be routed.
    pub fn set_output_device(&mut self, name: &str) -> (result: Result<Option<String>, InvalidArgs>)
        ensures
            state_ok(final(self)@),
            result is Ok <==> acceptable_choice(name@),
            match result {
                Ok(target) => opt_string(target) == chosen(name@) && final(self)@ == (ServiceView {
                    output_device: chosen(name@),
                    ..old(self)@
                }),
                Err(e) => final(self)@ == old(self)@ && e.message@ == "invalid sink name '"@
                    + name@ + "'"@,
            },
    {
        proof {
            use_type_invariant(&*self);
        }
        match choose_output(name) {
            Ok(target) => {
                self.output_device = match &target {
                    Some(sink) => Some(sink.clone()),
                    None => None,
                };
                Ok(target)
            },
            Err(e) => Err(e),
        }
    }

    /// The sink that the output has to be pinned to again; `None` where routing
    /// is automatic and nothing is to be done.
    pub fn enforce_output_device(&self) -> (sink: Option<String>)
        ensures
            opt_string(sink) == self@.output_device,
    {
        match &self.output_device {
            Some(sink) => Some(sink.clone()),
            None => None,
        }
    }

    /// Notes the id of the `BigSound.output` stream, where it was found, and
    /// gives the arguments of `pw-metadata` that route it to `target`.
    pub fn route_output(&mut self, target: Option<&str>, found: Option<u32>) -> (args: Option<
        Vec<String>,
    >)
        ensures
            state_ok(final(self)@),
            args is Some <==> found is Some,
            match found {
                Some(id) => final(self)@ == (ServiceView { output_node_id: id, ..old(self)@ })
                    && texts(args->0@) == metadata_args(id, opt_text(target)),
                None => final(self)@ == old(self)@,
            },
    {
        proof {
            use_type_invariant(&*self);
        }
        match found {
            Some(id) => {
                self.output_node_id = id;
                Some(set_output_target(id, target))
            },
            None => None,
        }
    }

    /// The id of the `BigSound` sink.
    pub fn node_id(&self) -> (id: u32)
        ensures
            id == self@.node_id,
    {
        self.node_id
    }

    /// Where a push starts: with the id of the `BigSound` sink at hand.
    pub fn begin_push(&self) -> (stage: PushStage)
        ensures
            stage == (PushStage::Push { node_id: self@.node_id, retry: false }),
    {
        start_push(self.node_id)
    }

    /// Takes a push one step further. Where a look-up leads to a retry, the fresh
    /// id is kept; otherwise the state stays as it is.
    pub fn push_step(&mut self, stage: PushStage, event: PushEvent) -> (next: PushStage)
        ensures
            state_ok(final(self)@),
            next == next_stage(stage, event),
            final(self)@ == after_push_step(old(self)@, stage, event),
    {
        proof {
            use_type_invariant(&*self);
        }
        let looked_up: bool = match &stage {
            PushStage::Discover { .. } => true,
            _ => false,
        };
        let next: PushStage = push_with_refresh(stage, event);
        if looked_up {
            if let PushStage::Push { node_id, .. } = &next {
                self.node_id = *node_id;
            }
        }
        next
    }

    /// The default sink that was seen last.
    pub fn last_default_sink(&self) -> (sink: Option<String>)
        ensures
            opt_string(sink) == self@.last_default_sink,
    {
        match &self.last_default_sink {
            Some(sink) => Some(sink.clone()),
            None => None,
        }
    }

    /// The profile that was applied last, empty where there is none.
    pub fn active_profile(&self) -> (name: String)
        ensures
            name@ == state_text(self@.active_profile),
    {
        match &self.active_profile {
            Some(name) => name.clone(),
            None => String::new(),
        }
    }

    /// The generation of the parameter values.
    pub fn cache_gen(&self) -> (gen: u64)
        ensures
            gen == self@.cache_gen,
    {
        self.cache_gen
    }

    /// The pushes that bring the filter chain in line with the parameter values.
    pub fn cache_snapshot(&self) -> (pushes: Vec<ControlPush>)
        ensures
            push_pairs(pushes@) == cache_pushes(self@.cache),
    {
        push_cache_to_pipewire(&self.cache)
    }

    /// The number of profiles.
    pub fn profile_count(&self) -> (n: usize)
        ensures
            n == self@.profiles.len(),
    {
        self.profiles.len()
    }

    /// Notes the default sink that was read.
    pub fn note_default_sink(&mut self, current: &Option<String>) -> (change: SinkChange)
        ensures
            state_ok(final(self)@),
            change == sink_change(old(self)@, opt_string(*current)),
            final(self)@ == after_sink(old(self)@, opt_string(*current)),
    {
        proof {
            use_type_invariant(&*self);
        }
        let sink: &String = match current {
            Some(sink) => sink,
            None => return SinkChange::Missing,
        };
        if starts_with(sink.as_str(), "BigSound::") || str_eq(sink.as_str(), "BigSound") {
            return SinkChange::Own;
        }
        let same: bool = match &self.last_default_sink {
            Some(last) => str_eq(last.as_str(), sink.as_str()),
            None => false,
        };
        if same {
            return SinkChange::Same;
        }
        self.last_default_sink = Some(sink.clone());
        SinkChange::Changed
    }

    /// The profile for a sink, where `matched` is the one that a pattern picked:
    /// that one, otherwise the one called `BigSound`.
    pub fn or_fallback(&self, matched: Option<Profile>) -> (profile: Option<Profile>)
        ensures
            opt_profile(profile) == match matched {
                Some(m) => Some(m@),
                None => fallback(self@.profiles),
            },
    {
        match matched {
            Some(profile) => Some(profile),
            None => match self.profiles.get("BigSound") {
                Some(profile) => Some(profile.clone()),
                None => None,
            },
        }
    }

    /// The profile for a sink: the first one with a pattern that matches, or the
    /// one called `BigSound`.
    pub fn profile_for(&self, sink: &str) -> (profile: Option<Profile>)
        ensures
            opt_profile(profile) == sink_profile(self@.profiles, sink@),
    {
        let matched: Option<Profile> = match find_matching_profile(&self.profiles, sink) {
            Some(profile) => Some(profile.clone()),
            None => None,
        };
        proof {
            if matched is Some {
                let name = choose|name: Seq<char>| #[trigger]
                    first_hit(self@.profiles, sink@, name) && matched->0@ == self@.profiles[name];
                let picked = choose|name: Seq<char>| first_hit(self@.profiles, sink@, name);
                law_first_hit_unique(self@.profiles, sink@, name, picked);
            }
        }
        self.or_fallback(matched)
    }

    /// Applies the profile that was found for a sink, if any, and returns its
    /// name and the pushes that are to be made.
    pub fn apply_found(&mut self, found: Option<Profile>) -> (applied: Option<
        (String, Vec<ControlPush>),
    >)
        requires
            found matches Some(profile) ==> profile_ok(profile@),
        ensures
            state_ok(final(self)@),
            match (applied, opt_profile(found)) {
                (Some((name, pushes)), Some(p)) => name@ == p.name && final(self)@ == after_apply(
                    old(self)@,
                    p,
                ) && push_pairs(pushes@) == cache_pushes(final(self)@.cache),
                (None, None) => final(self)@ == old(self)@,
                _ => false,
            },
    {
        proof {
            use_type_invariant(&*self);
        }
        match found {
            Some(profile) => {
                let pushes: Vec<ControlPush> = self.apply_profile_inner(&profile);
                Some((profile.name.clone(), pushes))
            },
            None => None,
        }
    }

    /// Applies the profile for a sink, if there is one, and returns its name and
    /// the pushes that are to be made.
    pub fn apply_for_sink(&mut self, sink: &str) -> (applied: Option<(String, Vec<ControlPush>)>)
        ensures
            state_ok(final(self)@),
            match (applied, sink_profile(old(self)@.profiles, sink@)) {
                (Some((name, pushes)), Some(p)) => name@ == p.name && final(self)@ == after_apply(
                    old(self)@,
                    p,
                ) && push_pairs(pushes@) == cache_pushes(final(self)@.cache),
                (None, None) => final(self)@ == old(self)@,
                _ => false,
            },
    {
        proof {
            use_type_invariant(&*self);
        }
        let found: Option<Profile> = self.profile_for(sink);
        self.apply_found(found)
    }
}

// Laws ------------------------------------------------------------------------

/// What is read after a parameter was set is the value that it was given; the
/// other parameters keep theirs, and nothing else of the state changes but the
/// generation.
pub proof fn law_set_then_get(s: ServiceView, name: Seq<char>, value: u64)
    requires
        state_ok(s),
        is_param(name),
    ensures
        state_ok(after_set(s, name, value)),
        after_set(s, name, value).cache[name] == value,
        forall|other: Seq<char>|
            other != name ==> #[trigger] after_set(s, name, value).cache[other] == s.cache[other],
        after_set(s, name, value) == (ServiceView {
            cache: after_set(s, name, value).cache,
            cache_gen: next_gen(s.cache_gen),
            ..s
        }),
{
    assert(after_set(s, name, value).cache.dom() =~= s.cache.dom());
}

/// Of two values set in a row the last one counts.
pub proof fn law_last_set_wins(s: ServiceView, name: Seq<char>, first: u64, last: u64)
    ensures
        after_set(after_set(s, name, first), name, last).cache == after_set(s, name, last).cache,
{
    assert(after_set(after_set(s, name, first), name, last).cache =~= after_set(
        s,
        name,
        last,
    ).cache);
}

/// Every change of the parameter values changes the generation.
pub proof fn law_changes_are_counted(
    s: ServiceView,
    name: Seq<char>,
    value: u64,
    profile: ProfileView,
)
    ensures
        after_set(s, name, value).cache_gen != s.cache_gen,
        after_apply(s, profile).cache_gen != s.cache_gen,
{
}

/// After a profile was applied, its parameters have its values, and the others
/// keep theirs; it is the active profile.
pub proof fn law_apply_then_get(s: ServiceView, profile: ProfileView, name: Seq<char>)
    requires
        state_ok(s),
        profile_ok(profile),
    ensures
        state_ok(after_apply(s, profile)),
        profile.params.dom().contains(name) ==> after_apply(s, profile).cache[name]
            == profile.params[name],
        is_param(name) && !profile.params.dom().contains(name) ==> after_apply(
            s,
            profile,
        ).cache[name] == s.cache[name],
        after_apply(s, profile).active_profile == Some(profile.name),
{
    assert forall|key: Seq<char>| #[trigger] profile.params.dom().contains(key) implies is_param(
        key,
    ) by {
        assert(acceptable_keys().contains(key));
    }
    assert(after_apply(s, profile).cache.dom() =~= param_names());
}

/// Applying a profile again changes no parameter value.
pub proof fn law_apply_twice(s: ServiceView, profile: ProfileView)
    ensures
        after_apply(after_apply(s, profile), profile).cache == after_apply(s, profile).cache,
{
    assert(after_apply(after_apply(s, profile), profile).cache =~= after_apply(s, profile).cache);
}

/// A saved profile gives back the parameter values that were saved, whatever
/// happened in between.
pub proof fn law_save_then_apply(saved: ServiceView, later: ServiceView, name: Seq<char>)
    requires
        state_ok(saved),
        state_ok(later),
    ensures
        after_saved(later, snapshot(saved, name)).profiles[name] == snapshot(saved, name),
        after_apply(later, snapshot(saved, name)).cache == saved.cache,
        after_apply(later, snapshot(saved, name)).active_profile == Some(name),
{
    assert(after_apply(later, snapshot(saved, name)).cache =~= saved.cache);
}

/// A saved profile holds acceptable keys only, so that nothing of it is dropped
/// when it is loaded again.
pub proof fn law_saved_is_kept(s: ServiceView, name: Seq<char>)
    requires
        state_ok(s),
    ensures
        profile_ok(snapshot(s, name)),
        sanitised(snapshot(s, name)) == snapshot(s, name),
{
    assert forall|key: Seq<char>| #[trigger]
        snapshot(s, name).params.dom().contains(key) implies acceptable_keys().contains(key) by {
        assert(param_names().contains(key));
        law_names_acceptable(param_of(key));
    }
    assert(sanitised(snapshot(s, name)).params =~= s.cache);
}

/// A saved profile is loaded again, in place of every profile of that name of
/// the system, where no later file of the user holds one of that name.
pub proof fn law_save_then_load(
    s: ServiceView,
    name: Seq<char>,
    system: Seq<ProfileView>,
    user: Seq<ProfileView>,
    i: int,
)
    requires
        state_ok(s),
        0 <= i < user.len(),
        user[i] == snapshot(s, name),
        forall|j: int| i < j < user.len() ==> (#[trigger] user[j]).name != name,
    ensures
        loaded(system + user).dom().contains(name),
        loaded(system + user)[name] == snapshot(s, name),
{
    law_saved_is_kept(s, name);
    law_user_profile_wins(system, user, i);
}

/// A profile that was deleted is gone; the others are still there.
pub proof fn law_delete(s: ServiceView, name: Seq<char>)
    requires
        state_ok(s),
    ensures
        state_ok(after_deleted(s, name)),
        !after_deleted(s, name).profiles.dom().contains(name),
        forall|other: Seq<char>| #[trigger]
            after_deleted(s, name).profiles.dom().contains(other) <==> other != name
                && s.profiles.dom().contains(other),
        forall|other: Seq<char>| #[trigger]
            after_deleted(s, name).profiles.dom().contains(other) ==> after_deleted(
                s,
                name,
            ).profiles[other] == s.profiles[other],
{
}

/// Deleting a profile right after it was saved under a new name leaves the state
/// as it was.
pub proof fn law_save_then_delete(s: ServiceView, name: Seq<char>)
    requires
        !s.profiles.dom().contains(name),
    ensures
        after_deleted(after_saved(s, snapshot(s, name)), name) == s,
{
    assert(after_deleted(after_saved(s, snapshot(s, name)), name).profiles =~= s.profiles);
}

/// The file of a saved profile lies in the directory itself: its name holds no
/// separator.
pub proof fn law_saved_file_stays_in_dir(dir: Seq<char>, name: Seq<char>)
    requires
        valid_profile_name(name),
    ensures
        user_profile_file(dir, name) == joined(dir, user_file_name(name)),
        !user_file_name(name).contains('/'),
        !user_file_name(name).contains('\0'),
{
    reveal_strlit("99-user-");
    reveal_strlit(".json");
    let file = user_file_name(name);
    assert forall|i: int| 0 <= i < file.len() implies #[trigger] file[i] != '/' && file[i]
        != '\0' by {
        if 8 <= i < 8 + name.len() {
            assert(file[i] == name[i - 8]);
        }
    }
}

/// Profiles of different names are saved to different files.
pub proof fn law_saved_files_differ(a: Seq<char>, b: Seq<char>)
    requires
        user_file_name(a) == user_file_name(b),
    ensures
        a == b,
{
    reveal_strlit("99-user-");
    reveal_strlit(".json");
    assert(user_file_name(a).len() == a.len() + 13);
    assert(user_file_name(b).len() == b.len() + 13);
    assert(a =~= user_file_name(a).subrange(8, 8 + a.len() as int));
    assert(b =~= user_file_name(b).subrange(8, 8 + b.len() as int));
}

/// The file of a saved profile is one of those that are loaded.
pub proof fn law_saved_file_is_read(name: Seq<char>, bytes: Seq<u8>)
    requires
        byte_chars(bytes) == user_file_name(name),
    ensures
        is_profile_file(bytes),
{
    reveal_strlit("99-user-");
    reveal_strlit(".json");
    let n = bytes.len() as int;
    assert(byte_chars(bytes).len() == n);
    assert(n == name.len() + 13);
    let end = bytes.skip(n - 5);
    assert(byte_chars(bytes)[n - 5] == '.');
    assert(byte_chars(bytes)[n - 4] == 'j');
    assert(byte_chars(bytes)[n - 3] == 's');
    assert(byte_chars(bytes)[n - 2] == 'o');
    assert(byte_chars(bytes)[n - 1] == 'n');
    assert(end =~= crate::profile::json_suffix());
}

/// A push that succeeds, or that fails for another reason than a node that is
/// gone, is over with its own outcome, and the stored id stays.
pub proof fn law_push_without_lookup(s: ServiceView, outcome: Result<(), String>)
    requires
        outcome matches Err(error) ==> !looks_stale(error@),
    ensures
        ({
            let start = PushStage::Push { node_id: s.node_id, retry: false };
            let event = PushEvent::Pushed(outcome);
            next_stage(start, event) == PushStage::Done(outcome) && after_push_step(s, start, event)
                == s
        }),
{
}

/// A push that fails as if the node were gone leads to one look-up. Where that
/// finds another id, the id is stored and one more push, to that node, decides
/// the outcome. Where it does not, the outcome is the error of the first push,
/// and the stored id stays.
pub proof fn law_push_with_lookup(
    s: ServiceView,
    error: String,
    found: Option<u32>,
    second: Result<(), String>,
)
    requires
        looks_stale(error@),
    ensures
        ({
            let start = PushStage::Push { node_id: s.node_id, retry: false };
            let failure = PushEvent::Pushed(Err(error));
            let lookup = next_stage(start, failure);
            let answer = PushEvent::Discovered(found);
            let after = next_stage(lookup, answer);
            let kept = after_push_step(s, lookup, answer);
            &&& lookup == (PushStage::Discover { node_id: s.node_id, error })
            &&& after_push_step(s, start, failure) == s
            &&& match found {
                Some(fresh) if fresh != s.node_id => {
                    &&& after == (PushStage::Push { node_id: fresh, retry: true })
                    &&& kept == (ServiceView { node_id: fresh, ..s })
                    &&& next_stage(after, PushEvent::Pushed(second)) == PushStage::Done(second)
                    &&& after_push_step(kept, after, PushEvent::Pushed(second)) == kept
                },
                _ => after == PushStage::Done(Err(error)) && kept == s,
            }
        }),
{
}

/// A reading of the default sink that is repeated is no change, and leaves the
/// state as it is.
pub proof fn law_sink_settles(s: ServiceView, current: Option<Seq<char>>)
    ensures
        sink_change(after_sink(s, current), current) != SinkChange::Changed,
        after_sink(after_sink(s, current), current) == after_sink(s, current),
{
}

/// No profile is applied because BigSound itself became the default sink, with
/// or without a port.
pub proof fn law_own_sink_ignored(s: ServiceView, port: Seq<char>)
    ensures
        sink_change(s, Some("BigSound"@)) == SinkChange::Own,
        sink_change(s, Some("BigSound"@ + "::"@ + port)) == SinkChange::Own,
        after_sink(s, Some("BigSound"@)) == s,
        after_sink(s, Some("BigSound"@ + "::"@ + port)) == s,
{
    reveal_strlit("BigSound");
    reveal_strlit("BigSound::");
    reveal_strlit("::");
    let sink = "BigSound"@ + "::"@ + port;
    assert(sink.take("BigSound::"@.len() as int) =~= "BigSound::"@);
}

/// With a profile called `BigSound`, no sink is left without a profile.
pub proof fn law_no_sink_without_profile(s: ServiceView, sink: Seq<char>)
    requires
        s.profiles.dom().contains("BigSound"@),
    ensures
        sink_profile(s.profiles, sink) is Some,
{
}

/// The choice of the output is what is read back, and nothing else changes with
/// it.
pub proof fn law_output_read_back(s: ServiceView, name: Seq<char>)
    requires
        acceptable_choice(name),
    ensures
        state_text((ServiceView { output_device: chosen(name), ..s }).output_device) == (
        if asks_automatic(name) {
            Seq::empty()
        } else {
            trimmed(name)
        }),
{
}

/// What a valid state holds: a value for every parameter and for nothing else,
/// and every profile under its own name, with keys of parameters only.
pub proof fn law_valid_state(s: ServiceView, key: Seq<char>, name: Seq<char>)
    requires
        state_ok(s),
    ensures
        s.cache.dom().contains(key) <==> exists|p: Param| #[trigger] p.public_name() == key,
        s.profiles.dom().contains(name) ==> s.profiles[name].name == name,
        s.profiles.dom().contains(name) && s.profiles[name].params.dom().contains(key) ==> exists|
            p: Param,
        | #[trigger]
            p.public_name() == key,
{
    assert(param_names().contains(key) <==> is_param(key));
    if s.profiles.dom().contains(name) && s.profiles[name].params.dom().contains(key) {
        assert(acceptable_keys().contains(key));
    }
}

/// Every parameter starts with its default, and nothing else has a value.
pub proof fn law_defaults(param: Param, key: Seq<char>)
    ensures
        default_cache().dom().contains(param.public_name()),
        default_cache()[param.public_name()] == param.default_bits(),
        default_cache().dom().contains(key) ==> exists|p: Param| #[trigger] p.public_name() == key,
{
    crate::params::lemma_param_of(param);
}

/// The generation goes up by one, and from the greatest back to zero.
pub proof fn law_generation(gen: u64)
    ensures
        gen < u64::MAX ==> next_gen(gen) == gen + 1,
        gen == u64::MAX ==> next_gen(gen) == 0,
{
}

/// Applying a profile changes the values, the generation and the active profile,
/// and nothing else.
pub proof fn law_apply_changes(s: ServiceView, profile: ProfileView)
    ensures
        after_apply(s, profile).cache_gen == next_gen(s.cache_gen),
        after_apply(s, profile).active_profile == Some(profile.name),
        after_apply(s, profile).node_id == s.node_id,
        after_apply(s, profile).profiles == s.profiles,
        after_apply(s, profile).last_default_sink == s.last_default_sink,
        after_apply(s, profile).output_node_id == s.output_node_id,
        after_apply(s, profile).output_device == s.output_device,
{
}

/// A saved profile has the name it was given, the values of all parameters, the
/// file of that name, and no pattern, so that it is never applied by itself.
pub proof fn law_snapshot(s: ServiceView, name: Seq<char>, sink: Seq<char>)
    ensures
        snapshot(s, name).name == name,
        snapshot(s, name).file == "99-user-"@ + name + ".json"@,
        snapshot(s, name).description == "User-saved profile"@,
        snapshot(s, name).match_patterns.len() == 0,
        snapshot(s, name).params == s.cache,
        !profile_hits(snapshot(s, name), sink),
{
    if profile_hits(snapshot(s, name), sink) {
        let i = law_hit_has_pattern(snapshot(s, name), sink);
    }
}

/// A saved profile stands in the list under its name; the others stay, and
/// nothing else changes.
pub proof fn law_saved_is_listed(s: ServiceView, profile: ProfileView, other: Seq<char>)
    ensures
        after_saved(s, profile).profiles.dom().contains(profile.name),
        after_saved(s, profile).profiles[profile.name] == profile,
        other != profile.name ==> (after_saved(s, profile).profiles.dom().contains(other)
            <==> s.profiles.dom().contains(other)),
        other != profile.name && s.profiles.dom().contains(other) ==> after_saved(
            s,
            profile,
        ).profiles[other] == s.profiles[other],
        after_saved(s, profile) == (ServiceView {
            profiles: after_saved(s, profile).profiles,
            ..s
        }),
        after_deleted(s, other) == (ServiceView { profiles: after_deleted(s, other).profiles, ..s }),
{
}

/// The names under which profiles can be saved: 1 to 64 characters, each an ASCII
/// letter or digit, a dash, an underscore or a space.
pub proof fn law_profile_names(name: Seq<char>)
    ensures
        valid_profile_name(name) <==> 1 <= name.len() <= 64 && forall|i: int|
            0 <= i < name.len() ==> (0x30 <= #[trigger] name[i] as int <= 0x39 || 0x41
                <= name[i] as int <= 0x5a || 0x61 <= name[i] as int <= 0x7a || name[i] as int
                == 0x2d || name[i] as int == 0x5f || name[i] as int == 0x20),
{
    if valid_profile_name(name) {
        assert forall|i: int| 0 <= i < name.len() implies (0x30 <= #[trigger] name[i] as int
            <= 0x39 || 0x41 <= name[i] as int <= 0x5a || 0x61 <= name[i] as int <= 0x7a
            || name[i] as int == 0x2d || name[i] as int == 0x5f || name[i] as int == 0x20) by {
            assert(spec_is_alphanumeric(name[i]) || name[i] == '-' || name[i] == '_' || name[i]
                == ' ');
        }
    }
}

/// The file of a saved profile stands in the directory, between `99-user-` and
/// `.json` its name.
pub proof fn law_saved_path(dir: Seq<char>, name: Seq<char>)
    requires
        dir.len() > 0,
        dir.last() != '/',
    ensures
        user_profile_file(dir, name) == dir.push('/') + ("99-user-"@ + name + ".json"@),
        user_file_name(name) == "99-user-"@ + name + ".json"@,
{
    reveal_strlit("99-user-");
    crate::paths::law_joined(dir, "99-user-"@ + name + ".json"@);
}

/// Why requests are refused, as the client sees it.
pub proof fn law_refusals(name: Seq<char>, value: u64)
    ensures
        unknown_parameter(name) == "unknown parameter '"@ + name + "'"@,
        no_such_profile(name) == "no such profile '"@ + name + "'"@,
        not_finite(value) == "value must be finite (got "@ + non_finite_name(value) + ")"@,
        bad_profile_name()
            == "profile name must be 1..=64 ASCII chars: alphanumeric, '-', '_', or space"@,
{
}

/// What a reading of the default sink says: nothing without a sink, nothing for
/// BigSound itself with or without a port, otherwise a change exactly if the sink
/// is not the one that was seen last.
pub proof fn law_sink_reading(s: ServiceView, sink: Seq<char>)
    ensures
        sink_change(s, None) == SinkChange::Missing,
        sink_change(s, Some(sink)) == SinkChange::Own <==> sink == "BigSound"@ || (sink.len() >= 10
            && sink.take(10) == "BigSound::"@),
        sink_change(s, Some(sink)) == SinkChange::Same <==> s.last_default_sink == Some(sink)
            && sink_change(s, Some(sink)) != SinkChange::Own,
        sink_change(s, Some(sink)) == SinkChange::Changed <==> s.last_default_sink != Some(sink)
            && sink_change(s, Some(sink)) != SinkChange::Own,
        sink_change(s, Some(sink)) == SinkChange::Changed ==> after_sink(s, Some(sink)) == (
        ServiceView { last_default_sink: Some(sink), ..s }),
        sink_change(s, Some(sink)) != SinkChange::Changed ==> after_sink(s, Some(sink)) == s,
        after_sink(s, None) == s,
{
    reveal_strlit("BigSound::");
}

/// The profile for a sink is one of the profiles with a pattern that matches it,
/// where there is one.
pub proof fn law_sink_gets_match(
    profiles: Map<Seq<char>, ProfileView>,
    sink: Seq<char>,
    name: Seq<char>,
    i: int,
) -> (found: (Seq<char>, int))
    requires
        profiles.dom().finite(),
        profiles.dom().contains(name),
        0 <= i < profiles[name].match_patterns.len(),
        regex_search(profiles[name].match_patterns[i], sink) == Some(true),
    ensures
        profiles.dom().contains(found.0),
        sink_profile(profiles, sink) == Some(profiles[found.0]),
        0 <= found.1 < profiles[found.0].match_patterns.len(),
        regex_search(profiles[found.0].match_patterns[found.1], sink) == Some(true),
        !precedes(profiles[name].file, profiles[found.0].file),
{
    let first = law_match_is_found(profiles, sink, name, i);
    let picked = choose|name: Seq<char>| first_hit(profiles, sink, name);
    law_first_hit_unique(profiles, sink, first.0, picked);
    law_match_order(profiles, sink, first.0, name, i);
    first
}

/// Where no pattern of any profile matches a sink, its profile is the one called
/// BigSound, and none where there is no such profile.
pub proof fn law_sink_falls_back(profiles: Map<Seq<char>, ProfileView>, sink: Seq<char>)
    requires
        forall|name: Seq<char>, i: int|
            profiles.dom().contains(name) && 0 <= i < profiles[name].match_patterns.len()
                ==> #[trigger] regex_search(profiles[name].match_patterns[i], sink) != Some(true),
    ensures
        profiles.dom().contains("BigSound"@) ==> sink_profile(profiles, sink) == Some(
            profiles["BigSound"@],
        ),
        !profiles.dom().contains("BigSound"@) ==> sink_profile(profiles, sink) is None,
{
    assert forall|name: Seq<char>| !first_hit(profiles, sink, name) by {
        if first_hit(profiles, sink, name) {
            let i = law_hit_has_pattern(profiles[name], sink);
            assert(regex_search(profiles[name].match_patterns[i], sink) == Some(true));
        }
    }
}

/// The contents of an optional string and of an optional profile.
pub proof fn law_optional_contents(s: String, p: Profile)
    ensures
        opt_string(Some(s)) == Some(s@),
        opt_string(None) is None,
        opt_profile(Some(p)) == Some(p@),
        opt_profile(None) is None,
{
}

/// A profile can be applied exactly if every key that it holds is the name of a
/// parameter.
pub proof fn law_profile_ok(profile: ProfileView)
    ensures
        profile_ok(profile) <==> forall|key: Seq<char>| #[trigger]
            profile.params.dom().contains(key) ==> is_param(key),
{
    assert forall|key: Seq<char>| acceptable_keys().contains(key) <==> #[trigger] is_param(key) by {
        law_acceptable_keys(key);
    }
    if profile_ok(profile) {
        assert forall|key: Seq<char>| #[trigger]
            profile.params.dom().contains(key) implies is_param(key) by {
            assert(acceptable_keys().contains(key));
        }
    }
}

/// A step of a push changes nothing of the state but the id of the sink, and that
/// only where a look-up found another one than the push had failed with.
pub proof fn law_push_keeps_state(s: ServiceView, stage: PushStage, event: PushEvent)
    ensures
        after_push_step(s, stage, event) == (ServiceView {
            node_id: after_push_step(s, stage, event).node_id,
            ..s
        }),
        after_push_step(s, stage, event).node_id != s.node_id ==> stage is Discover
            && event is Discovered && event->Discovered_0 == Some(
            after_push_step(s, stage, event).node_id,
        ),
        stage is Discover && event is Discovered && event->Discovered_0 is Some
            && event->Discovered_0->0 != stage->Discover_node_id ==> after_push_step(
            s,
            stage,
            event,
        ).node_id == event->Discovered_0->0,
{
}

/// A request to set a parameter is granted exactly if the value is finite and a
/// parameter has the name. What is read afterwards is the value that was set, and
/// every control of the parameter is pushed it; a request that is refused changes
/// nothing.
pub proof fn law_set_is_read_back(
    service: &mut BigSoundService,
    name: &str,
    value: u64,
    set: Result<Vec<ControlPush>, InvalidArgs>,
    later: &BigSoundService,
    got: Result<u64, InvalidArgs>,
    param: Param,
    i: int,
)
    requires
        call_ensures(BigSoundService::set, (service, name, value), set),
        call_ensures(BigSoundService::get, (later, name), got),
        later@ == final(service)@,
    ensures
        set is Ok <==> finite(value) && exists|p: Param| #[trigger] p.public_name() == name@,
        set is Ok ==> got == Ok::<u64, InvalidArgs>(value),
        set is Err ==> final(service)@ == old(service)@,
        set is Ok && param.public_name() == name@ ==> set->Ok_0@.len() == param.controls().len(),
        set is Ok && param.public_name() == name@ && 0 <= i < param.controls().len()
            ==> set->Ok_0@[i].internal@ == param.controls()[i] && set->Ok_0@[i].value == value,
{
    if set is Ok && param.public_name() == name@ {
        crate::params::lemma_param_of(param);
        let pairs = push_pairs(set->Ok_0@);
        assert(pairs == param_pushes(param, value));
        assert(pairs.len() == set->Ok_0@.len());
        if 0 <= i < param.controls().len() {
            assert(pairs[i] == (set->Ok_0@[i].internal@, set->Ok_0@[i].value));
        }
    }
}

/// A request to apply a profile is granted exactly if there is one of that name.
/// The parameters that it gives a value have that value afterwards, the others
/// keep theirs, and it is the active profile.
pub proof fn law_apply_is_effective(
    service: &mut BigSoundService,
    name: &str,
    result: Result<Vec<ControlPush>, InvalidArgs>,
    key: Seq<char>,
)
    requires
        call_ensures(BigSoundService::apply_profile, (service, name), result),
        state_ok(old(service)@),
    ensures
        result is Ok <==> old(service)@.profiles.dom().contains(name@),
        result is Err ==> final(service)@ == old(service)@,
        result is Ok ==> {
            let profile = old(service)@.profiles[name@];
            &&& final(service)@.active_profile == Some(name@)
            &&& profile.params.dom().contains(key) ==> final(service)@.cache[key]
                == profile.params[key]
            &&& !profile.params.dom().contains(key) && is_param(key)
                ==> final(service)@.cache[key] == old(service)@.cache[key]
            &&& final(service)@.profiles == old(service)@.profiles
            &&& final(service)@.output_device == old(service)@.output_device
        },
{
    if result is Ok {
        law_apply_then_get(old(service)@, old(service)@.profiles[name@], key);
    }
}

/// A profile that is saved and applied later gives back the values of the moment
/// at which it was saved.
pub proof fn law_saved_values_come_back(
    first: &BigSoundService,
    name: &str,
    dir: &str,
    saved: Result<(Profile, String), InvalidArgs>,
    listing: &mut BigSoundService,
    applying: &mut BigSoundService,
    result: Result<Vec<ControlPush>, InvalidArgs>,
)
    requires
        call_ensures(BigSoundService::save_profile, (first, name, dir), saved),
        saved is Ok,
        call_ensures(BigSoundService::profile_saved, (listing, saved->Ok_0.0), ()),
        old(applying)@ == final(listing)@,
        call_ensures(BigSoundService::apply_profile, (applying, name), result),
        state_ok(first@),
    ensures
        result is Ok,
        final(applying)@.cache == first@.cache,
        final(applying)@.active_profile == Some(name@),
{
    let profile = saved->Ok_0.0;
    assert(old(applying)@.profiles.dom().contains(name@));
    assert(old(applying)@.profiles[name@] == snapshot(first@, name@));
    law_save_then_apply(first@, old(applying)@, name@);
}

/// A request for a sink of 1 to 256 printable characters, with any white space
/// around it, pins the output to that sink, unless the sink is BigSound or a word
/// for automatic routing. Nothing else of the state changes.
pub proof fn law_output_is_pinned(
    service: &mut BigSoundService,
    name: &str,
    result: Result<Option<String>, InvalidArgs>,
    before: Seq<char>,
    sink: Seq<char>,
    after: Seq<char>,
)
    requires
        call_ensures(BigSoundService::set_output_device, (service, name), result),
        name@ == before + sink + after,
        all_white(before),
        all_white(after),
        1 <= sink.len() <= 256,
        forall|i: int| 0 <= i < sink.len() ==> '!' <= #[trigger] sink[i] <= '~',
        sink != "BigSound"@,
        !same_but_case(sink, "auto"@),
        !same_but_case(sink, "automatic"@),
    ensures
        result is Ok,
        opt_string(result->Ok_0) == Some(sink),
        final(service)@ == (ServiceView { output_device: Some(sink), ..old(service)@ }),
{
    law_names_accepted(before, sink, after);
}

/// A sink that a pattern of some profile matches gets a profile with a pattern
/// that matches it: the parameters that this profile gives a value have that
/// value afterwards, and it is the active one.
pub proof fn law_matching_profile_is_applied(
    service: &mut BigSoundService,
    sink: &str,
    applied: Option<(String, Vec<ControlPush>)>,
    name: Seq<char>,
    i: int,
    key: Seq<char>,
) -> (found: (Seq<char>, int))
    requires
        call_ensures(BigSoundService::apply_for_sink, (service, sink), applied),
        state_ok(old(service)@),
        old(service)@.profiles.dom().finite(),
        old(service)@.profiles.dom().contains(name),
        0 <= i < old(service)@.profiles[name].match_patterns.len(),
        regex_search(old(service)@.profiles[name].match_patterns[i], sink@) == Some(true),
    ensures
        applied is Some,
        (applied->0).0@ == found.0,
        old(service)@.profiles.dom().contains(found.0),
        0 <= found.1 < old(service)@.profiles[found.0].match_patterns.len(),
        regex_search(old(service)@.profiles[found.0].match_patterns[found.1], sink@) == Some(true),
        final(service)@.active_profile == Some(found.0),
        old(service)@.profiles[found.0].params.dom().contains(key) ==> final(service)@.cache[key]
            == old(service)@.profiles[found.0].params[key],
{
    let s = old(service)@;
    let found = law_sink_gets_match(s.profiles, sink@, name, i);
    law_apply_then_get(s, s.profiles[found.0], key);
    found
}

} // verus!
