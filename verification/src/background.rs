//! What the daemon does on its own, between requests: it pushes the parameter
//! values again after a change, keeps the output pinned, and applies a profile
//! when the default sink changes.
//!
//! One round is a series of steps. The caller performs the action of a step and
//! hands back what came of it.

use crate::controls::{cache_pushes, push_pairs, ControlPush};
use crate::pipewire::metadata_args;
use crate::profile::{first_hit, ProfileView};
use crate::service::{
    after_apply, after_set, after_sink, law_apply_then_get, opt_string, sink_change, sink_profile,
    state_ok, BigSoundService, ServiceView, SinkChange,
};
use crate::text::texts;
use vstd::prelude::*;

verus! {

/// What came of an action.
pub enum Event {
    /// The time between two rounds is over.
    Woke,
    /// The control values were pushed, or could not be.
    Pushed,
    /// The id of the `BigSound.output` stream, where it was found.
    Located(Option<u32>),
    /// The output was pinned, or could not be.
    Pinned,
    /// The identifier of the default sink, where there is one.
    SinkRead(Option<String>),
}

/// Why a round ends.
#[derive(Clone, Copy, PartialEq, Eq, Structural, Debug)]
pub enum Rest {
    /// There is no default sink.
    NoSink,
    /// The default sink is BigSound itself.
    OwnSink,
    /// The default sink is the one that was seen last.
    SameSink,
    /// The default sink changed, and no profile is there for it.
    NoProfile,
    /// A profile was applied.
    Applied,
}

/// What the caller is to do.
pub enum Action {
    /// Push control values.
    Push(Vec<ControlPush>),
    /// Look up the id of the `BigSound.output` stream.
    Locate,
    /// Run `pw-metadata` with these arguments, to pin the output to a sink.
    Pin {
        sink: String,
        args: Vec<String>,
    },
    /// Read the identifier of the default sink.
    ReadSink,
    /// Push the control values of the profile that was applied.
    Apply {
        profile: String,
        pushes: Vec<ControlPush>,
    },
    /// Wait for the next round.
    Sleep(Rest),
    /// Nothing: the event is not the one that the last action asks for.
    Ignore,
}

/// What an action waits for.
pub enum Stage {
    Asleep,
    Pushing,
    Locating(String),
    Pinning,
    Reading,
    Applying,
}

/// The state between two steps.
pub struct Background {
    /// The generation of the parameter values that was pushed last.
    last_pushed_gen: u64,
    stage: Stage,
}

/// The contents of an event.
pub enum EventView {
    Woke,
    Pushed,
    Located(Option<u32>),
    Pinned,
    SinkRead(Option<Seq<char>>),
}

/// The contents of an action.
pub enum ActionView {
    Push(Seq<(Seq<char>, u64)>),
    Locate,
    Pin(Seq<char>, Seq<Seq<char>>),
    ReadSink,
    Apply(Seq<char>, Seq<(Seq<char>, u64)>),
    Sleep(Rest),
    Ignore,
}

/// The contents of a stage.
pub enum StageView {
    Asleep,
    Pushing,
    Locating(Seq<char>),
    Pinning,
    Reading,
    Applying,
}

/// The contents of the state.
pub struct BackgroundView {
    pub last_pushed_gen: u64,
    pub stage: StageView,
}

impl View for Event {
    type V = EventView;

    open spec fn view(&self) -> EventView {
        match *self {
            Event::Woke => EventView::Woke,
            Event::Pushed => EventView::Pushed,
            Event::Located(found) => EventView::Located(found),
            Event::Pinned => EventView::Pinned,
            Event::SinkRead(sink) => EventView::SinkRead(opt_string(sink)),
        }
    }
}

impl View for Action {
    type V = ActionView;

    open spec fn view(&self) -> ActionView {
        match *self {
            Action::Push(pushes) => ActionView::Push(push_pairs(pushes@)),
            Action::Locate => ActionView::Locate,
            Action::Pin { sink, args } => ActionView::Pin(sink@, texts(args@)),
            Action::ReadSink => ActionView::ReadSink,
            Action::Apply { profile, pushes } => ActionView::Apply(profile@, push_pairs(pushes@)),
            Action::Sleep(rest) => ActionView::Sleep(rest),
            Action::Ignore => ActionView::Ignore,
        }
    }
}

impl View for Stage {
    type V = StageView;

    open spec fn view(&self) -> StageView {
        match *self {
            Stage::Asleep => StageView::Asleep,
            Stage::Pushing => StageView::Pushing,
            Stage::Locating(sink) => StageView::Locating(sink@),
            Stage::Pinning => StageView::Pinning,
            Stage::Reading => StageView::Reading,
            Stage::Applying => StageView::Applying,
        }
    }
}

impl View for Background {
    type V = BackgroundView;

    closed spec fn view(&self) -> BackgroundView {
        BackgroundView { last_pushed_gen: self.last_pushed_gen, stage: self.stage@ }
    }
}

/// The outcome of a step: the state, the daemon's state, and what is to be done.
pub struct Outcome {
    pub background: BackgroundView,
    pub service: ServiceView,
    pub action: ActionView,
}

/// The step to keeping the output pinned: with automatic routing there is
/// nothing to keep.
pub open spec fn to_routing(last_pushed_gen: u64, s: ServiceView) -> Outcome {
    match s.output_device {
        Some(sink) => Outcome {
            background: BackgroundView { last_pushed_gen, stage: StageView::Locating(sink) },
            service: s,
            action: ActionView::Locate,
        },
        None => to_reading(last_pushed_gen, s),
    }
}

/// The step to reading the default sink.
pub open spec fn to_reading(last_pushed_gen: u64, s: ServiceView) -> Outcome {
    Outcome {
        background: BackgroundView { last_pushed_gen, stage: StageView::Reading },
        service: s,
        action: ActionView::ReadSink,
    }
}

/// The end of a round.
pub open spec fn to_sleep(last_pushed_gen: u64, s: ServiceView, rest: Rest) -> Outcome {
    Outcome {
        background: BackgroundView { last_pushed_gen, stage: StageView::Asleep },
        service: s,
        action: ActionView::Sleep(rest),
    }
}

/// The step from the identifier of the default sink: a change is remembered, and
/// the profile for the sink is applied.
pub open spec fn from_sink(
    last_pushed_gen: u64,
    s: ServiceView,
    current: Option<Seq<char>>,
) -> Outcome {
    match sink_change(s, current) {
        SinkChange::Missing => to_sleep(last_pushed_gen, s, Rest::NoSink),
        SinkChange::Own => to_sleep(last_pushed_gen, s, Rest::OwnSink),
        SinkChange::Same => to_sleep(last_pushed_gen, s, Rest::SameSink),
        SinkChange::Changed => {
            let seen = after_sink(s, current);
            match sink_profile(s.profiles, current->0) {
                Some(profile) => Outcome {
                    background: BackgroundView { last_pushed_gen, stage: StageView::Applying },
                    service: after_apply(seen, profile),
                    action: ActionView::Apply(
                        profile.name,
                        cache_pushes(after_apply(seen, profile).cache),
                    ),
                },
                None => to_sleep(last_pushed_gen, seen, Rest::NoProfile),
            }
        },
    }
}

/// One step.
pub open spec fn stepped(b: BackgroundView, s: ServiceView, event: EventView) -> Outcome {
    match (b.stage, event) {
        (StageView::Asleep, EventView::Woke) => if s.cache_gen != b.last_pushed_gen {
            Outcome {
                background: BackgroundView {
                    last_pushed_gen: s.cache_gen,
                    stage: StageView::Pushing,
                },
                service: s,
                action: ActionView::Push(cache_pushes(s.cache)),
            }
        } else {
            to_routing(b.last_pushed_gen, s)
        },
        (StageView::Pushing, EventView::Pushed) => to_routing(b.last_pushed_gen, s),
        (StageView::Locating(sink), EventView::Located(found)) => match found {
            Some(id) => Outcome {
                background: BackgroundView {
                    last_pushed_gen: b.last_pushed_gen,
                    stage: StageView::Pinning,
                },
                service: ServiceView { output_node_id: id, ..s },
                action: ActionView::Pin(sink, metadata_args(id, Some(sink))),
            },
            None => to_reading(b.last_pushed_gen, s),
        },
        (StageView::Pinning, EventView::Pinned) => to_reading(b.last_pushed_gen, s),
        (StageView::Reading, EventView::SinkRead(current)) => from_sink(
            b.last_pushed_gen,
            s,
            current,
        ),
        (StageView::Applying, EventView::Pushed) => to_sleep(
            b.last_pushed_gen,
            s,
            Rest::Applied,
        ),
        _ => Outcome { background: b, service: s, action: ActionView::Ignore },
    }
}

impl Background {
    /// The state before the first round: the values of generation 0 were pushed
    /// when the daemon started.
    pub fn new() -> (background: Background)
        ensures
            background@ == (BackgroundView { last_pushed_gen: 0, stage: StageView::Asleep }),
    {
        Background { last_pushed_gen: 0, stage: Stage::Asleep }
    }

    /// Takes one step and says what is to be done.
    pub fn run_background(&mut self, service: &mut BigSoundService, event: Event) -> (action: Action)
        ensures
            state_ok(final(service)@),
            (Outcome {
                background: final(self)@,
                service: final(service)@,
                action: action@,
            }) == stepped(old(self)@, old(service)@, event@),
    {
        proof {
            use_type_invariant(&*service);
        }
        let mut stage: Stage = Stage::Asleep;
        std::mem::swap(&mut stage, &mut self.stage);
        match (stage, event) {
            (Stage::Asleep, Event::Woke) => {
                let current_gen: u64 = service.cache_gen();
                if current_gen != self.last_pushed_gen {
                    self.last_pushed_gen = current_gen;
                    self.stage = Stage::Pushing;
                    Action::Push(service.cache_snapshot())
                } else {
                    self.route(service)
                }
            },
            (Stage::Pushing, Event::Pushed) => self.route(service),
            (Stage::Locating(sink), Event::Located(found)) => {
                match service.route_output(Some(sink.as_str()), found) {
                    Some(args) => {
                        self.stage = Stage::Pinning;
                        Action::Pin { sink, args }
                    },
                    None => {
                        self.stage = Stage::Reading;
                        Action::ReadSink
                    },
                }
            },
            (Stage::Pinning, Event::Pinned) => {
                self.stage = Stage::Reading;
                Action::ReadSink
            },
            (Stage::Reading, Event::SinkRead(current)) => self.sink_read(service, current),
            (Stage::Applying, Event::Pushed) => Action::Sleep(Rest::Applied),
            (stage, _) => {
                self.stage = stage;
                Action::Ignore
            },
        }
    }

    fn route(&mut self, service: &BigSoundService) -> (action: Action)
        ensures
            (Outcome { background: final(self)@, service: service@, action: action@ })
                == to_routing(old(self)@.last_pushed_gen, service@),
    {
        match service.enforce_output_device() {
            Some(sink) => {
                self.stage = Stage::Locating(sink);
                Action::Locate
            },
            None => {
                self.stage = Stage::Reading;
                Action::ReadSink
            },
        }
    }

    fn sink_read(&mut self, service: &mut BigSoundService, current: Option<String>) -> (action:
        Action)
        requires
            old(self)@.stage is Asleep,
        ensures
            state_ok(final(service)@),
            (Outcome { background: final(self)@, service: final(service)@, action: action@ })
                == from_sink(old(self)@.last_pushed_gen, old(service)@, opt_string(current)),
    {
        match service.note_default_sink(&current) {
            SinkChange::Missing => Action::Sleep(Rest::NoSink),
            SinkChange::Own => Action::Sleep(Rest::OwnSink),
            SinkChange::Same => Action::Sleep(Rest::SameSink),
            SinkChange::Changed => {
                let sink: String = match current {
                    Some(sink) => sink,
                    None => String::new(),
                };
                match service.apply_for_sink(sink.as_str()) {
                    Some((profile, pushes)) => {
                        self.stage = Stage::Applying;
                        Action::Apply { profile, pushes }
                    },
                    None => Action::Sleep(Rest::NoProfile),
                }
            },
        }
    }
}

// Laws ------------------------------------------------------------------------

/// The event is the one that the last action asks for.
pub open spec fn awaited(stage: StageView, event: EventView) -> bool {
    match stage {
        StageView::Asleep => event is Woke,
        StageView::Pushing => event is Pushed,
        StageView::Locating(_) => event is Located,
        StageView::Pinning => event is Pinned,
        StageView::Reading => event is SinkRead,
        StageView::Applying => event is Pushed,
    }
}

/// The most steps that a round can still take.
pub open spec fn steps_left(stage: StageView) -> nat {
    match stage {
        StageView::Asleep => 0,
        StageView::Applying => 1,
        StageView::Reading => 2,
        StageView::Pinning => 3,
        StageView::Locating(_) => 4,
        StageView::Pushing => 5,
    }
}

/// Every round ends: each step brings its end nearer, and it has ended exactly
/// when the action is to sleep.
pub proof fn law_round_ends(b: BackgroundView, s: ServiceView, event: EventView)
    requires
        awaited(b.stage, event),
        !(b.stage is Asleep),
    ensures
        steps_left(stepped(b, s, event).background.stage) < steps_left(b.stage),
        stepped(b, s, event).background.stage is Asleep <==> stepped(b, s, event).action is Sleep,
{
}

/// Only an event that is not awaited is ignored, and it changes nothing.
pub proof fn law_stray_events_ignored(b: BackgroundView, s: ServiceView, event: EventView)
    ensures
        stepped(b, s, event).action is Ignore <==> !awaited(b.stage, event),
        !awaited(b.stage, event) ==> stepped(b, s, event).background == b && stepped(
            b,
            s,
            event,
        ).service == s,
{
}

/// A round pushes the parameter values exactly if they changed since they were
/// last pushed, and then it pushes the values of that moment.
pub proof fn law_pushed_when_changed(b: BackgroundView, s: ServiceView)
    requires
        b.stage is Asleep,
    ensures
        s.cache_gen == b.last_pushed_gen ==> !(stepped(b, s, EventView::Woke).action is Push),
        s.cache_gen != b.last_pushed_gen ==> stepped(b, s, EventView::Woke).action
            == ActionView::Push(cache_pushes(s.cache)) && stepped(
            b,
            s,
            EventView::Woke,
        ).background.last_pushed_gen == s.cache_gen,
{
}

/// A value that was set after the last push is pushed by the next round.
pub proof fn law_set_is_pushed(b: BackgroundView, s: ServiceView, name: Seq<char>, value: u64)
    requires
        b.stage is Asleep,
        b.last_pushed_gen == s.cache_gen,
    ensures
        stepped(b, after_set(s, name, value), EventView::Woke).action == ActionView::Push(
            cache_pushes(s.cache.insert(name, value)),
        ),
{
}

/// With nothing to do a round changes nothing: the values were pushed, routing is
/// automatic and the default sink is the one that was seen last.
pub proof fn law_quiet_round(b: BackgroundView, s: ServiceView, sink: Seq<char>)
    requires
        b.stage is Asleep,
        s.cache_gen == b.last_pushed_gen,
        s.output_device is None,
        sink_change(s, Some(sink)) == SinkChange::Same,
    ensures
        stepped(b, s, EventView::Woke).action is ReadSink,
        ({
            let reading = stepped(b, s, EventView::Woke);
            let slept = stepped(
                reading.background,
                reading.service,
                EventView::SinkRead(Some(sink)),
            );
            slept.action == ActionView::Sleep(Rest::SameSink) && slept.service == s
                && slept.background == b
        }),
{
}

/// In every round the output is pinned to the chosen sink again, with the id that
/// its stream has by then.
pub proof fn law_pin_is_kept(b: BackgroundView, s: ServiceView, sink: Seq<char>, id: u32)
    requires
        b.stage is Asleep && s.cache_gen == b.last_pushed_gen || b.stage is Pushing,
        s.output_device == Some(sink),
    ensures
        ({
            let event = if b.stage is Asleep {
                EventView::Woke
            } else {
                EventView::Pushed
            };
            let locating = stepped(b, s, event);
            let pinning = stepped(
                locating.background,
                locating.service,
                EventView::Located(Some(id)),
            );
            locating.action is Locate && pinning.action == ActionView::Pin(
                sink,
                metadata_args(id, Some(sink)),
            ) && pinning.service == (ServiceView { output_node_id: id, ..s })
        }),
{
}

/// A change of the default sink is acted on once: read again, the same sink ends
/// the round, and the state stays as it is.
pub proof fn law_sink_acted_on_once(b: BackgroundView, s: ServiceView, sink: Option<Seq<char>>)
    requires
        b.stage is Reading,
        sink_change(s, sink) == SinkChange::Changed,
    ensures
        ({
            let first = stepped(b, s, EventView::SinkRead(sink));
            let again = stepped(b, first.service, EventView::SinkRead(sink));
            again.action == ActionView::Sleep(Rest::SameSink) && again.service == first.service
        }),
{
}

/// Whatever happens, the daemon's state stays well formed.
pub proof fn law_state_kept(b: BackgroundView, s: ServiceView, event: EventView)
    requires
        state_ok(s),
    ensures
        state_ok(stepped(b, s, event).service),
{
    if b.stage is Reading && event is SinkRead {
        let current = event->SinkRead_0;
        if sink_change(s, current) == SinkChange::Changed {
            if let Some(profile) = sink_profile(s.profiles, current->0) {
                assert(s.profiles.dom().contains(profile.name)) by {
                    let sink = current->0;
                    if exists|name: Seq<char>| first_hit(s.profiles, sink, name) {
                        let name = choose|name: Seq<char>| first_hit(s.profiles, sink, name);
                        assert(s.profiles.dom().contains(name));
                    }
                }
                law_apply_then_get(after_sink(s, current), profile, profile.name);
            }
        }
    }
}

/// A sink that is new gets its profile: the sink is remembered, the profile's
/// values replace those of the state, all values are pushed, and the round ends
/// when they are.
pub proof fn law_new_sink_gets_profile(
    b: BackgroundView,
    s: ServiceView,
    sink: Seq<char>,
    profile: ProfileView,
    key: Seq<char>,
)
    requires
        b.stage is Reading,
        sink_change(s, Some(sink)) == SinkChange::Changed,
        sink_profile(s.profiles, sink) == Some(profile),
    ensures
        ({
            let next = stepped(b, s, EventView::SinkRead(Some(sink)));
            let done = stepped(next.background, next.service, EventView::Pushed);
            &&& next.action == ActionView::Apply(profile.name, cache_pushes(next.service.cache))
            &&& next.background == (BackgroundView { stage: StageView::Applying, ..b })
            &&& next.service.last_default_sink == Some(sink)
            &&& next.service.active_profile == Some(profile.name)
            &&& profile.params.dom().contains(key) ==> next.service.cache[key]
                == profile.params[key]
            &&& !profile.params.dom().contains(key) && s.cache.dom().contains(key)
                ==> next.service.cache[key] == s.cache[key]
            &&& next.service.cache_gen != s.cache_gen
            &&& next.service.profiles == s.profiles
            &&& next.service.node_id == s.node_id
            &&& next.service.output_device == s.output_device
            &&& next.service.output_node_id == s.output_node_id
            &&& done.action == ActionView::Sleep(Rest::Applied)
            &&& done.service == next.service
            &&& done.background == (BackgroundView { stage: StageView::Asleep, ..b })
        }),
{
}

/// Without a new sink the round ends and the state stays; with a new sink and no
/// profile for it the sink is remembered and nothing else changes.
pub proof fn law_rest(b: BackgroundView, s: ServiceView, sink: Seq<char>)
    requires
        b.stage is Reading,
    ensures
        ({
            let none = stepped(b, s, EventView::SinkRead(None));
            let next = stepped(b, s, EventView::SinkRead(Some(sink)));
            let asleep = BackgroundView { stage: StageView::Asleep, ..b };
            &&& none.action == ActionView::Sleep(Rest::NoSink) && none.service == s
                && none.background == asleep
            &&& sink_change(s, Some(sink)) == SinkChange::Own ==> next.action == ActionView::Sleep(
                Rest::OwnSink,
            ) && next.service == s && next.background == asleep
            &&& sink_change(s, Some(sink)) == SinkChange::Same ==> next.action == ActionView::Sleep(
                Rest::SameSink,
            ) && next.service == s && next.background == asleep
            &&& sink_change(s, Some(sink)) == SinkChange::Changed && sink_profile(s.profiles, sink)
                is None ==> next.action == ActionView::Sleep(Rest::NoProfile) && next.service == (
            ServiceView { last_default_sink: Some(sink), ..s }) && next.background == asleep
        }),
{
}

/// A round goes from the push to the pin and from the pin to the default sink;
/// without a chosen sink, and where the stream is not found, the pin is passed
/// over. None of this changes the state.
pub proof fn law_round_order(b: BackgroundView, s: ServiceView)
    ensures
        b.stage is Pinning ==> ({
            let next = stepped(b, s, EventView::Pinned);
            next.action is ReadSink && next.background.stage is Reading && next.service == s
        }),
        b.stage is Locating ==> ({
            let next = stepped(b, s, EventView::Located(None));
            next.action is ReadSink && next.background.stage is Reading && next.service == s
        }),
        b.stage is Pushing || b.stage is Asleep && s.cache_gen == b.last_pushed_gen ==> ({
            let event = if b.stage is Pushing {
                EventView::Pushed
            } else {
                EventView::Woke
            };
            let next = stepped(b, s, event);
            &&& next.service == s
            &&& next.background.last_pushed_gen == b.last_pushed_gen
            &&& s.output_device matches Some(sink) ==> next.action is Locate
                && next.background.stage == StageView::Locating(sink)
            &&& s.output_device is None ==> next.action is ReadSink
                && next.background.stage is Reading
        }),
        b.stage is Asleep && s.cache_gen != b.last_pushed_gen ==> ({
            let next = stepped(b, s, EventView::Woke);
            next.service == s && next.background.stage is Pushing
        }),
{
}

/// What was pushed last is noted when the push begins, and at no other step.
pub proof fn law_pushed_gen(b: BackgroundView, s: ServiceView, event: EventView)
    requires
        !(b.stage is Asleep),
    ensures
        stepped(b, s, event).background.last_pushed_gen == b.last_pushed_gen,
{
}

/// The pin is that of the sink that was chosen when the round came to it, and
/// the round goes on when it is made.
pub proof fn law_pin(b: BackgroundView, s: ServiceView, sink: Seq<char>, id: u32)
    requires
        b.stage == StageView::Locating(sink),
    ensures
        ({
            let next = stepped(b, s, EventView::Located(Some(id)));
            &&& next.action == ActionView::Pin(sink, metadata_args(id, Some(sink)))
            &&& next.background.stage is Pinning
            &&& next.service == (ServiceView { output_node_id: id, ..s })
        }),
{
}

/// The contents of events and of actions.
pub proof fn law_contents(
    found: Option<u32>,
    text: String,
    pushes: Vec<ControlPush>,
    args: Vec<String>,
    rest: Rest,
)
    ensures
        Event::Woke@ is Woke && Event::Pushed@ is Pushed && Event::Pinned@ is Pinned,
        Event::Located(found)@ == EventView::Located(found),
        Event::SinkRead(Some(text))@ == EventView::SinkRead(Some(text@)),
        Event::SinkRead(None)@ == EventView::SinkRead(None),
        Action::Push(pushes)@ == ActionView::Push(push_pairs(pushes@)),
        Action::Locate@ is Locate && Action::ReadSink@ is ReadSink && Action::Ignore@ is Ignore,
        (Action::Pin { sink: text, args })@ == ActionView::Pin(text@, texts(args@)),
        (Action::Apply { profile: text, pushes })@ == ActionView::Apply(
            text@,
            push_pairs(pushes@),
        ),
        Action::Sleep(rest)@ == ActionView::Sleep(rest),
        Stage::Locating(text)@ == StageView::Locating(text@),
{
}

} // verus!
