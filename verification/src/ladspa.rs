//! The parts that the LADSPA plugins have in common: their ports, how control
//! values become settings, and when a block of samples is processed.
//!
//! A control value is a single, held as its bit pattern.

use crate::value::{
    at_most, clamp, clamped, equal, is_equal, is_less, law_clamp, less, nan_single, within,
};
use vstd::prelude::*;

verus! {

/// The number of ports of each plugin.
pub const PORT_COUNT: usize = 7;

/// The single 1.
pub const ONE: u32 = 0x3f80_0000;

/// The plugins.
#[derive(Clone, Copy, PartialEq, Eq, Structural, Debug)]
pub enum Plugin {
    Bass,
    Loud,
    Space,
    Cross,
}

/// A control port.
#[derive(Clone, Copy, PartialEq, Eq, Structural, Debug)]
pub struct Control {
    /// The least setting.
    pub min: u32,
    /// The greatest setting.
    pub max: u32,
    /// What is read where nothing is connected.
    pub default: u32,
    /// The port is a switch: on above zero, otherwise off.
    pub toggled: bool,
}

impl Plugin {
    /// The control ports, from port 0 on. The audio ports follow.
    pub open spec fn controls(self) -> Seq<Control> {
        match self {
            Plugin::Bass => seq![
                // target_freq: 40..=300, default 100
                Control { min: 0x4220_0000, max: 0x4396_0000, default: 0x42c8_0000, toggled: false },
                // drive: 0..=1, default 0.6
                Control { min: 0x0000_0000, max: 0x3f80_0000, default: 0x3f19_999a, toggled: false },
                // mix: 0..=1, default 0.5
                Control { min: 0x0000_0000, max: 0x3f80_0000, default: 0x3f00_0000, toggled: false },
                // cut_dry_lows: 0..=1, default 0
                Control { min: 0x0000_0000, max: 0x3f80_0000, default: 0x0000_0000, toggled: true },
                // loudness_db: -12..=12, default 4
                Control { min: 0xc140_0000, max: 0x4140_0000, default: 0x4080_0000, toggled: false },
            ],
            Plugin::Loud => seq![
                // amount: 0..=1, default 0.6
                Control { min: 0x0000_0000, max: 0x3f80_0000, default: 0x3f19_999a, toggled: false },
                // ceiling_db: -3..=0, default -1
                Control { min: 0xc040_0000, max: 0x0000_0000, default: 0xbf80_0000, toggled: false },
                // mix: 0..=1, default 1
                Control { min: 0x0000_0000, max: 0x3f80_0000, default: 0x3f80_0000, toggled: false },
            ],
            Plugin::Space => seq![
                // width: 0..=2, default 1.3
                Control { min: 0x0000_0000, max: 0x4000_0000, default: 0x3fa6_6666, toggled: false },
                // bass_keep_hz: 40..=400, default 200
                Control { min: 0x4220_0000, max: 0x43c8_0000, default: 0x4348_0000, toggled: false },
                // mix: 0..=1, default 1
                Control { min: 0x0000_0000, max: 0x3f80_0000, default: 0x3f80_0000, toggled: false },
            ],
            Plugin::Cross => seq![
                // amount: 0..=1, default 0
                Control { min: 0x0000_0000, max: 0x3f80_0000, default: 0x0000_0000, toggled: false },
                // cutoff_hz: 400..=1500, default 700
                Control { min: 0x43c8_0000, max: 0x44bb_8000, default: 0x442f_0000, toggled: false },
                // delay_us: 100..=500, default 280
                Control { min: 0x42c8_0000, max: 0x43fa_0000, default: 0x438c_0000, toggled: false },
            ],
        }
    }

    /// The number of control ports.
    pub fn control_count(self) -> (n: usize)
        ensures
            n == self.controls().len(),
    {
        match self {
            Plugin::Bass => 5,
            Plugin::Loud => 3,
            Plugin::Space => 3,
            Plugin::Cross => 3,
        }
    }

    /// A control port.
    pub fn control(self, i: usize) -> (control: Control)
        requires
            i < self.controls().len(),
        ensures
            control == self.controls()[i as int],
    {
        match self {
            Plugin::Bass => match i {
                0 => Control { min: 0x4220_0000, max: 0x4396_0000, default: 0x42c8_0000, toggled: false },
                1 => Control { min: 0x0000_0000, max: 0x3f80_0000, default: 0x3f19_999a, toggled: false },
                2 => Control { min: 0x0000_0000, max: 0x3f80_0000, default: 0x3f00_0000, toggled: false },
                3 => Control { min: 0x0000_0000, max: 0x3f80_0000, default: 0x0000_0000, toggled: true },
                _ => Control { min: 0xc140_0000, max: 0x4140_0000, default: 0x4080_0000, toggled: false },
            },
            Plugin::Loud => match i {
                0 => Control { min: 0x0000_0000, max: 0x3f80_0000, default: 0x3f19_999a, toggled: false },
                1 => Control { min: 0xc040_0000, max: 0x0000_0000, default: 0xbf80_0000, toggled: false },
                _ => Control { min: 0x0000_0000, max: 0x3f80_0000, default: 0x3f80_0000, toggled: false },
            },
            Plugin::Space => match i {
                0 => Control { min: 0x0000_0000, max: 0x4000_0000, default: 0x3fa6_6666, toggled: false },
                1 => Control { min: 0x4220_0000, max: 0x43c8_0000, default: 0x4348_0000, toggled: false },
                _ => Control { min: 0x0000_0000, max: 0x3f80_0000, default: 0x3f80_0000, toggled: false },
            },
            Plugin::Cross => match i {
                0 => Control { min: 0x0000_0000, max: 0x3f80_0000, default: 0x0000_0000, toggled: false },
                1 => Control { min: 0x43c8_0000, max: 0x44bb_8000, default: 0x442f_0000, toggled: false },
                _ => Control { min: 0x42c8_0000, max: 0x43fa_0000, default: 0x438c_0000, toggled: false },
            },
        }
    }
}

/// The value of a control port, where `port` is what it is connected to, if
/// anything.
pub fn read_control(port: Option<u32>, default: u32) -> (value: u32)
    ensures
        value == control_value(port, default),
{
    match port {
        Some(value) => value,
        None => default,
    }
}

/// The value of a control port.
pub open spec fn control_value(port: Option<u32>, default: u32) -> u32 {
    match port {
        Some(value) => value,
        None => default,
    }
}

/// The descriptor of index 0 is the only one.
pub fn descriptor_or_null<D>(index: u64, descriptor: D) -> (found: Option<D>)
    ensures
        found == (if index == 0 {
            Some(descriptor)
        } else {
            None
        }),
{
    if index == 0 {
        Some(descriptor)
    } else {
        None
    }
}

/// The setting that a control port gives: its value brought into the range of
/// the port, and for a switch 1 or 0.
pub open spec fn setting(control: Control, port: Option<u32>) -> u32 {
    let value = clamped(control_value(port, control.default), control.min, control.max);
    if !control.toggled {
        value
    } else if less(0, value) {
        ONE
    } else {
        0
    }
}

/// The settings that the control ports give.
pub open spec fn settings(plugin: Plugin, ports: Seq<Option<u32>>) -> Seq<u32> {
    Seq::new(plugin.controls().len(), |i: int| setting(plugin.controls()[i], ports[i]))
}

/// The setting that a control port gives.
pub fn read_setting(control: Control, port: Option<u32>) -> (value: u32)
    ensures
        value == setting(control, port),
{
    let value: u32 = clamp(read_control(port, control.default), control.min, control.max);
    if !control.toggled {
        value
    } else if is_less(0, value) {
        ONE
    } else {
        0
    }
}

/// Some setting differs; NaN differs from everything.
pub open spec fn differ(a: Seq<u32>, b: Seq<u32>) -> bool {
    exists|i: int| 0 <= i < a.len() && !equal(#[trigger] a[i], b[i])
}

/// The settings that a plugin instance runs with.
pub struct Instance {
    plugin: Plugin,
    last_params: Vec<u32>,
}

/// The contents of a plugin instance.
pub struct InstanceView {
    pub plugin: Plugin,
    pub last_params: Seq<u32>,
}

impl View for Instance {
    type V = InstanceView;

    closed spec fn view(&self) -> InstanceView {
        InstanceView { plugin: self.plugin, last_params: self.last_params@ }
    }
}

/// Nothing is connected.
pub open spec fn unconnected(plugin: Plugin) -> Seq<Option<u32>> {
    Seq::new(plugin.controls().len(), |i: int| None)
}

impl Instance {
    #[verifier::type_invariant]
    spec fn inv(self) -> bool {
        self.last_params@.len() == self.plugin.controls().len()
    }

    /// An instance runs with the defaults first.
    pub fn instantiate(plugin: Plugin) -> (instance: Instance)
        ensures
            instance@ == (InstanceView {
                plugin,
                last_params: settings(plugin, unconnected(plugin)),
            }),
    {
        let n: usize = plugin.control_count();
        let mut last_params: Vec<u32> = Vec::new();
        while last_params.len() < n
            invariant
                last_params@.len() <= n == plugin.controls().len(),
                forall|i: int|
                    0 <= i < last_params@.len() ==> #[trigger] last_params@[i] == settings(
                        plugin,
                        unconnected(plugin),
                    )[i],
            decreases n - last_params@.len(),
        {
            let i: usize = last_params.len();
            last_params.push(read_setting(plugin.control(i), None));
        }
        assert(last_params@ =~= settings(plugin, unconnected(plugin)));
        Instance { plugin, last_params }
    }

    fn changed(&self, ports: &[Option<u32>]) -> (yes: bool)
        requires
            ports@.len() == self@.plugin.controls().len(),
        ensures
            yes == differ(settings(self@.plugin, ports@), self@.last_params),
    {
        proof {
            use_type_invariant(self);
        }
        let ghost new = settings(self@.plugin, ports@);
        let mut i: usize = 0;
        while i < self.last_params.len()
            invariant
                i <= self.last_params@.len() == new.len() == ports@.len(),
                new == settings(self.plugin, ports@),
                forall|j: int| 0 <= j < i ==> equal(#[trigger] new[j], self.last_params@[j]),
            decreases self.last_params@.len() - i,
        {
            let value: u32 = read_setting(self.plugin.control(i), ports[i]);
            if !is_equal(value, self.last_params[i]) {
                assert(new[i as int] == value);
                return true;
            }
            i = i + 1;
        }
        false
    }

    /// Reads the control ports before a block. Where a setting changed, the new
    /// settings are kept, and the processor is to take them over.
    pub fn run(&mut self, ports: &[Option<u32>]) -> (changed: bool)
        requires
            ports@.len() == old(self)@.plugin.controls().len(),
        ensures
            changed == differ(settings(old(self)@.plugin, ports@), old(self)@.last_params),
            final(self)@ == (if changed {
                InstanceView {
                    plugin: old(self)@.plugin,
                    last_params: settings(old(self)@.plugin, ports@),
                }
            } else {
                old(self)@
            }),
    {
        proof {
            use_type_invariant(&*self);
        }
        if !self.changed(ports) {
            return false;
        }
        let ghost new = settings(self@.plugin, ports@);
        let mut i: usize = 0;
        while i < self.last_params.len()
            invariant
                i <= self.last_params@.len() == new.len() == ports@.len(),
                self.plugin == old(self).plugin,
                new == settings(self.plugin, ports@),
                forall|j: int| 0 <= j < i ==> #[trigger] self.last_params@[j] == new[j],
            decreases self.last_params@.len() - i,
        {
            let value: u32 = read_setting(self.plugin.control(i), ports[i]);
            self.last_params[i] = value;
            i = i + 1;
        }
        assert(self.last_params@ =~= new);
        true
    }

    /// A setting that the instance runs with.
    pub fn param(&self, i: usize) -> (value: u32)
        requires
            i < self@.last_params.len(),
        ensures
            value == self@.last_params[i as int],
    {
        self.last_params[i]
    }
}

/// What the host connected to the ports of a plugin instance.
pub struct Ports<P: Copy> {
    slots: Vec<Option<P>>,
}

impl<P: Copy> View for Ports<P> {
    type V = Seq<Option<P>>;

    closed spec fn view(&self) -> Seq<Option<P>> {
        self.slots@
    }
}

impl<P: Copy> Ports<P> {
    #[verifier::type_invariant]
    spec fn inv(self) -> bool {
        self.slots@.len() == PORT_COUNT
    }

    /// Nothing is connected.
    pub fn new() -> (ports: Self)
        ensures
            ports@ == Seq::new(PORT_COUNT as nat, |i: int| None::<P>),
    {
        let mut slots: Vec<Option<P>> = Vec::new();
        while slots.len() < PORT_COUNT
            invariant
                slots@.len() <= PORT_COUNT,
                forall|i: int| 0 <= i < slots@.len() ==> #[trigger] slots@[i] is None,
            decreases PORT_COUNT - slots@.len(),
        {
            slots.push(None);
        }
        let ports = Ports { slots };
        assert(ports@ =~= Seq::new(PORT_COUNT as nat, |i: int| None::<P>));
        ports
    }

    /// Connects a port; `None` disconnects it. A port that the plugin does not
    /// have is ignored.
    pub fn connect_port(&mut self, port: u64, data: Option<P>)
        ensures
            final(self)@ == (if port < PORT_COUNT {
                old(self)@.update(port as int, data)
            } else {
                old(self)@
            }),
    {
        proof {
            use_type_invariant(&*self);
        }
        if port < PORT_COUNT as u64 {
            self.slots[port as usize] = data;
        }
    }

    /// What a port is connected to.
    pub fn port(&self, i: usize) -> (data: Option<P>)
        requires
            i < PORT_COUNT,
        ensures
            data == self@[i as int],
    {
        proof {
            use_type_invariant(self);
        }
        self.slots[i]
    }

    /// Whether a block can be processed: it holds a sample at least, and every
    /// audio port is connected.
    pub fn can_run(&self, plugin: Plugin, sample_count: u64) -> (yes: bool)
        ensures
            yes == (sample_count != 0 && audio_connected(plugin, self@)),
    {
        proof {
            use_type_invariant(self);
        }
        if sample_count == 0 {
            return false;
        }
        let mut i: usize = plugin.control_count();
        while i < PORT_COUNT
            invariant
                plugin.controls().len() <= i <= PORT_COUNT == self.slots@.len(),
                forall|j: int|
                    plugin.controls().len() <= j < i ==> #[trigger] self@[j] is Some,
            decreases PORT_COUNT - i,
        {
            match self.slots[i] {
                Some(_) => {},
                None => {
                    assert(self@[i as int] is None);
                    return false;
                },
            }
            i = i + 1;
        }
        true
    }
}

/// Every audio port is connected.
pub open spec fn audio_connected<P>(plugin: Plugin, ports: Seq<Option<P>>) -> bool {
    forall|i: int| plugin.controls().len() <= i < PORT_COUNT ==> #[trigger] ports[i] is Some
}

// Laws ------------------------------------------------------------------------

/// Whatever number the host writes to a control port, the setting lies in the
/// range of the port.
pub proof fn law_setting_in_range(plugin: Plugin, i: int, port: Option<u32>)
    requires
        0 <= i < plugin.controls().len(),
        port matches Some(value) ==> !nan_single(value),
    ensures
        within(
            setting(plugin.controls()[i], port),
            plugin.controls()[i].min,
            plugin.controls()[i].max,
        ),
{
    let control = plugin.controls()[i];
    assert(at_most(control.min, control.max));
    law_clamp(control_value(port, control.default), control.min, control.max);
}

/// Where nothing is connected, the setting is the default of the port.
pub proof fn law_default_setting(plugin: Plugin, i: int)
    requires
        0 <= i < plugin.controls().len(),
    ensures
        setting(plugin.controls()[i], None) == plugin.controls()[i].default,
{
}

/// The processor takes settings over only when they change: reading the same
/// numbers again changes nothing.
pub proof fn law_same_settings(plugin: Plugin, ports: Seq<Option<u32>>)
    requires
        ports.len() == plugin.controls().len(),
        forall|i: int|
            0 <= i < ports.len() ==> (#[trigger] ports[i] matches Some(value) ==> !nan_single(
                value,
            )),
    ensures
        !differ(settings(plugin, ports), settings(plugin, ports)),
{
    let new = settings(plugin, ports);
    assert forall|i: int| 0 <= i < new.len() implies equal(#[trigger] new[i], new[i]) by {
        law_setting_in_range(plugin, i, ports[i]);
    }
}

/// A number on a port that is no switch is the setting itself, bit for bit, where
/// it lies in the range of the port; below the range the setting is the least,
/// above it the greatest.
pub proof fn law_setting_follows_port(control: Control, v: u32)
    requires
        !control.toggled,
        at_most(control.min, control.max),
    ensures
        within(v, control.min, control.max) ==> setting(control, Some(v)) == v,
        less(v, control.min) ==> setting(control, Some(v)) == control.min,
        less(control.max, v) ==> setting(control, Some(v)) == control.max,
        nan_single(v) ==> setting(control, Some(v)) == v,
{
}

/// Where nothing is connected, the setting is that of the default; a port that
/// is connected does not depend on the default.
pub proof fn law_setting_by_connection(control: Control, other: u32, v: u32)
    ensures
        setting(control, None) == setting(control, Some(control.default)),
        setting(control, Some(v)) == setting(Control { default: other, ..control }, Some(v)),
{
}

/// A switch is on for every number above zero, and off for every other; on is
/// the single 1, off the single 0.
pub proof fn law_switch(v: u32)
    ensures
        ({
            let cut_dry_lows = Plugin::Bass.controls()[3];
            &&& cut_dry_lows.toggled
            &&& 0 < v <= 0x7f80_0000 ==> setting(cut_dry_lows, Some(v)) == 0x3f80_0000
            &&& !(0 < v <= 0x7f80_0000) ==> setting(cut_dry_lows, Some(v)) == 0
        }),
{
}

/// The settings are those of the ports, one for each.
pub proof fn law_settings_by_port(plugin: Plugin, ports: Seq<Option<u32>>, i: int)
    requires
        0 <= i < plugin.controls().len(),
    ensures
        settings(plugin, ports).len() == plugin.controls().len(),
        settings(plugin, ports)[i] == setting(plugin.controls()[i], ports[i]),
        settings(plugin, unconnected(plugin))[i] == setting(plugin.controls()[i], None),
{
}

/// One setting that is not equal is a change, wherever it stands; without one
/// there is no change.
pub proof fn law_change_noticed(a: Seq<u32>, b: Seq<u32>, i: int)
    requires
        0 <= i < a.len(),
    ensures
        !equal(a[i], b[i]) ==> differ(a, b),
        (forall|j: int| 0 <= j < a.len() ==> equal(#[trigger] a[j], b[j])) ==> !differ(a, b),
{
}

/// The audio ports: the last two of the mono plugin, the last four of the
/// others. A block is processed only where each of them is connected.
pub proof fn law_audio_ports<P>(ports: Seq<Option<P>>, plugin: Plugin)
    ensures
        plugin == Plugin::Bass ==> (audio_connected(plugin, ports) <==> ports[5] is Some
            && ports[6] is Some),
        plugin != Plugin::Bass ==> (audio_connected(plugin, ports) <==> ports[3] is Some
            && ports[4] is Some && ports[5] is Some && ports[6] is Some),
{
}

/// Any switch is on exactly above zero: a number in its range switches it by its
/// sign, one outside as the bound that it lies beyond does.
pub proof fn law_any_switch(control: Control, v: u32)
    requires
        control.toggled,
        at_most(control.min, control.max),
    ensures
        within(v, control.min, control.max) && less(0, v) ==> setting(control, Some(v))
            == 0x3f80_0000,
        within(v, control.min, control.max) && !less(0, v) ==> setting(control, Some(v)) == 0,
        less(v, control.min) ==> setting(control, Some(v)) == setting(control, Some(control.min)),
        less(control.max, v) ==> setting(control, Some(v)) == setting(control, Some(control.max)),
        nan_single(v) ==> setting(control, Some(v)) == 0,
{
}

/// A port that is connected has the value it is connected to, any other the
/// default.
pub proof fn law_control_value(v: u32, default: u32)
    ensures
        control_value(Some(v), default) == v,
        control_value(None, default) == default,
{
}

/// What is read from a port that is no switch: the number itself, bit for bit,
/// where it lies in the range of the port, otherwise the bound that it lies
/// beyond.
pub proof fn law_port_is_read(control: Control, v: u32, value: u32)
    requires
        call_ensures(read_setting, (control, Some(v)), value),
        !control.toggled,
        at_most(control.min, control.max),
    ensures
        within(v, control.min, control.max) ==> value == v,
        less(v, control.min) ==> value == control.min,
        less(control.max, v) ==> value == control.max,
{
    law_setting_follows_port(control, v);
}

/// The processor is to take settings over exactly if one of them is not equal to
/// the one that it runs with; then every port gives the setting that it runs with
/// next, otherwise nothing changes.
pub proof fn law_settings_taken_over(
    instance: &mut Instance,
    ports: &[Option<u32>],
    changed: bool,
    i: int,
)
    requires
        call_ensures(Instance::run, (instance, ports), changed),
        0 <= i < old(instance)@.plugin.controls().len(),
    ensures
        final(instance)@.plugin == old(instance)@.plugin,
        !equal(
            setting(old(instance)@.plugin.controls()[i], ports@[i]),
            old(instance)@.last_params[i],
        ) ==> changed,
        changed ==> final(instance)@.last_params[i] == setting(
            old(instance)@.plugin.controls()[i],
            ports@[i],
        ),
        !changed ==> final(instance)@ == old(instance)@,
{
    let new = settings(old(instance)@.plugin, ports@);
    assert(new[i] == setting(old(instance)@.plugin.controls()[i], ports@[i]));
    law_change_noticed(new, old(instance)@.last_params, i);
}

} // verus!
