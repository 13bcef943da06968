use bigsound::frames::{put_lane, take_lane};
use bigsound::ladspa::{
    descriptor_or_null, read_control, read_setting, Instance, Plugin, Ports, PORT_COUNT,
};
use bigsound::ring::{capacity_for, RingDelay};
use bigsound::value::{clamp, is_equal, is_finite, is_less, is_within, non_finite_text};

#[test]
fn samples_of_a_channel() {
    let samples = [1, 2, 3, 4, 5, 6, 7];
    assert_eq!(take_lane(&samples, 2, 0), vec![1, 3, 5]);
    assert_eq!(take_lane(&samples, 2, 1), vec![2, 4, 6]);
    assert_eq!(take_lane(&samples, 9, 1), Vec::<i32>::new());
    let mut whole = samples.to_vec();
    put_lane(&mut whole, 2, 1, &vec![20, 40, 60]);
    assert_eq!(whole, vec![1, 20, 3, 40, 5, 60, 7]);
    assert_eq!(take_lane(&whole, 2, 1), vec![20, 40, 60]);
    let odd = take_lane(&whole, 2, 0);
    put_lane(&mut whole, 2, 0, &odd);
    assert_eq!(whole, vec![1, 20, 3, 40, 5, 60, 7]);
}

fn run(line: &mut RingDelay<i32>, input: &[i32]) -> Vec<i32> {
    input.iter().map(|&x| line.process(x)).collect()
}

#[test]
fn the_line_delays_by_the_samples_asked_for() {
    let mut line = RingDelay::new(5, 0);
    assert_eq!(run(&mut line, &[1, 2, 3]), vec![1, 2, 3]);
    line.reset();
    line.set_delay_samples(3);
    let out = run(&mut line, &[1, 2, 3, 4, 5, 6, 7, 8, 9]);
    assert_eq!(out, vec![0, 0, 0, 1, 2, 3, 4, 5, 6]);
}

#[test]
fn the_delay_is_capped_by_the_buffer() {
    let mut line = RingDelay::new(4, 0);
    line.set_delay_samples(100);
    assert_eq!(run(&mut line, &[1, 2, 3, 4, 5]), vec![0, 0, 0, 1, 2]);
    let mut tiny = RingDelay::new(0, 0);
    tiny.set_delay_samples(1);
    assert_eq!(run(&mut tiny, &[1, 2]), vec![1, 2]);
}

#[test]
fn reset_forgets_the_input() {
    let mut line = RingDelay::new(4, 0);
    line.set_delay_samples(2);
    run(&mut line, &[1, 2, 3]);
    line.reset();
    assert_eq!(run(&mut line, &[7, 8, 9]), vec![0, 0, 7]);
}

#[test]
fn line_capacity() {
    assert_eq!(capacity_for(48), 48);
    assert_eq!(capacity_for(8), 32);
    assert_eq!(capacity_for(0), 32);
}

#[test]
fn singles_compare_as_floats_do() {
    let values = [
        0.0f32, -0.0, 1.0, -1.0, 0.5, 1.0e-40, -1.0e-40, 300.0, f32::MAX, f32::MIN,
        f32::INFINITY, f32::NEG_INFINITY, f32::NAN, -f32::NAN,
    ];
    for a in values {
        for b in values {
            assert_eq!(is_less(a.to_bits(), b.to_bits()), a < b, "{a} < {b}");
            assert_eq!(is_equal(a.to_bits(), b.to_bits()), a == b, "{a} == {b}");
        }
        let x = clamp(a.to_bits(), (-12.0f32).to_bits(), 12.0f32.to_bits());
        assert_eq!(x, a.clamp(-12.0, 12.0).to_bits(), "{a}");
        assert_eq!(
            is_within(a.to_bits(), (-1.0f32).to_bits(), 1.0f32.to_bits()),
            (-1.0..=1.0).contains(&a)
        );
    }
}

#[test]
fn finite_doubles() {
    for v in [0.0, -0.0, 1.5, f64::MIN, f64::MAX, 5.0e-324, f64::NAN, -f64::NAN, f64::INFINITY, f64::NEG_INFINITY] {
        assert_eq!(is_finite(v.to_bits()), v.is_finite());
        if !v.is_finite() {
            assert_eq!(non_finite_text(v.to_bits()), format!("{v}"));
        }
    }
}

fn ranges(plugin: Plugin) -> Vec<(f32, f32, f32, bool)> {
    (0..plugin.control_count())
        .map(|i| plugin.control(i))
        .map(|c| (f32::from_bits(c.min), f32::from_bits(c.max), f32::from_bits(c.default), c.toggled))
        .collect()
}

#[test]
fn control_ports_of_the_plugins() {
    assert_eq!(
        ranges(Plugin::Bass),
        vec![
            (40.0, 300.0, 100.0, false),
            (0.0, 1.0, 0.6, false),
            (0.0, 1.0, 0.5, false),
            (0.0, 1.0, 0.0, true),
            (-12.0, 12.0, 4.0, false),
        ]
    );
    assert_eq!(
        ranges(Plugin::Loud),
        vec![(0.0, 1.0, 0.6, false), (-3.0, 0.0, -1.0, false), (0.0, 1.0, 1.0, false)]
    );
    assert_eq!(
        ranges(Plugin::Space),
        vec![(0.0, 2.0, 1.3, false), (40.0, 400.0, 200.0, false), (0.0, 1.0, 1.0, false)]
    );
    assert_eq!(
        ranges(Plugin::Cross),
        vec![(0.0, 1.0, 0.0, false), (400.0, 1500.0, 700.0, false), (100.0, 500.0, 280.0, false)]
    );
}

fn bits(values: &[Option<f32>]) -> Vec<Option<u32>> {
    values.iter().map(|v| v.map(f32::to_bits)).collect()
}

fn read(plugin: Plugin, values: &[Option<f32>]) -> Vec<f32> {
    let ports = bits(values);
    (0..plugin.control_count())
        .map(|i| f32::from_bits(read_setting(plugin.control(i), ports[i])))
        .collect()
}

#[test]
fn settings_are_brought_into_range() {
    let ports = [Some(1000.0), Some(-1.0), Some(0.25), Some(0.3), None];
    assert_eq!(read(Plugin::Bass, &ports), vec![300.0, 0.0, 0.25, 1.0, 4.0]);
    assert_eq!(read(Plugin::Loud, &[Some(0.5), Some(-9.0), None]), vec![0.5, -3.0, 1.0]);
    assert!(read(Plugin::Cross, &[Some(f32::NAN), None, None])[0].is_nan());
}

#[test]
fn settings_are_taken_over_when_they_change() {
    let mut instance = Instance::instantiate(Plugin::Space);
    assert!(!instance.run(&bits(&[None, None, None])));
    assert!(instance.run(&bits(&[Some(2.0), None, None])));
    let params: Vec<f32> = (0..3).map(|i| f32::from_bits(instance.param(i))).collect();
    assert_eq!(params, vec![2.0, 200.0, 1.0]);
    assert!(!instance.run(&bits(&[Some(9.0), None, None])));
    assert!(instance.run(&bits(&[Some(f32::NAN), None, None])));
    assert!(instance.run(&bits(&[Some(f32::NAN), None, None])));
}

#[test]
fn a_switch_changes_with_its_state_only() {
    let mut instance = Instance::instantiate(Plugin::Bass);
    assert!(!instance.run(&bits(&[None, None, None, Some(0.0), None])));
    assert!(instance.run(&bits(&[None, None, None, Some(0.3), None])));
    assert!(!instance.run(&bits(&[None, None, None, Some(0.7), None])));
    assert!(instance.run(&bits(&[None, None, None, Some(-1.0), None])));
}

#[test]
fn ports_are_connected_by_index() {
    let mut ports: Ports<u8> = Ports::new();
    for i in 0..PORT_COUNT {
        assert_eq!(ports.port(i), None);
    }
    ports.connect_port(2, Some(9));
    ports.connect_port(7, Some(1));
    ports.connect_port(u64::MAX, Some(1));
    assert_eq!(ports.port(2), Some(9));
    ports.connect_port(2, None);
    assert_eq!(ports.port(2), None);
}

#[test]
fn blocks_need_their_audio_ports() {
    let mut ports: Ports<u8> = Ports::new();
    ports.connect_port(5, Some(1));
    assert!(!ports.can_run(Plugin::Bass, 64));
    ports.connect_port(6, Some(1));
    assert!(ports.can_run(Plugin::Bass, 64));
    assert!(!ports.can_run(Plugin::Bass, 0));
    assert!(!ports.can_run(Plugin::Loud, 64));
    ports.connect_port(3, Some(1));
    ports.connect_port(4, Some(1));
    assert!(ports.can_run(Plugin::Cross, 1));
}

#[test]
fn one_descriptor_and_default_reads() {
    assert_eq!(descriptor_or_null(0, 'd'), Some('d'));
    assert_eq!(descriptor_or_null(1, 'd'), None);
    assert_eq!(read_control(None, 3), 3);
    assert_eq!(read_control(Some(4), 3), 4);
}
