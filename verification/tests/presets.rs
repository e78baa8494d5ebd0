use audio_2_dmx::effects::{Effect, Signal, Threshold};
use audio_2_dmx::presets::{
    angel_pallet_suite, bar_range, blue_business_suite, gemstone_suite, laser_focus_suite,
    motor_function_suite, purp_groovin_suite, rb_jams_suite, redroom_suite, solid_wash_suite,
    threshold, true_lights_suite, winter_glitter_suite,
};

/// The bar range computed in single-precision floating point.
fn bar_range_f32(bar_index: usize, total_bars: usize, n_bins: usize) -> (usize, usize) {
    if n_bins == 0 || total_bars == 0 {
        return (0, 0);
    }
    let width = n_bins as f32 / total_bars as f32;
    let start_f = bar_index as f32 * width;
    let end_f = (bar_index as f32 + 1.0) * width;
    let mut start = start_f.round() as isize;
    let mut end = end_f.round() as isize - 1;
    if start < 0 {
        start = 0;
    }
    if end < start {
        end = start;
    }
    if end as usize >= n_bins {
        end = (n_bins - 1) as isize;
    }
    (start as usize, end as usize)
}

#[test]
fn bar_range_values() {
    assert_eq!(bar_range(0, 10, 128), (0, 12));
    assert_eq!(bar_range(1, 10, 128), (13, 25));
    assert_eq!(bar_range(4, 10, 128), (51, 63));
    assert_eq!(bar_range(9, 10, 128), (115, 127));
    assert_eq!(bar_range(0, 16, 128), (0, 7));
    assert_eq!(bar_range(15, 16, 128), (120, 127));
    assert_eq!(bar_range(0, 0, 128), (0, 0));
    assert_eq!(bar_range(3, 10, 0), (0, 0));
    // more bars than bins: bars collapse onto single bins
    assert_eq!(bar_range(0, 10, 3), (0, 0));
    assert_eq!(bar_range(9, 10, 3), (3, 2));
    // a bar past the last one
    assert_eq!(bar_range(12, 10, 128), (154, 127));
    // a rounding tie goes up
    assert_eq!(bar_range(1, 2, 3), (2, 2));
}

#[test]
fn bar_range_matches_float_rounding_for_show_bar_counts() {
    for n in 0..2048usize {
        for t in [5usize, 6, 7, 8, 9, 10, 16] {
            for b in 0..t {
                assert_eq!(bar_range(b, t, n), bar_range_f32(b, t, n), "bar {} of {} over {} bins", b, t, n);
            }
        }
    }
}

#[test]
fn bars_tile_the_spectrum() {
    for n in [16usize, 100, 128, 513] {
        for t in 1..=16usize {
            assert_eq!(bar_range(0, t, n).0, 0);
            assert_eq!(bar_range(t - 1, t, n).1, n - 1);
            for b in 0..t - 1 {
                assert_eq!(bar_range(b + 1, t, n).0, bar_range(b, t, n).1 + 1);
            }
        }
    }
}

#[test]
fn threshold_keeps_pair() {
    assert_eq!(threshold(127, 153), Threshold { min: 127, max: 153 });
}

fn scene_channels(e: &Effect) -> Vec<(u16, (u8, u8))> {
    match e {
        Effect::SceneToggle(s) => {
            let mut v: Vec<(u16, (u8, u8))> = s.dmx_channels.iter().map(|(k, v)| (*k, *v)).collect();
            v.sort();
            v
        }
        _ => panic!("not a scene toggle"),
    }
}

#[test]
fn rb_jams_layout() {
    let suite = rb_jams_suite(128);
    assert_eq!(suite.effects.len(), 10);
    assert_eq!(scene_channels(&suite.effects[0]), vec![(2, (255, 0))]);
    match &suite.effects[0] {
        Effect::SceneToggle(s) => {
            assert_eq!(s.bins, vec![(0, 12)]);
            assert_eq!(s.threshold, Threshold { min: 178, max: 178 });
        }
        _ => panic!(),
    }
    match &suite.effects[4] {
        Effect::Link(l) => {
            assert_eq!(l.dmx_channels, vec![5]);
            assert_eq!(l.bins, vec![(51, 63)]);
            assert_eq!((l.lower, l.upper), (0, 255));
        }
        _ => panic!("bar 4 is a link"),
    }
    assert_eq!(scene_channels(&suite.effects[5]), vec![(13, (3, 0))]);
}

#[test]
fn suite_sizes() {
    assert_eq!(solid_wash_suite(128).effects.len(), 5);
    assert_eq!(gemstone_suite(128).effects.len(), 8);
    assert_eq!(winter_glitter_suite(128).effects.len(), 16);
    assert_eq!(laser_focus_suite(128).effects.len(), 5);
    assert_eq!(motor_function_suite(128).effects.len(), 8);
    assert_eq!(true_lights_suite(128).effects.len(), 9);
    assert_eq!(purp_groovin_suite(128).effects.len(), 7);
    assert_eq!(angel_pallet_suite(128).effects.len(), 4);
    assert_eq!(redroom_suite(128).effects.len(), 5);
    assert_eq!(blue_business_suite(128).effects.len(), 6);
}

#[test]
fn all_lasers_scene() {
    let suite = solid_wash_suite(128);
    assert_eq!(
        scene_channels(&suite.effects[2]),
        vec![(1, (255, 0)), (2, (255, 0)), (3, (255, 0)), (4, (255, 0))]
    );
}

#[test]
fn true_lights_links() {
    let suite = true_lights_suite(90);
    let expected = [5u16, 7, 8, 9, 10, 11, 12, 6];
    for (i, ch) in expected.iter().enumerate() {
        match &suite.effects[i] {
            Effect::Link(l) => {
                assert_eq!(l.dmx_channels, vec![*ch]);
                assert_eq!(l.bins, vec![(i * 10, i * 10 + 9)]);
            }
            _ => panic!("bar {} is a link", i),
        }
    }
}

#[test]
fn angel_pallet_skips_bar_one() {
    let suite = angel_pallet_suite(100);
    match &suite.effects[1] {
        Effect::SceneToggle(s) => assert_eq!(s.bins, vec![(40, 59)]),
        _ => panic!(),
    }
}

/// Signals with only bar `on` switched on (links read level 0).
fn only_bar(suite: &audio_2_dmx::effects::EffectSuite, bars: &[usize], on: usize) -> Vec<Signal> {
    suite
        .effects
        .iter()
        .zip(bars.iter())
        .map(|(e, &bar)| match e {
            Effect::Link(_) => Signal::Level(0),
            _ => Signal::Gate(bar == on),
        })
        .collect()
}

#[test]
fn rb_jams_strobe_mode_bar_shows() {
    let suite = rb_jams_suite(10);
    let bars: Vec<usize> = (0..10).collect();
    let frame = suite.process(&only_bar(&suite, &bars, 5));
    assert_eq!(frame.channels[&13], 3);
    for (ch, v) in &frame.channels {
        if *ch != 13 {
            assert_eq!(*v, 0, "channel {}", ch);
        }
    }
}

#[test]
fn motor_function_strobe_max_bar_shows() {
    let suite = motor_function_suite(8);
    let bars: Vec<usize> = (0..8).collect();
    let frame = suite.process(&only_bar(&suite, &bars, 1));
    assert_eq!(frame.channels[&13], 255);
    for ch in [5u16, 9, 11, 15, 17] {
        assert_eq!(frame.channels[&ch], 0);
    }
}

#[test]
fn purp_groovin_red_bar_shows() {
    let suite = purp_groovin_suite(7);
    let bars: Vec<usize> = (0..7).collect();
    let frame = suite.process(&only_bar(&suite, &bars, 2));
    assert_eq!(frame.channels[&14], 255);
    for ch in [3u16, 4, 5, 13, 17] {
        assert_eq!(frame.channels[&ch], 0);
    }
}

#[test]
fn bar_widths_are_even() {
    for n in [1usize, 7, 100, 128, 513, 1024] {
        for t in 1..=n.min(40) {
            for b in 0..t {
                let (s, e) = bar_range(b, t, n);
                let w = e - s + 1;
                assert!(w == n / t || w == (n + t - 1) / t, "bar {} of {} over {}", b, t, n);
            }
        }
    }
}

#[test]
fn winter_glitter_frame_follows_gates() {
    let suite = winter_glitter_suite(128);
    let chans = [12u16, 8, 16, 17, 7, 15, 11, 5, 3, 1, 2, 4, 14, 10, 6, 9];
    for pattern in [0u32, 0xffff, 0x5a5a, 0x0001, 0x8000, 0x1234] {
        let signals: Vec<Signal> = (0..16).map(|k| Signal::Gate(pattern & (1 << k) != 0)).collect();
        let frame = suite.process(&signals);
        assert_eq!(frame.channels.len(), 16);
        for (k, ch) in chans.iter().enumerate() {
            let expected = if pattern & (1 << k) != 0 { 255 } else { 0 };
            assert_eq!(frame.channels[ch], expected);
        }
    }
}
