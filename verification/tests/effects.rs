use std::collections::HashMap;

use audio_2_dmx::effects::{
    Effect, EffectSuite, LinkEffect, SceneToggleEffect, Signal, Threshold, ToggleEffect,
};

fn scene(pairs: &[(u16, (u8, u8))]) -> SceneToggleEffect {
    let mut chans = HashMap::new();
    for (ch, v) in pairs {
        chans.insert(*ch, *v);
    }
    SceneToggleEffect::new(chans, vec![(0, 3)])
}

#[test]
fn constructors_defaults() {
    let l = LinkEffect::new(vec![5], vec![(0, 1)]);
    assert_eq!((l.lower, l.upper), (0, 255));
    let t = ToggleEffect::new(vec![1, 2], vec![(0, 1)]);
    assert_eq!(t.threshold, Threshold { min: 255, max: 255 });
    assert_eq!((t.on_value, t.off_value), (255, 0));
    let s = scene(&[(3, (200, 10))]);
    assert_eq!(s.threshold, Threshold { min: 255, max: 255 });
}

#[test]
fn link_apply_writes_level_to_all_channels() {
    let l = LinkEffect::new(vec![5, 6], vec![(0, 1)]);
    let mut dmx = HashMap::new();
    dmx.insert(7u16, 1u8);
    l.apply(99, &mut dmx);
    assert_eq!(dmx.len(), 3);
    assert_eq!(dmx[&5], 99);
    assert_eq!(dmx[&6], 99);
    assert_eq!(dmx[&7], 1);
}

#[test]
fn toggle_apply_on_and_off() {
    let mut t = ToggleEffect::new(vec![1, 2], vec![(0, 1)]);
    t.on_value = 200;
    t.off_value = 20;
    let mut dmx = HashMap::new();
    t.apply(true, &mut dmx);
    assert_eq!(dmx[&1], 200);
    assert_eq!(dmx[&2], 200);
    t.apply(false, &mut dmx);
    assert_eq!(dmx[&1], 20);
    assert_eq!(dmx.len(), 2);
}

#[test]
fn scene_apply_per_channel_values() {
    let s = scene(&[(3, (200, 10)), (4, (3, 0))]);
    let mut dmx = HashMap::new();
    s.apply(true, &mut dmx);
    assert_eq!(dmx[&3], 200);
    assert_eq!(dmx[&4], 3);
    s.apply(false, &mut dmx);
    assert_eq!(dmx[&3], 10);
    assert_eq!(dmx[&4], 0);
}

#[test]
fn suite_later_write_wins() {
    let mut suite = EffectSuite::new();
    suite.add(Effect::Link(LinkEffect::new(vec![5, 13], vec![(0, 1)])));
    suite.add(Effect::SceneToggle(scene(&[(13, (255, 0))])));
    suite.add(Effect::Toggle(ToggleEffect::new(vec![1], vec![(2, 3)])));
    assert_eq!(suite.effects.len(), 3);

    // a link level followed by a toggle that is off: the off value wins
    let frame = suite.process(&vec![Signal::Level(127), Signal::Gate(false), Signal::Gate(true)]);
    assert_eq!(frame.channels.len(), 3);
    assert_eq!(frame.channels[&5], 127);
    assert_eq!(frame.channels[&13], 0);
    assert_eq!(frame.channels[&1], 255);

    let frame = suite.process(&vec![Signal::Level(7), Signal::Gate(true), Signal::Gate(false)]);
    assert_eq!(frame.channels[&5], 7);
    assert_eq!(frame.channels[&13], 255);
    assert_eq!(frame.channels[&1], 0);
}

#[test]
fn on_toggle_holds_against_later_off_toggle() {
    let mut suite = EffectSuite::new();
    suite.add(Effect::SceneToggle(scene(&[(13, (3, 0))])));
    suite.add(Effect::SceneToggle(scene(&[(13, (255, 1))])));
    suite.add(Effect::Link(LinkEffect::new(vec![13], vec![(0, 1)])));
    suite.add(Effect::SceneToggle(scene(&[(13, (9, 2))])));
    // on, off, link, off: the link replaced the held 3, the last off value wins
    let frame = suite.process(&vec![Signal::Gate(true), Signal::Gate(false), Signal::Level(50), Signal::Gate(false)]);
    assert_eq!(frame.channels[&13], 2);
    // on, off, off: the 3 stays
    let mut suite = EffectSuite::new();
    suite.add(Effect::SceneToggle(scene(&[(13, (3, 0))])));
    suite.add(Effect::SceneToggle(scene(&[(13, (255, 1))])));
    let frame = suite.process(&vec![Signal::Gate(true), Signal::Gate(false)]);
    assert_eq!(frame.channels[&13], 3);
    // off, off: the later off value wins
    let frame = suite.process(&vec![Signal::Gate(false), Signal::Gate(false)]);
    assert_eq!(frame.channels[&13], 1);
    // on, on: the later one wins
    let frame = suite.process(&vec![Signal::Gate(true), Signal::Gate(true)]);
    assert_eq!(frame.channels[&13], 255);
}

#[test]
fn empty_suite_gives_empty_frame() {
    let suite = EffectSuite::new();
    let frame = suite.process(&vec![]);
    assert!(frame.channels.is_empty());
}

#[test]
fn effect_apply_dispatches() {
    let e = Effect::Toggle(ToggleEffect::new(vec![9], vec![(0, 0)]));
    let mut dmx = HashMap::new();
    e.apply(Signal::Gate(true), &mut dmx);
    assert_eq!(dmx[&9], 255);
}
