//! Lighting effects driven by the audio spectrum.
//!
//! An effect listens to some slices of the spectrum (`bins`, inclusive index
//! ranges into the cumulative spectrum) and drives some DMX channels. What an
//! effect measures on the spectrum is a floating-point computation made by the
//! caller; it hands the outcome to the effect as a [`Signal`]: a level for a
//! [`LinkEffect`], an on/off gate for the toggle effects. The effects then write
//! their channels, and an [`EffectSuite`] composes the writes of all its effects
//! into one [`DmxFrame`]: they write in order and a later write wins, except
//! that the off value of a toggle that is off does not replace a value that a
//! toggle which is on wrote.
use std::collections::{HashMap, HashSet};
use vstd::prelude::*;
use vstd::std_specs::iter::IteratorSpec;

verus! {

broadcast use {vstd::std_specs::hash::group_hash_axioms, vstd::seq_lib::group_seq_properties};

/// A QLC+ style audio trigger threshold, given by its `min` and `max` levels
/// (0..=255). The audio threshold it stands for is the midpoint
/// `((min + max) / 2) / 255`, a fraction of full scale.
#[derive(Clone, Copy, Debug, PartialEq, Eq, Structural)]
pub struct Threshold {
    pub min: u8,
    pub max: u8,
}

/// The threshold `((255 + 255) / 2) / 255`, that is full scale.
pub open spec fn full_scale() -> Threshold {
    Threshold { min: 255, max: 255 }
}

/// Drives its channels with a level that follows the summed spectrum slices,
/// mapped linearly onto the DMX range `lower..=upper`.
pub struct LinkEffect {
    pub dmx_channels: Vec<u16>,
    pub bins: Vec<(usize, usize)>,
    pub lower: u8,
    pub upper: u8,
}

impl LinkEffect {
    /// A link effect over the full DMX range `0..=255`.
    pub fn new(dmx_channels: Vec<u16>, bins: Vec<(usize, usize)>) -> (e: Self)
        ensures
            e.dmx_channels@ == dmx_channels@,
            e.bins@ == bins@,
            e.lower == 0,
            e.upper == 255,
    {
        LinkEffect { dmx_channels, bins, lower: 0, upper: 255 }
    }
}

/// Sets all its channels to `on_value` while the average of its spectrum
/// slices is above the threshold, and to `off_value` otherwise.
pub struct ToggleEffect {
    pub dmx_channels: Vec<u16>,
    pub bins: Vec<(usize, usize)>,
    pub threshold: Threshold,
    pub on_value: u8,
    pub off_value: u8,
}

impl ToggleEffect {
    /// A toggle with a full-scale threshold, switching between 255 and 0.
    pub fn new(dmx_channels: Vec<u16>, bins: Vec<(usize, usize)>) -> (e: Self)
        ensures
            e.dmx_channels@ == dmx_channels@,
            e.bins@ == bins@,
            e.threshold == full_scale(),
            e.on_value == 255,
            e.off_value == 0,
    {
        ToggleEffect { dmx_channels, bins, threshold: Threshold { min: 255, max: 255 }, on_value: 255, off_value: 0 }
    }
}

/// Like [`ToggleEffect`], with an (on, off) pair of its own for each channel.
pub struct SceneToggleEffect {
    pub dmx_channels: HashMap<u16, (u8, u8)>,
    pub bins: Vec<(usize, usize)>,
    pub threshold: Threshold,
}

impl SceneToggleEffect {
    /// A scene toggle with a full-scale threshold.
    pub fn new(dmx_channels: HashMap<u16, (u8, u8)>, bins: Vec<(usize, usize)>) -> (e: Self)
        ensures
            e.dmx_channels@ == dmx_channels@,
            e.bins@ == bins@,
            e.threshold == full_scale(),
    {
        SceneToggleEffect { dmx_channels, bins, threshold: Threshold { min: 255, max: 255 } }
    }
}

/// Any of the effects a suite can hold.
pub enum Effect {
    Link(LinkEffect),
    Toggle(ToggleEffect),
    SceneToggle(SceneToggleEffect),
}

/// What the measurement of an effect's spectrum slices came to: the DMX level
/// of a link effect, or whether a toggle effect is switched on.
#[derive(Clone, Copy, Debug, PartialEq, Eq, Structural)]
pub enum Signal {
    Level(u8),
    Gate(bool),
}

/// A link effect takes a level, a toggle effect a gate.
pub open spec fn signal_fits(e: Effect, s: Signal) -> bool {
    match e {
        Effect::Link(_) => s is Level,
        Effect::Toggle(_) => s is Gate,
        Effect::SceneToggle(_) => s is Gate,
    }
}

/// The same value on every channel of `chans`.
pub open spec fn fill(chans: Seq<u16>, v: u8) -> Map<u16, u8> {
    Map::new(|c: u16| chans.contains(c), |c: u16| v)
}

/// The channel values an effect writes for a signal.
pub open spec fn channel_writes(e: Effect, s: Signal) -> Map<u16, u8> {
    match e {
        Effect::Link(l) => match s {
            Signal::Level(v) => fill(l.dmx_channels@, v),
            Signal::Gate(_) => Map::empty(),
        },
        Effect::Toggle(t) => match s {
            Signal::Gate(on) => fill(t.dmx_channels@, if on { t.on_value } else { t.off_value }),
            Signal::Level(_) => Map::empty(),
        },
        Effect::SceneToggle(st) => match s {
            Signal::Gate(on) => st.dmx_channels@.map_values(|p: (u8, u8)| if on { p.0 } else { p.1 }),
            Signal::Level(_) => Map::empty(),
        },
    }
}

fn write_all(chans: &Vec<u16>, v: u8, dmx: &mut HashMap<u16, u8>)
    ensures
        final(dmx)@ == old(dmx)@.union_prefer_right(fill(chans@, v)),
{
    let ghost start = dmx@;
    let mut i: usize = 0;
    while i < chans.len()
        invariant
            i <= chans.len(),
            dmx@ == start.union_prefer_right(fill(chans@.subrange(0, i as int), v)),
        decreases chans.len() - i,
    {
        let ch = chans[i];
        dmx.insert(ch, v);
        proof {
            assert(chans@.subrange(0, i + 1) =~= chans@.subrange(0, i as int).push(ch));
            assert(fill(chans@.subrange(0, i + 1), v) =~= fill(chans@.subrange(0, i as int), v).insert(ch, v));
            assert(dmx@ =~= start.union_prefer_right(fill(chans@.subrange(0, i + 1), v)));
        }
        i = i + 1;
    }
    proof {
        assert(chans@.subrange(0, chans@.len() as int) =~= chans@);
    }
}


/// The (on, off) value of a scene channel that a gate selects.
pub open spec fn pick(p: (u8, u8), on: bool) -> u8 {
    if on { p.0 } else { p.1 }
}

/// What a scene writes: each of its channels set to its on or off value.
pub open spec fn scene_writes(chans: Map<u16, (u8, u8)>, on: bool) -> Map<u16, u8> {
    chans.map_values(|p: (u8, u8)| pick(p, on))
}

/// The scene channels among the first `k` entries of an iteration order.
spec fn scene_prefix(items: Seq<(&u16, &(u8, u8))>, k: int, m: Map<u16, (u8, u8)>, on: bool) -> Map<u16, u8> {
    Map::new(
        |c: u16| exists|j: int| 0 <= j < k && *(#[trigger] items[j]).0 == c,
        |c: u16| pick(m[c], on),
    )
}

fn write_scene(chans: &HashMap<u16, (u8, u8)>, on: bool, dmx: &mut HashMap<u16, u8>)
    ensures
        final(dmx)@ == old(dmx)@.union_prefer_right(scene_writes(chans@, on)),
{
    let ghost start = dmx@;
    let ghost m = chans@;
    let ghost items = vstd::std_specs::hash::spec_hash_map_iter(chans).remaining();
    let ghost mut k: int = 0;
    for entry in it: chans.iter()
        invariant
            it.seq() == items,
            k == it.index(),
            dmx@ == start.union_prefer_right(scene_prefix(items, k, m, on)),
            forall|j: int| 0 <= j < items.len() ==> m.contains_key(*(#[trigger] items[j]).0)
                && m[*items[j].0] == *items[j].1,
            forall|c: u16| #[trigger] m.contains_key(c) ==> items.contains((&c, &m[c])),
    {
        let (ch, pair) = entry;
        let v: u8 = if on { pair.0 } else { pair.1 };
        proof {
            assert(items[k] == entry);
        }
        dmx.insert(*ch, v);
        proof {
            assert(dmx@ =~= start.union_prefer_right(scene_prefix(items, k + 1, m, on)));
            k = k + 1;
        }
    }
    proof {
        assert(k == items.len());
        assert forall|c: u16| m.contains_key(c) implies exists|j: int|
            0 <= j < items.len() && *(#[trigger] items[j]).0 == c by {
            assert(items.contains((&c, &m[c])));
        }
        assert(scene_prefix(items, items.len() as int, m, on) =~= scene_writes(m, on));
    }
}

impl LinkEffect {
    /// Sets every channel of the effect to `level`.
    pub fn apply(&self, level: u8, dmx: &mut HashMap<u16, u8>)
        ensures
            final(dmx)@ == old(dmx)@.union_prefer_right(fill(self.dmx_channels@, level)),
    {
        write_all(&self.dmx_channels, level, dmx);
    }
}

impl ToggleEffect {
    /// Sets every channel of the effect to its on value if `on`, else to its off value.
    pub fn apply(&self, on: bool, dmx: &mut HashMap<u16, u8>)
        ensures
            final(dmx)@ == old(dmx)@.union_prefer_right(
                fill(self.dmx_channels@, if on { self.on_value } else { self.off_value }),
            ),
    {
        let val = if on { self.on_value } else { self.off_value };
        write_all(&self.dmx_channels, val, dmx);
    }
}

impl SceneToggleEffect {
    /// Sets each channel of the scene to its own on value if `on`, else to its off value.
    pub fn apply(&self, on: bool, dmx: &mut HashMap<u16, u8>)
        ensures
            final(dmx)@ == old(dmx)@.union_prefer_right(scene_writes(self.dmx_channels@, on)),
    {
        write_scene(&self.dmx_channels, on, dmx);
    }
}

impl Effect {
    /// Writes the channels of the effect for a signal of the kind it takes.
    pub fn apply(&self, signal: Signal, dmx: &mut HashMap<u16, u8>)
        requires
            signal_fits(*self, signal),
        ensures
            final(dmx)@ == old(dmx)@.union_prefer_right(channel_writes(*self, signal)),
    {
        match self {
            Effect::Link(l) => {
                match signal {
                    Signal::Level(v) => l.apply(v, dmx),
                    Signal::Gate(_) => {},
                }
            },
            Effect::Toggle(t) => {
                match signal {
                    Signal::Gate(on) => t.apply(on, dmx),
                    Signal::Level(_) => {},
                }
            },
            Effect::SceneToggle(st) => {
                match signal {
                    Signal::Gate(on) => {
                        st.apply(on, dmx);
                        assert(scene_writes(st.dmx_channels@, on) =~= channel_writes(*self, signal));
                    },
                    Signal::Level(_) => {},
                }
            },
        }
    }
}

/// One frame of DMX output: channel number to level.
pub struct DmxFrame {
    pub channels: HashMap<u16, u8>,
}

/// An ordered list of effects that together make up a light show.
pub struct EffectSuite {
    pub effects: Vec<Effect>,
}

/// How the write of an effect meets what a channel already holds.
#[derive(Clone, Copy, Debug, PartialEq, Eq, Structural)]
pub enum WriteMode {
    /// A link level: written over whatever the channel holds.
    Drive,
    /// The on values of a toggle that is on: written, and held against
    /// the off values of later toggles.
    Hold,
    /// The off values of a toggle that is off: written, except on channels
    /// that a toggle which is on holds.
    Rest,
}

/// The mode of an effect's write for a signal.
pub open spec fn write_mode(e: Effect, s: Signal) -> WriteMode {
    match e {
        Effect::Link(_) => WriteMode::Drive,
        _ => if s == Signal::Gate(true) { WriteMode::Hold } else { WriteMode::Rest },
    }
}

/// One write on a frame in progress: `vals` are the channel values so far,
/// `held` the channels whose value a toggle that is on wrote.
pub open spec fn write_step(vals: Map<u16, u8>, held: Set<u16>, w: Map<u16, u8>, mode: WriteMode) -> (Map<u16, u8>, Set<u16>) {
    match mode {
        WriteMode::Drive => (vals.union_prefer_right(w), held.difference(w.dom())),
        WriteMode::Hold => (vals.union_prefer_right(w), held.union(w.dom())),
        WriteMode::Rest => (vals.union_prefer_right(w.remove_keys(held)), held),
    }
}

/// The frame in progress after the first `n` effects have written, in order.
pub open spec fn frame_state(effects: Seq<Effect>, signals: Seq<Signal>, n: nat) -> (Map<u16, u8>, Set<u16>)
    decreases n,
{
    if n == 0 {
        (Map::empty(), Set::empty())
    } else {
        let prev = frame_state(effects, signals, (n - 1) as nat);
        write_step(prev.0, prev.1, channel_writes(effects[n - 1], signals[n - 1]), write_mode(effects[n - 1], signals[n - 1]))
    }
}

/// The frame of the first `n` effects: they write in order, a later write
/// winning, except that the off value of a toggle that is off does not
/// replace a value that a toggle which is on wrote.
pub open spec fn frame_of(effects: Seq<Effect>, signals: Seq<Signal>, n: nat) -> Map<u16, u8> {
    frame_state(effects, signals, n).0
}

/// Each effect gets a signal of the kind it takes, in the same order.
pub open spec fn signals_fit(effects: Seq<Effect>, signals: Seq<Signal>) -> bool {
    &&& signals.len() == effects.len()
    &&& forall|i: int| 0 <= i < effects.len() ==> signal_fits(#[trigger] effects[i], signals[i])
}

fn write_list(chans: &Vec<u16>, v: u8, mode: WriteMode, dmx: &mut HashMap<u16, u8>, held: &mut HashSet<u16>)
    ensures
        (final(dmx)@, final(held)@) == write_step(old(dmx)@, old(held)@, fill(chans@, v), mode),
{
    let ghost vals0 = dmx@;
    let ghost held0 = held@;
    let mut i: usize = 0;
    while i < chans.len()
        invariant
            i <= chans.len(),
            (dmx@, held@) == write_step(vals0, held0, fill(chans@.subrange(0, i as int), v), mode),
        decreases chans.len() - i,
    {
        let ch = chans[i];
        proof {
            assert(chans@.subrange(0, i + 1) =~= chans@.subrange(0, i as int).push(ch));
            assert(fill(chans@.subrange(0, i + 1), v) =~= fill(chans@.subrange(0, i as int), v).insert(ch, v));
        }
        match mode {
            WriteMode::Drive => {
                dmx.insert(ch, v);
                held.remove(&ch);
            },
            WriteMode::Hold => {
                dmx.insert(ch, v);
                held.insert(ch);
            },
            WriteMode::Rest => {
                if !held.contains(&ch) {
                    dmx.insert(ch, v);
                }
            },
        }
        proof {
            let w = fill(chans@.subrange(0, i + 1), v);
            let next = write_step(vals0, held0, w, mode);
            assert(dmx@ =~= next.0);
            assert(held@ =~= next.1);
        }
        i = i + 1;
    }
    proof {
        assert(chans@.subrange(0, chans@.len() as int) =~= chans@);
    }
}

fn write_scene_mode(chans: &HashMap<u16, (u8, u8)>, on: bool, mode: WriteMode, dmx: &mut HashMap<u16, u8>, held: &mut HashSet<u16>)
    requires
        mode != WriteMode::Drive,
    ensures
        (final(dmx)@, final(held)@) == write_step(old(dmx)@, old(held)@, scene_writes(chans@, on), mode),
{
    let ghost vals0 = dmx@;
    let ghost held0 = held@;
    let ghost m = chans@;
    let ghost items = vstd::std_specs::hash::spec_hash_map_iter(chans).remaining();
    let ghost mut k: int = 0;
    for entry in it: chans.iter()
        invariant
            it.seq() == items,
            k == it.index(),
            mode != WriteMode::Drive,
            (dmx@, held@) == write_step(vals0, held0, scene_prefix(items, k, m, on), mode),
            forall|j: int| 0 <= j < items.len() ==> m.contains_key(*(#[trigger] items[j]).0)
                && m[*items[j].0] == *items[j].1,
            forall|c: u16| #[trigger] m.contains_key(c) ==> items.contains((&c, &m[c])),
    {
        let (ch, pair) = entry;
        let v: u8 = if on { pair.0 } else { pair.1 };
        proof {
            assert(items[k] == entry);
            assert(scene_prefix(items, k + 1, m, on) =~= scene_prefix(items, k, m, on).insert(*ch, v));
        }
        match mode {
            WriteMode::Hold => {
                dmx.insert(*ch, v);
                held.insert(*ch);
            },
            _ => {
                if !held.contains(ch) {
                    dmx.insert(*ch, v);
                }
            },
        }
        proof {
            let next = write_step(vals0, held0, scene_prefix(items, k + 1, m, on), mode);
            assert(dmx@ =~= next.0);
            assert(held@ =~= next.1);
            k = k + 1;
        }
    }
    proof {
        assert(k == items.len());
        assert forall|c: u16| m.contains_key(c) implies exists|j: int|
            0 <= j < items.len() && *(#[trigger] items[j]).0 == c by {
            assert(items.contains((&c, &m[c])));
        }
        assert(scene_prefix(items, items.len() as int, m, on) =~= scene_writes(m, on));
    }
}

impl Effect {
    /// Writes the effect into a frame in progress, by its write mode.
    fn write_into(&self, signal: Signal, dmx: &mut HashMap<u16, u8>, held: &mut HashSet<u16>)
        requires
            signal_fits(*self, signal),
        ensures
            (final(dmx)@, final(held)@) == write_step(
                old(dmx)@,
                old(held)@,
                channel_writes(*self, signal),
                write_mode(*self, signal),
            ),
    {
        match self {
            Effect::Link(l) => {
                match signal {
                    Signal::Level(v) => write_list(&l.dmx_channels, v, WriteMode::Drive, dmx, held),
                    Signal::Gate(_) => {},
                }
            },
            Effect::Toggle(t) => {
                match signal {
                    Signal::Gate(on) => {
                        let v = if on { t.on_value } else { t.off_value };
                        let mode = if on { WriteMode::Hold } else { WriteMode::Rest };
                        write_list(&t.dmx_channels, v, mode, dmx, held);
                    },
                    Signal::Level(_) => {},
                }
            },
            Effect::SceneToggle(st) => {
                match signal {
                    Signal::Gate(on) => {
                        let mode = if on { WriteMode::Hold } else { WriteMode::Rest };
                        write_scene_mode(&st.dmx_channels, on, mode, dmx, held);
                        assert(scene_writes(st.dmx_channels@, on) =~= channel_writes(*self, signal));
                    },
                    Signal::Level(_) => {},
                }
            },
        }
    }
}

impl EffectSuite {
    /// An empty suite.
    pub fn new() -> (s: Self)
        ensures
            s.effects@ == Seq::<Effect>::empty(),
    {
        EffectSuite { effects: Vec::new() }
    }

    /// Appends an effect; it applies after all those already in the suite.
    pub fn add(&mut self, eff: Effect)
        ensures
            final(self).effects@ == old(self).effects@.push(eff),
    {
        self.effects.push(eff);
    }

    /// The DMX frame that the suite produces when effect `i` receives
    /// `signals[i]`: the effects write in order and a later write wins, except
    /// that the off value of a toggle that is off does not replace a value
    /// that a toggle which is on wrote (a link level written after it does).
    pub fn process(&self, signals: &Vec<Signal>) -> (frame: DmxFrame)
        requires
            signals_fit(self.effects@, signals@),
        ensures
            frame.channels@ == frame_of(self.effects@, signals@, self.effects@.len()),
    {
        let mut dmx: HashMap<u16, u8> = HashMap::new();
        let mut held: HashSet<u16> = HashSet::new();
        let mut i: usize = 0;
        while i < self.effects.len()
            invariant
                i <= self.effects.len(),
                signals_fit(self.effects@, signals@),
                (dmx@, held@) == frame_state(self.effects@, signals@, i as nat),
            decreases self.effects.len() - i,
        {
            self.effects[i].write_into(signals[i], &mut dmx, &mut held);
            i = i + 1;
        }
        DmxFrame { channels: dmx }
    }
}

/// The channels held by a toggle that is on all carry a value.
pub proof fn lemma_held_written(effects: Seq<Effect>, signals: Seq<Signal>, n: nat)
    ensures
        frame_state(effects, signals, n).1.subset_of(frame_state(effects, signals, n).0.dom()),
    decreases n,
{
    if n > 0 {
        lemma_held_written(effects, signals, (n - 1) as nat);
    }
}

/// A channel appears in a frame exactly when one of the effects writes it.
pub proof fn lemma_frame_channels(effects: Seq<Effect>, signals: Seq<Signal>, n: nat, c: u16)
    ensures
        frame_of(effects, signals, n).contains_key(c) <==> exists|k: int|
            0 <= k < n && #[trigger] channel_writes(effects[k], signals[k]).contains_key(c),
    decreases n,
{
    if n > 0 {
        lemma_frame_channels(effects, signals, (n - 1) as nat, c);
        lemma_held_written(effects, signals, (n - 1) as nat);
        if channel_writes(effects[n - 1], signals[n - 1]).contains_key(c) {
            assert(frame_of(effects, signals, n).contains_key(c));
        }
    }
}

/// When several effects write a channel, the last one wins, unless it is the
/// off value of a toggle that is off and a toggle which is on holds the channel.
pub proof fn lemma_later_write_wins(effects: Seq<Effect>, signals: Seq<Signal>, n: nat, c: u16, k: int)
    requires
        0 <= k < n,
        channel_writes(effects[k], signals[k]).contains_key(c),
        write_mode(effects[k], signals[k]) != WriteMode::Rest || !frame_state(effects, signals, k as nat).1.contains(c),
        forall|j: int| k < j < n ==> !(#[trigger] channel_writes(effects[j], signals[j])).contains_key(c),
    ensures
        frame_of(effects, signals, n).contains_key(c),
        frame_of(effects, signals, n)[c] == channel_writes(effects[k], signals[k])[c],
    decreases n,
{
    if k < n - 1 {
        lemma_later_write_wins(effects, signals, (n - 1) as nat, c, k);
        assert(!channel_writes(effects[n - 1], signals[n - 1]).contains_key(c));
    }
}

/// A channel that a toggle which is on writes keeps that toggle's value
/// through the off values of later toggles; only a later link level or a
/// later toggle that is on replaces it.
pub proof fn lemma_on_toggle_holds(effects: Seq<Effect>, signals: Seq<Signal>, n: nat, c: u16, k: int)
    requires
        0 <= k < n,
        write_mode(effects[k], signals[k]) == WriteMode::Hold,
        channel_writes(effects[k], signals[k]).contains_key(c),
        forall|j: int| k < j < n && (#[trigger] channel_writes(effects[j], signals[j])).contains_key(c)
            ==> write_mode(effects[j], signals[j]) == WriteMode::Rest,
    ensures
        frame_of(effects, signals, n).contains_key(c),
        frame_of(effects, signals, n)[c] == channel_writes(effects[k], signals[k])[c],
        frame_state(effects, signals, n).1.contains(c),
    decreases n,
{
    if k < n - 1 {
        lemma_on_toggle_holds(effects, signals, (n - 1) as nat, c, k);
    }
}

/// The plain in-order composition: every write applied, the later one winning.
pub open spec fn frame_in_order(effects: Seq<Effect>, signals: Seq<Signal>, n: nat) -> Map<u16, u8>
    decreases n,
{
    if n == 0 {
        Map::empty()
    } else {
        frame_in_order(effects, signals, (n - 1) as nat).union_prefer_right(
            channel_writes(effects[n - 1], signals[n - 1]),
        )
    }
}

/// Effects that write pairwise different channels compose plainly, every
/// write showing.
pub proof fn lemma_disjoint_effects_compose(effects: Seq<Effect>, signals: Seq<Signal>, n: nat)
    requires
        forall|i: int, j: int| 0 <= i < j < n ==> (#[trigger] channel_writes(effects[i], signals[i])).dom().disjoint(
            #[trigger] channel_writes(effects[j], signals[j]).dom(),
        ),
    ensures
        frame_of(effects, signals, n) == frame_in_order(effects, signals, n),
        forall|c: u16| #[trigger] frame_state(effects, signals, n).1.contains(c) ==> exists|k: int|
            0 <= k < n && channel_writes(effects[k], signals[k]).contains_key(c),
    decreases n,
{
    if n > 0 {
        lemma_disjoint_effects_compose(effects, signals, (n - 1) as nat);
        let prev = frame_state(effects, signals, (n - 1) as nat);
        let w = channel_writes(effects[n - 1], signals[n - 1]);
        assert forall|c: u16| w.contains_key(c) implies !prev.1.contains(c) by {
            if prev.1.contains(c) {
                let k = choose|k: int| 0 <= k < n - 1 && channel_writes(effects[k], signals[k]).contains_key(c);
                assert(channel_writes(effects[k], signals[k]).dom().disjoint(w.dom()));
            }
        }
        assert(w.remove_keys(prev.1) =~= w);
        let next = frame_state(effects, signals, n);
        assert forall|c: u16| #[trigger] next.1.contains(c) implies exists|k: int|
            0 <= k < n && channel_writes(effects[k], signals[k]).contains_key(c) by {
            if !w.contains_key(c) {
                assert(prev.1.contains(c));
            }
        }
    }
}


/// What each kind of effect writes, stated on its fields: a link writes its
/// level on each of its channels; a toggle writes its on value on each of its
/// channels when on and its off value when off; a scene toggle writes, on each
/// of its channels, that channel's own on value when on and off value when off.
/// No effect writes any other channel.
pub proof fn lemma_effect_writes(e: Effect, s: Signal, c: u16)
    requires
        signal_fits(e, s),
    ensures
        e matches Effect::Link(l) ==> {
            &&& channel_writes(e, s).contains_key(c) <==> l.dmx_channels@.contains(c)
            &&& s matches Signal::Level(v) ==> (l.dmx_channels@.contains(c) ==> channel_writes(e, s)[c] == v)
        },
        e matches Effect::Toggle(t) ==> {
            &&& channel_writes(e, s).contains_key(c) <==> t.dmx_channels@.contains(c)
            &&& s == Signal::Gate(true) && t.dmx_channels@.contains(c) ==> channel_writes(e, s)[c] == t.on_value
            &&& s == Signal::Gate(false) && t.dmx_channels@.contains(c) ==> channel_writes(e, s)[c] == t.off_value
        },
        e matches Effect::SceneToggle(st) ==> {
            &&& channel_writes(e, s).contains_key(c) <==> st.dmx_channels@.contains_key(c)
            &&& s == Signal::Gate(true) && st.dmx_channels@.contains_key(c) ==> channel_writes(e, s)[c] == st.dmx_channels@[c].0
            &&& s == Signal::Gate(false) && st.dmx_channels@.contains_key(c) ==> channel_writes(e, s)[c] == st.dmx_channels@[c].1
        },
{
}

/// A show of one toggle gives a frame with exactly that toggle's channels,
/// each at its on value when the toggle is on and at its off value when off,
/// whatever those values are.
pub proof fn lemma_single_toggle_frame(t: ToggleEffect, on: bool)
    ensures
        forall|c: u16| #![auto] frame_of(seq![Effect::Toggle(t)], seq![Signal::Gate(on)], 1).contains_key(c)
            <==> t.dmx_channels@.contains(c),
        forall|c: u16| #![auto] t.dmx_channels@.contains(c) ==>
            frame_of(seq![Effect::Toggle(t)], seq![Signal::Gate(on)], 1)[c] == (if on { t.on_value } else { t.off_value }),
{
    let effects = seq![Effect::Toggle(t)];
    let signals = seq![Signal::Gate(on)];
    assert(effects[0] == Effect::Toggle(t));
    assert(signals[0] == Signal::Gate(on));
    let f = frame_of(effects, signals, 1);
    let w = channel_writes(Effect::Toggle(t), Signal::Gate(on));
    assert(frame_state(effects, signals, 0) == (Map::<u16, u8>::empty(), Set::<u16>::empty()));
    assert forall|c: u16| #![auto] f.contains_key(c) <==> t.dmx_channels@.contains(c) by {
        assert(w.contains_key(c) <==> t.dmx_channels@.contains(c));
    }
    assert forall|c: u16| #![auto] t.dmx_channels@.contains(c) implies f[c] == (if on { t.on_value } else { t.off_value }) by {
        assert(w.contains_key(c));
    }
}

/// A channel held after the first `m` effects was written by a toggle that is
/// on, and no link has written it since.
proof fn lemma_held_by_on_toggle(effects: Seq<Effect>, signals: Seq<Signal>, m: nat, c: u16)
    requires
        frame_state(effects, signals, m).1.contains(c),
    ensures
        exists|i: int| 0 <= i < m && !(effects[i] is Link) && signals[i] == Signal::Gate(true)
            && (#[trigger] channel_writes(effects[i], signals[i])).contains_key(c)
            && forall|j: int| i < j < m && (effects[j] is Link) ==> !(#[trigger] channel_writes(effects[j], signals[j])).contains_key(c),
    decreases m,
{
    let prev = frame_state(effects, signals, (m - 1) as nat);
    let w = channel_writes(effects[m - 1], signals[m - 1]);
    if write_mode(effects[m - 1], signals[m - 1]) == WriteMode::Hold && w.contains_key(c) {
        assert(!(effects[m - 1] is Link) && signals[m - 1] == Signal::Gate(true));
    } else {
        assert(prev.1.contains(c));
        lemma_held_by_on_toggle(effects, signals, (m - 1) as nat, c);
        let i = choose|i: int| 0 <= i < m - 1 && !(effects[i] is Link) && signals[i] == Signal::Gate(true)
            && (#[trigger] channel_writes(effects[i], signals[i])).contains_key(c)
            && forall|j: int| i < j < m - 1 && (effects[j] is Link) ==> !(#[trigger] channel_writes(effects[j], signals[j])).contains_key(c);
        assert forall|j: int| i < j < m && (effects[j] is Link) implies !(#[trigger] channel_writes(effects[j], signals[j])).contains_key(c) by {
            if j == m - 1 && w.contains_key(c) {
                assert(write_mode(effects[m - 1], signals[m - 1]) == WriteMode::Drive);
            }
        }
    }
}

/// The last write on a channel shows when it is a link level or the value of
/// a toggle that is on.
pub proof fn lemma_last_driving_write_shows(effects: Seq<Effect>, signals: Seq<Signal>, n: nat, c: u16, k: int)
    requires
        0 <= k < n,
        (effects[k] is Link) || signals[k] == Signal::Gate(true),
        channel_writes(effects[k], signals[k]).contains_key(c),
        forall|j: int| k < j < n ==> !(#[trigger] channel_writes(effects[j], signals[j])).contains_key(c),
    ensures
        frame_of(effects, signals, n).contains_key(c),
        frame_of(effects, signals, n)[c] == channel_writes(effects[k], signals[k])[c],
{
    lemma_later_write_wins(effects, signals, n, c, k);
}

/// The last write on a channel shows even when it is the off value of a toggle
/// that is off, provided every toggle that was on and wrote the channel before
/// it was followed by a link writing the channel.
pub proof fn lemma_last_off_write_shows(effects: Seq<Effect>, signals: Seq<Signal>, n: nat, c: u16, k: int)
    requires
        0 <= k < n,
        channel_writes(effects[k], signals[k]).contains_key(c),
        forall|j: int| k < j < n ==> !(#[trigger] channel_writes(effects[j], signals[j])).contains_key(c),
        forall|i: int| 0 <= i < k && !(effects[i] is Link) && signals[i] == Signal::Gate(true)
            && (#[trigger] channel_writes(effects[i], signals[i])).contains_key(c)
            ==> exists|j: int| i < j < k && (effects[j] is Link)
                && (#[trigger] channel_writes(effects[j], signals[j])).contains_key(c),
    ensures
        frame_of(effects, signals, n).contains_key(c),
        frame_of(effects, signals, n)[c] == channel_writes(effects[k], signals[k])[c],
{
    if frame_state(effects, signals, k as nat).1.contains(c) {
        lemma_held_by_on_toggle(effects, signals, k as nat, c);
        let i = choose|i: int| 0 <= i < k && !(effects[i] is Link) && signals[i] == Signal::Gate(true)
            && (#[trigger] channel_writes(effects[i], signals[i])).contains_key(c)
            && forall|j: int| i < j < k && (effects[j] is Link) ==> !(#[trigger] channel_writes(effects[j], signals[j])).contains_key(c);
        let j = choose|j: int| i < j < k && (effects[j] is Link)
            && (#[trigger] channel_writes(effects[j], signals[j])).contains_key(c);
        assert(false);
    }
    lemma_later_write_wins(effects, signals, n, c, k);
}

/// A value that a toggle which is on writes stays through the off values of
/// any later toggles that are off.
pub proof fn lemma_on_value_stays(effects: Seq<Effect>, signals: Seq<Signal>, n: nat, c: u16, k: int)
    requires
        0 <= k < n,
        !(effects[k] is Link),
        signals[k] == Signal::Gate(true),
        channel_writes(effects[k], signals[k]).contains_key(c),
        forall|j: int| k < j < n && (#[trigger] channel_writes(effects[j], signals[j])).contains_key(c)
            ==> !(effects[j] is Link) && signals[j] != Signal::Gate(true),
    ensures
        frame_of(effects, signals, n).contains_key(c),
        frame_of(effects, signals, n)[c] == channel_writes(effects[k], signals[k])[c],
{
    lemma_on_toggle_holds(effects, signals, n, c, k);
}

} // verus!
