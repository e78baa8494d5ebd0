//! The built-in light shows, modelled on QLC+ audio-trigger setups.
//!
//! Each show splits the spectrum into a number of bars of (nearly) equal width
//! and attaches an effect to each bar.
use std::collections::HashMap;
use vstd::prelude::*;
use crate::effects::{
    channel_writes, frame_in_order, frame_of, lemma_disjoint_effects_compose, signals_fit, Effect,
    EffectSuite, LinkEffect, SceneToggleEffect, Signal, Threshold,
};
use vstd::arithmetic::div_mod::{
    lemma_div_is_ordered,
    lemma_fundamental_div_mod,
    lemma_fundamental_div_mod_converse_div,
};

verus! {

/// `num / den` rounded to the nearest integer, halves rounded up.
pub open spec fn round_div(num: nat, den: nat) -> nat
    recommends
        den > 0,
{
    num / den + if 2 * (num % den) >= den { 1nat } else { 0nat }
}

/// A rounded position clamped to the largest `isize`, as a float-to-`isize`
/// conversion saturates.
pub open spec fn saturate(x: nat) -> nat {
    if x > isize::MAX { isize::MAX as nat } else { x }
}

/// The inclusive range of cumulative bins that bar `b` of `t` covers when the
/// spectrum has `n` bins: from the rounded position `b * n / t` to one before
/// the rounded position `(b + 1) * n / t`; never ending before it starts,
/// except that the end is clamped to the last bin.
///
/// The positions are the exact fractions rounded half up. This departs from a
/// single-precision computation of `b * (n / t)`, which on some ties rounds the
/// other way: bar 7 of 14 over 31 bins is (16, 17) here and (15, 17) in `f32`,
/// bar 6 of 14 over 31 bins (13, 15) here and (13, 14) in `f32`. For the bar
/// counts of the built-in shows both agree.
pub open spec fn bar_range_spec(b: nat, t: nat, n: nat) -> (usize, usize) {
    if n == 0 || t == 0 {
        (0, 0)
    } else {
        let start = saturate(round_div(b * n, t));
        let end0: int = saturate(round_div((b + 1) * n, t)) - 1;
        let end1: int = if end0 < start { start as int } else { end0 };
        let end2: int = if end1 >= n { n - 1 } else { end1 };
        (start as usize, end2 as usize)
    }
}

fn round_div_exec(num: u128, den: u128) -> (r: u128)
    requires
        den > 0,
        den <= usize::MAX,
    ensures
        r == round_div(num as nat, den as nat),
{
    let q = num / den;
    let rem = num % den;
    if 2 * rem >= den {
        proof {
            lemma_fundamental_div_mod(num as int, den as int);
            assert(den * q <= num) by (nonlinear_arith)
                requires den * q + rem == num, rem >= 0;
            assert(q < u128::MAX) by (nonlinear_arith)
                requires den * q <= num, den >= 2, num <= u128::MAX;
        }
        q + 1
    } else {
        q
    }
}

fn saturate_exec(x: u128) -> (r: usize)
    ensures
        r == saturate(x as nat),
{
    if x > isize::MAX as u128 {
        isize::MAX as usize
    } else {
        x as usize
    }
}

/// Map a bar index into a (start,end) slice of the cumulative bins, rounding
/// exact fractions (see [`bar_range_spec`] for where this departs from `f32`).
pub fn bar_range(bar_index: usize, total_bars: usize, n_bins: usize) -> (r: (usize, usize))
    ensures
        r == bar_range_spec(bar_index as nat, total_bars as nat, n_bins as nat),
{
    if n_bins == 0 || total_bars == 0 {
        return (0, 0);
    }
    let b = bar_index as u128;
    let n = n_bins as u128;
    let t = total_bars as u128;
    assert(b * n <= (usize::MAX as int) * (usize::MAX as int)) by (nonlinear_arith)
        requires b <= usize::MAX, n <= usize::MAX;
    assert((b + 1) * n <= 0x1_0000_0000_0000_0000int * (usize::MAX as int)) by (nonlinear_arith)
        requires b <= usize::MAX, n <= usize::MAX, usize::MAX < 0x1_0000_0000_0000_0000int;
    assert(0x1_0000_0000_0000_0000int * (usize::MAX as int) <= u128::MAX) by (nonlinear_arith)
        requires usize::MAX < 0x1_0000_0000_0000_0000int;
    let start = saturate_exec(round_div_exec(b * n, t));
    let end_pos = saturate_exec(round_div_exec((b + 1) * n, t));
    // `end_pos - 1` may be -1: track the end as a position one past it.
    let mut end_next: usize = end_pos;
    if end_next < start + 1 {
        end_next = start + 1;
    }
    if end_next - 1 >= n_bins {
        end_next = n_bins;
    }
    (start, end_next - 1)
}


proof fn lemma_round_div_alt(x: nat, t: nat)
    requires
        t > 0,
    ensures
        round_div(x, t) == (2 * x + t) / (2 * t),
{
    let xi = x as int;
    let ti = t as int;
    let q = xi / ti;
    let r = xi % ti;
    lemma_fundamental_div_mod(xi, ti);
    if 2 * r >= ti {
        assert(2 * xi + ti == (q + 1) * (2 * ti) + (2 * r - ti)) by (nonlinear_arith)
            requires xi == ti * q + r;
        lemma_fundamental_div_mod_converse_div(2 * xi + ti, 2 * ti, q + 1, 2 * r - ti);
    } else {
        assert(2 * xi + ti == q * (2 * ti) + (2 * r + ti)) by (nonlinear_arith)
            requires xi == ti * q + r;
        lemma_fundamental_div_mod_converse_div(2 * xi + ti, 2 * ti, q, 2 * r + ti);
    }
}

proof fn lemma_round_div_monotone(x: nat, y: nat, t: nat)
    requires
        t > 0,
        x <= y,
    ensures
        round_div(x, t) <= round_div(y, t),
{
    lemma_round_div_alt(x, t);
    lemma_round_div_alt(y, t);
    lemma_div_is_ordered(2 * (x as int) + t, 2 * (y as int) + t, 2 * (t as int));
}

proof fn lemma_round_div_step(x: nat, t: nat)
    requires
        t > 0,
    ensures
        round_div(x + t, t) == round_div(x, t) + 1,
{
    lemma_round_div_alt(x, t);
    lemma_round_div_alt((x + t) as nat, t);
    let ti = t as int;
    let y: int = 2 * x + ti;
    lemma_fundamental_div_mod(y, 2 * ti);
    let q = y / (2 * ti);
    let r = y % (2 * ti);
    assert(y + 2 * ti == (q + 1) * (2 * ti) + r) by (nonlinear_arith)
        requires y == (2 * ti) * q + r;
    lemma_fundamental_div_mod_converse_div(y + 2 * ti, 2 * ti, q + 1, r);
}

proof fn lemma_round_div_exact(n: nat, t: nat)
    requires
        t > 0,
    ensures
        round_div(t * n, t) == n,
{
    let ti = t as int;
    let ni = n as int;
    assert(ti * ni == ni * ti + 0) by (nonlinear_arith);
    lemma_fundamental_div_mod_converse_div(ti * ni, ti, ni, 0);
    vstd::arithmetic::div_mod::lemma_fundamental_div_mod_converse_mod(ti * ni, ti, ni, 0);
}

proof fn lemma_bar_inside(b: nat, t: nat, n: nat)
    requires
        b < t,
        t <= n,
        n <= isize::MAX,
    ensures
        round_div(b * n, t) + 1 <= round_div((b + 1) * n, t),
        round_div((b + 1) * n, t) <= n,
        bar_range_spec(b, t, n) == (
            round_div(b * n, t) as usize,
            (round_div((b + 1) * n, t) - 1) as usize,
        ),
{
    assert((b + 1) * n == b * n + n) by (nonlinear_arith);
    assert(b * n + t <= (b + 1) * n) by (nonlinear_arith)
        requires t <= n;
    lemma_round_div_step(b * n, t);
    lemma_round_div_monotone(b * n + t, (b + 1) * n, t);
    assert((b + 1) * n <= t * n) by (nonlinear_arith)
        requires b + 1 <= t;
    lemma_round_div_monotone((b + 1) * n, t * n, t);
    lemma_round_div_exact(n, t);
}

proof fn lemma_round_div_shift(x: nat, q: nat, t: nat)
    requires
        t > 0,
    ensures
        round_div(x + q * t, t) == round_div(x, t) + q,
    decreases q,
{
    if q > 0 {
        lemma_round_div_shift(x, (q - 1) as nat, t);
        assert(x + q * t == (x + (q - 1) * t) + t) by (nonlinear_arith)
            requires q > 0;
        lemma_round_div_step((x + (q - 1) * t) as nat, t);
    } else {
        assert(q * t == 0);
    }
}

proof fn lemma_bar_width(b: nat, t: nat, n: nat)
    requires
        b < t,
        t <= n,
        n <= isize::MAX,
    ensures
        ({
            let r = bar_range_spec(b, t, n);
            r.1 - r.0 + 1 == n / t || r.1 - r.0 + 1 == (n + t - 1) / (t as int)
        }),
{
    lemma_bar_inside(b, t, n);
    let ti = t as int;
    let ni = n as int;
    let q = ni / ti;
    let rem = ni % ti;
    lemma_fundamental_div_mod(ni, ti);
    let x = b * n;
    assert((b + 1) * n == x + rem + q * t) by (nonlinear_arith)
        requires ni == ti * q + rem, x == b * n, ni == n, ti == t;
    lemma_round_div_shift((x + rem) as nat, q as nat, t);
    lemma_round_div_monotone(x, (x + rem) as nat, t);
    lemma_round_div_monotone((x + rem) as nat, (x + t) as nat, t);
    lemma_round_div_step(x, t);
    if rem == 0 {
        assert(ni + ti - 1 == q * ti + (ti - 1)) by (nonlinear_arith)
            requires ni == ti * q + rem, rem == 0;
        lemma_fundamental_div_mod_converse_div(ni + ti - 1, ti, q, ti - 1);
    } else {
        assert(ni + ti - 1 == (q + 1) * ti + (rem - 1)) by (nonlinear_arith)
            requires ni == ti * q + rem;
        lemma_fundamental_div_mod_converse_div(ni + ti - 1, ti, q + 1, rem - 1);
    }
}

/// The bars of a show are as even as whole bins allow: when there are at
/// least as many bins as bars, every bar covers `n / t` bins rounded down or
/// rounded up.
pub proof fn lemma_bars_even(t: nat, n: nat)
    requires
        1 <= t <= n,
        n <= isize::MAX,
    ensures
        forall|b: nat| b < t ==> {
            let r = #[trigger] bar_range_spec(b, t, n);
            r.1 - r.0 + 1 == n / t || r.1 - r.0 + 1 == (n + t - 1) / (t as int)
        },
{
    assert forall|b: nat| b < t implies {
        let r = #[trigger] bar_range_spec(b, t, n);
        r.1 - r.0 + 1 == n / t || r.1 - r.0 + 1 == (n + t - 1) / (t as int)
    } by {
        lemma_bar_width(b, t, n);
    }
}

proof fn lemma_round_div_bounds(x: nat, t: nat)
    requires
        t > 0,
    ensures
        2 * t * round_div(x, t) <= 2 * x + t < 2 * t * (round_div(x, t) + 1),
{
    lemma_round_div_alt(x, t);
    let y = 2 * (x as int) + t;
    let d = 2 * (t as int);
    lemma_fundamental_div_mod(y, d);
    let q = y / d;
    assert(0 <= y % d < d);
    assert(d * q <= y < d * (q + 1)) by (nonlinear_arith)
        requires y == d * q + y % d, 0 <= y % d < d;
}

/// Bar boundaries are the nearest bins to the exact fractions `b * n / t`,
/// halves rounded up: the start `s` of bar `b` satisfies
/// `s - 1/2 <= b * n / t < s + 1/2`, and one past its end likewise for `b + 1`.
pub proof fn lemma_bar_bounds_nearest(b: nat, t: nat, n: nat)
    requires
        b < t,
        t <= n,
        n <= isize::MAX,
    ensures
        ({
            let (s, e) = bar_range_spec(b, t, n);
            &&& 2 * t * s <= 2 * b * n + t < 2 * t * (s + 1)
            &&& 2 * t * (e + 1) <= 2 * (b + 1) * n + t < 2 * t * (e + 2)
        }),
{
    lemma_bar_inside(b, t, n);
    lemma_round_div_bounds(b * n, t);
    lemma_round_div_bounds((b + 1) * n, t);
    assert(2 * (b * n) == 2 * b * n) by (nonlinear_arith);
    assert(2 * ((b + 1) * n) == 2 * (b + 1) * n) by (nonlinear_arith);
}

/// The bars of a show tile the spectrum: when there are at least as many bins
/// as bars, bar 0 starts at bin 0, the last bar ends at the last bin, every bar
/// covers at least one bin, and each bar starts right after the previous one ends.
pub proof fn lemma_bars_tile(t: nat, n: nat)
    requires
        1 <= t <= n,
        n <= isize::MAX,
    ensures
        bar_range_spec(0, t, n).0 == 0,
        bar_range_spec((t - 1) as nat, t, n).1 == n - 1,
        forall|b: nat| b < t ==> {
            let r = #[trigger] bar_range_spec(b, t, n);
            r.0 <= r.1 < n
        },
        forall|b: nat| b + 1 < t ==> (#[trigger] bar_range_spec(b + 1, t, n)).0 == bar_range_spec(b, t, n).1 + 1,
{
    assert forall|b: nat| b < t implies {
        let r = #[trigger] bar_range_spec(b, t, n);
        r.0 <= r.1 < n
    } by {
        lemma_bar_inside(b, t, n);
    }
    assert forall|b: nat| b + 1 < t implies (#[trigger] bar_range_spec(b + 1, t, n)).0 == bar_range_spec(b, t, n).1 + 1 by {
        lemma_bar_inside(b, t, n);
        lemma_bar_inside(b + 1, t, n);
    }
    lemma_bar_inside(0, t, n);
    assert(0 * n == 0);
    lemma_bar_inside((t - 1) as nat, t, n);
    assert(((t - 1) + 1) * n == t * n);
    lemma_round_div_exact(n, t);
}


/// The threshold of a QLC+ min/max pair (0-255): it stands for the single
/// audio threshold `((min + max) / 2) / 255` in [0,1].
pub fn threshold(min: u8, max: u8) -> (t: Threshold)
    ensures
        t == (Threshold { min, max }),
{
    Threshold { min, max }
}

/// Effect `e` is a scene toggle on `chans` that listens to bar `bar` of `total`
/// and triggers at the QLC+ range `min..=max`.
pub open spec fn is_scene_bar(e: Effect, chans: Map<u16, (u8, u8)>, bar: nat, total: nat, n: nat, min: u8, max: u8) -> bool {
    &&& e is SceneToggle
    &&& e->SceneToggle_0.dmx_channels@ == chans
    &&& e->SceneToggle_0.bins@ == seq![bar_range_spec(bar, total, n)]
    &&& e->SceneToggle_0.threshold == (Threshold { min, max })
}

/// Effect `e` links the level of bar `bar` of `total` to the channels `chans`,
/// over the full DMX range.
pub open spec fn is_link_bar(e: Effect, chans: Seq<u16>, bar: nat, total: nat, n: nat) -> bool {
    &&& e is Link
    &&& e->Link_0.dmx_channels@ == chans
    &&& e->Link_0.bins@ == seq![bar_range_spec(bar, total, n)]
    &&& e->Link_0.lower == 0
    &&& e->Link_0.upper == 255
}

/// A channel map with the one channel `ch`.
fn single_channel(ch: u16, on_off: (u8, u8)) -> (m: HashMap<u16, (u8, u8)>)
    ensures
        m@ == map![ch => on_off],
{
    let mut m: HashMap<u16, (u8, u8)> = HashMap::new();
    m.insert(ch, on_off);
    m
}

/// A scene toggle on `chans` that listens to bar `bar` of `total_bars`.
fn scene_toggle(chans: HashMap<u16, (u8, u8)>, bar: usize, total_bars: usize, n_bins: usize, threshold: Threshold) -> (e: Effect)
    ensures
        is_scene_bar(e, chans@, bar as nat, total_bars as nat, n_bins as nat, threshold.min, threshold.max),
{
    let mut bins: Vec<(usize, usize)> = Vec::new();
    bins.push(bar_range(bar, total_bars, n_bins));
    proof {
        assert(bins@ =~= seq![bar_range_spec(bar as nat, total_bars as nat, n_bins as nat)]);
    }
    Effect::SceneToggle(SceneToggleEffect { dmx_channels: chans, bins, threshold })
}

/// The one channel `ch`.
fn channel_list(ch: u16) -> (v: Vec<u16>)
    ensures
        v@ == seq![ch],
{
    let mut v: Vec<u16> = Vec::new();
    v.push(ch);
    proof {
        assert(v@ =~= seq![ch]);
    }
    v
}

/// A link effect from bar `bar` of `total_bars` to `chans`, over the full DMX range.
fn link(chans: Vec<u16>, bar: usize, total_bars: usize, n_bins: usize) -> (e: Effect)
    ensures
        is_link_bar(e, chans@, bar as nat, total_bars as nat, n_bins as nat),
{
    let mut bins: Vec<(usize, usize)> = Vec::new();
    bins.push(bar_range(bar, total_bars, n_bins));
    proof {
        assert(bins@ =~= seq![bar_range_spec(bar as nat, total_bars as nat, n_bins as nat)]);
    }
    Effect::Link(LinkEffect { dmx_channels: chans, bins, lower: 0, upper: 255 })
}

/// The "RB Jams" show: 10 bars over the spectrum.
pub fn rb_jams_suite(n_bins: usize) -> (suite: EffectSuite)
    ensures
        suite.effects@.len() == 10,
        is_scene_bar(suite.effects@[0], map![2u16 => (255u8, 0u8)], 0, 10, n_bins as nat, 178, 178),
        is_scene_bar(suite.effects@[1], map![16u16 => (255u8, 0u8)], 1, 10, n_bins as nat, 127, 127),
        is_scene_bar(suite.effects@[2], map![3u16 => (255u8, 0u8)], 2, 10, n_bins as nat, 127, 153),
        is_scene_bar(suite.effects@[3], map![17u16 => (255u8, 0u8)], 3, 10, n_bins as nat, 127, 127),
        is_link_bar(suite.effects@[4], seq![5u16], 4, 10, n_bins as nat),
        is_scene_bar(suite.effects@[5], map![13u16 => (3u8, 0u8)], 5, 10, n_bins as nat, 96, 96),
        is_scene_bar(suite.effects@[6], map![14u16 => (255u8, 0u8)], 6, 10, n_bins as nat, 51, 102),
        is_scene_bar(suite.effects@[7], map![1u16 => (255u8, 0u8)], 7, 10, n_bins as nat, 102, 102),
        is_scene_bar(suite.effects@[8], map![15u16 => (255u8, 0u8)], 8, 10, n_bins as nat, 127, 127),
        is_scene_bar(suite.effects@[9], map![13u16 => (255u8, 0u8)], 9, 10, n_bins as nat, 204, 204),
{
    let total_bars: usize = 10;
    let mut suite = EffectSuite::new();

    // Bar 0 -> Function 15 (Laser Red: ch2=255)
    suite.add(scene_toggle(single_channel(2, (255, 0)), 0, total_bars, n_bins, threshold(178, 178)));
    assert(is_scene_bar(suite.effects@[0], map![2u16 => (255u8, 0u8)], 0, 10, n_bins as nat, 178, 178));

    // Bar 1 -> Function 13 (Blue: ch16=255)
    suite.add(scene_toggle(single_channel(16, (255, 0)), 1, total_bars, n_bins, threshold(127, 127)));
    assert(is_scene_bar(suite.effects@[1], map![16u16 => (255u8, 0u8)], 1, 10, n_bins as nat, 127, 127));

    // Bar 2 -> Function 17 (Laser Blue: ch3=255)
    suite.add(scene_toggle(single_channel(3, (255, 0)), 2, total_bars, n_bins, threshold(127, 153)));
    assert(is_scene_bar(suite.effects@[2], map![3u16 => (255u8, 0u8)], 2, 10, n_bins as nat, 127, 153));

    // Bar 3 -> Function 14 (UV: ch17=255)
    suite.add(scene_toggle(single_channel(17, (255, 0)), 3, total_bars, n_bins, threshold(127, 127)));
    assert(is_scene_bar(suite.effects@[3], map![17u16 => (255u8, 0u8)], 3, 10, n_bins as nat, 127, 127));

    // Bar 4 -> Type=1, DMXChannels 0,5  (channel 5 level)
    suite.add(link(channel_list(5), 4, total_bars, n_bins));
    assert(is_link_bar(suite.effects@[4], seq![5u16], 4, 10, n_bins as nat));

    // Bar 5 -> Function 8 (StrobeMode Constant: ch13=3)
    suite.add(scene_toggle(single_channel(13, (3, 0)), 5, total_bars, n_bins, threshold(96, 96)));
    assert(is_scene_bar(suite.effects@[5], map![13u16 => (3u8, 0u8)], 5, 10, n_bins as nat, 96, 96));

    // Bar 6 -> Function 11 (Red: ch14=255)
    suite.add(scene_toggle(single_channel(14, (255, 0)), 6, total_bars, n_bins, threshold(51, 102)));
    assert(is_scene_bar(suite.effects@[6], map![14u16 => (255u8, 0u8)], 6, 10, n_bins as nat, 51, 102));

    // Bar 7 -> Function 16 (Laser Green: ch1=255)
    suite.add(scene_toggle(single_channel(1, (255, 0)), 7, total_bars, n_bins, threshold(102, 102)));
    assert(is_scene_bar(suite.effects@[7], map![1u16 => (255u8, 0u8)], 7, 10, n_bins as nat, 102, 102));

    // Bar 8 -> Function 12 (Green: ch15=255)
    suite.add(scene_toggle(single_channel(15, (255, 0)), 8, total_bars, n_bins, threshold(127, 127)));
    assert(is_scene_bar(suite.effects@[8], map![15u16 => (255u8, 0u8)], 8, 10, n_bins as nat, 127, 127));

    // Bar 9 -> Function 10 (Strobe Max: ch13=255)
    suite.add(scene_toggle(single_channel(13, (255, 0)), 9, total_bars, n_bins, threshold(204, 204)));
    assert(is_scene_bar(suite.effects@[9], map![13u16 => (255u8, 0u8)], 9, 10, n_bins as nat, 204, 204));

    suite
}

/// The "Solid Wash" show: 5 bars over the spectrum.
pub fn solid_wash_suite(n_bins: usize) -> (suite: EffectSuite)
    ensures
        suite.effects@.len() == 5,
        is_scene_bar(suite.effects@[0], map![14u16 => (255u8, 0u8)], 0, 5, n_bins as nat, 76, 76),
        is_scene_bar(suite.effects@[1], map![16u16 => (255u8, 0u8)], 1, 5, n_bins as nat, 51, 51),
        is_scene_bar(suite.effects@[2], map![1u16 => (255u8, 0u8), 2u16 => (255u8, 0u8), 3u16 => (255u8, 0u8), 4u16 => (255u8, 0u8)], 2, 5, n_bins as nat, 204, 229),
        is_scene_bar(suite.effects@[3], map![15u16 => (255u8, 0u8)], 3, 5, n_bins as nat, 178, 229),
        is_scene_bar(suite.effects@[4], map![17u16 => (255u8, 0u8)], 4, 5, n_bins as nat, 178, 229),
{
    let total_bars: usize = 5;
    let mut suite = EffectSuite::new();

    // #1 -> Func 11 (Red)
    suite.add(scene_toggle(single_channel(14, (255, 0)), 0, total_bars, n_bins, threshold(76, 76)));
    assert(is_scene_bar(suite.effects@[0], map![14u16 => (255u8, 0u8)], 0, 5, n_bins as nat, 76, 76));

    // #2 -> Func 13 (Blue)
    suite.add(scene_toggle(single_channel(16, (255, 0)), 1, total_bars, n_bins, threshold(51, 51)));
    assert(is_scene_bar(suite.effects@[1], map![16u16 => (255u8, 0u8)], 1, 5, n_bins as nat, 51, 51));

    // #3 -> Func 20 (All Lasers: 1,2,3,4)
    {
        let mut chans = single_channel(1, (255, 0));
        chans.insert(2, (255, 0));
        chans.insert(3, (255, 0));
        chans.insert(4, (255, 0));
        suite.add(scene_toggle(chans, 2, total_bars, n_bins, threshold(204, 229)));
    }
    assert(is_scene_bar(suite.effects@[2], map![1u16 => (255u8, 0u8), 2u16 => (255u8, 0u8), 3u16 => (255u8, 0u8), 4u16 => (255u8, 0u8)], 2, 5, n_bins as nat, 204, 229));

    // #4 -> Func 12 (Green)
    suite.add(scene_toggle(single_channel(15, (255, 0)), 3, total_bars, n_bins, threshold(178, 229)));
    assert(is_scene_bar(suite.effects@[3], map![15u16 => (255u8, 0u8)], 3, 5, n_bins as nat, 178, 229));

    // #5 -> Func 14 (UV)
    suite.add(scene_toggle(single_channel(17, (255, 0)), 4, total_bars, n_bins, threshold(178, 229)));
    assert(is_scene_bar(suite.effects@[4], map![17u16 => (255u8, 0u8)], 4, 5, n_bins as nat, 178, 229));

    suite
}

/// The "Gemstone" show: 8 bars over the spectrum.
pub fn gemstone_suite(n_bins: usize) -> (suite: EffectSuite)
    ensures
        suite.effects@.len() == 8,
        is_link_bar(suite.effects@[0], seq![5u16], 0, 8, n_bins as nat),
        is_scene_bar(suite.effects@[1], map![1u16 => (255u8, 0u8), 2u16 => (255u8, 0u8), 3u16 => (255u8, 0u8), 4u16 => (255u8, 0u8)], 1, 8, n_bins as nat, 102, 102),
        is_scene_bar(suite.effects@[2], map![17u16 => (255u8, 0u8)], 2, 8, n_bins as nat, 127, 127),
        is_scene_bar(suite.effects@[3], map![13u16 => (255u8, 0u8)], 3, 8, n_bins as nat, 204, 204),
        is_scene_bar(suite.effects@[4], map![9u16 => (255u8, 0u8)], 4, 8, n_bins as nat, 102, 127),
        is_scene_bar(suite.effects@[5], map![12u16 => (255u8, 0u8)], 5, 8, n_bins as nat, 102, 127),
        is_scene_bar(suite.effects@[6], map![11u16 => (255u8, 0u8)], 6, 8, n_bins as nat, 102, 124),
        is_scene_bar(suite.effects@[7], map![10u16 => (255u8, 0u8)], 7, 8, n_bins as nat, 102, 124),
{
    let total_bars: usize = 8;
    let mut suite = EffectSuite::new();

    // #1 -> Type1 DMX 0,5  (ch5)
    suite.add(link(channel_list(5), 0, total_bars, n_bins));
    assert(is_link_bar(suite.effects@[0], seq![5u16], 0, 8, n_bins as nat));

    // #2 -> Func 20 (All Lasers)
    {
        let mut chans = single_channel(1, (255, 0));
        chans.insert(2, (255, 0));
        chans.insert(3, (255, 0));
        chans.insert(4, (255, 0));
        suite.add(scene_toggle(chans, 1, total_bars, n_bins, threshold(102, 102)));
    }
    assert(is_scene_bar(suite.effects@[1], map![1u16 => (255u8, 0u8), 2u16 => (255u8, 0u8), 3u16 => (255u8, 0u8), 4u16 => (255u8, 0u8)], 1, 8, n_bins as nat, 102, 102));

    // #3 -> Func 14 (UV)
    suite.add(scene_toggle(single_channel(17, (255, 0)), 2, total_bars, n_bins, threshold(127, 127)));
    assert(is_scene_bar(suite.effects@[2], map![17u16 => (255u8, 0u8)], 2, 8, n_bins as nat, 127, 127));

    // #4 -> Func 10 (Strobe Max)
    suite.add(scene_toggle(single_channel(13, (255, 0)), 3, total_bars, n_bins, threshold(204, 204)));
    assert(is_scene_bar(suite.effects@[3], map![13u16 => (255u8, 0u8)], 3, 8, n_bins as nat, 204, 204));

    // #5 -> Func 22 (PanelWhite: ch9)
    suite.add(scene_toggle(single_channel(9, (255, 0)), 4, total_bars, n_bins, threshold(102, 127)));
    assert(is_scene_bar(suite.effects@[4], map![9u16 => (255u8, 0u8)], 4, 8, n_bins as nat, 102, 127));

    // #6 -> Func 29 (BingBlue: ch12)
    suite.add(scene_toggle(single_channel(12, (255, 0)), 5, total_bars, n_bins, threshold(102, 127)));
    assert(is_scene_bar(suite.effects@[5], map![12u16 => (255u8, 0u8)], 5, 8, n_bins as nat, 102, 127));

    // #7 -> Func 27 (BingGreen: ch11)
    suite.add(scene_toggle(single_channel(11, (255, 0)), 6, total_bars, n_bins, threshold(102, 124)));
    assert(is_scene_bar(suite.effects@[6], map![11u16 => (255u8, 0u8)], 6, 8, n_bins as nat, 102, 124));

    // #8 -> Func 26 (BingRed: ch10)
    suite.add(scene_toggle(single_channel(10, (255, 0)), 7, total_bars, n_bins, threshold(102, 124)));
    assert(is_scene_bar(suite.effects@[7], map![10u16 => (255u8, 0u8)], 7, 8, n_bins as nat, 102, 124));

    suite
}

/// The "Winter Glitter" show: 16 bars over the spectrum.
pub fn winter_glitter_suite(n_bins: usize) -> (suite: EffectSuite)
    ensures
        suite.effects@.len() == 16,
        forall|k: int| 0 <= k < 16 ==> is_scene_bar(
            #[trigger] suite.effects@[k],
            map![winter_glitter_channels()[k] => (255u8, 0u8)],
            k as nat,
            16,
            n_bins as nat,
            127,
            127,
        ),
        is_scene_bar(suite.effects@[0], map![12u16 => (255u8, 0u8)], 0, 16, n_bins as nat, 127, 127),
        is_scene_bar(suite.effects@[1], map![8u16 => (255u8, 0u8)], 1, 16, n_bins as nat, 127, 127),
        is_scene_bar(suite.effects@[2], map![16u16 => (255u8, 0u8)], 2, 16, n_bins as nat, 127, 127),
        is_scene_bar(suite.effects@[3], map![17u16 => (255u8, 0u8)], 3, 16, n_bins as nat, 127, 127),
        is_scene_bar(suite.effects@[4], map![7u16 => (255u8, 0u8)], 4, 16, n_bins as nat, 127, 127),
        is_scene_bar(suite.effects@[5], map![15u16 => (255u8, 0u8)], 5, 16, n_bins as nat, 127, 127),
        is_scene_bar(suite.effects@[6], map![11u16 => (255u8, 0u8)], 6, 16, n_bins as nat, 127, 127),
        is_scene_bar(suite.effects@[7], map![5u16 => (255u8, 0u8)], 7, 16, n_bins as nat, 127, 127),
        is_scene_bar(suite.effects@[8], map![3u16 => (255u8, 0u8)], 8, 16, n_bins as nat, 127, 127),
        is_scene_bar(suite.effects@[9], map![1u16 => (255u8, 0u8)], 9, 16, n_bins as nat, 127, 127),
        is_scene_bar(suite.effects@[10], map![2u16 => (255u8, 0u8)], 10, 16, n_bins as nat, 127, 127),
        is_scene_bar(suite.effects@[11], map![4u16 => (255u8, 0u8)], 11, 16, n_bins as nat, 127, 127),
        is_scene_bar(suite.effects@[12], map![14u16 => (255u8, 0u8)], 12, 16, n_bins as nat, 127, 127),
        is_scene_bar(suite.effects@[13], map![10u16 => (255u8, 0u8)], 13, 16, n_bins as nat, 127, 127),
        is_scene_bar(suite.effects@[14], map![6u16 => (255u8, 0u8)], 14, 16, n_bins as nat, 127, 127),
        is_scene_bar(suite.effects@[15], map![9u16 => (255u8, 0u8)], 15, 16, n_bins as nat, 127, 127),
{
    let total_bars: usize = 16;
    let mut suite = EffectSuite::new();

    // #1 -> Func 29 (BingBlue: ch12)
    suite.add(scene_toggle(single_channel(12, (255, 0)), 0, total_bars, n_bins, threshold(127, 127)));
    assert(is_scene_bar(suite.effects@[0], map![12u16 => (255u8, 0u8)], 0, 16, n_bins as nat, 127, 127));

    // #2 -> Func 25 (PanelBlue: ch8)
    suite.add(scene_toggle(single_channel(8, (255, 0)), 1, total_bars, n_bins, threshold(127, 127)));
    assert(is_scene_bar(suite.effects@[1], map![8u16 => (255u8, 0u8)], 1, 16, n_bins as nat, 127, 127));

    // #3 -> Func 13 (Blue: ch16)
    suite.add(scene_toggle(single_channel(16, (255, 0)), 2, total_bars, n_bins, threshold(127, 127)));
    assert(is_scene_bar(suite.effects@[2], map![16u16 => (255u8, 0u8)], 2, 16, n_bins as nat, 127, 127));

    // #4 -> Func 14 (UV)
    suite.add(scene_toggle(single_channel(17, (255, 0)), 3, total_bars, n_bins, threshold(127, 127)));
    assert(is_scene_bar(suite.effects@[3], map![17u16 => (255u8, 0u8)], 3, 16, n_bins as nat, 127, 127));

    // #5 -> Func 24 (PanelGreen: ch7)
    suite.add(scene_toggle(single_channel(7, (255, 0)), 4, total_bars, n_bins, threshold(127, 127)));
    assert(is_scene_bar(suite.effects@[4], map![7u16 => (255u8, 0u8)], 4, 16, n_bins as nat, 127, 127));

    // #6 -> Func 12 (Green: ch15)
    suite.add(scene_toggle(single_channel(15, (255, 0)), 5, total_bars, n_bins, threshold(127, 127)));
    assert(is_scene_bar(suite.effects@[5], map![15u16 => (255u8, 0u8)], 5, 16, n_bins as nat, 127, 127));

    // #7 -> Func 27 (BingGreen: ch11)
    suite.add(scene_toggle(single_channel(11, (255, 0)), 6, total_bars, n_bins, threshold(127, 127)));
    assert(is_scene_bar(suite.effects@[6], map![11u16 => (255u8, 0u8)], 6, 16, n_bins as nat, 127, 127));

    // #8 -> Func 21 (Motor: ch5)
    suite.add(scene_toggle(single_channel(5, (255, 0)), 7, total_bars, n_bins, threshold(127, 127)));
    assert(is_scene_bar(suite.effects@[7], map![5u16 => (255u8, 0u8)], 7, 16, n_bins as nat, 127, 127));

    // #9 -> Func 17 (Laser Blue: ch3)
    suite.add(scene_toggle(single_channel(3, (255, 0)), 8, total_bars, n_bins, threshold(127, 127)));
    assert(is_scene_bar(suite.effects@[8], map![3u16 => (255u8, 0u8)], 8, 16, n_bins as nat, 127, 127));

    // #10 -> Func 16 (Laser Green: ch1)
    suite.add(scene_toggle(single_channel(1, (255, 0)), 9, total_bars, n_bins, threshold(127, 127)));
    assert(is_scene_bar(suite.effects@[9], map![1u16 => (255u8, 0u8)], 9, 16, n_bins as nat, 127, 127));

    // #11 -> Func 15 (Laser Red: ch2)
    suite.add(scene_toggle(single_channel(2, (255, 0)), 10, total_bars, n_bins, threshold(127, 127)));
    assert(is_scene_bar(suite.effects@[10], map![2u16 => (255u8, 0u8)], 10, 16, n_bins as nat, 127, 127));

    // #12 -> Func 18 (Laser Red 2: ch4)
    suite.add(scene_toggle(single_channel(4, (255, 0)), 11, total_bars, n_bins, threshold(127, 127)));
    assert(is_scene_bar(suite.effects@[11], map![4u16 => (255u8, 0u8)], 11, 16, n_bins as nat, 127, 127));

    // #13 -> Func 11 (Red: ch14)
    suite.add(scene_toggle(single_channel(14, (255, 0)), 12, total_bars, n_bins, threshold(127, 127)));
    assert(is_scene_bar(suite.effects@[12], map![14u16 => (255u8, 0u8)], 12, 16, n_bins as nat, 127, 127));

    // #14 -> Func 26 (BingRed: ch10)
    suite.add(scene_toggle(single_channel(10, (255, 0)), 13, total_bars, n_bins, threshold(127, 127)));
    assert(is_scene_bar(suite.effects@[13], map![10u16 => (255u8, 0u8)], 13, 16, n_bins as nat, 127, 127));

    // #15 -> Func 23 (PanelRed: ch6)
    suite.add(scene_toggle(single_channel(6, (255, 0)), 14, total_bars, n_bins, threshold(127, 127)));
    assert(is_scene_bar(suite.effects@[14], map![6u16 => (255u8, 0u8)], 14, 16, n_bins as nat, 127, 127));

    // #16 -> Func 22 (PanelWhite: ch9)
    suite.add(scene_toggle(single_channel(9, (255, 0)), 15, total_bars, n_bins, threshold(127, 127)));
    assert(is_scene_bar(suite.effects@[15], map![9u16 => (255u8, 0u8)], 15, 16, n_bins as nat, 127, 127));

    assert forall|k: int| 0 <= k < 16 implies is_scene_bar(
        #[trigger] suite.effects@[k],
        map![winter_glitter_channels()[k] => (255u8, 0u8)],
        k as nat,
        16,
        n_bins as nat,
        127,
        127,
    ) by {
        if k == 0 {} else if k == 1 {} else if k == 2 {} else if k == 3 {} else if k == 4 {} else if k == 5 {} else if k == 6 {} else if k == 7 {} else if k == 8 {} else if k == 9 {} else if k == 10 {} else if k == 11 {} else if k == 12 {} else if k == 13 {} else if k == 14 {} else if k == 15 {}
    }
    suite
}

/// The "Laser Focus" show: 5 bars over the spectrum.
pub fn laser_focus_suite(n_bins: usize) -> (suite: EffectSuite)
    ensures
        suite.effects@.len() == 5,
        is_scene_bar(suite.effects@[0], map![2u16 => (255u8, 0u8)], 0, 5, n_bins as nat, 140, 191),
        is_scene_bar(suite.effects@[1], map![4u16 => (255u8, 0u8)], 1, 5, n_bins as nat, 89, 140),
        is_scene_bar(suite.effects@[2], map![1u16 => (255u8, 0u8)], 2, 5, n_bins as nat, 63, 96),
        is_scene_bar(suite.effects@[3], map![3u16 => (255u8, 0u8)], 3, 5, n_bins as nat, 51, 76),
        is_link_bar(suite.effects@[4], seq![5u16], 4, 5, n_bins as nat),
{
    let total_bars: usize = 5;
    let mut suite = EffectSuite::new();

    // #1 -> Func 15 (Laser Red)
    suite.add(scene_toggle(single_channel(2, (255, 0)), 0, total_bars, n_bins, threshold(140, 191)));
    assert(is_scene_bar(suite.effects@[0], map![2u16 => (255u8, 0u8)], 0, 5, n_bins as nat, 140, 191));

    // #2 -> Func 18 (Laser Red 2)
    suite.add(scene_toggle(single_channel(4, (255, 0)), 1, total_bars, n_bins, threshold(89, 140)));
    assert(is_scene_bar(suite.effects@[1], map![4u16 => (255u8, 0u8)], 1, 5, n_bins as nat, 89, 140));

    // #3 -> Func 16 (Laser Green)
    suite.add(scene_toggle(single_channel(1, (255, 0)), 2, total_bars, n_bins, threshold(63, 96)));
    assert(is_scene_bar(suite.effects@[2], map![1u16 => (255u8, 0u8)], 2, 5, n_bins as nat, 63, 96));

    // #4 -> Func 17 (Laser Blue)
    suite.add(scene_toggle(single_channel(3, (255, 0)), 3, total_bars, n_bins, threshold(51, 76)));
    assert(is_scene_bar(suite.effects@[3], map![3u16 => (255u8, 0u8)], 3, 5, n_bins as nat, 51, 76));

    // #5 -> Type1 DMX 0,5  (motor ch5)
    suite.add(link(channel_list(5), 4, total_bars, n_bins));
    assert(is_link_bar(suite.effects@[4], seq![5u16], 4, 5, n_bins as nat));

    suite
}

/// The "Motor Function" show: 8 bars over the spectrum.
pub fn motor_function_suite(n_bins: usize) -> (suite: EffectSuite)
    ensures
        suite.effects@.len() == 8,
        is_scene_bar(suite.effects@[0], map![5u16 => (255u8, 0u8)], 0, 8, n_bins as nat, 102, 102),
        is_scene_bar(suite.effects@[1], map![13u16 => (255u8, 0u8)], 1, 8, n_bins as nat, 226, 242),
        is_scene_bar(suite.effects@[2], map![13u16 => (3u8, 0u8)], 2, 8, n_bins as nat, 127, 226),
        is_scene_bar(suite.effects@[3], map![17u16 => (255u8, 0u8)], 3, 8, n_bins as nat, 102, 127),
        is_scene_bar(suite.effects@[4], map![9u16 => (255u8, 0u8)], 4, 8, n_bins as nat, 76, 127),
        is_scene_bar(suite.effects@[5], map![15u16 => (255u8, 0u8)], 5, 8, n_bins as nat, 51, 127),
        is_scene_bar(suite.effects@[6], map![13u16 => (255u8, 0u8)], 6, 8, n_bins as nat, 178, 204),
        is_scene_bar(suite.effects@[7], map![11u16 => (255u8, 0u8)], 7, 8, n_bins as nat, 51, 76),
{
    let total_bars: usize = 8;
    let mut suite = EffectSuite::new();

    // #1 -> Func 21 (Motor ch5)
    suite.add(scene_toggle(single_channel(5, (255, 0)), 0, total_bars, n_bins, threshold(102, 102)));
    assert(is_scene_bar(suite.effects@[0], map![5u16 => (255u8, 0u8)], 0, 8, n_bins as nat, 102, 102));

    // #2 -> Func 10 (Strobe Max ch13)
    suite.add(scene_toggle(single_channel(13, (255, 0)), 1, total_bars, n_bins, threshold(226, 242)));
    assert(is_scene_bar(suite.effects@[1], map![13u16 => (255u8, 0u8)], 1, 8, n_bins as nat, 226, 242));

    // #3 -> Func 8 (StrobeMode Constant: ch13=3)
    suite.add(scene_toggle(single_channel(13, (3, 0)), 2, total_bars, n_bins, threshold(127, 226)));
    assert(is_scene_bar(suite.effects@[2], map![13u16 => (3u8, 0u8)], 2, 8, n_bins as nat, 127, 226));

    // #4 -> Func 14 (UV)
    suite.add(scene_toggle(single_channel(17, (255, 0)), 3, total_bars, n_bins, threshold(102, 127)));
    assert(is_scene_bar(suite.effects@[3], map![17u16 => (255u8, 0u8)], 3, 8, n_bins as nat, 102, 127));

    // #5 -> Func 22 (PanelWhite ch9)
    suite.add(scene_toggle(single_channel(9, (255, 0)), 4, total_bars, n_bins, threshold(76, 127)));
    assert(is_scene_bar(suite.effects@[4], map![9u16 => (255u8, 0u8)], 4, 8, n_bins as nat, 76, 127));

    // #6 -> Func 12 (Green ch15)
    suite.add(scene_toggle(single_channel(15, (255, 0)), 5, total_bars, n_bins, threshold(51, 127)));
    assert(is_scene_bar(suite.effects@[5], map![15u16 => (255u8, 0u8)], 5, 8, n_bins as nat, 51, 127));

    // #7 -> Func 10 (Strobe Max) again
    suite.add(scene_toggle(single_channel(13, (255, 0)), 6, total_bars, n_bins, threshold(178, 204)));
    assert(is_scene_bar(suite.effects@[6], map![13u16 => (255u8, 0u8)], 6, 8, n_bins as nat, 178, 204));

    // #8 -> Func 27 (BingGreen ch11)
    suite.add(scene_toggle(single_channel(11, (255, 0)), 7, total_bars, n_bins, threshold(51, 76)));
    assert(is_scene_bar(suite.effects@[7], map![11u16 => (255u8, 0u8)], 7, 8, n_bins as nat, 51, 76));

    suite
}

/// The "True Lights" show: 9 bars over the spectrum.
pub fn true_lights_suite(n_bins: usize) -> (suite: EffectSuite)
    ensures
        suite.effects@.len() == 9,
        is_link_bar(suite.effects@[0], seq![5u16], 0, 9, n_bins as nat),
        is_link_bar(suite.effects@[1], seq![7u16], 1, 9, n_bins as nat),
        is_link_bar(suite.effects@[2], seq![8u16], 2, 9, n_bins as nat),
        is_link_bar(suite.effects@[3], seq![9u16], 3, 9, n_bins as nat),
        is_link_bar(suite.effects@[4], seq![10u16], 4, 9, n_bins as nat),
        is_link_bar(suite.effects@[5], seq![11u16], 5, 9, n_bins as nat),
        is_link_bar(suite.effects@[6], seq![12u16], 6, 9, n_bins as nat),
        is_link_bar(suite.effects@[7], seq![6u16], 7, 9, n_bins as nat),
        is_scene_bar(suite.effects@[8], map![1u16 => (255u8, 0u8), 2u16 => (255u8, 0u8), 3u16 => (255u8, 0u8), 4u16 => (255u8, 0u8)], 8, 9, n_bins as nat, 51, 204),
{
    let total_bars: usize = 9;
    let mut suite = EffectSuite::new();

    // Bars 0-7: Type1 DMX to various channels
    let dmx_channels: Vec<u16> = vec![5, 7, 8, 9, 10, 11, 12, 6];
    let mut i: usize = 0;
    while i < dmx_channels.len()
        invariant
            dmx_channels@ == seq![5u16, 7u16, 8u16, 9u16, 10u16, 11u16, 12u16, 6u16],
            i <= dmx_channels.len(),
            total_bars == 9,
            suite.effects@.len() == i,
            forall|j: int| 0 <= j < i ==> is_link_bar(#[trigger] suite.effects@[j], seq![dmx_channels@[j]], j as nat, total_bars as nat, n_bins as nat),
        decreases dmx_channels.len() - i,
    {
        let ch = dmx_channels[i];
        suite.add(link(channel_list(ch), i, total_bars, n_bins));
        i = i + 1;
    }
    assert(is_link_bar(suite.effects@[0], seq![5u16], 0, 9, n_bins as nat));
    assert(is_link_bar(suite.effects@[1], seq![7u16], 1, 9, n_bins as nat));
    assert(is_link_bar(suite.effects@[2], seq![8u16], 2, 9, n_bins as nat));
    assert(is_link_bar(suite.effects@[3], seq![9u16], 3, 9, n_bins as nat));
    assert(is_link_bar(suite.effects@[4], seq![10u16], 4, 9, n_bins as nat));
    assert(is_link_bar(suite.effects@[5], seq![11u16], 5, 9, n_bins as nat));
    assert(is_link_bar(suite.effects@[6], seq![12u16], 6, 9, n_bins as nat));
    assert(is_link_bar(suite.effects@[7], seq![6u16], 7, 9, n_bins as nat));

    // Bar 8 -> Func 20 (All Lasers)
    {
        let mut chans = single_channel(1, (255, 0));
        chans.insert(2, (255, 0));
        chans.insert(3, (255, 0));
        chans.insert(4, (255, 0));
        suite.add(scene_toggle(chans, 8, total_bars, n_bins, threshold(51, 204)));
    }
    assert(is_scene_bar(suite.effects@[8], map![1u16 => (255u8, 0u8), 2u16 => (255u8, 0u8), 3u16 => (255u8, 0u8), 4u16 => (255u8, 0u8)], 8, 9, n_bins as nat, 51, 204));

    suite
}

/// The "Purp Groovin" show: 7 bars over the spectrum.
pub fn purp_groovin_suite(n_bins: usize) -> (suite: EffectSuite)
    ensures
        suite.effects@.len() == 7,
        is_scene_bar(suite.effects@[0], map![13u16 => (3u8, 0u8)], 0, 7, n_bins as nat, 12, 12),
        is_scene_bar(suite.effects@[1], map![17u16 => (255u8, 0u8)], 1, 7, n_bins as nat, 102, 153),
        is_scene_bar(suite.effects@[2], map![14u16 => (255u8, 0u8)], 2, 7, n_bins as nat, 76, 127),
        is_link_bar(suite.effects@[3], seq![5u16], 3, 7, n_bins as nat),
        is_scene_bar(suite.effects@[4], map![14u16 => (255u8, 0u8)], 4, 7, n_bins as nat, 153, 178),
        is_scene_bar(suite.effects@[5], map![3u16 => (255u8, 0u8)], 5, 7, n_bins as nat, 12, 12),
        is_scene_bar(suite.effects@[6], map![4u16 => (255u8, 0u8)], 6, 7, n_bins as nat, 12, 12),
{
    let total_bars: usize = 7;
    let mut suite = EffectSuite::new();

    // #1 -> Func 8 (StrobeMode Constant)
    suite.add(scene_toggle(single_channel(13, (3, 0)), 0, total_bars, n_bins, threshold(12, 12)));
    assert(is_scene_bar(suite.effects@[0], map![13u16 => (3u8, 0u8)], 0, 7, n_bins as nat, 12, 12));

    // #2 -> Func 14 (UV)
    suite.add(scene_toggle(single_channel(17, (255, 0)), 1, total_bars, n_bins, threshold(102, 153)));
    assert(is_scene_bar(suite.effects@[1], map![17u16 => (255u8, 0u8)], 1, 7, n_bins as nat, 102, 153));

    // #3 -> Func 11 (Red)
    suite.add(scene_toggle(single_channel(14, (255, 0)), 2, total_bars, n_bins, threshold(76, 127)));
    assert(is_scene_bar(suite.effects@[2], map![14u16 => (255u8, 0u8)], 2, 7, n_bins as nat, 76, 127));

    // #4 -> Type3 -> slider widget 29 -> DMX ch5 (treat as LinkEffect)
    suite.add(link(channel_list(5), 3, total_bars, n_bins));
    assert(is_link_bar(suite.effects@[3], seq![5u16], 3, 7, n_bins as nat));

    // #5 -> Func 11 (Red) again
    suite.add(scene_toggle(single_channel(14, (255, 0)), 4, total_bars, n_bins, threshold(153, 178)));
    assert(is_scene_bar(suite.effects@[4], map![14u16 => (255u8, 0u8)], 4, 7, n_bins as nat, 153, 178));

    // #6 -> Func 17 (Laser Blue)
    suite.add(scene_toggle(single_channel(3, (255, 0)), 5, total_bars, n_bins, threshold(12, 12)));
    assert(is_scene_bar(suite.effects@[5], map![3u16 => (255u8, 0u8)], 5, 7, n_bins as nat, 12, 12));

    // #7 -> Func 18 (Laser Red 2)
    suite.add(scene_toggle(single_channel(4, (255, 0)), 6, total_bars, n_bins, threshold(12, 12)));
    assert(is_scene_bar(suite.effects@[6], map![4u16 => (255u8, 0u8)], 6, 7, n_bins as nat, 12, 12));

    suite
}

/// The "Angel Pallet" show: 5 bars over the spectrum.
pub fn angel_pallet_suite(n_bins: usize) -> (suite: EffectSuite)
    ensures
        suite.effects@.len() == 4,
        is_link_bar(suite.effects@[0], seq![5u16], 0, 5, n_bins as nat),
        is_scene_bar(suite.effects@[1], map![11u16 => (255u8, 0u8)], 2, 5, n_bins as nat, 178, 204),
        is_scene_bar(suite.effects@[2], map![7u16 => (255u8, 0u8)], 3, 5, n_bins as nat, 178, 204),
        is_link_bar(suite.effects@[3], seq![9u16], 4, 5, n_bins as nat),
{
    let total_bars: usize = 5;
    let mut suite = EffectSuite::new();

    // #1 -> Type1 DMX 0,5 (ch5)
    suite.add(link(channel_list(5), 0, total_bars, n_bins));
    assert(is_link_bar(suite.effects@[0], seq![5u16], 0, 5, n_bins as nat));

    // Index=2 -> Func 27 (BingGreen ch11)
    suite.add(scene_toggle(single_channel(11, (255, 0)), 2, total_bars, n_bins, threshold(178, 204)));
    assert(is_scene_bar(suite.effects@[1], map![11u16 => (255u8, 0u8)], 2, 5, n_bins as nat, 178, 204));

    // Index=3 -> Func 24 (PanelGreen ch7)
    suite.add(scene_toggle(single_channel(7, (255, 0)), 3, total_bars, n_bins, threshold(178, 204)));
    assert(is_scene_bar(suite.effects@[2], map![7u16 => (255u8, 0u8)], 3, 5, n_bins as nat, 178, 204));

    // Index=4 -> Type1 DMX 0,9 (ch9)
    suite.add(link(channel_list(9), 4, total_bars, n_bins));
    assert(is_link_bar(suite.effects@[3], seq![9u16], 4, 5, n_bins as nat));

    suite
}

/// The "RedRoom" show: 5 bars over the spectrum.
pub fn redroom_suite(n_bins: usize) -> (suite: EffectSuite)
    ensures
        suite.effects@.len() == 5,
        is_scene_bar(suite.effects@[0], map![2u16 => (255u8, 0u8)], 0, 5, n_bins as nat, 51, 127),
        is_scene_bar(suite.effects@[1], map![14u16 => (255u8, 0u8)], 1, 5, n_bins as nat, 51, 204),
        is_scene_bar(suite.effects@[2], map![10u16 => (255u8, 0u8)], 2, 5, n_bins as nat, 178, 204),
        is_scene_bar(suite.effects@[3], map![4u16 => (255u8, 0u8)], 3, 5, n_bins as nat, 102, 127),
        is_scene_bar(suite.effects@[4], map![6u16 => (255u8, 0u8)], 4, 5, n_bins as nat, 178, 178),
{
    let total_bars: usize = 5;
    let mut suite = EffectSuite::new();

    // #1 -> Func 15 (Laser Red)
    suite.add(scene_toggle(single_channel(2, (255, 0)), 0, total_bars, n_bins, threshold(51, 127)));
    assert(is_scene_bar(suite.effects@[0], map![2u16 => (255u8, 0u8)], 0, 5, n_bins as nat, 51, 127));

    // #2 -> Func 11 (Red)
    suite.add(scene_toggle(single_channel(14, (255, 0)), 1, total_bars, n_bins, threshold(51, 204)));
    assert(is_scene_bar(suite.effects@[1], map![14u16 => (255u8, 0u8)], 1, 5, n_bins as nat, 51, 204));

    // #3 -> Func 26 (BingRed ch10)
    suite.add(scene_toggle(single_channel(10, (255, 0)), 2, total_bars, n_bins, threshold(178, 204)));
    assert(is_scene_bar(suite.effects@[2], map![10u16 => (255u8, 0u8)], 2, 5, n_bins as nat, 178, 204));

    // #4 -> Func 18 (Laser Red2 ch4)
    suite.add(scene_toggle(single_channel(4, (255, 0)), 3, total_bars, n_bins, threshold(102, 127)));
    assert(is_scene_bar(suite.effects@[3], map![4u16 => (255u8, 0u8)], 3, 5, n_bins as nat, 102, 127));

    // #5 -> Func 23 (PanelRed ch6)
    suite.add(scene_toggle(single_channel(6, (255, 0)), 4, total_bars, n_bins, threshold(178, 178)));
    assert(is_scene_bar(suite.effects@[4], map![6u16 => (255u8, 0u8)], 4, 5, n_bins as nat, 178, 178));

    suite
}

/// The "blue business" show: 6 bars over the spectrum.
pub fn blue_business_suite(n_bins: usize) -> (suite: EffectSuite)
    ensures
        suite.effects@.len() == 6,
        is_scene_bar(suite.effects@[0], map![3u16 => (255u8, 0u8)], 0, 6, n_bins as nat, 102, 153),
        is_link_bar(suite.effects@[1], seq![5u16], 1, 6, n_bins as nat),
        is_scene_bar(suite.effects@[2], map![16u16 => (255u8, 0u8)], 2, 6, n_bins as nat, 127, 204),
        is_scene_bar(suite.effects@[3], map![8u16 => (255u8, 0u8)], 3, 6, n_bins as nat, 153, 204),
        is_scene_bar(suite.effects@[4], map![12u16 => (255u8, 0u8)], 4, 6, n_bins as nat, 153, 204),
        is_scene_bar(suite.effects@[5], map![17u16 => (255u8, 0u8)], 5, 6, n_bins as nat, 178, 204),
{
    let total_bars: usize = 6;
    let mut suite = EffectSuite::new();

    // #1 -> Func 17 (Laser Blue)
    suite.add(scene_toggle(single_channel(3, (255, 0)), 0, total_bars, n_bins, threshold(102, 153)));
    assert(is_scene_bar(suite.effects@[0], map![3u16 => (255u8, 0u8)], 0, 6, n_bins as nat, 102, 153));

    // #2 -> Type3 -> slider 38 -> DMX ch5 (treat as LinkEffect)
    suite.add(link(channel_list(5), 1, total_bars, n_bins));
    assert(is_link_bar(suite.effects@[1], seq![5u16], 1, 6, n_bins as nat));

    // #3 -> Func 13 (Blue)
    suite.add(scene_toggle(single_channel(16, (255, 0)), 2, total_bars, n_bins, threshold(127, 204)));
    assert(is_scene_bar(suite.effects@[2], map![16u16 => (255u8, 0u8)], 2, 6, n_bins as nat, 127, 204));

    // #4 -> Func 25 (PanelBlue ch8)
    suite.add(scene_toggle(single_channel(8, (255, 0)), 3, total_bars, n_bins, threshold(153, 204)));
    assert(is_scene_bar(suite.effects@[3], map![8u16 => (255u8, 0u8)], 3, 6, n_bins as nat, 153, 204));

    // #5 -> Func 29 (BingBlue ch12)
    suite.add(scene_toggle(single_channel(12, (255, 0)), 4, total_bars, n_bins, threshold(153, 204)));
    assert(is_scene_bar(suite.effects@[4], map![12u16 => (255u8, 0u8)], 4, 6, n_bins as nat, 153, 204));

    // #6 -> Func 14 (UV)
    suite.add(scene_toggle(single_channel(17, (255, 0)), 5, total_bars, n_bins, threshold(178, 204)));
    assert(is_scene_bar(suite.effects@[5], map![17u16 => (255u8, 0u8)], 5, 6, n_bins as nat, 178, 204));

    suite
}


/// The channel of each bar of the "Winter Glitter" show.
pub open spec fn winter_glitter_channels() -> Seq<u16> {
    seq![12u16, 8, 16, 17, 7, 15, 11, 5, 3, 1, 2, 4, 14, 10, 6, 9]
}

/// The level a Winter Glitter bar shows: full when its gate is on.
pub open spec fn gate_level(s: Signal) -> u8 {
    if s == Signal::Gate(true) { 255 } else { 0 }
}

/// The bar of the "Winter Glitter" show that drives channel `c`.
spec fn winter_glitter_bar(c: u16) -> int {
    match c {
        12 => 0,
        8 => 1,
        16 => 2,
        17 => 3,
        7 => 4,
        15 => 5,
        11 => 6,
        5 => 7,
        3 => 8,
        1 => 9,
        2 => 10,
        4 => 11,
        14 => 12,
        10 => 13,
        6 => 14,
        9 => 15,
        _ => -1,
    }
}

proof fn lemma_winter_channels_distinct()
    ensures
        forall|k: int| 0 <= k < 16 ==> winter_glitter_bar(#[trigger] winter_glitter_channels()[k]) == k,
        forall|i: int, j: int| 0 <= i < 16 && 0 <= j < 16 && i != j ==>
            #[trigger] winter_glitter_channels()[i] != #[trigger] winter_glitter_channels()[j],
{
    assert forall|k: int| 0 <= k < 16 implies winter_glitter_bar(#[trigger] winter_glitter_channels()[k]) == k by {
        if k == 0 {} else if k == 1 {} else if k == 2 {} else if k == 3 {} else if k == 4 {} else if k == 5 {} else if k == 6 {} else if k == 7 {} else if k == 8 {} else if k == 9 {} else if k == 10 {} else if k == 11 {} else if k == 12 {} else if k == 13 {} else if k == 14 {} else if k == 15 {}
    }
}

proof fn lemma_winter_prefix(effects: Seq<Effect>, signals: Seq<Signal>, i: nat)
    requires
        i <= 16,
        effects.len() == 16,
        signals.len() == 16,
        forall|k: int| 0 <= k < 16 ==> #[trigger] channel_writes(effects[k], signals[k])
            == map![winter_glitter_channels()[k] => gate_level(signals[k])],
    ensures
        frame_in_order(effects, signals, i).dom() == winter_glitter_channels().take(i as int).to_set(),
        forall|k: int| 0 <= k < i ==> frame_in_order(effects, signals, i)[#[trigger] winter_glitter_channels()[k]]
            == gate_level(signals[k]),
    decreases i,
{
    broadcast use vstd::seq_lib::group_seq_properties;
    let ch = winter_glitter_channels();
    lemma_winter_channels_distinct();
    if i > 0 {
        lemma_winter_prefix(effects, signals, (i - 1) as nat);
        let prev = frame_in_order(effects, signals, (i - 1) as nat);
        let w = channel_writes(effects[i - 1], signals[i - 1]);
        assert(w == map![ch[i - 1] => gate_level(signals[i - 1])]);
        assert(frame_in_order(effects, signals, i) == prev.union_prefer_right(w));
        assert(ch.take(i as int) =~= ch.take(i - 1).push(ch[i - 1]));
        assert forall|x: u16| frame_in_order(effects, signals, i).dom().contains(x) <==> ch.take(i as int).to_set().contains(x) by {
            assert(ch.take(i as int).to_set().contains(x) <==> ch.take(i as int).contains(x));
            assert(ch.take(i - 1).to_set().contains(x) <==> ch.take(i - 1).contains(x));
        }
        assert(frame_in_order(effects, signals, i).dom() =~= ch.take(i as int).to_set());
        assert forall|k: int| 0 <= k < i implies frame_in_order(effects, signals, i)[#[trigger] ch[k]]
            == gate_level(signals[k]) by {
            if k < i - 1 {
                assert(ch[k] != ch[i - 1]);
            }
        }
    } else {
        assert(ch.take(0).to_set() =~= Set::<u16>::empty());
        assert(frame_in_order(effects, signals, 0).dom() =~= Set::<u16>::empty());
    }
}

/// Whatever the spectrum, the "Winter Glitter" frame holds exactly the
/// sixteen channels of its bars, and the channel of each bar is at 255 when
/// the bar's gate is on and at 0 when it is off.
pub proof fn lemma_winter_glitter_frame(effects: Seq<Effect>, signals: Seq<Signal>, n: nat)
    requires
        effects.len() == 16,
        forall|k: int| 0 <= k < 16 ==> is_scene_bar(
            #[trigger] effects[k],
            map![winter_glitter_channels()[k] => (255u8, 0u8)],
            k as nat,
            16,
            n,
            127,
            127,
        ),
        signals_fit(effects, signals),
    ensures
        frame_of(effects, signals, 16).dom() == winter_glitter_channels().to_set(),
        forall|k: int| 0 <= k < 16 ==> frame_of(effects, signals, 16)[#[trigger] winter_glitter_channels()[k]]
            == gate_level(signals[k]),
{
    let ch = winter_glitter_channels();
    lemma_winter_channels_distinct();
    assert forall|k: int| 0 <= k < 16 implies #[trigger] channel_writes(effects[k], signals[k])
        == map![ch[k] => gate_level(signals[k])] by {
        assert(is_scene_bar(effects[k], map![ch[k] => (255u8, 0u8)], k as nat, 16, n, 127, 127));
        assert(signals[k] is Gate);
        assert(channel_writes(effects[k], signals[k]) =~= map![ch[k] => gate_level(signals[k])]);
    }
    assert forall|i: int, j: int| 0 <= i < j < 16 implies (#[trigger] channel_writes(effects[i], signals[i])).dom().disjoint(
        #[trigger] channel_writes(effects[j], signals[j]).dom()) by {
        assert(ch[i] != ch[j]);
    }
    lemma_disjoint_effects_compose(effects, signals, 16);
    lemma_winter_prefix(effects, signals, 16);
    assert(ch.take(16) =~= ch);
}

} // verus!
