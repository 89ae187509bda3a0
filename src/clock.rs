//! Sample-counting clocks: the metronome and the trigger-to-gate stretcher.
use vstd::prelude::*;

use crate::pattern::{next_cursor, resolve};

verus! {

/// A metronome that counts samples and ticks once every `period` samples.
#[derive(Debug, Clone, Copy, PartialEq, Eq, Structural)]
pub struct Metro {
    /// The sample at which the latest tick fired.
    pub last_time: u64,
    /// The first sample at which the next tick may fire.
    pub next_time: u64,
    /// The number of samples seen since construction or the latest reset.
    pub time: u64,
    /// Samples between two ticks.
    pub period: u64,
}

/// The tick period in whole samples for a tempo of `bpm` beats per minute
/// and `tpb` ticks per beat: `60 * sample_rate / (bpm * tpb)`, rounded up
/// (a tick fires on the first whole sample at or after its instant).
pub open spec fn tempo_period(bpm: nat, tpb: nat, sample_rate: nat) -> nat {
    let num = 60 * sample_rate;
    let den = bpm * tpb;
    ((num + den - 1) / den as int) as nat
}

impl Metro {
    /// A metronome at its first sample that ticks every `period` samples.
    pub fn new(period: u64) -> (m: Metro)
        ensures
            m == (Metro { last_time: 0, next_time: 0, time: 0, period }),
    {
        Metro { last_time: 0, next_time: 0, time: 0, period }
    }

    /// A metronome for a tempo given in beats per minute and ticks per beat,
    /// at `sample_rate` samples per second. Zero ticks per beat is a
    /// configuration fault. A tempo of zero beats per minute never comes
    /// round: its period is the longest there is.
    pub fn from_tempo_and_ticks(bpm: u32, tpb: u32, sample_rate: u32) -> (m: Metro)
        requires
            tpb > 0,
        ensures
            bpm > 0 ==> m == Metro::new_spec(
                tempo_period(bpm as nat, tpb as nat, sample_rate as nat) as u64,
            ),
            bpm > 0 ==> m.period == tempo_period(bpm as nat, tpb as nat, sample_rate as nat),
            bpm == 0 ==> m == Metro::new_spec(u64::MAX),
    {
        if bpm == 0 {
            return Metro::new(u64::MAX);
        }
        let num: u128 = 60 * sample_rate as u128;
        assert(bpm as u128 * tpb as u128 <= 0xffff_ffff_ffff_ffffu128) by (nonlinear_arith)
            requires
                bpm <= 0xffff_ffffu32,
                tpb <= 0xffff_ffffu32,
        ;
        let den: u128 = bpm as u128 * tpb as u128;
        assert(1 <= den <= 0xffff_ffff_ffff_ffffu128) by (nonlinear_arith)
            requires
                1 <= bpm <= 0xffff_ffffu32,
                1 <= tpb <= 0xffff_ffffu32,
                den == bpm * tpb,
        ;
        let q = (num + (den - 1)) / den;
        assert(q <= num) by (nonlinear_arith)
            requires
                den >= 1,
                num >= 0,
                q as int == (num as int + den as int - 1) / (den as int),
        ;
        let period = q as u64;
        Metro::new(period)
    }

    pub open spec fn new_spec(period: u64) -> Metro {
        Metro { last_time: 0, next_time: 0, time: 0, period }
    }
}

/// The metronome's state after one sample, and whether that sample ticks:
/// after an optional reset to zero, a tick fires when the sample count has
/// reached the scheduled time, and schedules the next one a period later.
pub open spec fn metro_step(m: Metro, reset: bool) -> (Metro, bool) {
    let m0 = if reset {
        Metro { last_time: 0, next_time: 0, time: 0, ..m }
    } else {
        m
    };
    if m0.time >= m0.next_time {
        (
            Metro {
                last_time: m0.time,
                next_time: sat_add(m0.time, m0.period),
                time: sat_add(m0.time, 1),
                ..m0
            },
            true,
        )
    } else {
        (Metro { time: sat_add(m0.time, 1), ..m0 }, false)
    }
}

/// `a + b`, held at the largest `u64`.
pub open spec fn sat_add(a: u64, b: u64) -> u64 {
    if a + b > u64::MAX {
        u64::MAX
    } else {
        (a + b) as u64
    }
}

/// One sample of the metronome: true exactly on tick samples.
pub fn metro(m: &mut Metro, reset: bool) -> (out: bool)
    ensures
        (*final(m), out) == metro_step(*old(m), reset),
{
    if reset {
        m.last_time = 0;
        m.next_time = 0;
        m.time = 0;
    }
    let out = if m.time >= m.next_time {
        m.last_time = m.time;
        m.next_time = m.time.saturating_add(m.period);
        true
    } else {
        false
    };
    m.time = m.time.saturating_add(1);
    out
}

/// The metronome after `n` samples without reset.
pub open spec fn metro_run(m: Metro, n: nat) -> Metro
    decreases n,
{
    if n == 0 {
        m
    } else {
        metro_step(metro_run(m, (n - 1) as nat), false).0
    }
}

/// Whether the metronome ticks on the sample after `n` samples without reset.
pub open spec fn metro_ticks_at(m: Metro, n: nat) -> bool {
    metro_step(metro_run(m, n), false).1
}

proof fn lemma_metro_run(p: u64, n: nat) -> (k: nat)
    requires
        p > 0,
        n + p <= u64::MAX,
    ensures
        metro_run(Metro::new_spec(p), n).time == n,
        metro_run(Metro::new_spec(p), n).period == p,
        metro_run(Metro::new_spec(p), n).next_time == p * k,
        n <= p * k < n + p,
    decreases n,
{
    if n == 0 {
        assert(p * 0 == 0) by (nonlinear_arith);
        0
    } else {
        let n0 = (n - 1) as nat;
        let k0 = lemma_metro_run(p, n0);
        let m = metro_run(Metro::new_spec(p), n0);
        assert(metro_run(Metro::new_spec(p), n) == metro_step(m, false).0);
        if m.time >= m.next_time {
            assert(p * (k0 + 1) == p * k0 + p) by (nonlinear_arith);
            (k0 + 1) as nat
        } else {
            k0
        }
    }
}

/// A fresh metronome with a period of `p` samples, left to run without
/// reset, ticks on exactly the samples whose number is a multiple of `p`.
pub proof fn lemma_metro_ticks_every_period(p: u64, n: nat)
    requires
        p > 0,
        n + p <= u64::MAX,
    ensures
        metro_ticks_at(Metro::new_spec(p), n) == (n as int % p as int == 0),
{
    let k = lemma_metro_run(p, n);
    let pi = p as int;
    if p * k == n {
        vstd::arithmetic::div_mod::lemma_mod_multiples_basic(k as int, pi);
        assert(k * pi == pi * k) by (nonlinear_arith);
    }
    if n as int % pi == 0 {
        vstd::arithmetic::div_mod::lemma_fundamental_div_mod(n as int, pi);
        let j = n as int / pi;
        assert(pi * k == n) by (nonlinear_arith)
            requires
                n == pi * j,
                n <= pi * k < n + pi,
                pi > 0,
        {
            assert(pi * (k - j) >= 0);
            assert(pi * (k - j) < pi);
            if k - j >= 1 {
                assert(pi * (k - j) >= pi);
            }
            if k - j < 0 {
                assert(pi * (k - j) < 0);
            }
        }
    }
}

/// A metronome driving a sequencer's trigger input, with the sequencer's
/// cursor: both after `n` samples without reset.
pub open spec fn sequencer_run(m: Metro, cursor: int, len: int, n: nat) -> (Metro, int)
    decreases n,
{
    if n == 0 {
        (m, cursor)
    } else {
        let (m0, c0) = sequencer_run(m, cursor, len, (n - 1) as nat);
        let (m1, tick) = metro_step(m0, false);
        (m1, if tick { next_cursor(resolve(c0, len), len) } else { c0 })
    }
}

/// The sequencer's output on the sample after `n` samples: the step under
/// the cursor on a tick, nothing otherwise.
pub open spec fn sequencer_gate(m: Metro, cursor: int, steps: Seq<bool>, n: nat) -> bool {
    let (m0, c0) = sequencer_run(m, cursor, steps.len() as int, n);
    metro_step(m0, false).1 && steps[resolve(c0, steps.len() as int)]
}

proof fn lemma_multiple_in_window(p: int, n: int, a: int, b: int)
    requires
        p > 0,
        n <= p * a < n + p,
        n <= p * b < n + p,
    ensures
        a == b,
{
    assert(a == b) by (nonlinear_arith)
        requires
            p > 0,
            n <= p * a < n + p,
            n <= p * b < n + p,
    {
        if a > b {
            assert(p * a - p * b == p * (a - b));
            assert(p * (a - b) >= p);
        } else if a < b {
            assert(p * b - p * a == p * (b - a));
            assert(p * (b - a) >= p);
        }
    }
}

proof fn lemma_sequencer_run(p: u64, len: int, n: nat) -> (k: nat)
    requires
        p > 0,
        len > 0,
        n + p <= u64::MAX,
    ensures
        sequencer_run(Metro::new_spec(p), 0, len, n).0 == metro_run(Metro::new_spec(p), n),
        sequencer_run(Metro::new_spec(p), 0, len, n).1 == k as int % len,
        metro_run(Metro::new_spec(p), n).next_time == p * k,
        n <= p * k < n + p,
    decreases n,
{
    let k = lemma_metro_run(p, n);
    if n == 0 {
        vstd::arithmetic::div_mod::lemma_small_mod(0, len as nat);
        assert(p * 0 == 0) by (nonlinear_arith);
        lemma_multiple_in_window(p as int, 0, k as int, 0);
        k
    } else {
        let n0 = (n - 1) as nat;
        let k0 = lemma_sequencer_run(p, len, n0);
        let (m0, c0) = sequencer_run(Metro::new_spec(p), 0, len, n0);
        vstd::arithmetic::div_mod::lemma_mod_bound(k0 as int, len);
        vstd::arithmetic::div_mod::lemma_mod_twice(k0 as int, len);
        if m0.time >= m0.next_time {
            assert(p * (k0 + 1) == p * k0 + p) by (nonlinear_arith);
            lemma_multiple_in_window(p as int, n as int, k as int, k0 as int + 1);
            vstd::arithmetic::div_mod::lemma_add_mod_noop(k0 as int, 1, len);
            vstd::arithmetic::div_mod::lemma_add_mod_noop(k0 as int % len, 1, len);
            assert(resolve(c0, len) == k0 as int % len);
            assert(next_cursor(resolve(c0, len), len) == (k0 as int + 1) % len);
        } else {
            lemma_multiple_in_window(p as int, n as int, k as int, k0 as int);
        }
        k
    }
}

/// A fresh metronome with a period of `p` samples driving a boolean
/// sequencer over `steps`, whose cursor starts at 0: on sample `n` the
/// sequencer outputs true exactly when `n` is a tick (a multiple of `p`) and
/// the step of that tick, `(n / p)` modulo the pattern length, is active.
/// The output repeats with a period of `steps.len()` ticks for ever.
pub proof fn lemma_metro_drives_pattern(p: u64, steps: Seq<bool>, n: nat)
    requires
        p > 0,
        steps.len() > 0,
        n + p <= u64::MAX,
    ensures
        sequencer_gate(Metro::new_spec(p), 0, steps, n) == (n as int % p as int == 0
            && steps[(n as int / p as int) % steps.len() as int]),
{
    let len = steps.len() as int;
    let k = lemma_sequencer_run(p, len, n);
    lemma_metro_ticks_every_period(p, n);
    vstd::arithmetic::div_mod::lemma_mod_bound(k as int, len);
    vstd::arithmetic::div_mod::lemma_mod_twice(k as int, len);
    if n as int % p as int == 0 {
        vstd::arithmetic::div_mod::lemma_fundamental_div_mod(n as int, p as int);
        let j = n as int / p as int;
        assert(n <= p * j < n + p);
        lemma_multiple_in_window(p as int, n as int, k as int, j);
    }
}

/// Stretches the rising edge of a trigger into a gate that stays high for
/// `length` samples.
#[derive(Debug, Clone, Copy, PartialEq, Eq, Structural)]
pub struct TrigToGate {
    /// Samples since the latest edge of the trigger.
    pub t: u64,
    /// The trigger input at the previous sample.
    pub last_trig: bool,
    /// Whether the output is high.
    pub state: bool,
}

/// One sample of the trigger-to-gate stretcher. A rising edge of `trig`
/// restarts the count and opens the output; a falling edge restarts the count.
/// While open, the output stays open as long as the count is below `length`
/// (in samples), and the count moves on by one.
pub fn trig_to_gate(g: &mut TrigToGate, trig: bool, length: u64) -> (gate: bool)
    ensures
        ({
            let rising = trig && !old(g).last_trig;
            let falling = !trig && old(g).last_trig;
            let t0 = if rising || falling { 0 } else { old(g).t };
            let open = rising || old(g).state;
            &&& final(g).state == (open && t0 < length)
            &&& final(g).t == (if open { sat_add(t0, 1) } else { t0 })
            &&& final(g).last_trig == trig
            &&& gate == final(g).state
        }),
{
    if trig && !g.last_trig {
        g.t = 0;
        g.state = true;
    } else if !trig && g.last_trig {
        g.t = 0;
    }
    if g.state {
        g.state = g.t < length;
        g.t = g.t.saturating_add(1);
    }
    g.last_trig = trig;
    g.state
}

impl TrigToGate {
    /// A closed gate that has seen no trigger.
    pub fn new() -> (g: TrigToGate)
        ensures
            g == (TrigToGate { t: 0, last_trig: false, state: false }),
    {
        TrigToGate { t: 0, last_trig: false, state: false }
    }
}

} // verus!
