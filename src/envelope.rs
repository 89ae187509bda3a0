//! Stage logic of the envelope generators: edge detection and the ADSR
//! stage machine. The levels themselves are computed by the caller from the
//! decisions made here.
use vstd::prelude::*;

verus! {

/// Detects a rising edge: true when `trig` is high and was low at the
/// previous sample. Records `trig` as the previous sample.
pub fn rising_edge(last: &mut bool, trig: bool) -> (edge: bool)
    ensures
        edge == (trig && !*old(last)),
        *final(last) == trig,
{
    let edge = trig && !*last;
    *last = trig;
    edge
}

/// The stage of an ADSR envelope. `Sustain` is also the idle stage.
#[derive(Debug, Clone, Copy, PartialEq, Eq, Structural)]
pub enum AdsrState {
    Attack,
    Decay,
    Sustain,
    Release,
}

/// How the level moves within a stage.
#[derive(Debug, Clone, Copy, PartialEq, Eq, Structural)]
pub enum AdsrSlope {
    /// Up towards 1 over the attack time.
    Rise,
    /// Down towards the sustain level over the decay time.
    FallOverDecay,
    /// Down over the release time.
    FallOverRelease,
    /// Held.
    Flat,
}

/// A level that a stage ends at, reached from below or from above.
#[derive(Debug, Clone, Copy, PartialEq, Eq, Structural)]
pub enum AdsrLevel {
    /// Full level, reached from below.
    Peak,
    /// The sustain level, reached from above.
    SustainLevel,
    /// Silence, reached from above.
    Zero,
}

/// The ADSR stage after one sample of gate input: a rising edge starts
/// the attack, a falling edge starts the release whatever the stage.
pub open spec fn adsr_gate_spec(state: AdsrState, last_gate: bool, gate: bool) -> AdsrState {
    if gate && !last_gate {
        AdsrState::Attack
    } else if !gate && last_gate {
        AdsrState::Release
    } else {
        state
    }
}

/// The stage that follows `state` once its end level has been reached:
/// attack goes on to decay, decay and release come to rest in sustain.
pub open spec fn adsr_settle_spec(state: AdsrState, reached: bool) -> AdsrState {
    if !reached {
        state
    } else {
        match state {
            AdsrState::Attack => AdsrState::Decay,
            AdsrState::Decay => AdsrState::Sustain,
            AdsrState::Release => AdsrState::Sustain,
            AdsrState::Sustain => AdsrState::Sustain,
        }
    }
}

impl AdsrState {
    /// The idle stage an envelope starts in.
    pub fn idle() -> (s: AdsrState)
        ensures
            s == AdsrState::Sustain,
    {
        AdsrState::Sustain
    }

    /// The slope that the level follows in this stage.
    pub fn slope(&self) -> (r: AdsrSlope)
        ensures
            r == (match *self {
                AdsrState::Attack => AdsrSlope::Rise,
                AdsrState::Decay => AdsrSlope::FallOverDecay,
                AdsrState::Sustain => AdsrSlope::Flat,
                AdsrState::Release => AdsrSlope::FallOverRelease,
            }),
    {
        match self {
            AdsrState::Attack => AdsrSlope::Rise,
            AdsrState::Decay => AdsrSlope::FallOverDecay,
            AdsrState::Sustain => AdsrSlope::Flat,
            AdsrState::Release => AdsrSlope::FallOverRelease,
        }
    }

    /// The level that ends this stage; sustain has none.
    pub fn target(&self) -> (r: Option<AdsrLevel>)
        ensures
            r == (match *self {
                AdsrState::Attack => Some(AdsrLevel::Peak),
                AdsrState::Decay => Some(AdsrLevel::SustainLevel),
                AdsrState::Sustain => None::<AdsrLevel>,
                AdsrState::Release => Some(AdsrLevel::Zero),
            }),
    {
        match self {
            AdsrState::Attack => Some(AdsrLevel::Peak),
            AdsrState::Decay => Some(AdsrLevel::SustainLevel),
            AdsrState::Sustain => None,
            AdsrState::Release => Some(AdsrLevel::Zero),
        }
    }
}

/// First half of one ADSR sample: applies edges of `gate` to the stage and
/// records `gate`. Returns true on a rising edge, where the level restarts
/// from 0.
pub fn adsr_gate(state: &mut AdsrState, last_gate: &mut bool, gate: bool) -> (restart: bool)
    ensures
        *final(state) == adsr_gate_spec(*old(state), *old(last_gate), gate),
        *final(last_gate) == gate,
        restart == (gate && !*old(last_gate)),
{
    let restart = gate && !*last_gate;
    if restart {
        *state = AdsrState::Attack;
    } else if !gate && *last_gate {
        *state = AdsrState::Release;
    }
    *last_gate = gate;
    restart
}

/// Second half of one ADSR sample, after the slope has moved the level:
/// `reached` tells whether the level has arrived at the stage's target
/// (see `AdsrState::target`). Returns the level to clamp to when the stage
/// ends, and moves on to the next stage.
pub fn adsr_settle(state: &mut AdsrState, reached: bool) -> (clamp: Option<AdsrLevel>)
    ensures
        *final(state) == adsr_settle_spec(*old(state), reached),
        clamp == (if reached { old(state).target_spec() } else { None::<AdsrLevel> }),
{
    if !reached {
        return None;
    }
    match *state {
        AdsrState::Attack => {
            *state = AdsrState::Decay;
            Some(AdsrLevel::Peak)
        },
        AdsrState::Decay => {
            *state = AdsrState::Sustain;
            Some(AdsrLevel::SustainLevel)
        },
        AdsrState::Release => {
            *state = AdsrState::Sustain;
            Some(AdsrLevel::Zero)
        },
        AdsrState::Sustain => None,
    }
}

impl AdsrState {
    pub open spec fn target_spec(self) -> Option<AdsrLevel> {
        match self {
            AdsrState::Attack => Some(AdsrLevel::Peak),
            AdsrState::Decay => Some(AdsrLevel::SustainLevel),
            AdsrState::Sustain => None,
            AdsrState::Release => Some(AdsrLevel::Zero),
        }
    }
}

/// Whatever the stage, a falling gate edge puts the envelope into release,
/// and a rising edge into attack.
pub proof fn lemma_gate_edges(state: AdsrState, last_gate: bool, gate: bool)
    ensures
        (gate && !last_gate) ==> adsr_gate_spec(state, last_gate, gate) == AdsrState::Attack,
        (!gate && last_gate) ==> adsr_gate_spec(state, last_gate, gate) == AdsrState::Release,
{
}

} // verus!
