//! Sample storage and one-shot playback: the stored waveform, reads that
//! fall silent outside it, the choice of when to resample, and the
//! waiting/playing state machine of one-shot playback.
use vstd::prelude::*;

verus! {

/// The samples of the first channel of `interleaved`, a buffer holding
/// `channels` channels frame by frame.
pub open spec fn first_channel_spec<T>(interleaved: Seq<T>, channels: nat) -> Seq<T>
    recommends
        channels > 0,
{
    Seq::new(
        ((interleaved.len() + channels - 1) as int / channels as int) as nat,
        |k: int| interleaved[k * channels],
    )
}

/// Keeps the first channel of an interleaved buffer: every `channels`-th
/// sample, starting with the first.
pub fn first_channel<T: Copy>(interleaved: &Vec<T>, channels: usize) -> (r: Vec<T>)
    requires
        channels > 0,
    ensures
        r@ == first_channel_spec(interleaved@, channels as nat),
{
    let n = interleaved.len();
    let mut r: Vec<T> = Vec::new();
    let mut i: usize = 0;
    let ghost ch = channels as int;
    assert(r@.len() * ch == 0) by (nonlinear_arith)
        requires
            r@.len() == 0,
    ;
    while i < n
        invariant
            n == interleaved@.len(),
            ch == channels,
            ch > 0,
            i == r@.len() * ch,
            r@.len() == 0 || (r@.len() - 1) * ch < n,
            forall|j: int| 0 <= j < r@.len() ==> #[trigger] r@[j] == interleaved@[j * ch],
        decreases n - i,
    {
        assert(r@.len() * ch < n);
        r.push(interleaved[i]);
        assert(r@.len() * ch == i + ch) by (nonlinear_arith)
            requires
                i == (r@.len() - 1) * ch,
        ;
        if channels > n - i {
            i = n;
            proof {
                lemma_ceil_count(r@.len() as int, ch, n as int);
            }
            assert(r@ =~= first_channel_spec(interleaved@, channels as nat));
            return r;
        }
        i = i + channels;
    }
    proof {
        lemma_ceil_count(r@.len() as int, ch, n as int);
    }
    assert(r@ =~= first_channel_spec(interleaved@, channels as nat));
    r
}

proof fn lemma_ceil_count(k: int, ch: int, n: int)
    requires
        ch > 0,
        n >= 0,
        k >= 0,
        k * ch >= n,
        k == 0 || (k - 1) * ch < n,
    ensures
        k == (n + ch - 1) / ch,
{
    vstd::arithmetic::div_mod::lemma_fundamental_div_mod(n + ch - 1, ch);
    vstd::arithmetic::div_mod::lemma_mod_bound(n + ch - 1, ch);
    let q = (n + ch - 1) / ch;
    let r = (n + ch - 1) % ch;
    if k == 0 {
        assert(n == 0) by (nonlinear_arith)
            requires
                k * ch >= n,
                k == 0,
                n >= 0,
        ;
        vstd::arithmetic::div_mod::lemma_small_mod((ch - 1) as nat, ch as nat);
        vstd::arithmetic::div_mod::lemma_fundamental_div_mod(ch - 1, ch);
        let q0 = (ch - 1) / ch;
        assert(q0 == 0) by (nonlinear_arith)
            requires
                ch - 1 == ch * q0 + (ch - 1),
                ch > 0,
        ;
    } else {
        assert(k == q) by (nonlinear_arith)
            requires
                ch > 0,
                k * ch >= n,
                (k - 1) * ch < n,
                n + ch - 1 == ch * q + r,
                0 <= r < ch,
        ;
    }
}

/// A mono waveform and the sample rate it is stored at.
pub struct SampleStorage<T> {
    buf: Vec<T>,
    sample_rate: u32,
}

impl<T: Copy> SampleStorage<T> {
    /// The stored samples.
    pub closed spec fn samples(&self) -> Seq<T> {
        self.buf@
    }

    /// The rate that the samples are stored at.
    pub closed spec fn rate(&self) -> u32 {
        self.sample_rate
    }

    /// Storage holding `buf` at `sample_rate`.
    pub fn new(buf: Vec<T>, sample_rate: u32) -> (s: SampleStorage<T>)
        ensures
            s.samples() == buf@,
            s.rate() == sample_rate,
    {
        SampleStorage { buf, sample_rate }
    }

    /// Storage holding `interleaved`'s first channel, at `sample_rate`.
    pub fn from_interleaved(interleaved: &Vec<T>, channels: usize, sample_rate: u32) -> (s:
        SampleStorage<T>)
        requires
            channels > 0,
        ensures
            s.samples() == first_channel_spec(interleaved@, channels as nat),
            s.rate() == sample_rate,
    {
        SampleStorage { buf: first_channel(interleaved, channels), sample_rate }
    }

    /// The number of samples.
    pub fn len(&self) -> (n: usize)
        ensures
            n == self.samples().len(),
    {
        self.buf.len()
    }

    /// Whether no sample is stored.
    pub fn is_empty(&self) -> (e: bool)
        ensures
            e == (self.samples().len() == 0),
    {
        self.buf.len() == 0
    }

    /// The rate that the samples are stored at.
    pub fn sample_rate(&self) -> (r: u32)
        ensures
            r == self.rate(),
    {
        self.sample_rate
    }

    /// The sample at `index`, or `silence` past the end.
    pub fn frame_or(&self, index: usize, silence: T) -> (v: T)
        ensures
            v == (if index < self.samples().len() {
                self.samples()[index as int]
            } else {
                silence
            }),
    {
        if index < self.buf.len() {
            self.buf[index]
        } else {
            silence
        }
    }

    /// Whether moving to `new_rate` calls for resampling: only to a positive
    /// rate that differs from the stored one.
    pub fn needs_resample(&self, new_rate: u32) -> (r: bool)
        ensures
            r == needs_resample_spec(self.rate(), new_rate),
    {
        new_rate != self.sample_rate && new_rate > 0
    }

    /// Installs `buf`, resampled to `new_rate`, when the move to `new_rate`
    /// calls for it; otherwise the storage stays as it is.
    pub fn install_resampled(&mut self, new_rate: u32, buf: Vec<T>)
        ensures
            needs_resample_spec(old(self).rate(), new_rate) ==> final(self).samples() == buf@
                && final(self).rate() == new_rate,
            !needs_resample_spec(old(self).rate(), new_rate) ==> final(self).samples() == old(
                self).samples() && final(self).rate() == old(self).rate(),
    {
        if new_rate != self.sample_rate && new_rate > 0 {
            self.buf = buf;
            self.sample_rate = new_rate;
        }
    }
}

/// Resampling happens only towards a positive rate other than the current.
pub open spec fn needs_resample_spec(current: u32, new_rate: u32) -> bool {
    new_rate != current && new_rate > 0
}

/// A mono waveform stored at the rate it is then played at comes back
/// unchanged: the first channel of a one-channel buffer is the buffer, and
/// no resampling is called for.
pub proof fn lemma_mono_same_rate_round_trip<T>(samples: Seq<T>, rate: u32)
    ensures
        first_channel_spec(samples, 1) == samples,
        !needs_resample_spec(rate, rate),
{
    assert(first_channel_spec(samples, 1) =~= samples);
}

/// The two states of one-shot playback.
#[derive(Debug, Clone, Copy, PartialEq, Eq, Structural)]
pub enum OneShotState {
    Waiting,
    Playing,
}

/// What one-shot playback does with the current sample.
#[derive(Debug, Clone, Copy, PartialEq, Eq, Structural)]
pub enum OneShotAction {
    /// Idle: the output and the play head are left alone.
    Hold,
    /// Past the end: output silence; the play head moves on.
    Silence,
    /// Output the sample under the play head; the play head moves on.
    Play,
}

/// First half of one one-shot sample: a trigger enters the playing state.
/// Returns true when the play head goes back to 0.
pub fn one_shot_trigger(state: &mut OneShotState, trig: bool) -> (restart: bool)
    ensures
        restart == trig,
        *final(state) == (if trig { OneShotState::Playing } else { *old(state) }),
{
    if trig {
        *state = OneShotState::Playing;
    }
    trig
}

/// Second half of one one-shot sample, given whether the play head has
/// reached the end of the buffer: waiting holds, playing past the end
/// outputs silence and goes back to waiting, and playing within the buffer
/// plays.
pub fn one_shot_advance(state: &mut OneShotState, past_end: bool) -> (a: OneShotAction)
    ensures
        *old(state) == OneShotState::Waiting ==> a == OneShotAction::Hold && *final(state)
            == OneShotState::Waiting,
        *old(state) == OneShotState::Playing && past_end ==> a == OneShotAction::Silence
            && *final(state) == OneShotState::Waiting,
        *old(state) == OneShotState::Playing && !past_end ==> a == OneShotAction::Play
            && *final(state) == OneShotState::Playing,
{
    match *state {
        OneShotState::Waiting => OneShotAction::Hold,
        OneShotState::Playing => {
            if past_end {
                *state = OneShotState::Waiting;
                OneShotAction::Silence
            } else {
                OneShotAction::Play
            }
        },
    }
}

} // verus!
