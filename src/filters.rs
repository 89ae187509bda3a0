//! The mode of the biquad filter family.
use vstd::prelude::*;

verus! {

/// The transfer function that a biquad filter computes its coefficients
/// for.
#[derive(Debug, Clone, Copy, PartialEq, Eq, Structural)]
pub enum BiquadMode {
    Lowpass,
    Highpass,
    Bandpass,
    Notch,
    Allpass,
    LowShelf,
    HighShelf,
    Peaking,
}

impl Default for BiquadMode {
    /// Lowpass.
    fn default() -> (m: BiquadMode)
        ensures
            m == BiquadMode::Lowpass,
    {
        BiquadMode::Lowpass
    }
}

impl BiquadMode {
    /// Whether the mode's coefficients depend on the gain parameter: only the
    /// shelving and peaking modes use it.
    pub fn uses_gain(&self) -> (r: bool)
        ensures
            r == (*self == BiquadMode::LowShelf || *self == BiquadMode::HighShelf || *self
                == BiquadMode::Peaking),
    {
        match self {
            BiquadMode::LowShelf | BiquadMode::HighShelf | BiquadMode::Peaking => true,
            _ => false,
        }
    }
}

} // verus!
