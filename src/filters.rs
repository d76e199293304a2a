use vstd::prelude::*;

verus! {

/// The response of a one-pole filter.
#[derive(Clone, Copy, Debug, PartialEq, Eq, Structural)]
pub enum Mode {
    LOWPASS,
    HIGHPASS,
    ALLPASS,
}

} // verus!
