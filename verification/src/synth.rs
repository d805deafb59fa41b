//! Oscillator configuration of the additive synthesiser.

use vstd::prelude::*;
use crate::adsr::AdsrConf;
use crate::scalar::Scalar;

verus! {

/// One oscillator: its share of the mix, its shape parameter and its
/// envelope.
#[derive(Clone, Copy, Debug, PartialEq, Eq, Structural)]
pub struct OscConf {
    pub volume: Scalar,
    pub param: Scalar,
    pub adsr: AdsrConf,
}

impl OscConf {
    /// An oscillator of the given volume, shape parameter and envelope.
    pub fn new(volume: Scalar, param: Scalar, adsr: AdsrConf) -> (conf: Self)
        ensures
            conf == (OscConf { volume, param, adsr }),
    {
        Self { volume, param, adsr }
    }
}

} // verus!
