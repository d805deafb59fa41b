//! Envelope configuration: attack, decay, sustain and release.

use vstd::prelude::*;
use crate::scalar::{Scalar, ONE_BITS};

verus! {

/// The five levels and four durations of an envelope.
///
/// The envelope starts at `std_vel`, reaches `attack_vel` after `attack_sec`
/// seconds, `decay_vel` after `decay_sec` more, `sustain_vel` after
/// `sustain_sec` more, and `release_vel` after `release_sec` more.
#[derive(Clone, Copy, Debug, PartialEq, Eq, Structural)]
pub struct AdsrConf {
    pub std_vel: Scalar,
    pub attack_sec: Scalar,
    pub attack_vel: Scalar,
    pub decay_sec: Scalar,
    pub decay_vel: Scalar,
    pub sustain_sec: Scalar,
    pub sustain_vel: Scalar,
    pub release_sec: Scalar,
    pub release_vel: Scalar,
}

/// The envelope with every level and duration 0.
pub open spec fn flat_conf() -> AdsrConf {
    let z = Scalar { bits: 0 };
    AdsrConf {
        std_vel: z,
        attack_sec: z,
        attack_vel: z,
        decay_sec: z,
        decay_vel: z,
        sustain_sec: z,
        sustain_vel: z,
        release_sec: z,
        release_vel: z,
    }
}

/// The envelope of a hit: from 0 up to 1, and back to 0 at the end.
pub open spec fn hit(
    attack_sec: Scalar,
    decay_sec: Scalar,
    decay_vel: Scalar,
    sustain_sec: Scalar,
    sustain_vel: Scalar,
    release_sec: Scalar,
) -> AdsrConf {
    AdsrConf {
        std_vel: Scalar { bits: 0 },
        attack_sec,
        attack_vel: Scalar { bits: ONE_BITS },
        decay_sec,
        decay_vel,
        sustain_sec,
        sustain_vel,
        release_sec,
        release_vel: Scalar { bits: 0 },
    }
}

/// The envelope an array of numbers describes, if it describes one.
///
/// No number gives the flat envelope, six give a hit, nine give every field
/// in order; any other count describes nothing.
pub open spec fn conf_of(arr: Seq<Scalar>) -> Option<AdsrConf> {
    if arr.len() == 0 {
        Some(flat_conf())
    } else if arr.len() == 6 {
        Some(hit(arr[0], arr[1], arr[2], arr[3], arr[4], arr[5]))
    } else if arr.len() == 9 {
        Some(
            AdsrConf {
                std_vel: arr[0],
                attack_sec: arr[1],
                attack_vel: arr[2],
                decay_sec: arr[3],
                decay_vel: arr[4],
                sustain_sec: arr[5],
                sustain_vel: arr[6],
                release_sec: arr[7],
                release_vel: arr[8],
            },
        )
    } else {
        None
    }
}

impl Default for AdsrConf {
    fn default() -> (conf: Self)
        ensures
            conf == flat_conf(),
    {
        let z: Scalar = Scalar::zero();
        AdsrConf {
            std_vel: z,
            attack_sec: z,
            attack_vel: z,
            decay_sec: z,
            decay_vel: z,
            sustain_sec: z,
            sustain_vel: z,
            release_sec: z,
            release_vel: z,
        }
    }
}

impl AdsrConf {
    /// The envelope of a hit: it starts at 0, peaks at 1 and ends at 0.
    pub fn hit_conf(
        attack_sec: Scalar,
        decay_sec: Scalar,
        decay_vel: Scalar,
        sustain_sec: Scalar,
        sustain_vel: Scalar,
        release_sec: Scalar,
    ) -> (conf: Self)
        ensures
            conf == hit(attack_sec, decay_sec, decay_vel, sustain_sec, sustain_vel, release_sec),
    {
        Self {
            std_vel: Scalar::zero(),
            attack_sec,
            attack_vel: Scalar::one(),
            decay_sec,
            decay_vel,
            sustain_sec,
            sustain_vel,
            release_vel: Scalar::zero(),
            release_sec,
        }
    }
}

/// Reads an envelope from an array of 0, 6 or 9 numbers.
pub fn build_adsr_conf(arr: &[Scalar]) -> (conf: Option<AdsrConf>)
    ensures
        conf == conf_of(arr@),
{
    if arr.len() == 0 {
        Some(AdsrConf::default())
    } else if arr.len() == 6 {
        Some(AdsrConf::hit_conf(arr[0], arr[1], arr[2], arr[3], arr[4], arr[5]))
    } else if arr.len() == 9 {
        Some(
            AdsrConf {
                std_vel: arr[0],
                attack_sec: arr[1],
                attack_vel: arr[2],
                decay_sec: arr[3],
                decay_vel: arr[4],
                sustain_sec: arr[5],
                sustain_vel: arr[6],
                release_sec: arr[7],
                release_vel: arr[8],
            },
        )
    } else {
        None
    }
}

} // verus!
