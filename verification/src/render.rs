//! What rendering to a sound file needs decided before the first chunk.

use vstd::prelude::*;
use vstd::arithmetic::power2::{lemma2_to64, pow2};

verus! {

/// Why a project cannot be rendered to a file.
#[derive(Clone, Copy, Debug, PartialEq, Eq, Structural)]
pub enum RenderError {
    /// The bit depth is none of 8, 16, 24 and 32.
    UnsupportedBitDepth { bits: usize },
}

/// How a project is rendered to a file.
#[derive(Clone, Copy, Debug, PartialEq, Eq, Structural)]
pub struct RenderPlan {
    /// Whether the chunks pass the resampler: the project rate is above the
    /// rate of the file.
    pub resample: bool,
    /// Whether some sample was loaded from a file with a rate above the rate
    /// of this file.
    pub loses_input_rate: bool,
    /// Whether some sample was loaded from a file with a bit depth above the
    /// depth of this file.
    pub loses_bit_depth: bool,
    /// The integer that full scale is written as.
    pub amplitude: i32,
    /// Whether values are written as 32-bit integers rather than 16-bit ones.
    pub wide: bool,
}

/// Whether a bit depth can be written.
pub open spec fn bit_depth_supported(bits: usize) -> bool {
    bits == 8 || bits == 16 || bits == 24 || bits == 32
}

/// The integer that full scale is written as at a bit depth: the largest
/// value of a signed integer of that many bits.
pub open spec fn full_scale(bits: usize) -> int {
    pow2((bits - 1) as nat) - 1
}

/// The plan for a file of rate `render_sr` and depth `bits`, for a project of
/// rate `project_sr` whose samples came from files of at most rate `max_sr`
/// and depth `max_bits`.
pub open spec fn plan_for(project_sr: usize, render_sr: usize, bits: usize, max_sr: usize, max_bits: usize) -> Result<
    RenderPlan,
    RenderError,
> {
    if !bit_depth_supported(bits) {
        Err(RenderError::UnsupportedBitDepth { bits })
    } else {
        Ok(
            RenderPlan {
                resample: project_sr > render_sr,
                loses_input_rate: max_sr > render_sr,
                loses_bit_depth: max_bits > bits,
                amplitude: full_scale(bits) as i32,
                wide: bits > 16,
            },
        )
    }
}

/// Plans the rendering of a project to a file.
pub fn plan_render(project_sr: usize, render_sr: usize, bits: usize, max_sr: usize, max_bits: usize) -> (r:
    Result<RenderPlan, RenderError>)
    ensures
        r == plan_for(project_sr, render_sr, bits, max_sr, max_bits),
        r is Ok ==> r->Ok_0.amplitude == full_scale(bits),
{
    proof {
        lemma2_to64();
    }
    let amplitude: i32 = if bits == 8 {
        127
    } else if bits == 16 {
        32767
    } else if bits == 24 {
        8388607
    } else if bits == 32 {
        i32::MAX
    } else {
        return Err(RenderError::UnsupportedBitDepth { bits });
    };
    Ok(
        RenderPlan {
            resample: project_sr > render_sr,
            loses_input_rate: max_sr > render_sr,
            loses_bit_depth: max_bits > bits,
            amplitude,
            wide: bits > 16,
        },
    )
}

} // verus!
