//! The kinds of vertex and the state each kind carries between chunks.

use std::collections::VecDeque;
use vstd::prelude::*;
use crate::adsr::AdsrConf;
use crate::scalar::{clamped_bits, Scalar};
use crate::synth::OscConf;

verus! {

/// Bit pattern of the peak a normalizer starts from (0.000001).
pub const SEED_PEAK_BITS: u32 = 0x3586_37BD;

/// Bit pattern of the value -1, which stands for "no normalization value".
pub const MINUS_ONE_BITS: u32 = 0xBF80_0000;

/// Bit pattern of the highest cut-off frequency (20000).
pub const MAX_CUTOFF_BITS: u32 = 0x469C_4000;

/// The wavetable of a wavetable synthesiser, as the wavetable library holds it.
#[verifier::external_type_specification]
#[verifier::external_body]
pub struct ExWaveTable(sampsyn::WaveTable);

/// A sample voice: frame offset into the sample, and velocity.
pub type SampleVoice = (i64, Scalar);

/// A sine voice: note and velocity.
pub type SineVoice = (Scalar, Scalar);

/// A synthesiser voice: note, velocity, envelope time, release time.
pub type SynthVoice = (Scalar, Scalar, Scalar, Scalar);

/// Where a wavetable voice stands in its table: two wave indices and the time
/// between them.
pub type TableCursor = (usize, usize, Scalar);

/// A wavetable voice: note, velocity, envelope time, release time, cursor.
pub type TableVoice = (Scalar, Scalar, Scalar, Scalar, TableCursor);

/// An envelope voice: envelope time, velocity, held release value.
pub type EnvelopeVoice = (Scalar, Scalar, Scalar);

/// What a vertex does, with the state it keeps.
pub enum VertexExt {
    /// Adds its inputs.
    Sum,
    /// Adds its inputs and divides by the peak.
    Normalize { max: Scalar, scan_max: Scalar },
    /// Plays a sample over and over.
    SampleLoop { sample_index: usize, t: usize },
    /// Plays a sample once for every hit, any number at a time.
    SampleMulti { sample_index: usize, floww_index: usize, note: Option<usize>, ts: VecDeque<SampleVoice> },
    /// Plays a sample once for every hit, one at a time, fading from the last.
    SampleLerp {
        sample_index: usize,
        floww_index: usize,
        note: Option<usize>,
        lerp_len: usize,
        countdown: usize,
        primary: SampleVoice,
        fading: SampleVoice,
    },
    /// A sine wave for every sounding note.
    DebugSine { floww_index: usize, notes: Vec<SineVoice> },
    /// Three oscillators for every sounding note.
    Synth {
        floww_index: usize,
        square_conf: OscConf,
        topflat_conf: OscConf,
        triangle_conf: OscConf,
        notes: Vec<SynthVoice>,
    },
    /// A wavetable for every sounding note.
    SampSyn { floww_index: usize, adsr: AdsrConf, wave_table: sampsyn::WaveTable, notes: Vec<TableVoice> },
    /// An effect plugin on its inputs.
    Lv2fx { index: usize },
    /// An envelope on its inputs, driven by notes.
    Adsr {
        use_off: bool,
        use_max: bool,
        conf: AdsrConf,
        floww_index: usize,
        note: Option<usize>,
        primary: EnvelopeVoice,
        fading: EnvelopeVoice,
    },
    /// A low, high or band filter on its inputs.
    BandPass {
        lgamma: Scalar,
        hgamma: Scalar,
        lprevl: Scalar,
        lprevr: Scalar,
        hprevl: Scalar,
        hprevr: Scalar,
        first: bool,
        pass: bool,
    },
}

/// The abstract value of a [`VertexExt`].
pub enum VertexExtView {
    Sum,
    Normalize { max: Scalar, scan_max: Scalar },
    SampleLoop { sample_index: usize, t: usize },
    SampleMulti { sample_index: usize, floww_index: usize, note: Option<usize>, ts: Seq<SampleVoice> },
    SampleLerp {
        sample_index: usize,
        floww_index: usize,
        note: Option<usize>,
        lerp_len: usize,
        countdown: usize,
        primary: SampleVoice,
        fading: SampleVoice,
    },
    DebugSine { floww_index: usize, notes: Seq<SineVoice> },
    Synth {
        floww_index: usize,
        square_conf: OscConf,
        topflat_conf: OscConf,
        triangle_conf: OscConf,
        notes: Seq<SynthVoice>,
    },
    SampSyn { floww_index: usize, adsr: AdsrConf, wave_table: sampsyn::WaveTable, notes: Seq<TableVoice> },
    Lv2fx { index: usize },
    Adsr {
        use_off: bool,
        use_max: bool,
        conf: AdsrConf,
        floww_index: usize,
        note: Option<usize>,
        primary: EnvelopeVoice,
        fading: EnvelopeVoice,
    },
    BandPass {
        lgamma: Scalar,
        hgamma: Scalar,
        lprevl: Scalar,
        lprevr: Scalar,
        hprevl: Scalar,
        hprevr: Scalar,
        first: bool,
        pass: bool,
    },
}

impl View for VertexExt {
    type V = VertexExtView;

    open spec fn view(&self) -> VertexExtView {
        match *self {
            VertexExt::Sum => VertexExtView::Sum,
            VertexExt::Normalize { max, scan_max } => VertexExtView::Normalize { max, scan_max },
            VertexExt::SampleLoop { sample_index, t } => VertexExtView::SampleLoop { sample_index, t },
            VertexExt::SampleMulti { sample_index, floww_index, note, ts } => VertexExtView::SampleMulti {
                sample_index,
                floww_index,
                note,
                ts: ts@,
            },
            VertexExt::SampleLerp {
                sample_index,
                floww_index,
                note,
                lerp_len,
                countdown,
                primary,
                fading,
            } => VertexExtView::SampleLerp {
                sample_index,
                floww_index,
                note,
                lerp_len,
                countdown,
                primary,
                fading,
            },
            VertexExt::DebugSine { floww_index, notes } => VertexExtView::DebugSine {
                floww_index,
                notes: notes@,
            },
            VertexExt::Synth {
                floww_index,
                square_conf,
                topflat_conf,
                triangle_conf,
                notes,
            } => VertexExtView::Synth {
                floww_index,
                square_conf,
                topflat_conf,
                triangle_conf,
                notes: notes@,
            },
            VertexExt::SampSyn { floww_index, adsr, wave_table, notes } => VertexExtView::SampSyn {
                floww_index,
                adsr,
                wave_table,
                notes: notes@,
            },
            VertexExt::Lv2fx { index } => VertexExtView::Lv2fx { index },
            VertexExt::Adsr {
                use_off,
                use_max,
                conf,
                floww_index,
                note,
                primary,
                fading,
            } => VertexExtView::Adsr { use_off, use_max, conf, floww_index, note, primary, fading },
            VertexExt::BandPass {
                lgamma,
                hgamma,
                lprevl,
                lprevr,
                hprevl,
                hprevr,
                first,
                pass,
            } => VertexExtView::BandPass {
                lgamma,
                hgamma,
                lprevl,
                lprevr,
                hprevl,
                hprevr,
                first,
                pass,
            },
        }
    }
}

impl VertexExtView {
    /// Whether a vertex of this kind works on the output of other vertices.
    pub open spec fn has_input(self) -> bool {
        match self {
            VertexExtView::Sum => true,
            VertexExtView::Normalize { .. } => true,
            VertexExtView::Lv2fx { .. } => true,
            VertexExtView::Adsr { .. } => true,
            VertexExtView::BandPass { .. } => true,
            _ => false,
        }
    }

    /// The state after a seek to frame `time`: a looping sample continues
    /// from there, sounding notes are forgotten, a filter starts afresh.
    pub open spec fn at_time(self, time: usize) -> VertexExtView {
        match self {
            VertexExtView::SampleLoop { sample_index, t } => VertexExtView::SampleLoop {
                sample_index,
                t: time,
            },
            VertexExtView::DebugSine { floww_index, notes } => VertexExtView::DebugSine {
                floww_index,
                notes: Seq::empty(),
            },
            VertexExtView::Synth {
                floww_index,
                square_conf,
                topflat_conf,
                triangle_conf,
                notes,
            } => VertexExtView::Synth {
                floww_index,
                square_conf,
                topflat_conf,
                triangle_conf,
                notes: Seq::empty(),
            },
            VertexExtView::SampSyn { floww_index, adsr, wave_table, notes } => VertexExtView::SampSyn {
                floww_index,
                adsr,
                wave_table,
                notes: Seq::empty(),
            },
            VertexExtView::BandPass {
                lgamma,
                hgamma,
                lprevl,
                lprevr,
                hprevl,
                hprevr,
                first,
                pass,
            } => VertexExtView::BandPass {
                lgamma,
                hgamma,
                lprevl,
                lprevr,
                hprevl,
                hprevr,
                first: true,
                pass,
            },
            other => other,
        }
    }

    /// The state with the peak measured by a scan forgotten.
    pub open spec fn scan_reset(self) -> VertexExtView {
        match self {
            VertexExtView::Normalize { max, scan_max } => VertexExtView::Normalize {
                max,
                scan_max: Scalar { bits: 0 },
            },
            other => other,
        }
    }

    /// The state with the peak measured by a scan put to use.
    pub open spec fn scan_applied(self) -> VertexExtView {
        match self {
            VertexExtView::Normalize { max, scan_max } => VertexExtView::Normalize {
                max: scan_max,
                scan_max,
            },
            other => other,
        }
    }

    /// The state with the peak back at its small positive seed.
    pub open spec fn peak_reset(self) -> VertexExtView {
        match self {
            VertexExtView::Normalize { max, scan_max } => VertexExtView::Normalize {
                max: Scalar { bits: SEED_PEAK_BITS },
                scan_max,
            },
            other => other,
        }
    }

    /// The peak a normalizer divides by; -1 for every other kind.
    pub open spec fn normalization_value(self) -> Scalar {
        match self {
            VertexExtView::Normalize { max, .. } => max,
            _ => Scalar { bits: MINUS_ONE_BITS },
        }
    }
}

/// A cut-off frequency brought into the range from 0 to 20000.
pub open spec fn cutoff_in_range(hz: Scalar) -> Scalar {
    Scalar { bits: clamped_bits(hz.bits, 0, MAX_CUTOFF_BITS) }
}

/// Brings a cut-off frequency into the range from 0 to 20000.
pub fn clamp_cutoff(hz: Scalar) -> (r: Scalar)
    ensures
        r == cutoff_in_range(hz),
{
    hz.min(Scalar::from_bits(MAX_CUTOFF_BITS)).max(Scalar::zero())
}

impl VertexExt {
    /// A summing vertex.
    pub fn sum() -> (ext: Self)
        ensures
            ext@ == VertexExtView::Sum,
    {
        Self::Sum
    }

    /// A normalizing vertex that has measured nothing yet.
    pub fn normalize() -> (ext: Self)
        ensures
            ext@ == (VertexExtView::Normalize { max: Scalar { bits: 0 }, scan_max: Scalar { bits: 0 } }),
    {
        Self::Normalize { max: Scalar::zero(), scan_max: Scalar::zero() }
    }

    /// A vertex that loops a sample from its start.
    pub fn sample_loop(sample_index: usize) -> (ext: Self)
        ensures
            ext@ == (VertexExtView::SampleLoop { sample_index, t: 0 }),
    {
        Self::SampleLoop { sample_index, t: 0 }
    }

    /// A polyphonic sample player without sounding voices.
    pub fn sample_multi(sample_index: usize, floww_index: usize, note: Option<usize>) -> (ext: Self)
        ensures
            ext@ == (VertexExtView::SampleMulti { sample_index, floww_index, note, ts: Seq::empty() }),
    {
        Self::SampleMulti { sample_index, floww_index, ts: VecDeque::new(), note }
    }

    /// A monophonic sample player that fades over `lerp_len` frames.
    pub fn sample_lerp(sample_index: usize, floww_index: usize, note: Option<usize>, lerp_len: usize) -> (ext:
        Self)
        ensures
            ext@ == (VertexExtView::SampleLerp {
                sample_index,
                floww_index,
                note,
                lerp_len,
                countdown: 0,
                primary: (0i64, Scalar { bits: 0 }),
                fading: (0i64, Scalar { bits: 0 }),
            }),
    {
        Self::SampleLerp {
            sample_index,
            floww_index,
            note,
            lerp_len,
            countdown: 0,
            primary: (0, Scalar::zero()),
            fading: (0, Scalar::zero()),
        }
    }

    /// A sine synthesiser without sounding notes.
    pub fn debug_sine(floww_index: usize) -> (ext: Self)
        ensures
            ext@ == (VertexExtView::DebugSine { floww_index, notes: Seq::empty() }),
    {
        Self::DebugSine { floww_index, notes: Vec::new() }
    }

    /// A three-oscillator synthesiser without sounding notes.
    pub fn synth(floww_index: usize, square_conf: OscConf, topflat_conf: OscConf, triangle_conf: OscConf) -> (ext:
        Self)
        ensures
            ext@ == (VertexExtView::Synth {
                floww_index,
                square_conf,
                topflat_conf,
                triangle_conf,
                notes: Seq::empty(),
            }),
    {
        Self::Synth { floww_index, notes: Vec::new(), square_conf, topflat_conf, triangle_conf }
    }

    /// A wavetable synthesiser without sounding notes.
    pub fn sampsyn(floww_index: usize, adsr: AdsrConf, wave_table: sampsyn::WaveTable) -> (ext: Self)
        ensures
            ext@ == (VertexExtView::SampSyn { floww_index, adsr, wave_table, notes: Seq::empty() }),
    {
        Self::SampSyn { floww_index, adsr, wave_table, notes: Vec::new() }
    }

    /// A vertex that runs plugin `plugin_index` on its inputs.
    pub fn lv2fx(plugin_index: usize) -> (ext: Self)
        ensures
            ext@ == (VertexExtView::Lv2fx { index: plugin_index }),
    {
        Self::Lv2fx { index: plugin_index }
    }

    /// An envelope vertex at rest.
    pub fn adsr(use_off: bool, use_max: bool, conf: AdsrConf, note: Option<usize>, floww_index: usize) -> (ext:
        Self)
        ensures
            ext@ == (VertexExtView::Adsr {
                use_off,
                use_max,
                conf,
                floww_index,
                note,
                primary: (Scalar { bits: 0 }, Scalar { bits: 0 }, Scalar { bits: 0 }),
                fading: (Scalar { bits: 0 }, Scalar { bits: 0 }, Scalar { bits: 0 }),
            }),
    {
        let z: Scalar = Scalar::zero();
        Self::Adsr { use_off, use_max, conf, note, floww_index, primary: (z, z, z), fading: (z, z, z) }
    }

    /// A filter with the given smoothing factors that has seen no sound yet.
    pub fn band_pass(lgamma: Scalar, hgamma: Scalar, pass: bool) -> (ext: Self)
        ensures
            ext@ == (VertexExtView::BandPass {
                lgamma,
                hgamma,
                lprevl: Scalar { bits: 0 },
                lprevr: Scalar { bits: 0 },
                hprevl: Scalar { bits: 0 },
                hprevr: Scalar { bits: 0 },
                first: true,
                pass,
            }),
    {
        let z: Scalar = Scalar::zero();
        Self::BandPass { lgamma, hgamma, lprevl: z, lprevr: z, hprevl: z, hprevr: z, first: true, pass }
    }

    /// Whether another vertex can be connected into this one.
    pub fn has_input(&self) -> (r: bool)
        ensures
            r == self@.has_input(),
    {
        match self {
            Self::Sum => true,
            Self::Normalize { .. } => true,
            Self::SampleLoop { .. } => false,
            Self::SampleMulti { .. } => false,
            Self::SampleLerp { .. } => false,
            Self::DebugSine { .. } => false,
            Self::Synth { .. } => false,
            Self::SampSyn { .. } => false,
            Self::Lv2fx { .. } => true,
            Self::Adsr { .. } => true,
            Self::BandPass { .. } => true,
        }
    }

    /// Seeks to frame `time`.
    pub fn set_time(&mut self, time: usize)
        ensures
            final(self)@ == old(self)@.at_time(time),
    {
        match self {
            Self::SampleLoop { t, .. } => {
                *t = time;
            },
            Self::DebugSine { notes, .. } => {
                notes.clear();
            },
            Self::Synth { notes, .. } => {
                notes.clear();
            },
            Self::SampSyn { notes, .. } => {
                notes.clear();
            },
            Self::BandPass { first, .. } => {
                *first = true;
            },
            _ => {},
        }
    }

    /// Forgets the peak measured by a scan.
    pub fn reset_scan_normalization(&mut self)
        ensures
            final(self)@ == old(self)@.scan_reset(),
    {
        if let Self::Normalize { scan_max, .. } = self {
            *scan_max = Scalar::zero();
        }
    }

    /// Puts the peak measured by a scan to use.
    pub fn apply_scan_normalization(&mut self)
        ensures
            final(self)@ == old(self)@.scan_applied(),
    {
        if let Self::Normalize { scan_max, max } = self {
            *max = *scan_max;
        }
    }

    /// Returns the peak to its seed, a small positive value.
    pub fn reset_normalization(&mut self)
        ensures
            final(self)@ == old(self)@.peak_reset(),
    {
        if let Self::Normalize { max, .. } = self {
            *max = Scalar::from_bits(SEED_PEAK_BITS);
        }
    }

    /// The peak a normalizer divides by; -1 for every other kind.
    pub fn get_normalization_value(&self) -> (r: Scalar)
        ensures
            r == self@.normalization_value(),
    {
        if let Self::Normalize { max, .. } = self {
            *max
        } else {
            Scalar::from_bits(MINUS_ONE_BITS)
        }
    }
}

} // verus!
