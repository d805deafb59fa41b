//! The parts of the sample players that work on frame positions: which frame
//! of a sample sounds at which frame of a chunk, and when a voice is over.
//!
//! A voice carries the offset of the chunk's first frame into its sample:
//! negative while the voice waits for its onset within the chunk.

use std::collections::VecDeque;
use vstd::prelude::*;
use crate::extensions::SampleVoice;
use crate::sample::{Sample, SampleBank, SampleView};
use crate::scalar::Scalar;

verus! {

/// The frame of its sample that a voice with offset `t` plays at frame `i` of
/// the chunk; before its onset that is frame 0.
pub open spec fn voice_pos(t: i64, i: usize) -> int {
    if t + i < 0 {
        0
    } else {
        t + i
    }
}

/// The offset of a voice whose onset is frame `i` of the chunk.
pub open spec fn onset(i: usize) -> i64 {
    if i > i64::MAX {
        i64::MIN
    } else {
        (-(i as int)) as i64
    }
}

/// The offset `t` one chunk of `len` frames later.
pub open spec fn advanced(t: i64, len: usize) -> i64 {
    if t + len > i64::MAX {
        i64::MAX
    } else {
        (t + len) as i64
    }
}

/// The position of a voice, if it can be told apart from "beyond every
/// sample".
fn position(t: i64, i: usize) -> (p: Option<usize>)
    ensures
        match p {
            Some(x) => x == voice_pos(t, i),
            None => voice_pos(t, i) > usize::MAX,
        },
{
    let sum: i128 = t as i128 + i as i128;
    if sum < 0 {
        Some(0)
    } else if sum > usize::MAX as i128 {
        None
    } else {
        Some(sum as usize)
    }
}

fn onset_of(i: usize) -> (t: i64)
    ensures
        t == onset(i),
{
    if i as u128 > i64::MAX as u128 {
        i64::MIN
    } else {
        -(i as i64)
    }
}

fn advance(t: i64, len: usize) -> (r: i64)
    ensures
        r == advanced(t, len),
{
    let sum: i128 = t as i128 + len as i128;
    if sum > i64::MAX as i128 {
        i64::MAX
    } else {
        sum as i64
    }
}

/// What a looping sample leaves in a buffer: the first `len` frames continue
/// the sample from its frame `t`, starting over at its end; the others stay.
pub open spec fn looped(buf: SampleView, sample: SampleView, len: usize, t: usize) -> SampleView {
    SampleView {
        l: Seq::new(
            buf.l.len(),
            |i: int|
                if i < len {
                    sample.l[(t + i) % (sample.l.len() as int)]
                } else {
                    buf.l[i]
                },
        ),
        r: Seq::new(
            buf.r.len(),
            |i: int|
                if i < len {
                    sample.r[(t + i) % (sample.l.len() as int)]
                } else {
                    buf.r[i]
                },
        ),
    }
}

/// Fills the first `len` frames of `buf` from sample `sample_index`, looping,
/// and moves the read position `t` on by `len`.
pub fn sample_loop_gen(buf: &mut Sample, sb: &SampleBank, len: usize, t: &mut usize, sample_index: usize)
    requires
        sample_index < sb@.bank.items.len(),
        sb@.bank.items[sample_index as int]@.l.len() > 0,
        len <= old(buf)@.l.len(),
        *old(t) + len <= usize::MAX,
    ensures
        final(buf)@ == looped(old(buf)@, sb@.bank.items[sample_index as int]@, len, *old(t)),
        *final(t) == *old(t) + len,
{
    let sample: &Sample = sb.get_sample(sample_index);
    let l: usize = sample.len();
    let n: usize = buf.len();
    let start: usize = *t;
    let mut i: usize = 0;
    while i < len
        invariant
            i <= len,
            len <= n,
            n == old(buf)@.l.len(),
            n == buf@.l.len(),
            n == buf@.r.len(),
            l == sample@.l.len(),
            l == sample@.r.len(),
            l > 0,
            start + len <= usize::MAX,
            forall|k: int| 0 <= k < i ==> #[trigger] buf@.l[k] == sample@.l[(start + k) % (l as int)],
            forall|k: int| 0 <= k < i ==> #[trigger] buf@.r[k] == sample@.r[(start + k) % (l as int)],
            forall|k: int| i <= k < n ==> #[trigger] buf@.l[k] == old(buf)@.l[k],
            forall|k: int| i <= k < n ==> #[trigger] buf@.r[k] == old(buf)@.r[k],
        decreases len - i,
    {
        let (left, right) = sample.frame((start + i) % l);
        buf.set_frame(i, left, right);
        i += 1;
    }
    *t = start + len;
    proof {
        let want = looped(old(buf)@, sample@, len, start);
        assert(old(buf)@.r.len() == n) by {
            assert(buf@.r.len() == n);
        }
        assert(buf@.l =~= want.l);
        assert(buf@.r =~= want.r);
    }
}

/// Starts a voice with velocity `v` whose onset is frame `i` of the chunk.
pub fn multi_trigger(ts: &mut VecDeque<SampleVoice>, i: usize, v: Scalar)
    ensures
        final(ts)@ == old(ts)@.push((onset(i), v)),
{
    ts.push_back((onset_of(i), v));
}

/// Whether a voice with offset `t` has played all `n` frames of its sample
/// by frame `i` of the chunk.
pub open spec fn voice_over(t: i64, i: usize, n: usize) -> bool {
    voice_pos(t, i) >= n
}

/// The frames that sound at frame `i` of the chunk: for every voice that is
/// not over, in order, its position in the sample and its velocity.
pub open spec fn taps(ts: Seq<SampleVoice>, i: usize, n: usize) -> Seq<(usize, Scalar)>
    decreases ts.len(),
{
    if ts.len() == 0 {
        Seq::empty()
    } else {
        let rest = taps(ts.drop_last(), i, n);
        if voice_over(ts.last().0, i, n) {
            rest
        } else {
            rest.push((voice_pos(ts.last().0, i) as usize, ts.last().1))
        }
    }
}

/// Number of voices that are over at frame `i` of the chunk.
pub open spec fn voices_over(ts: Seq<SampleVoice>, i: usize, n: usize) -> nat
    decreases ts.len(),
{
    if ts.len() == 0 {
        0
    } else {
        voices_over(ts.drop_last(), i, n) + if voice_over(ts.last().0, i, n) {
            1nat
        } else {
            0nat
        }
    }
}

proof fn lemma_voices_over_bound(ts: Seq<SampleVoice>, i: usize, n: usize)
    ensures
        voices_over(ts, i, n) <= ts.len(),
    decreases ts.len(),
{
    if ts.len() > 0 {
        lemma_voices_over_bound(ts.drop_last(), i, n);
    }
}

/// The frames of a sample of `n` frames that sound at frame `i` of the
/// chunk.  As many voices as are over leave the queue, oldest first.
pub fn multi_step(ts: &mut VecDeque<SampleVoice>, i: usize, n: usize) -> (out: Vec<(usize, Scalar)>)
    ensures
        out@ == taps(old(ts)@, i, n),
        final(ts)@ == old(ts)@.skip(voices_over(old(ts)@, i, n) as int),
{
    let mut out: Vec<(usize, Scalar)> = Vec::new();
    let mut pops: usize = 0;
    let count: usize = ts.len();
    let mut k: usize = 0;
    assert(ts@.take(0) =~= Seq::empty());
    while k < count
        invariant
            k <= count,
            count == ts@.len(),
            ts@ == old(ts)@,
            pops == voices_over(ts@.take(k as int), i, n),
            pops <= k,
            out@ == taps(ts@.take(k as int), i, n),
        decreases count - k,
    {
        let (t, vel) = ts[k];
        proof {
            assert(ts@.take(k + 1).drop_last() =~= ts@.take(k as int));
            assert(ts@.take(k + 1).last() == ts@[k as int]);
        }
        match position(t, i) {
            Some(pos) => {
                if pos >= n {
                    pops += 1;
                } else {
                    out.push((pos, vel));
                }
            },
            None => {
                pops += 1;
            },
        }
        k += 1;
    }
    assert(ts@.take(count as int) =~= ts@);
    let mut j: usize = 0;
    while j < pops
        invariant
            j <= pops,
            pops <= old(ts)@.len(),
            ts@ == old(ts)@.skip(j as int),
        decreases pops - j,
    {
        ts.pop_front();
        assert(ts@ =~= old(ts)@.skip(j + 1));
        j += 1;
    }
    out
}

/// The voices one chunk of `len` frames later.
pub open spec fn voices_advanced(ts: Seq<SampleVoice>, len: usize) -> Seq<SampleVoice> {
    Seq::new(ts.len(), |k: int| (advanced(ts[k].0, len), ts[k].1))
}

/// Moves every voice one chunk of `len` frames on.
pub fn multi_advance(ts: &mut VecDeque<SampleVoice>, len: usize)
    ensures
        final(ts)@ == voices_advanced(old(ts)@, len),
{
    let count: usize = ts.len();
    let mut moved: VecDeque<SampleVoice> = VecDeque::new();
    let mut k: usize = 0;
    while k < count
        invariant
            k <= count,
            count == ts@.len(),
            ts@ == old(ts)@,
            moved@.len() == k,
            forall|j: int| 0 <= j < k ==> #[trigger] moved@[j] == (advanced(ts@[j].0, len), ts@[j].1),
        decreases count - k,
    {
        let (t, vel) = ts[k];
        moved.push_back((advance(t, len), vel));
        k += 1;
    }
    *ts = moved;
    assert(ts@ =~= voices_advanced(old(ts)@, len));
}

/// A position clamped into a sample of `n` frames.
pub open spec fn clamped_pos(t: i64, i: usize, n: usize) -> int {
    if voice_pos(t, i) > n - 1 {
        n - 1
    } else {
        voice_pos(t, i)
    }
}

fn clamped(t: i64, i: usize, n: usize) -> (p: usize)
    requires
        n > 0,
    ensures
        p == clamped_pos(t, i, n),
{
    match position(t, i) {
        Some(pos) => if pos > n - 1 {
            n - 1
        } else {
            pos
        },
        None => n - 1,
    }
}

/// Retriggers a monophonic player at frame `i` of the chunk: the sounding
/// voice becomes the fading one, the new voice starts, and the fade begins.
pub fn lerp_trigger(
    primary: &mut SampleVoice,
    fading: &mut SampleVoice,
    countdown: &mut usize,
    lerp_len: usize,
    i: usize,
    v: Scalar,
)
    ensures
        *final(fading) == *old(primary),
        *final(primary) == (onset(i), v),
        *final(countdown) == lerp_len,
{
    *fading = *primary;
    *primary = (onset_of(i), v);
    *countdown = lerp_len;
}

/// What a monophonic player reads at frame `i` of the chunk.
pub struct LerpFrame {
    /// Position of the sounding voice in the sample.
    pub primary_pos: usize,
    /// While a fade lasts: position of the fading voice, and the frames of
    /// the fade that remain after this one.
    pub fade: Option<(usize, usize)>,
}

/// The positions a monophonic player reads at frame `i` of the chunk, in a
/// sample of `n` frames; a fade in progress moves one frame on.
pub fn lerp_step(primary: &SampleVoice, fading: &SampleVoice, countdown: &mut usize, i: usize, n: usize) -> (f:
    LerpFrame)
    requires
        n > 0,
    ensures
        f.primary_pos == clamped_pos(primary.0, i, n),
        *old(countdown) > 0 ==> *final(countdown) == *old(countdown) - 1 && f.fade == Some(
            (clamped_pos(fading.0, i, n) as usize, *final(countdown)),
        ),
        *old(countdown) == 0 ==> *final(countdown) == 0 && f.fade is None,
{
    let primary_pos: usize = clamped(primary.0, i, n);
    if *countdown > 0 {
        *countdown = *countdown - 1;
        let fading_pos: usize = clamped(fading.0, i, n);
        LerpFrame { primary_pos, fade: Some((fading_pos, *countdown)) }
    } else {
        LerpFrame { primary_pos, fade: None }
    }
}

/// Moves both voices of a monophonic player one chunk of `len` frames on.
pub fn lerp_advance(primary: &mut SampleVoice, fading: &mut SampleVoice, len: usize)
    ensures
        *final(primary) == (advanced(old(primary).0, len), old(primary).1),
        *final(fading) == (advanced(old(fading).0, len), old(fading).1),
{
    *primary = (advance(primary.0, len), primary.1);
    *fading = (advance(fading.0, len), fading.1);
}

} // verus!
