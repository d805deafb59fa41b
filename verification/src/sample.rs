//! Stereo PCM containers and the way a sound file's channels become one.

use vstd::prelude::*;
use vstd::string::*;
use crate::bank::{Bank, BankView};
use crate::scalar::Scalar;

verus! {

/// How the channels of a sound file are turned into a stereo sample.
#[derive(Clone, Copy, Debug, PartialEq, Eq, Structural)]
pub enum SampleLoadMethod {
    /// Both channels as they are.
    Stereo,
    /// The left channel on both sides.
    Left,
    /// The right channel on both sides.
    Right,
    /// The louder channel on both sides.
    Loudest,
    /// Both channels, each brought to unit peak on its own.
    Norm,
    /// The sum of both channels on both sides.
    Mix,
}

/// The method a name stands for; every unknown name stands for `Stereo`.
pub open spec fn method_named(name: Seq<char>) -> SampleLoadMethod {
    if name == "left"@ {
        SampleLoadMethod::Left
    } else if name == "right"@ {
        SampleLoadMethod::Right
    } else if name == "loudest"@ {
        SampleLoadMethod::Loudest
    } else if name == "normalize-seperate"@ {
        SampleLoadMethod::Norm
    } else if name == "mix-down"@ {
        SampleLoadMethod::Mix
    } else {
        SampleLoadMethod::Stereo
    }
}

impl SampleLoadMethod {
    /// Reads a method from its name in a project description.
    pub fn from(string: &str) -> (m: Self)
        ensures
            m == method_named(string@),
    {
        let s: String = String::from_str(string);
        if s == String::from_str("left") {
            SampleLoadMethod::Left
        } else if s == String::from_str("right") {
            SampleLoadMethod::Right
        } else if s == String::from_str("loudest") {
            SampleLoadMethod::Loudest
        } else if s == String::from_str("normalize-seperate") {
            SampleLoadMethod::Norm
        } else if s == String::from_str("mix-down") {
            SampleLoadMethod::Mix
        } else {
            SampleLoadMethod::Stereo
        }
    }
}

/// Why two channels could not be made into a sample.
#[derive(Clone, Copy, Debug, PartialEq, Eq, Structural)]
pub enum SampleError {
    /// The left channel was asked for and is empty.
    EmptyLeft,
    /// The right channel was asked for and is empty.
    EmptyRight,
    /// Both channels were asked for and differ in length.
    LengthMismatch { left: usize, right: usize },
    /// Both channels were asked for and are empty.
    Empty,
}

/// A stretch of stereo sound: two channels of equal length.
#[derive(Debug, PartialEq, Eq)]
pub struct Sample {
    l: Vec<Scalar>,
    r: Vec<Scalar>,
}

/// The abstract value of a [`Sample`]: its two channels.
pub struct SampleView {
    pub l: Seq<Scalar>,
    pub r: Seq<Scalar>,
}

impl View for Sample {
    type V = SampleView;

    closed spec fn view(&self) -> SampleView {
        SampleView { l: self.l@, r: self.r@ }
    }
}

/// `n` frames of silence.
pub open spec fn silence(n: nat) -> Seq<Scalar> {
    Seq::new(n, |i: int| Scalar { bits: 0 })
}

/// Two channels woven into one sequence: left, right, left, right, ...
pub open spec fn interleaved(l: Seq<Scalar>, r: Seq<Scalar>) -> Seq<Scalar> {
    Seq::new(
        2 * l.len(),
        |i: int|
            if i % 2 == 0 {
                l[i / 2]
            } else {
                r[i / 2]
            },
    )
}

/// What [`Sample::from`] makes of two channels.
pub open spec fn sample_from(
    l: Seq<Scalar>,
    r: Seq<Scalar>,
    method: SampleLoadMethod,
    left_is_louder: bool,
) -> Result<SampleView, SampleError> {
    match method {
        SampleLoadMethod::Left => if l.len() == 0 {
            Err(SampleError::EmptyLeft)
        } else {
            Ok(SampleView { l: l, r: l })
        },
        SampleLoadMethod::Right => if r.len() == 0 {
            Err(SampleError::EmptyRight)
        } else {
            Ok(SampleView { l: r, r: r })
        },
        SampleLoadMethod::Loudest => if left_is_louder {
            Ok(SampleView { l: l, r: l })
        } else {
            Ok(SampleView { l: r, r: r })
        },
        _ => if l.len() != r.len() {
            Err(SampleError::LengthMismatch { left: l.len() as usize, right: r.len() as usize })
        } else if l.len() == 0 {
            Err(SampleError::Empty)
        } else {
            Ok(SampleView { l: l, r: r })
        },
    }
}

fn zeros(n: usize) -> (v: Vec<Scalar>)
    ensures
        v@ == silence(n as nat),
{
    let mut v: Vec<Scalar> = Vec::new();
    let mut i: usize = 0;
    while i < n
        invariant
            i <= n,
            v@ == silence(i as nat),
        decreases n - i,
    {
        v.push(Scalar::zero());
        assert(v@ =~= silence((i + 1) as nat));
        i += 1;
    }
    v
}

fn copy_of(v: &Vec<Scalar>) -> (c: Vec<Scalar>)
    ensures
        c@ == v@,
{
    let mut c: Vec<Scalar> = Vec::new();
    let mut i: usize = 0;
    while i < v.len()
        invariant
            i <= v.len(),
            c@ == v@.take(i as int),
        decreases v.len() - i,
    {
        c.push(v[i]);
        assert(c@ =~= v@.take(i + 1));
        i += 1;
    }
    assert(v@.take(v.len() as int) =~= v@);
    c
}

impl Clone for Sample {
    /// A copy with the same frames.
    fn clone(&self) -> (s: Self)
        ensures
            s@ == self@,
    {
        proof {
            use_type_invariant(self);
        }
        Sample { l: copy_of(&self.l), r: copy_of(&self.r) }
    }
}

impl Sample {
    /// Both channels have the same length.
    #[verifier::type_invariant]
    spec fn channels_match(self) -> bool {
        self.l@.len() == self.r@.len()
    }

    /// A silent sample of `bl` frames.
    pub fn new(bl: usize) -> (s: Self)
        ensures
            s@.l == silence(bl as nat),
            s@.r == silence(bl as nat),
    {
        Self { l: zeros(bl), r: zeros(bl) }
    }

    /// Makes a sample of two channels as `method` says.
    ///
    /// `Left` and `Right` put one channel on both sides and reject it when
    /// it is empty.  `Loudest` puts the left channel on both sides when
    /// `left_is_louder` is set, and the right one otherwise.  Every other
    /// method keeps both channels and rejects channels that differ in length
    /// or are empty.
    pub fn from(l: Vec<Scalar>, r: Vec<Scalar>, method: SampleLoadMethod, left_is_louder: bool) -> (res:
        Result<Self, SampleError>)
        ensures
            match res {
                Ok(s) => sample_from(l@, r@, method, left_is_louder) == Ok::<SampleView, SampleError>(s@),
                Err(e) => sample_from(l@, r@, method, left_is_louder) == Err::<SampleView, SampleError>(e),
            },
    {
        match method {
            SampleLoadMethod::Left => {
                if l.len() == 0 {
                    return Err(SampleError::EmptyLeft);
                }
                let c: Vec<Scalar> = copy_of(&l);
                Ok(Self { l: c, r: l })
            },
            SampleLoadMethod::Right => {
                if r.len() == 0 {
                    return Err(SampleError::EmptyRight);
                }
                let c: Vec<Scalar> = copy_of(&r);
                Ok(Self { l: c, r })
            },
            SampleLoadMethod::Loudest => {
                if left_is_louder {
                    let c: Vec<Scalar> = copy_of(&l);
                    Ok(Self { l: c, r: l })
                } else {
                    let c: Vec<Scalar> = copy_of(&r);
                    Ok(Self { l: c, r })
                }
            },
            _ => {
                if l.len() != r.len() {
                    return Err(SampleError::LengthMismatch { left: l.len(), right: r.len() });
                }
                if l.len() == 0 {
                    return Err(SampleError::Empty);
                }
                Ok(Self { l, r })
            },
        }
    }

    /// Number of frames.
    pub fn len(&self) -> (n: usize)
        ensures
            n == self@.l.len(),
            n == self@.r.len(),
    {
        proof {
            use_type_invariant(self);
        }
        self.l.len()
    }

    /// The left channel.
    pub fn left(&self) -> (c: &Vec<Scalar>)
        ensures
            c@ == self@.l,
    {
        &self.l
    }

    /// The right channel.
    pub fn right(&self) -> (c: &Vec<Scalar>)
        ensures
            c@ == self@.r,
    {
        &self.r
    }

    /// Overwrites frame `i`; nothing happens when there is no such frame.
    pub fn set_frame(&mut self, i: usize, left: Scalar, right: Scalar)
        ensures
            i < old(self)@.l.len() ==> final(self)@ == (SampleView {
                l: old(self)@.l.update(i as int, left),
                r: old(self)@.r.update(i as int, right),
            }),
            i >= old(self)@.l.len() ==> final(self)@ == old(self)@,
    {
        proof {
            use_type_invariant(&*self);
        }
        if i < self.l.len() {
            let mut held: Sample = Sample { l: Vec::new(), r: Vec::new() };
            std::mem::swap(&mut held, self);
            let Sample { l, r } = held;
            let mut l: Vec<Scalar> = l;
            let mut r: Vec<Scalar> = r;
            l.set(i, left);
            r.set(i, right);
            *self = Sample { l, r };
        }
    }

    /// Frame `i`: its left and its right value.
    pub fn frame(&self, i: usize) -> (f: (Scalar, Scalar))
        requires
            i < self@.l.len(),
        ensures
            f == (self@.l[i as int], self@.r[i as int]),
    {
        proof {
            use_type_invariant(self);
        }
        (self.l[i], self.r[i])
    }

    /// Replaces both channels by silence of the same length.
    pub fn zero(&mut self)
        ensures
            final(self)@.l == silence(old(self)@.l.len()),
            final(self)@.r == silence(old(self)@.l.len()),
    {
        proof {
            use_type_invariant(&*self);
        }
        let n: usize = self.l.len();
        let silent: Sample = Sample::new(n);
        *self = silent;
    }

    /// The frames as one sequence, left and right in turn.
    pub fn interleave(self) -> (res: Vec<Scalar>)
        ensures
            res@ == interleaved(self@.l, self@.r),
    {
        proof {
            use_type_invariant(&self);
        }
        let mut res: Vec<Scalar> = Vec::new();
        let n: usize = self.l.len();
        let mut i: usize = 0;
        while i < n
            invariant
                i <= n,
                n == self.l@.len(),
                n == self.r@.len(),
                res@.len() == 2 * i,
                forall|k: int| 0 <= k < 2 * i ==> #[trigger] res@[k] == interleaved(self.l@, self.r@)[k],
            decreases n - i,
        {
            res.push(self.l[i]);
            res.push(self.r[i]);
            i += 1;
        }
        assert(res@ =~= interleaved(self@.l, self@.r));
        res
    }
}

/// Why a sound file was not taken into the bank.
#[derive(Clone, Copy, Debug, PartialEq, Eq, Structural)]
pub enum SampleBankError {
    /// The name is taken.
    DuplicateName,
    /// A stereo sample was asked for and the file does not have two channels.
    NotStereo { channels: u16 },
    /// The file has more than two channels.
    TooManyChannels { channels: u16 },
}

/// The channels of a sound file, given its frames one after the other.
///
/// A file of one channel gives that channel on the side that `Left` names,
/// else on the right, and nothing on the other side.  Every other file gives
/// its values to left and right in turn; a value left over goes to the left.
pub open spec fn channels_of(linear: Seq<Scalar>, channels: u16, method: SampleLoadMethod) -> (
    Seq<Scalar>,
    Seq<Scalar>,
) {
    if channels == 1 {
        if method == SampleLoadMethod::Left {
            (linear, Seq::empty())
        } else {
            (Seq::empty(), linear)
        }
    } else {
        (
            Seq::new(((linear.len() + 1) / 2) as nat, |i: int| linear[2 * i]),
            Seq::new((linear.len() / 2) as nat, |i: int| linear[2 * i + 1]),
        )
    }
}

/// Splits the values of a sound file into its channels.
pub fn split_channels(linear: Vec<Scalar>, channels: u16, method: SampleLoadMethod) -> (r: (
    Vec<Scalar>,
    Vec<Scalar>,
))
    ensures
        (r.0@, r.1@) == channels_of(linear@, channels, method),
{
    if channels == 1 {
        if method == SampleLoadMethod::Left {
            (linear, Vec::new())
        } else {
            (Vec::new(), linear)
        }
    } else {
        let mut l: Vec<Scalar> = Vec::new();
        let mut r: Vec<Scalar> = Vec::new();
        let half_len: usize = linear.len() / 2;
        let mut i: usize = 0;
        while i < half_len
            invariant
                i <= half_len,
                half_len == linear@.len() / 2,
                linear@.len() <= usize::MAX,
                l@.len() == i,
                r@.len() == i,
                forall|k: int| 0 <= k < i ==> #[trigger] l@[k] == linear@[2 * k],
                forall|k: int| 0 <= k < i ==> #[trigger] r@[k] == linear@[2 * k + 1],
            decreases half_len - i,
        {
            assert(2 * i + 1 < linear@.len());
            l.push(linear[2 * i]);
            r.push(linear[2 * i + 1]);
            i += 1;
        }
        if linear.len() % 2 == 1 {
            l.push(linear[linear.len() - 1]);
        }
        assert(l@ =~= channels_of(linear@, channels, method).0);
        assert(r@ =~= channels_of(linear@, channels, method).1);
        (l, r)
    }
}

/// The abstract state of a [`SampleBank`].
pub struct SampleBankView {
    /// The rate every sample is brought to.
    pub sample_rate: usize,
    /// The samples with their names and marks.
    pub bank: BankView<Sample>,
    /// The highest sample rate among the files seen.
    pub max_sr: usize,
    /// The highest bit depth among the files seen.
    pub max_bd: usize,
}

impl SampleBankView {
    /// Whether a file with these properties is refused, and why.
    pub open spec fn refusal(self, name: Seq<char>, channels: u16, method: SampleLoadMethod) -> Option<
        SampleBankError,
    > {
        if self.bank.has(name) {
            Some(SampleBankError::DuplicateName)
        } else if method == SampleLoadMethod::Stereo && channels != 2 {
            Some(SampleBankError::NotStereo { channels })
        } else if method != SampleLoadMethod::Stereo && channels > 2 {
            Some(SampleBankError::TooManyChannels { channels })
        } else {
            None
        }
    }
}

/// The greater of two numbers.
pub open spec fn larger(a: usize, b: usize) -> usize {
    if a >= b {
        a
    } else {
        b
    }
}

/// Samples under unique names, all at one rate, with deferred removal.
pub struct SampleBank {
    sample_rate: usize,
    bank: Bank<Sample>,
    max_sr: usize,
    max_bd: usize,
}

impl View for SampleBank {
    type V = SampleBankView;

    closed spec fn view(&self) -> SampleBankView {
        SampleBankView {
            sample_rate: self.sample_rate,
            bank: self.bank@,
            max_sr: self.max_sr,
            max_bd: self.max_bd,
        }
    }
}

impl SampleBank {
    /// Whether the bank's invariant holds.
    pub closed spec fn wf(&self) -> bool {
        self.bank.wf()
    }

    /// A well-formed bank has a well-formed state.
    pub proof fn lemma_wf(&self)
        requires
            self.wf(),
        ensures
            self@.bank.wf(),
    {
        self.bank.lemma_wf();
    }

    /// An empty bank whose samples are to have rate `sample_rate`.
    pub fn new(sample_rate: usize) -> (bank: Self)
        ensures
            bank.wf(),
            bank@ == (SampleBankView { sample_rate, bank: BankView::<Sample>::blank(), max_sr: 0, max_bd: 0 }),
    {
        Self { sample_rate, bank: Bank::new(), max_sr: 0, max_bd: 0 }
    }

    /// Decides whether a sound file may be loaded under `name`, and notes
    /// its quality if so.
    ///
    /// A taken name is refused; a stereo sample needs a file of two channels,
    /// every other method a file of at most two.  For a file that is not
    /// refused the highest rate and bit depth seen are brought up to date, and
    /// the result says whether the file's rate is above the bank's.
    pub fn accept(&mut self, name: &str, channels: u16, sr: usize, bd: usize, method: SampleLoadMethod) -> (r:
        Result<bool, SampleBankError>)
        requires
            old(self).wf(),
        ensures
            final(self).wf(),
            match old(self)@.refusal(name@, channels, method) {
                Some(e) => r == Err::<bool, SampleBankError>(e) && final(self)@ == old(self)@,
                None => r == Ok::<bool, SampleBankError>(sr > old(self)@.sample_rate) && final(self)@ == (
                SampleBankView {
                    max_sr: larger(old(self)@.max_sr, sr),
                    max_bd: larger(old(self)@.max_bd, bd),
                    ..old(self)@
                }),
            },
    {
        if self.bank.get_index(name).is_some() {
            return Err(SampleBankError::DuplicateName);
        }
        if method == SampleLoadMethod::Stereo && channels != 2 {
            return Err(SampleBankError::NotStereo { channels });
        }
        if method != SampleLoadMethod::Stereo && channels > 2 {
            return Err(SampleBankError::TooManyChannels { channels });
        }
        if sr > self.max_sr {
            self.max_sr = sr;
        }
        if bd > self.max_bd {
            self.max_bd = bd;
        }
        Ok(sr > self.sample_rate)
    }

    /// Stores `sample` under `name`, unless the name is taken.
    pub fn insert(&mut self, name: String, sample: Sample) -> (r: Result<(), SampleBankError>)
        requires
            old(self).wf(),
        ensures
            final(self).wf(),
            r is Err <==> old(self)@.bank.has(name@),
            r is Err ==> r == Err::<(), SampleBankError>(SampleBankError::DuplicateName) && final(self)@ == old(
                self,
            )@,
            r is Ok ==> final(self)@ == (SampleBankView {
                bank: BankView {
                    items: old(self)@.bank.items.push(sample),
                    labels: old(self)@.bank.labels.push(name@),
                    marked: old(self)@.bank.marked.push(false),
                },
                ..old(self)@
            }),
    {
        match self.bank.add(name, sample) {
            Ok(()) => Ok(()),
            Err(_) => Err(SampleBankError::DuplicateName),
        }
    }

    /// Marks the sample named `name` for removal; an unknown name changes
    /// nothing.
    pub fn mark_dead(&mut self, name: &str)
        requires
            old(self).wf(),
        ensures
            final(self).wf(),
            final(self)@ == (SampleBankView { bank: old(self)@.bank.with_mark(name@), ..old(self)@ }),
    {
        self.bank.mark_dead(name);
    }

    /// Removes the marked samples; the others move together, in order.
    pub fn refresh(&mut self)
        requires
            old(self).wf(),
        ensures
            final(self).wf(),
            final(self)@ == (SampleBankView { bank: old(self)@.bank.swept(), ..old(self)@ }),
    {
        self.bank.refresh();
    }

    /// The index of the sample named `name`, if there is one.
    pub fn get_index(&self, name: &str) -> (r: Option<usize>)
        requires
            self.wf(),
        ensures
            r is Some <==> self@.bank.has(name@),
            r is Some ==> r->0 < self@.bank.labels.len() && self@.bank.labels[r->0 as int] == name@,
            r == self@.bank.index_of(name@),
    {
        self.bank.get_index(name)
    }

    /// Number of samples.
    pub fn len(&self) -> (n: usize)
        ensures
            n == self@.bank.items.len(),
    {
        self.bank.len()
    }

    /// Sample `index`.
    pub fn get_sample(&self, index: usize) -> (s: &Sample)
        requires
            index < self@.bank.items.len(),
        ensures
            *s == self@.bank.items[index as int],
    {
        self.bank.get(index).unwrap()
    }

    /// The rate every sample of the bank has.
    pub fn sample_rate(&self) -> (r: usize)
        ensures
            r == self@.sample_rate,
    {
        self.sample_rate
    }

    /// The highest sample rate and the highest bit depth among the files
    /// seen.
    pub fn get_max_sr_bd(&self) -> (r: (usize, usize))
        ensures
            r == (self@.max_sr, self@.max_bd),
    {
        (self.max_sr, self.max_bd)
    }
}

} // verus!
