//! The bank of flowws: named, time-ordered note-event sequences with block
//! cursors.
//!
//! A floww is a sequence of [`Event`]s, each placed on the frame at which it
//! sounds.  The bank keeps, for every floww, the index of the first event of
//! the current chunk window, and one running cursor that generators advance
//! while they walk through a chunk frame by frame.

use vstd::prelude::*;
use vstd::hash_map::StringHashMap;
use crate::scalar::{less_than, Scalar};

verus! {

/// Bit pattern of the velocity above which an event is a note-on (0.001).
pub const NOTE_ON_THRESHOLD_BITS: u32 = 0x3A83_126F;

/// One note event.
#[derive(Clone, Copy, Debug, PartialEq, Eq, Structural)]
pub struct Event {
    /// Identifier of the channel the event came from.
    pub channel: usize,
    /// Frame, at the bank's sample rate, on which the event sounds.
    pub frame: usize,
    /// Note number.
    pub note: Scalar,
    /// Velocity; at most 0.001 for a note-off.
    pub velocity: Scalar,
}

/// Whether an event is a note-on: its velocity exceeds 0.001.
pub open spec fn is_note_on(e: Event) -> bool {
    less_than(NOTE_ON_THRESHOLD_BITS, e.velocity.bits)
}

impl Event {
    /// Whether the event is a note-on.
    pub fn is_on(&self) -> (r: bool)
        ensures
            r == is_note_on(*self),
    {
        self.velocity.gt(&Scalar::from_bits(NOTE_ON_THRESHOLD_BITS))
    }
}

/// One item of a live event stream.
#[derive(Clone, Debug)]
pub enum FlowwPacket {
    /// A control notice, handed back to the caller.
    Msg(String),
    /// Selects the stream that the following points belong to.
    Track(String),
    /// An event for the selected stream.
    Point(Event),
}

/// What a drum-mode poll hands out for one event.
pub type Hit = (Scalar, Scalar);

/// What a simple-mode poll hands out for one event: on?, note, velocity.
pub type Note = (bool, Scalar, Scalar);

/// Index of the first event at or after frame `t` among `floww[from..]`, or
/// the length of the floww when there is none.
pub open spec fn seek_cursor(floww: Seq<Event>, from: int, t: int) -> int
    decreases floww.len() - from,
{
    if from < 0 || from >= floww.len() {
        floww.len() as int
    } else if floww[from].frame >= t {
        from
    } else {
        seek_cursor(floww, from + 1, t)
    }
}

/// Whether `c` is where a scan of `floww` from `from` for frame `t` ends: at
/// the first event at or after `t`, or at the end of the floww if every event
/// from `from` on lies before `t`.
pub open spec fn is_first_from(floww: Seq<Event>, from: int, t: int, c: int) -> bool {
    &&& from <= c <= floww.len()
    &&& forall|k: int| from <= k < c ==> (#[trigger] floww[k]).frame < t
    &&& c < floww.len() ==> floww[c].frame >= t
}

/// `seek_cursor` ends at the smallest index at or after `from` whose event is
/// not before `t`, and at the end of the floww exactly when every event from
/// `from` on is before `t`.
pub proof fn lemma_seek_cursor(floww: Seq<Event>, from: int, t: int)
    requires
        0 <= from <= floww.len(),
    ensures
        is_first_from(floww, from, t, seek_cursor(floww, from, t)),
    decreases floww.len() - from,
{
    if from >= floww.len() {
    } else if floww[from].frame >= t {
    } else {
        lemma_seek_cursor(floww, from + 1, t);
        let c = seek_cursor(floww, from + 1, t);
        assert forall|k: int| from <= k < c implies (#[trigger] floww[k]).frame < t by {
            if k > from {
                assert(from + 1 <= k < c);
            }
        }
    }
}

/// The flowws after a sequence of stream packets was taken in.
///
/// A `Track` packet selects the floww of that name, or none when the name is
/// unknown; a `Point` packet is appended to the selected floww, and dropped
/// when there is none; a `Msg` packet changes nothing.
pub open spec fn absorb(
    flowws: Seq<Seq<Event>>,
    names: Map<Seq<char>, usize>,
    packets: Seq<FlowwPacket>,
    current: Option<usize>,
) -> Seq<Seq<Event>>
    decreases packets.len(),
{
    if packets.len() == 0 {
        flowws
    } else {
        let rest = packets.drop_first();
        match packets[0] {
            FlowwPacket::Msg(_) => absorb(flowws, names, rest, current),
            FlowwPacket::Track(name) => absorb(flowws, names, rest, lookup(names, name@)),
            FlowwPacket::Point(e) => absorb(append_to(flowws, current, e), names, rest, current),
        }
    }
}

/// The index a name stands for, if any.
pub open spec fn lookup(names: Map<Seq<char>, usize>, name: Seq<char>) -> Option<usize> {
    if names.contains_key(name) {
        Some(names[name])
    } else {
        None
    }
}

/// `flowws` with `e` appended to the selected floww, if one is selected and
/// exists.
pub open spec fn append_to(flowws: Seq<Seq<Event>>, current: Option<usize>, e: Event) -> Seq<
    Seq<Event>,
> {
    match current {
        Some(c) => if c < flowws.len() {
            flowws.update(c as int, flowws[c as int].push(e))
        } else {
            flowws
        },
        None => flowws,
    }
}

/// The control notices among a sequence of packets, in order.
pub open spec fn notices(packets: Seq<FlowwPacket>) -> Seq<Seq<char>>
    decreases packets.len(),
{
    if packets.len() == 0 {
        Seq::empty()
    } else {
        let rest = notices(packets.drop_last());
        match packets.last() {
            FlowwPacket::Msg(m) => rest.push(m@),
            _ => rest,
        }
    }
}

/// Whether index `i` occurs in `list`.
pub open spec fn listed(list: Seq<usize>, i: int) -> bool {
    exists|k: int| 0 <= k < list.len() && #[trigger] list[k] == i
}

proof fn lemma_listed_push(list: Seq<usize>, x: usize, i: int)
    ensures
        listed(list.push(x), i) <==> (listed(list, i) || x == i),
{
    if listed(list.push(x), i) {
        let k = choose|k: int| 0 <= k < list.push(x).len() && #[trigger] list.push(x)[k] == i;
        if k < list.len() {
            assert(list[k] == i);
        }
    }
    if listed(list, i) {
        let k = choose|k: int| 0 <= k < list.len() && #[trigger] list[k] == i;
        assert(list.push(x)[k] == i);
    }
    if x == i {
        assert(list.push(x)[list.len() as int] == i);
    }
}

/// The abstract state of a [`FlowwBank`].
pub struct FlowwBankView {
    /// Frames per second.
    pub samplerate: usize,
    /// Frames per chunk.
    pub block_len: usize,
    /// First frame of the current chunk window.
    pub frame: usize,
    /// The running cursor of the block in progress.
    pub block_index: usize,
    /// The event sequences, by index.
    pub flowws: Seq<Seq<Event>>,
    /// For each floww, the index at which the current window starts.
    pub cursors: Seq<usize>,
    /// The index each name stands for.
    pub names: Map<Seq<char>, usize>,
    /// Indices of the flowws that are fed live.
    pub streams: Seq<usize>,
}

impl FlowwBankView {
    /// The invariant of a bank: one cursor per floww, each within its floww;
    /// names and streams point at existing flowws; no floww is longer than
    /// an index can tell.
    pub open spec fn wf(self) -> bool {
        &&& self.cursors.len() == self.flowws.len()
        &&& forall|i: int| 0 <= i < self.cursors.len() ==> #[trigger] self.cursors[i] <= self.flowws[i].len()
        &&& forall|i: int| 0 <= i < self.flowws.len() ==> (#[trigger] self.flowws[i]).len() <= usize::MAX
        &&& forall|n: Seq<char>| #[trigger] self.names.contains_key(n) ==> self.names[n] < self.flowws.len()
        &&& forall|k: int| 0 <= k < self.streams.len() ==> #[trigger] self.streams[k] < self.flowws.len()
    }

    /// The bank without flowws, at frame 0.
    pub open spec fn blank(samplerate: usize, block_len: usize) -> FlowwBankView {
        FlowwBankView {
            samplerate,
            block_len,
            frame: 0,
            block_index: 0,
            flowws: Seq::empty(),
            cursors: Seq::empty(),
            names: Map::empty(),
            streams: Seq::empty(),
        }
    }

    /// The cursors after a seek to frame `t`: each moves to the first event
    /// at or after `t`, searched from the old cursor when `do_skip` is set and
    /// from the start otherwise, and to the end of its floww when no such
    /// event exists.
    pub open spec fn seek(self, t: usize, do_skip: bool) -> Seq<usize> {
        Seq::new(
            self.cursors.len(),
            |i: int|
                seek_cursor(
                    self.flowws[i],
                    if do_skip {
                        self.cursors[i] as int
                    } else {
                        0
                    },
                    t as int,
                ) as usize,
        )
    }

    /// The bank after a seek to frame `t` from the start of every floww.
    pub open spec fn set_time(self, t: usize) -> FlowwBankView {
        FlowwBankView { frame: t, cursors: self.seek(t, false), ..self }
    }

    /// The bank after its window moved one chunk on.
    pub open spec fn next_block(self) -> FlowwBankView {
        let t = (self.frame + self.block_len) as usize;
        FlowwBankView { frame: t, cursors: self.seek(t, true), ..self }
    }

    /// The flowws after trimming: every streamed floww loses the events before
    /// its cursor.
    pub open spec fn trimmed_flowws(self) -> Seq<Seq<Event>> {
        Seq::new(
            self.flowws.len(),
            |i: int|
                if listed(self.streams, i) {
                    self.flowws[i].subrange(self.cursors[i] as int, self.flowws[i].len() as int)
                } else {
                    self.flowws[i]
                },
        )
    }

    /// The cursors after trimming: those of streamed flowws return to 0.
    pub open spec fn trimmed_cursors(self) -> Seq<usize> {
        Seq::new(
            self.cursors.len(),
            |i: int|
                if listed(self.streams, i) {
                    0usize
                } else {
                    self.cursors[i]
                },
        )
    }
}

/// Named note-event sequences with block cursors.
pub struct FlowwBank {
    sr: usize,
    bl: usize,
    frame: usize,
    block_index: usize,
    flowws: Vec<Vec<Event>>,
    start_indices: Vec<usize>,
    names: StringHashMap<usize>,
    stream_list: Vec<usize>,
}

impl View for FlowwBank {
    type V = FlowwBankView;

    closed spec fn view(&self) -> FlowwBankView {
        FlowwBankView {
            samplerate: self.sr,
            block_len: self.bl,
            frame: self.frame,
            block_index: self.block_index,
            flowws: Seq::new(self.flowws@.len(), |i: int| self.flowws@[i]@),
            cursors: self.start_indices@,
            names: self.names@,
            streams: self.stream_list@,
        }
    }
}

/// Scans `floww` from `from` for the first event at or after frame `t`.
fn seek_from(floww: &Vec<Event>, from: usize, t: usize) -> (c: usize)
    ensures
        c == seek_cursor(floww@, from as int, t as int),
{
    let mut j: usize = from;
    while j < floww.len()
        invariant
            from <= j,
            seek_cursor(floww@, from as int, t as int) == seek_cursor(floww@, j as int, t as int),
        decreases floww.len() - j,
    {
        if floww[j].frame >= t {
            return j;
        }
        j += 1;
    }
    floww.len()
}

impl FlowwBank {
    /// Whether the bank's invariant holds.
    pub open spec fn wf(&self) -> bool {
        self@.wf()
    }

    /// An empty bank for sample rate `sr` and chunks of `bl` frames.
    pub fn new(sr: usize, bl: usize) -> (bank: Self)
        ensures
            bank.wf(),
            bank@ == FlowwBankView::blank(sr, bl),
    {
        let bank = Self {
            sr,
            bl,
            frame: 0,
            block_index: 0,
            flowws: Vec::new(),
            start_indices: Vec::new(),
            names: StringHashMap::new(),
            stream_list: Vec::new(),
        };
        assert(bank@.flowws =~= Seq::empty());
        bank
    }

    /// Forgets every floww and returns to frame 0; rate and chunk length stay.
    pub fn reset(&mut self)
        ensures
            final(self).wf(),
            final(self)@ == FlowwBankView::blank(old(self)@.samplerate, old(self)@.block_len),
    {
        self.frame = 0;
        self.block_index = 0;
        self.flowws.clear();
        self.start_indices.clear();
        self.names.clear();
        self.stream_list.clear();
        assert(self@.flowws =~= Seq::empty());
    }

    /// Adds a floww under `name` and returns its index.  A name used before
    /// now stands for the new floww.
    pub fn declare_floww(&mut self, name: String, floww: Vec<Event>) -> (index: usize)
        requires
            old(self).wf(),
        ensures
            final(self).wf(),
            index == old(self)@.flowws.len(),
            final(self)@ == (FlowwBankView {
                flowws: old(self)@.flowws.push(floww@),
                cursors: old(self)@.cursors.push(0),
                names: old(self)@.names.insert(name@, index),
                ..old(self)@
            }),
    {
        let index: usize = self.flowws.len();
        self.flowws.push(floww);
        self.start_indices.push(0);
        self.names.insert(name, index);
        proof {
            assert(self@.flowws =~= old(self)@.flowws.push(floww@));
            self.lemma_lengths();
        }
        index
    }

    /// No floww is longer than an index can tell.
    proof fn lemma_lengths(&self)
        ensures
            forall|i: int| 0 <= i < self@.flowws.len() ==> (#[trigger] self@.flowws[i]).len() <= usize::MAX,
    {
        assert forall|i: int| 0 <= i < self@.flowws.len() implies (#[trigger] self@.flowws[i]).len()
            <= usize::MAX by {
            assert(self@.flowws[i] == self.flowws@[i]@);
            assert(self.flowws@[i]@.len() == self.flowws@[i].len());
        }
    }
}

/// Whether drum mode passes over an event while it looks for a hit on frame
/// `target`: the event is stale, or it is a note-off on that very frame.
pub open spec fn drum_skips(e: Event, target: int) -> bool {
    e.frame < target || (e.frame == target && !is_note_on(e))
}

/// What simple mode hands out for an event.
pub open spec fn note_of(e: Event) -> Note {
    (is_note_on(e), e.note, e.velocity)
}

/// Walks from `start` past everything drum mode skips on the way to frame
/// `goal`; returns where it stopped, and the hit if it stopped on one.
fn scan_drum(floww: &Vec<Event>, start: usize, goal: usize) -> (r: (usize, Option<Hit>))
    ensures
        start <= r.0,
        r.0 <= floww@.len() || r.0 == start,
        forall|k: int| start <= k < r.0 ==> drum_skips(#[trigger] floww@[k], goal as int),
        match r.1 {
            Some((note, velocity)) => {
                &&& r.0 < floww@.len()
                &&& floww@[r.0 as int].frame == goal
                &&& is_note_on(floww@[r.0 as int])
                &&& note == floww@[r.0 as int].note
                &&& velocity == floww@[r.0 as int].velocity
            },
            None => r.0 >= floww@.len() || floww@[r.0 as int].frame > goal,
        },
{
    let mut k: usize = start;
    while k < floww.len()
        invariant
            start <= k,
            k <= floww@.len() || k == start,
            forall|j: int| start <= j < k ==> drum_skips(#[trigger] floww@[j], goal as int),
        decreases floww.len() - k,
    {
        let e: Event = floww[k];
        if e.frame > goal {
            return (k, None);
        }
        if e.frame == goal && e.is_on() {
            return (k, Some((e.note, e.velocity)));
        }
        k += 1;
    }
    (k, None)
}

/// Collects from `start` the run of events on frame `goal`; returns where the
/// run ends, and what simple mode hands out for it.
fn scan_simple(floww: &Vec<Event>, start: usize, goal: usize) -> (r: (usize, Vec<Note>))
    ensures
        start <= r.0,
        r.0 <= floww@.len() || r.0 == start,
        r.1@.len() == r.0 - start,
        forall|k: int|
            start <= k < r.0 ==> {
                &&& (#[trigger] floww@[k]).frame == goal
                &&& r.1@[k - start] == note_of(floww@[k])
            },
        r.0 >= floww@.len() || floww@[r.0 as int].frame != goal,
{
    let mut res: Vec<Note> = Vec::new();
    let mut k: usize = start;
    while k < floww.len()
        invariant
            start <= k,
            k <= floww@.len() || k == start,
            res@.len() == k - start,
            forall|j: int|
                start <= j < k ==> {
                    &&& (#[trigger] floww@[j]).frame == goal
                    &&& res@[j - start] == note_of(floww@[j])
                },
        decreases floww.len() - k,
    {
        let e: Event = floww[k];
        if e.frame != goal {
            return (k, res);
        }
        let on: bool = e.is_on();
        res.push((on, e.note, e.velocity));
        k += 1;
    }
    (k, res)
}

impl FlowwBank {
    /// Adds an empty floww under `name` and marks it as fed live.
    pub fn declare_stream(&mut self, name: String)
        requires
            old(self).wf(),
        ensures
            final(self).wf(),
            final(self)@ == (FlowwBankView {
                flowws: old(self)@.flowws.push(Seq::empty()),
                cursors: old(self)@.cursors.push(0),
                names: old(self)@.names.insert(name@, old(self)@.flowws.len() as usize),
                streams: old(self)@.streams.push(old(self)@.flowws.len() as usize),
                ..old(self)@
            }),
    {
        let index: usize = self.declare_floww(name, Vec::new());
        self.stream_list.push(index);
    }

    /// The index `name` stands for, if any.
    pub fn get_index(&self, name: &str) -> (r: Option<usize>)
        ensures
            r == lookup(self@.names, name@),
    {
        match self.names.get(name) {
            Some(i) => Some(*i),
            None => None,
        }
    }

    /// First frame of the current chunk window.
    pub fn frame(&self) -> (f: usize)
        ensures
            f == self@.frame,
    {
        self.frame
    }

    /// Frames per chunk.
    pub fn block_len(&self) -> (n: usize)
        ensures
            n == self@.block_len,
    {
        self.bl
    }

    /// Frames per second.
    pub fn samplerate(&self) -> (n: usize)
        ensures
            n == self@.samplerate,
    {
        self.sr
    }

    /// Number of flowws in the bank.
    pub fn len(&self) -> (n: usize)
        ensures
            n == self@.flowws.len(),
    {
        self.flowws.len()
    }

    /// The events of floww `index`, or nothing when there is no such floww.
    pub fn events(&self, index: usize) -> (r: Option<&Vec<Event>>)
        ensures
            index < self@.flowws.len() ==> r is Some && r->0@ == self@.flowws[index as int],
            index >= self@.flowws.len() ==> r is None,
    {
        if index < self.flowws.len() {
            Some(&self.flowws[index])
        } else {
            None
        }
    }

    /// The index at which the current window of floww `index` starts.
    pub fn cursor(&self, index: usize) -> (r: Option<usize>)
        ensures
            index < self@.cursors.len() ==> r == Some(self@.cursors[index as int]),
            index >= self@.cursors.len() ==> r is None,
    {
        if index < self.start_indices.len() {
            Some(self.start_indices[index])
        } else {
            None
        }
    }

    /// Moves every cursor to the first event at or after frame `t_frame`,
    /// searching from the old cursor when `do_skip` is set and from the start
    /// otherwise.  A cursor whose floww has no such event moves to the end of
    /// its floww.
    pub fn set_start_indices_to_frame(&mut self, t_frame: usize, do_skip: bool)
        requires
            old(self).wf(),
        ensures
            final(self).wf(),
            final(self)@ == (FlowwBankView {
                cursors: old(self)@.seek(t_frame, do_skip),
                ..old(self)@
            }),
    {
        let n: usize = self.flowws.len();
        let mut i: usize = 0;
        while i < n
            invariant
                i <= n,
                n == self.flowws@.len(),
                self.start_indices@.len() == n,
                self.sr == old(self).sr,
                self.bl == old(self).bl,
                self.frame == old(self).frame,
                self.block_index == old(self).block_index,
                self.flowws == old(self).flowws,
                self.names == old(self).names,
                self.stream_list == old(self).stream_list,
                old(self).wf(),
                forall|k: int| 0 <= k < i ==> self.start_indices@[k] == #[trigger] old(self)@.seek(t_frame, do_skip)[k],
                forall|k: int| i <= k < n ==> self.start_indices@[k] == #[trigger] old(self).start_indices@[k],
            decreases n - i,
        {
            let old_start: usize = self.start_indices[i];
            let skip: usize = if do_skip {
                old_start
            } else {
                0
            };
            let c: usize = seek_from(&self.flowws[i], skip, t_frame);
            self.start_indices.set(i, c);
            i += 1;
        }
        assert(self@.cursors =~= old(self)@.seek(t_frame, do_skip));
        assert(self@.flowws =~= old(self)@.flowws);
        assert forall|i: int| 0 <= i < self@.cursors.len() implies #[trigger] self@.cursors[i]
            <= self@.flowws[i].len() by {
            assert(old(self)@.cursors[i] <= old(self)@.flowws[i].len());
            lemma_seek_cursor(
                old(self)@.flowws[i],
                if do_skip {
                    old(self)@.cursors[i] as int
                } else {
                    0
                },
                t_frame as int,
            );
        }
    }

    /// Seeks to frame `t`: the window starts there, and every cursor is found
    /// anew from the start of its floww.  It stands on the first event at or
    /// after `t`, or at the end of its floww if there is none, whatever was
    /// sought before.
    pub fn set_time(&mut self, t: usize)
        requires
            old(self).wf(),
        ensures
            final(self).wf(),
            final(self)@ == old(self)@.set_time(t),
            forall|i: int|
                0 <= i < old(self)@.flowws.len() ==> is_first_from(
                    old(self)@.flowws[i],
                    0,
                    t as int,
                    #[trigger] final(self)@.cursors[i] as int,
                ),
    {
        proof {
            lemma_set_time_finds_first(old(self)@, t);
        }
        self.set_start_indices_to_frame(t, false);
        self.frame = t;
    }

    /// Moves the window one chunk on, and every cursor forward to it.
    pub fn set_time_to_next_block(&mut self)
        requires
            old(self).wf(),
            old(self)@.frame + old(self)@.block_len <= usize::MAX,
        ensures
            final(self).wf(),
            final(self)@ == old(self)@.next_block(),
    {
        let next: usize = self.frame + self.bl;
        self.set_start_indices_to_frame(next, true);
        self.frame = next;
    }

    /// Puts the running cursor at the start of the current window of floww
    /// `index`.  Without such a floww nothing changes.
    pub fn start_block(&mut self, index: usize)
        ensures
            index < old(self)@.cursors.len() ==> final(self)@ == (FlowwBankView {
                block_index: old(self)@.cursors[index as int],
                ..old(self)@
            }),
            index >= old(self)@.cursors.len() ==> final(self)@ == old(self)@,
    {
        if index >= self.start_indices.len() {
            return ;
        }
        self.block_index = self.start_indices[index];
    }

    /// Drum-mode poll for the frame `offset_frame` into the current window.
    ///
    /// The running cursor passes every stale event and every note-off on the
    /// frame, and stops behind the first note-on on the frame, which is handed
    /// out, or at the first later event, or at the end.
    pub fn get_block_drum(&mut self, index: usize, offset_frame: usize) -> (hit: Option<Hit>)
        ensures
            index >= old(self)@.flowws.len() ==> hit is None && final(self)@ == old(self)@,
            index < old(self)@.flowws.len() ==> ({
                let floww = old(self)@.flowws[index as int];
                let target = old(self)@.frame + offset_frame;
                let stop = if hit is Some {
                    final(self)@.block_index - 1
                } else {
                    final(self)@.block_index as int
                };
                &&& final(self)@ == (FlowwBankView {
                    block_index: final(self)@.block_index,
                    ..old(self)@
                })
                &&& old(self)@.block_index <= stop
                &&& stop <= floww.len() || stop == old(self)@.block_index
                &&& forall|k: int|
                    old(self)@.block_index <= k < stop ==> drum_skips(#[trigger] floww[k], target)
                &&& match hit {
                    Some((note, velocity)) => {
                        &&& stop < floww.len()
                        &&& floww[stop].frame == target
                        &&& is_note_on(floww[stop])
                        &&& note == floww[stop].note
                        &&& velocity == floww[stop].velocity
                    },
                    None => stop >= floww.len() || floww[stop].frame > target,
                }
            }),
    {
        if index >= self.flowws.len() {
            return None;
        }
        assert(self@.flowws[index as int] == self.flowws@[index as int]@);
        let len: usize = self.flowws[index].len();
        if offset_frame > usize::MAX - self.frame {
            if self.block_index < len {
                self.block_index = len;
            }
            assert(self@.flowws =~= old(self)@.flowws);
            return None;
        }
        let goal: usize = self.frame + offset_frame;
        let (stop, hit) = scan_drum(&self.flowws[index], self.block_index, goal);
        self.block_index = if hit.is_some() {
            stop + 1
        } else {
            stop
        };
        assert(self@.flowws =~= old(self)@.flowws);
        hit
    }

    /// Simple-mode poll for the frame `offset_frame` into the current window.
    ///
    /// Hands out, in order, every event at the running cursor that sits on
    /// that frame, and leaves the cursor at the first event that does not.
    /// No event handed out lies before the window.
    pub fn get_block_simple(&mut self, index: usize, offset_frame: usize) -> (res: Vec<Note>)
        ensures
            index >= old(self)@.flowws.len() ==> res@.len() == 0 && final(self)@ == old(self)@,
            index < old(self)@.flowws.len() ==> ({
                let floww = old(self)@.flowws[index as int];
                let target = old(self)@.frame + offset_frame;
                let a = old(self)@.block_index as int;
                let b = final(self)@.block_index as int;
                &&& final(self)@ == (FlowwBankView { block_index: b as usize, ..old(self)@ })
                &&& a <= b
                &&& b <= floww.len() || b == a
                &&& res@.len() == b - a
                &&& forall|k: int|
                    a <= k < b ==> {
                        &&& (#[trigger] floww[k]).frame == target
                        &&& res@[k - a] == note_of(floww[k])
                    }
                &&& b >= floww.len() || floww[b].frame != target
                &&& forall|k: int| a <= k < b ==> (#[trigger] floww[k]).frame >= old(self)@.frame
            }),
    {
        if index >= self.flowws.len() {
            return Vec::new();
        }
        assert(self@.flowws[index as int] == self.flowws@[index as int]@);
        if offset_frame > usize::MAX - self.frame {
            assert(self@.flowws =~= old(self)@.flowws);
            return Vec::new();
        }
        let goal: usize = self.frame + offset_frame;
        let (stop, res) = scan_simple(&self.flowws[index], self.block_index, goal);
        self.block_index = stop;
        assert(self@.flowws =~= old(self)@.flowws);
        res
    }
}

/// A bank stays well-formed when its flowws change but keep their number
/// and every cursor stays within its floww.
proof fn lemma_wf_kept(before: FlowwBankView, after: FlowwBankView)
    requires
        before.wf(),
        after.names == before.names,
        after.streams == before.streams,
        after.flowws.len() == before.flowws.len(),
        after.cursors.len() == before.cursors.len(),
        forall|i: int| 0 <= i < after.cursors.len() ==> #[trigger] after.cursors[i] <= after.flowws[i].len(),
        forall|i: int| 0 <= i < after.flowws.len() ==> (#[trigger] after.flowws[i]).len() <= usize::MAX,
    ensures
        after.wf(),
{
    assert forall|k: int| 0 <= k < after.streams.len() implies #[trigger] after.streams[k] < after.flowws.len() by {
        assert(before.streams[k] < before.flowws.len());
    }
}

/// The texts of a sequence of strings.
pub open spec fn texts(v: Seq<String>) -> Seq<Seq<char>> {
    Seq::new(v.len(), |i: int| v[i]@)
}

impl FlowwBank {
    /// Takes in a batch of stream packets and returns its control notices.
    ///
    /// Points go to the floww that the latest `Track` packet named; before the
    /// first `Track` packet that is floww 0.  Points for an unknown name or a
    /// missing floww are dropped.
    pub fn append_streams(&mut self, packets: Vec<FlowwPacket>) -> (messages: Vec<String>)
        requires
            old(self).wf(),
        ensures
            final(self).wf(),
            final(self)@ == (FlowwBankView {
                flowws: absorb(old(self)@.flowws, old(self)@.names, packets@, Some(0usize)),
                ..old(self)@
            }),
            texts(messages@) == notices(packets@),
    {
        let mut messages: Vec<String> = Vec::new();
        let mut current: Option<usize> = Some(0);
        let n: usize = packets.len();
        let mut k: usize = 0;
        assert(packets@.subrange(0, n as int) =~= packets@);
        assert(texts(messages@) =~= notices(packets@.take(0)));
        while k < n
            invariant
                k <= n,
                n == packets@.len(),
                self.wf(),
                self.sr == old(self).sr,
                self.bl == old(self).bl,
                self.frame == old(self).frame,
                self.block_index == old(self).block_index,
                self.start_indices == old(self).start_indices,
                self.names == old(self).names,
                self.stream_list == old(self).stream_list,
                absorb(self@.flowws, self@.names, packets@.subrange(k as int, n as int), current)
                    == absorb(old(self)@.flowws, old(self)@.names, packets@, Some(0usize)),
                texts(messages@) == notices(packets@.take(k as int)),
            decreases n - k,
        {
            let ghost head = self@;
            let ghost before = head.flowws;
            let ghost tail = packets@.subrange(k as int, n as int);
            assert(tail[0] == packets@[k as int]);
            assert(tail.drop_first() =~= packets@.subrange(k + 1, n as int));
            assert(packets@.take(k + 1).drop_last() =~= packets@.take(k as int));
            assert(packets@.take(k + 1).last() == packets@[k as int]);
            match &packets[k] {
                FlowwPacket::Msg(msg) => {
                    let ghost shown = messages@;
                    messages.push(msg.clone());
                    assert(texts(messages@) =~= texts(shown).push(msg@));
                },
                FlowwPacket::Track(name) => {
                    current = self.get_index(name.as_str());
                },
                FlowwPacket::Point(point) => {
                    match current {
                        Some(c) => {
                            if c < self.flowws.len() {
                                let mut grown: Vec<Event> = Vec::new();
                                std::mem::swap(&mut grown, &mut self.flowws[c]);
                                grown.push(*point);
                                self.flowws.set(c, grown);
                                proof {
                                    assert(self@.flowws =~= append_to(before, current, *point));
                                    assert forall|i: int| 0 <= i < self@.cursors.len() implies #[trigger] self@.cursors[i]
                                        <= self@.flowws[i].len() by {
                                        assert(head.cursors[i] <= head.flowws[i].len());
                                    }
                                    self.lemma_lengths();
                                    lemma_wf_kept(head, self@);
                                }
                            }
                        },
                        None => {},
                    }
                },
            }
            k += 1;
        }
        assert(packets@.subrange(n as int, n as int) =~= Seq::empty());
        assert(packets@.take(n as int) =~= packets@);
        messages
    }

    /// Drops, from every streamed floww, the events before its cursor, and
    /// returns those cursors to 0.
    pub fn trim_streams(&mut self)
        requires
            old(self).wf(),
        ensures
            final(self).wf(),
            final(self)@ == (FlowwBankView {
                flowws: old(self)@.trimmed_flowws(),
                cursors: old(self)@.trimmed_cursors(),
                ..old(self)@
            }),
    {
        let n: usize = self.stream_list.len();
        let mut k: usize = 0;
        while k < n
            invariant
                k <= n,
                n == self.stream_list@.len(),
                self.wf(),
                old(self).wf(),
                self.sr == old(self).sr,
                self.bl == old(self).bl,
                self.frame == old(self).frame,
                self.block_index == old(self).block_index,
                self.names == old(self).names,
                self.stream_list == old(self).stream_list,
                self@.flowws.len() == old(self)@.flowws.len(),
                forall|i: int|
                    0 <= i < self@.flowws.len() ==> #[trigger] self@.flowws[i] == (if listed(
                        self.stream_list@.take(k as int),
                        i,
                    ) {
                        old(self)@.flowws[i].subrange(
                            old(self)@.cursors[i] as int,
                            old(self)@.flowws[i].len() as int,
                        )
                    } else {
                        old(self)@.flowws[i]
                    }),
                forall|i: int|
                    0 <= i < self@.cursors.len() ==> #[trigger] self@.cursors[i] == (if listed(
                        self.stream_list@.take(k as int),
                        i,
                    ) {
                        0usize
                    } else {
                        old(self)@.cursors[i]
                    }),
            decreases n - k,
        {
            let index: usize = self.stream_list[k];
            assert(self@.streams[k as int] == index);
            let start: usize = self.start_indices[index];
            let ghost before = self@;
            let ghost done = self.stream_list@.take(k as int);
            assert(self.stream_list@.take(k + 1) =~= done.push(index));
            assert(before.flowws[index as int] == self.flowws@[index as int]@);
            assert(before.cursors[index as int] <= before.flowws[index as int].len());
            let mut head: Vec<Event> = Vec::new();
            std::mem::swap(&mut head, &mut self.flowws[index]);
            let rest: Vec<Event> = head.split_off(start);
            self.flowws.set(index, rest);
            self.start_indices.set(index, 0);
            proof {
                assert(self@.flowws =~= before.flowws.update(index as int, rest@));
                assert(self@.cursors =~= before.cursors.update(index as int, 0usize));
                assert forall|i: int| 0 <= i < self@.cursors.len() implies #[trigger] self@.cursors[i]
                    <= self@.flowws[i].len() by {
                    assert(before.cursors[i] <= before.flowws[i].len());
                }
                self.lemma_lengths();
                lemma_wf_kept(before, self@);
            }
            assert forall|i: int| 0 <= i < self@.flowws.len() implies #[trigger] self@.flowws[i] == (
            if listed(done.push(index), i) {
                old(self)@.flowws[i].subrange(
                    old(self)@.cursors[i] as int,
                    old(self)@.flowws[i].len() as int,
                )
            } else {
                old(self)@.flowws[i]
            }) by {
                lemma_listed_push(done, index, i);
                if i == index && listed(done, i) {
                    assert(rest@ =~= before.flowws[i]);
                }
            }
            assert forall|i: int| 0 <= i < self@.cursors.len() implies #[trigger] self@.cursors[i] == (
            if listed(done.push(index), i) {
                0usize
            } else {
                old(self)@.cursors[i]
            }) by {
                lemma_listed_push(done, index, i);
            }
            k += 1;
        }
        assert(self.stream_list@.take(n as int) =~= self.stream_list@);
        assert(self@.flowws =~= old(self)@.trimmed_flowws());
        assert(self@.cursors =~= old(self)@.trimmed_cursors());
    }
}

/// Whether every cursor of the bank has only events of earlier frames before
/// it.
pub open spec fn cursors_behind_window(bank: FlowwBankView) -> bool {
    forall|i: int, k: int|
        0 <= i < bank.flowws.len() && 0 <= k < bank.cursors[i] ==> (#[trigger] bank.flowws[i][k]).frame
            < bank.frame
}

/// After a seek to frame `t` every cursor stands on the first event at or
/// after `t`, or at the end of its floww if there is none; the events before
/// it lie before `t`.
pub proof fn lemma_set_time_finds_first(bank: FlowwBankView, t: usize)
    requires
        bank.wf(),
    ensures
        bank.set_time(t).wf(),
        bank.set_time(t).frame == t,
        forall|i: int|
            0 <= i < bank.flowws.len() ==> is_first_from(
                bank.flowws[i],
                0,
                t as int,
                #[trigger] bank.set_time(t).cursors[i] as int,
            ),
        cursors_behind_window(bank.set_time(t)),
{
    let after = bank.set_time(t);
    assert forall|i: int| 0 <= i < bank.flowws.len() implies is_first_from(
        bank.flowws[i],
        0,
        t as int,
        #[trigger] after.cursors[i] as int,
    ) by {
        assert(bank.flowws[i].len() <= usize::MAX);
        lemma_seek_cursor(bank.flowws[i], 0, t as int);
    }
    assert forall|i: int| 0 <= i < after.flowws.len() implies (#[trigger] after.flowws[i]).len()
        <= usize::MAX by {
        assert(bank.flowws[i].len() <= usize::MAX);
    }
    assert forall|i: int| 0 <= i < after.cursors.len() implies #[trigger] after.cursors[i]
        <= after.flowws[i].len() by {
        assert(is_first_from(bank.flowws[i], 0, t as int, after.cursors[i] as int));
    }
    assert forall|i: int, k: int| 0 <= i < after.flowws.len() && 0 <= k < after.cursors[i] implies (
    #[trigger] after.flowws[i][k]).frame < after.frame by {
        assert(is_first_from(bank.flowws[i], 0, t as int, after.cursors[i] as int));
    }
}

/// A seek forgets the seek before it: seeking to `t` and then to `u` leaves
/// the bank as seeking to `u` alone does.
pub proof fn lemma_set_time_overrides(bank: FlowwBankView, t: usize, u: usize)
    ensures
        bank.set_time(t).set_time(u) == bank.set_time(u),
{
    assert(bank.set_time(t).seek(u, false) =~= bank.seek(u, false));
}

/// What a seek leaves depends on the flowws and the frame alone: two banks
/// that differ only in their cursors and frames are equal after it.
pub proof fn lemma_set_time_ignores_cursors(a: FlowwBankView, b: FlowwBankView, t: usize)
    requires
        a.cursors.len() == b.cursors.len(),
        a == (FlowwBankView { frame: a.frame, cursors: a.cursors, ..b }),
    ensures
        a.set_time(t) == b.set_time(t),
{
    assert(a.seek(t, false) =~= b.seek(t, false));
}

/// Scanning on from a cursor finds what a scan from the start finds, as long
/// as every event before the cursor lies before the frame sought.
pub proof fn lemma_seek_from_cursor(floww: Seq<Event>, cursor: int, t: int)
    requires
        0 <= cursor <= floww.len(),
        forall|k: int| 0 <= k < cursor ==> (#[trigger] floww[k]).frame < t,
    ensures
        seek_cursor(floww, cursor, t) == seek_cursor(floww, 0, t),
{
    lemma_seek_skips(floww, 0, cursor, t);
}

proof fn lemma_seek_skips(floww: Seq<Event>, from: int, cursor: int, t: int)
    requires
        0 <= from <= cursor <= floww.len(),
        forall|k: int| from <= k < cursor ==> (#[trigger] floww[k]).frame < t,
    ensures
        seek_cursor(floww, cursor, t) == seek_cursor(floww, from, t),
    decreases cursor - from,
{
    if from < cursor {
        assert(floww[from].frame < t);
        lemma_seek_skips(floww, from + 1, cursor, t);
    }
}

/// Moving the window one chunk on leaves the bank as a seek to the new frame
/// does, when every cursor has only events of earlier frames before it.
pub proof fn lemma_next_block_is_seek(bank: FlowwBankView)
    requires
        bank.wf(),
        cursors_behind_window(bank),
        bank.frame + bank.block_len <= usize::MAX,
    ensures
        bank.next_block() == bank.set_time((bank.frame + bank.block_len) as usize),
{
    let t = (bank.frame + bank.block_len) as usize;
    assert forall|i: int| 0 <= i < bank.cursors.len() implies bank.seek(t, true)[i] == bank.seek(
        t,
        false,
    )[i] by {
        let floww = bank.flowws[i];
        let c = bank.cursors[i] as int;
        assert(c <= floww.len());
        assert forall|k: int| 0 <= k < c implies (#[trigger] floww[k]).frame < t by {
            assert(bank.flowws[i][k].frame < bank.frame);
        }
        lemma_seek_from_cursor(floww, c, t as int);
    }
    assert(bank.seek(t, true) =~= bank.seek(t, false));
}

} // verus!
