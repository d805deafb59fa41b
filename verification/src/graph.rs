//! The processing graph: vertices, the edges between them, and the order in
//! which a chunk runs them.
//!
//! Edges are kept on their target: every vertex lists its inputs.  The graph
//! stays acyclic, since [`Graph::connect`] refuses an edge that would close a
//! cycle, and a chunk runs every vertex that the output depends on exactly
//! once, inputs before their consumers.

use vstd::prelude::*;
use vstd::hash_map::StringHashMap;
use crate::extensions::{VertexExt, VertexExtView};
use crate::floww::FlowwBank;
use crate::sample::{silence, Sample, SampleView};
use crate::scalar::{clamped_bits, is_nan_bits, lemma_clamped_in_range, less_than, Scalar, ONE_BITS};
use crate::topology::{
    acyclic, chunk_order, has_loop, in_range, is_schedule, is_walk, lemma_add_vertex, lemma_with_edge_acyclic,
    lemma_with_edge_in_range, lists_of, reaches, schedule, unmarked, with_edge,
};

verus! {

/// Bit pattern of the widest pan angle to the left (90).
pub const MAX_ANGLE_BITS: u32 = 0x42B4_0000;

/// Bit pattern of the widest pan angle to the right (-90).
pub const MIN_ANGLE_BITS: u32 = 0xC2B4_0000;

/// Bit pattern of the full wet mix (1).
pub const FULL_WET_BITS: u32 = 0x3F80_0000;

/// A pan angle brought into the range from -90 to 90.
pub open spec fn angle_in_range(angle: Scalar) -> Scalar {
    Scalar { bits: clamped_bits(angle.bits, MIN_ANGLE_BITS, MAX_ANGLE_BITS) }
}

/// A wet mix brought into the range from 0 to 1.
pub open spec fn wet_in_range(wet: Scalar) -> Scalar {
    Scalar { bits: clamped_bits(wet.bits, 0, FULL_WET_BITS) }
}

/// The angle of a vertex is a number from -90 to 90, and its wet mix a
/// number from 0 to 1, whatever the vertex was made with.
pub proof fn lemma_mix_in_range(angle: Scalar, wet: Scalar)
    ensures
        !is_nan_bits(angle_in_range(angle).bits),
        !less_than(angle_in_range(angle).bits, MIN_ANGLE_BITS),
        !less_than(MAX_ANGLE_BITS, angle_in_range(angle).bits),
        !is_nan_bits(wet_in_range(wet).bits),
        !less_than(wet_in_range(wet).bits, 0),
        !less_than(FULL_WET_BITS, wet_in_range(wet).bits),
{
    lemma_clamped_in_range(angle.bits, MIN_ANGLE_BITS, MAX_ANGLE_BITS);
    lemma_clamped_in_range(wet.bits, 0, FULL_WET_BITS);
}

/// A generator with its output buffer and its mix settings.
pub struct Vertex {
    buf: Sample,
    gain: Scalar,
    angle: Scalar,
    wet: Scalar,
    ext: VertexExt,
}

/// The abstract value of a [`Vertex`].
pub struct VertexView {
    pub buf: SampleView,
    pub gain: Scalar,
    pub angle: Scalar,
    pub wet: Scalar,
    pub ext: VertexExtView,
}

impl View for Vertex {
    type V = VertexView;

    closed spec fn view(&self) -> VertexView {
        VertexView { buf: self.buf@, gain: self.gain, angle: self.angle, wet: self.wet, ext: self.ext@ }
    }
}

impl VertexView {
    /// The vertex after a seek to frame `time`.
    pub open spec fn at_time(self, time: usize) -> VertexView {
        VertexView { ext: self.ext.at_time(time), ..self }
    }
}

impl Vertex {
    /// A vertex with a silent buffer of `bl` frames.  The angle is brought
    /// into the range from -90 to 90, the wet mix into the range from 0 to 1.
    pub fn new(bl: usize, gain: Scalar, angle: Scalar, wet: Scalar, ext: VertexExt) -> (v: Self)
        ensures
            v@ == (VertexView {
                buf: SampleView { l: silence(bl as nat), r: silence(bl as nat) },
                gain,
                angle: angle_in_range(angle),
                wet: wet_in_range(wet),
                ext: ext@,
            }),
    {
        Self {
            buf: Sample::new(bl),
            gain,
            angle: angle.min(Scalar::from_bits(MAX_ANGLE_BITS)).max(Scalar::from_bits(MIN_ANGLE_BITS)),
            wet: wet.min(Scalar::from_bits(FULL_WET_BITS)).max(Scalar::zero()),
            ext,
        }
    }

    /// Takes the vertex apart: buffer, gain, angle, wet mix and generator.
    pub fn into_parts(self) -> (parts: (Sample, Scalar, Scalar, Scalar, VertexExt))
        ensures
            self@ == (VertexView {
                buf: parts.0@,
                gain: parts.1,
                angle: parts.2,
                wet: parts.3,
                ext: parts.4@,
            }),
    {
        (self.buf, self.gain, self.angle, self.wet, self.ext)
    }

    /// Puts a vertex together from a buffer and a generator; angle and wet
    /// mix are brought into range as in [`Vertex::new`].
    pub fn from_parts(buf: Sample, gain: Scalar, angle: Scalar, wet: Scalar, ext: VertexExt) -> (v: Self)
        ensures
            v@ == (VertexView {
                buf: buf@,
                gain,
                angle: angle_in_range(angle),
                wet: wet_in_range(wet),
                ext: ext@,
            }),
    {
        Self {
            buf,
            gain,
            angle: angle.min(Scalar::from_bits(MAX_ANGLE_BITS)).max(Scalar::from_bits(MIN_ANGLE_BITS)),
            wet: wet.min(Scalar::from_bits(FULL_WET_BITS)).max(Scalar::zero()),
            ext,
        }
    }

    /// The output buffer.
    pub fn read_buffer(&self) -> (b: &Sample)
        ensures
            b@ == self@.buf,
    {
        &self.buf
    }

    /// The generator.
    pub fn ext(&self) -> (e: &VertexExt)
        ensures
            e@ == self@.ext,
    {
        &self.ext
    }

    /// The gain.
    pub fn gain(&self) -> (g: Scalar)
        ensures
            g == self@.gain,
    {
        self.gain
    }

    /// The pan angle.
    pub fn angle(&self) -> (a: Scalar)
        ensures
            a == self@.angle,
    {
        self.angle
    }

    /// The wet mix.
    pub fn wet(&self) -> (w: Scalar)
        ensures
            w == self@.wet,
    {
        self.wet
    }

    /// Whether another vertex can be connected into this one.
    pub fn has_input(&self) -> (r: bool)
        ensures
            r == self@.ext.has_input(),
    {
        self.ext.has_input()
    }

    /// Seeks to frame `t`.
    pub fn set_time(&mut self, t: usize)
        ensures
            final(self)@ == old(self)@.at_time(t),
    {
        self.ext.set_time(t);
    }

    /// Forgets the peak measured by a scan.
    pub fn reset_scan_normalization(&mut self)
        ensures
            final(self)@ == (VertexView { ext: old(self)@.ext.scan_reset(), ..old(self)@ }),
    {
        self.ext.reset_scan_normalization();
    }

    /// Puts the peak measured by a scan to use.
    pub fn apply_scan_normalization(&mut self)
        ensures
            final(self)@ == (VertexView { ext: old(self)@.ext.scan_applied(), ..old(self)@ }),
    {
        self.ext.apply_scan_normalization();
    }

    /// Returns the peak to its seed.
    pub fn reset_normalization(&mut self)
        ensures
            final(self)@ == (VertexView { ext: old(self)@.ext.peak_reset(), ..old(self)@ }),
    {
        self.ext.reset_normalization();
    }
}

/// Why an edge is refused.
#[derive(Clone, Copy, Debug, PartialEq, Eq, Structural)]
pub enum ConnectError {
    /// No vertex goes by the name of the source.
    UnknownSource,
    /// No vertex goes by the name of the target.
    UnknownTarget,
    /// Source and target are the same vertex.
    SelfLoop,
    /// The target takes no input.
    NoInput,
    /// The target lies upstream of the source: the edge would close a cycle.
    Cycle,
}

/// The abstract state of a [`Graph`].
pub struct GraphView {
    /// The vertices, by index.
    pub vertices: Seq<VertexView>,
    /// For every vertex, its inputs in the order they were connected.
    pub edges: Seq<Seq<usize>>,
    /// The name every vertex was added under.
    pub names: Seq<Seq<char>>,
    /// The index each name stands for.
    pub name_map: Map<Seq<char>, usize>,
    /// For every vertex, whether it ran in the latest chunk.
    pub ran: Seq<bool>,
    /// The vertex whose buffer is the result of a chunk.
    pub output: Option<usize>,
    /// Frames per chunk.
    pub max_buffer_len: usize,
    /// Frames per second.
    pub samplerate: usize,
    /// First frame of the next chunk.
    pub t: usize,
}

impl GraphView {
    /// The invariant of a graph: one list of inputs, one name and one flag
    /// per vertex; every input is a vertex; only vertices that take input have
    /// inputs; names and the output point at vertices; there is no cycle.
    pub open spec fn wf(self) -> bool {
        &&& self.edges.len() == self.vertices.len()
        &&& self.names.len() == self.vertices.len()
        &&& self.ran.len() == self.vertices.len()
        &&& in_range(self.edges)
        &&& acyclic(self.edges)
        &&& forall|v: int|
            0 <= v < self.edges.len() && (#[trigger] self.edges[v]).len() > 0 ==> self.vertices[v].ext.has_input()
        &&& forall|n: Seq<char>| #[trigger] self.name_map.contains_key(n) ==> self.name_map[n] < self.vertices.len()
        &&& self.output is Some ==> self.output->0 < self.vertices.len()
    }

    /// Whether an edge from vertex `a` into vertex `b` is accepted: the two
    /// differ and exist, `b` takes input, and `b` does not lie upstream of `a`.
    pub open spec fn can_connect(self, a: usize, b: usize) -> bool {
        &&& a != b
        &&& a < self.vertices.len()
        &&& b < self.vertices.len()
        &&& self.vertices[b as int].ext.has_input()
        &&& !reaches(self.edges, a as int, b as int)
    }

    /// Why an edge from the vertex named `a` into the vertex named `b` is
    /// refused, if it is.  The reasons are looked at in the order in which
    /// they are listed.
    pub open spec fn refusal(self, a: Seq<char>, b: Seq<char>) -> Option<ConnectError> {
        match (self.index_of(a), self.index_of(b)) {
            (None, _) => Some(ConnectError::UnknownSource),
            (Some(_), None) => Some(ConnectError::UnknownTarget),
            (Some(x), Some(y)) => if x == y {
                Some(ConnectError::SelfLoop)
            } else if !(x < self.vertices.len() && y < self.vertices.len()) {
                Some(ConnectError::UnknownTarget)
            } else if !self.vertices[y as int].ext.has_input() {
                Some(ConnectError::NoInput)
            } else if reaches(self.edges, x as int, y as int) {
                Some(ConnectError::Cycle)
            } else {
                None
            },
        }
    }

    /// The index a name stands for, if any.
    pub open spec fn index_of(self, name: Seq<char>) -> Option<usize> {
        if self.name_map.contains_key(name) {
            Some(self.name_map[name])
        } else {
            None
        }
    }

    /// The graph without vertices, at frame 0.
    pub open spec fn blank(max_buffer_len: usize, samplerate: usize) -> GraphView {
        GraphView {
            vertices: Seq::empty(),
            edges: Seq::empty(),
            names: Seq::empty(),
            name_map: Map::empty(),
            ran: Seq::empty(),
            output: None,
            max_buffer_len,
            samplerate,
            t: 0,
        }
    }

    /// The graph with one more vertex, without inputs, under `name`.
    pub open spec fn with_vertex(self, v: VertexView, name: Seq<char>) -> GraphView {
        GraphView {
            vertices: self.vertices.push(v),
            edges: self.edges.push(Seq::empty()),
            names: self.names.push(name),
            name_map: self.name_map.insert(name, self.vertices.len() as usize),
            ran: self.ran.push(false),
            ..self
        }
    }

    /// The graph after the vertex named `a` was connected into the one named
    /// `b`: with that edge if it is accepted, else as before.
    pub open spec fn connected(self, a: Seq<char>, b: Seq<char>) -> GraphView {
        match (self.index_of(a), self.index_of(b)) {
            (Some(x), Some(y)) => if self.can_connect(x, y) {
                GraphView { edges: with_edge(self.edges, x, y), ..self }
            } else {
                self
            },
            _ => self,
        }
    }

    /// The graph after the vertex named `name` was made the output: with
    /// that output if there is such a vertex, else as before.
    pub open spec fn with_output(self, name: Seq<char>) -> GraphView {
        match self.index_of(name) {
            Some(o) => GraphView { output: Some(o), ..self },
            None => self,
        }
    }

    /// The graph after a seek to frame `time`.
    pub open spec fn set_time(self, time: usize) -> GraphView {
        GraphView {
            t: time,
            vertices: Seq::new(self.vertices.len(), |i: int| self.vertices[i].at_time(time)),
            ..self
        }
    }

    /// Whether the graph can render: it has an output, and an output that
    /// takes input has some.
    pub open spec fn renders(self) -> bool {
        match self.output {
            Some(o) => !(self.edges[o as int].len() == 0 && self.vertices[o as int].ext.has_input()),
            None => false,
        }
    }
}

/// The first frame of chunk number `j` of a scan with chunks of
/// `max_buffer_len` frames; it stops at the end of the range.
pub open spec fn scan_start(j: usize, max_buffer_len: usize) -> usize {
    if j * max_buffer_len > usize::MAX {
        usize::MAX
    } else {
        (j * max_buffer_len) as usize
    }
}

/// The time `delta` frames after `t`, or before it; it stops at the ends of
/// the range.
pub open spec fn shifted_time(t: usize, delta: usize, plus: bool) -> usize {
    if plus {
        if t + delta > usize::MAX {
            usize::MAX
        } else {
            (t + delta) as usize
        }
    } else {
        if delta > t {
            0
        } else {
            (t - delta) as usize
        }
    }
}

/// The vertices, their connections and the clock of a project.
pub struct Graph {
    vertices: Vec<Vertex>,
    edges: Vec<Vec<usize>>,
    names: Vec<String>,
    name_map: StringHashMap<usize>,
    ran_status: Vec<bool>,
    output_vertex: Option<usize>,
    max_buffer_len: usize,
    sr: usize,
    t: usize,
}

impl View for Graph {
    type V = GraphView;

    closed spec fn view(&self) -> GraphView {
        GraphView {
            vertices: Seq::new(self.vertices@.len(), |i: int| self.vertices@[i]@),
            edges: lists_of(&self.edges),
            names: Seq::new(self.names@.len(), |i: int| self.names@[i]@),
            name_map: self.name_map@,
            ran: self.ran_status@,
            output: self.output_vertex,
            max_buffer_len: self.max_buffer_len,
            samplerate: self.sr,
            t: self.t,
        }
    }
}

impl Graph {
    /// Whether the graph's invariant holds.
    pub open spec fn wf(&self) -> bool {
        self@.wf()
    }

    /// An empty graph for chunks of `max_buffer_len` frames at `sr` frames
    /// per second.
    pub fn new(max_buffer_len: usize, sr: usize) -> (g: Self)
        ensures
            g.wf(),
            g@ == GraphView::blank(max_buffer_len, sr),
    {
        let g = Self {
            vertices: Vec::new(),
            edges: Vec::new(),
            name_map: StringHashMap::new(),
            names: Vec::new(),
            ran_status: Vec::new(),
            output_vertex: None,
            max_buffer_len,
            sr,
            t: 0,
        };
        assert(g@.vertices =~= Seq::empty());
        assert(g@.edges =~= Seq::empty());
        assert(g@.names =~= Seq::empty());
        assert(acyclic(g@.edges)) by {
            assert forall|p: Seq<int>| #[trigger] is_walk(g@.edges, p) && p.len() >= 2 implies p[0]
                != p.last() by {
                assert(0 <= p[0] < g@.edges.len());
            }
        }
        g
    }

    /// Removes every vertex and edge and returns to frame 0; chunk length and
    /// rate stay.
    pub fn reset(&mut self)
        ensures
            final(self).wf(),
            final(self)@ == GraphView::blank(old(self)@.max_buffer_len, old(self)@.samplerate),
    {
        self.vertices.clear();
        self.edges.clear();
        self.name_map.clear();
        self.names.clear();
        self.ran_status.clear();
        self.output_vertex = None;
        self.t = 0;
        assert(self@.vertices =~= Seq::empty());
        assert(self@.edges =~= Seq::empty());
        assert(self@.names =~= Seq::empty());
        assert(acyclic(self@.edges)) by {
            assert forall|p: Seq<int>| #[trigger] is_walk(self@.edges, p) && p.len() >= 2 implies p[0]
                != p.last() by {
                assert(0 <= p[0] < self@.edges.len());
            }
        }
    }

    /// Number of vertices.
    pub fn len(&self) -> (n: usize)
        ensures
            n == self@.vertices.len(),
    {
        self.vertices.len()
    }

    /// Frames per chunk.
    pub fn max_buffer_len(&self) -> (n: usize)
        ensures
            n == self@.max_buffer_len,
    {
        self.max_buffer_len
    }

    /// Frames per second.
    pub fn samplerate(&self) -> (n: usize)
        ensures
            n == self@.samplerate,
    {
        self.sr
    }

    /// First frame of the next chunk.
    pub fn get_time(&self) -> (t: usize)
        ensures
            t == self@.t,
    {
        self.t
    }

    /// The output vertex, if one is set.
    pub fn output(&self) -> (o: Option<usize>)
        ensures
            o == self@.output,
    {
        self.output_vertex
    }

    /// The index `name` stands for, if any.
    pub fn get_index(&self, name: &str) -> (r: Option<usize>)
        ensures
            r == self@.index_of(name@),
    {
        match self.name_map.get(name) {
            Some(i) => Some(*i),
            None => None,
        }
    }
}

impl Graph {
    /// Adds a vertex under `name`, without inputs.  A name used before now
    /// stands for the new vertex.
    pub fn add(&mut self, node: Vertex, name: String)
        requires
            old(self).wf(),
        ensures
            final(self).wf(),
            final(self)@ == old(self)@.with_vertex(node@, name@),
    {
        let n: usize = self.vertices.len();
        let key: String = name.clone();
        self.vertices.push(node);
        self.ran_status.push(false);
        self.edges.push(Vec::new());
        self.name_map.insert(key, n);
        self.names.push(name);
        proof {
            lemma_add_vertex(old(self)@.edges);
            assert(self@.vertices =~= old(self)@.vertices.push(node@));
            assert(self@.edges =~= old(self)@.edges.push(Seq::empty()));
            assert(self@.names =~= old(self)@.names.push(name@));
            assert forall|v: int| 0 <= v < self@.edges.len() && (#[trigger] self@.edges[v]).len() > 0 implies self@.vertices[v].ext.has_input() by {
                assert(old(self)@.edges[v].len() > 0);
            }
            assert forall|m: Seq<char>| #[trigger] self@.name_map.contains_key(m) implies self@.name_map[m]
                < self@.vertices.len() by {
                if m != name@ {
                    assert(old(self)@.name_map.contains_key(m));
                }
            }
        }
    }

    /// Connects vertex `a` into vertex `b`, unless that is not accepted.
    fn connect_internal(&mut self, a: usize, b: usize) -> (ok: bool)
        requires
            old(self).wf(),
        ensures
            final(self).wf(),
            ok == old(self)@.can_connect(a, b),
            ok ==> final(self)@ == (GraphView { edges: with_edge(old(self)@.edges, a, b), ..old(self)@ }),
            !ok ==> final(self)@ == old(self)@,
    {
        if a == b {
            return false;
        }
        let len: usize = self.vertices.len();
        if a >= len {
            return false;
        }
        if b >= len {
            return false;
        }
        assert(self@.vertices[b as int] == self.vertices@[b as int]@);
        if !self.vertices[b].has_input() {
            return false;
        }
        let ghost start: Seq<int> = seq![a as int];
        assert(is_walk(self@.edges, start));
        if has_loop(a, b, &self.edges, Ghost(start)) {
            return false;
        }
        let mut inputs: Vec<usize> = Vec::new();
        std::mem::swap(&mut inputs, &mut self.edges[b]);
        inputs.push(a);
        self.edges.set(b, inputs);
        proof {
            lemma_with_edge_acyclic(old(self)@.edges, a, b);
            lemma_with_edge_in_range(old(self)@.edges, a, b);
            assert(self@.edges =~= with_edge(old(self)@.edges, a, b));
            assert(self@.vertices =~= old(self)@.vertices);
            assert(self@.names =~= old(self)@.names);
            assert forall|v: int| 0 <= v < self@.edges.len() && (#[trigger] self@.edges[v]).len() > 0 implies self@.vertices[v].ext.has_input() by {
                if v != b {
                    assert(old(self)@.edges[v].len() > 0);
                }
            }
        }
        true
    }

    /// Connects the vertex named `a` into the vertex named `b`.
    ///
    /// The edge is refused, and the graph left as it is, when a name is
    /// unknown, when both name the same vertex, when `b` takes no input, or
    /// when the edge would close a cycle.
    pub fn connect(&mut self, a: &str, b: &str) -> (ok: bool)
        requires
            old(self).wf(),
        ensures
            final(self).wf(),
            acyclic(final(self)@.edges),
            ok == match (old(self)@.index_of(a@), old(self)@.index_of(b@)) {
                (Some(x), Some(y)) => old(self)@.can_connect(x, y),
                _ => false,
            },
            final(self)@ == old(self)@.connected(a@, b@),
            !ok ==> final(self)@ == old(self)@,
    {
        let a_res: Option<usize> = self.get_index(a);
        let b_res: Option<usize> = self.get_index(b);
        match (a_res, b_res) {
            (Some(a_index), Some(b_index)) => self.connect_internal(a_index, b_index),
            _ => false,
        }
    }

    /// Why an edge from the vertex named `a` into the vertex named `b` would
    /// be refused, if it would; [`Graph::connect`] accepts exactly the edges
    /// for which there is no reason.
    pub fn connect_error(&self, a: &str, b: &str) -> (r: Option<ConnectError>)
        requires
            self.wf(),
        ensures
            r == self@.refusal(a@, b@),
            r is None <==> (self@.index_of(a@) is Some && self@.index_of(b@) is Some && self@.can_connect(
                self@.index_of(a@)->0,
                self@.index_of(b@)->0,
            )),
    {
        let x: usize = match self.get_index(a) {
            Some(x) => x,
            None => {
                return Some(ConnectError::UnknownSource);
            },
        };
        let y: usize = match self.get_index(b) {
            Some(y) => y,
            None => {
                return Some(ConnectError::UnknownTarget);
            },
        };
        if x == y {
            return Some(ConnectError::SelfLoop);
        }
        assert(self@.name_map.contains_key(a@));
        assert(self@.name_map.contains_key(b@));
        assert(self@.vertices[y as int] == self.vertices@[y as int]@);
        if !self.vertices[y].has_input() {
            return Some(ConnectError::NoInput);
        }
        let ghost start: Seq<int> = seq![x as int];
        assert(is_walk(self@.edges, start));
        if has_loop(x, y, &self.edges, Ghost(start)) {
            return Some(ConnectError::Cycle);
        }
        None
    }

    /// Makes the vertex named `vert` the output; without such a vertex the
    /// output stays as it is.
    pub fn set_output(&mut self, vert: &str) -> (ok: bool)
        requires
            old(self).wf(),
        ensures
            final(self).wf(),
            ok == old(self)@.index_of(vert@) is Some,
            final(self)@ == old(self)@.with_output(vert@),
    {
        match self.get_index(vert) {
            Some(index) => {
                self.output_vertex = Some(index);
                assert(self@.vertices =~= old(self)@.vertices);
                assert(self@.names =~= old(self)@.names);
                true
            },
            None => false,
        }
    }

    /// Seeks to frame `time`, with every vertex.
    pub fn set_time(&mut self, time: usize)
        requires
            old(self).wf(),
        ensures
            final(self).wf(),
            final(self)@ == old(self)@.set_time(time),
    {
        self.t = time;
        let n: usize = self.vertices.len();
        let mut i: usize = 0;
        while i < n
            invariant
                i <= n,
                n == self.vertices@.len(),
                n == old(self).vertices@.len(),
                self.t == time,
                self.edges == old(self).edges,
                self.names == old(self).names,
                self.name_map == old(self).name_map,
                self.ran_status == old(self).ran_status,
                self.output_vertex == old(self).output_vertex,
                self.max_buffer_len == old(self).max_buffer_len,
                self.sr == old(self).sr,
                forall|k: int| 0 <= k < i ==> (#[trigger] self.vertices@[k])@ == old(self).vertices@[k]@.at_time(time),
                forall|k: int| i <= k < n ==> (#[trigger] self.vertices@[k]) == old(self).vertices@[k],
            decreases n - i,
        {
            self.vertices[i].set_time(time);
            i += 1;
        }
        proof {
            assert(self@.vertices =~= old(self)@.set_time(time).vertices);
            assert(self@.names =~= old(self)@.names);
            assert forall|v: int| 0 <= v < self@.edges.len() && (#[trigger] self@.edges[v]).len() > 0 implies self@.vertices[v].ext.has_input() by {
                assert(old(self)@.edges[v].len() > 0);
                assert(old(self)@.vertices[v].ext.has_input());
            }
        }
    }

    /// Moves the clock `delta` frames on when `plus` is set, and back
    /// otherwise, stopping at the ends of the range; seeks there and returns
    /// the new time.
    pub fn change_time(&mut self, delta: usize, plus: bool) -> (new_time: usize)
        requires
            old(self).wf(),
        ensures
            final(self).wf(),
            new_time == shifted_time(old(self)@.t, delta, plus),
            final(self)@ == old(self)@.set_time(new_time),
    {
        let new_time: usize = if plus {
            if delta > usize::MAX - self.t {
                usize::MAX
            } else {
                self.t + delta
            }
        } else {
            if delta > self.t {
                0
            } else {
                self.t - delta
            }
        };
        self.set_time(new_time);
        new_time
    }

    /// Whether the graph can render: it has an output, and an output that
    /// takes input has some.
    pub fn check_graph(&self) -> (ok: bool)
        requires
            self.wf(),
        ensures
            ok == self@.renders(),
    {
        match self.output_vertex {
            Some(output) => {
                assert(self@.vertices[output as int] == self.vertices@[output as int]@);
                assert(self@.edges[output as int] == self.edges@[output as int]@);
                !(self.edges[output].len() == 0 && self.vertices[output].has_input())
            },
            None => false,
        }
    }
}

/// The vertex that stands in for one that was taken out: without frames, at
/// full gain, centred and dry; it adds its inputs if it takes input, and
/// loops a sample otherwise.
pub open spec fn idle_vertex(has_input: bool) -> VertexView {
    VertexView {
        buf: SampleView { l: Seq::empty(), r: Seq::empty() },
        gain: Scalar { bits: ONE_BITS },
        angle: Scalar { bits: 0 },
        wet: Scalar { bits: 0 },
        ext: if has_input {
            VertexExtView::Sum
        } else {
            VertexExtView::SampleLoop { sample_index: 0, t: 0 }
        },
    }
}

/// Zero lies within the range of angles and within the range of wet mixes.
proof fn lemma_clamped_inside_zero()
    ensures
        angle_in_range(Scalar { bits: 0 }) == (Scalar { bits: 0 }),
        wet_in_range(Scalar { bits: 0 }) == (Scalar { bits: 0 }),
{
}

/// A chunk to be generated: the frame it starts at, and the vertices to run,
/// in that order.
pub struct Chunk {
    /// First frame of the chunk.
    pub t: usize,
    /// The vertices to run, inputs before their consumers, the output last.
    pub order: Vec<usize>,
    /// Whether the chunk only measures peaks.
    pub is_scan: bool,
}

impl GraphView {
    /// The run flags after a chunk: a vertex ran exactly when the output
    /// depends on it; without an output nothing ran.
    pub open spec fn flags_after_chunk(self, ran: Seq<bool>) -> bool {
        &&& ran.len() == self.vertices.len()
        &&& forall|v: int| 0 <= v < ran.len() ==> (#[trigger] ran[v] <==> self.feeds_output(v))
    }

    /// Whether the output depends on vertex `v`: `v` is the output or lies
    /// upstream of it.
    pub open spec fn feeds_output(self, v: int) -> bool {
        self.output is Some && reaches(self.edges, self.output->0 as int, v)
    }

    /// The graph with `f` applied to the generator state of every vertex.
    pub open spec fn map_ext(self, f: spec_fn(VertexExtView) -> VertexExtView) -> GraphView {
        GraphView {
            vertices: Seq::new(
                self.vertices.len(),
                |i: int| VertexView { ext: f(self.vertices[i].ext), ..self.vertices[i] },
            ),
            ..self
        }
    }
}

impl Graph {
    /// Clears the run flags and runs the output vertex after everything
    /// upstream of it; returns the order in which the vertices ran.
    fn run_output(&mut self) -> (order: Option<Vec<usize>>)
        requires
            old(self).wf(),
        ensures
            final(self).wf(),
            final(self)@ == (GraphView { ran: final(self)@.ran, ..old(self)@ }),
            old(self)@.flags_after_chunk(final(self)@.ran),
            match old(self)@.output {
                Some(o) => order is Some && order->0@ == chunk_order(old(self)@.edges, o as int) && is_schedule(
                    old(self)@.edges,
                    o as int,
                    order->0@,
                ),
                None => order is None,
            },
    {
        match self.output_vertex {
            Some(index) => {
                let (ran, order) = schedule(&self.edges, index);
                self.ran_status = ran;
                proof {
                    assert(self@.vertices =~= old(self)@.vertices);
                    assert(self@.names =~= old(self)@.names);
                }
                Some(order)
            },
            None => {
                self.ran_status = unmarked(self.vertices.len());
                proof {
                    assert(self@.vertices =~= old(self)@.vertices);
                    assert(self@.names =~= old(self)@.names);
                }
                None
            },
        }
    }

    /// Plans the next chunk and moves the clock one chunk on.
    ///
    /// The chunk starts at the current frame and runs exactly the vertices
    /// that the output depends on, each once, depth-first from the output with
    /// inputs in the order they were connected, so that every vertex comes
    /// after its inputs.  The run flags tell which vertices these are, and no
    /// vertex is changed.  The clock stops at the end of its range, as it does
    /// in [`Graph::change_time`].  Without an output there is no chunk and the
    /// clock stays.
    pub fn render(&mut self) -> (chunk: Option<Chunk>)
        requires
            old(self).wf(),
        ensures
            final(self).wf(),
            old(self)@.flags_after_chunk(final(self)@.ran),
            match old(self)@.output {
                Some(o) => {
                    &&& chunk is Some
                    &&& chunk->0.t == old(self)@.t
                    &&& !chunk->0.is_scan
                    &&& chunk->0.order@ == chunk_order(old(self)@.edges, o as int)
                    &&& is_schedule(old(self)@.edges, o as int, chunk->0.order@)
                    &&& final(self)@ == (GraphView {
                        ran: final(self)@.ran,
                        t: shifted_time(old(self)@.t, old(self)@.max_buffer_len, true),
                        ..old(self)@
                    })
                },
                None => chunk is None && final(self)@ == (GraphView { ran: final(self)@.ran, ..old(self)@ }),
            },
    {
        let t: usize = self.t;
        match self.run_output() {
            Some(order) => {
                self.t = if self.max_buffer_len > usize::MAX - t {
                    usize::MAX
                } else {
                    t + self.max_buffer_len
                };
                proof {
                    assert(self@.vertices =~= old(self)@.vertices);
                    assert(self@.names =~= old(self)@.names);
                }
                Some(Chunk { t, order, is_scan: false })
            },
            None => None,
        }
    }

    /// Plans chunk number `j` of a scan for peaks; the clock stays.
    ///
    /// The chunk starts at frame `j` times the chunk length, or at the end of
    /// the range if that lies beyond it, and runs the vertices as
    /// [`Graph::render`] does.
    pub fn scan_chunk(&mut self, j: usize) -> (chunk: Option<Chunk>)
        requires
            old(self).wf(),
        ensures
            final(self).wf(),
            final(self)@ == (GraphView { ran: final(self)@.ran, ..old(self)@ }),
            old(self)@.flags_after_chunk(final(self)@.ran),
            match old(self)@.output {
                Some(o) => {
                    &&& chunk is Some
                    &&& chunk->0.t == scan_start(j, old(self)@.max_buffer_len)
                    &&& chunk->0.is_scan
                    &&& chunk->0.order@ == chunk_order(old(self)@.edges, o as int)
                    &&& is_schedule(old(self)@.edges, o as int, chunk->0.order@)
                },
                None => chunk is None,
            },
    {
        let t: usize = match j.checked_mul(self.max_buffer_len) {
            Some(t) => t,
            None => usize::MAX,
        };
        match self.run_output() {
            Some(order) => Some(Chunk { t, order, is_scan: true }),
            None => None,
        }
    }
}

/// Which change is made to every vertex.
enum Sweep {
    ScanReset,
    ScanApply,
    PeakReset,
}

impl Sweep {
    spec fn apply(self, ext: VertexExtView) -> VertexExtView {
        match self {
            Sweep::ScanReset => ext.scan_reset(),
            Sweep::ScanApply => ext.scan_applied(),
            Sweep::PeakReset => ext.peak_reset(),
        }
    }
}

proof fn lemma_sweep_keeps_kind(sweep: Sweep, ext: VertexExtView)
    ensures
        sweep.apply(ext).has_input() == ext.has_input(),
{
}

impl Graph {
    fn sweep(&mut self, sweep: Sweep)
        requires
            old(self).wf(),
        ensures
            final(self).wf(),
            final(self)@ == old(self)@.map_ext(|e: VertexExtView| sweep.apply(e)),
    {
        let n: usize = self.vertices.len();
        let mut i: usize = 0;
        while i < n
            invariant
                i <= n,
                n == self.vertices@.len(),
                n == old(self).vertices@.len(),
                self.t == old(self).t,
                self.edges == old(self).edges,
                self.names == old(self).names,
                self.name_map == old(self).name_map,
                self.ran_status == old(self).ran_status,
                self.output_vertex == old(self).output_vertex,
                self.max_buffer_len == old(self).max_buffer_len,
                self.sr == old(self).sr,
                forall|k: int|
                    0 <= k < i ==> (#[trigger] self.vertices@[k])@ == (VertexView {
                        ext: sweep.apply(old(self).vertices@[k]@.ext),
                        ..old(self).vertices@[k]@
                    }),
                forall|k: int| i <= k < n ==> (#[trigger] self.vertices@[k]) == old(self).vertices@[k],
            decreases n - i,
        {
            match sweep {
                Sweep::ScanReset => self.vertices[i].reset_scan_normalization(),
                Sweep::ScanApply => self.vertices[i].apply_scan_normalization(),
                Sweep::PeakReset => self.vertices[i].reset_normalization(),
            }
            i += 1;
        }
        proof {
            assert(self@.vertices =~= old(self)@.map_ext(|e: VertexExtView| sweep.apply(e)).vertices);
            assert(self@.names =~= old(self)@.names);
            assert forall|v: int| 0 <= v < self@.edges.len() && (#[trigger] self@.edges[v]).len() > 0 implies self@.vertices[v].ext.has_input() by {
                assert(old(self)@.edges[v].len() > 0);
                lemma_sweep_keeps_kind(sweep, old(self)@.vertices[v].ext);
            }
        }
    }

    /// Makes every normalizer forget the peak measured by a scan.
    pub fn reset_scan_normalize_vertices(&mut self)
        requires
            old(self).wf(),
        ensures
            final(self).wf(),
            final(self)@ == old(self)@.map_ext(|e: VertexExtView| e.scan_reset()),
    {
        self.sweep(Sweep::ScanReset);
        assert(self@.vertices =~= old(self)@.map_ext(|e: VertexExtView| e.scan_reset()).vertices);
    }

    /// Makes every normalizer use the peak measured by a scan.
    pub fn apply_scan_normalize_vertices(&mut self)
        requires
            old(self).wf(),
        ensures
            final(self).wf(),
            final(self)@ == old(self)@.map_ext(|e: VertexExtView| e.scan_applied()),
    {
        self.sweep(Sweep::ScanApply);
        assert(self@.vertices =~= old(self)@.map_ext(|e: VertexExtView| e.scan_applied()).vertices);
    }

    /// Returns the peak of every normalizer to its seed.
    pub fn reset_normalize_vertices(&mut self)
        requires
            old(self).wf(),
        ensures
            final(self).wf(),
            final(self)@ == old(self)@.map_ext(|e: VertexExtView| e.peak_reset()),
    {
        self.sweep(Sweep::PeakReset);
        assert(self@.vertices =~= old(self)@.map_ext(|e: VertexExtView| e.peak_reset()).vertices);
    }

    /// The vertices with a peak above 0, in rising order, each with its peak.
    pub fn normalization_values(&self) -> (r: Vec<(usize, Scalar)>)
        ensures
            forall|k: int| 0 <= k < r@.len() ==> {
                &&& (#[trigger] r@[k]).0 < self@.vertices.len()
                &&& r@[k].1 == self@.vertices[r@[k].0 as int].ext.normalization_value()
                &&& less_than(0, r@[k].1.bits)
            },
            forall|j: int, k: int| 0 <= j < k < r@.len() ==> (#[trigger] r@[j]).0 < (#[trigger] r@[k]).0,
            forall|v: int|
                0 <= v < self@.vertices.len() && less_than(
                    0,
                    (#[trigger] self@.vertices[v]).ext.normalization_value().bits,
                ) ==> exists|k: int| 0 <= k < r@.len() && (#[trigger] r@[k]).0 == v,
    {
        let mut r: Vec<(usize, Scalar)> = Vec::new();
        let n: usize = self.vertices.len();
        let mut i: usize = 0;
        while i < n
            invariant
                i <= n,
                n == self.vertices@.len(),
                forall|k: int| 0 <= k < r@.len() ==> {
                    &&& (#[trigger] r@[k]).0 < i
                    &&& r@[k].1 == self@.vertices[r@[k].0 as int].ext.normalization_value()
                    &&& less_than(0, r@[k].1.bits)
                },
                forall|j: int, k: int| 0 <= j < k < r@.len() ==> (#[trigger] r@[j]).0 < (#[trigger] r@[k]).0,
                forall|v: int|
                    0 <= v < i && less_than(0, (#[trigger] self@.vertices[v]).ext.normalization_value().bits)
                        ==> exists|k: int| 0 <= k < r@.len() && (#[trigger] r@[k]).0 == v,
            decreases n - i,
        {
            assert(self@.vertices[i as int] == self.vertices@[i as int]@);
            let nv: Scalar = self.vertices[i].ext().get_normalization_value();
            let ghost before = r@;
            if nv.gt(&Scalar::zero()) {
                r.push((i, nv));
                proof {
                    assert forall|v: int|
                        0 <= v < i + 1 && less_than(
                            0,
                            (#[trigger] self@.vertices[v]).ext.normalization_value().bits,
                        ) implies exists|k: int| 0 <= k < r@.len() && (#[trigger] r@[k]).0 == v by {
                        if v < i {
                            let k = choose|k: int| 0 <= k < before.len() && (#[trigger] before[k]).0 == v;
                            assert(r@[k].0 == v);
                        } else {
                            assert(r@[before.len() as int].0 == v);
                        }
                    }
                }
            }
            i += 1;
        }
        r
    }

    /// The vertices that the output does not depend on, in rising order;
    /// without an output these are all vertices.
    pub fn detached(&self) -> (r: Vec<usize>)
        requires
            self.wf(),
        ensures
            forall|k: int| 0 <= k < r@.len() ==> (#[trigger] r@[k]) < self@.vertices.len() && !self@.feeds_output(
                r@[k] as int,
            ),
            forall|j: int, k: int| 0 <= j < k < r@.len() ==> #[trigger] r@[j] < #[trigger] r@[k],
            forall|v: int|
                0 <= v < self@.vertices.len() && !#[trigger] self@.feeds_output(v) ==> exists|k: int|
                    0 <= k < r@.len() && #[trigger] r@[k] == v,
    {
        let n: usize = self.vertices.len();
        let ran: Vec<bool> = match self.output_vertex {
            Some(o) => schedule(&self.edges, o).0,
            None => unmarked(n),
        };
        assert(forall|v: int| 0 <= v < n ==> (#[trigger] ran@[v] <==> self@.feeds_output(v)));
        let mut r: Vec<usize> = Vec::new();
        let mut i: usize = 0;
        while i < n
            invariant
                i <= n,
                n == self@.vertices.len(),
                n == ran@.len(),
                forall|v: int| 0 <= v < n ==> (#[trigger] ran@[v] <==> self@.feeds_output(v)),
                forall|k: int| 0 <= k < r@.len() ==> (#[trigger] r@[k]) < i && !self@.feeds_output(r@[k] as int),
                forall|j: int, k: int| 0 <= j < k < r@.len() ==> #[trigger] r@[j] < #[trigger] r@[k],
                forall|v: int|
                    0 <= v < i && !#[trigger] self@.feeds_output(v) ==> exists|k: int|
                        0 <= k < r@.len() && #[trigger] r@[k] == v,
            decreases n - i,
        {
            let ghost before = r@;
            if !ran[i] {
                r.push(i);
                proof {
                    assert forall|v: int| 0 <= v < i + 1 && !#[trigger] self@.feeds_output(v) implies exists|k: int|
                        0 <= k < r@.len() && #[trigger] r@[k] == v by {
                        if v < i {
                            let k = choose|k: int| 0 <= k < before.len() && #[trigger] before[k] == v;
                            assert(r@[k] == v);
                        } else {
                            assert(r@[before.len() as int] == v);
                        }
                    }
                }
            } else {
                assert(ran@[i as int]);
            }
            i += 1;
        }
        r
    }

    /// Vertex `index`, if there is one.
    pub fn vertex(&self, index: usize) -> (r: Option<&Vertex>)
        ensures
            index < self@.vertices.len() ==> r is Some && r->0@ == self@.vertices[index as int],
            index >= self@.vertices.len() ==> r is None,
    {
        if index < self.vertices.len() {
            Some(&self.vertices[index])
        } else {
            None
        }
    }

    /// The inputs of vertex `index`, in the order they were connected.
    pub fn inputs(&self, index: usize) -> (r: Option<&Vec<usize>>)
        ensures
            index < self@.edges.len() ==> r is Some && r->0@ == self@.edges[index as int],
            index >= self@.edges.len() ==> r is None,
    {
        if index < self.edges.len() {
            Some(&self.edges[index])
        } else {
            None
        }
    }

    /// The name vertex `index` was added under.
    pub fn name(&self, index: usize) -> (r: Option<&String>)
        ensures
            index < self@.names.len() ==> r is Some && r->0@ == self@.names[index as int],
            index >= self@.names.len() ==> r is None,
    {
        if index < self.names.len() {
            Some(&self.names[index])
        } else {
            None
        }
    }

    /// Whether vertex `index` ran in the latest chunk.
    pub fn has_run(&self, index: usize) -> (r: bool)
        ensures
            r == (index < self@.ran.len() && self@.ran[index as int]),
    {
        index < self.ran_status.len() && self.ran_status[index]
    }

    /// Takes vertex `index` out of the graph, for as long as it computes, and
    /// leaves an idle vertex of the same kind of connection in its place.
    /// [`Graph::replace_vertex`] puts it back.
    pub fn take_vertex(&mut self, index: usize) -> (r: Option<Vertex>)
        requires
            old(self).wf(),
        ensures
            final(self).wf(),
            match r {
                Some(v) => {
                    &&& index < old(self)@.vertices.len()
                    &&& v@ == old(self)@.vertices[index as int]
                    &&& final(self)@ == (GraphView {
                        vertices: old(self)@.vertices.update(index as int, idle_vertex(v@.ext.has_input())),
                        ..old(self)@
                    })
                },
                None => index >= old(self)@.vertices.len() && final(self)@ == old(self)@,
            },
    {
        if index >= self.vertices.len() {
            return None;
        }
        assert(self@.vertices[index as int] == self.vertices@[index as int]@);
        let ext: VertexExt = if self.vertices[index].has_input() {
            VertexExt::sum()
        } else {
            VertexExt::sample_loop(0)
        };
        let idle: Vertex = Vertex::new(0, Scalar::one(), Scalar::zero(), Scalar::zero(), ext);
        proof {
            assert(silence(0) =~= Seq::<Scalar>::empty());
            lemma_clamped_inside_zero();
        }
        match self.replace_vertex(index, idle) {
            Ok(v) => Some(v),
            Err(_) => None,
        }
    }

    /// Puts `node` in the place of vertex `index` and hands out the vertex
    /// that was there.  A vertex that takes input can only stand in for one
    /// that does, and the other way round; otherwise, and without a vertex
    /// `index`, `node` comes back and the graph stays as it is.
    pub fn replace_vertex(&mut self, index: usize, node: Vertex) -> (r: Result<Vertex, Vertex>)
        requires
            old(self).wf(),
        ensures
            final(self).wf(),
            match r {
                Ok(was) => {
                    &&& index < old(self)@.vertices.len()
                    &&& node@.ext.has_input() == old(self)@.vertices[index as int].ext.has_input()
                    &&& was@ == old(self)@.vertices[index as int]
                    &&& final(self)@ == (GraphView {
                        vertices: old(self)@.vertices.update(index as int, node@),
                        ..old(self)@
                    })
                },
                Err(back) => {
                    &&& back == node
                    &&& !(index < old(self)@.vertices.len() && node@.ext.has_input() == old(
                        self,
                    )@.vertices[index as int].ext.has_input())
                    &&& final(self)@ == old(self)@
                },
            },
    {
        if index >= self.vertices.len() {
            return Err(node);
        }
        assert(self@.vertices[index as int] == self.vertices@[index as int]@);
        if node.has_input() != self.vertices[index].has_input() {
            return Err(node);
        }
        let mut held: Vertex = node;
        std::mem::swap(&mut held, &mut self.vertices[index]);
        proof {
            assert(self@.vertices =~= old(self)@.vertices.update(index as int, node@));
            assert(self@.names =~= old(self)@.names);
            assert forall|v: int| 0 <= v < self@.edges.len() && (#[trigger] self@.edges[v]).len() > 0 implies self@.vertices[v].ext.has_input() by {
                assert(old(self)@.edges[v].len() > 0);
                assert(old(self)@.vertices[v].ext.has_input());
            }
        }
        Ok(held)
    }
}

impl Graph {
    /// Starts a scan for peaks: every normalizer forgets what the last scan
    /// measured, and the floww bank returns to frame 0.  Without an output
    /// there is nothing to scan and nothing changes.
    pub fn begin_normalize_scan(&mut self, fb: &mut FlowwBank)
        requires
            old(self).wf(),
            old(fb).wf(),
        ensures
            final(self).wf(),
            final(fb).wf(),
            old(self)@.output is Some ==> final(self)@ == old(self)@.map_ext(|e: VertexExtView| e.scan_reset())
                && final(fb)@ == old(fb)@.set_time(0),
            old(self)@.output is None ==> final(self)@ == old(self)@ && final(fb)@ == old(fb)@,
    {
        if self.output_vertex.is_none() {
            return ;
        }
        self.reset_scan_normalize_vertices();
        fb.set_time(0);
    }

    /// Ends a scan for peaks: every normalizer takes the peak that the scan
    /// measured, and graph and floww bank return to frame 0.  Without an
    /// output nothing changes.
    pub fn end_normalize_scan(&mut self, fb: &mut FlowwBank)
        requires
            old(self).wf(),
            old(fb).wf(),
        ensures
            final(self).wf(),
            final(fb).wf(),
            old(self)@.output is Some ==> final(self)@ == old(self)@.map_ext(
                |e: VertexExtView| e.scan_applied(),
            ).set_time(0) && final(fb)@ == old(fb)@.set_time(0),
            old(self)@.output is None ==> final(self)@ == old(self)@ && final(fb)@ == old(fb)@,
    {
        if self.output_vertex.is_none() {
            return ;
        }
        self.apply_scan_normalize_vertices();
        self.set_time(0);
        fb.set_time(0);
    }
}

/// A seek forgets the seek before it: seeking to `t` and then to `u` leaves
/// the graph as seeking to `u` alone does.
pub proof fn lemma_set_time_overrides(g: GraphView, t: usize, u: usize)
    ensures
        g.set_time(t).set_time(u) == g.set_time(u),
{
    assert forall|i: int| 0 <= i < g.vertices.len() implies g.vertices[i].at_time(t).at_time(u)
        == g.vertices[i].at_time(u) by {
        let e = g.vertices[i].ext;
        assert(e.at_time(t).at_time(u) == e.at_time(u));
    }
    assert(g.set_time(t).set_time(u).vertices =~= g.set_time(u).vertices);
}

/// A seek changes neither the edges nor the output, so the chunk after it
/// runs the same vertices in the same order as the chunk before it.
pub proof fn lemma_set_time_keeps_order(g: GraphView, t: usize)
    requires
        g.output is Some,
    ensures
        g.set_time(t).output == g.output,
        chunk_order(g.set_time(t).edges, g.set_time(t).output->0 as int) == chunk_order(
            g.edges,
            g.output->0 as int,
        ),
{
}

/// Every graph that satisfies its invariant is acyclic, and stays so under
/// every accepted edge.
pub proof fn lemma_connect_keeps_acyclic(g: GraphView, a: usize, b: usize)
    requires
        g.wf(),
        g.can_connect(a, b),
    ensures
        acyclic(with_edge(g.edges, a, b)),
{
    lemma_with_edge_acyclic(g.edges, a, b);
}

} // verus!
