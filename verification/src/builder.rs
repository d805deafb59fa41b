//! From the declared nodes and edges to the graph.
//!
//! The nodes of a description name their samples, flowws and resources.  A
//! rebuild resolves those names against the banks, makes a vertex of every
//! node, connects them and chooses the output.  Nodes are built kind by kind,
//! and within a kind in the order they were declared.

use vstd::prelude::*;
use crate::adsr::{build_adsr_conf, conf_of, AdsrConf};
use crate::bank::BankView;
use crate::bufferbank::{Buffer, BufferBank};
use crate::extensions::{VertexExt, VertexExtView};
use crate::floww::{lookup, FlowwBank, FlowwBankView};
use crate::graph::{angle_in_range, wet_in_range, ConnectError, Graph, GraphView, Vertex, VertexView};
use crate::sample::{silence, Sample, SampleBank, SampleView};
use crate::scalar::{max_bits, Scalar};
use crate::synth::OscConf;

verus! {

/// Bit pattern of the smallest shape parameter of the square oscillator
/// (0.0001).
pub const MIN_SQUARE_PARAM_BITS: u32 = 0x38D1_B717;

/// What a wavetable resource decodes to, as the wavetable library reads it.
pub uninterp spec fn parsed_wavetable(bytes: Seq<u8>) -> Option<sampsyn::WaveTable>;

/// Decodes a wavetable with `sampsyn::parse_wavetable_from_buffer`.  The
/// contract only gives the result its name: the same bytes decode to the same
/// table, or to none.
#[verifier::external_body]
fn parse_wavetable(buffer: &Buffer) -> (table: Option<sampsyn::WaveTable>)
    ensures
        table == parsed_wavetable(buffer@),
{
    sampsyn::parse_wavetable_from_buffer(buffer)
}

/// The table that `sampsyn::WaveTable::default` makes, a single sine wave.
/// Nothing is claimed about it.
#[verifier::external_body]
fn default_wavetable() -> (table: sampsyn::WaveTable) {
    sampsyn::WaveTable::default()
}

/// The table to play: the decoded one, or the default table when the
/// resource did not decode.  The flag tells whether the resource decoded.
pub fn table_or_default(parsed: Option<sampsyn::WaveTable>) -> (r: (sampsyn::WaveTable, bool))
    ensures
        r.1 == parsed is Some,
        parsed is Some ==> r.0 == parsed->0,
{
    match parsed {
        Some(table) => (table, true),
        None => (default_wavetable(), false),
    }
}

/// Whether the resource named `resource` decodes to a wavetable; nothing if
/// there is no such resource.  A wavetable synthesiser whose resource does
/// not decode plays the default table.
pub fn wavetable_decodes(bb: &BufferBank, resource: &str) -> (r: Option<bool>)
    requires
        bb.wf(),
    ensures
        match bb@.index_of(resource@) {
            Some(index) => r == Some(parsed_wavetable(bb@.items[index as int]@) is Some),
            None => r is None,
        },
{
    match bb.get_index(resource) {
        Some(index) => {
            proof {
                bb.lemma_wf();
            }
            let (_, decoded) = table_or_default(parse_wavetable(bb.get_buffer(index)));
            Some(decoded)
        },
        None => None,
    }
}

/// Why a description could not be built.
#[derive(Clone, Copy, Debug, PartialEq, Eq, Structural)]
pub enum BuildError {
    /// A node names a sample that is not in the bank.
    UnknownSample,
    /// A node names a floww that is not in the bank.
    UnknownFloww,
    /// A node names a resource that is not in the bank.
    UnknownResource,
    /// A node names a plugin that is not loaded.
    UnknownPlugin,
    /// An envelope is given by a number of values other than 0, 6 and 9.
    BadAdsr,
    /// An edge is refused: the edge at place `index` of the description, for
    /// the reason `why`.
    RefusedEdge { index: usize, why: ConnectError },
    /// There is no output, or the output takes input and has none.
    NoOutput,
}

/// One oscillator of a synthesiser node.
#[derive(Debug)]
pub struct OscSeed {
    pub volume: Scalar,
    pub param: Scalar,
    pub adsr: Vec<Scalar>,
}

/// What a node is, with the resources it names.
#[derive(Debug)]
pub enum NodeKind {
    Sum,
    Normalize,
    SampleLoop { sample: String },
    SampleMulti { sample: String, floww: String, note: i32 },
    SampleLerp { sample: String, floww: String, note: i32, lerp_len: i32 },
    DebugSine { floww: String },
    Synth { floww: String, square: OscSeed, topflat: OscSeed, triangle: OscSeed },
    SampSyn { floww: String, adsr: Vec<Scalar>, resource: String },
    Lv2fx { wet: Scalar, plugin: Option<usize> },
    Adsr { wet: Scalar, floww: String, use_off: bool, use_max: bool, note: i32, adsr: Vec<Scalar> },
    BandPass { wet: Scalar, lgamma: Scalar, hgamma: Scalar, pass: bool },
}

/// A declared node.
#[derive(Debug)]
pub struct NodeSeed {
    pub name: String,
    pub gain: Scalar,
    pub angle: Scalar,
    pub kind: NodeKind,
}

/// Number of node kinds.
pub const KINDS: usize = 11;

impl NodeKind {
    /// The place of the kind in the building order.
    pub open spec fn rank(self) -> nat {
        match self {
            NodeKind::Sum => 0,
            NodeKind::Normalize => 1,
            NodeKind::SampleLoop { .. } => 2,
            NodeKind::SampleMulti { .. } => 3,
            NodeKind::SampleLerp { .. } => 4,
            NodeKind::DebugSine { .. } => 5,
            NodeKind::Synth { .. } => 6,
            NodeKind::SampSyn { .. } => 7,
            NodeKind::Lv2fx { .. } => 8,
            NodeKind::Adsr { .. } => 9,
            NodeKind::BandPass { .. } => 10,
        }
    }

    /// The wet mix of a node; kinds without one are dry.
    pub open spec fn wet(self) -> Scalar {
        match self {
            NodeKind::Lv2fx { wet, .. } => wet,
            NodeKind::Adsr { wet, .. } => wet,
            NodeKind::BandPass { wet, .. } => wet,
            _ => Scalar { bits: 0 },
        }
    }

    fn rank_of(&self) -> (r: usize)
        ensures
            r == self.rank(),
            r < KINDS,
    {
        match self {
            NodeKind::Sum => 0,
            NodeKind::Normalize => 1,
            NodeKind::SampleLoop { .. } => 2,
            NodeKind::SampleMulti { .. } => 3,
            NodeKind::SampleLerp { .. } => 4,
            NodeKind::DebugSine { .. } => 5,
            NodeKind::Synth { .. } => 6,
            NodeKind::SampSyn { .. } => 7,
            NodeKind::Lv2fx { .. } => 8,
            NodeKind::Adsr { .. } => 9,
            NodeKind::BandPass { .. } => 10,
        }
    }

    fn wet_of(&self) -> (w: Scalar)
        ensures
            w == self.wet(),
    {
        match self {
            NodeKind::Lv2fx { wet, .. } => *wet,
            NodeKind::Adsr { wet, .. } => *wet,
            NodeKind::BandPass { wet, .. } => *wet,
            _ => Scalar::zero(),
        }
    }
}

/// The banks a description is resolved against.
pub struct Env {
    pub samples: BankView<Sample>,
    pub flowws: FlowwBankView,
    pub buffers: BankView<Buffer>,
}

/// The note a node listens to: a negative number stands for every note.
pub open spec fn target_note(note: i32) -> Option<usize> {
    if note < 0 {
        None
    } else {
        Some(note as usize)
    }
}

/// The fade length of a node: a negative number stands for none.
pub open spec fn fade_len(lerp_len: i32) -> usize {
    if lerp_len < 0 {
        0
    } else {
        lerp_len as usize
    }
}

/// The oscillator a seed describes, if its envelope is well-formed.
pub open spec fn osc_of(seed: OscSeed) -> Option<OscConf> {
    match conf_of(seed.adsr@) {
        Some(adsr) => Some(OscConf { volume: seed.volume, param: seed.param, adsr }),
        None => None,
    }
}

/// The shape parameter of the square oscillator: at least 0.0001.
pub open spec fn square_param(param: Scalar) -> Scalar {
    Scalar { bits: max_bits(param.bits, MIN_SQUARE_PARAM_BITS) }
}

/// Why a node cannot be built, if it cannot.  Names are looked at in the order
/// sample, floww, envelopes, resource.
pub open spec fn failure_of(kind: NodeKind, env: Env) -> Option<BuildError> {
    match kind {
        NodeKind::Sum => None,
        NodeKind::Normalize => None,
        NodeKind::SampleLoop { sample } => if env.samples.index_of(sample@) is None {
            Some(BuildError::UnknownSample)
        } else {
            None
        },
        NodeKind::SampleMulti { sample, floww, .. } => if env.samples.index_of(sample@) is None {
            Some(BuildError::UnknownSample)
        } else if lookup(env.flowws.names, floww@) is None {
            Some(BuildError::UnknownFloww)
        } else {
            None
        },
        NodeKind::SampleLerp { sample, floww, .. } => if env.samples.index_of(sample@) is None {
            Some(BuildError::UnknownSample)
        } else if lookup(env.flowws.names, floww@) is None {
            Some(BuildError::UnknownFloww)
        } else {
            None
        },
        NodeKind::DebugSine { floww } => if lookup(env.flowws.names, floww@) is None {
            Some(BuildError::UnknownFloww)
        } else {
            None
        },
        NodeKind::Synth { floww, square, topflat, triangle } => if lookup(env.flowws.names, floww@) is None {
            Some(BuildError::UnknownFloww)
        } else if conf_of(square.adsr@) is None || conf_of(topflat.adsr@) is None || conf_of(triangle.adsr@)
            is None {
            Some(BuildError::BadAdsr)
        } else {
            None
        },
        NodeKind::SampSyn { floww, adsr, resource } => if lookup(env.flowws.names, floww@) is None {
            Some(BuildError::UnknownFloww)
        } else if conf_of(adsr@) is None {
            Some(BuildError::BadAdsr)
        } else if env.buffers.index_of(resource@) is None {
            Some(BuildError::UnknownResource)
        } else {
            None
        },
        NodeKind::Lv2fx { plugin, .. } => if plugin is None {
            Some(BuildError::UnknownPlugin)
        } else {
            None
        },
        NodeKind::Adsr { floww, adsr, .. } => if lookup(env.flowws.names, floww@) is None {
            Some(BuildError::UnknownFloww)
        } else if conf_of(adsr@) is None {
            Some(BuildError::BadAdsr)
        } else {
            None
        },
        NodeKind::BandPass { .. } => None,
    }
}

/// Whether `ext` is the generator of a node of kind `kind`, fresh and with
/// its names resolved.  The wavetable of a wavetable synthesiser is the one
/// its resource decodes to, if it decodes.
pub open spec fn ext_matches(ext: VertexExtView, kind: NodeKind, env: Env) -> bool {
    match kind {
        NodeKind::Sum => ext == VertexExtView::Sum,
        NodeKind::Normalize => ext == (VertexExtView::Normalize {
            max: Scalar { bits: 0 },
            scan_max: Scalar { bits: 0 },
        }),
        NodeKind::SampleLoop { sample } => ext == (VertexExtView::SampleLoop {
            sample_index: env.samples.index_of(sample@)->0,
            t: 0,
        }),
        NodeKind::SampleMulti { sample, floww, note } => ext == (VertexExtView::SampleMulti {
            sample_index: env.samples.index_of(sample@)->0,
            floww_index: lookup(env.flowws.names, floww@)->0,
            note: target_note(note),
            ts: Seq::empty(),
        }),
        NodeKind::SampleLerp { sample, floww, note, lerp_len } => ext == (VertexExtView::SampleLerp {
            sample_index: env.samples.index_of(sample@)->0,
            floww_index: lookup(env.flowws.names, floww@)->0,
            note: target_note(note),
            lerp_len: fade_len(lerp_len),
            countdown: 0,
            primary: (0i64, Scalar { bits: 0 }),
            fading: (0i64, Scalar { bits: 0 }),
        }),
        NodeKind::DebugSine { floww } => ext == (VertexExtView::DebugSine {
            floww_index: lookup(env.flowws.names, floww@)->0,
            notes: Seq::empty(),
        }),
        NodeKind::Synth { floww, square, topflat, triangle } => ext == (VertexExtView::Synth {
            floww_index: lookup(env.flowws.names, floww@)->0,
            square_conf: OscConf { param: square_param(square.param), ..osc_of(square)->0 },
            topflat_conf: osc_of(topflat)->0,
            triangle_conf: OscConf { param: Scalar { bits: 0 }, ..osc_of(triangle)->0 },
            notes: Seq::empty(),
        }),
        NodeKind::SampSyn { floww, adsr, resource } => {
            let parsed = parsed_wavetable(env.buffers.items[env.buffers.index_of(resource@)->0 as int]@);
            &&& ext is SampSyn
            &&& ext->SampSyn_floww_index == lookup(env.flowws.names, floww@)->0
            &&& ext->SampSyn_adsr == conf_of(adsr@)->0
            &&& ext->SampSyn_notes == Seq::<crate::extensions::TableVoice>::empty()
            &&& parsed is Some ==> ext->wave_table == parsed->0
        },
        NodeKind::Lv2fx { plugin, .. } => ext == (VertexExtView::Lv2fx { index: plugin->0 }),
        NodeKind::Adsr { floww, use_off, use_max, note, adsr, .. } => ext == (VertexExtView::Adsr {
            use_off,
            use_max,
            conf: conf_of(adsr@)->0,
            floww_index: lookup(env.flowws.names, floww@)->0,
            note: target_note(note),
            primary: (Scalar { bits: 0 }, Scalar { bits: 0 }, Scalar { bits: 0 }),
            fading: (Scalar { bits: 0 }, Scalar { bits: 0 }, Scalar { bits: 0 }),
        }),
        NodeKind::BandPass { lgamma, hgamma, pass, .. } => ext == (VertexExtView::BandPass {
            lgamma,
            hgamma,
            lprevl: Scalar { bits: 0 },
            lprevr: Scalar { bits: 0 },
            hprevl: Scalar { bits: 0 },
            hprevr: Scalar { bits: 0 },
            first: true,
            pass,
        }),
    }
}

fn note_from(note: i32) -> (r: Option<usize>)
    ensures
        r == target_note(note),
{
    if note < 0 {
        None
    } else {
        Some(note as usize)
    }
}

fn osc_from(seed: &OscSeed) -> (r: Option<OscConf>)
    ensures
        r == osc_of(*seed),
{
    match build_adsr_conf(seed.adsr.as_slice()) {
        Some(adsr) => Some(OscConf::new(seed.volume, seed.param, adsr)),
        None => None,
    }
}

/// The banks as a description sees them.
pub open spec fn env_of(sb: &SampleBank, fb: &FlowwBank, bb: &BufferBank) -> Env {
    Env { samples: sb@.bank, flowws: fb@, buffers: bb@ }
}

/// Makes the generator of a node, resolving the names it uses.
pub fn build_ext(kind: &NodeKind, sb: &SampleBank, fb: &FlowwBank, bb: &BufferBank) -> (r: Result<
    VertexExt,
    BuildError,
>)
    requires
        sb.wf(),
        bb.wf(),
    ensures
        match r {
            Ok(ext) => failure_of(*kind, env_of(sb, fb, bb)) is None && ext_matches(
                ext@,
                *kind,
                env_of(sb, fb, bb),
            ),
            Err(e) => failure_of(*kind, env_of(sb, fb, bb)) == Some(e),
        },
{
    match kind {
        NodeKind::Sum => Ok(VertexExt::sum()),
        NodeKind::Normalize => Ok(VertexExt::normalize()),
        NodeKind::SampleLoop { sample } => {
            match sb.get_index(sample.as_str()) {
                Some(index) => Ok(VertexExt::sample_loop(index)),
                None => Err(BuildError::UnknownSample),
            }
        },
        NodeKind::SampleMulti { sample, floww, note } => {
            let sample_index: usize = match sb.get_index(sample.as_str()) {
                Some(index) => index,
                None => {
                    return Err(BuildError::UnknownSample);
                },
            };
            let floww_index: usize = match fb.get_index(floww.as_str()) {
                Some(index) => index,
                None => {
                    return Err(BuildError::UnknownFloww);
                },
            };
            Ok(VertexExt::sample_multi(sample_index, floww_index, note_from(*note)))
        },
        NodeKind::SampleLerp { sample, floww, note, lerp_len } => {
            let sample_index: usize = match sb.get_index(sample.as_str()) {
                Some(index) => index,
                None => {
                    return Err(BuildError::UnknownSample);
                },
            };
            let floww_index: usize = match fb.get_index(floww.as_str()) {
                Some(index) => index,
                None => {
                    return Err(BuildError::UnknownFloww);
                },
            };
            let fade: usize = if *lerp_len < 0 {
                0
            } else {
                *lerp_len as usize
            };
            Ok(VertexExt::sample_lerp(sample_index, floww_index, note_from(*note), fade))
        },
        NodeKind::DebugSine { floww } => {
            match fb.get_index(floww.as_str()) {
                Some(index) => Ok(VertexExt::debug_sine(index)),
                None => Err(BuildError::UnknownFloww),
            }
        },
        NodeKind::Synth { floww, square, topflat, triangle } => {
            let floww_index: usize = match fb.get_index(floww.as_str()) {
                Some(index) => index,
                None => {
                    return Err(BuildError::UnknownFloww);
                },
            };
            let sq: OscConf = match osc_from(square) {
                Some(conf) => conf,
                None => {
                    return Err(BuildError::BadAdsr);
                },
            };
            let tf: OscConf = match osc_from(topflat) {
                Some(conf) => conf,
                None => {
                    return Err(BuildError::BadAdsr);
                },
            };
            let tr: OscConf = match osc_from(triangle) {
                Some(conf) => conf,
                None => {
                    return Err(BuildError::BadAdsr);
                },
            };
            let floor: Scalar = Scalar::from_bits(MIN_SQUARE_PARAM_BITS);
            Ok(
                VertexExt::synth(
                    floww_index,
                    OscConf::new(sq.volume, sq.param.max(floor), sq.adsr),
                    tf,
                    OscConf::new(tr.volume, Scalar::zero(), tr.adsr),
                ),
            )
        },
        NodeKind::SampSyn { floww, adsr, resource } => {
            let floww_index: usize = match fb.get_index(floww.as_str()) {
                Some(index) => index,
                None => {
                    return Err(BuildError::UnknownFloww);
                },
            };
            let conf: AdsrConf = match build_adsr_conf(adsr.as_slice()) {
                Some(conf) => conf,
                None => {
                    return Err(BuildError::BadAdsr);
                },
            };
            let buffer_index: usize = match bb.get_index(resource.as_str()) {
                Some(index) => index,
                None => {
                    return Err(BuildError::UnknownResource);
                },
            };
            proof {
                bb.lemma_wf();
            }
            let (table, _) = table_or_default(parse_wavetable(bb.get_buffer(buffer_index)));
            Ok(VertexExt::sampsyn(floww_index, conf, table))
        },
        NodeKind::Lv2fx { plugin, .. } => {
            match plugin {
                Some(index) => Ok(VertexExt::lv2fx(*index)),
                None => Err(BuildError::UnknownPlugin),
            }
        },
        NodeKind::Adsr { floww, use_off, use_max, note, adsr, .. } => {
            let floww_index: usize = match fb.get_index(floww.as_str()) {
                Some(index) => index,
                None => {
                    return Err(BuildError::UnknownFloww);
                },
            };
            let conf: AdsrConf = match build_adsr_conf(adsr.as_slice()) {
                Some(conf) => conf,
                None => {
                    return Err(BuildError::BadAdsr);
                },
            };
            Ok(VertexExt::adsr(*use_off, *use_max, conf, note_from(*note), floww_index))
        },
        NodeKind::BandPass { lgamma, hgamma, pass, .. } => Ok(VertexExt::band_pass(*lgamma, *hgamma, *pass)),
    }
}

/// Whether `v` is the vertex of node `seed`: silent, with the node's gain,
/// its angle and wet mix brought into range, and a matching generator.
pub open spec fn vertex_matches(v: VertexView, seed: NodeSeed, bl: usize, env: Env) -> bool {
    &&& v.buf == (SampleView { l: silence(bl as nat), r: silence(bl as nat) })
    &&& v.gain == seed.gain
    &&& v.angle == angle_in_range(seed.angle)
    &&& v.wet == wet_in_range(seed.kind.wet())
    &&& ext_matches(v.ext, seed.kind, env)
}

/// Makes the vertex of a node, with a buffer of `bl` frames.
pub fn build_vertex(seed: &NodeSeed, bl: usize, sb: &SampleBank, fb: &FlowwBank, bb: &BufferBank) -> (r: Result<
    Vertex,
    BuildError,
>)
    requires
        sb.wf(),
        bb.wf(),
    ensures
        match r {
            Ok(v) => failure_of(seed.kind, env_of(sb, fb, bb)) is None && vertex_matches(
                v@,
                *seed,
                bl,
                env_of(sb, fb, bb),
            ),
            Err(e) => failure_of(seed.kind, env_of(sb, fb, bb)) == Some(e),
        },
{
    match build_ext(&seed.kind, sb, fb, bb) {
        Ok(ext) => Ok(Vertex::new(bl, seed.gain, seed.angle, seed.kind.wet_of(), ext)),
        Err(e) => Err(e),
    }
}

/// The indices below `upto` of the nodes of rank `rank`, in order.
pub open spec fn of_rank(nodes: Seq<NodeSeed>, rank: nat, upto: int) -> Seq<usize>
    decreases upto,
{
    if upto <= 0 {
        Seq::empty()
    } else {
        let rest = of_rank(nodes, rank, upto - 1);
        if nodes[upto - 1].kind.rank() == rank {
            rest.push((upto - 1) as usize)
        } else {
            rest
        }
    }
}

/// The indices of the nodes of the first `ranks` kinds: kind by kind, and
/// within a kind in the order of declaration.
pub open spec fn order_upto(nodes: Seq<NodeSeed>, ranks: nat) -> Seq<usize>
    decreases ranks,
{
    if ranks == 0 {
        Seq::empty()
    } else {
        order_upto(nodes, (ranks - 1) as nat) + of_rank(nodes, (ranks - 1) as nat, nodes.len() as int)
    }
}

/// The order in which the nodes are built.
pub open spec fn build_order_of(nodes: Seq<NodeSeed>) -> Seq<usize> {
    order_upto(nodes, KINDS as nat)
}

/// The indices of the nodes in the order in which they are built.
pub fn build_order(nodes: &Vec<NodeSeed>) -> (order: Vec<usize>)
    ensures
        order@ == build_order_of(nodes@),
        forall|k: int| 0 <= k < order@.len() ==> (#[trigger] order@[k]) < nodes@.len(),
{
    let mut order: Vec<usize> = Vec::new();
    let n: usize = nodes.len();
    let mut rank: usize = 0;
    assert(order@ =~= order_upto(nodes@, 0));
    while rank < KINDS
        invariant
            rank <= KINDS,
            n == nodes@.len(),
            order@ == order_upto(nodes@, rank as nat),
            forall|k: int| 0 <= k < order@.len() ==> (#[trigger] order@[k]) < nodes@.len(),
        decreases KINDS - rank,
    {
        let ghost before = order@;
        let mut i: usize = 0;
        assert(order@ =~= before + of_rank(nodes@, rank as nat, 0));
        while i < n
            invariant
                i <= n,
                n == nodes@.len(),
                rank < KINDS,
                order@ == before + of_rank(nodes@, rank as nat, i as int),
                forall|k: int| 0 <= k < order@.len() ==> (#[trigger] order@[k]) < nodes@.len(),
            decreases n - i,
        {
            if nodes[i].kind.rank_of() == rank {
                order.push(i);
                assert(order@ =~= before + of_rank(nodes@, rank as nat, i + 1));
            }
            i += 1;
        }
        rank += 1;
    }
    order
}

/// The table of names of a graph whose vertices were added under `names`, in
/// that order: a name stands for the vertex that was added under it last.
pub open spec fn name_table(names: Seq<Seq<char>>) -> Map<Seq<char>, usize>
    decreases names.len(),
{
    if names.len() == 0 {
        Map::empty()
    } else {
        name_table(names.drop_last()).insert(names.last(), (names.len() - 1) as usize)
    }
}

/// Whether `g` is the graph of the nodes `nodes[order[0]], nodes[order[1]],
/// ...`, unconnected: one matching vertex per node, under the node's name.
pub open spec fn is_node_graph(
    g: GraphView,
    nodes: Seq<NodeSeed>,
    order: Seq<usize>,
    max_buffer_len: usize,
    samplerate: usize,
    env: Env,
) -> bool {
    &&& g.vertices.len() == order.len()
    &&& g.names.len() == order.len()
    &&& forall|k: int|
        0 <= k < order.len() ==> vertex_matches(
            #[trigger] g.vertices[k],
            nodes[order[k] as int],
            max_buffer_len,
            env,
        )
    &&& forall|k: int| 0 <= k < order.len() ==> #[trigger] g.names[k] == nodes[order[k] as int].name@
    &&& g.edges == Seq::new(order.len(), |i: int| Seq::<usize>::empty())
    &&& g.ran == Seq::new(order.len(), |i: int| false)
    &&& g.name_map == name_table(g.names)
    &&& g.output is None
    &&& g.max_buffer_len == max_buffer_len
    &&& g.samplerate == samplerate
    &&& g.t == 0
}

/// The first reason, in building order, why a node cannot be built.
pub open spec fn first_failure(nodes: Seq<NodeSeed>, order: Seq<usize>, env: Env) -> Option<BuildError>
    decreases order.len(),
{
    if order.len() == 0 {
        None
    } else {
        match first_failure(nodes, order.drop_last(), env) {
            Some(e) => Some(e),
            None => failure_of(nodes[order.last() as int].kind, env),
        }
    }
}

/// The graph after the edges were connected one after the other; an edge
/// that is not accepted leaves the graph as it is.
pub open spec fn connect_all(g: GraphView, edges: Seq<(String, String)>) -> GraphView
    decreases edges.len(),
{
    if edges.len() == 0 {
        g
    } else {
        connect_all(g, edges.drop_last()).connected(edges.last().0@, edges.last().1@)
    }
}

/// The first edge that is refused when the edges are connected one after the
/// other, by its place and the reason.
pub open spec fn first_refused(g: GraphView, edges: Seq<(String, String)>) -> Option<(usize, ConnectError)>
    decreases edges.len(),
{
    if edges.len() == 0 {
        None
    } else {
        match first_refused(g, edges.drop_last()) {
            Some(found) => Some(found),
            None => match connect_all(g, edges.drop_last()).refusal(edges.last().0@, edges.last().1@) {
                Some(why) => Some(((edges.len() - 1) as usize, why)),
                None => None,
            },
        }
    }
}

/// A refusal among the first edges is the first refusal among all.
proof fn lemma_refusal_stays(g: GraphView, edges: Seq<(String, String)>, upto: int)
    requires
        0 <= upto <= edges.len(),
        first_refused(g, edges.take(upto)) is Some,
    ensures
        first_refused(g, edges) == first_refused(g, edges.take(upto)),
    decreases edges.len() - upto,
{
    if upto < edges.len() {
        assert(edges.take(upto + 1).drop_last() =~= edges.take(upto));
        lemma_refusal_stays(g, edges, upto + 1);
    } else {
        assert(edges.take(upto) =~= edges);
    }
}

/// The graph with its edges connected and its output chosen.
pub open spec fn wired(base: GraphView, edges: Seq<(String, String)>, output: Seq<char>) -> GraphView {
    connect_all(base, edges).with_output(output)
}

/// Connects the edges one after the other, up to the first that is refused.
///
/// An edge is refused when one of its names is unknown, when both name the
/// same vertex, when its target takes no input, or when it would close a
/// cycle.  The edges before it stay connected.
pub fn connect_edges(g: &mut Graph, edges: &Vec<(String, String)>) -> (r: Result<(), BuildError>)
    requires
        old(g).wf(),
    ensures
        final(g).wf(),
        match first_refused(old(g)@, edges@) {
            Some((index, why)) => {
                &&& r == Err::<(), BuildError>(BuildError::RefusedEdge { index, why })
                &&& index < edges@.len()
                &&& final(g)@ == connect_all(old(g)@, edges@.take(index as int))
            },
            None => r is Ok && final(g)@ == connect_all(old(g)@, edges@),
        },
{
    let mut i: usize = 0;
    assert(edges@.take(0) =~= Seq::empty());
    while i < edges.len()
        invariant
            i <= edges.len(),
            g.wf(),
            g@ == connect_all(old(g)@, edges@.take(i as int)),
            first_refused(old(g)@, edges@.take(i as int)) is None,
        decreases edges.len() - i,
    {
        proof {
            assert(edges@.take(i + 1).drop_last() =~= edges@.take(i as int));
            assert(edges@.take(i + 1).last() == edges@[i as int]);
        }
        match g.connect_error(edges[i].0.as_str(), edges[i].1.as_str()) {
            Some(why) => {
                proof {
                    lemma_refusal_stays(old(g)@, edges@, i + 1);
                }
                return Err(BuildError::RefusedEdge { index: i, why });
            },
            None => {
                let _ = g.connect(edges[i].0.as_str(), edges[i].1.as_str());
            },
        }
        i += 1;
    }
    assert(edges@.take(edges@.len() as int) =~= edges@);
    Ok(())
}

/// What becomes of the unconnected graph `base`: the graph that is left, and
/// whether the description is built.
///
/// The first refused edge ends the rebuild with the edges before it
/// connected.  Otherwise the output is chosen; a graph that cannot render is
/// left at that, and in one that can, every normalizer gets its peak seeded.
pub open spec fn outcome_of(base: GraphView, edges: Seq<(String, String)>, output: Seq<char>) -> (
    GraphView,
    Result<(), BuildError>,
) {
    match first_refused(base, edges) {
        Some((index, why)) => (
            connect_all(base, edges.take(index as int)),
            Err(BuildError::RefusedEdge { index, why }),
        ),
        None => if wired(base, edges, output).renders() {
            (wired(base, edges, output).map_ext(|e: VertexExtView| e.peak_reset()), Ok(()))
        } else {
            (wired(base, edges, output), Err(BuildError::NoOutput))
        },
    }
}

/// Whether `g` and `r` are what a rebuild leaves and returns.
///
/// A node that cannot be built ends the rebuild with its error and a graph
/// without vertices.  Otherwise there is one vertex per node, in building
/// order, and the edges and the output decide as [`outcome_of`] says.
pub open spec fn is_rebuilt(
    g: GraphView,
    r: Result<(), BuildError>,
    nodes: Seq<NodeSeed>,
    edges: Seq<(String, String)>,
    output: Seq<char>,
    max_buffer_len: usize,
    samplerate: usize,
    env: Env,
) -> bool {
    match first_failure(nodes, build_order_of(nodes), env) {
        Some(e) => r == Err::<(), BuildError>(e) && g == GraphView::blank(max_buffer_len, samplerate),
        None => exists|base: GraphView|
            {
                &&& #[trigger] is_node_graph(base, nodes, build_order_of(nodes), max_buffer_len, samplerate, env)
                &&& (g, r) == outcome_of(base, edges, output)
            },
    }
}

/// Builds the graph of a description from scratch.
///
/// The nodes become vertices, kind by kind; a node that cannot be built ends
/// the rebuild and leaves the graph without vertices.  Then the edges are
/// connected in order; an edge that is refused ends the rebuild.  Then the
/// output is chosen.  A graph that cannot render is left as it is then, and
/// reported; in one that can, every normalizer gets its peak seeded.  The
/// result is `Ok` only for a graph that renders and holds every edge.
pub fn rebuild(
    g: &mut Graph,
    nodes: &Vec<NodeSeed>,
    edges: &Vec<(String, String)>,
    output: &str,
    sb: &SampleBank,
    fb: &FlowwBank,
    bb: &BufferBank,
) -> (r: Result<(), BuildError>)
    requires
        sb.wf(),
        bb.wf(),
    ensures
        final(g).wf(),
        is_rebuilt(
            final(g)@,
            r,
            nodes@,
            edges@,
            output@,
            old(g)@.max_buffer_len,
            old(g)@.samplerate,
            env_of(sb, fb, bb),
        ),
        r is Ok ==> final(g)@.renders(),
{
    g.reset();
    let bl: usize = g.max_buffer_len();
    let ghost sr = g@.samplerate;
    let ghost env = env_of(sb, fb, bb);
    let order: Vec<usize> = build_order(nodes);
    let mut k: usize = 0;
    proof {
        assert(order@.take(0) =~= Seq::empty());
        assert(g@.edges =~= Seq::new(0, |i: int| Seq::<usize>::empty()));
        assert(g@.ran =~= Seq::new(0, |i: int| false));
    }
    while k < order.len()
        invariant
            k <= order.len(),
            order@ == build_order_of(nodes@),
            forall|j: int| 0 <= j < order@.len() ==> (#[trigger] order@[j]) < nodes@.len(),
            sb.wf(),
            bb.wf(),
            env == env_of(sb, fb, bb),
            g.wf(),
            bl == old(g)@.max_buffer_len,
            sr == old(g)@.samplerate,
            is_node_graph(g@, nodes@, order@.take(k as int), bl, sr, env),
            first_failure(nodes@, order@.take(k as int), env) is None,
        decreases order.len() - k,
    {
        let ghost before = g@;
        let ghost done = order@.take(k as int);
        let index: usize = order[k];
        proof {
            assert(order@.take(k + 1).drop_last() =~= done);
            assert(order@.take(k + 1).last() == index);
        }
        match build_vertex(&nodes[index], bl, sb, fb, bb) {
            Ok(v) => {
                g.add(v, nodes[index].name.clone());
                proof {
                    let grown = order@.take(k + 1);
                    assert(g@.names =~= before.names.push(nodes@[index as int].name@));
                    assert(g@.names.drop_last() =~= before.names);
                    assert(g@.edges =~= Seq::new(grown.len(), |i: int| Seq::<usize>::empty()));
                    assert(g@.ran =~= Seq::new(grown.len(), |i: int| false));
                    assert forall|j: int| 0 <= j < grown.len() implies vertex_matches(
                        #[trigger] g@.vertices[j],
                        nodes@[grown[j] as int],
                        bl,
                        env,
                    ) by {
                        if j < k {
                            assert(g@.vertices[j] == before.vertices[j]);
                            assert(grown[j] == done[j]);
                        }
                    }
                    assert forall|j: int| 0 <= j < grown.len() implies #[trigger] g@.names[j]
                        == nodes@[grown[j] as int].name@ by {
                        if j < k {
                            assert(g@.names[j] == before.names[j]);
                            assert(grown[j] == done[j]);
                        }
                    }
                }
            },
            Err(e) => {
                g.reset();
                proof {
                    lemma_failure_stays(nodes@, order@, k + 1, env);
                    assert(order@.take(order@.len() as int) =~= order@);
                }
                return Err(e);
            },
        }
        k += 1;
    }
    proof {
        assert(order@.take(order@.len() as int) =~= order@);
    }
    let ghost base = g@;
    match connect_edges(g, edges) {
        Ok(()) => {},
        Err(e) => {
            assert((g@, Err::<(), BuildError>(e)) == outcome_of(base, edges@, output@));
            return Err(e);
        },
    }
    let _ = g.set_output(output);
    if !g.check_graph() {
        assert((g@, Err::<(), BuildError>(BuildError::NoOutput)) == outcome_of(base, edges@, output@));
        return Err(BuildError::NoOutput);
    }
    let ghost before_seed = g@;
    g.reset_normalize_vertices();
    proof {
        assert((g@, Ok::<(), BuildError>(())) == outcome_of(base, edges@, output@));
        assert(g@.renders()) by {
            let o = before_seed.output->0 as int;
            assert(g@.vertices[o].ext.has_input() == before_seed.vertices[o].ext.has_input());
        }
    }
    Ok(())
}

/// A failure among the first nodes is a failure among all.
proof fn lemma_failure_stays(nodes: Seq<NodeSeed>, order: Seq<usize>, upto: int, env: Env)
    requires
        0 <= upto <= order.len(),
        first_failure(nodes, order.take(upto), env) is Some,
    ensures
        first_failure(nodes, order, env) == first_failure(nodes, order.take(upto), env),
    decreases order.len() - upto,
{
    if upto < order.len() {
        assert(order.take(upto + 1).drop_last() =~= order.take(upto));
        lemma_failure_stays(nodes, order, upto + 1, env);
    } else {
        assert(order.take(upto) =~= order);
    }
}

/// Whether a node has its generator fixed by the description and the banks:
/// every node has, but for a wavetable synthesiser whose resource does not
/// decode and which therefore plays the default table.
pub open spec fn is_determined(kind: NodeKind, env: Env) -> bool {
    match kind {
        NodeKind::SampSyn { resource, .. } => env.buffers.index_of(resource@) is Some ==> parsed_wavetable(
            env.buffers.items[env.buffers.index_of(resource@)->0 as int]@,
        ) is Some,
        _ => true,
    }
}

/// Whether every node that is built has its generator fixed by the
/// description and the banks.
pub open spec fn all_determined(nodes: Seq<NodeSeed>, env: Env) -> bool {
    forall|k: int|
        0 <= k < build_order_of(nodes).len() ==> is_determined(
            nodes[#[trigger] build_order_of(nodes)[k] as int].kind,
            env,
        )
}

proof fn lemma_no_failure(nodes: Seq<NodeSeed>, order: Seq<usize>, env: Env, k: int)
    requires
        first_failure(nodes, order, env) is None,
        0 <= k < order.len(),
    ensures
        failure_of(nodes[order[k] as int].kind, env) is None,
    decreases order.len(),
{
    if k < order.len() - 1 {
        lemma_no_failure(nodes, order.drop_last(), env, k);
    }
}

proof fn lemma_vertex_determined(v: VertexView, w: VertexView, seed: NodeSeed, bl: usize, env: Env)
    requires
        vertex_matches(v, seed, bl, env),
        vertex_matches(w, seed, bl, env),
        failure_of(seed.kind, env) is None,
        is_determined(seed.kind, env),
    ensures
        v == w,
{
    assert(v.ext == w.ext);
}

/// Two unconnected graphs of the same nodes over the same banks are equal.
proof fn lemma_node_graph_determined(
    a: GraphView,
    b: GraphView,
    nodes: Seq<NodeSeed>,
    max_buffer_len: usize,
    samplerate: usize,
    env: Env,
)
    requires
        is_node_graph(a, nodes, build_order_of(nodes), max_buffer_len, samplerate, env),
        is_node_graph(b, nodes, build_order_of(nodes), max_buffer_len, samplerate, env),
        first_failure(nodes, build_order_of(nodes), env) is None,
        all_determined(nodes, env),
    ensures
        a == b,
{
    let order = build_order_of(nodes);
    assert forall|k: int| 0 <= k < order.len() implies a.vertices[k] == b.vertices[k] by {
        lemma_no_failure(nodes, order, env, k);
        assert(is_determined(nodes[order[k] as int].kind, env));
        lemma_vertex_determined(a.vertices[k], b.vertices[k], nodes[order[k] as int], max_buffer_len, env);
    }
    assert(a.vertices =~= b.vertices);
    assert(a.names =~= b.names);
}

/// Rebuilding twice from the same description over the same banks leaves the
/// same graph and the same result, as long as no wavetable synthesiser has to
/// play the default table.
pub proof fn lemma_rebuild_again(
    g1: GraphView,
    r1: Result<(), BuildError>,
    g2: GraphView,
    r2: Result<(), BuildError>,
    nodes: Seq<NodeSeed>,
    edges: Seq<(String, String)>,
    output: Seq<char>,
    max_buffer_len: usize,
    samplerate: usize,
    env: Env,
)
    requires
        is_rebuilt(g1, r1, nodes, edges, output, max_buffer_len, samplerate, env),
        is_rebuilt(g2, r2, nodes, edges, output, max_buffer_len, samplerate, env),
        all_determined(nodes, env),
    ensures
        g1 == g2,
        r1 == r2,
{
    if first_failure(nodes, build_order_of(nodes), env) is None {
        let order = build_order_of(nodes);
        let a = choose|base: GraphView|
            {
                &&& #[trigger] is_node_graph(base, nodes, order, max_buffer_len, samplerate, env)
                &&& (g1, r1) == outcome_of(base, edges, output)
            };
        let b = choose|base: GraphView|
            {
                &&& #[trigger] is_node_graph(base, nodes, order, max_buffer_len, samplerate, env)
                &&& (g2, r2) == outcome_of(base, edges, output)
            };
        lemma_node_graph_determined(a, b, nodes, max_buffer_len, samplerate, env);
    }
}

} // verus!
