//! The engine's state and the steps of a refresh.
//!
//! A refresh rebuilds the project from its description.  Loading files is the
//! caller's part; between the loads the state decides what to load, what to
//! remove and what to remember:
//!
//! 1. [`State::begin_refresh`] takes the settings of the description;
//! 2. [`State::stage_samples`] removes the samples that are gone and names
//!    those to load, and [`State::settle_samples`] records what was loaded;
//!    what failed to load is left out, and the refresh goes on;
//! 3. [`State::stage_resources`] and [`State::settle_resources`] do the same
//!    for resources;
//! 4. [`State::stage_flowws`] empties the floww bank for the caller to fill;
//! 5. [`State::finish_refresh`] builds the graph.

use vstd::prelude::*;
use crate::bank::{lemma_kept_all, BankView};
use crate::bufferbank::{Buffer, BufferBank};
use crate::builder::{env_of, is_rebuilt, rebuild, BuildError, NodeSeed};
use crate::floww::{FlowwBank, FlowwBankView};
use crate::graph::{Graph, GraphView};
use crate::render::{plan_for, plan_render, RenderError, RenderPlan};
use crate::sample::{Sample, SampleBank, SampleBankView};
use crate::seeds::{
    diff, keys, lemma_diff_same, missing, settle, without, FileSeed, ParamSeed, SampleSeed, Seed, SeedKey,
};

verus! {

/// What a project description declares.
pub struct Declaration {
    /// Number of chunks to render.
    pub chunks: usize,
    /// Sample rate of the rendered file.
    pub render_sr: usize,
    /// Bit depth of the rendered file.
    pub bd: usize,
    /// Path of the rendered file.
    pub output_file: String,
    /// Name of the output vertex.
    pub output_vertex: String,
    /// The samples to have in the bank.
    pub samples: Vec<SampleSeed>,
    /// The resources to have in the bank.
    pub resources: Vec<FileSeed>,
    /// The MIDI files to load as flowws.
    pub midis: Vec<FileSeed>,
    /// The names of the live streams.
    pub streams: Vec<String>,
    /// The plugins to have loaded, by name and address.
    pub lv2plugins: Vec<FileSeed>,
    /// The plugin parameters to have set.
    pub lv2params: Vec<ParamSeed>,
    /// The nodes of the graph.
    pub nodes: Vec<NodeSeed>,
    /// The edges of the graph: from the first name into the second.
    pub edges: Vec<(String, String)>,
}

/// The banks, the graph and what is remembered between refreshes.
pub struct State {
    pub sb: SampleBank,
    pub g: Graph,
    pub fb: FlowwBank,
    pub bb: BufferBank,
    /// Whether the latest refresh succeeded.
    pub loaded: bool,
    /// Number of chunks to render.
    pub cs: usize,
    /// Sample rate of the rendered file.
    pub render_sr: usize,
    /// Bit depth of the rendered file.
    pub bd: usize,
    pub output_vertex: String,
    pub output_file: String,
    /// The samples that were loaded.
    pub cur_samples: Vec<SampleSeed>,
    /// The resources that were loaded.
    pub cur_resources: Vec<FileSeed>,
    /// The plugins that were loaded.
    pub cur_lv2plugins: Vec<FileSeed>,
    /// The plugin parameters that were set.
    pub cur_lv2params: Vec<ParamSeed>,
}

/// A bank with the items of the given names marked, one after the other.
pub open spec fn marked_all<T>(bank: BankView<T>, names: Seq<SeedKey>) -> BankView<T>
    decreases names.len(),
{
    if names.len() == 0 {
        bank
    } else {
        marked_all(bank, names.drop_last()).with_mark(names.last().name)
    }
}

/// The sample rate a rendered file has when the description names none.
pub const DEFAULT_RENDER_SR: usize = 48000;

/// The bit depth a rendered file has when the description names none.
pub const DEFAULT_BIT_DEPTH: usize = 16;

impl State {
    /// Whether the invariants of the banks and of the graph hold.
    pub open spec fn wf(&self) -> bool {
        &&& self.sb.wf()
        &&& self.g.wf()
        &&& self.fb.wf()
        &&& self.bb.wf()
    }

    /// Whether the settings are those of `before`: what to render, where to,
    /// and from which vertex.
    pub open spec fn settings_kept(&self, before: &State) -> bool {
        &&& self.cs == before.cs
        &&& self.render_sr == before.render_sr
        &&& self.bd == before.bd
        &&& self.output_vertex == before.output_vertex
        &&& self.output_file == before.output_file
    }

    /// Whether the records of what is loaded are those of `before`.
    pub open spec fn records_kept(&self, before: &State) -> bool {
        &&& self.cur_samples == before.cur_samples
        &&& self.cur_resources == before.cur_resources
        &&& self.cur_lv2plugins == before.cur_lv2plugins
        &&& self.cur_lv2params == before.cur_lv2params
    }

    /// Whether banks and graph are those of `before`.
    pub open spec fn engine_kept(&self, before: &State) -> bool {
        &&& self.sb == before.sb
        &&& self.g == before.g
        &&& self.fb == before.fb
        &&& self.bb == before.bb
    }

    /// The state of an engine before its first refresh: empty banks, an
    /// empty graph, and a rendered file of 48000 frames per second and 16
    /// bits named `outp.wav`.
    pub fn new(project_sr: usize, buffer_len: usize) -> (s: Self)
        ensures
            s.wf(),
            !s.loaded,
            s.cs == 0,
            s.render_sr == DEFAULT_RENDER_SR,
            s.bd == DEFAULT_BIT_DEPTH,
            s.output_vertex@ == Seq::<char>::empty(),
            s.output_file@ == "outp.wav"@,
            s.g@ == GraphView::blank(buffer_len, project_sr),
            s.fb@ == FlowwBankView::blank(project_sr, buffer_len),
            s.sb@ == (SampleBankView {
                sample_rate: project_sr,
                bank: BankView::<Sample>::blank(),
                max_sr: 0,
                max_bd: 0,
            }),
            s.bb@ == BankView::<Buffer>::blank(),
            s.cur_samples@.len() == 0,
            s.cur_resources@.len() == 0,
            s.cur_lv2plugins@.len() == 0,
            s.cur_lv2params@.len() == 0,
    {
        State {
            sb: SampleBank::new(project_sr),
            g: Graph::new(buffer_len, project_sr),
            fb: FlowwBank::new(project_sr, buffer_len),
            bb: BufferBank::new(),
            loaded: false,
            cs: 0,
            render_sr: DEFAULT_RENDER_SR,
            bd: DEFAULT_BIT_DEPTH,
            output_vertex: String::new(),
            output_file: String::from_str("outp.wav"),
            cur_samples: Vec::new(),
            cur_resources: Vec::new(),
            cur_lv2plugins: Vec::new(),
            cur_lv2params: Vec::new(),
        }
    }

    /// Starts a refresh: the project counts as not loaded until the refresh
    /// is finished, and the settings of the description take effect.  Banks,
    /// graph and records stay.
    pub fn begin_refresh(&mut self, decl: &Declaration)
        ensures
            !final(self).loaded,
            final(self).cs == decl.chunks,
            final(self).render_sr == decl.render_sr,
            final(self).bd == decl.bd,
            final(self).output_file@ == decl.output_file@,
            final(self).output_vertex@ == decl.output_vertex@,
            final(self).engine_kept(old(self)),
            final(self).records_kept(old(self)),
    {
        self.loaded = false;
        self.cs = decl.chunks;
        self.render_sr = decl.render_sr;
        self.bd = decl.bd;
        self.output_file = decl.output_file.clone();
        self.output_vertex = decl.output_vertex.clone();
    }

    /// Removes from the bank the samples that are no longer declared, and
    /// returns those that are newly declared, for the caller to load.
    /// Nothing but the sample bank changes.
    pub fn stage_samples(&mut self, declared: &Vec<SampleSeed>) -> (to_load: Vec<SampleSeed>)
        requires
            old(self).sb.wf(),
        ensures
            final(self).sb.wf(),
            keys(to_load@) == missing(keys(declared@), keys(old(self).cur_samples@)),
            final(self).sb@ == (SampleBankView {
                bank: marked_all(
                    old(self).sb@.bank,
                    missing(keys(old(self).cur_samples@), keys(declared@)),
                ).swept(),
                ..old(self).sb@
            }),
            final(self).g == old(self).g,
            final(self).fb == old(self).fb,
            final(self).bb == old(self).bb,
            final(self).loaded == old(self).loaded,
            final(self).settings_kept(old(self)),
            final(self).records_kept(old(self)),
    {
        let (adds, removes) = diff(&self.cur_samples, declared);
        let mut i: usize = 0;
        assert(keys(removes@).take(0) =~= Seq::empty());
        while i < removes.len()
            invariant
                i <= removes.len(),
                self.sb.wf(),
                self.sb@ == (SampleBankView {
                    bank: marked_all(old(self).sb@.bank, keys(removes@).take(i as int)),
                    ..old(self).sb@
                }),
                self.g == old(self).g,
                self.fb == old(self).fb,
                self.bb == old(self).bb,
                self.loaded == old(self).loaded,
                self.settings_kept(old(self)),
                self.records_kept(old(self)),
            decreases removes.len() - i,
        {
            proof {
                assert(keys(removes@).take(i + 1).drop_last() =~= keys(removes@).take(i as int));
                assert(keys(removes@).take(i + 1).last() == removes@[i as int].key());
            }
            self.sb.mark_dead(removes[i].name.as_str());
            i += 1;
        }
        assert(keys(removes@).take(removes@.len() as int) =~= keys(removes@));
        self.sb.refresh();
        adds
    }

    /// Records the samples that are loaded now: those declared, without
    /// those that failed to load.  A sample that failed is tried again by the
    /// next refresh; this refresh goes on without it.  Nothing but the record
    /// of samples changes.
    pub fn settle_samples(&mut self, declared: &Vec<SampleSeed>, failed: &Vec<String>)
        ensures
            keys(final(self).cur_samples@) == without(keys(declared@), failed@),
            final(self).engine_kept(old(self)),
            final(self).loaded == old(self).loaded,
            final(self).settings_kept(old(self)),
            final(self).cur_resources == old(self).cur_resources,
            final(self).cur_lv2plugins == old(self).cur_lv2plugins,
            final(self).cur_lv2params == old(self).cur_lv2params,
    {
        self.cur_samples = settle(declared, failed);
    }

    /// Removes from the bank the resources that are no longer declared, and
    /// returns those that are newly declared, for the caller to load.
    /// Nothing but the buffer bank changes.
    pub fn stage_resources(&mut self, declared: &Vec<FileSeed>) -> (to_load: Vec<FileSeed>)
        requires
            old(self).bb.wf(),
        ensures
            final(self).bb.wf(),
            keys(to_load@) == missing(keys(declared@), keys(old(self).cur_resources@)),
            final(self).bb@ == marked_all(
                old(self).bb@,
                missing(keys(old(self).cur_resources@), keys(declared@)),
            ).swept(),
            final(self).g == old(self).g,
            final(self).fb == old(self).fb,
            final(self).sb == old(self).sb,
            final(self).loaded == old(self).loaded,
            final(self).settings_kept(old(self)),
            final(self).records_kept(old(self)),
    {
        let (adds, removes) = diff(&self.cur_resources, declared);
        let mut i: usize = 0;
        assert(keys(removes@).take(0) =~= Seq::empty());
        while i < removes.len()
            invariant
                i <= removes.len(),
                self.bb.wf(),
                self.bb@ == marked_all(old(self).bb@, keys(removes@).take(i as int)),
                self.g == old(self).g,
                self.fb == old(self).fb,
                self.sb == old(self).sb,
                self.loaded == old(self).loaded,
                self.settings_kept(old(self)),
                self.records_kept(old(self)),
            decreases removes.len() - i,
        {
            proof {
                assert(keys(removes@).take(i + 1).drop_last() =~= keys(removes@).take(i as int));
                assert(keys(removes@).take(i + 1).last() == removes@[i as int].key());
            }
            self.bb.mark_dead(removes[i].name.as_str());
            i += 1;
        }
        assert(keys(removes@).take(removes@.len() as int) =~= keys(removes@));
        self.bb.refresh();
        adds
    }

    /// Records the resources that are loaded now: those declared, without
    /// those that failed to load.  A resource that failed is tried again by
    /// the next refresh; this refresh goes on without it.  Nothing but the
    /// record of resources changes.
    pub fn settle_resources(&mut self, declared: &Vec<FileSeed>, failed: &Vec<String>)
        ensures
            keys(final(self).cur_resources@) == without(keys(declared@), failed@),
            final(self).engine_kept(old(self)),
            final(self).loaded == old(self).loaded,
            final(self).settings_kept(old(self)),
            final(self).cur_samples == old(self).cur_samples,
            final(self).cur_lv2plugins == old(self).cur_lv2plugins,
            final(self).cur_lv2params == old(self).cur_lv2params,
    {
        self.cur_resources = settle(declared, failed);
    }

    /// Empties the floww bank, for the caller to load every MIDI file anew.
    /// Nothing but the floww bank changes.
    pub fn stage_flowws(&mut self)
        ensures
            final(self).fb.wf(),
            final(self).fb@ == FlowwBankView::blank(old(self).fb@.samplerate, old(self).fb@.block_len),
            final(self).sb == old(self).sb,
            final(self).g == old(self).g,
            final(self).bb == old(self).bb,
            final(self).loaded == old(self).loaded,
            final(self).settings_kept(old(self)),
            final(self).records_kept(old(self)),
    {
        self.fb.reset();
    }

    /// Declares the live streams, in order.  Nothing but the floww bank
    /// changes.
    pub fn declare_streams(&mut self, names: &Vec<String>)
        requires
            old(self).fb.wf(),
        ensures
            final(self).fb.wf(),
            final(self).fb@ == with_streams(old(self).fb@, names@),
            final(self).sb == old(self).sb,
            final(self).g == old(self).g,
            final(self).bb == old(self).bb,
            final(self).loaded == old(self).loaded,
            final(self).settings_kept(old(self)),
            final(self).records_kept(old(self)),
    {
        let mut i: usize = 0;
        assert(names@.take(0) =~= Seq::empty());
        while i < names.len()
            invariant
                i <= names.len(),
                self.fb.wf(),
                self.fb@ == with_streams(old(self).fb@, names@.take(i as int)),
                self.sb == old(self).sb,
                self.g == old(self).g,
                self.bb == old(self).bb,
                self.loaded == old(self).loaded,
                self.settings_kept(old(self)),
                self.records_kept(old(self)),
            decreases names.len() - i,
        {
            proof {
                assert(names@.take(i + 1).drop_last() =~= names@.take(i as int));
                assert(names@.take(i + 1).last() == names@[i as int]);
            }
            self.fb.declare_stream(names[i].clone());
            i += 1;
        }
        assert(names@.take(names@.len() as int) =~= names@);
    }

    /// Finishes a refresh: builds the graph of the nodes and edges with the
    /// output named in the settings.
    ///
    /// The project is loaded exactly when that succeeds: every node could be
    /// built, every edge was accepted, and the graph can render.  Nothing but
    /// the graph and the loaded flag changes.
    pub fn finish_refresh(&mut self, nodes: &Vec<NodeSeed>, edges: &Vec<(String, String)>) -> (r: Result<
        (),
        BuildError,
    >)
        requires
            old(self).sb.wf(),
            old(self).bb.wf(),
            old(self).fb.wf(),
        ensures
            final(self).wf(),
            final(self).loaded == r is Ok,
            final(self).loaded ==> final(self).g@.renders(),
            final(self).sb == old(self).sb,
            final(self).fb == old(self).fb,
            final(self).bb == old(self).bb,
            final(self).settings_kept(old(self)),
            final(self).records_kept(old(self)),
            is_rebuilt(
                final(self).g@,
                r,
                nodes@,
                edges@,
                old(self).output_vertex@,
                old(self).g@.max_buffer_len,
                old(self).g@.samplerate,
                env_of(&old(self).sb, &old(self).fb, &old(self).bb),
            ),
    {
        let r = rebuild(&mut self.g, nodes, edges, self.output_vertex.as_str(), &self.sb, &self.fb, &self.bb);
        self.loaded = r.is_ok();
        r
    }

    /// Plans the rendering of the project to its file.
    pub fn plan_render(&self) -> (r: Result<RenderPlan, RenderError>)
        ensures
            r == plan_for(self.sb@.sample_rate, self.render_sr, self.bd, self.sb@.max_sr, self.sb@.max_bd),
    {
        let (msr, mbd) = self.sb.get_max_sr_bd();
        plan_render(self.sb.sample_rate(), self.render_sr, self.bd, msr, mbd)
    }
}

/// The floww bank with the given streams declared, one after the other.
pub open spec fn with_streams(bank: FlowwBankView, names: Seq<String>) -> FlowwBankView
    decreases names.len(),
{
    if names.len() == 0 {
        bank
    } else {
        let before = with_streams(bank, names.drop_last());
        FlowwBankView {
            flowws: before.flowws.push(Seq::empty()),
            cursors: before.cursors.push(0),
            names: before.names.insert(names.last()@, before.flowws.len() as usize),
            streams: before.streams.push(before.flowws.len() as usize),
            ..before
        }
    }
}

/// Refreshing with the description that is loaded changes no bank: nothing
/// is new, nothing is gone, and the sweep finds nothing to remove.
pub proof fn lemma_refresh_again<T>(bank: BankView<T>, declared: Seq<SeedKey>)
    requires
        bank.wf(),
        forall|i: int| 0 <= i < bank.marked.len() ==> !#[trigger] bank.marked[i],
    ensures
        missing(declared, declared) == Seq::<SeedKey>::empty(),
        marked_all(bank, missing(declared, declared)).swept() == bank,
{
    lemma_diff_same(declared);
    lemma_kept_all(bank.items, bank.marked);
    lemma_kept_all(bank.labels, bank.marked);
    assert(bank.swept().marked =~= bank.marked);
}

} // verus!
