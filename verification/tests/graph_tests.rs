use termdaw::extensions::VertexExt;
use termdaw::floww::{Event, FlowwBank};
use termdaw::graph::{ConnectError, Graph, Vertex};
use termdaw::scalar::Scalar;

fn s(x: f32) -> Scalar {
    Scalar::from_bits(x.to_bits())
}

fn f(x: Scalar) -> f32 {
    f32::from_bits(x.to_bits())
}

fn vertex(ext: VertexExt) -> Vertex {
    Vertex::new(4, Scalar::one(), Scalar::zero(), Scalar::zero(), ext)
}

fn sums(names: &[&str]) -> Graph {
    let mut g = Graph::new(4, 44100);
    for name in names {
        g.add(vertex(VertexExt::sum()), name.to_string());
    }
    g
}

#[test]
fn cycle_is_rejected_and_edges_stay() {
    let mut g = sums(&["a", "b", "c"]);
    assert!(g.connect("a", "b"));
    assert!(g.connect("b", "c"));
    assert!(!g.connect("c", "a"));
    assert_eq!(g.inputs(0).unwrap(), &Vec::<usize>::new());
    assert_eq!(g.inputs(1).unwrap(), &vec![0]);
    assert_eq!(g.inputs(2).unwrap(), &vec![1]);
}

#[test]
fn connect_refuses_self_loops_unknown_names_and_sources() {
    let mut g = sums(&["a", "b"]);
    g.add(vertex(VertexExt::sample_loop(0)), "src".to_string());
    assert!(!g.connect("a", "a"));
    assert!(!g.connect("a", "nobody"));
    assert!(!g.connect("nobody", "a"));
    assert!(!g.connect("a", "src"));
    assert!(g.connect("src", "a"));
    assert!(g.connect("src", "a"));
    assert_eq!(g.inputs(0).unwrap(), &vec![2, 2]);
    assert_eq!(g.inputs(2).unwrap(), &Vec::<usize>::new());
}

#[test]
fn connect_refuses_long_cycles_only() {
    let mut g = sums(&["a", "b", "c", "d"]);
    assert!(g.connect("a", "b"));
    assert!(g.connect("a", "c"));
    assert!(g.connect("b", "d"));
    assert!(g.connect("c", "d"));
    assert!(!g.connect("d", "a"));
    assert!(!g.connect("d", "b"));
    assert!(g.connect("b", "c"));
    assert!(!g.connect("c", "b"));
}

#[test]
fn a_name_stands_for_the_vertex_added_last() {
    let mut g = sums(&["a", "b", "a"]);
    assert_eq!(g.len(), 3);
    assert_eq!(g.get_index("a"), Some(2));
    assert_eq!(g.get_index("b"), Some(1));
    assert_eq!(g.name(0).unwrap(), "a");
    assert!(g.name(3).is_none());
}

#[test]
fn render_runs_what_the_output_depends_on_inputs_first() {
    let mut g = sums(&["out", "left", "right", "deep", "loose"]);
    assert!(g.connect("left", "out"));
    assert!(g.connect("right", "out"));
    assert!(g.connect("deep", "left"));
    assert!(g.connect("deep", "right"));
    assert!(g.set_output("out"));
    let chunk = g.render().unwrap();
    assert_eq!(chunk.t, 0);
    assert!(!chunk.is_scan);
    assert_eq!(chunk.order, vec![3, 1, 2, 0]);
    for v in 0..4 {
        assert!(g.has_run(v));
    }
    assert!(!g.has_run(4));
    assert!(!g.has_run(5));
    assert_eq!(g.get_time(), 4);
    let chunk = g.render().unwrap();
    assert_eq!(chunk.t, 4);
    assert_eq!(chunk.order, vec![3, 1, 2, 0]);
    assert_eq!(g.get_time(), 8);
}

#[test]
fn siblings_run_in_the_order_they_were_connected() {
    let mut g = sums(&["out", "x", "y", "z"]);
    assert!(g.connect("z", "out"));
    assert!(g.connect("x", "out"));
    assert!(g.connect("y", "out"));
    assert!(g.set_output("out"));
    assert_eq!(g.render().unwrap().order, vec![3, 1, 2, 0]);
}

#[test]
fn render_without_output_gives_nothing_and_keeps_the_clock() {
    let mut g = sums(&["a", "b"]);
    assert!(g.connect("a", "b"));
    assert!(g.render().is_none());
    assert_eq!(g.get_time(), 0);
    assert!(!g.has_run(0));
    assert!(!g.has_run(1));
}

#[test]
fn render_clears_the_flags_of_the_chunk_before() {
    let mut g = sums(&["a", "b"]);
    assert!(g.set_output("a"));
    g.render();
    assert!(g.has_run(0));
    assert!(g.set_output("b"));
    g.render();
    assert!(!g.has_run(0));
    assert!(g.has_run(1));
}

#[test]
fn scan_chunks_start_at_multiples_of_the_chunk_length() {
    let mut g = sums(&["out", "in"]);
    assert!(g.connect("in", "out"));
    assert!(g.set_output("out"));
    let chunk = g.scan_chunk(3).unwrap();
    assert_eq!(chunk.t, 12);
    assert!(chunk.is_scan);
    assert_eq!(chunk.order, vec![1, 0]);
    assert_eq!(g.get_time(), 0);
}

#[test]
fn set_output_needs_a_known_name() {
    let mut g = sums(&["a"]);
    assert_eq!(g.output(), None);
    assert!(!g.set_output("b"));
    assert_eq!(g.output(), None);
    assert!(g.set_output("a"));
    assert_eq!(g.output(), Some(0));
    assert!(!g.set_output("b"));
    assert_eq!(g.output(), Some(0));
}

#[test]
fn check_graph_wants_an_output_with_input() {
    let mut g = sums(&["out", "in"]);
    g.add(vertex(VertexExt::debug_sine(0)), "sine".to_string());
    assert!(!g.check_graph());
    assert!(g.set_output("out"));
    assert!(!g.check_graph());
    assert!(g.connect("in", "out"));
    assert!(g.check_graph());
    assert!(g.set_output("sine"));
    assert!(g.check_graph());
}

#[test]
fn detached_lists_what_the_output_does_not_depend_on() {
    let mut g = sums(&["out", "in", "loose", "far"]);
    assert_eq!(g.detached(), vec![0, 1, 2, 3]);
    assert!(g.connect("in", "out"));
    assert!(g.connect("out", "far"));
    assert!(g.set_output("out"));
    assert_eq!(g.detached(), vec![2, 3]);
}

#[test]
fn change_time_stops_at_the_ends_of_the_range() {
    let mut g = sums(&["a"]);
    assert_eq!(g.change_time(10, true), 10);
    assert_eq!(g.change_time(4, false), 6);
    assert_eq!(g.change_time(7, false), 0);
    assert_eq!(g.get_time(), 0);
    assert_eq!(g.change_time(usize::MAX, true), usize::MAX);
    assert_eq!(g.change_time(1, true), usize::MAX);
    assert_eq!(g.get_time(), usize::MAX);
}

#[test]
fn set_time_resets_what_depends_on_time() {
    let mut g = Graph::new(4, 44100);
    g.add(vertex(VertexExt::sample_loop(7)), "loop".to_string());
    g.add(vertex(VertexExt::DebugSine { floww_index: 1, notes: vec![(s(60.0), s(1.0))] }), "sine".to_string());
    g.add(vertex(VertexExt::band_pass(s(0.1), s(0.2), true)), "band".to_string());
    let band = Vertex::new(
        4,
        Scalar::one(),
        Scalar::zero(),
        Scalar::one(),
        VertexExt::BandPass {
            lgamma: s(0.1),
            hgamma: s(0.2),
            lprevl: s(0.3),
            lprevr: s(0.4),
            hprevl: s(0.5),
            hprevr: s(0.6),
            first: false,
            pass: true,
        },
    );
    assert!(g.replace_vertex(2, band).is_ok());
    g.set_time(99);
    assert_eq!(g.get_time(), 99);
    match g.vertex(0).unwrap().ext() {
        VertexExt::SampleLoop { sample_index, t } => {
            assert_eq!(*sample_index, 7);
            assert_eq!(*t, 99);
        }
        _ => panic!("kind changed"),
    }
    match g.vertex(1).unwrap().ext() {
        VertexExt::DebugSine { floww_index, notes } => {
            assert_eq!(*floww_index, 1);
            assert!(notes.is_empty());
        }
        _ => panic!("kind changed"),
    }
    match g.vertex(2).unwrap().ext() {
        VertexExt::BandPass { first, lprevl, pass, .. } => {
            assert!(*first);
            assert!(*pass);
            assert_eq!(*lprevl, s(0.3));
        }
        _ => panic!("kind changed"),
    }
}

#[test]
fn a_seek_of_the_graph_forgets_the_seek_before_it() {
    let mut twice = Graph::new(4, 44100);
    twice.add(vertex(VertexExt::sample_loop(0)), "loop".to_string());
    twice.set_time(50);
    twice.set_time(8);
    let mut once = Graph::new(4, 44100);
    once.add(vertex(VertexExt::sample_loop(0)), "loop".to_string());
    once.set_time(8);
    assert_eq!(twice.get_time(), once.get_time());
    match (twice.vertex(0).unwrap().ext(), once.vertex(0).unwrap().ext()) {
        (VertexExt::SampleLoop { t: a, .. }, VertexExt::SampleLoop { t: b, .. }) => assert_eq!(a, b),
        _ => panic!("kind changed"),
    }
}

#[test]
fn vertex_brings_angle_and_wet_into_range() {
    let v = Vertex::new(3, s(0.5), s(120.0), s(1.5), VertexExt::sum());
    assert_eq!(f(v.gain()), 0.5);
    assert_eq!(f(v.angle()), 90.0);
    assert_eq!(f(v.wet()), 1.0);
    assert_eq!(v.read_buffer().len(), 3);
    assert!(v.has_input());
    let v = Vertex::new(3, s(0.5), s(-120.0), s(-0.5), VertexExt::sample_loop(0));
    assert_eq!(f(v.angle()), -90.0);
    assert_eq!(f(v.wet()), 0.0);
    assert!(!v.has_input());
    let v = Vertex::new(3, s(2.0), s(45.0), s(0.25), VertexExt::sum());
    assert_eq!(f(v.angle()), 45.0);
    assert_eq!(f(v.wet()), 0.25);
}

#[test]
fn vertex_comes_apart_and_together() {
    let v = Vertex::new(2, s(0.5), s(10.0), s(0.5), VertexExt::sample_loop(3));
    let (mut buf, gain, angle, wet, ext) = v.into_parts();
    buf.set_frame(1, s(0.25), s(-0.25));
    let v = Vertex::from_parts(buf, gain, angle, wet, ext);
    assert_eq!(v.read_buffer().frame(1), (s(0.25), s(-0.25)));
    assert_eq!(f(v.gain()), 0.5);
    assert_eq!(f(v.angle()), 10.0);
}

#[test]
fn replace_vertex_keeps_the_kind_of_connection() {
    let mut g = sums(&["a"]);
    g.add(vertex(VertexExt::sample_loop(0)), "src".to_string());
    assert!(g.replace_vertex(0, vertex(VertexExt::sample_loop(1))).is_err());
    assert!(g.replace_vertex(1, vertex(VertexExt::sum())).is_err());
    assert!(g.replace_vertex(5, vertex(VertexExt::sum())).is_err());
    let was = g.replace_vertex(1, vertex(VertexExt::debug_sine(4))).ok().unwrap();
    assert!(matches!(was.ext(), VertexExt::SampleLoop { sample_index: 0, t: 0 }));
    assert!(matches!(g.vertex(1).unwrap().ext(), VertexExt::DebugSine { floww_index: 4, .. }));
    assert!(g.replace_vertex(0, vertex(VertexExt::normalize())).is_ok());
}

#[test]
fn normalizers_are_swept_together() {
    let mut g = Graph::new(4, 44100);
    g.add(vertex(VertexExt::Normalize { max: s(0.5), scan_max: s(0.75) }), "n".to_string());
    g.add(vertex(VertexExt::sum()), "s".to_string());
    assert_eq!(g.normalization_values(), vec![(0, s(0.5))]);
    g.apply_scan_normalize_vertices();
    assert_eq!(g.normalization_values(), vec![(0, s(0.75))]);
    g.reset_scan_normalize_vertices();
    assert!(matches!(g.vertex(0).unwrap().ext(), VertexExt::Normalize { scan_max, .. } if *scan_max == s(0.0)));
    g.apply_scan_normalize_vertices();
    assert_eq!(g.normalization_values(), vec![]);
    g.reset_normalize_vertices();
    assert_eq!(g.normalization_values(), vec![(0, s(0.000001))]);
    assert_eq!(f(g.vertex(1).unwrap().ext().get_normalization_value()), -1.0);
}

#[test]
fn a_scan_begins_and_ends_at_frame_zero() {
    let mut g = Graph::new(4, 44100);
    g.add(vertex(VertexExt::Normalize { max: s(0.5), scan_max: s(0.75) }), "n".to_string());
    g.add(vertex(VertexExt::sample_loop(0)), "src".to_string());
    let mut fb = FlowwBank::new(44100, 4);
    fb.declare_floww(
        "f".to_string(),
        vec![Event { channel: 0, frame: 0, note: s(60.0), velocity: s(1.0) }, Event {
            channel: 0,
            frame: 9,
            note: s(60.0),
            velocity: s(1.0),
        }],
    );
    fb.set_time(8);
    g.begin_normalize_scan(&mut fb);
    assert_eq!(fb.frame(), 8);
    assert!(g.connect("src", "n"));
    assert!(g.set_output("n"));
    g.set_time(8);
    g.begin_normalize_scan(&mut fb);
    assert_eq!(fb.frame(), 0);
    assert_eq!(fb.cursor(0), Some(0));
    assert!(matches!(g.vertex(0).unwrap().ext(), VertexExt::Normalize { scan_max, .. } if *scan_max == s(0.0)));
    let scanned = Vertex::new(4, Scalar::one(), Scalar::zero(), Scalar::zero(), VertexExt::Normalize {
        max: s(0.5),
        scan_max: s(0.9),
    });
    assert!(g.replace_vertex(0, scanned).is_ok());
    fb.set_time_to_next_block();
    g.end_normalize_scan(&mut fb);
    assert_eq!(g.normalization_values(), vec![(0, s(0.9))]);
    assert_eq!(g.get_time(), 0);
    assert_eq!(fb.frame(), 0);
}

#[test]
fn reset_empties_the_graph() {
    let mut g = sums(&["a", "b"]);
    assert!(g.connect("a", "b"));
    assert!(g.set_output("b"));
    g.render();
    g.reset();
    assert_eq!(g.len(), 0);
    assert_eq!(g.output(), None);
    assert_eq!(g.get_time(), 0);
    assert_eq!(g.get_index("a"), None);
    assert_eq!(g.max_buffer_len(), 4);
    assert_eq!(g.samplerate(), 44100);
}

#[test]
fn a_refused_edge_has_a_reason() {
    let mut g = sums(&["a", "b", "c"]);
    g.add(vertex(VertexExt::sample_loop(0)), "src".to_string());
    assert!(g.connect("a", "b"));
    assert!(g.connect("b", "c"));
    assert_eq!(g.connect_error("nobody", "a"), Some(ConnectError::UnknownSource));
    assert_eq!(g.connect_error("nobody", "nobody"), Some(ConnectError::UnknownSource));
    assert_eq!(g.connect_error("a", "nobody"), Some(ConnectError::UnknownTarget));
    assert_eq!(g.connect_error("a", "a"), Some(ConnectError::SelfLoop));
    assert_eq!(g.connect_error("a", "src"), Some(ConnectError::NoInput));
    assert_eq!(g.connect_error("c", "a"), Some(ConnectError::Cycle));
    assert_eq!(g.connect_error("b", "a"), Some(ConnectError::Cycle));
    assert_eq!(g.connect_error("a", "c"), None);
    assert_eq!(g.connect_error("a", "b"), None);
    assert_eq!(g.connect_error("src", "c"), None);
    for (a, b) in [("c", "a"), ("a", "src"), ("a", "a"), ("a", "c"), ("src", "c")] {
        let free = g.connect_error(a, b).is_none();
        assert_eq!(g.connect(a, b), free);
    }
}

#[test]
fn a_vertex_leaves_the_graph_while_it_computes() {
    let mut g = sums(&["out"]);
    g.add(Vertex::new(4, s(0.5), s(10.0), s(0.0), VertexExt::sample_loop(3)), "src".to_string());
    assert!(g.connect("src", "out"));
    assert!(g.take_vertex(2).is_none());
    let v = g.take_vertex(1).unwrap();
    assert!(matches!(v.ext(), VertexExt::SampleLoop { sample_index: 3, .. }));
    assert_eq!(f(v.gain()), 0.5);
    assert_eq!(g.len(), 2);
    assert!(matches!(g.vertex(1).unwrap().ext(), VertexExt::SampleLoop { sample_index: 0, t: 0 }));
    assert_eq!(g.vertex(1).unwrap().read_buffer().len(), 0);
    assert_eq!(f(g.vertex(1).unwrap().gain()), 1.0);
    assert_eq!(g.inputs(0).unwrap(), &vec![1]);
    let idle = g.replace_vertex(1, v).ok().unwrap();
    assert_eq!(idle.read_buffer().len(), 0);
    assert!(matches!(g.vertex(1).unwrap().ext(), VertexExt::SampleLoop { sample_index: 3, .. }));
    let v = g.take_vertex(0).unwrap();
    assert!(matches!(v.ext(), VertexExt::Sum));
    assert!(matches!(g.vertex(0).unwrap().ext(), VertexExt::Sum));
}

#[test]
fn after_a_seek_to_the_start_the_chunks_repeat() {
    let mut g = sums(&["out", "a", "b"]);
    g.add(vertex(VertexExt::sample_loop(0)), "loop".to_string());
    assert!(g.connect("a", "out"));
    assert!(g.connect("b", "out"));
    assert!(g.connect("loop", "b"));
    assert!(g.set_output("out"));
    let mut first = Vec::new();
    for _ in 0..3 {
        let chunk = g.render().unwrap();
        first.push((chunk.t, chunk.order));
    }
    g.set_time(0);
    for (t, order) in first {
        let chunk = g.render().unwrap();
        assert_eq!(chunk.t, t);
        assert_eq!(chunk.order, order);
    }
    assert!(matches!(g.vertex(3).unwrap().ext(), VertexExt::SampleLoop { t: 0, .. }));
}

#[test]
fn the_clock_stops_at_the_end_of_its_range() {
    let mut g = sums(&["out", "in"]);
    assert!(g.connect("in", "out"));
    assert!(g.set_output("out"));
    g.set_time(usize::MAX - 6);
    let chunk = g.render().unwrap();
    assert_eq!(chunk.t, usize::MAX - 6);
    assert_eq!(chunk.order, vec![1, 0]);
    assert_eq!(g.get_time(), usize::MAX - 2);
    let chunk = g.render().unwrap();
    assert_eq!(chunk.t, usize::MAX - 2);
    assert_eq!(g.get_time(), usize::MAX);
    assert!(g.has_run(0) && g.has_run(1));
    assert_eq!(g.scan_chunk(usize::MAX).unwrap().t, usize::MAX);
    assert_eq!(g.scan_chunk(0).unwrap().t, 0);
    assert_eq!(g.scan_chunk(usize::MAX / 4).unwrap().t, usize::MAX - 3);
    assert_eq!(g.scan_chunk(usize::MAX / 4 + 1).unwrap().t, usize::MAX);
}
