use termdaw::control::{feed, parse_verb, to_command, Action, Command, Transport, Verb};
use termdaw::extensions::VertexExt;
use termdaw::floww::{Event, FlowwBank, FlowwPacket};
use termdaw::graph::{Graph, Vertex};
use termdaw::scalar::Scalar;

fn s(x: f32) -> Scalar {
    Scalar::from_bits(x.to_bits())
}

fn ev(frame: usize) -> Event {
    Event { channel: 0, frame, note: s(60.0), velocity: s(1.0) }
}

fn engine() -> (Graph, FlowwBank) {
    let mut g = Graph::new(1024, 100);
    g.add(Vertex::new(1024, Scalar::one(), Scalar::zero(), Scalar::zero(), VertexExt::sample_loop(0)), "l".to_string());
    let mut fb = FlowwBank::new(100, 1024);
    fb.declare_floww("f".to_string(), vec![ev(0), ev(300), ev(600), ev(900)]);
    (g, fb)
}

#[test]
fn verbs_are_read_by_name() {
    assert_eq!(parse_verb("quit"), Some(Verb::Quit));
    assert_eq!(parse_verb("refresh"), Some(Verb::Refresh));
    assert_eq!(parse_verb("render"), Some(Verb::Render));
    assert_eq!(parse_verb("normalize"), Some(Verb::Normalize));
    assert_eq!(parse_verb("play"), Some(Verb::Play));
    assert_eq!(parse_verb("pause"), Some(Verb::Pause));
    assert_eq!(parse_verb("stop"), Some(Verb::Stop));
    assert_eq!(parse_verb(">skip"), Some(Verb::Skip));
    assert_eq!(parse_verb("<prev"), Some(Verb::Prev));
    assert_eq!(parse_verb("set"), Some(Verb::Seek));
    assert_eq!(parse_verb("get"), Some(Verb::Get));
    assert_eq!(parse_verb("norm-vals"), Some(Verb::NormVals));
    assert_eq!(parse_verb("skip"), None);
    assert_eq!(parse_verb(""), None);
}

#[test]
fn a_seek_without_a_frame_is_nothing() {
    assert_eq!(to_command(Verb::Seek, Some(12)), Command::Seek(12));
    assert_eq!(to_command(Verb::Seek, None), Command::Idle);
    assert_eq!(to_command(Verb::Play, None), Command::Play);
    assert_eq!(to_command(Verb::Quit, Some(3)), Command::Quit);
}

#[test]
fn quit_is_acknowledged_too() {
    for loaded in [true, false] {
        let (mut g, mut fb) = engine();
        let mut tr = Transport::new();
        tr.playing = loaded;
        assert_eq!(
            tr.handle(Command::Quit, loaded, &mut g, &mut fb, 100),
            vec![Action::Quit, Action::Acknowledge]
        );
        assert_eq!(tr.playing, loaded);
    }
}

#[test]
fn every_command_is_acknowledged_once_and_last() {
    let commands = [
        Command::Idle,
        Command::Quit,
        Command::Refresh,
        Command::Render,
        Command::Normalize,
        Command::Play,
        Command::Pause,
        Command::Stop,
        Command::Skip,
        Command::Prev,
        Command::Seek(9),
        Command::Get,
        Command::NormVals,
    ];
    for loaded in [true, false] {
        for cmd in commands {
            let (mut g, mut fb) = engine();
            let mut tr = Transport::new();
            let actions = tr.handle(cmd, loaded, &mut g, &mut fb, 100);
            assert_eq!(actions.last(), Some(&Action::Acknowledge));
            assert_eq!(actions.iter().filter(|a| **a == Action::Acknowledge).count(), 1);
        }
    }
}

#[test]
fn play_and_pause_switch_the_device() {
    let (mut g, mut fb) = engine();
    let mut tr = Transport::new();
    let loaded = true;
    assert!(!tr.playing);
    assert_eq!(
        tr.handle(Command::Play, loaded, &mut g, &mut fb, 100),
        vec![Action::RestartClock, Action::ResumeDevice, Action::Acknowledge]
    );
    assert!(tr.playing);
    assert!(tr.keep_playing(loaded));
    assert_eq!(tr.handle(Command::Pause, loaded, &mut g, &mut fb, 100), vec![Action::PauseDevice, Action::Acknowledge]);
    assert!(!tr.playing);
    assert!(!tr.keep_playing(loaded));
}

#[test]
fn stop_returns_to_the_start() {
    let (mut g, mut fb) = engine();
    let mut tr = Transport::new();
    let loaded = true;
    tr.handle(Command::Play, loaded, &mut g, &mut fb, 100);
    g.set_time(700);
    fb.set_time(700);
    assert_eq!(
        tr.handle(Command::Stop, loaded, &mut g, &mut fb, 100),
        vec![Action::PauseDevice, Action::ClearQueue, Action::Acknowledge]
    );
    assert!(!tr.playing);
    assert_eq!(g.get_time(), 0);
    assert_eq!(fb.frame(), 0);
    assert_eq!(fb.cursor(0), Some(0));
}

#[test]
fn skip_and_prev_move_five_seconds() {
    let (mut g, mut fb) = engine();
    let mut tr = Transport::new();
    let loaded = true;
    assert_eq!(tr.handle(Command::Skip, loaded, &mut g, &mut fb, 100), vec![Action::ClearQueue, Action::Acknowledge]);
    assert_eq!(g.get_time(), 500);
    assert_eq!(fb.frame(), 500);
    assert_eq!(fb.cursor(0), Some(2));
    tr.handle(Command::Skip, loaded, &mut g, &mut fb, 100);
    assert_eq!(g.get_time(), 1000);
    tr.handle(Command::Prev, loaded, &mut g, &mut fb, 100);
    assert_eq!(g.get_time(), 500);
    tr.handle(Command::Prev, loaded, &mut g, &mut fb, 100);
    tr.handle(Command::Prev, loaded, &mut g, &mut fb, 100);
    assert_eq!(g.get_time(), 0);
    assert_eq!(fb.frame(), 0);
    assert_eq!(fb.cursor(0), Some(0));
}

#[test]
fn seek_moves_graph_and_flowws_together() {
    let (mut g, mut fb) = engine();
    let mut tr = Transport::new();
    let loaded = true;
    assert_eq!(tr.handle(Command::Seek(301), loaded, &mut g, &mut fb, 100), vec![Action::ClearQueue, Action::Acknowledge]);
    assert_eq!(g.get_time(), 301);
    assert_eq!(fb.frame(), 301);
    assert_eq!(fb.cursor(0), Some(2));
    assert!(matches!(g.vertex(0).unwrap().ext(), VertexExt::SampleLoop { t: 301, .. }));
}

#[test]
fn render_normalize_and_refresh_end_playback() {
    for (cmd, work) in [(Command::Render, Action::RenderFile), (Command::Normalize, Action::ScanNormalize)] {
        let (mut g, mut fb) = engine();
        let mut tr = Transport::new();
    let loaded = true;
        tr.handle(Command::Play, loaded, &mut g, &mut fb, 100);
        assert_eq!(
            tr.handle(cmd, loaded, &mut g, &mut fb, 100),
            vec![Action::ClearQueue, Action::PauseDevice, work, Action::Acknowledge]
        );
        assert!(!tr.playing);
    }
    let (mut g, mut fb) = engine();
    let mut tr = Transport::new();
    let loaded = false;
    tr.playing = true;
    assert_eq!(
        tr.handle(Command::Refresh, loaded, &mut g, &mut fb, 100),
        vec![Action::Refresh, Action::ClearQueue, Action::PauseDevice, Action::Acknowledge]
    );
    assert!(!tr.playing);
}

#[test]
fn reports_are_asked_of_the_caller() {
    let (mut g, mut fb) = engine();
    let mut tr = Transport::new();
    let loaded = true;
    assert_eq!(tr.handle(Command::Get, loaded, &mut g, &mut fb, 100), vec![Action::ReportTime, Action::Acknowledge]);
    assert_eq!(
        tr.handle(Command::NormVals, loaded, &mut g, &mut fb, 100),
        vec![Action::ReportNormValues, Action::Acknowledge]
    );
    assert_eq!(tr.handle(Command::Idle, loaded, &mut g, &mut fb, 100), vec![Action::Acknowledge]);
}

#[test]
fn without_a_project_most_commands_are_inert() {
    for cmd in [
        Command::Render,
        Command::Normalize,
        Command::Play,
        Command::Pause,
        Command::Stop,
        Command::Skip,
        Command::Prev,
        Command::Seek(5),
        Command::Get,
        Command::NormVals,
    ] {
        let (mut g, mut fb) = engine();
        g.set_time(44);
        fb.set_time(44);
        let mut tr = Transport::new();
        let loaded = false;
        tr.playing = true;
        assert_eq!(tr.handle(cmd, loaded, &mut g, &mut fb, 100), vec![Action::ReportNotLoaded, Action::Acknowledge]);
        assert!(tr.playing);
        assert_eq!(g.get_time(), 44);
        assert_eq!(fb.frame(), 44);
    }
    let (mut g, mut fb) = engine();
    let mut tr = Transport::new();
    tr.playing = true;
    assert_eq!(
        tr.handle(Command::Refresh, false, &mut g, &mut fb, 100),
        vec![Action::Refresh, Action::ClearQueue, Action::PauseDevice, Action::Acknowledge]
    );
    assert!(!tr.playing);
}

#[test]
fn playing_ends_when_the_project_is_gone() {
    let mut tr = Transport::new();
    tr.playing = true;
    assert!(tr.keep_playing(true));
    assert!(!tr.keep_playing(false));
    assert!(!tr.playing);
    assert!(!tr.keep_playing(true));
}

#[test]
fn a_feed_trims_appends_and_finds_the_cursors() {
    let mut g = Graph::new(1024, 100);
    g.set_time(500);
    let mut fb = FlowwBank::new(100, 1024);
    fb.declare_stream("live".to_string());
    let messages = feed(
        true,
        vec![
            FlowwPacket::Track("live".to_string()),
            FlowwPacket::Point(ev(100)),
            FlowwPacket::Point(ev(600)),
            FlowwPacket::Msg("hello".to_string()),
        ],
        &g,
        &mut fb,
    );
    assert_eq!(messages, Some(vec!["hello".to_string()]));
    assert_eq!(fb.frame(), 500);
    assert_eq!(fb.cursor(0), Some(1));
    let messages = feed(true, vec![FlowwPacket::Point(ev(700))], &g, &mut fb);
    assert_eq!(messages, Some(vec![]));
    assert_eq!(fb.events(0).unwrap(), &vec![ev(600), ev(700)]);
    assert_eq!(fb.cursor(0), Some(0));
    assert_eq!(feed(false, vec![FlowwPacket::Point(ev(800))], &g, &mut fb), None);
    assert_eq!(fb.events(0).unwrap().len(), 2);
}
