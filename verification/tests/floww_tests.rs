use termdaw::floww::{Event, FlowwBank, FlowwPacket};
use termdaw::scalar::Scalar;

fn s(x: f32) -> Scalar {
    Scalar::from_bits(x.to_bits())
}

fn ev(frame: usize, note: f32, velocity: f32) -> Event {
    Event { channel: note as usize, frame, note: s(note), velocity: s(velocity) }
}

fn bank_with(events: Vec<Event>) -> FlowwBank {
    let mut fb = FlowwBank::new(44100, 1024);
    let index = fb.declare_floww("f".to_string(), events);
    assert_eq!(index, 0);
    fb
}

#[test]
fn velocity_above_threshold_is_note_on() {
    assert!(ev(0, 60.0, 1.0).is_on());
    assert!(ev(0, 60.0, 0.0011).is_on());
    assert!(!ev(0, 60.0, 0.001).is_on());
    assert!(!ev(0, 60.0, 0.0).is_on());
    assert!(!ev(0, 60.0, -1.0).is_on());
    assert!(!ev(0, 60.0, f32::NAN).is_on());
}

#[test]
fn new_bank_is_empty_at_frame_zero() {
    let fb = FlowwBank::new(44100, 1024);
    assert_eq!(fb.len(), 0);
    assert_eq!(fb.frame(), 0);
    assert_eq!(fb.get_index("f"), None);
    assert_eq!(fb.cursor(0), None);
    assert!(fb.events(0).is_none());
}

#[test]
fn a_name_stands_for_the_floww_declared_last() {
    let mut fb = FlowwBank::new(44100, 1024);
    assert_eq!(fb.declare_floww("a".to_string(), vec![]), 0);
    assert_eq!(fb.declare_floww("b".to_string(), vec![ev(3, 60.0, 1.0)]), 1);
    assert_eq!(fb.declare_floww("a".to_string(), vec![]), 2);
    assert_eq!(fb.get_index("a"), Some(2));
    assert_eq!(fb.get_index("b"), Some(1));
    assert_eq!(fb.get_index("c"), None);
    assert_eq!(fb.len(), 3);
    assert_eq!(fb.events(1).unwrap(), &vec![ev(3, 60.0, 1.0)]);
}

#[test]
fn reset_forgets_everything_but_rate_and_block_length() {
    let mut fb = bank_with(vec![ev(0, 60.0, 1.0)]);
    fb.set_time(2048);
    fb.reset();
    assert_eq!(fb.len(), 0);
    assert_eq!(fb.frame(), 0);
    assert_eq!(fb.get_index("f"), None);
    fb.declare_floww("g".to_string(), vec![]);
    fb.set_time_to_next_block();
    assert_eq!(fb.frame(), 1024);
}

#[test]
fn set_time_finds_the_first_event_at_or_after_the_frame() {
    let mut fb = bank_with(vec![ev(0, 60.0, 1.0), ev(100, 61.0, 1.0), ev(100, 62.0, 1.0), ev(5000, 63.0, 1.0)]);
    fb.set_time(100);
    assert_eq!(fb.frame(), 100);
    assert_eq!(fb.cursor(0), Some(1));
    fb.set_time(101);
    assert_eq!(fb.cursor(0), Some(3));
    fb.set_time(0);
    assert_eq!(fb.cursor(0), Some(0));
}

#[test]
fn a_cursor_moves_to_the_end_when_no_event_is_at_or_after_the_frame() {
    let mut fb = bank_with(vec![ev(0, 60.0, 1.0), ev(100, 61.0, 1.0)]);
    fb.set_time(200);
    assert_eq!(fb.frame(), 200);
    assert_eq!(fb.cursor(0), Some(2));
    fb.set_time(50);
    assert_eq!(fb.cursor(0), Some(1));
    fb.set_time(101);
    assert_eq!(fb.cursor(0), Some(2));
    fb.start_block(0);
    assert_eq!(fb.get_block_drum(0, 0), None);
    assert_eq!(fb.get_block_simple(0, 0), vec![]);
    let mut empty = bank_with(vec![]);
    empty.set_time(7);
    assert_eq!(empty.cursor(0), Some(0));
}

#[test]
fn a_seek_forgets_the_seek_before_it() {
    let events = vec![ev(0, 60.0, 1.0), ev(100, 61.0, 1.0), ev(4000, 62.0, 1.0), ev(9000, 63.0, 0.0)];
    for t in [0usize, 5, 50, 100, 3000, 9000, 9001, 20000] {
        for u in [0usize, 1, 20, 100, 101, 4000, 8999, 9000, 9001, 50000] {
            let mut twice = bank_with(events.clone());
            twice.set_time(t);
            twice.set_time(u);
            let mut once = bank_with(events.clone());
            once.set_time(u);
            assert_eq!(twice.frame(), once.frame());
            assert_eq!(twice.cursor(0), once.cursor(0));
            let first = events.iter().position(|e| e.frame >= u).unwrap_or(events.len());
            assert_eq!(once.cursor(0), Some(first));
        }
    }
}

#[test]
fn a_seek_past_the_first_of_two_events_does_not_depend_on_the_seek_before() {
    let events = vec![ev(0, 60.0, 1.0), ev(10, 61.0, 1.0)];
    let mut twice = bank_with(events.clone());
    twice.set_time(5);
    assert_eq!(twice.cursor(0), Some(1));
    twice.set_time(20);
    let mut once = bank_with(events);
    once.set_time(20);
    assert_eq!(twice.cursor(0), Some(2));
    assert_eq!(once.cursor(0), Some(2));
}

#[test]
fn next_block_moves_the_window_and_the_cursors() {
    let mut fb = bank_with(vec![ev(0, 60.0, 1.0), ev(1023, 61.0, 1.0), ev(1024, 62.0, 1.0), ev(3000, 63.0, 1.0)]);
    fb.set_time(0);
    fb.set_time_to_next_block();
    assert_eq!(fb.frame(), 1024);
    assert_eq!(fb.cursor(0), Some(2));
    fb.set_time_to_next_block();
    assert_eq!(fb.frame(), 2048);
    assert_eq!(fb.cursor(0), Some(3));
}

#[test]
fn next_block_agrees_with_a_seek_on_a_sorted_floww() {
    let events = vec![ev(0, 60.0, 1.0), ev(700, 61.0, 1.0), ev(1500, 62.0, 1.0), ev(2048, 63.0, 1.0), ev(5000, 64.0, 1.0)];
    let mut stepped = bank_with(events.clone());
    stepped.set_time(0);
    for block in 1..5usize {
        stepped.set_time_to_next_block();
        let mut sought = bank_with(events.clone());
        sought.set_time(block * 1024);
        assert_eq!(stepped.frame(), sought.frame());
        assert_eq!(stepped.cursor(0), sought.cursor(0));
    }
}

#[test]
fn drum_mode_hands_out_one_hit_per_call_and_skips_note_offs() {
    let mut fb = bank_with(vec![ev(0, 60.0, 1.0), ev(0, 61.0, 0.0), ev(0, 62.0, 0.5), ev(7, 63.0, 1.0)]);
    fb.set_time(0);
    fb.start_block(0);
    assert_eq!(fb.get_block_drum(0, 0), Some((s(60.0), s(1.0))));
    assert_eq!(fb.get_block_drum(0, 0), Some((s(62.0), s(0.5))));
    assert_eq!(fb.get_block_drum(0, 0), None);
    assert_eq!(fb.get_block_drum(0, 6), None);
    assert_eq!(fb.get_block_drum(0, 7), Some((s(63.0), s(1.0))));
    assert_eq!(fb.get_block_drum(0, 8), None);
}

#[test]
fn drum_mode_passes_stale_events() {
    let mut fb = bank_with(vec![ev(3, 60.0, 1.0), ev(5, 61.0, 1.0), ev(9, 62.0, 1.0)]);
    fb.set_time(0);
    fb.start_block(0);
    assert_eq!(fb.get_block_drum(0, 6), None);
    assert_eq!(fb.get_block_drum(0, 9), Some((s(62.0), s(1.0))));
}

#[test]
fn drum_mode_without_such_a_floww_gives_nothing() {
    let mut fb = bank_with(vec![ev(0, 60.0, 1.0)]);
    fb.start_block(0);
    assert_eq!(fb.get_block_drum(4, 0), None);
    assert_eq!(fb.get_block_drum(0, 0), Some((s(60.0), s(1.0))));
}

#[test]
fn simple_mode_drains_every_event_of_the_frame() {
    let mut fb = bank_with(vec![ev(0, 60.0, 1.0), ev(0, 61.0, 0.0), ev(0, 62.0, 0.5), ev(7, 63.0, 1.0)]);
    fb.set_time(0);
    fb.start_block(0);
    assert_eq!(
        fb.get_block_simple(0, 0),
        vec![(true, s(60.0), s(1.0)), (false, s(61.0), s(0.0)), (true, s(62.0), s(0.5))]
    );
    assert_eq!(fb.get_block_simple(0, 0), vec![]);
    assert_eq!(fb.get_block_simple(0, 1), vec![]);
    assert_eq!(fb.get_block_simple(0, 7), vec![(true, s(63.0), s(1.0))]);
    assert_eq!(fb.get_block_simple(3, 7), vec![]);
}

#[test]
fn simple_mode_hands_out_no_event_before_the_window() {
    let mut fb = bank_with(vec![ev(10, 60.0, 1.0), ev(2000, 61.0, 1.0), ev(2000, 62.0, 1.0), ev(2100, 63.0, 1.0)]);
    fb.set_time(1024);
    fb.start_block(0);
    let mut seen = 0;
    for i in 0..1024usize {
        for (_, note, _) in fb.get_block_simple(0, i) {
            seen += 1;
            let frame = if note == s(63.0) { 2100 } else { 2000 };
            assert_eq!(frame, 1024 + i);
            assert!(frame >= fb.frame());
        }
    }
    assert_eq!(seen, 2);
}

#[test]
fn start_block_without_such_a_floww_changes_nothing() {
    let mut fb = bank_with(vec![ev(0, 60.0, 1.0), ev(1, 61.0, 1.0)]);
    fb.start_block(0);
    assert_eq!(fb.get_block_drum(0, 0), Some((s(60.0), s(1.0))));
    fb.start_block(9);
    assert_eq!(fb.get_block_drum(0, 1), Some((s(61.0), s(1.0))));
}

#[test]
fn streams_take_in_points_for_the_track_named_last() {
    let mut fb = FlowwBank::new(44100, 1024);
    fb.declare_stream("snare".to_string());
    fb.declare_stream("kick".to_string());
    fb.declare_stream("crash".to_string());
    let messages = fb.append_streams(vec![
        FlowwPacket::Msg("beat".to_string()),
        FlowwPacket::Track("snare".to_string()),
        FlowwPacket::Point(ev(55125, 0.0, 1.0)),
        FlowwPacket::Point(ev(77175, 0.0, 1.0)),
        FlowwPacket::Track("kick".to_string()),
        FlowwPacket::Point(ev(44100, 0.0, 1.0)),
        FlowwPacket::Track("nobody".to_string()),
        FlowwPacket::Point(ev(1, 0.0, 1.0)),
    ]);
    assert_eq!(messages, vec!["beat".to_string()]);
    assert_eq!(fb.events(0).unwrap(), &vec![ev(55125, 0.0, 1.0), ev(77175, 0.0, 1.0)]);
    assert_eq!(fb.events(1).unwrap(), &vec![ev(44100, 0.0, 1.0)]);
    assert_eq!(fb.events(2).unwrap(), &vec![]);
    let messages = fb.append_streams(vec![FlowwPacket::Point(ev(88200, 0.0, 1.0))]);
    assert_eq!(messages, Vec::<String>::new());
    assert_eq!(fb.events(0).unwrap().len(), 3);
}

#[test]
fn points_without_a_floww_are_dropped() {
    let mut fb = FlowwBank::new(44100, 1024);
    let messages = fb.append_streams(vec![FlowwPacket::Point(ev(1, 0.0, 1.0)), FlowwPacket::Msg("x".to_string())]);
    assert_eq!(messages, vec!["x".to_string()]);
    assert_eq!(fb.len(), 0);
}

#[test]
fn trim_drops_what_lies_before_the_cursor_of_a_stream() {
    let mut fb = FlowwBank::new(44100, 1024);
    fb.declare_floww("fixed".to_string(), vec![ev(0, 1.0, 1.0), ev(5000, 2.0, 1.0)]);
    fb.declare_stream("live".to_string());
    fb.append_streams(vec![
        FlowwPacket::Track("live".to_string()),
        FlowwPacket::Point(ev(0, 60.0, 1.0)),
        FlowwPacket::Point(ev(2000, 61.0, 1.0)),
        FlowwPacket::Point(ev(6000, 62.0, 1.0)),
    ]);
    fb.set_time(4096);
    assert_eq!(fb.cursor(0), Some(1));
    assert_eq!(fb.cursor(1), Some(2));
    fb.trim_streams();
    assert_eq!(fb.events(0).unwrap().len(), 2);
    assert_eq!(fb.cursor(0), Some(1));
    assert_eq!(fb.events(1).unwrap(), &vec![ev(6000, 62.0, 1.0)]);
    assert_eq!(fb.cursor(1), Some(0));
    fb.trim_streams();
    assert_eq!(fb.events(1).unwrap(), &vec![ev(6000, 62.0, 1.0)]);
}
