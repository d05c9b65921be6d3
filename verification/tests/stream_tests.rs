use search_stream::event::{EventKind, SearchEvent};
use search_stream::stream::{
    BatchingStreamer, StreamAction, StreamInput, BATCH_LINES, FLUSH_INTERVAL_NANOS, MATCH_CAP,
};

const START: u64 = 1_000_000_000;

fn line(text: &str, now: u64) -> StreamInput {
    StreamInput::Line { text: text.to_string(), now }
}

fn numbered(count: usize, now: u64) -> Vec<StreamInput> {
    (0..count).map(|i| line(&format!("line {}", i), now)).collect()
}

fn names(from: usize, to: usize) -> Vec<String> {
    (from..to).map(|i| format!("line {}", i)).collect()
}

fn data(lines: Vec<String>) -> StreamAction {
    StreamAction::Emit(SearchEvent::data(lines))
}

fn finished() -> StreamAction {
    StreamAction::Emit(SearchEvent::finished())
}

fn batches(actions: &[StreamAction]) -> Vec<Vec<String>> {
    let mut found = Vec::new();
    for action in actions {
        if let StreamAction::Emit(event) = action {
            if event.kind() == EventKind::Data {
                found.push(event.lines().clone());
            }
        }
    }
    found
}

fn delivered(actions: &[StreamAction]) -> Vec<String> {
    batches(actions).into_iter().flatten().collect()
}

fn count(actions: &[StreamAction], wanted: &StreamAction) -> usize {
    actions.iter().filter(|action| *action == wanted).count()
}

#[test]
fn thresholds_have_their_values() {
    assert_eq!(BATCH_LINES, 1000);
    assert_eq!(FLUSH_INTERVAL_NANOS, 50_000_000);
    assert_eq!(MATCH_CAP, 20000);
}

#[test]
fn new_streamer_is_empty_and_unfinished() {
    let streamer = BatchingStreamer::new(START);
    assert!(!streamer.is_finished());
    assert_eq!(streamer.total_lines(), 0);
    assert_eq!(streamer.pending_lines(), 0);
}

#[test]
fn line_before_the_interval_waits() {
    let mut streamer = BatchingStreamer::new(START);
    let actions = streamer.step(line("a", START + FLUSH_INTERVAL_NANOS - 1));
    assert_eq!(actions, vec![]);
    assert_eq!(streamer.pending_lines(), 1);
    assert_eq!(streamer.total_lines(), 1);
    assert!(!streamer.is_finished());
}

#[test]
fn line_at_the_interval_is_flushed() {
    let mut streamer = BatchingStreamer::new(START);
    let actions = streamer.step(line("a", START + FLUSH_INTERVAL_NANOS));
    assert_eq!(actions, vec![data(vec!["a".to_string()])]);
    assert_eq!(streamer.pending_lines(), 0);
    assert_eq!(streamer.total_lines(), 1);
}

#[test]
fn interval_counts_from_the_last_flush() {
    let mut streamer = BatchingStreamer::new(START);
    let first = START + FLUSH_INTERVAL_NANOS;
    assert_eq!(streamer.step(line("a", first)).len(), 1);
    assert_eq!(streamer.step(line("b", first + FLUSH_INTERVAL_NANOS - 1)), vec![]);
    let actions = streamer.step(line("c", first + FLUSH_INTERVAL_NANOS));
    assert_eq!(actions, vec![data(vec!["b".to_string(), "c".to_string()])]);
}

#[test]
fn clock_that_goes_back_counts_as_no_time() {
    let mut streamer = BatchingStreamer::new(START);
    assert_eq!(streamer.step(line("a", 0)), vec![]);
    assert_eq!(streamer.step(line("b", START - 1)), vec![]);
    assert_eq!(streamer.pending_lines(), 2);
}

#[test]
fn slow_producer_gets_one_batch_per_line() {
    let mut streamer = BatchingStreamer::new(START);
    let mut inputs = Vec::new();
    for i in 0..5u64 {
        inputs.push(line(&format!("line {}", i), START + (i + 1) * (FLUSH_INTERVAL_NANOS + 7)));
    }
    inputs.push(StreamInput::Closed);
    let actions = streamer.feed(&inputs);
    assert_eq!(
        actions,
        vec![
            data(names(0, 1)),
            data(names(1, 2)),
            data(names(2, 3)),
            data(names(3, 4)),
            data(names(4, 5)),
            finished(),
        ]
    );
}

#[test]
fn fast_producer_gets_batches_of_a_thousand() {
    let mut streamer = BatchingStreamer::new(START);
    let mut inputs = numbered(2500, START);
    inputs.push(StreamInput::Closed);
    let actions = streamer.feed(&inputs);
    assert_eq!(
        actions,
        vec![data(names(0, 1000)), data(names(1000, 2000)), data(names(2000, 2500)), finished()]
    );
}

#[test]
fn full_batch_is_flushed_by_the_thousandth_line() {
    let mut streamer = BatchingStreamer::new(START);
    let actions = streamer.feed(&numbered(999, START));
    assert_eq!(actions, vec![]);
    assert_eq!(streamer.pending_lines(), 999);
    let actions = streamer.step(line("line 999", START));
    assert_eq!(actions, vec![data(names(0, 1000))]);
    assert_eq!(streamer.pending_lines(), 0);
}

#[test]
fn even_split_leaves_no_last_batch() {
    let mut streamer = BatchingStreamer::new(START);
    let mut inputs = numbered(2000, START);
    inputs.push(StreamInput::Closed);
    let actions = streamer.feed(&inputs);
    assert_eq!(actions, vec![data(names(0, 1000)), data(names(1000, 2000)), finished()]);
}

#[test]
fn cap_stops_a_producer_of_25000_lines() {
    let mut streamer = BatchingStreamer::new(START);
    let mut inputs = numbered(25000, START);
    inputs.push(StreamInput::Closed);
    let actions = streamer.feed(&inputs);
    assert_eq!(delivered(&actions), names(0, 20000));
    assert_eq!(batches(&actions).len(), 20);
    assert!(batches(&actions).iter().all(|batch| batch.len() == 1000));
    assert_eq!(count(&actions, &StreamAction::Terminate), 1);
    assert_eq!(count(&actions, &finished()), 1);
    assert_eq!(actions.last(), Some(&finished()));
    assert!(streamer.is_finished());
    assert_eq!(streamer.total_lines(), 20000);
}

#[test]
fn cap_with_a_flush_terminates_after_the_batch() {
    let mut streamer = BatchingStreamer::new(START);
    streamer.feed(&numbered(19999, START));
    let actions = streamer.step(line("line 19999", START));
    assert_eq!(actions, vec![data(names(19000, 20000)), StreamAction::Terminate, finished()]);
}

#[test]
fn cap_without_a_flush_terminates_before_the_last_batch() {
    let mut streamer = BatchingStreamer::new(START);
    let late = START + FLUSH_INTERVAL_NANOS;
    streamer.feed(&numbered(19990, START));
    assert_eq!(streamer.step(line("line 19990", late)), vec![data(names(19000, 19991))]);
    let mut rest: Vec<StreamInput> =
        (19991..19999).map(|i| line(&format!("line {}", i), late)).collect();
    rest.push(line("line 19999", late + FLUSH_INTERVAL_NANOS - 1));
    let actions = streamer.feed(&rest);
    assert_eq!(actions, vec![StreamAction::Terminate, data(names(19991, 20000)), finished()]);
    assert!(streamer.is_finished());
}

#[test]
fn no_termination_under_the_cap() {
    let mut streamer = BatchingStreamer::new(START);
    let mut inputs = numbered(19999, START);
    inputs.push(StreamInput::Closed);
    let actions = streamer.feed(&inputs);
    assert_eq!(count(&actions, &StreamAction::Terminate), 0);
    assert_eq!(delivered(&actions), names(0, 19999));
    assert_eq!(actions.last(), Some(&finished()));
}

#[test]
fn events_together_hold_the_lines_in_order() {
    let mut streamer = BatchingStreamer::new(START);
    let mut inputs = Vec::new();
    let mut now = START;
    for i in 0..3000u64 {
        now += if i % 700 == 0 { FLUSH_INTERVAL_NANOS } else { 10 };
        inputs.push(line(&format!("line {}", i), now));
    }
    inputs.push(StreamInput::Closed);
    let actions = streamer.feed(&inputs);
    assert_eq!(delivered(&actions), names(0, 3000));
    assert!(batches(&actions).iter().all(|batch| !batch.is_empty() && batch.len() <= 1000));
    assert_eq!(count(&actions, &finished()), 1);
    assert_eq!(actions.last(), Some(&finished()));
}

#[test]
fn output_that_ends_at_once_gives_only_the_terminal_event() {
    let mut streamer = BatchingStreamer::new(START);
    assert_eq!(streamer.step(StreamInput::Closed), vec![finished()]);
    assert!(streamer.is_finished());
}

#[test]
fn end_of_output_flushes_what_waits() {
    let mut streamer = BatchingStreamer::new(START);
    assert_eq!(streamer.step(line("a", START)), vec![]);
    assert_eq!(streamer.step(line("b", START + 1)), vec![]);
    let actions = streamer.step(StreamInput::Closed);
    assert_eq!(actions, vec![data(vec!["a".to_string(), "b".to_string()]), finished()]);
    assert_eq!(streamer.pending_lines(), 0);
    assert_eq!(streamer.total_lines(), 2);
}

#[test]
fn finished_streamer_ignores_its_input() {
    let mut streamer = BatchingStreamer::new(START);
    assert_eq!(streamer.step(StreamInput::Closed), vec![finished()]);
    assert_eq!(streamer.step(line("late", START + FLUSH_INTERVAL_NANOS)), vec![]);
    assert_eq!(streamer.step(StreamInput::Closed), vec![]);
    assert_eq!(streamer.total_lines(), 0);
    assert!(streamer.is_finished());
}

#[test]
fn feed_does_what_the_steps_do() {
    let inputs = vec![
        line("a", START),
        line("b", START + FLUSH_INTERVAL_NANOS),
        line("c", START + FLUSH_INTERVAL_NANOS + 1),
        StreamInput::Closed,
    ];
    let mut fed = BatchingStreamer::new(START);
    let all = fed.feed(&inputs);
    let mut stepped = BatchingStreamer::new(START);
    let mut one_by_one = Vec::new();
    for input in inputs {
        one_by_one.extend(stepped.step(input));
    }
    assert_eq!(all, one_by_one);
    assert_eq!(
        all,
        vec![
            data(vec!["a".to_string(), "b".to_string()]),
            data(vec!["c".to_string()]),
            finished(),
        ]
    );
}

#[test]
fn event_kinds_have_their_names() {
    assert_eq!(EventKind::Data.name(), "data");
    assert_eq!(EventKind::Finished.name(), "finished");
}

#[test]
fn data_event_keeps_its_lines() {
    let event = SearchEvent::data(vec!["x".to_string(), "y".to_string()]);
    assert_eq!(event.kind(), EventKind::Data);
    assert_eq!(event.lines(), &vec!["x".to_string(), "y".to_string()]);
    assert_eq!(event.into_lines(), vec!["x".to_string(), "y".to_string()]);
}

#[test]
fn finished_event_carries_no_line() {
    let event = SearchEvent::finished();
    assert_eq!(event.kind(), EventKind::Finished);
    assert!(event.lines().is_empty());
}
