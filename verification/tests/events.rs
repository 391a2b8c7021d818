use pong::events::{ScoreEvent, ScoreEvents, ScoreReader};
use pong::player::PlayerId;

const ONE: ScoreEvent = ScoreEvent::PointScored(PlayerId::User1);
const TWO: ScoreEvent = ScoreEvent::PointScored(PlayerId::User2);
const OVER: ScoreEvent = ScoreEvent::MatchOver;

#[test]
fn new_queue_is_empty() {
    let events = ScoreEvents::new();
    let mut reader = ScoreReader::new();
    assert_eq!(events.sent_count(), 0);
    assert_eq!(reader.take(&events), vec![]);
}

#[test]
fn events_come_out_in_the_order_sent() {
    let mut events = ScoreEvents::new();
    events.send(TWO);
    events.send(OVER);
    events.send(ONE);
    assert_eq!(events.sent_count(), 3);
    let mut reader = ScoreReader::new();
    assert_eq!(reader.take(&events), vec![TWO, OVER, ONE]);
}

#[test]
fn each_event_is_read_once() {
    let mut events = ScoreEvents::new();
    let mut reader = ScoreReader::new();
    events.send(ONE);
    assert_eq!(reader.take(&events), vec![ONE]);
    assert_eq!(reader.take(&events), vec![]);
    events.send(TWO);
    assert_eq!(reader.take(&events), vec![TWO]);
    assert_eq!(reader.take(&events), vec![]);
}

#[test]
fn each_reader_has_its_own_place() {
    let mut events = ScoreEvents::new();
    let mut early = ScoreReader::new();
    events.send(ONE);
    assert_eq!(early.take(&events), vec![ONE]);
    let mut late = ScoreReader::new();
    events.send(TWO);
    assert_eq!(late.take(&events), vec![ONE, TWO]);
    assert_eq!(early.take(&events), vec![TWO]);
}

#[test]
fn reader_one_frame_behind_misses_nothing() {
    let mut events = ScoreEvents::new();
    let mut reader = ScoreReader::new();
    events.send(OVER);
    assert_eq!(reader.take(&events), vec![OVER]);
    events.send(ONE);
    events.update();
    events.send(TWO);
    assert_eq!(reader.take(&events), vec![ONE, TWO]);
    events.update();
    assert_eq!(reader.take(&events), vec![]);
}

#[test]
fn two_frame_boundaries_drop_what_was_not_read() {
    let mut events = ScoreEvents::new();
    let mut missed = ScoreReader::new();
    events.send(ONE);
    events.send(OVER);
    events.update();
    events.send(TWO);
    events.update();
    assert_eq!(missed.take(&events), vec![TWO]);
    events.update();
    let mut late = ScoreReader::new();
    assert_eq!(late.take(&events), vec![]);
    assert_eq!(events.sent_count(), 3);
}

#[test]
fn readers_across_frames() {
    let mut events = ScoreEvents::new();
    let mut reader_missed = ScoreReader::new();
    let mut reader_a = ScoreReader::new();
    events.send(ONE);
    assert_eq!(reader_a.take(&events), vec![ONE]);
    assert_eq!(reader_a.take(&events), vec![]);
    let mut reader_b = ScoreReader::new();
    assert_eq!(reader_b.take(&events), vec![ONE]);
    events.send(TWO);
    let mut reader_c = ScoreReader::new();
    assert_eq!(reader_c.take(&events), vec![ONE, TWO]);
    assert_eq!(reader_a.take(&events), vec![TWO]);
    events.update();
    let mut reader_d = ScoreReader::new();
    events.send(OVER);
    assert_eq!(reader_a.take(&events), vec![OVER]);
    assert_eq!(reader_b.take(&events), vec![TWO, OVER]);
    assert_eq!(reader_d.take(&events), vec![ONE, TWO, OVER]);
    events.update();
    assert_eq!(reader_missed.take(&events), vec![OVER]);
}
