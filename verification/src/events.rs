use vstd::prelude::*;
use bevy::app::{EventReader, Events};
use crate::player::PlayerId;

verus! {

/// What the collision system tells the rest of the game.
#[derive(Clone, Copy, Debug, PartialEq, Eq, Structural)]
pub enum ScoreEvent {
    PointScored(PlayerId),
    MatchOver,
}

/// bevy's double-buffered event collection; nothing inside it is visible here.
#[verifier::external_type_specification]
#[verifier::external_body]
#[verifier::reject_recursive_types(T)]
pub struct ExEvents<T>(Events<T>);

/// bevy's read cursor into an event collection; nothing inside it is visible here.
#[verifier::external_type_specification]
#[verifier::external_body]
#[verifier::reject_recursive_types(T)]
pub struct ExEventReader<T>(EventReader<T>);

/// The events in the buffer that `Events::update` empties next, which is
/// the one that a reader is handed first, in the order sent.
pub uninterp spec fn events_older(events: Events<ScoreEvent>) -> Seq<ScoreEvent>;

/// The events in the buffer that `Events::send` appends to, in the order sent.
pub uninterp spec fn events_newer(events: Events<ScoreEvent>) -> Seq<ScoreEvent>;

/// The count of sent events as it stood when the older buffer was last
/// emptied; zero where it never was.
pub uninterp spec fn events_older_start(events: Events<ScoreEvent>) -> nat;

/// The count of sent events as it stood when the newer buffer was last
/// emptied; zero where it never was.
pub uninterp spec fn events_newer_start(events: Events<ScoreEvent>) -> nat;

/// The count of events ever sent to the collection.
pub uninterp spec fn events_sent(events: Events<ScoreEvent>) -> nat;

/// The count of sent events that the reader took from the collection of
/// its last read; zero before the first read.
pub uninterp spec fn reader_seen(reader: EventReader<ScoreEvent>) -> nat;

/// The part of a buffer, whose first place has the number `start`, that a
/// reader gets who has seen `seen` events: the places numbered `seen` and
/// up, and nothing where the buffer has no such place.
pub open spec fn unread_of(buffer: Seq<ScoreEvent>, start: nat, seen: nat) -> Seq<ScoreEvent> {
    if seen <= start {
        buffer
    } else if seen - start <= buffer.len() {
        buffer.skip(seen - start)
    } else {
        Seq::empty()
    }
}

/// `Events::default`: both buffers are empty and every count is zero.
#[verifier::external_body]
fn events_new() -> (events: Events<ScoreEvent>)
    ensures
        events_older(events) == Seq::<ScoreEvent>::empty(),
        events_newer(events) == Seq::<ScoreEvent>::empty(),
        events_older_start(events) == 0,
        events_newer_start(events) == 0,
        events_sent(events) == 0,
{
    Events::default()
}

/// `Events::send`: the event goes to the end of the newer buffer and the
/// count of sent events goes up by one, which must not pass `usize::MAX`.
#[verifier::external_body]
fn events_send(events: &mut Events<ScoreEvent>, event: ScoreEvent)
    requires
        events_sent(*old(events)) < usize::MAX,
    ensures
        events_newer(*final(events)) == events_newer(*old(events)).push(event),
        events_sent(*final(events)) == events_sent(*old(events)) + 1,
        events_older(*final(events)) == events_older(*old(events)),
        events_older_start(*final(events)) == events_older_start(*old(events)),
        events_newer_start(*final(events)) == events_newer_start(*old(events)),
{
    events.send(event)
}

/// `Events::update`: the newer buffer becomes the older one, what the
/// older one held is gone, and the newer buffer starts empty at the
/// present count.
#[verifier::external_body]
fn events_update(events: &mut Events<ScoreEvent>)
    ensures
        events_older(*final(events)) == events_newer(*old(events)),
        events_older_start(*final(events)) == events_newer_start(*old(events)),
        events_newer(*final(events)) == Seq::<ScoreEvent>::empty(),
        events_newer_start(*final(events)) == events_sent(*old(events)),
        events_sent(*final(events)) == events_sent(*old(events)),
{
    events.update()
}

/// `EventReader::default`: a reader that has seen nothing.
#[verifier::external_body]
fn reader_new() -> (reader: EventReader<ScoreEvent>)
    ensures
        reader_seen(reader) == 0,
{
    EventReader::default()
}

/// `EventReader::iter`, collected: the unread part of the older buffer,
/// then that of the newer one; the reader has then seen all that was sent.
#[verifier::external_body]
fn reader_take(reader: &mut EventReader<ScoreEvent>, events: &Events<ScoreEvent>) -> (unread: Vec<
    ScoreEvent,
>)
    ensures
        unread@ == unread_of(
            events_older(*events),
            events_older_start(*events),
            reader_seen(*old(reader)),
        ) + unread_of(events_newer(*events), events_newer_start(*events), reader_seen(*old(reader))),
        reader_seen(*final(reader)) == events_sent(*events),
{
    reader.iter(events).copied().collect()
}

/// What an event queue holds, as a reader sees it.
pub struct QueueModel {
    /// Events sent before the last frame boundary and after the one before it.
    pub older: Seq<ScoreEvent>,
    /// Events sent since the last frame boundary.
    pub newer: Seq<ScoreEvent>,
    /// The number of the first place of `older`, counting every event ever sent from zero.
    pub older_start: nat,
    /// The number of the first place of `newer`.
    pub newer_start: nat,
    /// How many events were ever sent.
    pub sent: nat,
}

impl QueueModel {
    /// The two buffers follow each other without a gap and end at the present count.
    pub open spec fn wf(self) -> bool {
        &&& self.older_start + self.older.len() == self.newer_start
        &&& self.newer_start + self.newer.len() == self.sent
    }

    /// A queue to which nothing was ever sent.
    pub open spec fn empty() -> QueueModel {
        QueueModel {
            older: Seq::empty(),
            newer: Seq::empty(),
            older_start: 0,
            newer_start: 0,
            sent: 0,
        }
    }

    /// Every event still held, oldest first.
    pub open spec fn retained(self) -> Seq<ScoreEvent> {
        self.older + self.newer
    }

    /// The queue after one event was sent.
    pub open spec fn send(self, event: ScoreEvent) -> QueueModel {
        QueueModel { newer: self.newer.push(event), sent: self.sent + 1, ..self }
    }

    /// The queue after a run of events was sent, in order.
    pub open spec fn send_all(self, events: Seq<ScoreEvent>) -> QueueModel
        decreases events.len(),
    {
        if events.len() == 0 {
            self
        } else {
            self.send_all(events.drop_last()).send(events.last())
        }
    }

    /// A frame boundary: the older buffer is dropped, the newer one ages.
    pub open spec fn update(self) -> QueueModel {
        QueueModel {
            older: self.newer,
            older_start: self.newer_start,
            newer: Seq::empty(),
            newer_start: self.sent,
            sent: self.sent,
        }
    }

    /// What a reader gets that has seen `seen` events.
    pub open spec fn unread(self, seen: nat) -> Seq<ScoreEvent> {
        unread_of(self.older, self.older_start, seen) + unread_of(
            self.newer,
            self.newer_start,
            seen,
        )
    }
}

/// A queue of score events with two buffers: what is sent in one frame
/// stays readable through the next.
pub struct ScoreEvents {
    inner: Events<ScoreEvent>,
    sent: usize,
}

impl View for ScoreEvents {
    type V = QueueModel;

    closed spec fn view(&self) -> QueueModel {
        QueueModel {
            older: events_older(self.inner),
            newer: events_newer(self.inner),
            older_start: events_older_start(self.inner),
            newer_start: events_newer_start(self.inner),
            sent: events_sent(self.inner),
        }
    }
}

impl ScoreEvents {
    /// The buffers are in order, and the queue knows how much was sent.
    pub closed spec fn wf(&self) -> bool {
        self@.wf() && self.sent == self@.sent
    }

    /// A well-formed queue has a well-formed model, and its count fits `usize`.
    pub proof fn wf_view(&self)
        requires
            self.wf(),
        ensures
            self@.wf(),
            self@.sent <= usize::MAX,
    {
    }

    /// An empty queue.
    pub fn new() -> (queue: ScoreEvents)
        ensures
            queue.wf(),
            queue@ == QueueModel::empty(),
    {
        ScoreEvents { inner: events_new(), sent: 0 }
    }

    /// How many events were ever sent.
    pub fn sent_count(&self) -> (n: usize)
        requires
            self.wf(),
        ensures
            n == self@.sent,
    {
        self.sent
    }

    /// Appends an event.
    pub fn send(&mut self, event: ScoreEvent)
        requires
            old(self).wf(),
            old(self)@.sent < usize::MAX,
        ensures
            final(self).wf(),
            final(self)@ == old(self)@.send(event),
    {
        events_send(&mut self.inner, event);
        self.sent = self.sent + 1;
    }

    /// Marks a frame boundary.
    pub fn update(&mut self)
        requires
            old(self).wf(),
        ensures
            final(self).wf(),
            final(self)@ == old(self)@.update(),
    {
        events_update(&mut self.inner);
    }
}

/// One consumer's place in a queue.
pub struct ScoreReader {
    inner: EventReader<ScoreEvent>,
}

impl View for ScoreReader {
    type V = nat;

    /// How many events had been sent at this reader's last read.
    closed spec fn view(&self) -> nat {
        reader_seen(self.inner)
    }
}

impl ScoreReader {
    /// A reader that has seen nothing.
    pub fn new() -> (reader: ScoreReader)
        ensures
            reader@ == 0,
    {
        ScoreReader { inner: reader_new() }
    }

    /// Hands out the events not yet seen, oldest first, and moves the
    /// reader to the end of the queue.
    pub fn take(&mut self, queue: &ScoreEvents) -> (unread: Vec<ScoreEvent>)
        ensures
            unread@ == queue@.unread(old(self)@),
            final(self)@ == queue@.sent,
    {
        reader_take(&mut self.inner, &queue.inner)
    }
}

/// Sending keeps a queue well-formed, and so does a frame boundary.
pub proof fn steps_keep_wf(model: QueueModel, event: ScoreEvent)
    requires
        model.wf(),
    ensures
        model.send(event).wf(),
        model.update().wf(),
{
}

/// Sending a run of events appends the run to the newer buffer.
pub proof fn send_all_appends(model: QueueModel, events: Seq<ScoreEvent>)
    ensures
        model.send_all(events) == (QueueModel {
            newer: model.newer + events,
            sent: model.sent + events.len(),
            ..model
        }),
        model.wf() ==> model.send_all(events).wf(),
    decreases events.len(),
{
    if events.len() == 0 {
        assert(model.newer + events =~= model.newer);
    } else {
        send_all_appends(model, events.drop_last());
        assert((model.newer + events.drop_last()).push(events.last()) =~= model.newer + events);
    }
}

/// A reader that has not fallen behind the older buffer gets every event
/// from its place on, each once and in the order sent.
pub proof fn reader_gets_all_from_its_place(model: QueueModel, seen: nat)
    requires
        model.wf(),
        model.older_start <= seen <= model.sent,
    ensures
        model.unread(seen) == model.retained().skip(seen - model.older_start),
{
    assert(model.unread(seen) =~= model.retained().skip(seen - model.older_start));
}

/// Right after a read, a second read gets nothing.
pub proof fn second_read_is_empty(model: QueueModel)
    requires
        model.wf(),
    ensures
        model.unread(model.sent) == Seq::<ScoreEvent>::empty(),
{
    assert(model.unread(model.sent) =~= Seq::<ScoreEvent>::empty());
}

/// A reader that reads once per frame misses nothing: whatever was sent
/// after its last read, before and after one frame boundary, is what its
/// next read gets.
pub proof fn one_frame_lag_loses_nothing(
    model: QueueModel,
    before: Seq<ScoreEvent>,
    after: Seq<ScoreEvent>,
)
    requires
        model.wf(),
    ensures
        model.send_all(before).update().send_all(after).unread(model.sent) == before + after,
        model.send_all(before).send_all(after).unread(model.sent) == before + after,
{
    send_all_appends(model, before);
    send_all_appends(model.send_all(before).update(), after);
    send_all_appends(model.send_all(before), after);
    let crossed = model.send_all(before).update().send_all(after);
    assert(crossed.unread(model.sent) =~= before + after);
    let same_frame = model.send_all(before).send_all(after);
    assert(same_frame.unread(model.sent) =~= before + after);
}

/// After two frame boundaries nothing sent before the first is left.
pub proof fn two_frames_drop_the_past(model: QueueModel)
    requires
        model.wf(),
    ensures
        model.update().update().retained() == Seq::<ScoreEvent>::empty(),
{
    assert(model.update().update().retained() =~= Seq::<ScoreEvent>::empty());
}

} // verus!
