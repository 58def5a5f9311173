//! The consuming side: a cursor with two states that turns what the channel
//! reports into the elements of the stream.

use vstd::prelude::*;
use crossbeam_channel::{Receiver, Sender};
use crate::channel::{
    bounded_channel, capacity_of, channel_capacity, receive_within, Received, CHANNEL_CAPACITY,
    POLL_TIMEOUT_MS,
};
use crate::outcome::{
    outcome_view, FetchError, FetchErrorView, FileErrorView, OutcomeView, ReadOutcome, ReadResult,
};

verus! {

/// Whether the stream can still produce elements.
#[derive(Clone, Copy, Debug, PartialEq, Eq, Structural)]
pub enum Cursor {
    /// The channel is still being read.
    Active,
    /// The stream is over, for good.
    Terminated,
}

/// What the consumer learns from one wait.
#[derive(Debug, PartialEq, Eq)]
pub enum Event {
    /// The channel handed over an outcome.
    Outcome(ReadOutcome),
    /// The wait ran out with nothing to hand over; `interrupted` says whether
    /// the host has asked to stop.
    Idle { interrupted: bool },
    /// Every worker is done and the channel is empty.
    Disconnected,
}

/// `Event` as plain values.
pub enum EventView {
    Outcome(OutcomeView),
    Idle { interrupted: bool },
    Disconnected,
}

impl View for Event {
    type V = EventView;

    open spec fn view(&self) -> EventView {
        match self {
            Event::Outcome(outcome) => EventView::Outcome(outcome_view(*outcome)),
            Event::Idle { interrupted } => EventView::Idle { interrupted: *interrupted },
            Event::Disconnected => EventView::Disconnected,
        }
    }
}

/// What the consumer does with an event.
#[derive(Debug, PartialEq, Eq)]
pub enum Step {
    /// Hand this to the caller as the next element: a file, or an error.
    Yield(Result<ReadResult, FetchError>),
    /// Nothing to hand over yet: wait again.
    Retry,
    /// End of the stream.
    Done,
}

/// `Step` as plain values.
pub enum StepView {
    Yield(Result<(Seq<char>, Seq<u8>), FetchErrorView>),
    Retry,
    Done,
}

impl View for Step {
    type V = StepView;

    open spec fn view(&self) -> StepView {
        match self {
            Step::Yield(Ok((path, bytes))) => StepView::Yield(Ok((path@, bytes@))),
            Step::Yield(Err(e)) => StepView::Yield(Err(e@)),
            Step::Retry => StepView::Retry,
            Step::Done => StepView::Done,
        }
    }
}

/// The element that an outcome becomes: a file stays a file, a failed job
/// becomes an error that concerns that job alone.
pub open spec fn element_of(outcome: OutcomeView) -> StepView {
    match outcome {
        Ok(item) => StepView::Yield(Ok(item)),
        Err(e) => StepView::Yield(Err(FetchErrorView::File(e))),
    }
}

/// One move of the consumer.
///
/// While active: an outcome is handed on and the stream goes on, whether the
/// job succeeded or not; an idle wait is repeated, unless the host asked to
/// stop, which ends the stream with a cancellation error; a disconnected
/// channel ends the stream without one. Once terminated, every move says
/// that the stream is over.
pub open spec fn consumer_step(cursor: Cursor, event: EventView) -> (Cursor, StepView) {
    match cursor {
        Cursor::Terminated => (Cursor::Terminated, StepView::Done),
        Cursor::Active => match event {
            EventView::Outcome(outcome) => (Cursor::Active, element_of(outcome)),
            EventView::Idle { interrupted } => if interrupted {
                (Cursor::Terminated, StepView::Yield(Err(FetchErrorView::Cancelled)))
            } else {
                (Cursor::Active, StepView::Retry)
            },
            EventView::Disconnected => (Cursor::Terminated, StepView::Done),
        },
    }
}

impl Cursor {
    /// The cursor after `event`, and what to do about the event.
    pub fn step(self, event: Event) -> (next: (Cursor, Step))
        ensures
            (next.0, next.1@) == consumer_step(self, event@),
    {
        match self {
            Cursor::Terminated => (Cursor::Terminated, Step::Done),
            Cursor::Active => match event {
                Event::Outcome(Ok(item)) => (Cursor::Active, Step::Yield(Ok(item))),
                Event::Outcome(Err(e)) => (Cursor::Active, Step::Yield(Err(FetchError::File(e)))),
                Event::Idle { interrupted } => if interrupted {
                    (Cursor::Terminated, Step::Yield(Err(FetchError::Cancelled)))
                } else {
                    (Cursor::Active, Step::Retry)
                },
                Event::Disconnected => (Cursor::Terminated, Step::Done),
            },
        }
    }
}

/// The single reader of the result channel.
pub struct FileContentIterator {
    receiver: Receiver<ReadOutcome>,
    cursor: Cursor,
}

impl FileContentIterator {
    /// Where the stream stands.
    pub closed spec fn cursor(&self) -> Cursor {
        self.cursor
    }

    /// The channel that is read.
    pub closed spec fn channel(&self) -> Receiver<ReadOutcome> {
        self.receiver
    }

    /// An active consumer of `receiver`.
    pub fn new(receiver: Receiver<ReadOutcome>) -> (iterator: FileContentIterator)
        ensures
            iterator.cursor() == Cursor::Active,
            iterator.channel() == receiver,
    {
        FileContentIterator { receiver, cursor: Cursor::Active }
    }

    /// Whether the stream is over.
    pub fn is_terminated(&self) -> (over: bool)
        ensures
            over == (self.cursor() == Cursor::Terminated),
    {
        match self.cursor {
            Cursor::Terminated => true,
            Cursor::Active => false,
        }
    }

    /// The capacity of the channel that is read.
    pub fn capacity(&self) -> (capacity: Option<usize>)
        ensures
            capacity == channel_capacity(self.channel()),
    {
        capacity_of(&self.receiver)
    }

    /// Moves the consumer by one event, as `consumer_step` says.
    pub fn on_event(&mut self, event: Event) -> (step: Step)
        ensures
            (final(self).cursor(), step@) == consumer_step(old(self).cursor(), event@),
            final(self).channel() == old(self).channel(),
    {
        let (cursor, step) = self.cursor.step(event);
        self.cursor = cursor;
        step
    }

    /// Waits once for the channel, at most `POLL_TIMEOUT_MS` milliseconds.
    ///
    /// A terminated consumer does not wait: the stream is over. An active one
    /// takes what the channel reports. If that is an outcome or the
    /// disconnect, the consumer moves by that event and the step comes back.
    /// If the wait ran out, `None` comes back and the consumer has not moved:
    /// the caller looks for a request to stop and reports the idle wait with
    /// [`FileContentIterator::on_event`].
    pub fn poll(&mut self) -> (polled: Option<Step>)
        ensures
            final(self).channel() == old(self).channel(),
            old(self).cursor() == Cursor::Terminated ==> final(self).cursor() == Cursor::Terminated
                && polled.is_some() && polled.unwrap()@ == StepView::Done,
            old(self).cursor() == Cursor::Active ==> match polled {
                None => final(self).cursor() == Cursor::Active,
                Some(step) => exists|event: EventView|
                    !(event is Idle) && (final(self).cursor(), step@) == #[trigger] consumer_step(
                        Cursor::Active,
                        event,
                    ),
            },
    {
        if self.is_terminated() {
            return Some(Step::Done);
        }
        match receive_within(&self.receiver, POLL_TIMEOUT_MS) {
            Received::Outcome(outcome) => {
                let event = Event::Outcome(outcome);
                let ghost seen = event@;
                let step = self.on_event(event);
                assert((self.cursor(), step@) == consumer_step(Cursor::Active, seen));
                Some(step)
            },
            Received::Disconnected => {
                let step = self.on_event(Event::Disconnected);
                assert((self.cursor(), step@) == consumer_step(
                    Cursor::Active,
                    EventView::Disconnected,
                ));
                Some(step)
            },
            Received::Timeout => None,
        }
    }
}

/// A fresh result channel of `CHANNEL_CAPACITY` slots: the sending side for
/// the workers, and an active consumer on the receiving side.
pub fn result_channel() -> (ends: (Sender<ReadOutcome>, FileContentIterator))
    ensures
        ends.1.cursor() == Cursor::Active,
        channel_capacity(ends.1.channel()) == Some(CHANNEL_CAPACITY),
{
    let (sender, receiver) = bounded_channel(CHANNEL_CAPACITY);
    (sender, FileContentIterator::new(receiver))
}

/// The consumer's moves over a whole sequence of events: where the cursor
/// ends, and the step taken for each event.
pub open spec fn run(cursor: Cursor, events: Seq<EventView>) -> (Cursor, Seq<StepView>)
    decreases events.len(),
{
    if events.len() == 0 {
        (cursor, Seq::empty())
    } else {
        let (before, steps) = run(cursor, events.drop_last());
        let (after, step) = consumer_step(before, events.last());
        (after, steps.push(step))
    }
}

/// A run takes one step per event.
pub proof fn lemma_run_len(cursor: Cursor, events: Seq<EventView>)
    ensures
        run(cursor, events).1.len() == events.len(),
    decreases events.len(),
{
    if events.len() > 0 {
        lemma_run_len(cursor, events.drop_last());
    }
}

/// Running over `first` and then over `rest` is running over both.
pub proof fn lemma_run_concat(cursor: Cursor, first: Seq<EventView>, rest: Seq<EventView>)
    ensures
        run(cursor, first + rest).0 == run(run(cursor, first).0, rest).0,
        run(cursor, first + rest).1 == run(cursor, first).1 + run(run(cursor, first).0, rest).1,
    decreases rest.len(),
{
    if rest.len() == 0 {
        assert(first + rest =~= first);
        assert(run(cursor, first).1 + Seq::<StepView>::empty() =~= run(cursor, first).1);
    } else {
        lemma_run_concat(cursor, first, rest.drop_last());
        assert((first + rest).drop_last() =~= first + rest.drop_last());
        let middle = run(cursor, first).0;
        assert(run(cursor, first + rest).1 =~= run(cursor, first).1 + run(middle, rest).1);
    }
}

/// Terminated is absorbing: whatever happens afterwards, the cursor stays
/// terminated and every step says that the stream is over.
pub proof fn lemma_terminated_is_absorbing(events: Seq<EventView>)
    ensures
        run(Cursor::Terminated, events).0 == Cursor::Terminated,
        run(Cursor::Terminated, events).1 == Seq::new(events.len(), |i: int| StepView::Done),
    decreases events.len(),
{
    if events.len() > 0 {
        lemma_terminated_is_absorbing(events.drop_last());
    }
    assert(run(Cursor::Terminated, events).1 =~= Seq::new(events.len(), |i: int| StepView::Done));
}

/// Disconnect is final: once the channel has reported that every worker is
/// done, that step and every later one says that the stream is over, with no
/// error, whatever came before and whatever comes after.
pub proof fn lemma_disconnect_is_final(
    cursor: Cursor,
    before: Seq<EventView>,
    after: Seq<EventView>,
)
    ensures
        ({
            let events = before.push(EventView::Disconnected) + after;
            let (end, steps) = run(cursor, events);
            &&& end == Cursor::Terminated
            &&& steps.len() == events.len()
            &&& forall|i: int| before.len() <= i < steps.len() ==> steps[i] == StepView::Done
        }),
{
    let upto = before.push(EventView::Disconnected);
    assert(upto.drop_last() =~= before);
    lemma_run_len(cursor, before);
    lemma_run_concat(cursor, upto, after);
    lemma_terminated_is_absorbing(after);
}

/// Whether an event leaves the stream running: an outcome, or an idle wait
/// with no request to stop.
pub open spec fn keeps_running(event: EventView) -> bool {
    event is Outcome || event == (EventView::Idle { interrupted: false })
}

/// Nothing is dropped and nothing is doubled on the way to the caller: while
/// nobody asks to stop and the channel stays connected, the consumer stays
/// active, hands on each outcome exactly where it arrived, as the element it
/// stands for, and answers each idle wait by waiting again.
pub proof fn lemma_outcomes_pass_through(events: Seq<EventView>)
    requires
        forall|i: int| 0 <= i < events.len() ==> keeps_running(#[trigger] events[i]),
    ensures
        run(Cursor::Active, events).0 == Cursor::Active,
        run(Cursor::Active, events).1.len() == events.len(),
        forall|i: int|
            0 <= i < events.len() ==> #[trigger] run(Cursor::Active, events).1[i] == (
            match events[i] {
                EventView::Outcome(outcome) => element_of(outcome),
                _ => StepView::Retry,
            }),
    decreases events.len(),
{
    if events.len() > 0 {
        let init = events.drop_last();
        lemma_outcomes_pass_through(init);
        assert(keeps_running(events.last()));
        assert forall|i: int| 0 <= i < events.len() implies #[trigger] run(
            Cursor::Active,
            events,
        ).1[i] == (match events[i] {
            EventView::Outcome(outcome) => element_of(outcome),
            _ => StepView::Retry,
        }) by {
            if i < init.len() {
                assert(events[i] == init[i]);
                assert(run(Cursor::Active, events).1[i] == run(Cursor::Active, init).1[i]);
            }
        }
    }
}

/// A job that failed does not stop the stream: its error is handed on as
/// one element, tagged with that job's path, and the consumer stays active
/// for the outcomes of the other jobs.
pub proof fn lemma_failed_job_keeps_stream_active(failure: FileErrorView)
    ensures
        consumer_step(Cursor::Active, EventView::Outcome(Err(failure))) == (
            Cursor::Active,
            StepView::Yield(Err(FetchErrorView::File(failure))),
        ),
{
}

/// A request to stop ends the stream: the idle wait that sees it yields the
/// cancellation error, and the cursor is terminated from then on.
pub proof fn lemma_cancellation_is_terminal(after: Seq<EventView>)
    ensures
        consumer_step(Cursor::Active, EventView::Idle { interrupted: true }) == (
            Cursor::Terminated,
            StepView::Yield(Err(FetchErrorView::Cancelled)),
        ),
        run(Cursor::Terminated, after).0 == Cursor::Terminated,
        run(Cursor::Terminated, after).1 == Seq::new(after.len(), |i: int| StepView::Done),
{
    lemma_terminated_is_absorbing(after);
}

} // verus!
