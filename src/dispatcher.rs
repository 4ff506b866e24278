//! Decisions of the background dispatcher and of the shutdown handle.
use vstd::prelude::*;
use crate::labels::{LabelSet, PairView};
use crate::log_event::LokiLogEvent;
use crate::request::{LokiRequest, StreamView, request_of};

verus! {

/// What travels on the channel: an event, or the request to stop.
pub enum DispatchMessage {
    Event(LokiLogEvent),
    Shutdown,
}

#[derive(Clone, Copy, Debug, PartialEq, Eq, Structural)]
pub enum DispatcherState {
    Running,
    Terminated,
}

/// What the dispatcher does next.
pub enum Action {
    /// Send this request to the endpoint and wait for the answer.
    Deliver(LokiRequest),
    /// Leave the loop.
    Stop,
}

/// How one delivery ended.
#[derive(Clone, Copy, Debug, PartialEq, Eq, Structural)]
pub enum DeliveryOutcome {
    Delivered,
    Failed,
}

/// The state after receiving `msg` (`None`: the channel is closed), and the
/// event to deliver, if any.
pub open spec fn step(state: DispatcherState, msg: Option<DispatchMessage>) -> (DispatcherState, Option<LokiLogEvent>) {
    match (state, msg) {
        (DispatcherState::Running, Some(DispatchMessage::Event(e))) => (DispatcherState::Running, Some(e)),
        _ => (DispatcherState::Terminated, None),
    }
}

/// The requests that a running dispatcher sends, in order, when it receives
/// `msgs`.
pub open spec fn delivered(labels: Seq<PairView>, msgs: Seq<Option<DispatchMessage>>) -> Seq<Seq<StreamView>>
    decreases msgs.len(),
{
    if msgs.len() == 0 {
        Seq::empty()
    } else {
        match step(DispatcherState::Running, msgs[0]) {
            (DispatcherState::Running, Some(e)) => seq![request_of(e, labels)] + delivered(labels, msgs.drop_first()),
            _ => Seq::empty(),
        }
    }
}

/// The messages that a producer sends for its events.
pub open spec fn event_messages(events: Seq<LokiLogEvent>) -> Seq<Option<DispatchMessage>> {
    events.map_values(|e: LokiLogEvent| Some(DispatchMessage::Event(e)))
}

/// The dispatcher's loop state: the static labels and whether it still runs.
pub struct Dispatcher {
    labels: LabelSet,
    state: DispatcherState,
}

impl Dispatcher {
    pub closed spec fn labels(&self) -> Seq<PairView> {
        self.labels@
    }

    pub closed spec fn state(&self) -> DispatcherState {
        self.state
    }

    pub closed spec fn wf(&self) -> bool {
        self.labels.wf()
    }

    /// A running dispatcher with the given static labels.
    pub fn new(labels: LabelSet) -> (r: Dispatcher)
        requires
            labels.wf(),
        ensures
            r.labels() == labels@,
            r.state() == DispatcherState::Running,
            r.wf(),
    {
        Dispatcher { labels, state: DispatcherState::Running }
    }

    pub fn is_running(&self) -> (r: bool)
        ensures
            r == (self.state() == DispatcherState::Running),
    {
        self.state == DispatcherState::Running
    }

    /// Handles the next message (`None`: the channel is closed). An event
    /// becomes one request with the event's own severity label; the stop
    /// message, a closed channel, or anything after stopping ends the loop.
    pub fn handle(&mut self, msg: Option<DispatchMessage>) -> (r: Action)
        requires
            old(self).wf(),
        ensures
            final(self).wf(),
            final(self).labels() == old(self).labels(),
            final(self).state() == step(old(self).state(), msg).0,
            match step(old(self).state(), msg).1 {
                Some(e) => r matches Action::Deliver(req) && req@ == request_of(e, old(self).labels()),
                None => r is Stop,
            },
    {
        if self.state == DispatcherState::Terminated {
            return Action::Stop;
        }
        match msg {
            Some(DispatchMessage::Event(e)) => Action::Deliver(LokiRequest::new(e, &self.labels)),
            _ => {
                self.state = DispatcherState::Terminated;
                Action::Stop
            },
        }
    }
}

/// A delivery succeeded only when the endpoint answered with a 2xx status;
/// `None` stands for a network error.
pub fn delivery_outcome(status: Option<u16>) -> (r: DeliveryOutcome)
    ensures
        r == (if status matches Some(s) && 200 <= s <= 299 {
            DeliveryOutcome::Delivered
        } else {
            DeliveryOutcome::Failed
        }),
{
    match status {
        Some(s) => if 200 <= s && s <= 299 {
            DeliveryOutcome::Delivered
        } else {
            DeliveryOutcome::Failed
        },
        None => DeliveryOutcome::Failed,
    }
}

/// The events that one producer submits before the stop message are
/// delivered, each once and in submission order, before the dispatcher
/// stops; nothing after the stop message is delivered.
pub proof fn lemma_fifo_before_shutdown(
    labels: Seq<PairView>,
    events: Seq<LokiLogEvent>,
    rest: Seq<Option<DispatchMessage>>,
)
    ensures
        delivered(labels, event_messages(events) + seq![Some(DispatchMessage::Shutdown)] + rest)
            == events.map_values(|e: LokiLogEvent| request_of(e, labels)),
{
    lemma_delivered_until_stop(labels, events, Some(DispatchMessage::Shutdown), rest);
}

/// Whatever the endpoint answers (the dispatcher's steps take no delivery
/// outcome), every event received before the channel closes is taken off
/// the channel and delivered exactly once, in order, with no retry; then
/// the dispatcher stops.
pub proof fn lemma_drains_until_closed(labels: Seq<PairView>, events: Seq<LokiLogEvent>)
    ensures
        delivered(labels, event_messages(events) + seq![None]) == events.map_values(
            |e: LokiLogEvent| request_of(e, labels),
        ),
{
    lemma_delivered_until_stop(labels, events, None, Seq::empty());
    assert(event_messages(events) + seq![None] + Seq::<Option<DispatchMessage>>::empty()
        =~= event_messages(events) + seq![None]);
}

proof fn lemma_delivered_until_stop(
    labels: Seq<PairView>,
    events: Seq<LokiLogEvent>,
    stop: Option<DispatchMessage>,
    rest: Seq<Option<DispatchMessage>>,
)
    requires
        stop is None || stop == Some(DispatchMessage::Shutdown),
    ensures
        delivered(labels, event_messages(events) + seq![stop] + rest)
            == events.map_values(|e: LokiLogEvent| request_of(e, labels)),
    decreases events.len(),
{
    let msgs = event_messages(events) + seq![stop] + rest;
    if events.len() == 0 {
        assert(msgs[0] == stop);
        assert(events.map_values(|e: LokiLogEvent| request_of(e, labels)) =~= Seq::<Seq<StreamView>>::empty());
    } else {
        let tail = events.drop_first();
        lemma_delivered_until_stop(labels, tail, stop, rest);
        assert(msgs.drop_first() =~= event_messages(tail) + seq![stop] + rest);
        assert(msgs[0] == Some(DispatchMessage::Event(events[0])));
        assert(events.map_values(|e: LokiLogEvent| request_of(e, labels)) =~= seq![request_of(events[0], labels)]
            + tail.map_values(|e: LokiLogEvent| request_of(e, labels)));
    }
}

/// Holds the dispatcher's join handle until one caller takes it.
pub struct JoinSlot<H> {
    handle: Option<H>,
}

/// One take from a slot holding `h`: the caller gets `h`, the slot is left
/// empty.
pub open spec fn take_step<H>(h: Option<H>) -> (Option<H>, Option<H>) {
    (h, None)
}

/// What each of `k` takes in a row gets, from a slot holding `h`.
pub open spec fn take_results<H>(h: Option<H>, k: nat) -> Seq<Option<H>>
    decreases k,
{
    if k == 0 {
        Seq::empty()
    } else {
        seq![take_step(h).0] + take_results(take_step(h).1, (k - 1) as nat)
    }
}

/// How many of the results hold a handle.
pub open spec fn handles_granted<H>(results: Seq<Option<H>>) -> nat
    decreases results.len(),
{
    if results.len() == 0 {
        0
    } else {
        (if results[0] is Some { 1nat } else { 0nat }) + handles_granted(results.drop_first())
    }
}

impl<H> JoinSlot<H> {
    /// The handle still held, if any.
    pub closed spec fn held(&self) -> Option<H> {
        self.handle
    }

    pub open spec fn is_full(&self) -> bool {
        self.held() is Some
    }

    /// A slot holding `handle`.
    pub fn new(handle: H) -> (r: JoinSlot<H>)
        ensures
            r.held() == Some(handle),
    {
        JoinSlot { handle: Some(handle) }
    }

    /// Takes the handle: the first call gets it, every later call gets `None`.
    pub fn take(&mut self) -> (r: Option<H>)
        ensures
            (r, final(self).held()) == take_step(old(self).held()),
    {
        self.handle.take()
    }
}

/// However many callers take in turn from a full slot (the lock in front
/// of the slot puts them in turn), exactly one of them gets the handle, the
/// first, and so exactly one joins the dispatcher.
pub proof fn lemma_exactly_one_join<H>(h: H, k: nat)
    requires
        k >= 1,
    ensures
        handles_granted(take_results(Some(h), k)) == 1,
        take_results(Some(h), k)[0] == Some(h),
{
    let r = take_results(Some(h), k);
    assert(r.drop_first() == take_results(None::<H>, (k - 1) as nat));
    lemma_empty_slot_grants_none::<H>((k - 1) as nat);
}

proof fn lemma_empty_slot_grants_none<H>(k: nat)
    ensures
        handles_granted(take_results(None::<H>, k)) == 0,
    decreases k,
{
    if k > 0 {
        let r = take_results(None::<H>, k);
        assert(r.drop_first() == take_results(None::<H>, (k - 1) as nat));
        lemma_empty_slot_grants_none::<H>((k - 1) as nat);
    }
}

} // verus!
