use vstd::prelude::*;
use crate::document::{group_document_lemmas, members_v, opt_view, Json, JsonV};
use crate::envelope::{capabilities_v, intent_envelope, ready_envelope, UiEnvelope, UiEnvelopeV};
use crate::pointer::{index_value, parse_usize_token};
use crate::session::next_rev;

verus! {

broadcast use group_document_lemmas;

/// The outbound queue's capacity where none is configured.
pub const DEFAULT_UI_OUTBOUND_QUEUE_CAP: usize = 256;

/// A bounded first-in first-out queue of outbound envelopes, with the two
/// ends of a channel: senders offer envelopes, one receiver takes them.
pub struct OutboundQueue {
    items: Vec<UiEnvelope>,
    capacity: usize,
    receiver_closed: bool,
    senders_closed: bool,
}

/// The state of an outbound queue.
pub struct OutboundQueueV {
    /// The envelopes waiting, oldest first.
    pub items: Seq<UiEnvelopeV>,
    pub capacity: nat,
    /// The receiver is gone: nothing more can be sent.
    pub receiver_closed: bool,
    /// The senders are gone: nothing more will arrive.
    pub senders_closed: bool,
}

impl View for OutboundQueue {
    type V = OutboundQueueV;

    closed spec fn view(&self) -> OutboundQueueV {
        OutboundQueueV {
            items: Seq::new(self.items.len() as nat, |i: int| self.items[i]@),
            capacity: self.capacity as nat,
            receiver_closed: self.receiver_closed,
            senders_closed: self.senders_closed,
        }
    }
}

/// Why an envelope was not queued; the envelope comes back.
#[derive(Debug, PartialEq)]
pub enum TrySendError {
    /// The queue holds as many envelopes as its capacity.
    Full(UiEnvelope),
    /// The receiver is gone.
    Disconnected(UiEnvelope),
}

/// Why nothing was taken from the queue.
#[derive(Debug, Clone, Copy, PartialEq, Eq)]
pub enum TryRecvError {
    /// Nothing is waiting, but more may come.
    Empty,
    /// Nothing is waiting and the senders are gone.
    Disconnected,
}

impl OutboundQueue {
    /// An open, empty queue that holds at most `capacity` envelopes.
    pub fn new(capacity: usize) -> (r: OutboundQueue)
        ensures
            r@.items == Seq::<UiEnvelopeV>::empty(),
            r@.capacity == capacity,
            !r@.receiver_closed,
            !r@.senders_closed,
    {
        let r = OutboundQueue {
            items: Vec::new(),
            capacity,
            receiver_closed: false,
            senders_closed: false,
        };
        assert(r@.items =~= Seq::<UiEnvelopeV>::empty());
        r
    }

    /// How many envelopes are waiting.
    pub fn len(&self) -> (r: usize)
        ensures
            r == self@.items.len(),
    {
        self.items.len()
    }

    /// The most envelopes the queue holds.
    pub fn capacity(&self) -> (r: usize)
        ensures
            r == self@.capacity,
    {
        self.capacity
    }

    /// Whether a send would find room.
    pub fn has_room(&self) -> (r: bool)
        ensures
            r == (self@.items.len() < self@.capacity),
    {
        self.items.len() < self.capacity
    }

    /// Whether the receiver is gone.
    pub fn is_disconnected(&self) -> (r: bool)
        ensures
            r == self@.receiver_closed,
    {
        self.receiver_closed
    }

    /// Offers an envelope without waiting: it is queued where the receiver is
    /// there and the queue has room, and handed back otherwise.
    pub fn try_send(&mut self, envelope: UiEnvelope) -> (r: Result<(), TrySendError>)
        ensures
            old(self)@.receiver_closed ==> r == Err::<(), TrySendError>(
                TrySendError::Disconnected(envelope),
            ) && final(self)@ == old(self)@,
            !old(self)@.receiver_closed && old(self)@.items.len() >= old(self)@.capacity ==> r
                == Err::<(), TrySendError>(TrySendError::Full(envelope)) && final(self)@ == old(self)@,
            !old(self)@.receiver_closed && old(self)@.items.len() < old(self)@.capacity ==> r is Ok
                && final(self)@ == (OutboundQueueV {
                items: old(self)@.items.push(envelope@),
                ..old(self)@
            }),
    {
        if self.receiver_closed {
            return Err(TrySendError::Disconnected(envelope));
        }
        if self.items.len() >= self.capacity {
            return Err(TrySendError::Full(envelope));
        }
        let ghost before = self@;
        self.items.push(envelope);
        assert(self@.items =~= before.items.push(envelope@));
        Ok(())
    }

    /// Takes the oldest envelope without waiting.
    pub fn try_recv(&mut self) -> (r: Result<UiEnvelope, TryRecvError>)
        ensures
            old(self)@.items.len() > 0 ==> r is Ok && r->Ok_0@ == old(self)@.items[0] && final(self)@ == (OutboundQueueV { items: old(self)@.items.drop_first(), ..old(self)@ }),
            old(self)@.items.len() == 0 && old(self)@.senders_closed ==> r == Err::<
                UiEnvelope,
                TryRecvError,
            >(TryRecvError::Disconnected) && final(self)@ == old(self)@,
            old(self)@.items.len() == 0 && !old(self)@.senders_closed ==> r == Err::<
                UiEnvelope,
                TryRecvError,
            >(TryRecvError::Empty) && final(self)@ == old(self)@,
    {
        if self.items.len() == 0 {
            if self.senders_closed {
                return Err(TryRecvError::Disconnected);
            } else {
                return Err(TryRecvError::Empty);
            }
        }
        let ghost before = self@;
        let first = self.items.remove(0);
        assert(self@.items =~= before.items.drop_first());
        Ok(first)
    }

    /// The receiver is gone: later sends fail.
    pub fn close_receiver(&mut self)
        ensures
            final(self)@ == (OutboundQueueV { receiver_closed: true, ..old(self)@ }),
    {
        self.receiver_closed = true;
    }

    /// The senders are gone: the receiver drains what is left, then stops.
    pub fn close_senders(&mut self)
        ensures
            final(self)@ == (OutboundQueueV { senders_closed: true, ..old(self)@ }),
    {
        self.senders_closed = true;
    }
}

/// `n` is a power of two.
pub open spec fn is_power_of_two(n: nat) -> bool
    decreases n,
{
    if n == 0 {
        false
    } else if n == 1 {
        true
    } else if n % 2 == 1 {
        false
    } else {
        is_power_of_two(n / 2)
    }
}

/// Whether the `dropped`-th lost intent is reported: the first, and then at
/// each power of two.
pub fn should_log_drop(dropped: u64) -> (r: bool)
    ensures
        r == is_power_of_two(dropped as nat),
{
    if dropped == 0 {
        return false;
    }
    let mut n: u64 = dropped;
    while n > 1 && n % 2 == 0
        invariant
            n >= 1,
            is_power_of_two(n as nat) == is_power_of_two(dropped as nat),
        decreases n,
    {
        n = n / 2;
    }
    n == 1
}

/// What became of an intent offered to the queue.
#[derive(Debug, Clone, Copy, PartialEq, Eq)]
pub enum IntentSend {
    /// The intent with this id was queued.
    Enqueued { id: u64 },
    /// The queue was full and the intent was dropped: `dropped` intents are
    /// lost so far, and `log` says whether to report it.
    Dropped { id: u64, dropped: u64, log: bool },
    /// The receiver is gone.
    Disconnected { id: u64 },
}

/// Gives the intent the next id and offers it to the queue without waiting;
/// an intent that finds the queue full is dropped and counted. The id is
/// used up whatever becomes of the intent.
pub fn send_intent(
    tx: &mut OutboundQueue,
    sid: String,
    next_intent_id: &mut u64,
    name: &str,
    payload: Json,
    dropped_intent_count: &mut u64,
) -> (r: IntentSend)
    ensures
        *final(next_intent_id) == next_rev(*old(next_intent_id)),
        ({
            let id = *old(next_intent_id);
            let envelope = UiEnvelopeV::Intent { sid: sid@, id, name: name@, payload: payload@ };
            if old(tx)@.receiver_closed {
                &&& r == IntentSend::Disconnected { id }
                &&& final(tx)@ == old(tx)@
                &&& *final(dropped_intent_count) == *old(dropped_intent_count)
            } else if old(tx)@.items.len() >= old(tx)@.capacity {
                let dropped = next_rev(*old(dropped_intent_count));
                &&& r == IntentSend::Dropped {
                    id,
                    dropped,
                    log: is_power_of_two(dropped as nat),
                }
                &&& final(tx)@ == old(tx)@
                &&& *final(dropped_intent_count) == dropped
            } else {
                &&& r == IntentSend::Enqueued { id }
                &&& final(tx)@ == (OutboundQueueV { items: old(tx)@.items.push(envelope), ..old(tx)@ })
                &&& *final(dropped_intent_count) == *old(dropped_intent_count)
            }
        }),
{
    let id = *next_intent_id;
    *next_intent_id = if id == u64::MAX {
        0
    } else {
        id + 1
    };
    let envelope = intent_envelope(sid, id, name, payload);
    match tx.try_send(envelope) {
        Ok(()) => IntentSend::Enqueued { id },
        Err(TrySendError::Full(_envelope)) => {
            let count = *dropped_intent_count;
            let dropped = if count == u64::MAX {
                0
            } else {
                count + 1
            };
            *dropped_intent_count = dropped;
            IntentSend::Dropped { id, dropped, log: should_log_drop(dropped) }
        },
        Err(TrySendError::Disconnected(_envelope)) => IntentSend::Disconnected { id },
    }
}

/// What became of a control envelope offered to the queue.
#[derive(Debug, PartialEq)]
pub enum ControlSend {
    /// It was queued.
    Enqueued,
    /// The queue was full; control envelopes must not be lost, so the caller
    /// delivers it with a send that waits for room.
    Full(UiEnvelope),
    /// The receiver is gone.
    Disconnected,
}

/// Offers a control envelope without waiting; where the queue is full, the
/// envelope comes back for a send that waits.
pub fn enqueue_control_envelope(tx: &mut OutboundQueue, envelope: UiEnvelope) -> (r: ControlSend)
    ensures
        old(tx)@.receiver_closed ==> r == ControlSend::Disconnected && final(tx)@ == old(tx)@,
        !old(tx)@.receiver_closed && old(tx)@.items.len() >= old(tx)@.capacity ==> r
            == ControlSend::Full(envelope) && final(tx)@ == old(tx)@,
        !old(tx)@.receiver_closed && old(tx)@.items.len() < old(tx)@.capacity ==> r
            == ControlSend::Enqueued && final(tx)@ == (OutboundQueueV {
            items: old(tx)@.items.push(envelope@),
            ..old(tx)@
        }),
{
    match tx.try_send(envelope) {
        Ok(()) => ControlSend::Enqueued,
        Err(TrySendError::Full(envelope)) => ControlSend::Full(envelope),
        Err(TrySendError::Disconnected(_envelope)) => ControlSend::Disconnected,
    }
}

/// What a request for a fresh snapshot did.
#[derive(Debug, PartialEq)]
pub enum ResyncRequest {
    /// A request is already in flight; nothing was sent.
    AlreadyPending,
    /// A `Ready` envelope was offered to the queue.
    Requested(ControlSend),
}

/// Asks the controller for a fresh snapshot by sending `Ready`, at most once
/// until the next render clears `resync_pending`.
pub fn request_resync(tx: &mut OutboundQueue, sid: &str, resync_pending: &mut bool) -> (r:
    ResyncRequest)
    ensures
        *final(resync_pending),
        *old(resync_pending) ==> r == ResyncRequest::AlreadyPending && final(tx)@ == old(tx)@,
        !*old(resync_pending) ==> ({
            let ready = UiEnvelopeV::Ready { sid: sid@, capabilities: capabilities_v() };
            match r {
                ResyncRequest::AlreadyPending => false,
                ResyncRequest::Requested(sent) => if old(tx)@.receiver_closed {
                    sent == ControlSend::Disconnected && final(tx)@ == old(tx)@
                } else if old(tx)@.items.len() >= old(tx)@.capacity {
                    sent is Full && sent->Full_0@ == ready && final(tx)@ == old(tx)@
                } else {
                    sent == ControlSend::Enqueued && final(tx)@ == (OutboundQueueV {
                        items: old(tx)@.items.push(ready),
                        ..old(tx)@
                    })
                },
            }
        }),
{
    if *resync_pending {
        return ResyncRequest::AlreadyPending;
    }
    *resync_pending = true;
    let envelope = ready_envelope(String::from_str(sid));
    ResyncRequest::Requested(enqueue_control_envelope(tx, envelope))
}

/// The payload of an intent raised from the toolkit: `{}` without an
/// argument, `{arg}` with one.
pub open spec fn intent_payload_v(arg: Seq<char>) -> JsonV {
    if arg.len() == 0 {
        JsonV::Object(Seq::empty())
    } else {
        JsonV::Object(seq![("arg"@, JsonV::Str(arg))])
    }
}

/// The payload of an intent raised from the toolkit, or `None` where it has
/// no name and is ignored.
pub fn callback_intent_payload(name: &str, arg: &str) -> (r: Option<Json>)
    ensures
        name@.len() == 0 ==> r is None,
        name@.len() > 0 ==> r is Some && r->0@ == intent_payload_v(arg@),
{
    if name.unicode_len() == 0 {
        return None;
    }
    if arg.unicode_len() == 0 {
        return Some(Json::empty_object());
    }
    let mut members: Vec<(String, Json)> = Vec::new();
    members.push((String::from_str("arg"), Json::string(arg)));
    assert(members_v(members@) =~= intent_payload_v(arg@)->Object_0);
    Some(Json::Object(members))
}

/// Navigation parameters as parsed from their text: an object is kept,
/// anything else (no value, or a value of another type) becomes `{}`.
pub open spec fn params_v(parsed: Option<JsonV>) -> JsonV {
    match parsed {
        Some(JsonV::Object(m)) => JsonV::Object(m),
        _ => JsonV::Object(Seq::empty()),
    }
}

/// Keeps navigation parameters only where they are an object.
pub fn params_or_empty(parsed: Option<Json>) -> (r: Json)
    ensures
        r@ == params_v(opt_view(parsed)),
{
    match parsed {
        Some(Json::Object(members)) => Json::Object(members),
        _ => Json::empty_object(),
    }
}

/// The payload of a navigation: `{to: route, params}`.
pub open spec fn navigate_payload_v(route: Seq<char>, parsed: Option<JsonV>) -> JsonV {
    JsonV::Object(seq![("to"@, JsonV::Str(route)), ("params"@, params_v(parsed))])
}

/// The name of the intent a navigation raises.
pub const NAVIGATE_INTENT: &'static str = "ui.route.navigate";

/// The payload of a navigation to `route`, or `None` where the route is empty
/// and the navigation is ignored.
pub fn navigate_intent_payload(route: &str, parsed_params: Option<Json>) -> (r: Option<Json>)
    ensures
        route@.len() == 0 ==> r is None,
        route@.len() > 0 ==> r is Some && r->0@ == navigate_payload_v(route@, opt_view(parsed_params)),
{
    if route.unicode_len() == 0 {
        return None;
    }
    let ghost pv = opt_view(parsed_params);
    let params = params_or_empty(parsed_params);
    let mut members: Vec<(String, Json)> = Vec::new();
    members.push((String::from_str("to"), Json::string(route)));
    members.push((String::from_str("params"), params));
    assert(members_v(members@) =~= navigate_payload_v(route@, pv)->Object_0);
    Some(Json::Object(members))
}

/// The configured capacity of the outbound queue: a positive decimal
/// integer, or the default where it is missing or not one.
pub fn parse_outbound_queue_capacity(raw: Option<&str>) -> (r: usize)
    ensures
        r == match raw {
            Some(t) => match index_value(t@) {
                Some(v) => if v > 0 {
                    v
                } else {
                    DEFAULT_UI_OUTBOUND_QUEUE_CAP
                },
                None => DEFAULT_UI_OUTBOUND_QUEUE_CAP,
            },
            None => DEFAULT_UI_OUTBOUND_QUEUE_CAP,
        },
        r > 0,
{
    match raw {
        Some(text) => match parse_usize_token(text) {
            Some(v) => {
                if v > 0 {
                    v
                } else {
                    DEFAULT_UI_OUTBOUND_QUEUE_CAP
                }
            },
            None => DEFAULT_UI_OUTBOUND_QUEUE_CAP,
        },
        None => DEFAULT_UI_OUTBOUND_QUEUE_CAP,
    }
}

} // verus!
