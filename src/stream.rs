//! The bridge from the core's push-style event stream to a pull-based consumer:
//! the decisions of the background producer, and the eager collectors.

use vstd::prelude::*;
use vstd::string::*;
use crate::content::{is_final, text_of, Event, EventView};

verus! {

/// How many items may wait between the producer and the consumer.
pub const EVENT_CHANNEL_CAPACITY: usize = 32;

#[derive(PartialEq, Eq, Structural, Debug, Clone, Copy)]
pub enum ProducerPhase {
    /// The source stream is being opened.
    Starting,
    /// Waiting for the source's next item.
    Pulling,
    /// An item is on its way to the consumer.
    Sending,
    /// An error is on its way to the consumer; it is the last item sent.
    Closing,
    /// The producer has stopped; the channel closes.
    Closed,
}

/// What the producer's last action led to.
pub enum ProducerEvent<T, E> {
    /// The source stream is open.
    Started,
    /// The source could not be opened, for this reason.
    StartFailed(E),
    /// The source's next item, or `None` when the source is exhausted.
    Pulled(Option<Result<T, E>>),
    /// The consumer took the item.
    Sent,
    /// The consumer is gone: the channel refused the item.
    Rejected,
}

/// What the producer does next.
pub enum ProducerAction<T, E> {
    /// Wait for the source's next item.
    Pull,
    /// Send this item to the consumer, waiting while the channel is full.
    Send(Result<T, E>),
    /// Stop and close the channel.
    Close,
}

/// One step of the producer: its next phase and action. An error, whether the
/// source failed to open or yielded one, is the last item sent: error, then stop.
pub open spec fn producer_step<T, E>(phase: ProducerPhase, ev: ProducerEvent<T, E>) -> (ProducerPhase, ProducerAction<T, E>) {
    match (phase, ev) {
        (ProducerPhase::Starting, ProducerEvent::Started) => (ProducerPhase::Pulling, ProducerAction::Pull),
        (ProducerPhase::Starting, ProducerEvent::StartFailed(e)) => (ProducerPhase::Closing, ProducerAction::Send(Err(e))),
        (ProducerPhase::Pulling, ProducerEvent::Pulled(Some(Ok(t)))) => (ProducerPhase::Sending, ProducerAction::Send(Ok(t))),
        (ProducerPhase::Pulling, ProducerEvent::Pulled(Some(Err(e)))) => (ProducerPhase::Closing, ProducerAction::Send(Err(e))),
        (ProducerPhase::Sending, ProducerEvent::Sent) => (ProducerPhase::Pulling, ProducerAction::Pull),
        _ => (ProducerPhase::Closed, ProducerAction::Close),
    }
}

/// The phase and the actions of a producer in `phase` that meets `evs`.
pub open spec fn producer_run<T, E>(phase: ProducerPhase, evs: Seq<ProducerEvent<T, E>>) -> (ProducerPhase, Seq<ProducerAction<T, E>>)
    decreases evs.len(),
{
    if evs.len() == 0 {
        (phase, Seq::empty())
    } else {
        let (p, a) = producer_step(phase, evs[0]);
        let (q, rest) = producer_run(p, evs.drop_first());
        (q, seq![a] + rest)
    }
}

/// The producer of one lazy stream.
pub struct Producer {
    phase: ProducerPhase,
}

impl Producer {
    pub closed spec fn spec_phase(&self) -> ProducerPhase {
        self.phase
    }

    pub fn new() -> (r: Producer)
        ensures
            r.spec_phase() == ProducerPhase::Starting,
    {
        Producer { phase: ProducerPhase::Starting }
    }

    pub fn phase(&self) -> (r: ProducerPhase)
        ensures
            r == self.spec_phase(),
    {
        self.phase
    }

    pub fn is_closed(&self) -> (r: bool)
        ensures
            r == (self.spec_phase() == ProducerPhase::Closed),
    {
        self.phase == ProducerPhase::Closed
    }

    /// Takes in what the last action led to and says what to do next.
    pub fn step<T, E>(&mut self, ev: ProducerEvent<T, E>) -> (r: ProducerAction<T, E>)
        ensures
            (final(self).spec_phase(), r) == producer_step(old(self).spec_phase(), ev),
    {
        let (phase, action) = match (self.phase, ev) {
            (ProducerPhase::Starting, ProducerEvent::Started) => (ProducerPhase::Pulling, ProducerAction::Pull),
            (ProducerPhase::Starting, ProducerEvent::StartFailed(e)) => (ProducerPhase::Closing, ProducerAction::Send(Err(e))),
            (ProducerPhase::Pulling, ProducerEvent::Pulled(Some(Ok(t)))) => (ProducerPhase::Sending, ProducerAction::Send(Ok(t))),
            (ProducerPhase::Pulling, ProducerEvent::Pulled(Some(Err(e)))) => (ProducerPhase::Closing, ProducerAction::Send(Err(e))),
            (ProducerPhase::Sending, ProducerEvent::Sent) => (ProducerPhase::Pulling, ProducerAction::Pull),
            _ => (ProducerPhase::Closed, ProducerAction::Close),
        };
        self.phase = phase;
        action
    }
}

/// A consumer that has gone is noticed at the producer's next send: whatever
/// the phase, the producer stops then, and stays stopped.
pub proof fn lemma_gone_consumer_stops_producer<T, E>(phase: ProducerPhase, later: Seq<ProducerEvent<T, E>>)
    ensures
        producer_step(phase, ProducerEvent::<T, E>::Rejected) == (ProducerPhase::Closed, ProducerAction::<T, E>::Close),
        producer_run(ProducerPhase::Closed, later).0 == ProducerPhase::Closed,
        sends(producer_run(ProducerPhase::Closed, later).1) == 0,
    decreases later.len(),
{
    if later.len() > 0 {
        lemma_gone_consumer_stops_producer(phase, later.drop_first());
        let rest = producer_run(ProducerPhase::Closed, later.drop_first()).1;
        let acts = seq![ProducerAction::<T, E>::Close] + rest;
        assert(acts.drop_first() =~= rest);
        assert(acts[0] is Close);
    }
}

/// What a source of `items`, and a consumer that takes every item, answer a
/// pulling producer. The source is not asked past an error.
pub open spec fn served<T, E>(items: Seq<Result<T, E>>) -> Seq<ProducerEvent<T, E>>
    decreases items.len(),
{
    if items.len() == 0 {
        seq![ProducerEvent::Pulled(None)]
    } else if items[0] is Ok {
        seq![ProducerEvent::Pulled(Some(items[0])), ProducerEvent::Sent] + served(items.drop_first())
    } else {
        seq![ProducerEvent::Pulled(Some(items[0])), ProducerEvent::Sent]
    }
}

/// The actions of a producer that forwards `items` one by one, up to and
/// including the first error, and then closes.
pub open spec fn forwarding<T, E>(items: Seq<Result<T, E>>) -> Seq<ProducerAction<T, E>>
    decreases items.len(),
{
    if items.len() == 0 {
        seq![ProducerAction::Close]
    } else if items[0] is Ok {
        seq![ProducerAction::Send(items[0]), ProducerAction::Pull] + forwarding(items.drop_first())
    } else {
        seq![ProducerAction::Send(items[0]), ProducerAction::Close]
    }
}

/// What a source of `items` answers when the consumer takes the first `n`
/// items and then goes away.
pub open spec fn abandoned_after<T, E>(items: Seq<Result<T, E>>, n: nat) -> Seq<ProducerEvent<T, E>>
    decreases items.len(),
{
    if items.len() == 0 {
        seq![ProducerEvent::Pulled(None)]
    } else if n == 0 {
        seq![ProducerEvent::Pulled(Some(items[0])), ProducerEvent::Rejected]
    } else {
        seq![ProducerEvent::Pulled(Some(items[0])), ProducerEvent::Sent]
            + abandoned_after(items.drop_first(), (n - 1) as nat)
    }
}

proof fn lemma_run_two<T, E>(
    phase: ProducerPhase,
    a: ProducerEvent<T, E>,
    b: ProducerEvent<T, E>,
    rest: Seq<ProducerEvent<T, E>>,
)
    ensures
        ({
            let (p1, x1) = producer_step(phase, a);
            let (p2, x2) = producer_step(p1, b);
            let (q, xs) = producer_run(p2, rest);
            producer_run(phase, seq![a, b] + rest) == (q, seq![x1, x2] + xs)
        }),
{
    let s = seq![a, b] + rest;
    let s1 = s.drop_first();
    assert(s[0] == a);
    assert(s1[0] == b);
    assert(s1.drop_first() =~= rest);
    let (p1, x1) = producer_step(phase, a);
    let (p2, x2) = producer_step(p1, b);
    let (q, xs) = producer_run(p2, rest);
    assert(producer_run(p1, s1) == (q, seq![x2] + xs));
    assert(producer_run(phase, s) == (q, seq![x1] + (seq![x2] + xs)));
    assert(seq![x1] + (seq![x2] + xs) =~= seq![x1, x2] + xs);
}

proof fn lemma_sends_pair<T, E>(x1: ProducerAction<T, E>, x2: ProducerAction<T, E>)
    ensures
        sends(seq![x1, x2]) == (if x1 is Send { 1nat } else { 0nat }) + (if x2 is Send { 1nat } else { 0nat }),
{
    let s = seq![x1, x2];
    assert(s.drop_first() =~= seq![x2]);
    assert(seq![x2].drop_first() =~= Seq::<ProducerAction<T, E>>::empty());
    assert(sends(seq![x2]) == (if x2 is Send { 1nat } else { 0nat }) + sends(Seq::<ProducerAction<T, E>>::empty()));
}

/// With a source that ends and a consumer that stays, the producer forwards
/// every item in order up to and including the first error, and then closes:
/// the stream terminates.
pub proof fn lemma_served_stream_terminates<T, E>(items: Seq<Result<T, E>>)
    ensures
        producer_run(ProducerPhase::Pulling, served(items)) == (ProducerPhase::Closed, forwarding(items)),
    decreases items.len(),
{
    if items.len() == 0 {
        let evs = served(items);
        assert(evs[0] == ProducerEvent::<T, E>::Pulled(None));
        assert(evs.drop_first() =~= Seq::<ProducerEvent<T, E>>::empty());
        assert(producer_run(ProducerPhase::Closed, evs.drop_first()) == (ProducerPhase::Closed, Seq::<ProducerAction<T, E>>::empty()));
        assert(seq![ProducerAction::<T, E>::Close] + Seq::<ProducerAction<T, E>>::empty() =~= seq![ProducerAction::<T, E>::Close]);
    } else if items[0] is Ok {
        lemma_served_stream_terminates(items.drop_first());
        lemma_run_two(
            ProducerPhase::Pulling,
            ProducerEvent::Pulled(Some(items[0])),
            ProducerEvent::<T, E>::Sent,
            served(items.drop_first()),
        );
        assert(served(items) == seq![ProducerEvent::Pulled(Some(items[0])), ProducerEvent::<T, E>::Sent] + served(items.drop_first()));
        assert(forwarding(items) == seq![ProducerAction::Send(items[0]), ProducerAction::<T, E>::Pull] + forwarding(items.drop_first()));
    } else {
        lemma_run_two(
            ProducerPhase::Pulling,
            ProducerEvent::Pulled(Some(items[0])),
            ProducerEvent::<T, E>::Sent,
            Seq::empty(),
        );
        assert(served(items) =~= seq![ProducerEvent::Pulled(Some(items[0])), ProducerEvent::<T, E>::Sent] + Seq::empty());
        assert(forwarding(items) =~= seq![ProducerAction::Send(items[0]), ProducerAction::<T, E>::Close] + Seq::empty());
    }
}

/// The count of `Send` actions in a run.
pub open spec fn sends<T, E>(actions: Seq<ProducerAction<T, E>>) -> nat
    decreases actions.len(),
{
    if actions.len() == 0 {
        0
    } else {
        (if actions[0] is Send { 1nat } else { 0nat }) + sends(actions.drop_first())
    }
}

proof fn lemma_sends_concat<T, E>(a: Seq<ProducerAction<T, E>>, b: Seq<ProducerAction<T, E>>)
    ensures
        sends(a + b) == sends(a) + sends(b),
    decreases a.len(),
{
    if a.len() > 0 {
        assert((a + b).drop_first() =~= a.drop_first() + b);
        lemma_sends_concat(a.drop_first(), b);
    }
}

/// Error, then stop: once the producer has pulled an error, that error is the
/// only item it still sends, and after the consumer's answer it is closed,
/// whatever the source or the consumer do next.
pub proof fn lemma_error_ends_stream<T, E>(e: E, answer: ProducerEvent<T, E>, later: Seq<ProducerEvent<T, E>>)
    ensures
        ({
            let (q, actions) = producer_run(
                ProducerPhase::Pulling,
                seq![ProducerEvent::Pulled(Some(Err(e))), answer] + later,
            );
            &&& q == ProducerPhase::Closed
            &&& actions[0] == ProducerAction::<T, E>::Send(Err(e))
            &&& sends(actions) == 1
        }),
{
    lemma_run_two(ProducerPhase::Pulling, ProducerEvent::Pulled(Some(Err(e))), answer, later);
    lemma_gone_consumer_stops_producer::<T, E>(ProducerPhase::Closed, later);
    let (p1, x1) = producer_step(ProducerPhase::Pulling, ProducerEvent::<T, E>::Pulled(Some(Err(e))));
    let (p2, x2) = producer_step(p1, answer);
    assert(p1 == ProducerPhase::Closing);
    assert(p2 == ProducerPhase::Closed && x2 is Close);
    lemma_sends_pair(x1, x2);
    lemma_sends_concat(seq![x1, x2], producer_run(ProducerPhase::Closed, later).1);
}

/// A consumer that takes `n` items and goes away: the producer attempts one more
/// send, sees the consumer gone, and closes; it never sends more than `n + 1`
/// items.
pub proof fn lemma_abandoned_stream_stops<T, E>(items: Seq<Result<T, E>>, n: nat)
    requires
        n < items.len(),
        forall|j: int| 0 <= j < n ==> (#[trigger] items[j]) is Ok,
    ensures
        producer_run(ProducerPhase::Pulling, abandoned_after(items, n)).0 == ProducerPhase::Closed,
        sends(producer_run(ProducerPhase::Pulling, abandoned_after(items, n)).1) == n + 1,
    decreases items.len(),
{
    let head = if n == 0 {
        seq![ProducerAction::Send(items[0]), ProducerAction::<T, E>::Close]
    } else {
        seq![ProducerAction::Send(items[0]), ProducerAction::<T, E>::Pull]
    };
    lemma_sends_pair(head[0], head[1]);
    assert(head =~= seq![head[0], head[1]]);
    if n == 0 {
        lemma_run_two(
            ProducerPhase::Pulling,
            ProducerEvent::Pulled(Some(items[0])),
            ProducerEvent::<T, E>::Rejected,
            Seq::empty(),
        );
        assert(abandoned_after(items, n) =~= seq![ProducerEvent::Pulled(Some(items[0])), ProducerEvent::<T, E>::Rejected] + Seq::empty());
        assert(head + Seq::<ProducerAction<T, E>>::empty() =~= head);
    } else {
        assert(items[0] is Ok);
        assert forall|j: int| 0 <= j < n - 1 implies (#[trigger] items.drop_first()[j]) is Ok by {
            assert(items.drop_first()[j] == items[j + 1]);
        }
        lemma_abandoned_stream_stops(items.drop_first(), (n - 1) as nat);
        lemma_run_two(
            ProducerPhase::Pulling,
            ProducerEvent::Pulled(Some(items[0])),
            ProducerEvent::<T, E>::Sent,
            abandoned_after(items.drop_first(), (n - 1) as nat),
        );
        let tail = producer_run(ProducerPhase::Pulling, abandoned_after(items.drop_first(), (n - 1) as nat)).1;
        lemma_sends_concat(head, tail);
    }
}

/// The text a final-response event contributes: its text parts laid end to end.
/// Other events, partial fragments and tool calls or results among them,
/// contribute nothing.
pub open spec fn final_text_of(e: EventView) -> Seq<char> {
    if is_final(e) {
        match e.content {
            Some(c) => text_of(c),
            None => Seq::empty(),
        }
    } else {
        Seq::empty()
    }
}

/// The final-response text of a stream of events.
pub open spec fn final_text(events: Seq<EventView>) -> Seq<char>
    decreases events.len(),
{
    if events.len() == 0 {
        Seq::empty()
    } else {
        final_text(events.drop_last()) + final_text_of(events.last())
    }
}

/// Gathers every item of a stream; the first error ends the collection.
pub struct Collector<T> {
    items: Vec<T>,
}

impl<T> Collector<T> {
    pub closed spec fn spec_items(&self) -> Seq<T> {
        self.items@
    }

    pub fn new() -> (r: Collector<T>)
        ensures
            r.spec_items() == Seq::<T>::empty(),
    {
        Collector { items: Vec::new() }
    }

    /// Takes in the stream's next item; an error comes back, and ends the collection.
    pub fn absorb<E>(&mut self, item: Result<T, E>) -> (r: Option<E>)
        ensures
            match item {
                Ok(t) => r is None && final(self).spec_items() == old(self).spec_items().push(t),
                Err(e) => r == Some(e) && final(self).spec_items() == old(self).spec_items(),
            },
    {
        match item {
            Ok(t) => {
                self.items.push(t);
                None
            },
            Err(e) => Some(e),
        }
    }

    pub fn into_items(self) -> (r: Vec<T>)
        ensures
            r@ == self.spec_items(),
    {
        self.items
    }
}

/// Gathers the text of a stream's final responses; the first error ends it.
pub struct FinalTextCollector {
    text: String,
}

impl FinalTextCollector {
    pub closed spec fn spec_text(&self) -> Seq<char> {
        self.text@
    }

    pub fn new() -> (r: FinalTextCollector)
        ensures
            r.spec_text() == Seq::<char>::empty(),
    {
        FinalTextCollector { text: String::new() }
    }

    /// Takes in the stream's next item; an error comes back, and ends the collection.
    pub fn absorb<E>(&mut self, item: Result<Event, E>) -> (r: Option<E>)
        ensures
            match item {
                Ok(ev) => r is None && final(self).spec_text() == old(self).spec_text() + final_text_of(ev@),
                Err(e) => r == Some(e) && final(self).spec_text() == old(self).spec_text(),
            },
    {
        match item {
            Ok(ev) => {
                if ev.is_final_response() {
                    match &ev.content {
                        Some(c) => {
                            let t = c.get_text();
                            self.text.append(t.as_str());
                        },
                        None => {
                            assert(self.text@ =~= old(self).text@ + final_text_of(ev@));
                        },
                    }
                } else {
                    assert(self.text@ =~= old(self).text@ + final_text_of(ev@));
                }
                None
            },
            Err(e) => Some(e),
        }
    }

    pub fn text(&self) -> (r: &String)
        ensures
            r@ == self.spec_text(),
    {
        &self.text
    }

    pub fn into_text(self) -> (r: String)
        ensures
            r@ == self.spec_text(),
    {
        self.text
    }
}

pub open spec fn event_views(events: Seq<Event>) -> Seq<EventView> {
    events.map_values(|e: Event| e@)
}

/// The final-response text of `events`, all at once.
pub fn final_response_text(events: &Vec<Event>) -> (r: String)
    ensures
        r@ == final_text(event_views(events@)),
{
    let mut text = String::new();
    let mut i: usize = 0;
    while i < events.len()
        invariant
            i <= events.len(),
            text@ == final_text(event_views(events@.take(i as int))),
        decreases events.len() - i,
    {
        assert(event_views(events@.take(i as int + 1)).drop_last() =~= event_views(events@.take(i as int)));
        let e = &events[i];
        if e.is_final_response() {
            match &e.content {
                Some(c) => {
                    let t = c.get_text();
                    text.append(t.as_str());
                },
                None => {
                    assert(text@ =~= text@ + final_text_of(e@));
                },
            }
        } else {
            assert(text@ =~= text@ + final_text_of(e@));
        }
        i = i + 1;
    }
    assert(events@.take(i as int) =~= events@);
    text
}

} // verus!
