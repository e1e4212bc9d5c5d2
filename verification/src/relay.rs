//! The way of requests from a socket's queue to the application.

use vstd::prelude::*;

verus! {

/// What came of the last thing that was asked.
#[derive(Debug)]
pub enum RelayEvent<R> {
    /// The queue gave a request, or has ended.
    Received(Option<R>),
    /// The request was forwarded, or nobody takes requests any more.
    Forwarded(bool),
}

/// What the caller does next.
#[derive(Debug)]
pub enum RelayAction<R> {
    /// Waits for the next request of the queue.
    Receive,
    /// Forwards a request to the application.
    Forward(R),
    /// Ends the stream of requests.
    Stop,
}

/// What follows an event.
pub open spec fn relayed<R>(event: RelayEvent<R>) -> RelayAction<R> {
    match event {
        RelayEvent::Received(Some(request)) => RelayAction::Forward(request),
        RelayEvent::Received(None) => RelayAction::Stop,
        RelayEvent::Forwarded(true) => RelayAction::Receive,
        RelayEvent::Forwarded(false) => RelayAction::Stop,
    }
}

/// Forwards the requests of a queue, one after the other, until the queue ends or nobody
/// takes them.
pub fn stream_requests<R>(event: RelayEvent<R>) -> (action: RelayAction<R>)
    ensures
        action == relayed(event),
{
    match event {
        RelayEvent::Received(Some(request)) => RelayAction::Forward(request),
        RelayEvent::Received(None) => RelayAction::Stop,
        RelayEvent::Forwarded(forwarded) => if forwarded {
            RelayAction::Receive
        } else {
            RelayAction::Stop
        },
    }
}

/// What was asked, and what came of it.
pub struct RelayTurn<R> {
    pub asked: RelayAction<R>,
    pub event: RelayEvent<R>,
}

/// Whether `event` answers what was asked.
pub open spec fn answers<R>(action: RelayAction<R>, event: RelayEvent<R>) -> bool {
    match action {
        RelayAction::Receive => event is Received,
        RelayAction::Forward(_) => event is Forwarded,
        RelayAction::Stop => false,
    }
}

/// Whether the turn at `index` is in its place: the first one waits for a request, and each
/// later one does what the event before it decided.
pub open spec fn in_place<R>(turns: Seq<RelayTurn<R>>, index: int) -> bool {
    &&& answers(turns[index].asked, turns[index].event)
    &&& turns[index].asked == if index == 0 {
        RelayAction::<R>::Receive
    } else {
        relayed(turns[index - 1].event)
    }
}

/// Whether `turns` are a stream of requests, from its beginning.
pub open spec fn relay_run<R>(turns: Seq<RelayTurn<R>>) -> bool {
    forall|i: int| 0 <= i < turns.len() ==> #[trigger] in_place(turns, i)
}

/// The requests that the queue gave, in their order.
pub open spec fn received<R>(turns: Seq<RelayTurn<R>>) -> Seq<R>
    decreases turns.len(),
{
    if turns.len() == 0 {
        Seq::empty()
    } else {
        match turns.last().event {
            RelayEvent::Received(Some(request)) => received(turns.drop_last()).push(request),
            _ => received(turns.drop_last()),
        }
    }
}

/// The requests that were forwarded to the application, in their order.
pub open spec fn forwarded<R>(turns: Seq<RelayTurn<R>>) -> Seq<R>
    decreases turns.len(),
{
    if turns.len() == 0 {
        Seq::empty()
    } else {
        match turns.last().asked {
            RelayAction::Forward(request) => forwarded(turns.drop_last()).push(request),
            _ => forwarded(turns.drop_last()),
        }
    }
}

/// The requests that are forwarded are those that were received, each once and in their order;
/// only the one that was received last may be still to be forwarded.
pub proof fn law_requests_keep_their_order<R>(turns: Seq<RelayTurn<R>>)
    requires
        relay_run(turns),
        turns.len() > 0,
    ensures
        match turns.last().event {
            RelayEvent::Received(Some(request)) => received(turns) == forwarded(turns).push(
                request,
            ),
            _ => received(turns) == forwarded(turns),
        },
    decreases turns.len(),
{
    let before = turns.drop_last();
    let last: int = turns.len() - 1;
    assert(in_place(turns, last));
    assert(turns.last() == turns[last]);
    if last > 0 {
        assert forall|i: int| 0 <= i < before.len() implies #[trigger] in_place(before, i) by {
            assert(in_place(turns, i));
        }
        law_requests_keep_their_order(before);
        assert(before.last().event == turns[last - 1].event);
    } else {
        assert(received(before) == Seq::<R>::empty());
        assert(forwarded(before) == Seq::<R>::empty());
    }
}

/// A stream ends when the queue has ended or nobody takes requests, and not before; else every
/// request that is received is forwarded at once, and after it the next one is waited for.
pub proof fn law_streams_end_with_their_ends<R>(event: RelayEvent<R>)
    ensures
        relayed(event) is Stop <==> (event is Received && event->Received_0 is None) || (event
            is Forwarded && !event->Forwarded_0),
        event matches RelayEvent::Received(Some(request)) ==> relayed(event) == RelayAction::Forward(
            request,
        ),
        event is Forwarded && event->Forwarded_0 ==> relayed(event) is Receive,
        relayed(event) is Receive ==> event is Forwarded,
{
}

} // verus!
