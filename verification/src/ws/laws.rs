//! What holds of every session.
//!
//! The laws are stated over `Session`, the model that the contracts of `Ws`
//! are stated over, so each of them holds of every `Ws`.

use super::channels::{
    lemma_first_inactive, lemma_first_private, lemma_merged_contains, lemma_merged_no_duplicates,
    lemma_removed_contains, lemma_removed_no_duplicates,
};
use super::error::ErrorView;
use super::model::{ChannelView, Data, Response, ResponseData, Type};
use super::frame::subscription_text;
use super::session::{
    confirms, events, first_inactive, first_private, removed, Call, Inbound, Session, StepView,
};
use vstd::prelude::*;

verus! {

/// The frames of a list as the driver reports them.
pub open spec fn reported(frames: Seq<Response>) -> Seq<Inbound> {
    frames.map_values(|frame: Response| Inbound::Frame(frame))
}

/// Whether a session is authenticated is settled when it is opened, and so
/// are its settings: no request and no report changes any of them.
pub proof fn credentials_are_settled_at_the_opening(
    session: Session,
    channels: Seq<ChannelView>,
    inbound: Inbound,
)
    ensures
        session.subscribe(channels).0.authenticated == session.authenticated,
        session.unsubscribe(channels).0.authenticated == session.authenticated,
        session.unsubscribe_all().0.authenticated == session.authenticated,
        session.next_response(inbound).0.authenticated == session.authenticated,
        session.poll_next().0.authenticated == session.authenticated,
        session.subscribe(channels).0.bound == session.bound,
        session.unsubscribe(channels).0.bound == session.bound,
        session.unsubscribe_all().0.bound == session.bound,
        session.next_response(inbound).0.bound == session.bound,
        session.poll_next().0.bound == session.bound,
        session.subscribe(channels).0.period == session.period,
        session.unsubscribe(channels).0.period == session.period,
        session.unsubscribe_all().0.period == session.period,
        session.next_response(inbound).0.period == session.period,
        session.poll_next().0.period == session.period,
{
}

/// A session is well formed as it is opened, and every request keeps it so.
pub proof fn requests_keep_sessions_well_formed(session: Session, channels: Seq<ChannelView>)
    requires
        session.wf(),
    ensures
        Session::opened(session.authenticated, session.period, session.bound).wf(),
        session.subscribe(channels).0.wf(),
        session.unsubscribe(channels).0.wf(),
        session.unsubscribe_all().0.wf(),
        session.poll_next().0.wf(),
{
    lemma_first_private(channels);
    lemma_merged_no_duplicates(session.active, channels);
    lemma_merged_no_duplicates(session.active, channels.take(first_private(channels)));
}

/// Whatever the driver reports, the session stays well formed.
pub proof fn reports_keep_sessions_well_formed(session: Session, inbound: Inbound)
    requires
        session.wf(),
    ensures
        session.next_response(inbound).0.wf(),
{
    if let Some(call) = session.call {
        lemma_removed_no_duplicates(session.active, call.channels);
    }
}

/// A subscribe request in flight, and a session without a request in
/// flight, keep the active channels as they are, whatever the driver
/// reports.
pub proof fn only_unsubscribing_ends_a_subscription(session: Session, inbounds: Seq<Inbound>)
    requires
        session.wf(),
        session.call is Some ==> session.call.unwrap().subscribe,
    ensures
        session.after(inbounds).wf(),
        session.after(inbounds).active == session.active,
        session.after(inbounds).call is Some ==> session.after(inbounds).call.unwrap().subscribe,
    decreases inbounds.len(),
{
    if inbounds.len() > 0 {
        only_unsubscribing_ends_a_subscription(session, inbounds.drop_last());
    }
}

/// Once a subscribe request was accepted, the active channels are, as a set,
/// those that were active before together with those requested, and none of
/// them is active twice: when the request completes, and after whatever else
/// the driver reports.
pub proof fn subscribing_adds_the_requested_channels(
    session: Session,
    channels: Seq<ChannelView>,
    inbounds: Seq<Inbound>,
)
    requires
        session.wf(),
        session.subscribe(channels).1 is Ok,
    ensures
        session.subscribe(channels).0.after(inbounds).active.to_set()
            == session.active.to_set().union(channels.to_set()),
        session.subscribe(channels).0.after(inbounds).active.no_duplicates(),
{
    let started = session.subscribe(channels).0;
    requests_keep_sessions_well_formed(session, channels);
    only_unsubscribing_ends_a_subscription(started, inbounds);
    lemma_merged_contains(session.active, channels);
    assert(started.active.to_set() =~= session.active.to_set().union(channels.to_set()));
}

/// An unsubscribe request that names a channel which is not active is
/// refused with `NotSubscribedToThisChannel`, and the session stays as it
/// was.
pub proof fn unsubscribing_from_an_inactive_channel_is_refused(
    session: Session,
    channels: Seq<ChannelView>,
    i: int,
)
    requires
        0 <= i < channels.len(),
        !session.active.contains(channels[i]),
    ensures
        session.unsubscribe(channels).0 == session,
        session.unsubscribe(channels).1 matches Err(ErrorView::NotSubscribedToThisChannel(named))
            && channels.contains(named) && !session.active.contains(named),
{
    lemma_first_inactive(session.active, channels);
}

/// A request to unsubscribe from every active channel is never refused.
pub proof fn unsubscribe_all_is_accepted(session: Session)
    ensures
        session.unsubscribe_all().1 is Ok,
{
    lemma_first_inactive(session.active, session.active);
    let i = first_inactive(session.active, session.active);
    if i < session.active.len() {
        assert(session.active.contains(session.active[i]));
    }
}

/// While an unsubscribe request is in flight, it stays the request that was
/// made and the active channels stay as they are.
pub proof fn unsubscribing_waits_for_the_last_confirmation(
    session: Session,
    inbounds: Seq<Inbound>,
)
    requires
        session.wf(),
        forall|k: int| 0 <= k <= inbounds.len() ==> (#[trigger] session.after(
            inbounds.take(k),
        )).call is Some,
    ensures
        session.after(inbounds).wf(),
        session.after(inbounds).active == session.active,
        session.after(inbounds).call.unwrap().channels == session.call.unwrap().channels,
        session.after(inbounds).call.unwrap().subscribe == session.call.unwrap().subscribe,
    decreases inbounds.len(),
{
    if inbounds.len() == 0 {
        assert(inbounds.take(0) =~= inbounds);
    } else {
        let before = inbounds.drop_last();
        assert forall|k: int| 0 <= k <= before.len() implies (#[trigger] session.after(
            before.take(k),
        )).call is Some by {
            assert(before.take(k) =~= inbounds.take(k));
        }
        unsubscribing_waits_for_the_last_confirmation(session, before);
        assert(inbounds.take(inbounds.len() as int) =~= inbounds);
        assert(before.take(before.len() as int) =~= before);
        if let Some(call) = session.after(before).call {
            lemma_removed_no_duplicates(session.after(before).active, call.channels);
        }
    }
}

/// When an unsubscribe request completes, the active channels are, as a set,
/// those that were active before without those requested, and none of them
/// is active twice. Until then they are all still active.
pub proof fn unsubscribing_removes_the_requested_channels(
    session: Session,
    channels: Seq<ChannelView>,
    inbounds: Seq<Inbound>,
    last: Inbound,
)
    requires
        session.wf(),
        session.unsubscribe(channels).1 is Ok,
        forall|k: int| 0 <= k <= inbounds.len() ==> (#[trigger] session.unsubscribe(
            channels,
        ).0.after(inbounds.take(k))).call is Some,
        session.unsubscribe(channels).0.after(inbounds).next_response(last).1 == Ok::<
            StepView,
            ErrorView,
        >(StepView::Done),
    ensures
        session.unsubscribe(channels).0.after(inbounds).active == session.active,
        session.unsubscribe(channels).0.after(inbounds).next_response(last).0.active.to_set()
            == session.active.to_set().difference(channels.to_set()),
        session.unsubscribe(channels).0.after(inbounds).next_response(
            last,
        ).0.active.no_duplicates(),
{
    let started = session.unsubscribe(channels).0;
    lemma_first_inactive(session.active, channels);
    assert(inbounds.take(0) =~= Seq::<Inbound>::empty());
    assert(started.after(inbounds.take(0)).call is Some);
    unsubscribing_waits_for_the_last_confirmation(started, inbounds);
    let waiting = started.after(inbounds);
    let done = waiting.next_response(last).0;
    reports_keep_sessions_well_formed(waiting, last);
    lemma_removed_contains(session.active, channels);
    assert(done.active == removed(session.active, channels));
    assert(done.active.to_set() =~= session.active.to_set().difference(channels.to_set()));
}

/// A frame with a list of trades gives one event for each trade, in the
/// list's order, each with the frame's market.
pub proof fn a_batch_gives_one_event_for_each_record(response: Response, trades: Vec<
    crate::rest::Trade,
>)
    requires
        response.response_type != Type::Pong,
        response.data == Some(ResponseData::Trades(trades)),
    ensures
        events(response).len() == trades@.len(),
        forall|i: int|
            0 <= i < trades@.len() ==> (#[trigger] events(response)[i]) == (
                response.market,
                Data::Trade(trades@[i]),
            ),
{
}

/// The consumer is sent to the socket only when no event waits: a take
/// hands out nothing exactly when the queue is empty, and then changes
/// nothing.
pub proof fn nothing_is_read_while_events_wait(session: Session)
    ensures
        session.poll_next().1 is None <==> session.queue.len() == 0,
        session.poll_next().1 is None ==> session.poll_next().0 == session,
        session.poll_next().1 is Some ==> session.poll_next().1 == Some(session.queue[0])
            && session.poll_next().0.queue == session.queue.skip(1),
{
}

/// Taking as many events as wait hands out the queue, oldest first.
pub proof fn takes_follow_the_queue(session: Session, n: nat)
    requires
        n <= session.queue.len(),
    ensures
        session.taken(n) == session.queue.take(n as int),
    decreases n,
{
    if n == 0 {
        assert(session.queue.take(0) =~= Seq::<super::model::Event>::empty());
    } else {
        let next = session.poll_next().0;
        takes_follow_the_queue(next, (n - 1) as nat);
        assert(session.queue.take(n as int) =~= seq![session.queue.first()] + next.queue.take(
            n - 1,
        ));
    }
}

/// Events reach the consumer in the order in which their frames arrived,
/// and those of one frame in the order of its records: after two frames, the
/// consumer is handed what was waiting before, then the events of the first
/// frame, then those of the second.
pub proof fn events_are_delivered_in_arrival_order(
    session: Session,
    first: Response,
    second: Response,
)
    ensures
        ({
            let queued = session.handle_response(first).handle_response(second);
            queued.taken(queued.queue.len()) == session.queue + events(first) + events(second)
        }),
{
    let queued = session.handle_response(first).handle_response(second);
    takes_follow_the_queue(queued, queued.queue.len());
    assert(queued.queue.take(queued.queue.len() as int) =~= queued.queue);
}

/// Every frame is queued but the confirmation that a request in flight
/// awaits, which is consumed: no record is lost while a request waits.
pub proof fn nothing_is_lost_while_waiting(session: Session, response: Response)
    ensures
        session.subscribe_or_unsubscribe(response).0.queue == if session.call is Some
            && response.response_type != Type::Pong && confirms(
            session.call.unwrap().subscribe,
            response.response_type,
        ) {
            session.queue
        } else {
            session.queue + events(response)
        },
{
    if response.response_type == Type::Pong {
        assert(session.queue + events(response) =~= session.queue);
    }
}

/// The events of a list of frames: those of each frame in turn.
pub open spec fn all_events(frames: Seq<Response>) -> Seq<super::model::Event>
    decreases frames.len(),
{
    if frames.len() == 0 {
        Seq::empty()
    } else {
        all_events(frames.drop_last()) + events(frames.last())
    }
}

/// With no request in flight, the frames that arrive are queued one after
/// the other: behind what was waiting come the events of each frame in the
/// order of arrival, and nothing else changes.
pub proof fn a_stream_queues_each_frame_in_turn(session: Session, frames: Seq<Response>)
    requires
        session.call is None,
    ensures
        session.after(reported(frames)) == (Session {
            queue: session.queue + all_events(frames),
            ..session
        }),
    decreases frames.len(),
{
    if frames.len() == 0 {
        assert(reported(frames) =~= Seq::<Inbound>::empty());
        assert(session.queue + all_events(frames) =~= session.queue);
    } else {
        a_stream_queues_each_frame_in_turn(session, frames.drop_last());
        assert(reported(frames).drop_last() =~= reported(frames.drop_last()));
        assert(reported(frames).last() == Inbound::Frame(frames.last()));
        let before = session.after(reported(frames.drop_last()));
        if frames.last().response_type == Type::Pong {
            assert(before.queue + events(frames.last()) =~= before.queue);
        }
        assert(session.queue + all_events(frames.drop_last()) + events(frames.last())
            =~= session.queue + all_events(frames));
    }
}

/// A subscribe request for an account channel on a session without
/// credentials is refused with `SocketNotAuthenticated`: it hands out no
/// frame, takes up no request and queues nothing.
pub proof fn account_channels_need_credentials(
    session: Session,
    channels: Seq<ChannelView>,
    i: int,
)
    requires
        !session.authenticated,
        0 <= i < channels.len(),
        channels[i].is_private(),
    ensures
        session.subscribe(channels).1 == Err::<StepView, ErrorView>(
            ErrorView::SocketNotAuthenticated,
        ),
        session.subscribe(channels).0.call == session.call,
        session.subscribe(channels).0.queue == session.queue,
{
    lemma_first_private(channels);
}

/// A pong gives no event: however it reaches the session, the queue stays
/// as it is, and so does a request in flight.
pub proof fn a_pong_is_never_delivered(session: Session, pong: Response)
    requires
        pong.response_type == Type::Pong,
    ensures
        events(pong) == Seq::<super::model::Event>::empty(),
        session.handle_response(pong) == session,
        session.subscribe_or_unsubscribe(pong) == (session, Ok::<StepView, ErrorView>(StepView::Wait)),
        session.next_response(Inbound::Frame(pong)) == (
            session,
            Ok::<StepView, ErrorView>(StepView::Wait),
        ),
{
    assert(session.queue + events(pong) =~= session.queue);
}

/// A tick of the keepalive timer changes nothing in the session.
pub proof fn a_ping_changes_nothing(session: Session)
    ensures
        session.next_response(Inbound::Tick).0 == session,
        session.next_response(Inbound::Tick).1 == Ok::<StepView, ErrorView>(
            StepView::Send(super::frame::ping_text()),
        ),
{
}

/// While a request waits for a confirmation, each frame that is neither a
/// pong nor that confirmation is answered with `Wait` until as many have
/// arrived as the bound allows; that frame ends the request with
/// `MissingSubscriptionConfirmation`. With the usual bound, and counted from
/// the moment a channel's frame went out, that is the hundredth frame.
pub proof fn a_missing_confirmation_ends_the_request(session: Session, frames: Seq<Response>)
    requires
        session.wf(),
        session.call is Some,
        frames.len() == session.bound - session.call.unwrap().seen,
        forall|i: int|
            0 <= i < frames.len() ==> (#[trigger] frames[i]).response_type != Type::Pong
                && !confirms(session.call.unwrap().subscribe, frames[i].response_type),
    ensures
        forall|k: int|
            0 <= k < frames.len() - 1 ==> (#[trigger] session.after(
                reported(frames.take(k)),
            )).next_response(Inbound::Frame(frames[k])).1 == Ok::<StepView, ErrorView>(
                StepView::Wait,
            ),
        session.after(reported(frames.drop_last())).next_response(
            Inbound::Frame(frames.last()),
        ).1 == Err::<StepView, ErrorView>(ErrorView::MissingSubscriptionConfirmation),
        session.after(reported(frames)).call is None,
{
    assert forall|k: int| 0 <= k < frames.len() implies {
        let waiting = #[trigger] session.after(reported(frames.take(k)));
        &&& waiting.wf()
        &&& waiting.bound == session.bound
        &&& waiting.call is Some
        &&& waiting.call.unwrap().subscribe == session.call.unwrap().subscribe
        &&& waiting.call.unwrap().seen == session.call.unwrap().seen + k
    } by {
        lemma_counting(session, frames, k);
    }
    lemma_counting(session, frames, frames.len() - 1);
    assert(frames.take(frames.len() - 1) =~= frames.drop_last());
    assert(reported(frames).drop_last() =~= reported(frames.drop_last()));
    assert(reported(frames).last() == Inbound::Frame(frames.last()));
}

/// A request that ends for want of a confirmation takes no channel out of
/// the active ones and puts none in: the channels of a subscribe request,
/// active since it was taken up, stay active, and so do those of an
/// unsubscribe request, confirmed or not.
pub proof fn a_failed_request_leaves_the_active_channels(session: Session, inbound: Inbound)
    requires
        session.next_response(inbound).1 is Err,
    ensures
        session.next_response(inbound).1 == Err::<StepView, ErrorView>(
            ErrorView::MissingSubscriptionConfirmation,
        ),
        session.call is Some,
        session.next_response(inbound).0.call is None,
        session.next_response(inbound).0.active == session.active,
{
}

/// The frames of a request go out in the order of its channels, each when
/// the channel before it is confirmed: the confirmation that arrives `k`-th
/// is answered with the frame for the channel `k` places on.
pub proof fn frames_go_out_in_request_order(session: Session, confirmations: Seq<Response>)
    requires
        session.wf(),
        session.call is Some,
        session.call.unwrap().index + confirmations.len() < session.call.unwrap().channels.len(),
        forall|i: int|
            0 <= i < confirmations.len() ==> (#[trigger] confirmations[i]).response_type
                != Type::Pong && confirms(
                session.call.unwrap().subscribe,
                confirmations[i].response_type,
            ),
    ensures
        session.after(reported(confirmations)).wf(),
        session.after(reported(confirmations)).call == Some(
            Call {
                index: session.call.unwrap().index + confirmations.len(),
                seen: if confirmations.len() == 0 {
                    session.call.unwrap().seen
                } else {
                    0
                },
                ..session.call.unwrap()
            },
        ),
        session.after(reported(confirmations)).active == session.active,
        confirmations.len() > 0 ==> session.after(
            reported(confirmations.drop_last()),
        ).next_response(Inbound::Frame(confirmations.last())).1 == Ok::<StepView, ErrorView>(
            StepView::Send(
                subscription_text(
                    session.call.unwrap().subscribe,
                    session.call.unwrap().channels[session.call.unwrap().index
                        + confirmations.len()],
                ),
            ),
        ),
    decreases confirmations.len(),
{
    if confirmations.len() > 0 {
        let before = confirmations.drop_last();
        assert forall|i: int| 0 <= i < before.len() implies (#[trigger] before[i]).response_type
            != Type::Pong && confirms(session.call.unwrap().subscribe, before[i].response_type) by {
            assert(before[i] == confirmations[i]);
        }
        frames_go_out_in_request_order(session, before);
        assert(reported(confirmations).drop_last() =~= reported(before));
        assert(reported(confirmations).last() == Inbound::Frame(confirmations.last()));
        assert(confirmations[confirmations.len() - 1] == confirmations.last());
    } else {
        assert(reported(confirmations) =~= Seq::<Inbound>::empty());
    }
}

/// After `k` frames that are neither a pong nor the awaited confirmation,
/// fewer than the wait allows, the request is in flight and has counted
/// them.
proof fn lemma_counting(session: Session, frames: Seq<Response>, k: int)
    requires
        session.wf(),
        session.call is Some,
        0 <= k <= frames.len(),
        k < session.bound - session.call.unwrap().seen,
        forall|i: int|
            0 <= i < frames.len() ==> (#[trigger] frames[i]).response_type != Type::Pong
                && !confirms(session.call.unwrap().subscribe, frames[i].response_type),
    ensures
        session.after(reported(frames.take(k))).wf(),
        session.after(reported(frames.take(k))).bound == session.bound,
        session.after(reported(frames.take(k))).call is Some,
        session.after(reported(frames.take(k))).call.unwrap().subscribe
            == session.call.unwrap().subscribe,
        session.after(reported(frames.take(k))).call.unwrap().seen == session.call.unwrap().seen
            + k,
    decreases k,
{
    if k > 0 {
        lemma_counting(session, frames, k - 1);
        assert(reported(frames.take(k)).drop_last() =~= reported(frames.take(k - 1)));
        assert(reported(frames.take(k)).last() == Inbound::Frame(frames[k - 1]));
    } else {
        assert(reported(frames.take(0)) =~= Seq::<Inbound>::empty());
    }
}

} // verus!
