//! The session as a mathematical state machine.
//!
//! `Session` is the model that the contracts of `Ws` are stated over: each
//! operation of `Ws` is one of the transitions below.

use super::error::{Error, ErrorView};
use super::frame::{ping_text, subscription_text};
use super::model::{ChannelView, Data, Event, Response, ResponseData, Type};
use vstd::prelude::*;

verus! {

/// What the driver of a session does next.
#[derive(Debug)]
pub enum Step {
    /// Send this text frame, then wait for the timer or the next frame.
    Send(String),
    /// Wait for the timer or the next frame.
    Wait,
    /// The request in flight is complete.
    Done,
}

/// A step as a mathematical value.
pub enum StepView {
    Send(Seq<char>),
    Wait,
    Done,
}

impl View for Step {
    type V = StepView;

    open spec fn view(&self) -> StepView {
        match self {
            Step::Send(frame) => StepView::Send(frame@),
            Step::Wait => StepView::Wait,
            Step::Done => StepView::Done,
        }
    }
}

/// What the driver reports to a session that waits.
#[derive(Debug)]
pub enum Inbound {
    /// The keepalive timer fired.
    Tick,
    /// A text frame arrived and was decoded.
    Frame(Response),
    /// A frame arrived that carries no text.
    Other,
}

/// What an operation of the session answers: the next step, or the error the
/// operation ends with.
pub type Reply = Result<StepView, ErrorView>;

/// The view of an operation's answer.
pub open spec fn reply(answer: Result<Step, Error>) -> Reply {
    match answer {
        Ok(step) => Ok(step@),
        Err(error) => Err(error@),
    }
}

/// The events that a frame gives rise to: none for a pong and none without a
/// payload, one for a single record, one for each record of a list, in the
/// list's order, each with the frame's market.
pub open spec fn events(response: Response) -> Seq<Event> {
    if response.response_type == Type::Pong {
        Seq::empty()
    } else {
        match response.data {
            None => Seq::empty(),
            Some(ResponseData::Trades(trades)) => Seq::new(
                trades@.len(),
                |i: int| (response.market, Data::Trade(trades@[i])),
            ),
            Some(ResponseData::OrderbookData(orderbook)) => seq![
                (response.market, Data::OrderbookData(orderbook)),
            ],
            Some(ResponseData::Fill(fill)) => seq![(response.market, Data::Fill(fill))],
            Some(ResponseData::Ticker(ticker)) => seq![(response.market, Data::Ticker(ticker))],
            Some(ResponseData::Order(order)) => seq![(response.market, Data::Order(order))],
        }
    }
}

/// Whether a frame of this kind confirms a request of the given direction.
pub open spec fn confirms(subscribe: bool, response_type: Type) -> bool {
    if subscribe {
        response_type == Type::Subscribed
    } else {
        response_type == Type::Unsubscribed
    }
}

/// The active channels after `channels` were added one by one, each unless it
/// was there already.
pub open spec fn merged(active: Seq<ChannelView>, channels: Seq<ChannelView>) -> Seq<ChannelView>
    decreases channels.len(),
{
    if channels.len() == 0 {
        active
    } else {
        let before = merged(active, channels.drop_last());
        if before.contains(channels.last()) {
            before
        } else {
            before.push(channels.last())
        }
    }
}

/// The active channels without those that `channels` names, the others in
/// their order.
pub open spec fn removed(active: Seq<ChannelView>, channels: Seq<ChannelView>) -> Seq<ChannelView>
    decreases active.len(),
{
    if active.len() == 0 {
        active
    } else {
        let before = removed(active.drop_last(), channels);
        if channels.contains(active.last()) {
            before
        } else {
            before.push(active.last())
        }
    }
}

/// The place of the first account channel in `channels`, or their number if
/// there is none.
pub open spec fn first_private(channels: Seq<ChannelView>) -> int
    decreases channels.len(),
{
    if channels.len() == 0 {
        0
    } else if channels.first().is_private() {
        0
    } else {
        1 + first_private(channels.drop_first())
    }
}

/// The place of the first of `channels` that is not active, or their number
/// if all are.
pub open spec fn first_inactive(active: Seq<ChannelView>, channels: Seq<ChannelView>) -> int
    decreases channels.len(),
{
    if channels.len() == 0 {
        0
    } else if !active.contains(channels.first()) {
        0
    } else {
        1 + first_inactive(active, channels.drop_first())
    }
}

/// A subscribe or unsubscribe request in flight.
pub struct Call {
    /// Whether the request subscribes.
    pub subscribe: bool,
    /// The channels of the request, in its order.
    pub channels: Seq<ChannelView>,
    /// The place of the channel whose confirmation is awaited; the frames for
    /// the channels before it were confirmed.
    pub index: int,
    /// How many frames arrived since that channel's frame was sent, none of
    /// them its confirmation.
    pub seen: int,
}

/// The state of a session.
pub struct Session {
    /// Whether the session was opened with credentials.
    pub authenticated: bool,
    /// The active channels, oldest first.
    pub active: Seq<ChannelView>,
    /// The events not yet delivered, oldest first.
    pub queue: Seq<Event>,
    /// The request in flight, if there is one.
    pub call: Option<Call>,
    /// The seconds between two ticks of the keepalive timer.
    pub period: int,
    /// How many frames a request waits through for one confirmation.
    pub bound: int,
}

impl Session {
    /// What holds of every session: neither setting is zero, no channel is
    /// active twice, and a request in flight awaits one of its channels and
    /// has not exhausted its wait.
    pub open spec fn wf(self) -> bool {
        &&& self.period >= 1
        &&& self.bound >= 1
        &&& self.active.no_duplicates()
        &&& match self.call {
            Some(call) => 0 <= call.index < call.channels.len() && 0 <= call.seen < self.bound,
            None => true,
        }
    }

    /// The session as it is opened.
    pub open spec fn opened(authenticated: bool, period: int, bound: int) -> Session {
        Session {
            authenticated,
            active: Seq::empty(),
            queue: Seq::empty(),
            call: None,
            period,
            bound,
        }
    }

    /// Takes up a request whose channels were accepted: with no channel the
    /// request is complete, else the frame for its first channel goes out.
    pub open spec fn begin(self, subscribe: bool, channels: Seq<ChannelView>) -> (Session, Reply) {
        if channels.len() == 0 {
            (Session { call: None, ..self }, Ok(StepView::Done))
        } else {
            (
                Session {
                    call: Some(Call { subscribe, channels, index: 0, seen: 0 }),
                    ..self
                },
                Ok(StepView::Send(subscription_text(subscribe, channels[0]))),
            )
        }
    }

    /// Whether a subscribe request for `channels` is refused: the session has
    /// no credentials and one of the channels is an account channel.
    pub open spec fn refuses(self, channels: Seq<ChannelView>) -> bool {
        !self.authenticated && first_private(channels) < channels.len()
    }

    /// A subscribe request. The channels become active as the request is
    /// taken up, one by one in its order; a refused request stops at its
    /// first account channel and sends nothing.
    pub open spec fn subscribe(self, channels: Seq<ChannelView>) -> (Session, Reply) {
        if self.refuses(channels) {
            (
                Session {
                    active: merged(self.active, channels.take(first_private(channels))),
                    ..self
                },
                Err(ErrorView::SocketNotAuthenticated),
            )
        } else {
            Session { active: merged(self.active, channels), ..self }.begin(true, channels)
        }
    }

    /// An unsubscribe request. It is refused, and nothing changes, if one of
    /// the channels is not active; the error names the first such channel.
    pub open spec fn unsubscribe(self, channels: Seq<ChannelView>) -> (Session, Reply) {
        let i = first_inactive(self.active, channels);
        if i < channels.len() {
            (self, Err(ErrorView::NotSubscribedToThisChannel(channels[i])))
        } else {
            self.begin(false, channels)
        }
    }

    /// A request to unsubscribe from every active channel.
    pub open spec fn unsubscribe_all(self) -> (Session, Reply) {
        self.unsubscribe(self.active)
    }

    /// The request in flight, if there is one, is given up; nothing else
    /// changes.
    pub open spec fn abandon(self) -> Session {
        Session { call: None, ..self }
    }

    /// A frame's events join the queue, behind those that wait there.
    pub open spec fn handle_response(self, response: Response) -> Session {
        Session { queue: self.queue + events(response), ..self }
    }

    /// A frame arrives. A pong is dropped.
    ///
    /// While a request is in flight, the confirmation it awaits moves it to
    /// its next channel, whose frame goes out, or completes it; a completed
    /// unsubscribe request takes its channels out of the active ones. Any
    /// other frame is queued and counted, and the request fails when the
    /// count reaches the bound. With no request in flight the frame is
    /// queued.
    pub open spec fn subscribe_or_unsubscribe(self, response: Response) -> (Session, Reply) {
        if response.response_type == Type::Pong {
            (self, Ok(StepView::Wait))
        } else if self.call is None {
            (self.handle_response(response), Ok(StepView::Wait))
        } else {
            let call = self.call.unwrap();
            if confirms(call.subscribe, response.response_type) {
                if call.index + 1 < call.channels.len() {
                    (
                        Session {
                            call: Some(Call { index: call.index + 1, seen: 0, ..call }),
                            ..self
                        },
                        Ok(
                            StepView::Send(
                                subscription_text(call.subscribe, call.channels[call.index + 1]),
                            ),
                        ),
                    )
                } else if call.subscribe {
                    (Session { call: None, ..self }, Ok(StepView::Done))
                } else {
                    (
                        Session {
                            call: None,
                            active: removed(self.active, call.channels),
                            ..self
                        },
                        Ok(StepView::Done),
                    )
                }
            } else {
                let queued = self.handle_response(response);
                if call.seen + 1 >= self.bound {
                    (
                        Session { call: None, ..queued },
                        Err(ErrorView::MissingSubscriptionConfirmation),
                    )
                } else {
                    (
                        Session { call: Some(Call { seen: call.seen + 1, ..call }), ..queued },
                        Ok(StepView::Wait),
                    )
                }
            }
        }
    }

    /// The driver reports what the wait ended with. A tick asks for a ping
    /// and changes nothing; a frame without text is dropped.
    pub open spec fn next_response(self, inbound: Inbound) -> (Session, Reply) {
        match inbound {
            Inbound::Tick => (self, Ok(StepView::Send(ping_text()))),
            Inbound::Other => (self, Ok(StepView::Wait)),
            Inbound::Frame(response) => self.subscribe_or_unsubscribe(response),
        }
    }

    /// The consumer takes the oldest event, if one waits.
    pub open spec fn poll_next(self) -> (Session, Option<Event>) {
        if self.queue.len() > 0 {
            (Session { queue: self.queue.drop_first(), ..self }, Some(self.queue.first()))
        } else {
            (self, None)
        }
    }

    /// What the next `n` takes hand to the consumer, in the order of the
    /// takes; fewer where the queue runs out.
    pub open spec fn taken(self, n: nat) -> Seq<Event>
        decreases n,
    {
        if n == 0 {
            Seq::empty()
        } else {
            match self.poll_next() {
                (next, Some(event)) => seq![event] + next.taken((n - 1) as nat),
                (_, None) => Seq::empty(),
            }
        }
    }

    /// The session after the driver reported each of `inbounds` in turn.
    pub open spec fn after(self, inbounds: Seq<Inbound>) -> Session
        decreases inbounds.len(),
    {
        if inbounds.len() == 0 {
            self
        } else {
            self.after(inbounds.drop_last()).next_response(inbounds.last()).0
        }
    }
}

} // verus!
