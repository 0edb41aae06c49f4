//! The streaming session.
//!
//! `Ws` holds what a session knows: whether it was opened with credentials,
//! which channels are active, which events wait for the consumer, and the
//! request in flight. It owns no socket and no timer. A driver sends the
//! frames that `Ws` hands out, waits for the timer or the next frame, and
//! reports what came; `Ws` decides what that means.

mod channels;
mod config;
mod error;
pub mod frame;
pub mod laws;
mod model;
mod session;

pub use channels::{
    channel_views, clone_channels, contains, lemma_first_inactive, lemma_first_private,
    lemma_merged_contains, lemma_merged_no_duplicates, lemma_removed_contains,
    lemma_removed_no_duplicates, without,
};
pub use config::{Config, CONFIRMATION_BOUND, KEEPALIVE_SECS};
pub use error::{Error, ErrorView, Result};
pub use model::{
    Channel, ChannelView, Data, Event, Fill, Liquidity, OrderbookAction, OrderbookData, Response,
    ResponseData, Ticker, Type,
};
pub use session::{
    confirms, events, first_inactive, first_private, merged, removed, reply, Call, Inbound, Reply,
    Session, Step, StepView,
};

use crate::rest::{Symbol, Trade};
use channels::lemma_merged_next;
use frame::{login, login_text, optional_text, ping, signature, subscription};
use std::collections::VecDeque;
use vstd::prelude::*;

verus! {

/// The request in flight.
struct InFlight {
    subscribe: bool,
    channels: Vec<Channel>,
    index: usize,
    seen: usize,
}

impl View for InFlight {
    type V = Call;

    closed spec fn view(&self) -> Call {
        Call {
            subscribe: self.subscribe,
            channels: channel_views(self.channels@),
            index: self.index as int,
            seen: self.seen as int,
        }
    }
}

/// A session.
pub struct Ws {
    channels: Vec<Channel>,
    buf: VecDeque<Event>,
    /// Whether the session was opened with credentials.
    is_authenticated: bool,
    config: Config,
    call: Option<InFlight>,
}

impl View for Ws {
    type V = Session;

    closed spec fn view(&self) -> Session {
        Session {
            authenticated: self.is_authenticated,
            active: channel_views(self.channels@),
            queue: self.buf@,
            call: match self.call {
                Some(call) => Some(call@),
                None => None,
            },
            period: self.config.period(),
            bound: self.config.bound(),
        }
    }
}

/// The login frame that opening a session asks for: one for the credentials,
/// none without them.
pub open spec fn login_for(
    key_secret: Option<(String, String)>,
    subaccount: Option<String>,
    unix_millis: u64,
) -> Option<Seq<char>> {
    match key_secret {
        Some((key, secret)) => Some(
            login_text(
                key@,
                signature(secret@, unix_millis),
                optional_text(subaccount),
                unix_millis,
            ),
        ),
        None => None,
    }
}

/// A copy of an optional market.
fn clone_market(market: &Option<Symbol>) -> (copy: Option<Symbol>)
    ensures
        copy == *market,
{
    match market {
        Some(symbol) => Some(symbol.clone()),
        None => None,
    }
}

/// Queues one event for each trade, in the list's order.
fn push_trades(buf: &mut VecDeque<Event>, market: &Option<Symbol>, trades: &Vec<Trade>)
    ensures
        final(buf)@ == old(buf)@ + Seq::new(
            trades@.len(),
            |i: int| (*market, Data::Trade(trades@[i])),
        ),
{
    let ghost before = buf@;
    let mut i: usize = 0;
    while i < trades.len()
        invariant
            0 <= i <= trades.len(),
            buf@ == before + Seq::new(i as nat, |j: int| (*market, Data::Trade(trades@[j]))),
        decreases trades.len() - i,
    {
        buf.push_back((clone_market(market), Data::Trade(trades[i])));
        assert(buf@ =~= before + Seq::new(
            (i + 1) as nat,
            |j: int| (*market, Data::Trade(trades@[j])),
        ));
        i += 1;
    }
}

impl Ws {
    /// What holds of every session that this module hands out.
    pub open spec fn wf(&self) -> bool {
        self@.wf()
    }

    /// Opens a session with the usual settings. `unix_millis` is the time of
    /// the call, in milliseconds since the Unix epoch.
    ///
    /// With credentials, a key and its secret, the session is authenticated
    /// and the login frame comes with it, for the driver to send; nothing
    /// waits for the exchange's answer to it.
    pub fn connect(
        key_secret: Option<(String, String)>,
        subaccount: Option<String>,
        unix_millis: u64,
    ) -> (opened: (Ws, Option<String>))
        ensures
            opened.0.wf(),
            opened.0@ == Session::opened(
                key_secret is Some,
                KEEPALIVE_SECS as int,
                CONFIRMATION_BOUND as int,
            ),
            optional_text(opened.1) == login_for(key_secret, subaccount, unix_millis),
    {
        Ws::connect_with(Config::default(), key_secret, subaccount, unix_millis)
    }

    /// Opens a session with settings of the caller's choice.
    pub fn connect_with(
        config: Config,
        key_secret: Option<(String, String)>,
        subaccount: Option<String>,
        unix_millis: u64,
    ) -> (opened: (Ws, Option<String>))
        ensures
            opened.0.wf(),
            opened.0@ == Session::opened(key_secret is Some, config.period(), config.bound()),
            optional_text(opened.1) == login_for(key_secret, subaccount, unix_millis),
    {
        // Neither setting is zero, so the session is well formed.
        let period = config.keepalive_secs();
        let bound = config.confirmation_bound();
        assert(period >= 1 && bound >= 1);
        let frame = match &key_secret {
            Some((key, secret)) => Some(
                login(key.as_str(), secret.as_str(), &subaccount, unix_millis),
            ),
            None => None,
        };
        let session = Ws {
            channels: Vec::new(),
            buf: VecDeque::new(),
            is_authenticated: key_secret.is_some(),
            config,
            call: None,
        };
        assert(session@.active =~= Seq::empty());
        (session, frame)
    }

    /// Whether the session was opened with credentials.
    pub fn is_authenticated(&self) -> (authenticated: bool)
        ensures
            authenticated == self@.authenticated,
    {
        self.is_authenticated
    }

    /// The active channels, oldest first.
    pub fn channels(&self) -> (active: &Vec<Channel>)
        ensures
            channel_views(active@) == self@.active,
    {
        &self.channels
    }

    /// The settings the session was opened with.
    pub fn config(&self) -> (config: Config)
        ensures
            config.period() == self@.period,
            config.bound() == self@.bound,
    {
        self.config
    }

    /// Whether a request is in flight.
    pub fn is_waiting(&self) -> (waiting: bool)
        ensures
            waiting == self@.call is Some,
    {
        self.call.is_some()
    }

    /// Writes the keepalive frame.
    pub fn ping(&self) -> (frame: String)
        ensures
            frame@ == frame::ping_text(),
    {
        ping()
    }

    /// Takes up a request whose channels were accepted.
    fn begin(&mut self, subscribe: bool, channels: Vec<Channel>) -> (answer: Result<Step>)
        requires
            old(self).wf(),
        ensures
            final(self).wf(),
            (final(self)@, reply(answer)) == old(self)@.begin(subscribe, channel_views(channels@)),
    {
        if channels.len() == 0 {
            self.call = None;
            Ok(Step::Done)
        } else {
            let frame = subscription(subscribe, &channels[0]);
            self.call = Some(InFlight { subscribe, channels, index: 0, seen: 0 });
            Ok(Step::Send(frame))
        }
    }

    /// Asks to subscribe to `channels`.
    ///
    /// An account channel on a session without credentials has the request
    /// refused with `SocketNotAuthenticated` and no frame goes out; the
    /// channels named before it are active all the same. Otherwise every
    /// channel named is active from now on, each once, and the answer is the
    /// frame for the first of them, or `Done` if none was named. A request
    /// that is taken up takes the place of one in flight.
    pub fn subscribe(&mut self, channels: Vec<Channel>) -> (answer: Result<Step>)
        requires
            old(self).wf(),
        ensures
            final(self).wf(),
            (final(self)@, reply(answer)) == old(self)@.subscribe(channel_views(channels@)),
    {
        let ghost before = self@;
        let ghost wanted = channel_views(channels@);
        let mut i: usize = 0;
        while i < channels.len()
            invariant
                0 <= i <= channels.len(),
                wanted == channel_views(channels@),
                before == old(self)@,
                self@ == (Session { active: merged(before.active, wanted.take(i as int)), ..before }),
                before.wf(),
                !before.authenticated ==> forall|j: int| 0 <= j < i ==> !wanted[j].is_private(),
            decreases channels.len() - i,
        {
            proof {
                lemma_merged_next(before.active, wanted, i as int);
                lemma_merged_no_duplicates(before.active, wanted.take(i as int));
            }
            if channels[i].is_private() && !self.is_authenticated {
                proof {
                    lemma_first_private(wanted);
                }
                return Err(Error::SocketNotAuthenticated);
            }
            if !contains(&self.channels, &channels[i]) {
                let ghost active = channel_views(self.channels@);
                self.channels.push(channels[i].clone());
                assert(channel_views(self.channels@) =~= active.push(wanted[i as int]));
            }
            i += 1;
        }
        proof {
            assert(wanted.take(channels@.len() as int) =~= wanted);
            lemma_merged_no_duplicates(before.active, wanted);
            lemma_first_private(wanted);
        }
        self.begin(true, channels)
    }

    /// Asks to unsubscribe from `channels`.
    ///
    /// If one of them is not active the request is refused with
    /// `NotSubscribedToThisChannel`, which names the first such channel;
    /// no frame goes out and nothing changes. Otherwise the answer is the
    /// frame for the first channel, or `Done` if none was named. The channels
    /// stay active until the last of them is confirmed. A request that is
    /// taken up takes the place of one in flight.
    pub fn unsubscribe(&mut self, channels: Vec<Channel>) -> (answer: Result<Step>)
        requires
            old(self).wf(),
        ensures
            final(self).wf(),
            (final(self)@, reply(answer)) == old(self)@.unsubscribe(channel_views(channels@)),
    {
        let ghost before = self@;
        let ghost wanted = channel_views(channels@);
        let mut i: usize = 0;
        while i < channels.len()
            invariant
                0 <= i <= channels.len(),
                wanted == channel_views(channels@),
                before == old(self)@,
                self@ == before,
                before.wf(),
                forall|j: int| 0 <= j < i ==> before.active.contains(wanted[j]),
            decreases channels.len() - i,
        {
            if !contains(&self.channels, &channels[i]) {
                let channel = channels[i].clone();
                proof {
                    lemma_first_inactive(before.active, wanted);
                    assert(channel@ == wanted[i as int]);
                }
                return Err(Error::NotSubscribedToThisChannel(channel));
            }
            i += 1;
        }
        proof {
            lemma_first_inactive(before.active, wanted);
        }
        self.begin(false, channels)
    }

    /// Asks to unsubscribe from every active channel. The request is never
    /// refused.
    pub fn unsubscribe_all(&mut self) -> (answer: Result<Step>)
        requires
            old(self).wf(),
        ensures
            final(self).wf(),
            (final(self)@, reply(answer)) == old(self)@.unsubscribe_all(),
            answer is Ok,
    {
        let channels = clone_channels(&self.channels);
        proof {
            laws::unsubscribe_all_is_accepted(self@);
        }
        self.unsubscribe(channels)
    }

    /// Gives up the request in flight, if there is one: the frames that
    /// arrive from now on are queued and no longer counted. The channels of a
    /// subscribe request stay active, those of an unsubscribe request too.
    pub fn abandon(&mut self)
        requires
            old(self).wf(),
        ensures
            final(self).wf(),
            final(self)@ == old(self)@.abandon(),
    {
        self.call = None;
    }

    /// Queues the events of a frame behind those that wait: none for a pong
    /// or a frame without payload, one for a single record, one for each
    /// trade of a list, in the list's order.
    pub fn handle_response(&mut self, response: Response)
        requires
            old(self).wf(),
        ensures
            final(self).wf(),
            final(self)@ == old(self)@.handle_response(response),
    {
        let ghost before = self@;
        let Response { response_type, channel: _, market, data } = response;
        if response_type == Type::Pong {
            assert(self@.queue =~= before.queue + events(response));
            return ;
        }
        match data {
            None => {},
            Some(ResponseData::Trades(trades)) => {
                push_trades(&mut self.buf, &market, &trades);
            },
            Some(ResponseData::OrderbookData(orderbook)) => {
                self.buf.push_back((market, Data::OrderbookData(orderbook)));
            },
            Some(ResponseData::Fill(fill)) => {
                self.buf.push_back((market, Data::Fill(fill)));
            },
            Some(ResponseData::Ticker(ticker)) => {
                self.buf.push_back((market, Data::Ticker(ticker)));
            },
            Some(ResponseData::Order(order)) => {
                self.buf.push_back((market, Data::Order(order)));
            },
        }
        assert(self@.queue =~= before.queue + events(response));
    }

    /// Takes a frame that arrived.
    ///
    /// A pong is dropped. With no request in flight the frame's events are
    /// queued and the answer is `Wait`. While a request is in flight:
    /// the confirmation it awaits is consumed, and the answer is the frame
    /// for the request's next channel, or `Done` after its last, when an
    /// unsubscribe request also takes its channels out of the active ones;
    /// any other frame has its events queued and is counted, and when the
    /// count reaches the bound the request ends with
    /// `MissingSubscriptionConfirmation`, its later channels never sent.
    pub fn subscribe_or_unsubscribe(&mut self, response: Response) -> (answer: Result<Step>)
        requires
            old(self).wf(),
        ensures
            final(self).wf(),
            (final(self)@, reply(answer)) == old(self)@.subscribe_or_unsubscribe(response),
    {
        let ghost before = self@;
        if response.response_type == Type::Pong {
            return Ok(Step::Wait);
        }
        let call = match self.call.take() {
            None => {
                self.handle_response(response);
                return Ok(Step::Wait);
            },
            Some(call) => call,
        };
        let bound = self.config.confirmation_bound();
        let count = call.channels.len();
        let confirmed = if call.subscribe {
            response.response_type == Type::Subscribed
        } else {
            response.response_type == Type::Unsubscribed
        };
        if confirmed {
            if call.index + 1 < count {
                let frame = subscription(call.subscribe, &call.channels[call.index + 1]);
                self.call = Some(
                    InFlight {
                        subscribe: call.subscribe,
                        channels: call.channels,
                        index: call.index + 1,
                        seen: 0,
                    },
                );
                Ok(Step::Send(frame))
            } else {
                if !call.subscribe {
                    proof {
                        lemma_removed_no_duplicates(before.active, call@.channels);
                    }
                    self.channels = without(&self.channels, &call.channels);
                }
                Ok(Step::Done)
            }
        } else {
            self.handle_response(response);
            if call.seen + 1 >= bound {
                Err(Error::MissingSubscriptionConfirmation)
            } else {
                self.call = Some(
                    InFlight {
                        subscribe: call.subscribe,
                        channels: call.channels,
                        index: call.index,
                        seen: call.seen + 1,
                    },
                );
                Ok(Step::Wait)
            }
        }
    }

    /// Takes what the driver's wait ended with.
    ///
    /// A tick of the keepalive timer is answered with the ping frame and
    /// changes nothing. A frame without text is dropped. A decoded frame is
    /// taken as `subscribe_or_unsubscribe` takes it.
    pub fn next_response(&mut self, inbound: Inbound) -> (answer: Result<Step>)
        requires
            old(self).wf(),
        ensures
            final(self).wf(),
            (final(self)@, reply(answer)) == old(self)@.next_response(inbound),
    {
        match inbound {
            Inbound::Tick => Ok(Step::Send(ping())),
            Inbound::Other => Ok(Step::Wait),
            Inbound::Frame(response) => self.subscribe_or_unsubscribe(response),
        }
    }

    /// Hands out the oldest event that waits, if there is one. The driver
    /// reads from the socket only when none is left.
    pub fn poll_next(&mut self) -> (event: Option<Event>)
        requires
            old(self).wf(),
        ensures
            final(self).wf(),
            (final(self)@, event) == old(self)@.poll_next(),
    {
        let ghost before = self@;
        let event = self.buf.pop_front();
        assert(self@.queue =~= before.poll_next().0.queue);
        event
    }

    /// How many events wait, as a lower bound on what the stream will still
    /// deliver; there is no upper bound.
    pub fn size_hint(&self) -> (hint: (usize, Option<usize>))
        ensures
            hint.0 == self@.queue.len(),
            hint.1 is None,
    {
        (self.buf.len(), None)
    }
}

} // verus!
