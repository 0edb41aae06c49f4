use crate::rest::{Coin, Decimal, Id, OrderInfo, Side, Symbol, Timestamp, Trade};
use vstd::prelude::*;
use vstd::std_specs::cmp::PartialEqSpecImpl;

verus! {

/// A subscription target. `Fills` and `Orders` report on the account and are
/// open to an authenticated session only; the others report on one market.
#[derive(Debug)]
pub enum Channel {
    Orderbook(Symbol),
    Trades(Symbol),
    Ticker(Symbol),
    Fills,
    Orders,
}

/// A channel as a mathematical value: two channels are the same target
/// exactly when their views are equal.
pub enum ChannelView {
    Orderbook(Seq<char>),
    Trades(Seq<char>),
    Ticker(Seq<char>),
    Fills,
    Orders,
}

impl ChannelView {
    /// Whether the channel reports on the account rather than on a market.
    pub open spec fn is_private(self) -> bool {
        self is Fills || self is Orders
    }

    /// The channel's name on the wire.
    pub open spec fn name(self) -> Seq<char> {
        match self {
            ChannelView::Orderbook(_) => "orderbook"@,
            ChannelView::Trades(_) => "trades"@,
            ChannelView::Ticker(_) => "ticker"@,
            ChannelView::Fills => "fills"@,
            ChannelView::Orders => "orders"@,
        }
    }

    /// The market named on the wire: empty for an account channel.
    pub open spec fn market(self) -> Seq<char> {
        match self {
            ChannelView::Orderbook(symbol) => symbol,
            ChannelView::Trades(symbol) => symbol,
            ChannelView::Ticker(symbol) => symbol,
            ChannelView::Fills => Seq::empty(),
            ChannelView::Orders => Seq::empty(),
        }
    }
}

impl View for Channel {
    type V = ChannelView;

    open spec fn view(&self) -> ChannelView {
        match self {
            Channel::Orderbook(symbol) => ChannelView::Orderbook(symbol@),
            Channel::Trades(symbol) => ChannelView::Trades(symbol@),
            Channel::Ticker(symbol) => ChannelView::Ticker(symbol@),
            Channel::Fills => ChannelView::Fills,
            Channel::Orders => ChannelView::Orders,
        }
    }
}

impl Channel {
    pub fn is_private(&self) -> (private: bool)
        ensures
            private == self@.is_private(),
    {
        match self {
            Channel::Fills => true,
            Channel::Orders => true,
            _ => false,
        }
    }

    pub fn name(&self) -> (name: &'static str)
        ensures
            name@ == self@.name(),
    {
        match self {
            Channel::Orderbook(_) => "orderbook",
            Channel::Trades(_) => "trades",
            Channel::Ticker(_) => "ticker",
            Channel::Fills => "fills",
            Channel::Orders => "orders",
        }
    }

    pub fn market(&self) -> (market: &str)
        ensures
            market@ == self@.market(),
    {
        match self {
            Channel::Orderbook(symbol) => symbol.as_str(),
            Channel::Trades(symbol) => symbol.as_str(),
            Channel::Ticker(symbol) => symbol.as_str(),
            Channel::Fills => {
                proof {
                    reveal_strlit("");
                    assert(""@ =~= Seq::<char>::empty());
                }
                ""
            },
            Channel::Orders => {
                proof {
                    reveal_strlit("");
                    assert(""@ =~= Seq::<char>::empty());
                }
                ""
            },
        }
    }
}

impl Clone for Channel {
    fn clone(&self) -> (copy: Self)
        ensures
            copy@ == self@,
    {
        match self {
            Channel::Orderbook(symbol) => Channel::Orderbook(symbol.clone()),
            Channel::Trades(symbol) => Channel::Trades(symbol.clone()),
            Channel::Ticker(symbol) => Channel::Ticker(symbol.clone()),
            Channel::Fills => Channel::Fills,
            Channel::Orders => Channel::Orders,
        }
    }
}

impl PartialEq for Channel {
    fn eq(&self, other: &Self) -> (same: bool) {
        match (self, other) {
            (Channel::Orderbook(a), Channel::Orderbook(b)) => *a == *b,
            (Channel::Trades(a), Channel::Trades(b)) => *a == *b,
            (Channel::Ticker(a), Channel::Ticker(b)) => *a == *b,
            (Channel::Fills, Channel::Fills) => true,
            (Channel::Orders, Channel::Orders) => true,
            _ => false,
        }
    }
}

impl PartialEqSpecImpl for Channel {
    open spec fn obeys_eq_spec() -> bool {
        true
    }

    open spec fn eq_spec(&self, other: &Self) -> bool {
        self@ == other@
    }
}

impl Eq for Channel {

}

/// The kind of an inbound frame.
#[derive(Clone, Copy, Debug, PartialEq, Eq, Structural)]
pub enum Type {
    Subscribed,
    Unsubscribed,
    Update,
    Error,
    Partial,
    Pong,
}

#[derive(Clone, Copy, Debug, PartialEq, Eq, Structural)]
pub struct Ticker {
    pub bid: Decimal,
    pub ask: Decimal,
    pub bid_size: Decimal,
    pub ask_size: Decimal,
    pub last: Decimal,
    pub time: Timestamp,
}

/// Whether an order book record replaces the book or amends it.
#[derive(Clone, Copy, Debug, PartialEq, Eq, Structural)]
pub enum OrderbookAction {
    Partial,
    Update,
}

/// One order book record: the price levels that changed, each with its new
/// size.
#[derive(Clone, Debug, PartialEq, Eq)]
pub struct OrderbookData {
    pub action: OrderbookAction,
    pub bids: Vec<(Decimal, Decimal)>,
    pub asks: Vec<(Decimal, Decimal)>,
    pub checksum: u32,
    pub time: Timestamp,
}

#[derive(Clone, Copy, Debug, PartialEq, Eq, Structural)]
pub enum Liquidity {
    Maker,
    Taker,
}

#[derive(Clone, Debug, PartialEq, Eq)]
pub struct Fill {
    pub id: Id,
    pub market: Symbol,
    pub future: Option<Symbol>,
    pub base_currency: Option<Coin>,
    pub quote_currency: Option<Coin>,
    pub fill_type: String,
    pub side: Side,
    pub price: Decimal,
    pub size: Decimal,
    pub order_id: Option<Id>,
    pub trade_id: Option<Id>,
    pub time: Timestamp,
    pub fee: Decimal,
    pub fee_currency: Coin,
    pub fee_rate: Decimal,
    pub liquidity: Liquidity,
}

/// What an inbound frame carries: one record, or for the trades channel a
/// list of them.
#[derive(Clone, Debug, PartialEq, Eq)]
pub enum ResponseData {
    Ticker(Ticker),
    Trades(Vec<Trade>),
    OrderbookData(OrderbookData),
    Fill(Fill),
    Order(OrderInfo),
}

/// A decoded inbound frame.
#[derive(Clone, Debug, PartialEq, Eq)]
pub struct Response {
    pub response_type: Type,
    pub channel: Option<String>,
    pub market: Option<Symbol>,
    pub data: Option<ResponseData>,
}

/// What an event hands to the consumer: one record.
#[derive(Clone, Debug, PartialEq, Eq)]
pub enum Data {
    Ticker(Ticker),
    Trade(Trade),
    OrderbookData(OrderbookData),
    Fill(Fill),
    Order(OrderInfo),
}

/// The unit delivered to the consumer: the market the record belongs to,
/// where the frame named one, and the record.
pub type Event = (Option<Symbol>, Data);

} // verus!
