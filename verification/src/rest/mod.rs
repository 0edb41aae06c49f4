//! Types shared with the request/response side of the exchange API.

mod error;
mod model;

pub use error::{is_read_only, is_read_only_rejection, read_only, Error, Result};
pub use model::{
    Coin, Decimal, Id, OrderInfo, OrderStatus, OrderType, Side, Symbol, Timestamp, Trade,
};
