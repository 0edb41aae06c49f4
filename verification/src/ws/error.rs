use super::model::{Channel, ChannelView};
use vstd::prelude::*;

verus! {

/// What a request to a session can fail with.
#[derive(Debug)]
pub enum Error {
    /// An unsubscribe request named a channel that is not active.
    NotSubscribedToThisChannel(Channel),
    /// The exchange did not confirm a request within the bounded wait.
    MissingSubscriptionConfirmation,
    /// A subscribe request named an account channel on a session that was
    /// opened without credentials.
    SocketNotAuthenticated,
}

/// An error as a mathematical value.
pub enum ErrorView {
    NotSubscribedToThisChannel(ChannelView),
    MissingSubscriptionConfirmation,
    SocketNotAuthenticated,
}

impl View for Error {
    type V = ErrorView;

    open spec fn view(&self) -> ErrorView {
        match self {
            Error::NotSubscribedToThisChannel(channel) => ErrorView::NotSubscribedToThisChannel(
                channel@,
            ),
            Error::MissingSubscriptionConfirmation => ErrorView::MissingSubscriptionConfirmation,
            Error::SocketNotAuthenticated => ErrorView::SocketNotAuthenticated,
        }
    }
}

pub type Result<T> = core::result::Result<T, Error>;

} // verus!
