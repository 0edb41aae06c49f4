use vstd::prelude::*;
use vstd::string::StringExecFns;

verus! {

/// What a request to the exchange can fail with.
#[derive(Debug)]
pub enum Error {
    /// The exchange answered the request with an error message of its own.
    Api(String),
    /// The request never reached the exchange or its answer never arrived.
    Transport(String),
    /// The answer could not be read as the expected record.
    Decode(String),
}

pub type Result<T> = core::result::Result<T, Error>;

/// Whether `result` is the rejection that the exchange gives to a key
/// without write permission.
pub open spec fn is_read_only_rejection<T>(result: Result<T>) -> bool {
    match result {
        Err(Error::Api(message)) => message@ == "Not allowed with read-only permissions"@,
        _ => false,
    }
}

/// Tells whether a request was turned down for want of write permission.
pub fn is_read_only<T>(result: &Result<T>) -> (yes: bool)
    ensures
        yes == is_read_only_rejection(*result),
{
    match result {
        Err(Error::Api(message)) => {
            let expected = String::from_str("Not allowed with read-only permissions");
            *message == expected
        },
        _ => false,
    }
}

/// Accepts the outcome of a write request made with a read-only key.
///
/// The only outcome it takes is the read-only rejection; callers that cannot
/// know the outcome in advance ask `is_read_only` first.
pub fn read_only<T>(result: Result<T>)
    requires
        is_read_only_rejection(result),
{
}

} // verus!
