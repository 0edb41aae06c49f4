use vstd::prelude::*;

verus! {

/// The seconds between two pings unless a session is told otherwise.
pub const KEEPALIVE_SECS: u64 = 15;

/// The frames a request waits through for one confirmation unless a session
/// is told otherwise.
pub const CONFIRMATION_BOUND: usize = 100;

/// The two settings of a session. Neither is ever zero.
#[derive(Clone, Copy, Debug)]
pub struct Config {
    keepalive_secs: u64,
    confirmation_bound: usize,
}

impl Config {
    #[verifier::type_invariant]
    spec fn positive(self) -> bool {
        self.keepalive_secs >= 1 && self.confirmation_bound >= 1
    }

    /// The seconds between two pings.
    pub closed spec fn period(self) -> int {
        self.keepalive_secs as int
    }

    /// The frames a request waits through for one confirmation.
    pub closed spec fn bound(self) -> int {
        self.confirmation_bound as int
    }

    /// Settings with the given values, unless one of them is zero.
    pub fn new(keepalive_secs: u64, confirmation_bound: usize) -> (config: Option<Config>)
        ensures
            config is Some <==> keepalive_secs >= 1 && confirmation_bound >= 1,
            config is Some ==> config.unwrap().period() == keepalive_secs && config.unwrap().bound()
                == confirmation_bound,
    {
        if keepalive_secs >= 1 && confirmation_bound >= 1 {
            Some(Config { keepalive_secs, confirmation_bound })
        } else {
            None
        }
    }

    pub fn keepalive_secs(&self) -> (secs: u64)
        ensures
            secs == self.period(),
            secs >= 1,
    {
        proof {
            use_type_invariant(self);
        }
        self.keepalive_secs
    }

    pub fn confirmation_bound(&self) -> (bound: usize)
        ensures
            bound == self.bound(),
            bound >= 1,
    {
        proof {
            use_type_invariant(self);
        }
        self.confirmation_bound
    }
}

impl Default for Config {
    /// A ping every 15 seconds, and 100 frames for a confirmation.
    fn default() -> (config: Config)
        ensures
            config.period() == KEEPALIVE_SECS,
            config.bound() == CONFIRMATION_BOUND,
    {
        Config { keepalive_secs: KEEPALIVE_SECS, confirmation_bound: CONFIRMATION_BOUND }
    }
}

} // verus!
