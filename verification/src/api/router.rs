//! Configuration of the request handlers.

use vstd::prelude::*;

verus! {

/// What the request handlers are configured with.
#[derive(Debug, Clone, PartialEq, Eq)]
pub struct Config {
    /// The secret that access tokens are signed with.
    pub jwt_secret: String,
}

impl Default for Config {
    fn default() -> (config: Config)
        ensures
            config.jwt_secret@ == Seq::<char>::empty(),
    {
        Config { jwt_secret: String::new() }
    }
}

} // verus!
