//! Where the platform is and how to sign in.

use vstd::prelude::*;

verus! {

/// The settings that a run needs to reach the platform.
pub struct Config {
    /// The address of the server.
    pub server: String,
    /// The token that is presented to the server.
    pub access_token: String,
}

} // verus!
