//! Settings of the account-linking service.

use vstd::prelude::*;

verus! {

/// What the service needs to know of the OAuth application it acts for.
#[derive(Debug, Clone)]
pub struct AppVariables {
    pub client_id: String,
    pub client_secret: String,
    pub redirect_uri: String,
}

} // verus!
