use vstd::prelude::*;
use std::collections::HashMap;

verus! {

/// Settings shared by the request handlers of the HTTP front end: where the
/// ledger's host answers, which application to address there, and free-form
/// options for later integrations.
#[derive(Clone, Debug)]
pub struct AppState {
    pub linera_rpc_url: String,
    pub application_id: String,
    pub ai_config: HashMap<String, String>,
}

} // verus!
