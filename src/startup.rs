use crate::activation::ActivationStore;
use crate::session::{Session, SessionStore};
use crate::store::Store;
use vstd::prelude::*;

verus! {

/// A running service, as far as its callers see it.
pub struct Application {
    port: u16,
}

impl Application {
    pub fn new(port: u16) -> (r: Application)
        ensures
            r.port() == port,
    {
        Application { port }
    }

    pub closed spec fn spec_port(&self) -> u16 {
        self.port
    }

    /// The port the service listens on.
    #[verifier::when_used_as_spec(spec_port)]
    pub fn port(&self) -> (r: u16)
        ensures
            r == self.spec_port(),
    {
        self.port
    }
}

/// The shared state behind every request: the content store, the session
/// store, the pending activation codes, and the lifetimes (in seconds) of
/// sessions and of activation codes.
pub struct AppState {
    pub db_store: Store,
    pub sessions: SessionStore,
    pub activations: ActivationStore,
    pub session_ttl: u64,
    pub activation_ttl: u64,
}

impl AppState {
    pub open spec fn wf(&self) -> bool {
        self.db_store.wf()
    }

    /// Empty stores with the given lifetimes.
    pub fn new(session_ttl: u64, activation_ttl: u64) -> (r: AppState)
        ensures
            r.wf(),
            r.db_store@.users.len() == 0,
            r.db_store@.tags.len() == 0,
            r.db_store@.questions.len() == 0,
            r.db_store@.answers.len() == 0,
            r.db_store@.next_id == 1,
            r.sessions@ == Map::<u128, Session>::empty(),
            r.activations@ == Map::<u128, (Seq<char>, u64)>::empty(),
            r.session_ttl == session_ttl,
            r.activation_ttl == activation_ttl,
    {
        AppState {
            db_store: Store::new(),
            sessions: SessionStore::new(),
            activations: ActivationStore::new(),
            session_ttl,
            activation_ttl,
        }
    }
}

} // verus!
