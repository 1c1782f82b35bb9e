use vstd::prelude::*;

verus! {

/// Takes in the clients that connect.
pub trait ClientConnectionManager {
    fn handle_client_connections(&mut self);
}

} // verus!
