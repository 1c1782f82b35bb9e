use vstd::prelude::*;

verus! {

/// Takes the events of the backend and runs what they lead to.
pub trait EventProcessor {
    fn handle_new_events(&mut self);
}

} // verus!
