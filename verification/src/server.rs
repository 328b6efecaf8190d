//! The lifecycle every server front end offers.

use vstd::prelude::*;

verus! {

/// What a running front end can be asked to do. The library's state types do
/// not implement it: starting means binding a listener, which is the caller's part.
pub trait Server {
    fn start(&self);

    fn stop(&self);

    fn restart(&self);
}

} // verus!
