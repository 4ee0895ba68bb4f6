use vstd::prelude::*;

verus! {

/// The HTTP front of the service; serving it is left to the program that runs it.
pub struct HttpApp;

impl HttpApp {
    pub fn new() -> HttpApp {
        HttpApp
    }
}

} // verus!
