//! The configuration of a service that listens on an address.

use vstd::prelude::*;

verus! {

/// The configuration.
#[derive(Debug, PartialEq, Eq)]
pub struct Config {
    addr: String,
}

impl Config {
    /// The configuration with that address.
    pub fn new(addr: String) -> (r: Self)
        ensures
            r.address() == addr@,
    {
        Config { addr }
    }

    /// The address, as a mathematical value.
    pub closed spec fn address(&self) -> Seq<char> {
        self.addr@
    }

    /// The address on which the service listens.
    pub fn addr(&self) -> (r: &str)
        ensures
            r@ == self.address(),
    {
        self.addr.as_str()
    }
}

} // verus!
