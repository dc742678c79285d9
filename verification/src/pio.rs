//! Port-mapped I/O handle.
//!
//! The handle only carries a port number and the width of the values the
//! port takes; the instructions that actually read and write the port
//! live in the shell.

use core::marker::PhantomData;
use vstd::prelude::*;

verus! {

/// A port of the given value width.
pub struct Pio<T> {
    pub port: u16,
    pub value: PhantomData<T>,
}

impl<T> Pio<T> {
    /// Creates a handle for the given port.
    pub fn new(port: u16) -> (r: Self)
        ensures
            r.port == port,
    {
        Pio { port, value: PhantomData }
    }
}

} // verus!
