//! Handles for modules loaded through the audio server's client library.
//! The library call itself is I/O and stays with the caller; the engine
//! keeps the module index the server assigned and hands it back for
//! unloading.

use vstd::prelude::*;

verus! {

/// A module the audio server loaded, known by the index it returned.
pub struct Module {
    id: u32,
}

impl Module {
    /// The index the server assigned to the module.
    pub closed spec fn spec_id(self) -> u32 {
        self.id
    }

    /// Adopts a module the caller just loaded: `id` is the index the
    /// server's load call returned.
    pub fn load(id: u32) -> (m: Module)
        ensures
            m.spec_id() == id,
    {
        Module { id }
    }

    /// The index to hand to the server's unload call.
    pub fn unload(&self) -> (id: u32)
        ensures
            id == self.spec_id(),
    {
        self.id
    }
}

} // verus!
