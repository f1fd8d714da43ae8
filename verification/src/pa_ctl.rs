//! Handles for modules loaded into the system audio server through its
//! command-line tool. The engine tracks each handle's identity and whether
//! it has been unloaded; issuing the actual load and unload commands is
//! process I/O and stays with the caller, which feeds the results back in.

use vstd::prelude::*;

verus! {

/// A module loaded into the audio server, under the identifier the server
/// answered with, unloaded at most once.
pub struct Module {
    id: String,
    name: String,
    unloaded: bool,
}

impl Module {
    /// The identifier the server assigned to the module.
    pub closed spec fn spec_id(self) -> Seq<char> {
        self.id@
    }

    /// The module name it was loaded under.
    pub closed spec fn spec_name(self) -> Seq<char> {
        self.name@
    }

    /// Whether the module has already been unloaded.
    pub closed spec fn spec_unloaded(self) -> bool {
        self.unloaded
    }

    /// Adopts a module the caller just loaded: `id` is the identifier the
    /// server's load command printed for it.
    pub fn load(name: String, id: String) -> (m: Module)
        ensures
            m.spec_name() == name@,
            m.spec_id() == id@,
            !m.spec_unloaded(),
    {
        Module { id, name, unloaded: false }
    }

    /// Marks the module unloaded. Returns whether the caller must now issue
    /// the server's unload command: true exactly on the first call, so the
    /// command is never issued twice for one handle.
    pub fn unload(&mut self) -> (must_issue: bool)
        ensures
            final(self).spec_unloaded(),
            final(self).spec_id() == old(self).spec_id(),
            final(self).spec_name() == old(self).spec_name(),
            must_issue == !old(self).spec_unloaded(),
    {
        let r = !self.unloaded;
        self.unloaded = true;
        r
    }

    /// The identifier to hand to the server's unload command.
    pub fn id(&self) -> (r: &String)
        ensures
            r@ == self.spec_id(),
    {
        &self.id
    }
}

} // verus!
