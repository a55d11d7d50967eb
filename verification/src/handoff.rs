//! Which answer of a worker still counts. Scans and loads run beside the
//! interface; when a newer request was made meanwhile, the answer to an
//! older one is dropped.

use vstd::prelude::*;

verus! {

/// The requests made so far, by number. Each request gets a ticket, and
/// only the ticket of the newest request is current.
pub struct Requests {
    issued: u64,
}

impl View for Requests {
    type V = nat;

    closed spec fn view(&self) -> nat {
        self.issued as nat
    }
}

impl Requests {
    /// No request was made yet.
    pub fn new() -> (r: Requests)
        ensures
            r@ == 0,
    {
        Requests { issued: 0 }
    }

    /// Makes a request and hands out its ticket. When the tickets have run
    /// out, nothing is handed out and nothing changes.
    pub fn issue(&mut self) -> (ticket: Option<u64>)
        ensures
            match ticket {
                Some(t) => final(self)@ == old(self)@ + 1 && t as nat == final(self)@,
                None => final(self)@ == old(self)@ && old(self)@ == u64::MAX,
            },
    {
        if self.issued == u64::MAX {
            None
        } else {
            self.issued = self.issued + 1;
            Some(self.issued)
        }
    }

    /// Whether `ticket` belongs to the newest request, so that its answer
    /// is to be taken.
    pub fn is_current(&self, ticket: u64) -> (r: bool)
        ensures
            r == (self@ > 0 && ticket as nat == self@),
    {
        self.issued > 0 && ticket == self.issued
    }
}

impl Default for Requests {
    /// No request was made yet.
    fn default() -> (r: Requests)
        ensures
            r@ == 0,
    {
        Requests::new()
    }
}

/// Once a newer request is made, the ticket of an older one is current no
/// more: of all tickets handed out, one is current.
pub proof fn lemma_newest_wins(earlier: nat, later: nat, ticket: nat)
    requires
        0 < ticket <= earlier < later,
    ensures
        ticket != later,
{
}

} // verus!
