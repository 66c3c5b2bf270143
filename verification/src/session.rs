//! The order in which the results of recompiling one document are taken
//! in: the last change applied wins, whatever order the results arrive in.

use vstd::prelude::*;

verus! {

/// The tickets of one document. Every change takes the next ticket when it
/// arrives; its result is installed only if no later change has been
/// installed before it.
#[derive(Debug, Clone, Copy, PartialEq, Eq)]
pub struct Session {
    issued: u64,
    installed: u64,
}

impl Session {
    /// The ticket of the last change that arrived; 0 before the first.
    pub closed spec fn spec_issued(self) -> u64 {
        self.issued
    }

    /// The ticket of the change whose result is installed; 0 while none is.
    pub closed spec fn spec_installed(self) -> u64 {
        self.installed
    }

    /// Nothing is installed that was not issued.
    pub open spec fn wf(self) -> bool {
        self.spec_installed() <= self.spec_issued()
    }

    /// Whether the result of the change with `ticket` is to be installed:
    /// the ticket was issued, and nothing as new is installed yet.
    pub open spec fn accepts(self, ticket: u64) -> bool {
        self.spec_installed() < ticket <= self.spec_issued()
    }

    pub fn new() -> (session: Session)
        ensures
            session.wf(),
            session.spec_issued() == 0,
            session.spec_installed() == 0,
    {
        Session { issued: 0, installed: 0 }
    }

    pub fn issued(&self) -> (ticket: u64)
        ensures
            ticket == self.spec_issued(),
    {
        self.issued
    }

    pub fn installed(&self) -> (ticket: u64)
        ensures
            ticket == self.spec_installed(),
    {
        self.installed
    }

    /// Takes the ticket for a change that has just arrived: one more than
    /// the last. No ticket is left once they have all been issued.
    pub fn begin(&mut self) -> (ticket: Option<u64>)
        requires
            old(self).wf(),
        ensures
            final(self).wf(),
            final(self).spec_installed() == old(self).spec_installed(),
            old(self).spec_issued() < u64::MAX ==> ticket == Some(
                (old(self).spec_issued() + 1) as u64,
            ) && final(self).spec_issued() == old(self).spec_issued() + 1,
            old(self).spec_issued() == u64::MAX ==> ticket.is_none() && final(self).spec_issued()
                == old(self).spec_issued(),
    {
        if self.issued == u64::MAX {
            None
        } else {
            self.issued = self.issued + 1;
            Some(self.issued)
        }
    }

    /// Decides on the result of the change with `ticket`, and installs it
    /// if it is accepted. A result that arrives after that of a later
    /// change is dropped, so what is installed never goes back.
    pub fn finish(&mut self, ticket: u64) -> (install: bool)
        requires
            old(self).wf(),
        ensures
            final(self).wf(),
            install == old(self).accepts(ticket),
            final(self).spec_issued() == old(self).spec_issued(),
            final(self).spec_installed() == installed_after(
                old(self).spec_installed(),
                old(self).spec_issued(),
                ticket,
            ),
            final(self).spec_installed() >= old(self).spec_installed(),
    {
        if ticket > self.installed && ticket <= self.issued {
            self.installed = ticket;
            true
        } else {
            false
        }
    }
}

/// Of two changes whose results are both offered, the later one is what
/// stays installed, in whichever order the two results arrive.
pub proof fn lemma_last_change_wins(installed: u64, issued: u64, first: u64, second: u64)
    requires
        installed < first < second <= issued,
    ensures
        ({
            let in_order = installed_after(installed_after(installed, issued, first), issued, second);
            let reversed = installed_after(installed_after(installed, issued, second), issued, first);
            in_order == second && reversed == second
        }),
{
}

/// The ticket installed after the result of `ticket` was offered.
pub open spec fn installed_after(installed: u64, issued: u64, ticket: u64) -> u64 {
    if installed < ticket <= issued {
        ticket
    } else {
        installed
    }
}

} // verus!
