//! The connection manager contract. The transport itself is an external
//! collaborator: dialing a contact, waiting, and carrying bytes happen
//! outside this crate, which only decides. The decision is a function
//! from the resolved contact set and the transport's per-contact answers
//! (one event per contact tried, in order) to a connection or a typed
//! bootstrap failure; the surrounding event loop performs each attempt
//! and hands the answer back.

use vstd::prelude::*;
use crate::contacts::Contact;
use crate::errors::{AppError, BootstrapFailure};

verus! {

/// The transport's answer for one attempted contact.
#[derive(Clone, Copy, PartialEq, Eq, Structural, Debug)]
pub enum BootstrapEvent {
    /// The contact accepted the presented identity.
    Accepted,
    /// The contact was reached but turned the identity away.
    Rejected,
    /// The contact could not be reached.
    Unreachable,
}

/// Where the manager stands.
#[derive(Clone, Copy, PartialEq, Eq, Structural, Debug)]
pub enum ConnectionStatus {
    /// Constructed; bootstrap not yet attempted.
    NotBootstrapped,
    /// Bootstrapped; connected through the given contact.
    Connected(Contact),
    /// Bootstrap was attempted and failed as recorded.
    BootstrapFailed(BootstrapFailure),
}

/// The outcome of walking the contact set against the transport's
/// answers: the first accepting contact connects; an exhausted contact
/// set fails with `IdentityRejected` if any contact rejected the identity
/// and `NoReachableContact` otherwise; exhausted answers fail with
/// `TimedOut`.
pub open spec fn bootstrap_outcome(
    cs: Seq<Contact>,
    es: Seq<BootstrapEvent>,
    saw_rejection: bool,
) -> Result<Contact, BootstrapFailure>
    decreases cs.len(),
{
    if cs.len() == 0 {
        if saw_rejection {
            Err(BootstrapFailure::IdentityRejected)
        } else {
            Err(BootstrapFailure::NoReachableContact)
        }
    } else if es.len() == 0 {
        Err(BootstrapFailure::TimedOut)
    } else {
        match es[0] {
            BootstrapEvent::Accepted => Ok(cs[0]),
            BootstrapEvent::Rejected => bootstrap_outcome(cs.drop_first(), es.drop_first(), true),
            BootstrapEvent::Unreachable => bootstrap_outcome(
                cs.drop_first(),
                es.drop_first(),
                saw_rejection,
            ),
        }
    }
}

/// Law: if no answer accepts the identity, bootstrap fails — a contact
/// set with no reachable, accepting endpoint never yields a connection.
pub proof fn lemma_no_accept_fails(cs: Seq<Contact>, es: Seq<BootstrapEvent>, saw_rejection: bool)
    requires
        forall|i: int| 0 <= i < es.len() ==> es[i] != BootstrapEvent::Accepted,
    ensures
        bootstrap_outcome(cs, es, saw_rejection) is Err,
    decreases cs.len(),
{
    if cs.len() == 0 {
    } else if es.len() == 0 {
    } else {
        assert(es[0] != BootstrapEvent::Accepted);
        assert(forall|i: int| 0 <= i < es.drop_first().len() ==> es.drop_first()[i] == es[i + 1]);
        match es[0] {
            BootstrapEvent::Accepted => {},
            BootstrapEvent::Rejected => {
                lemma_no_accept_fails(cs.drop_first(), es.drop_first(), true);
            },
            BootstrapEvent::Unreachable => {
                lemma_no_accept_fails(cs.drop_first(), es.drop_first(), saw_rejection);
            },
        }
    }
}

/// Client-side handle on the transport: the resolved contact set and the
/// connection's standing. Bootstrapped at most once.
#[derive(Debug)]
pub struct ConnectionManager {
    /// The resolved contact set the manager was constructed over.
    pub contacts: Vec<Contact>,
    /// Where the connection stands.
    pub status: ConnectionStatus,
}

impl ConnectionManager {
    /// Builds a manager over a resolved contact set. Fails with a
    /// configuration error exactly when some contact is structurally
    /// invalid.
    pub fn construct(config: Vec<Contact>) -> (r: Result<ConnectionManager, AppError>)
        ensures
            r matches Ok(m) ==> m.contacts@ == config@ && m.status
                == ConnectionStatus::NotBootstrapped,
            r is Ok <==> (forall|i: int| 0 <= i < config@.len() ==> config@[i].spec_valid()),
            r matches Err(e) ==> e == AppError::ConnectionSetup,
    {
        let mut i: usize = 0;
        while i < config.len()
            invariant
                0 <= i <= config@.len(),
                forall|j: int| 0 <= j < i ==> config@[j].spec_valid(),
            decreases config@.len() - i,
        {
            if !config[i].is_valid() {
                return Err(AppError::ConnectionSetup);
            }
            i += 1;
        }
        Ok(ConnectionManager { contacts: config, status: ConnectionStatus::NotBootstrapped })
    }

    /// Walks the contact set against the transport's answers and records
    /// the result: the first accepting contact connects the manager, and
    /// a failure is kept for lazy discovery by later connection-dependent
    /// calls.
    pub fn bootstrap(&mut self, events: &Vec<BootstrapEvent>) -> (r: Result<Contact, AppError>)
        requires
            old(self).status == ConnectionStatus::NotBootstrapped,
        ensures
            final(self).contacts@ == old(self).contacts@,
            r matches Ok(c) ==> bootstrap_outcome(old(self).contacts@, events@, false) == Ok::<
                Contact,
                BootstrapFailure,
            >(c) && final(self).status == ConnectionStatus::Connected(c),
            r matches Err(e) ==> (exists|f: BootstrapFailure|
                bootstrap_outcome(old(self).contacts@, events@, false) == Err::<
                    Contact,
                    BootstrapFailure,
                >(f) && e == AppError::Bootstrap(f) && final(self).status
                    == ConnectionStatus::BootstrapFailed(f)),
            r is Ok <==> bootstrap_outcome(old(self).contacts@, events@, false) is Ok,
    {
        let ghost cs = self.contacts@;
        let ghost es = events@;
        proof {
            assert(cs.skip(0) =~= cs);
            assert(es.skip(0) =~= es);
        }
        let mut i: usize = 0;
        let mut saw_rejection = false;
        while i < self.contacts.len() && i < events.len()
            invariant
                0 <= i <= cs.len(),
                i <= es.len(),
                cs == old(self).contacts@,
                es == events@,
                self.contacts@ == cs,
                self.status == old(self).status,
                bootstrap_outcome(cs, es, false) == bootstrap_outcome(
                    cs.skip(i as int),
                    es.skip(i as int),
                    saw_rejection,
                ),
            decreases cs.len() - i,
        {
            proof {
                assert(cs.skip(i as int).len() > 0);
                assert(es.skip(i as int).len() > 0);
                assert(cs.skip(i as int)[0] == cs[i as int]);
                assert(es.skip(i as int)[0] == es[i as int]);
                assert(cs.skip(i as int).drop_first() =~= cs.skip(i + 1));
                assert(es.skip(i as int).drop_first() =~= es.skip(i + 1));
            }
            match events[i] {
                BootstrapEvent::Accepted => {
                    let c = self.contacts[i];
                    self.status = ConnectionStatus::Connected(c);
                    return Ok(c);
                },
                BootstrapEvent::Rejected => {
                    saw_rejection = true;
                },
                BootstrapEvent::Unreachable => {},
            }
            i += 1;
        }
        let failure = if i < self.contacts.len() {
            proof {
                assert(cs.skip(i as int).len() > 0);
                assert(es.skip(i as int).len() == 0);
            }
            BootstrapFailure::TimedOut
        } else {
            proof {
                assert(cs.skip(i as int).len() == 0);
            }
            if saw_rejection {
                BootstrapFailure::IdentityRejected
            } else {
                BootstrapFailure::NoReachableContact
            }
        };
        self.status = ConnectionStatus::BootstrapFailed(failure);
        Err(AppError::Bootstrap(failure))
    }
}

} // verus!
