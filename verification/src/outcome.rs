//! What became of one arrival: refused at a gate, routed, or wanted by nobody.
//!
//! Separate from [`crate::arrival`], which is the lifecycle that produces one
//! of these. The outcome is read by callers that never run the lifecycle, and
//! they have no business carrying the gates to find out.
//!
//! **A refusal is the whole record.** A Journey begins after the gates, so
//! before that there is nothing to suspend, resume or dismiss.

use vstd::prelude::*;
use vstd::string::*;

use crate::generation::ReceivedWork;
use crate::identity::{Decision, IdentityFacts, Refusal};

verus! {

/// Why a Stream never became a Journey.
#[derive(Clone, Debug, PartialEq, Eq)]
pub enum Refused {
    /// The arrival carried something this mechanism recognises and could not
    /// read: a malformed certificate, a truncated envelope.
    ///
    /// Distinct from carrying nothing, which is ordinary and reaches the
    /// circumstance instead.
    Identification(String),
    /// The credential was not accepted, or not accepted here.
    Authentication(Refusal),
    /// Verified, and not permitted to post here.
    Authorization(Decision),
}

impl Refused {
    /// What was said where it was refused.
    pub open spec fn said(self) -> Seq<char> {
        match self {
            Refused::Identification(detail) => detail@,
            Refused::Authentication(refusal) => refusal.said@,
            Refused::Authorization(decision) => decision.said@,
        }
    }

    /// The refusal in words: those it was refused with.
    pub fn text(&self) -> (r: String)
        ensures
            r@ == self.said(),
    {
        match self {
            Refused::Identification(detail) => detail.clone(),
            Refused::Authentication(refusal) => refusal.said.clone(),
            Refused::Authorization(decision) => decision.said.clone(),
        }
    }
}

/// An artifact that asked for Messages.
#[derive(Debug, PartialEq, Eq)]
pub struct Subscriber {
    pub name: String,
    /// The Subscriber in words, with what kind of artifact it is.
    pub shown: String,
}

impl Clone for Subscriber {
    fn clone(&self) -> (r: Self)
        ensures
            r == *self,
    {
        Subscriber { name: self.name.clone(), shown: self.shown.clone() }
    }
}

/// How many Subscriptions wanted a Message.
#[derive(Clone, Copy, Debug, PartialEq, Eq, Structural)]
pub enum Dispatch {
    Routed(usize),
    Unroutable,
}

/// A Subscription that did not want a Message, and why.
#[derive(Clone, Debug, PartialEq, Eq)]
pub struct Decline {
    pub subscription: String,
    pub why: String,
}

/// What publishing one Message came to.
#[derive(Clone, Debug, PartialEq, Eq)]
pub struct Routing {
    pub dispatch: Dispatch,
    pub destinations: Vec<Subscriber>,
    pub declines: Vec<Decline>,
}

/// What became of one arrival.
#[derive(Clone, Debug, PartialEq, Eq)]
pub enum Arrived {
    /// Refused at a gate.
    ///
    /// **No Journey exists.** A Journey does not start until the Stream has
    /// been identified, authenticated *and* authorized. The refusal is the
    /// whole record.
    Refused { reason: Refused },
    /// Authenticated, published, and at least one Subscription wanted it.
    Routed { work: ReceivedWork, facts: IdentityFacts, routing: Routing },
    /// Authenticated, published, and nobody wanted it.
    ///
    /// A disposition rather than a failure: the Stream was valid, it passed its
    /// gates, and no Subscription matched. That is a statement about
    /// configuration, and the declines say which Subscription passed and why.
    /// Kept under retention so the question can be answered later.
    Unroutable { work: ReceivedWork, facts: IdentityFacts, routing: Routing },
}

impl Arrived {
    /// Whether Xmip must keep this because nothing took it.
    pub fn retains(&self) -> (r: bool)
        ensures
            r == (self is Unroutable),
    {
        matches!(self, Arrived::Unroutable { .. })
    }

    pub fn routing(&self) -> (r: Option<&Routing>)
        ensures
            r == (match *self {
                Arrived::Routed { work, facts, routing } => Some(&routing),
                Arrived::Unroutable { work, facts, routing } => Some(&routing),
                Arrived::Refused { reason } => None,
            }),
    {
        match self {
            Arrived::Routed { routing, .. } => Some(routing),
            Arrived::Unroutable { routing, .. } => Some(routing),
            Arrived::Refused { .. } => None,
        }
    }
}

/// Only an arrival nobody wanted is retained; one that was refused has no
/// routing, and any other the one it was published with.
pub proof fn law_only_what_nobody_wanted_is_retained(
    arrived: Arrived,
    retained: bool,
    found: Option<&Routing>,
)
    requires
        call_ensures(Arrived::retains, (&arrived,), retained),
        call_ensures(Arrived::routing, (&arrived,), found),
    ensures
        match arrived {
            Arrived::Refused { reason } => !retained && found is None,
            Arrived::Routed { work, facts, routing } => !retained && found is Some && *found->0
                == routing,
            Arrived::Unroutable { work, facts, routing } => retained && found is Some && *found->0
                == routing,
        },
{
}

/// A refusal is told in the words it was refused with.
pub proof fn law_a_refusal_keeps_its_words(reason: Refused, told: String)
    requires
        call_ensures(Refused::text, (&reason,), told),
    ensures
        reason matches Refused::Identification(detail) ==> told@ == detail@,
        reason matches Refused::Authentication(refusal) ==> told@ == refusal.said@,
        reason matches Refused::Authorization(decision) ==> told@ == decision.said@,
{
}

} // verus!
