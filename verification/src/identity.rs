//! Who a Stream or a Message says it is from, and what the gates concluded of
//! it, as plain values.

use vstd::prelude::*;

use crate::message::Stream;

verus! {

/// Where a claim was read: off the connection, or out of the content.
#[derive(Clone, Copy, Debug, PartialEq, Eq, Structural)]
pub enum Layer {
    Transport,
    Message,
}

/// How a claim came about.
#[derive(Clone, Copy, Debug, PartialEq, Eq, Structural)]
pub enum Established {
    /// The other side handed it over.
    Passed,
    /// It was found in what the other side sent.
    Detected,
    /// Nobody said it. The configuration implies it.
    Inferred,
}

/// Something observed that stands behind a claim.
#[derive(Clone, Debug, PartialEq, Eq)]
pub struct Evidence {
    pub name: String,
    pub value: String,
}

/// A claim, before anything has proven it.
#[derive(Clone, Debug, PartialEq, Eq)]
pub struct Presented {
    /// The name of the mechanism the claim is made by.
    pub mechanism: String,
    pub value: String,
    pub layer: Layer,
    pub established: Established,
    pub evidence: Vec<Evidence>,
}

/// What an authenticator made of a claim.
#[derive(Clone, Copy, Debug, PartialEq, Eq, Structural)]
pub enum Verified {
    /// It is so.
    Proven,
    /// It was said, in a form that proves nothing.
    Claimed,
}

/// An authenticated identity, as far as routing may read it.
#[derive(Clone, Debug, PartialEq, Eq)]
pub struct Identity {
    /// The name of the mechanism.
    pub mechanism: String,
    pub value: String,
    /// The class of the mechanism, in words.
    pub class: String,
    /// Whether the mechanism proves who it names, rather than only naming.
    pub proven: bool,
    /// What the authenticator made of this one.
    pub verified: Verified,
    /// How the identity was established, in words.
    pub established: String,
    /// When it was concluded, in nanoseconds since the epoch.
    pub at: i128,
}

/// Both layers of one arrival, and how they stand to each other.
#[derive(Clone, Debug, PartialEq, Eq)]
pub struct IdentityFacts {
    pub transport: Identity,
    pub message: Option<Identity>,
    /// The two layers name different Parties.
    pub misaligned: bool,
    /// The Party that answers for the arrival, in words, where one is known.
    pub party: Option<String>,
}

/// What is asked to be permitted.
#[derive(Clone, Copy, Debug, PartialEq, Eq, Structural)]
pub enum Action {
    Receive,
    Send,
}

/// One attempt at an artifact, at a moment.
#[derive(Clone, Copy, Debug, PartialEq, Eq)]
pub struct Attempt<'a> {
    pub action: Action,
    /// The name of the Location it is made at.
    pub name: &'a String,
    /// When, in nanoseconds since the epoch.
    pub at: i128,
}

/// Why a credential was not accepted, in words.
#[derive(Clone, Debug, PartialEq, Eq)]
pub struct Refusal {
    pub said: String,
}

/// What the policies made of an attempt.
#[derive(Clone, Debug, PartialEq, Eq)]
pub struct Decision {
    pub allowed: bool,
    /// The decision in words.
    pub said: String,
}

/// Something observed on the connection.
#[derive(Clone, Debug, PartialEq, Eq)]
pub struct Property {
    pub name: String,
    pub value: String,
}

/// Bytes, how they got here, and whatever was observed.
#[derive(Clone, Debug, PartialEq, Eq)]
pub struct ReceivedStream {
    pub stream: Stream,
    /// Pushed, watched for or fetched on a schedule, in words.
    pub arriving: String,
    pub source_uri: String,
    pub transport_properties: Vec<Property>,
    /// What a transport passed on of its own accord.
    pub presented: Option<Presented>,
}

} // verus!
