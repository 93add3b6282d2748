//! What an operator is shown, as plain values: moods, lights, counts and the
//! words of a topology.

use vstd::prelude::*;

verus! {

/// A mood: how something is doing, from the one that needs nobody to the one
/// that does.
#[derive(Clone, Copy, Debug, PartialEq, Eq, Structural)]
pub enum Health {
    Fine,
    Paused,
    Working,
    Stressed,
    Exhausted,
    Done,
    Holding,
}

/// The light a node's own records are shown under.
#[derive(Clone, Copy, Debug, PartialEq, Eq, Structural)]
pub enum Light {
    Green,
    Yellow,
    Red,
}

#[derive(Clone, Copy, Debug, PartialEq, Eq, Structural)]
pub enum Counted {
    Streams,
    Messages,
    Journeys,
    Bytes,
    Retrying,
    Failed,
}

/// What stands at a place of a topology.
#[derive(Clone, Copy, Debug, PartialEq, Eq, Structural)]
pub enum NodeKind {
    Computer,
    Server,
    VirtualMachine,
    Gateway,
    Appliance,
    Service,
    Process,
    Interface,
    Port,
    Protocol,
    Location,
    Cluster,
    Node,
    Stage,
    Endpoint,
}

/// How a part of a topology is known.
#[derive(Clone, Copy, Debug, PartialEq, Eq, Structural)]
pub enum Origin {
    Configured,
    Observed,
    Both,
}

/// How the two ends of a link talk.
#[derive(Clone, Copy, Debug, PartialEq, Eq, Structural)]
pub enum Pattern {
    RequestResponse,
    SendReceive,
    PublishConsume,
    Streaming,
    FireAndForget,
    Session,
    Retry,
}

/// What one scope was found to be, when, and why.
#[derive(Debug, PartialEq, Eq)]
pub struct LightRecord {
    pub scope: String,
    pub light: Light,
    pub evidence: String,
    pub observed_unix_nanos: i64,
}

/// What a record says.
pub struct LightReading {
    pub scope: Seq<char>,
    pub light: Light,
    pub evidence: Seq<char>,
    pub observed_unix_nanos: i64,
}

impl View for LightRecord {
    type V = LightReading;

    open spec fn view(&self) -> LightReading {
        LightReading {
            scope: self.scope@,
            light: self.light,
            evidence: self.evidence@,
            observed_unix_nanos: self.observed_unix_nanos,
        }
    }
}

/// What each record says, in order.
pub open spec fn readings(records: Seq<LightRecord>) -> Seq<LightReading> {
    records.map_values(|record: LightRecord| record@)
}

/// How much of one thing passed in a window.
#[derive(Debug, PartialEq, Eq)]
pub struct Count {
    pub scope: String,
    pub counted: Counted,
    pub value: u64,
    pub window_start_unix_nanos: i64,
    pub window_end_unix_nanos: i64,
    pub observed_unix_nanos: i64,
}

} // verus!
