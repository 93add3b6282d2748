//! The header's integers for what is observed, in both directions.
//!
//! The header carries health, the counted thing and a topology's kind, origin
//! and pattern as `int`. The moods' and the counted things' integers are the
//! header's own and are handed in; a topology's words stand in the header in
//! the order they are listed in, from zero. A value the header does not name is
//! `None`.

use vstd::prelude::*;

use crate::observe::{Counted, Health, Light, NodeKind, Origin, Pattern};

verus! {

/// The header's integer for each mood.
#[derive(Clone, Copy, Debug, PartialEq, Eq, Structural)]
pub struct HealthCodes {
    pub fine: i32,
    pub paused: i32,
    pub working: i32,
    pub stressed: i32,
    pub exhausted: i32,
    pub done: i32,
    pub holding: i32,
}

/// The header's integer for each light.
#[derive(Clone, Copy, Debug, PartialEq, Eq, Structural)]
pub struct LightCodes {
    pub green: i32,
    pub yellow: i32,
    pub red: i32,
}

/// The header's integer for each counted thing.
#[derive(Clone, Copy, Debug, PartialEq, Eq, Structural)]
pub struct CountedCodes {
    pub streams: i32,
    pub messages: i32,
    pub journeys: i32,
    pub bytes: i32,
    pub retrying: i32,
    pub failed: i32,
}

impl HealthCodes {
    pub open spec fn code(self, value: Health) -> i32 {
        match value {
            Health::Fine => self.fine,
            Health::Paused => self.paused,
            Health::Working => self.working,
            Health::Stressed => self.stressed,
            Health::Exhausted => self.exhausted,
            Health::Done => self.done,
            Health::Holding => self.holding,
        }
    }

    /// `read` is the mood an integer stands for, and nothing only where it stands
    /// for none.
    pub open spec fn reads(self, value: i32, read: Option<Health>) -> bool {
        match read {
            Some(health) => self.code(health) == value,
            None => forall|health: Health| #[trigger] self.code(health) != value,
        }
    }

    /// No two moods share an integer.
    pub open spec fn distinct(self) -> bool {
        forall|a: Health, b: Health| #[trigger] self.code(a) == #[trigger] self.code(b) ==> a == b
    }
}

impl LightCodes {
    pub open spec fn code(self, value: Light) -> i32 {
        match value {
            Light::Green => self.green,
            Light::Yellow => self.yellow,
            Light::Red => self.red,
        }
    }
}

impl CountedCodes {
    pub open spec fn code(self, value: Counted) -> i32 {
        match value {
            Counted::Streams => self.streams,
            Counted::Messages => self.messages,
            Counted::Journeys => self.journeys,
            Counted::Bytes => self.bytes,
            Counted::Retrying => self.retrying,
            Counted::Failed => self.failed,
        }
    }

    /// `read` is the counted thing an integer stands for, and nothing only where
    /// it stands for none.
    pub open spec fn reads(self, value: i32, read: Option<Counted>) -> bool {
        match read {
            Some(counted) => self.code(counted) == value,
            None => forall|counted: Counted| #[trigger] self.code(counted) != value,
        }
    }

    /// No two counted things share an integer.
    pub open spec fn distinct(self) -> bool {
        forall|a: Counted, b: Counted| #[trigger]
            self.code(a) == #[trigger] self.code(b) ==> a == b
    }
}

/// The header's `int` for a mood.
pub fn wire_health(codes: &HealthCodes, value: Health) -> (r: i32)
    ensures
        r == codes.code(value),
{
    match value {
        Health::Fine => codes.fine,
        Health::Paused => codes.paused,
        Health::Working => codes.working,
        Health::Stressed => codes.stressed,
        Health::Exhausted => codes.exhausted,
        Health::Done => codes.done,
        Health::Holding => codes.holding,
    }
}

/// The mood for the header's `int`, or `None` for a value the header does not
/// define.
pub fn from_wire_health(codes: &HealthCodes, value: i32) -> (r: Option<Health>)
    ensures
        codes.reads(value, r),
{
    if value == codes.fine {
        Some(Health::Fine)
    } else if value == codes.paused {
        Some(Health::Paused)
    } else if value == codes.working {
        Some(Health::Working)
    } else if value == codes.stressed {
        Some(Health::Stressed)
    } else if value == codes.exhausted {
        Some(Health::Exhausted)
    } else if value == codes.done {
        Some(Health::Done)
    } else if value == codes.holding {
        Some(Health::Holding)
    } else {
        None
    }
}

/// The header's `int` for a light.
pub fn wire_light(codes: &LightCodes, value: Light) -> (r: i32)
    ensures
        r == codes.code(value),
{
    match value {
        Light::Green => codes.green,
        Light::Yellow => codes.yellow,
        Light::Red => codes.red,
    }
}

/// The counted thing for the header's `int`, or `None`.
pub fn from_wire_counted(codes: &CountedCodes, value: i32) -> (r: Option<Counted>)
    ensures
        codes.reads(value, r),
{
    if value == codes.streams {
        Some(Counted::Streams)
    } else if value == codes.messages {
        Some(Counted::Messages)
    } else if value == codes.journeys {
        Some(Counted::Journeys)
    } else if value == codes.bytes {
        Some(Counted::Bytes)
    } else if value == codes.retrying {
        Some(Counted::Retrying)
    } else if value == codes.failed {
        Some(Counted::Failed)
    } else {
        None
    }
}

/// The header's `int` for a counted thing.
pub fn wire_counted(codes: &CountedCodes, value: Counted) -> (r: i32)
    ensures
        r == codes.code(value),
{
    match value {
        Counted::Streams => codes.streams,
        Counted::Messages => codes.messages,
        Counted::Journeys => codes.journeys,
        Counted::Bytes => codes.bytes,
        Counted::Retrying => codes.retrying,
        Counted::Failed => codes.failed,
    }
}

/// The kinds of the header, in its order.
pub open spec fn kinds() -> Seq<NodeKind> {
    seq![
        NodeKind::Computer,
        NodeKind::Server,
        NodeKind::VirtualMachine,
        NodeKind::Gateway,
        NodeKind::Appliance,
        NodeKind::Service,
        NodeKind::Process,
        NodeKind::Interface,
        NodeKind::Port,
        NodeKind::Protocol,
        NodeKind::Location,
        NodeKind::Cluster,
        NodeKind::Node,
        NodeKind::Stage,
        NodeKind::Endpoint,
    ]
}

/// The origins of the header, in its order.
pub open spec fn origins() -> Seq<Origin> {
    seq![Origin::Configured, Origin::Observed, Origin::Both]
}

/// The patterns of the header, in its order.
pub open spec fn patterns() -> Seq<Pattern> {
    seq![
        Pattern::RequestResponse,
        Pattern::SendReceive,
        Pattern::PublishConsume,
        Pattern::Streaming,
        Pattern::FireAndForget,
        Pattern::Session,
        Pattern::Retry,
    ]
}

/// `value` reads as the word that stands at its place, and as nothing where
/// there is no such place.
pub open spec fn reads_as<T>(words: Seq<T>, value: i32, word: Option<T>) -> bool {
    if 0 <= value < words.len() {
        word == Some(words[value as int])
    } else {
        word is None
    }
}

/// The header's `XmipTopologyKind` for a kind.
pub fn wire_kind(value: NodeKind) -> (r: i32)
    ensures
        0 <= r < kinds().len(),
        kinds()[r as int] == value,
{
    match value {
        NodeKind::Computer => 0,
        NodeKind::Server => 1,
        NodeKind::VirtualMachine => 2,
        NodeKind::Gateway => 3,
        NodeKind::Appliance => 4,
        NodeKind::Service => 5,
        NodeKind::Process => 6,
        NodeKind::Interface => 7,
        NodeKind::Port => 8,
        NodeKind::Protocol => 9,
        NodeKind::Location => 10,
        NodeKind::Cluster => 11,
        NodeKind::Node => 12,
        NodeKind::Stage => 13,
        NodeKind::Endpoint => 14,
    }
}

/// The kind for the header's `XmipTopologyKind`, or `None`.
pub fn from_wire_kind(value: i32) -> (r: Option<NodeKind>)
    ensures
        reads_as(kinds(), value, r),
{
    match value {
        0 => Some(NodeKind::Computer),
        1 => Some(NodeKind::Server),
        2 => Some(NodeKind::VirtualMachine),
        3 => Some(NodeKind::Gateway),
        4 => Some(NodeKind::Appliance),
        5 => Some(NodeKind::Service),
        6 => Some(NodeKind::Process),
        7 => Some(NodeKind::Interface),
        8 => Some(NodeKind::Port),
        9 => Some(NodeKind::Protocol),
        10 => Some(NodeKind::Location),
        11 => Some(NodeKind::Cluster),
        12 => Some(NodeKind::Node),
        13 => Some(NodeKind::Stage),
        14 => Some(NodeKind::Endpoint),
        _ => None,
    }
}

/// The header's `XmipTopologyOrigin` for an origin.
pub fn wire_origin(value: Origin) -> (r: i32)
    ensures
        0 <= r < origins().len(),
        origins()[r as int] == value,
{
    match value {
        Origin::Configured => 0,
        Origin::Observed => 1,
        Origin::Both => 2,
    }
}

/// The origin for the header's `XmipTopologyOrigin`, or `None`.
pub fn from_wire_origin(value: i32) -> (r: Option<Origin>)
    ensures
        reads_as(origins(), value, r),
{
    match value {
        0 => Some(Origin::Configured),
        1 => Some(Origin::Observed),
        2 => Some(Origin::Both),
        _ => None,
    }
}

/// The header's `XmipCommunicationPattern` for a pattern.
pub fn wire_pattern(value: Pattern) -> (r: i32)
    ensures
        0 <= r < patterns().len(),
        patterns()[r as int] == value,
{
    match value {
        Pattern::RequestResponse => 0,
        Pattern::SendReceive => 1,
        Pattern::PublishConsume => 2,
        Pattern::Streaming => 3,
        Pattern::FireAndForget => 4,
        Pattern::Session => 5,
        Pattern::Retry => 6,
    }
}

/// The pattern for the header's `XmipCommunicationPattern`, or `None`.
pub fn from_wire_pattern(value: i32) -> (r: Option<Pattern>)
    ensures
        reads_as(patterns(), value, r),
{
    match value {
        0 => Some(Pattern::RequestResponse),
        1 => Some(Pattern::SendReceive),
        2 => Some(Pattern::PublishConsume),
        3 => Some(Pattern::Streaming),
        4 => Some(Pattern::FireAndForget),
        5 => Some(Pattern::Session),
        6 => Some(Pattern::Retry),
        _ => None,
    }
}

/// Every word of a topology stands at one place, so that what crosses comes
/// back: a value that reads as a word is the only one that does.
pub proof fn law_topology_words_stand_at_one_place()
    ensures
        kinds().no_duplicates(),
        origins().no_duplicates(),
        patterns().no_duplicates(),
        forall|kind: NodeKind| kinds().contains(kind),
        forall|origin: Origin| origins().contains(origin),
        forall|pattern: Pattern| patterns().contains(pattern),
{
    assert forall|kind: NodeKind| kinds().contains(kind) by {
        let at: int = match kind {
            NodeKind::Computer => 0,
            NodeKind::Server => 1,
            NodeKind::VirtualMachine => 2,
            NodeKind::Gateway => 3,
            NodeKind::Appliance => 4,
            NodeKind::Service => 5,
            NodeKind::Process => 6,
            NodeKind::Interface => 7,
            NodeKind::Port => 8,
            NodeKind::Protocol => 9,
            NodeKind::Location => 10,
            NodeKind::Cluster => 11,
            NodeKind::Node => 12,
            NodeKind::Stage => 13,
            NodeKind::Endpoint => 14,
        };
        assert(kinds()[at] == kind);
    }
    assert forall|origin: Origin| origins().contains(origin) by {
        let at: int = match origin {
            Origin::Configured => 0,
            Origin::Observed => 1,
            Origin::Both => 2,
        };
        assert(origins()[at] == origin);
    }
    assert forall|pattern: Pattern| patterns().contains(pattern) by {
        let at: int = match pattern {
            Pattern::RequestResponse => 0,
            Pattern::SendReceive => 1,
            Pattern::PublishConsume => 2,
            Pattern::Streaming => 3,
            Pattern::FireAndForget => 4,
            Pattern::Session => 5,
            Pattern::Retry => 6,
        };
        assert(patterns()[at] == pattern);
    }
}

/// A mood that crosses as an integer is read back as itself, where no two moods
/// share one.
pub proof fn law_a_mood_comes_back(codes: HealthCodes, sent: Health, read: Option<Health>)
    requires
        codes.distinct(),
        codes.reads(codes.code(sent), read),
    ensures
        read == Some(sent),
{
}

/// A counted thing that crosses as an integer is read back as itself, where no
/// two of them share one.
pub proof fn law_a_counted_thing_comes_back(
    codes: CountedCodes,
    sent: Counted,
    read: Option<Counted>,
)
    requires
        codes.distinct(),
        codes.reads(codes.code(sent), read),
    ensures
        read == Some(sent),
{
}

/// A mood crosses as the integer the header has for that mood, and a light and a
/// counted thing as theirs.
pub proof fn law_each_value_crosses_as_its_own_integer(
    moods: HealthCodes,
    health: Health,
    mood: i32,
    lights: LightCodes,
    light: Light,
    shown: i32,
    kinds: CountedCodes,
    counted: Counted,
    kind: i32,
)
    requires
        call_ensures(wire_health, (&moods, health), mood),
        call_ensures(wire_light, (&lights, light), shown),
        call_ensures(wire_counted, (&kinds, counted), kind),
    ensures
        health == Health::Fine ==> mood == moods.fine,
        health == Health::Paused ==> mood == moods.paused,
        health == Health::Working ==> mood == moods.working,
        health == Health::Stressed ==> mood == moods.stressed,
        health == Health::Exhausted ==> mood == moods.exhausted,
        health == Health::Done ==> mood == moods.done,
        health == Health::Holding ==> mood == moods.holding,
        mood == moods.code(health),
        light == Light::Green ==> shown == lights.green,
        light == Light::Yellow ==> shown == lights.yellow,
        light == Light::Red ==> shown == lights.red,
        shown == lights.code(light),
        counted == Counted::Streams ==> kind == kinds.streams,
        counted == Counted::Messages ==> kind == kinds.messages,
        counted == Counted::Journeys ==> kind == kinds.journeys,
        counted == Counted::Bytes ==> kind == kinds.bytes,
        counted == Counted::Retrying ==> kind == kinds.retrying,
        counted == Counted::Failed ==> kind == kinds.failed,
        kind == kinds.code(counted),
{
}

/// What is sent is what is read: an integer reads as the value that crosses as
/// it, and as none exactly where no value does.
pub proof fn law_what_crosses_comes_back(
    moods: HealthCodes,
    health: Health,
    mood: i32,
    read: Option<Health>,
    kinds: CountedCodes,
    counted: Counted,
    kind: i32,
    found: Option<Counted>,
)
    requires
        call_ensures(wire_health, (&moods, health), mood),
        call_ensures(from_wire_health, (&moods, mood), read),
        call_ensures(wire_counted, (&kinds, counted), kind),
        call_ensures(from_wire_counted, (&kinds, kind), found),
    ensures
        read is Some,
        read != Some(health) ==> moods.code(read->0) == moods.code(health),
        found is Some,
        found != Some(counted) ==> kinds.code(found->0) == kinds.code(counted),
{
}

/// A topology's kind, origin and pattern cross as their place in the header's
/// order, counted from zero, come back from it, and a value beyond the last
/// place stands for nothing.
pub proof fn law_topology_values_cross_as_their_place(
    kind: NodeKind,
    kind_sent: i32,
    origin: Origin,
    origin_sent: i32,
    pattern: Pattern,
    pattern_sent: i32,
    value: i32,
    kind_read: Option<NodeKind>,
    origin_read: Option<Origin>,
    pattern_read: Option<Pattern>,
)
    requires
        call_ensures(wire_kind, (kind,), kind_sent),
        call_ensures(wire_origin, (origin,), origin_sent),
        call_ensures(wire_pattern, (pattern,), pattern_sent),
        call_ensures(from_wire_kind, (value,), kind_read),
        call_ensures(from_wire_origin, (value,), origin_read),
        call_ensures(from_wire_pattern, (value,), pattern_read),
    ensures
        value == kind_sent ==> kind_read == Some(kind),
        value == origin_sent ==> origin_read == Some(origin),
        value == pattern_sent ==> pattern_read == Some(pattern),
        kind_read is Some <==> 0 <= value <= 14,
        origin_read is Some <==> 0 <= value <= 2,
        pattern_read is Some <==> 0 <= value <= 6,
        kind == NodeKind::Computer <==> kind_sent == 0,
        kind == NodeKind::Server <==> kind_sent == 1,
        kind == NodeKind::VirtualMachine <==> kind_sent == 2,
        kind == NodeKind::Gateway <==> kind_sent == 3,
        kind == NodeKind::Appliance <==> kind_sent == 4,
        kind == NodeKind::Service <==> kind_sent == 5,
        kind == NodeKind::Process <==> kind_sent == 6,
        kind == NodeKind::Interface <==> kind_sent == 7,
        kind == NodeKind::Port <==> kind_sent == 8,
        kind == NodeKind::Protocol <==> kind_sent == 9,
        kind == NodeKind::Location <==> kind_sent == 10,
        kind == NodeKind::Cluster <==> kind_sent == 11,
        kind == NodeKind::Node <==> kind_sent == 12,
        kind == NodeKind::Stage <==> kind_sent == 13,
        kind == NodeKind::Endpoint <==> kind_sent == 14,
        origin == Origin::Configured <==> origin_sent == 0,
        origin == Origin::Observed <==> origin_sent == 1,
        origin == Origin::Both <==> origin_sent == 2,
        pattern == Pattern::RequestResponse <==> pattern_sent == 0,
        pattern == Pattern::SendReceive <==> pattern_sent == 1,
        pattern == Pattern::PublishConsume <==> pattern_sent == 2,
        pattern == Pattern::Streaming <==> pattern_sent == 3,
        pattern == Pattern::FireAndForget <==> pattern_sent == 4,
        pattern == Pattern::Session <==> pattern_sent == 5,
        pattern == Pattern::Retry <==> pattern_sent == 6,
{
}

} // verus!
