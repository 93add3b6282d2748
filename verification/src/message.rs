//! Messages, the Streams they carry and the Journeys that hold them, as plain
//! values.
//!
//! A Message is never edited. What changes one makes the next: another
//! identifier, one generation on.

use vstd::prelude::*;
use vstd::string::*;

verus! {

#[derive(Clone, Copy, Debug, PartialEq, Eq, Structural)]
pub struct StreamId(pub u128);

#[derive(Clone, Copy, Debug, PartialEq, Eq, Structural)]
pub struct MessageId(pub u128);

#[derive(Clone, Copy, Debug, PartialEq, Eq, Structural)]
pub struct SectionId(pub u128);

#[derive(Clone, Copy, Debug, PartialEq, Eq, Structural)]
pub struct JourneyId(pub u128);

/// Bytes under an identifier.
#[derive(Clone, Debug, PartialEq, Eq)]
pub struct Stream {
    pub id: StreamId,
    pub bytes: Vec<u8>,
    pub media_type: Option<String>,
}

#[derive(Clone, Debug, PartialEq, Eq)]
pub struct MessageSection {
    pub section_id: SectionId,
    pub name: Option<String>,
    pub stream: Stream,
    pub contract: Option<String>,
}

/// What a Subscription may read of a Message.
#[derive(Clone, Debug, PartialEq, Eq)]
pub enum ContextValue {
    Text(String),
    Bool(bool),
}

/// What a context value reads as.
pub enum ContextReading {
    Text(Seq<char>),
    Bool(bool),
}

impl View for ContextValue {
    type V = ContextReading;

    open spec fn view(&self) -> ContextReading {
        match self {
            ContextValue::Text(text) => ContextReading::Text(text@),
            ContextValue::Bool(held) => ContextReading::Bool(*held),
        }
    }
}

#[derive(Clone, Debug, PartialEq, Eq)]
pub struct ContextEntry {
    pub name: String,
    pub value: ContextValue,
}

impl View for ContextEntry {
    type V = (Seq<char>, ContextReading);

    open spec fn view(&self) -> (Seq<char>, ContextReading) {
        (self.name@, self.value@)
    }
}

/// Named values, in the order they were put there.
#[derive(Clone, Debug, PartialEq, Eq)]
pub struct MessageContext {
    pub entries: Vec<ContextEntry>,
}

impl View for MessageContext {
    type V = Seq<(Seq<char>, ContextReading)>;

    open spec fn view(&self) -> Seq<(Seq<char>, ContextReading)> {
        self.entries@.map_values(|entry: ContextEntry| entry@)
    }
}

impl MessageContext {
    pub fn new() -> (r: Self)
        ensures
            r@ == Seq::<(Seq<char>, ContextReading)>::empty(),
    {
        let context = MessageContext { entries: Vec::new() };
        assert(context@ =~= Seq::<(Seq<char>, ContextReading)>::empty());
        context
    }

    pub fn with_text(self, name: &str, text: &str) -> (r: Self)
        ensures
            r@ == self@.push((name@, ContextReading::Text(text@))),
    {
        let ghost before = self@;
        let mut entries = self.entries;
        entries.push(
            ContextEntry { name: name.to_string(), value: ContextValue::Text(text.to_string()) },
        );
        let context = MessageContext { entries };
        assert(context@ =~= before.push((name@, ContextReading::Text(text@))));
        context
    }

    pub fn with_bool(self, name: &str, held: bool) -> (r: Self)
        ensures
            r@ == self@.push((name@, ContextReading::Bool(held))),
    {
        let ghost before = self@;
        let mut entries = self.entries;
        entries.push(ContextEntry { name: name.to_string(), value: ContextValue::Bool(held) });
        let context = MessageContext { entries };
        assert(context@ =~= before.push((name@, ContextReading::Bool(held))));
        context
    }
}

#[derive(Clone, Copy, Debug, PartialEq, Eq, Structural)]
pub enum MessagePriority {
    Immediate,
    Normal,
    Background,
}

#[derive(Clone, Copy, Debug, PartialEq, Eq, Structural)]
pub enum ExecutionProfile {
    Conversation,
    Business,
    PassThrough,
}

#[derive(Clone, Copy, Debug, PartialEq, Eq, Structural)]
pub enum MessageDurability {
    Ephemeral,
    Recoverable,
    Durable,
}

/// How a Message asks to be treated.
#[derive(Clone, Copy, Debug, PartialEq, Eq, Structural)]
pub struct MessageTreatment {
    pub priority: MessagePriority,
    pub execution_profile: ExecutionProfile,
    pub durability: MessageDurability,
}

#[derive(Clone, Copy, Debug, PartialEq, Eq, Structural)]
pub enum MessageCreationSource {
    Receive,
    Assignment,
    Transformation,
}

#[derive(Clone, Debug, PartialEq, Eq)]
pub struct Message {
    pub message_id: MessageId,
    pub generation: u64,
    pub sections: Vec<MessageSection>,
    pub context: MessageContext,
    pub treatment: MessageTreatment,
    pub created_by: MessageCreationSource,
}

impl Message {
    /// The first of its generations.
    pub fn received(
        message_id: MessageId,
        sections: Vec<MessageSection>,
        context: MessageContext,
        treatment: MessageTreatment,
    ) -> (r: Self)
        ensures
            r.message_id == message_id,
            r.generation == 0,
            r.sections == sections,
            r.context == context,
            r.treatment == treatment,
            r.created_by == MessageCreationSource::Receive,
    {
        Message {
            message_id,
            generation: 0,
            sections,
            context,
            treatment,
            created_by: MessageCreationSource::Receive,
        }
    }

    /// The next generation with other metadata over the same Streams.
    pub fn assigned(self, message_id: MessageId, context: MessageContext) -> (r: Self)
        requires
            self.generation < u64::MAX,
        ensures
            r.message_id == message_id,
            r.generation == self.generation + 1,
            r.sections == self.sections,
            r.context == context,
            r.treatment == self.treatment,
            r.created_by == MessageCreationSource::Assignment,
    {
        Message {
            message_id,
            generation: self.generation + 1,
            sections: self.sections,
            context,
            treatment: self.treatment,
            created_by: MessageCreationSource::Assignment,
        }
    }

    /// The next generation with other content.
    pub fn transformed(
        self,
        message_id: MessageId,
        sections: Vec<MessageSection>,
        created_by: MessageCreationSource,
    ) -> (r: Self)
        requires
            self.generation < u64::MAX,
        ensures
            r.message_id == message_id,
            r.generation == self.generation + 1,
            r.sections == sections,
            r.context == self.context,
            r.treatment == self.treatment,
            r.created_by == created_by,
    {
        Message {
            message_id,
            generation: self.generation + 1,
            sections,
            context: self.context,
            treatment: self.treatment,
            created_by,
        }
    }
}

/// One Message a Journey has held, and the Stream it carried.
#[derive(Clone, Copy, Debug, PartialEq, Eq, Structural)]
pub struct JourneyMessageRef {
    pub message_id: MessageId,
    pub stream_id: StreamId,
}

/// Whether a Journey still runs.
#[derive(Clone, Copy, Debug, PartialEq, Eq, Structural)]
pub enum JourneyState {
    Active,
    Ended,
}

impl JourneyState {
    pub fn is_terminal(&self) -> (r: bool)
        ensures
            r == (*self == JourneyState::Ended),
    {
        matches!(*self, JourneyState::Ended)
    }
}

/// A line of execution, and every Message it has held.
#[derive(Clone, Debug, PartialEq, Eq)]
pub struct Journey {
    pub journey_id: JourneyId,
    pub previous_journey_id: Option<JourneyId>,
    pub state: JourneyState,
    pub messages: Vec<JourneyMessageRef>,
}

impl Journey {
    pub fn new(journey_id: JourneyId) -> (r: Self)
        ensures
            r.journey_id == journey_id,
            r.previous_journey_id == None::<JourneyId>,
            r.state == JourneyState::Active,
            r.messages@ == Seq::<JourneyMessageRef>::empty(),
    {
        Journey {
            journey_id,
            previous_journey_id: None,
            state: JourneyState::Active,
            messages: Vec::new(),
        }
    }

    pub fn holding(self, held: JourneyMessageRef) -> (r: Self)
        ensures
            r.journey_id == self.journey_id,
            r.previous_journey_id == self.previous_journey_id,
            r.state == self.state,
            r.messages@ == self.messages@.push(held),
    {
        let mut messages = self.messages;
        messages.push(held);
        Journey {
            journey_id: self.journey_id,
            previous_journey_id: self.previous_journey_id,
            state: self.state,
            messages,
        }
    }
}

/// A context keeps everything that was put there, in order, and what is put
/// there last stands last, under the name it was given.
pub proof fn law_a_context_keeps_what_was_put_there(
    before: MessageContext,
    name: &str,
    text: &str,
    worded: MessageContext,
    held: bool,
    flagged: MessageContext,
)
    requires
        call_ensures(MessageContext::with_text, (before, name, text), worded),
        call_ensures(MessageContext::with_bool, (before, name, held), flagged),
    ensures
        worded@.len() == before@.len() + 1,
        worded@.last().0 == name@,
        worded@.last().1 == ContextReading::Text(text@),
        flagged@.len() == before@.len() + 1,
        flagged@.last().0 == name@,
        flagged@.last().1 == ContextReading::Bool(held),
        forall|i: int|
            0 <= i < before@.len() ==> #[trigger] worded@[i] == before@[i] && flagged@[i]
                == before@[i],
{
}

/// A Journey that begins runs, follows nothing and has held nothing; one that
/// goes on keeps every Message it held and holds one more; and one that has
/// ended is the only one at its end.
pub proof fn law_a_journey_holds_every_message(
    id: JourneyId,
    begun: Journey,
    before: Journey,
    held: JourneyMessageRef,
    after: Journey,
    state: JourneyState,
    ended: bool,
)
    requires
        call_ensures(Journey::new, (id,), begun),
        call_ensures(Journey::holding, (before, held), after),
        call_ensures(JourneyState::is_terminal, (&state,), ended),
    ensures
        begun.journey_id == id,
        begun.state == JourneyState::Active,
        begun.previous_journey_id == None::<JourneyId>,
        begun.messages@.len() == 0,
        after.journey_id == before.journey_id,
        after.previous_journey_id == before.previous_journey_id,
        after.state == before.state,
        after.messages@.len() == before.messages@.len() + 1,
        after.messages@.last() == held,
        forall|i: int|
            0 <= i < before.messages@.len() ==> #[trigger] after.messages@[i]
                == before.messages@[i],
        ended <==> state == JourneyState::Ended,
{
}

} // verus!
