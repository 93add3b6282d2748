//! What ends a Message generation, and the three treatments an artifact
//! declares.
//!
//! Assignment changes metadata and keeps the Stream; Transformation produces a
//! new Stream. Neither edits anything.

use vstd::prelude::*;

use crate::message::{
    ExecutionProfile, Journey, JourneyMessageRef, Message, MessageContext, MessageCreationSource,
    MessageDurability, MessageId, MessagePriority, MessageSection, MessageTreatment, SectionId,
    Stream, StreamId,
};

verus! {

/// One Message and the Journey opened over it.
#[derive(Clone, Debug, PartialEq, Eq)]
pub struct ReceivedWork {
    pub journey: Journey,
    pub message: Message,
}

/// What the Journey's newest entry says of the Message.
pub open spec fn entry_of(message: Message) -> JourneyMessageRef {
    JourneyMessageRef {
        message_id: message.message_id,
        stream_id: message.sections@[0].stream.id,
    }
}

/// The Journey keeps up with the Message: it has held one for every generation
/// so far, and the one it holds now is this one.
pub open spec fn keeps_up(work: ReceivedWork) -> bool {
    &&& work.message.sections@.len() > 0
    &&& work.journey.messages@.len() == work.message.generation + 1
    &&& work.journey.messages@.last() == entry_of(work.message)
}

/// `after` is the next generation of `before`: the Journey goes on with every
/// entry it had and one more, and the treatment is what was declared.
pub open spec fn next_generation(before: ReceivedWork, after: ReceivedWork) -> bool {
    &&& after.journey.journey_id == before.journey.journey_id
    &&& after.journey.previous_journey_id == before.journey.previous_journey_id
    &&& after.journey.state == before.journey.state
    &&& after.journey.messages@ == before.journey.messages@.push(entry_of(after.message))
    &&& after.message.generation == before.message.generation + 1
    &&& after.message.treatment == before.message.treatment
}

/// Metadata changed. The Stream did not.
///
/// `drawn` is the identifier the next generation goes by. A Message without a
/// section has no Stream to hold.
pub fn apply_assignment(drawn: u128, work: ReceivedWork, context: MessageContext) -> (r:
    ReceivedWork)
    requires
        work.message.sections@.len() > 0,
        work.message.generation < u64::MAX,
    ensures
        next_generation(work, r),
        r.message.message_id == MessageId(drawn),
        r.message.sections == work.message.sections,
        r.message.context == context,
        r.message.created_by == MessageCreationSource::Assignment,
{
    let assigned = work.message.assigned(MessageId(drawn), context);
    let stream_id = assigned.sections[0].stream.id;
    ReceivedWork {
        journey: work.journey.holding(
            JourneyMessageRef { message_id: assigned.message_id, stream_id },
        ),
        message: assigned,
    }
}

/// Content changed, so there is a new Stream and a new generation.
///
/// `drawn` are the identifiers in the order they were drawn: the Stream's, the
/// Message's and the section's.
pub fn apply_transformation(
    drawn: [u128; 3],
    work: ReceivedWork,
    bytes: Vec<u8>,
    media_type: Option<String>,
) -> (r: ReceivedWork)
    requires
        work.message.sections@.len() > 0,
        work.message.generation < u64::MAX,
    ensures
        next_generation(work, r),
        r.message.message_id == MessageId(drawn[1]),
        r.message.sections@ == seq![
            MessageSection {
                section_id: SectionId(drawn[2]),
                name: work.message.sections@[0].name,
                stream: Stream { id: StreamId(drawn[0]), bytes, media_type },
                contract: None,
            },
        ],
        r.message.context == work.message.context,
        r.message.created_by == MessageCreationSource::Transformation,
{
    let stream_id = StreamId(drawn[0]);
    let message_id = MessageId(drawn[1]);
    let section = MessageSection {
        section_id: SectionId(drawn[2]),
        name: named(&work.message.sections[0].name),
        stream: Stream { id: stream_id, bytes, media_type },
        contract: None,
    };
    let transformed = work.message.transformed(
        message_id,
        vec![section],
        MessageCreationSource::Transformation,
    );
    ReceivedWork {
        journey: work.journey.holding(JourneyMessageRef { message_id, stream_id }),
        message: transformed,
    }
}

/// The name a section goes on under.
fn named(name: &Option<String>) -> (r: Option<String>)
    ensures
        r == *name,
{
    match name {
        Some(text) => Some(text.clone()),
        None => None,
    }
}

/// A caller is waiting. Latency over history.
pub fn conversation() -> (r: MessageTreatment)
    ensures
        r.priority == MessagePriority::Immediate,
        r.execution_profile == ExecutionProfile::Conversation,
        r.durability == MessageDurability::Ephemeral,
{
    MessageTreatment {
        priority: MessagePriority::Immediate,
        execution_profile: ExecutionProfile::Conversation,
        durability: MessageDurability::Ephemeral,
    }
}

/// The default. Full history, full recovery.
pub fn business() -> (r: MessageTreatment)
    ensures
        r.priority == MessagePriority::Normal,
        r.execution_profile == ExecutionProfile::Business,
        r.durability == MessageDurability::Recoverable,
{
    MessageTreatment {
        priority: MessagePriority::Normal,
        execution_profile: ExecutionProfile::Business,
        durability: MessageDurability::Recoverable,
    }
}

/// Moved, not understood.
pub fn pass_through() -> (r: MessageTreatment)
    ensures
        r.priority == MessagePriority::Background,
        r.execution_profile == ExecutionProfile::PassThrough,
        r.durability == MessageDurability::Durable,
{
    MessageTreatment {
        priority: MessagePriority::Background,
        execution_profile: ExecutionProfile::PassThrough,
        durability: MessageDurability::Durable,
    }
}

/// A Journey that keeps up with its Message keeps up with the next generation,
/// and every entry it had is where it was.
pub proof fn law_the_journey_keeps_up_with_every_generation(
    before: ReceivedWork,
    after: ReceivedWork,
)
    requires
        keeps_up(before),
        next_generation(before, after),
        after.message.sections@.len() > 0,
    ensures
        keeps_up(after),
        after.journey.messages@.take(before.journey.messages@.len() as int)
            == before.journey.messages@,
{
    assert(after.journey.messages@.take(before.journey.messages@.len() as int)
        =~= before.journey.messages@);
}

/// What the Journey goes on with when a generation ends: every entry it had
/// where it was, and one more, for the Message that comes of it and the Stream
/// that Message carries. It stays the same Journey, and the Message keeps the
/// treatment that was declared for it, one generation on.
pub open spec fn carried_on(before: ReceivedWork, after: ReceivedWork) -> bool {
    &&& after.journey.journey_id == before.journey.journey_id
    &&& after.journey.previous_journey_id == before.journey.previous_journey_id
    &&& after.journey.state == before.journey.state
    &&& after.journey.messages@.len() == before.journey.messages@.len() + 1
    &&& forall|i: int|
        0 <= i < before.journey.messages@.len() ==> #[trigger] after.journey.messages@[i]
            == before.journey.messages@[i]
    &&& after.journey.messages@.last().message_id == after.message.message_id
    &&& after.journey.messages@.last().stream_id == after.message.sections@[0].stream.id
    &&& after.message.generation == before.message.generation + 1
    &&& after.message.treatment == before.message.treatment
}

/// An assignment changes the metadata and nothing else: every section, with its
/// Stream, is what it was, under the identifier that was drawn.
pub proof fn law_an_assignment_keeps_the_streams(
    drawn: u128,
    before: ReceivedWork,
    context: MessageContext,
    after: ReceivedWork,
)
    requires
        before.message.sections@.len() > 0,
        call_ensures(apply_assignment, (drawn, before, context), after),
    ensures
        carried_on(before, after),
        after.message.message_id == MessageId(drawn),
        after.message.sections@ == before.message.sections@,
        after.journey.messages@.last().stream_id == before.message.sections@[0].stream.id,
        after.message.context@ == context@,
        after.message.created_by == MessageCreationSource::Assignment,
{
}

/// A transformation changes the content and nothing else: the metadata and the
/// section's name are what they were, over one new Stream of the bytes and the
/// media type it came to, and each identifier stands where it was drawn for.
pub proof fn law_a_transformation_keeps_the_metadata(
    drawn: [u128; 3],
    before: ReceivedWork,
    bytes: Vec<u8>,
    media_type: Option<String>,
    after: ReceivedWork,
)
    requires
        before.message.sections@.len() > 0,
        call_ensures(apply_transformation, (drawn, before, bytes, media_type), after),
    ensures
        carried_on(before, after),
        after.message.message_id == MessageId(drawn[1]),
        after.message.sections@.len() == 1,
        after.message.sections@[0].section_id == SectionId(drawn[2]),
        after.message.sections@[0].name == before.message.sections@[0].name,
        after.message.sections@[0].contract == None::<String>,
        after.message.sections@[0].stream.id == StreamId(drawn[0]),
        after.message.sections@[0].stream.bytes@ == bytes@,
        after.message.sections@[0].stream.media_type == media_type,
        after.message.context@ == before.message.context@,
        after.message.created_by == MessageCreationSource::Transformation,
{
}

/// The three treatments differ in every respect, and only a conversation, whose
/// caller waits, is immediate and survives nothing.
pub proof fn law_the_treatments_differ(
    waiting: MessageTreatment,
    usual: MessageTreatment,
    moved: MessageTreatment,
)
    requires
        call_ensures(conversation, (), waiting),
        call_ensures(business, (), usual),
        call_ensures(pass_through, (), moved),
    ensures
        waiting.priority != usual.priority && usual.priority != moved.priority && waiting.priority
            != moved.priority,
        waiting.execution_profile == ExecutionProfile::Conversation,
        usual.execution_profile == ExecutionProfile::Business,
        moved.execution_profile == ExecutionProfile::PassThrough,
        waiting.durability != usual.durability && usual.durability != moved.durability
            && waiting.durability != moved.durability,
        waiting.priority == MessagePriority::Immediate,
        waiting.durability == MessageDurability::Ephemeral,
        usual.durability == MessageDurability::Recoverable,
{
}

} // verus!
