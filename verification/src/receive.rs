//! Arrival of plain bytes: a Stream comes in, a Message is made, a Journey
//! opens over it.

use vstd::prelude::*;
use vstd::string::*;

use crate::message::{
    Journey, JourneyId, JourneyMessageRef, JourneyState, Message, MessageContext,
    MessageCreationSource, MessageId, MessageSection, MessageTreatment, SectionId, Stream,
    StreamId,
};

pub use crate::generation::{
    apply_assignment, apply_transformation, business, conversation, pass_through, ReceivedWork,
};

verus! {

/// Something arriving from outside Xmip.
///
/// The transport that produced it is not recorded here. Routing reads promoted
/// context, and by this point how the bytes arrived is a fact for the audit
/// trail rather than an input to any decision.
#[derive(Clone, Debug, Eq, PartialEq)]
pub enum Arrival {
    File { media_type: Option<String> },
    HttpRequest { media_type: Option<String> },
}

impl Arrival {
    /// The media type the bytes came with.
    pub open spec fn arriving_as(self) -> Option<String> {
        match self {
            Arrival::File { media_type } => media_type,
            Arrival::HttpRequest { media_type } => media_type,
        }
    }

    pub fn media_type(&self) -> (r: Option<&str>)
        ensures
            r is Some == self.arriving_as() is Some,
            r matches Some(text) ==> text@ == self.arriving_as()->0@,
    {
        let media_type = match self {
            Arrival::File { media_type } => media_type,
            Arrival::HttpRequest { media_type } => media_type,
        };
        match media_type {
            Some(text) => Some(text.as_str()),
            None => None,
        }
    }
}

/// Take arriving bytes and open a Journey over them.
///
/// `drawn` are the identifiers in the order they were drawn: the Stream's, the
/// Message's, the section's and the Journey's.
pub fn receive(
    drawn: [u128; 4],
    arrival: &Arrival,
    bytes: Vec<u8>,
    treatment: MessageTreatment,
) -> (r: ReceivedWork)
    ensures
        crate::generation::keeps_up(r),
        r.message.message_id == MessageId(drawn[1]),
        r.message.generation == 0,
        r.message.sections@.len() == 1,
        r.message.sections@[0].section_id == SectionId(drawn[2]),
        r.message.sections@[0].name == None::<String>,
        r.message.sections@[0].contract == None::<String>,
        r.message.sections@[0].stream.id == StreamId(drawn[0]),
        r.message.sections@[0].stream.bytes == bytes,
        r.message.sections@[0].stream.media_type is Some == arrival.arriving_as() is Some,
        r.message.sections@[0].stream.media_type matches Some(text) ==> text@
            == arrival.arriving_as()->0@,
        r.message.context@.len() == 0,
        r.message.treatment == treatment,
        r.message.created_by == MessageCreationSource::Receive,
        r.journey.journey_id == JourneyId(drawn[3]),
        r.journey.previous_journey_id == None::<JourneyId>,
        r.journey.state == JourneyState::Active,
{
    let stream_id = StreamId(drawn[0]);
    let message_id = MessageId(drawn[1]);
    let media_type = match arrival.media_type() {
        Some(text) => Some(text.to_string()),
        None => None,
    };
    let section = MessageSection {
        section_id: SectionId(drawn[2]),
        name: None,
        stream: Stream { id: stream_id, bytes, media_type },
        contract: None,
    };
    let message = Message::received(message_id, vec![section], MessageContext::new(), treatment);
    let journey = Journey::new(JourneyId(drawn[3])).holding(
        JourneyMessageRef { message_id, stream_id },
    );
    ReceivedWork { journey, message }
}

/// Arriving bytes become one Message of the first generation, in one section
/// without a name or a contract, over one Stream of those bytes and the media
/// type they came with, and one Journey that follows nothing holds it; each
/// identifier stands where it was drawn for. How they arrived makes no other
/// difference.
pub proof fn law_arriving_bytes_open_a_journey(
    drawn: [u128; 4],
    arrival: Arrival,
    bytes: Vec<u8>,
    treatment: MessageTreatment,
    work: ReceivedWork,
)
    requires
        call_ensures(receive, (drawn, &arrival, bytes, treatment), work),
    ensures
        work.message.message_id == MessageId(drawn[1]),
        work.message.generation == 0,
        work.message.treatment == treatment,
        work.message.created_by == MessageCreationSource::Receive,
        work.message.context@.len() == 0,
        work.message.sections@.len() == 1,
        work.message.sections@[0].section_id == SectionId(drawn[2]),
        work.message.sections@[0].name == None::<String>,
        work.message.sections@[0].contract == None::<String>,
        work.message.sections@[0].stream.id == StreamId(drawn[0]),
        work.message.sections@[0].stream.bytes@ == bytes@,
        work.journey.journey_id == JourneyId(drawn[3]),
        work.journey.previous_journey_id == None::<JourneyId>,
        work.journey.state == JourneyState::Active,
        work.journey.messages@.len() == 1,
        work.journey.messages@[0].message_id == work.message.message_id,
        work.journey.messages@[0].stream_id == work.message.sections@[0].stream.id,
        match arrival {
            Arrival::File { media_type: Some(came) } => same_type(
                work.message.sections@[0].stream.media_type,
                came,
            ),
            Arrival::HttpRequest { media_type: Some(came) } => same_type(
                work.message.sections@[0].stream.media_type,
                came,
            ),
            _ => work.message.sections@[0].stream.media_type is None,
        },
{
}

/// A media type is there and reads as this one.
pub open spec fn same_type(media_type: Option<String>, came: String) -> bool {
    media_type is Some && media_type->0@ == came@
}

} // verus!
