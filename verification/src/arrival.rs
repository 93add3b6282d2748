//! The arrival path: what a Host Service does with a Stream that turns up.
//!
//! A Stream gets in three ways: something pushes it, Xmip is watching and it
//! appears, or a timer fires and Xmip goes and fetches it. All three are
//! arrivals, and the same gates run over all three.
//!
//! ```text
//! ReceivedStream          bytes, how it got here, and whatever was observed
//!   -> identify           the claim read off the connection
//!   -> authenticate       against the Receive Location's closed set
//!   -> authorize          may this proven identity post here
//!   -> Message            created only once the transport gates have passed
//!   -> identify           again, over the Message this time
//!   -> authenticate       the message layer, against the same closed set
//!   -> authorize          alignment settled here, never by preferring a layer
//!   -> Journey            a Journey exists only now, not before
//!   -> publish            every Subscription asked, declines kept
//!   -> dispatch           routed, or unroutable and retained
//! ```
//!
//! A [`Passage`] is one Stream on its way through. It says what it has to know
//! next ([`Passage::asks`]) and goes on with the answer ([`Passage::answer`]);
//! the gates themselves belong to whoever answers. Departure is the mirror half
//! and lives in [`crate::departure`].

use vstd::prelude::*;
use vstd::string::*;

use crate::generation::ReceivedWork;
use crate::identity::{
    Action, Attempt, Decision, Established, Evidence, Identity, IdentityFacts, Layer, Presented,
    ReceivedStream, Refusal,
};
use crate::message::{
    ContextReading, Journey, JourneyId, JourneyMessageRef, Message, MessageContext, MessageId,
    MessageSection, MessageTreatment, SectionId, Stream, StreamId,
};
use crate::outcome::{Arrived, Dispatch, Refused, Routing};

verus! {

/// What holds of an arrival from beginning to end.
#[derive(Debug, PartialEq, Eq)]
pub struct Terms {
    /// The Receive Location's name.
    pub location: String,
    /// How the Stream got here, in words.
    pub arriving: String,
    pub stream_id: StreamId,
    pub treatment: MessageTreatment,
    /// When the arrival began, in nanoseconds since the epoch. Everything the
    /// gates conclude is concluded at this moment.
    pub now: i128,
}

/// How far an arrival has come, and what it carries there.
#[derive(Debug, PartialEq, Eq)]
pub enum Stage {
    IdentifyingTransport { received: ReceivedStream },
    AuthenticatingTransport { stream: Stream, presented: Presented },
    EvaluatingTransport { stream: Stream, transport: Identity },
    AuthorizingTransport { stream: Stream, facts: IdentityFacts },
    DrawingMessage { stream: Stream, facts: IdentityFacts },
    DrawingSection { stream: Stream, facts: IdentityFacts, message_id: MessageId },
    IdentifyingMessage { message: Message, facts: IdentityFacts },
    AuthenticatingMessage { message: Message, facts: IdentityFacts, claimed: Presented },
    EvaluatingMessage { message: Message, transport: Identity, identity: Identity },
    AuthorizingMessage { message: Message, facts: IdentityFacts },
    DrawingJourney { message: Message, facts: IdentityFacts },
    Publishing { work: ReceivedWork, facts: IdentityFacts },
    Finished { arrived: Arrived },
}

/// What an arrival has to know next.
#[derive(Debug)]
pub enum Ask<'a> {
    /// What the transport identifiers read off the connection.
    IdentifyTransport { received: &'a ReceivedStream },
    /// What the Receive Location's closed set makes of a claim.
    Authenticate { presented: &'a Presented },
    /// How the identities stand to each other under the Location's alignment.
    Evaluate { transport: &'a Identity, content: Option<&'a Identity> },
    /// Whether the policies permit the attempt.
    Authorize { facts: &'a IdentityFacts, attempt: Attempt<'a> },
    /// The next identifier.
    Draw,
    /// What the message identifiers read out of the content.
    IdentifyMessage { message: &'a Message },
    /// Which Subscriptions want what was promoted.
    Publish { context: &'a MessageContext },
    /// Nothing. This is what became of it.
    Nothing { arrived: &'a Arrived },
}

/// The answer to what was asked.
#[derive(Debug)]
pub enum Answer {
    /// To either identification: the claims, or what could not be read.
    Claims(Result<Vec<Presented>, String>),
    Authenticated(Result<Identity, Refusal>),
    Evaluated { misaligned: bool, party: Option<String> },
    Decided(Decision),
    Drawn(u128),
    Published(Routing),
}

/// One Stream on its way through the gates.
#[derive(Debug, PartialEq, Eq)]
pub struct Passage {
    pub terms: Terms,
    pub stage: Stage,
}

/// The claim of a Stream nobody spoke for: the circumstance it turned up in
/// *is* its identity, inferred, with where it came from as the evidence.
pub open spec fn circumstance(presented: Presented, source_uri: Seq<char>) -> bool {
    &&& presented.mechanism@ == "circumstance"@
    &&& presented.value@ == source_uri
    &&& presented.layer == Layer::Transport
    &&& presented.established == Established::Inferred
    &&& presented.evidence@.len() == 1
    &&& presented.evidence@[0].name@ == "source"@
    &&& presented.evidence@[0].value@ == source_uri
}

/// The claim the transport gates run over: the first one an identifier read,
/// else what the transport passed on, else the circumstance.
pub open spec fn transport_claim(
    claims: Seq<Presented>,
    received: ReceivedStream,
    presented: Presented,
) -> bool {
    if claims.len() > 0 {
        presented == claims[0]
    } else if received.presented is Some {
        presented == received.presented->0
    } else {
        circumstance(presented, received.source_uri@)
    }
}

/// The first claim made in the content.
pub open spec fn message_claim(claims: Seq<Presented>) -> Option<Presented>
    decreases claims.len(),
{
    if claims.len() == 0 {
        None
    } else if claims[0].layer == Layer::Message {
        Some(claims[0])
    } else {
        message_claim(claims.drop_first())
    }
}

/// An identity, concluded at `now`.
pub open spec fn concluded(identity: Identity, now: i128) -> Identity {
    Identity { at: now, ..identity }
}

/// What routing may read of the connection's identity.
pub open spec fn promoted_transport(identity: Identity) -> Seq<(Seq<char>, ContextReading)> {
    seq![
        ("xmip.transport.mechanism"@, ContextReading::Text(identity.mechanism@)),
        ("xmip.transport.identity"@, ContextReading::Text(identity.value@)),
        ("xmip.transport.class"@, ContextReading::Text(identity.class@)),
        ("xmip.transport.proven"@, ContextReading::Bool(identity.proven)),
        ("xmip.transport.established"@, ContextReading::Text(identity.established@)),
    ]
}

/// What routing may read of the content's identity.
pub open spec fn promoted_message(identity: Identity) -> Seq<(Seq<char>, ContextReading)> {
    seq![
        ("xmip.message.mechanism"@, ContextReading::Text(identity.mechanism@)),
        ("xmip.message.identity"@, ContextReading::Text(identity.value@)),
        ("xmip.message.class"@, ContextReading::Text(identity.class@)),
        ("xmip.message.proven"@, ContextReading::Bool(identity.proven)),
        ("xmip.message.established"@, ContextReading::Text(identity.established@)),
    ]
}

/// Everything routing may read of what the gates concluded. The two layers
/// stand under names of their own, and neither replaces the other.
pub open spec fn promoted(facts: IdentityFacts, arriving: Seq<char>) -> Seq<
    (Seq<char>, ContextReading),
> {
    seq![("xmip.arriving"@, ContextReading::Text(arriving))] + promoted_transport(facts.transport)
        + promoted_content(facts.message) + seq![
        ("xmip.identity.misaligned"@, ContextReading::Bool(facts.misaligned)),
    ] + promoted_party(facts.party)
}

/// What routing may read of the content's identity, where there is one.
pub open spec fn promoted_content(message: Option<Identity>) -> Seq<(Seq<char>, ContextReading)> {
    match message {
        Some(identity) => promoted_message(identity),
        None => Seq::empty(),
    }
}

/// What routing may read of the Party, where one answers for the arrival.
pub open spec fn promoted_party(party: Option<String>) -> Seq<(Seq<char>, ContextReading)> {
    match party {
        Some(party) => seq![("xmip.party"@, ContextReading::Text(party@))],
        None => Seq::empty(),
    }
}

/// `message` is what the Stream became: a first generation with one section
/// that carries it, and what the gates concluded promoted.
pub open spec fn made_of(
    message: Message,
    message_id: MessageId,
    section: MessageSection,
    facts: IdentityFacts,
    terms: Terms,
) -> bool {
    &&& message.message_id == message_id
    &&& message.generation == 0
    &&& message.sections@ == seq![section]
    &&& message.context@ == promoted(facts, terms.arriving@)
    &&& message.treatment == terms.treatment
    &&& message.created_by == crate::message::MessageCreationSource::Receive
}

/// The section a Stream stands in when it arrives.
pub open spec fn arriving_section(section_id: SectionId, stream: Stream) -> MessageSection {
    MessageSection { section_id, name: None, stream, contract: None }
}

/// `stage` is the end, at this refusal.
pub open spec fn refused(stage: Stage, reason: Refused) -> bool {
    stage == (Stage::Finished { arrived: Arrived::Refused { reason } })
}

/// What an arrival has to know next.
pub open spec fn asked<'a>(passage: &'a Passage) -> Ask<'a> {
    match &passage.stage {
        Stage::IdentifyingTransport { received } => Ask::IdentifyTransport { received },
        Stage::AuthenticatingTransport { stream, presented } => Ask::Authenticate { presented },
        Stage::EvaluatingTransport { stream, transport } => Ask::Evaluate {
            transport,
            content: None,
        },
        Stage::AuthorizingTransport { stream, facts } => Ask::Authorize {
            facts,
            attempt: Attempt {
                action: Action::Receive,
                name: &passage.terms.location,
                at: passage.terms.now,
            },
        },
        Stage::DrawingMessage { stream, facts } => Ask::Draw,
        Stage::DrawingSection { stream, facts, message_id } => Ask::Draw,
        Stage::IdentifyingMessage { message, facts } => Ask::IdentifyMessage { message },
        Stage::AuthenticatingMessage { message, facts, claimed } => Ask::Authenticate {
            presented: claimed,
        },
        Stage::EvaluatingMessage { message, transport, identity } => Ask::Evaluate {
            transport,
            content: Some(identity),
        },
        Stage::AuthorizingMessage { message, facts } => Ask::Authorize {
            facts,
            attempt: Attempt {
                action: Action::Receive,
                name: &passage.terms.location,
                at: passage.terms.now,
            },
        },
        Stage::DrawingJourney { message, facts } => Ask::Draw,
        Stage::Publishing { work, facts } => Ask::Publish { context: &work.message.context },
        Stage::Finished { arrived } => Ask::Nothing { arrived },
    }
}

/// `answer` is an answer to what the stage has to know.
pub open spec fn fits(stage: Stage, answer: Answer) -> bool {
    match stage {
        Stage::IdentifyingTransport { received } => answer is Claims,
        Stage::AuthenticatingTransport { stream, presented } => answer is Authenticated,
        Stage::EvaluatingTransport { stream, transport } => answer is Evaluated,
        Stage::AuthorizingTransport { stream, facts } => answer is Decided,
        Stage::DrawingMessage { stream, facts } => answer is Drawn,
        Stage::DrawingSection { stream, facts, message_id } => answer is Drawn,
        Stage::IdentifyingMessage { message, facts } => answer is Claims,
        Stage::AuthenticatingMessage { message, facts, claimed } => answer is Authenticated,
        Stage::EvaluatingMessage { message, transport, identity } => answer is Evaluated,
        Stage::AuthorizingMessage { message, facts } => answer is Decided,
        Stage::DrawingJourney { message, facts } => answer is Drawn,
        Stage::Publishing { work, facts } => answer is Published,
        Stage::Finished { arrived } => false,
    }
}

/// Where an arrival comes to from `before` with `answer`. An answer to
/// something else leaves it where it was.
pub open spec fn moves(before: Passage, answer: Answer, after: Passage) -> bool {
    let terms = before.terms;
    &&& after.terms == terms
    &&& match (before.stage, answer) {
        (Stage::IdentifyingTransport { received }, Answer::Claims(Ok(claims))) => {
            &&& after.stage matches Stage::AuthenticatingTransport { stream, presented }
            &&& stream == received.stream
            &&& transport_claim(claims@, received, presented)
        },
        (Stage::IdentifyingTransport { received }, Answer::Claims(Err(detail))) => refused(
            after.stage,
            Refused::Identification(detail),
        ),
        (
            Stage::AuthenticatingTransport { stream, presented },
            Answer::Authenticated(Ok(identity)),
        ) => after.stage == (Stage::EvaluatingTransport {
            stream,
            transport: concluded(identity, terms.now),
        }),
        (
            Stage::AuthenticatingTransport { stream, presented },
            Answer::Authenticated(Err(refusal)),
        ) => refused(after.stage, Refused::Authentication(refusal)),
        (
            Stage::EvaluatingTransport { stream, transport },
            Answer::Evaluated { misaligned, party },
        ) => after.stage == (Stage::AuthorizingTransport {
            stream,
            facts: IdentityFacts { transport, message: None, misaligned, party },
        }),
        (Stage::AuthorizingTransport { stream, facts }, Answer::Decided(decision)) => {
            if decision.allowed {
                after.stage == (Stage::DrawingMessage { stream, facts })
            } else {
                refused(after.stage, Refused::Authorization(decision))
            }
        },
        (Stage::DrawingMessage { stream, facts }, Answer::Drawn(id)) => after.stage
            == (Stage::DrawingSection { stream, facts, message_id: MessageId(id) }),
        (Stage::DrawingSection { stream, facts, message_id }, Answer::Drawn(id)) => {
            &&& after.stage matches Stage::IdentifyingMessage { message, facts: kept }
            &&& kept == facts
            &&& made_of(message, message_id, arriving_section(SectionId(id), stream), facts, terms)
        },
        (Stage::IdentifyingMessage { message, facts }, Answer::Claims(Ok(claims))) => after.stage
            == (match message_claim(claims@) {
            Some(claimed) => Stage::AuthenticatingMessage { message, facts, claimed },
            None => Stage::DrawingJourney { message, facts },
        }),
        (Stage::IdentifyingMessage { message, facts }, Answer::Claims(Err(detail))) => refused(
            after.stage,
            Refused::Identification(detail),
        ),
        (
            Stage::AuthenticatingMessage { message, facts, claimed },
            Answer::Authenticated(Ok(identity)),
        ) => after.stage == (Stage::EvaluatingMessage {
            message,
            transport: facts.transport,
            identity: concluded(identity, terms.now),
        }),
        (
            Stage::AuthenticatingMessage { message, facts, claimed },
            Answer::Authenticated(Err(refusal)),
        ) => refused(after.stage, Refused::Authentication(refusal)),
        (
            Stage::EvaluatingMessage { message, transport, identity },
            Answer::Evaluated { misaligned, party },
        ) => after.stage == (Stage::AuthorizingMessage {
            message,
            facts: IdentityFacts { transport, message: Some(identity), misaligned, party },
        }),
        (Stage::AuthorizingMessage { message, facts }, Answer::Decided(decision)) => {
            if decision.allowed {
                &&& after.stage matches Stage::DrawingJourney { message: rebuilt, facts: kept }
                &&& kept == facts
                &&& rebuilt.message_id == message.message_id
                &&& rebuilt.generation == 0
                &&& rebuilt.sections == message.sections
                &&& rebuilt.context@ == promoted(facts, terms.arriving@)
                &&& rebuilt.treatment == terms.treatment
                &&& rebuilt.created_by == crate::message::MessageCreationSource::Receive
            } else {
                refused(after.stage, Refused::Authorization(decision))
            }
        },
        (Stage::DrawingJourney { message, facts }, Answer::Drawn(id)) => {
            &&& after.stage matches Stage::Publishing { work, facts: kept }
            &&& kept == facts
            &&& work.message == message
            &&& work.journey.journey_id == JourneyId(id)
            &&& work.journey.previous_journey_id == None::<JourneyId>
            &&& work.journey.state == crate::message::JourneyState::Active
            &&& work.journey.messages@ == seq![
                JourneyMessageRef { message_id: message.message_id, stream_id: terms.stream_id },
            ]
        },
        (Stage::Publishing { work, facts }, Answer::Published(routing)) => after.stage
            == (Stage::Finished {
            arrived: match routing.dispatch {
                Dispatch::Routed(_) => Arrived::Routed { work, facts, routing },
                Dispatch::Unroutable => Arrived::Unroutable { work, facts, routing },
            },
        }),
        _ => after.stage == before.stage,
    }
}

/// An arrival at a Receive Location, before anything is known of it.
pub fn arrive(
    location: &str,
    received: ReceivedStream,
    treatment: MessageTreatment,
    now: i128,
) -> (r: Passage)
    ensures
        begins(r, location@, received, treatment, now),
{
    Passage {
        terms: Terms {
            location: location.to_string(),
            arriving: received.arriving.clone(),
            stream_id: received.stream.id,
            treatment,
            now,
        },
        stage: Stage::IdentifyingTransport { received },
    }
}

/// `passage` is where an arrival begins.
pub open spec fn begins(
    passage: Passage,
    location: Seq<char>,
    received: ReceivedStream,
    treatment: MessageTreatment,
    now: i128,
) -> bool {
    &&& passage.terms.location@ == location
    &&& passage.terms.arriving == received.arriving
    &&& passage.terms.stream_id == received.stream.id
    &&& passage.terms.treatment == treatment
    &&& passage.terms.now == now
    &&& passage.stage == (Stage::IdentifyingTransport { received })
}

impl Passage {
    /// What the arrival has to know next.
    pub fn asks(&self) -> (r: Ask<'_>)
        ensures
            r == asked(self),
    {
        let attempt = Attempt {
            action: Action::Receive,
            name: &self.terms.location,
            at: self.terms.now,
        };
        match &self.stage {
            Stage::IdentifyingTransport { received } => Ask::IdentifyTransport { received },
            Stage::AuthenticatingTransport { presented, .. } => Ask::Authenticate { presented },
            Stage::EvaluatingTransport { transport, .. } => Ask::Evaluate {
                transport,
                content: None,
            },
            Stage::AuthorizingTransport { facts, .. } => Ask::Authorize { facts, attempt },
            Stage::DrawingMessage { .. } => Ask::Draw,
            Stage::DrawingSection { .. } => Ask::Draw,
            Stage::IdentifyingMessage { message, .. } => Ask::IdentifyMessage { message },
            Stage::AuthenticatingMessage { claimed, .. } => Ask::Authenticate {
                presented: claimed,
            },
            Stage::EvaluatingMessage { transport, identity, .. } => Ask::Evaluate {
                transport,
                content: Some(identity),
            },
            Stage::AuthorizingMessage { facts, .. } => Ask::Authorize { facts, attempt },
            Stage::DrawingJourney { .. } => Ask::Draw,
            Stage::Publishing { work, .. } => Ask::Publish { context: &work.message.context },
            Stage::Finished { arrived } => Ask::Nothing { arrived },
        }
    }

    /// Go on with the answer to what was asked. An answer to something else
    /// changes nothing.
    pub fn answer(self, answer: Answer) -> (r: Passage)
        ensures
            moves(self, answer, r),
    {
        let terms = self.terms;
        let stage = match (self.stage, answer) {
            (Stage::IdentifyingTransport { received }, Answer::Claims(claims)) => {
                settle_transport_claim(received, claims)
            },
            (Stage::AuthenticatingTransport { stream, .. }, Answer::Authenticated(outcome)) => {
                match outcome {
                    Ok(identity) => Stage::EvaluatingTransport {
                        stream,
                        transport: identity.at(terms.now),
                    },
                    Err(refusal) => refuse(Refused::Authentication(refusal)),
                }
            },
            (
                Stage::EvaluatingTransport { stream, transport },
                Answer::Evaluated { misaligned, party },
            ) => Stage::AuthorizingTransport {
                stream,
                facts: IdentityFacts { transport, message: None, misaligned, party },
            },
            (Stage::AuthorizingTransport { stream, facts }, Answer::Decided(decision)) => {
                if decision.allowed {
                    Stage::DrawingMessage { stream, facts }
                } else {
                    refuse(Refused::Authorization(decision))
                }
            },
            (Stage::DrawingMessage { stream, facts }, Answer::Drawn(id)) => Stage::DrawingSection {
                stream,
                facts,
                message_id: MessageId(id),
            },
            (Stage::DrawingSection { stream, facts, message_id }, Answer::Drawn(id)) => {
                let message = create_message(stream, &facts, message_id, SectionId(id), &terms);
                Stage::IdentifyingMessage { message, facts }
            },
            (Stage::IdentifyingMessage { message, facts }, Answer::Claims(claims)) => {
                settle_message_claim(message, facts, claims)
            },
            (
                Stage::AuthenticatingMessage { message, facts, .. },
                Answer::Authenticated(outcome),
            ) => match outcome {
                Ok(identity) => Stage::EvaluatingMessage {
                    message,
                    transport: facts.transport,
                    identity: identity.at(terms.now),
                },
                Err(refusal) => refuse(Refused::Authentication(refusal)),
            },
            (
                Stage::EvaluatingMessage { message, transport, identity },
                Answer::Evaluated { misaligned, party },
            ) => Stage::AuthorizingMessage {
                message,
                facts: IdentityFacts { transport, message: Some(identity), misaligned, party },
            },
            (Stage::AuthorizingMessage { message, facts }, Answer::Decided(decision)) => {
                if decision.allowed {
                    settle_message_identity(message, facts, &terms)
                } else {
                    refuse(Refused::Authorization(decision))
                }
            },
            (Stage::DrawingJourney { message, facts }, Answer::Drawn(id)) => {
                let journey = Journey::new(JourneyId(id)).holding(
                    JourneyMessageRef {
                        message_id: message.message_id,
                        stream_id: terms.stream_id,
                    },
                );
                Stage::Publishing { work: ReceivedWork { journey, message }, facts }
            },
            (Stage::Publishing { work, facts }, Answer::Published(routing)) => {
                let arrived = match routing.dispatch {
                    Dispatch::Routed(_) => Arrived::Routed { work, facts, routing },
                    Dispatch::Unroutable => Arrived::Unroutable { work, facts, routing },
                };
                Stage::Finished { arrived }
            },
            (stage, _) => stage,
        };
        Passage { terms, stage }
    }
}

impl Identity {
    /// The identity, with the moment it was concluded.
    pub fn at(self, now: i128) -> (r: Identity)
        ensures
            r == concluded(self, now),
    {
        Identity {
            mechanism: self.mechanism,
            value: self.value,
            class: self.class,
            proven: self.proven,
            verified: self.verified,
            established: self.established,
            at: now,
        }
    }
}

fn refuse(reason: Refused) -> (r: Stage)
    ensures
        refused(r, reason),
{
    Stage::Finished { arrived: Arrived::Refused { reason } }
}

/// The claim the transport gates go on with, or the refusal where an
/// identifier recognised something it could not read.
fn settle_transport_claim(
    received: ReceivedStream,
    claims: Result<Vec<Presented>, String>,
) -> (r: Stage)
    ensures
        match claims {
            Ok(found) => {
                &&& r matches Stage::AuthenticatingTransport { stream, presented }
                &&& stream == received.stream
                &&& transport_claim(found@, received, presented)
            },
            Err(detail) => refused(r, Refused::Identification(detail)),
        },
{
    match claims {
        Ok(found) => {
            let mut found = found;
            let presented = if found.len() > 0 {
                found.swap_remove(0)
            } else {
                match received.presented {
                    Some(presented) => presented,
                    None => infer_circumstance(&received.source_uri),
                }
            };
            Stage::AuthenticatingTransport { stream: received.stream, presented }
        },
        Err(detail) => refuse(Refused::Identification(detail)),
    }
}

/// A partner drop folder is not an absence of identity, and neither is a
/// schedule.
fn infer_circumstance(source_uri: &String) -> (r: Presented)
    ensures
        circumstance(r, source_uri@),
{
    Presented {
        mechanism: "circumstance".to_string(),
        value: source_uri.clone(),
        layer: Layer::Transport,
        established: Established::Inferred,
        evidence: vec![Evidence { name: "source".to_string(), value: source_uri.clone() }],
    }
}

/// The Message a Stream becomes once its connection was allowed.
fn create_message(
    stream: Stream,
    facts: &IdentityFacts,
    message_id: MessageId,
    section_id: SectionId,
    terms: &Terms,
) -> (r: Message)
    ensures
        made_of(r, message_id, arriving_section(section_id, stream), *facts, *terms),
{
    let section = MessageSection { section_id, name: None, stream, contract: None };
    let context = promote_identity(facts, terms.arriving.as_str());
    let message = Message::received(message_id, vec![section], context, terms.treatment);
    assert(message.sections@ =~= seq![arriving_section(section_id, stream)]);
    message
}

/// Whether anything in the content names somebody. With no claim the transport
/// identity answers for both questions.
fn settle_message_claim(
    message: Message,
    facts: IdentityFacts,
    claims: Result<Vec<Presented>, String>,
) -> (r: Stage)
    ensures
        match claims {
            Ok(found) => r == (match message_claim(found@) {
                Some(claimed) => Stage::AuthenticatingMessage { message, facts, claimed },
                None => Stage::DrawingJourney { message, facts },
            }),
            Err(detail) => refused(r, Refused::Identification(detail)),
        },
{
    match claims {
        Ok(found) => match first_message_claim(found) {
            Some(claimed) => Stage::AuthenticatingMessage { message, facts, claimed },
            None => Stage::DrawingJourney { message, facts },
        },
        Err(detail) => refuse(Refused::Identification(detail)),
    }
}

fn first_message_claim(claims: Vec<Presented>) -> (r: Option<Presented>)
    ensures
        r == message_claim(claims@),
{
    let mut at: usize = 0;
    assert(claims@.skip(0) =~= claims@);
    while at < claims.len() && claims[at].layer != Layer::Message
        invariant
            at <= claims@.len(),
            message_claim(claims@) == message_claim(claims@.skip(at as int)),
        decreases claims@.len() - at,
    {
        assert(claims@.skip(at as int).drop_first() =~= claims@.skip(at + 1));
        at += 1;
    }
    if at < claims.len() {
        let mut claims = claims;
        Some(claims.swap_remove(at))
    } else {
        None
    }
}

/// The Message again, under the same identifiers, with what both layers came
/// to promoted. Nothing has observed it yet, so this is not a second
/// generation: a partner reading one would see an edit that never happened.
fn settle_message_identity(message: Message, facts: IdentityFacts, terms: &Terms) -> (r: Stage)
    ensures
        r matches Stage::DrawingJourney { message: rebuilt, facts: kept } && kept == facts
            && rebuilt.message_id == message.message_id && rebuilt.generation == 0
            && rebuilt.sections == message.sections && rebuilt.context@ == promoted(
            facts,
            terms.arriving@,
        ) && rebuilt.treatment == terms.treatment && rebuilt.created_by
            == crate::message::MessageCreationSource::Receive,
{
    let context = promote_identity(&facts, terms.arriving.as_str());
    Stage::DrawingJourney {
        message: Message::received(
            message.message_id,
            message.sections,
            context,
            terms.treatment,
        ),
        facts,
    }
}

/// Put what the gates concluded where a Subscription can read it.
///
/// Routing reads the promoted set and nothing else, so an identity that stays
/// inside the facts cannot be routed on. These names are the contract between
/// the two, and they are prefixed so a Contract promoting `Party` cannot
/// collide with Xmip promoting one.
pub fn promote_identity(facts: &IdentityFacts, arriving: &str) -> (r: MessageContext)
    ensures
        r@ == promoted(*facts, arriving@),
{
    let context = MessageContext::new().with_text("xmip.arriving", arriving).with_text(
        "xmip.transport.mechanism",
        facts.transport.mechanism.as_str(),
    ).with_text("xmip.transport.identity", facts.transport.value.as_str()).with_text(
        "xmip.transport.class",
        facts.transport.class.as_str(),
    ).with_bool("xmip.transport.proven", facts.transport.proven).with_text(
        "xmip.transport.established",
        facts.transport.established.as_str(),
    );
    let ghost opening = seq![("xmip.arriving"@, ContextReading::Text(arriving@))]
        + promoted_transport(facts.transport);
    assert(context@ =~= opening);

    let context = match &facts.message {
        Some(message) => context.with_text(
            "xmip.message.mechanism",
            message.mechanism.as_str(),
        ).with_text("xmip.message.identity", message.value.as_str()).with_text(
            "xmip.message.class",
            message.class.as_str(),
        ).with_bool("xmip.message.proven", message.proven).with_text(
            "xmip.message.established",
            message.established.as_str(),
        ),
        None => context,
    };
    assert(context@ =~= opening + promoted_content(facts.message));

    let context = context.with_bool("xmip.identity.misaligned", facts.misaligned);
    let context = match &facts.party {
        Some(party) => context.with_text("xmip.party", party.as_str()),
        None => context,
    };
    assert(context@ =~= promoted(*facts, arriving@));
    context
}

/// An arrival followed from stage to stage, with the answer between each two.
pub open spec fn travels(passages: Seq<Passage>, answers: Seq<Answer>) -> bool {
    &&& passages.len() == answers.len() + 1
    &&& forall|i: int|
        0 <= i < answers.len() ==> moves(passages[i], #[trigger] answers[i], passages[i + 1])
}

/// The connection was allowed at step `at`.
pub open spec fn allowed_at(passages: Seq<Passage>, answers: Seq<Answer>, at: int) -> bool {
    &&& passages[at].stage is AuthorizingTransport
    &&& answers[at] matches Answer::Decided(decision)
    &&& decision.allowed
}

/// Stages that come after the transport gates.
pub open spec fn past_transport(stage: Stage) -> bool {
    match stage {
        Stage::IdentifyingTransport { received } => false,
        Stage::AuthenticatingTransport { stream, presented } => false,
        Stage::EvaluatingTransport { stream, transport } => false,
        Stage::AuthorizingTransport { stream, facts } => false,
        Stage::Finished { arrived } => arrived !is Refused,
        _ => true,
    }
}

/// Stages that come after every gate.
pub open spec fn past_the_gates(stage: Stage) -> bool {
    match stage {
        Stage::DrawingJourney { message, facts } => true,
        Stage::Publishing { work, facts } => true,
        Stage::Finished { arrived } => arrived !is Refused,
        _ => false,
    }
}

/// How many answers it takes at most from here.
pub open spec fn ahead(stage: Stage) -> nat {
    match stage {
        Stage::IdentifyingTransport { received } => 12,
        Stage::AuthenticatingTransport { stream, presented } => 11,
        Stage::EvaluatingTransport { stream, transport } => 10,
        Stage::AuthorizingTransport { stream, facts } => 9,
        Stage::DrawingMessage { stream, facts } => 8,
        Stage::DrawingSection { stream, facts, message_id } => 7,
        Stage::IdentifyingMessage { message, facts } => 6,
        Stage::AuthenticatingMessage { message, facts, claimed } => 5,
        Stage::EvaluatingMessage { message, transport, identity } => 4,
        Stage::AuthorizingMessage { message, facts } => 3,
        Stage::DrawingJourney { message, facts } => 2,
        Stage::Publishing { work, facts } => 1,
        Stage::Finished { arrived } => 0,
    }
}

/// `message` carries the Stream as it came, and nothing has been made of it.
pub open spec fn carries(message: Message, stream: Stream, terms: Terms) -> bool {
    &&& message.generation == 0
    &&& message.sections@.len() == 1
    &&& message.sections@[0].name == None::<String>
    &&& message.sections@[0].stream == stream
    &&& message.sections@[0].contract == None::<String>
    &&& message.treatment == terms.treatment
    &&& message.created_by == crate::message::MessageCreationSource::Receive
}

/// Both layers were concluded when the arrival began.
pub open spec fn timely(facts: IdentityFacts, now: i128) -> bool {
    &&& facts.transport.at == now
    &&& facts.message matches Some(identity) ==> identity.at == now
}

/// What a Journey opened over an arrival holds: the one Message, with the
/// Stream that came and with what the gates concluded where routing reads it.
pub open spec fn opened_over(
    work: ReceivedWork,
    facts: IdentityFacts,
    stream: Stream,
    terms: Terms,
) -> bool {
    &&& carries(work.message, stream, terms)
    &&& work.message.context@ == promoted(facts, terms.arriving@)
    &&& timely(facts, terms.now)
    &&& work.journey.messages@.len() == 1
    &&& crate::generation::keeps_up(work)
    &&& work.journey.previous_journey_id == None::<JourneyId>
    &&& work.journey.state == crate::message::JourneyState::Active
}

/// What holds of the Stream at every stage.
pub open spec fn sound(passage: Passage, came: Stream) -> bool {
    let terms = passage.terms;
    &&& terms.stream_id == came.id
    &&& match passage.stage {
        Stage::IdentifyingTransport { received } => received.stream == came,
        Stage::AuthenticatingTransport { stream, presented } => stream == came,
        Stage::EvaluatingTransport { stream, transport } => stream == came && transport.at
            == terms.now,
        Stage::AuthorizingTransport { stream, facts } => stream == came && timely(facts, terms.now),
        Stage::DrawingMessage { stream, facts } => stream == came && timely(facts, terms.now),
        Stage::DrawingSection { stream, facts, message_id } => stream == came && timely(
            facts,
            terms.now,
        ),
        Stage::IdentifyingMessage { message, facts } => carries(message, came, terms)
            && message.context@ == promoted(facts, terms.arriving@) && timely(facts, terms.now),
        Stage::AuthenticatingMessage { message, facts, claimed } => carries(message, came, terms)
            && timely(facts, terms.now),
        Stage::EvaluatingMessage { message, transport, identity } => carries(message, came, terms)
            && transport.at == terms.now && identity.at == terms.now,
        Stage::AuthorizingMessage { message, facts } => carries(message, came, terms) && timely(
            facts,
            terms.now,
        ),
        Stage::DrawingJourney { message, facts } => carries(message, came, terms)
            && message.context@ == promoted(facts, terms.arriving@) && timely(facts, terms.now),
        Stage::Publishing { work, facts } => opened_over(work, facts, came, terms),
        Stage::Finished { arrived: Arrived::Refused { reason } } => true,
        Stage::Finished { arrived: Arrived::Routed { work, facts, routing } } => opened_over(
            work,
            facts,
            came,
            terms,
        ) && routing.dispatch is Routed,
        Stage::Finished { arrived: Arrived::Unroutable { work, facts, routing } } => opened_over(
            work,
            facts,
            came,
            terms,
        ) && routing.dispatch == Dispatch::Unroutable,
    }
}

/// Content is never read from a sender who was not allowed: an arrival that
/// has a Message, or asks for anything to be read out of one, was allowed at
/// the transport gate before.
pub proof fn law_content_is_read_only_after_the_connection_was_allowed(
    passages: Seq<Passage>,
    answers: Seq<Answer>,
    n: int,
)
    requires
        travels(passages, answers),
        passages[0].stage is IdentifyingTransport,
        0 <= n < passages.len(),
        past_transport(passages[n].stage),
    ensures
        exists|at: int| 0 <= at < n && #[trigger] allowed_at(passages, answers, at),
    decreases n,
{
    let k = n - 1;
    assert(moves(passages[k], answers[k], passages[k + 1]));
    if past_transport(passages[k].stage) {
        law_content_is_read_only_after_the_connection_was_allowed(passages, answers, k);
    } else {
        assert(allowed_at(passages, answers, k));
    }
}

/// A refused arrival opens no Journey: none of the stages it came through is
/// one at which a Journey is opened or exists.
pub proof fn law_a_refused_arrival_opens_no_journey(
    passages: Seq<Passage>,
    answers: Seq<Answer>,
    n: int,
)
    requires
        travels(passages, answers),
        0 <= n < passages.len(),
        passages[n].stage matches Stage::Finished { arrived } && arrived is Refused,
    ensures
        forall|i: int| 0 <= i <= n ==> !past_the_gates(#[trigger] passages[i].stage),
{
    assert forall|i: int| 0 <= i <= n implies !past_the_gates(#[trigger] passages[i].stage) by {
        if past_the_gates(passages[i].stage) {
            lemma_past_the_gates_stays(passages, answers, i, n);
        }
    }
}

proof fn lemma_past_the_gates_stays(
    passages: Seq<Passage>,
    answers: Seq<Answer>,
    from: int,
    to: int,
)
    requires
        travels(passages, answers),
        0 <= from <= to < passages.len(),
        past_the_gates(passages[from].stage),
    ensures
        past_the_gates(passages[to].stage),
    decreases to - from,
{
    if from < to {
        assert(moves(passages[from], answers[from], passages[from + 1]));
        lemma_past_the_gates_stays(passages, answers, from + 1, to);
    }
}

/// What arrives is kept whole. Wherever an arrival has come to, what it carries
/// is the Stream that came; and where it ended with a Journey, the Journey holds
/// one Message of the first generation, over that Stream, that promotes what
/// the gates concluded.
pub proof fn law_an_arrival_keeps_the_stream(
    passages: Seq<Passage>,
    answers: Seq<Answer>,
    location: Seq<char>,
    received: ReceivedStream,
    treatment: MessageTreatment,
    now: i128,
    n: int,
)
    requires
        travels(passages, answers),
        begins(passages[0], location, received, treatment, now),
        0 <= n < passages.len(),
    ensures
        sound(passages[n], received.stream),
        passages[n].terms == passages[0].terms,
    decreases n,
{
    if n > 0 {
        let k = n - 1;
        law_an_arrival_keeps_the_stream(
            passages,
            answers,
            location,
            received,
            treatment,
            now,
            k,
        );
        assert(moves(passages[k], answers[k], passages[k + 1]));
    }
}

/// Every answer to what was asked brings an arrival on, so it ends after a
/// dozen of them at most; an answer to something else changes nothing.
pub proof fn law_every_answer_brings_an_arrival_on(before: Passage, answer: Answer, after: Passage)
    requires
        moves(before, answer, after),
    ensures
        fits(before.stage, answer) ==> ahead(after.stage) < ahead(before.stage),
        !fits(before.stage, answer) ==> after == before,
        before.stage is Finished == (forall|any: Answer| !#[trigger] fits(before.stage, any)),
{
    let answers = (
        Answer::Claims(Err(arbitrary())),
        Answer::Authenticated(Err(arbitrary())),
        Answer::Evaluated { misaligned: false, party: None },
        Answer::Decided(arbitrary()),
        Answer::Drawn(0),
        Answer::Published(arbitrary()),
    );
    assert(before.stage !is Finished ==> fits(before.stage, answers.0) || fits(
        before.stage,
        answers.1,
    ) || fits(before.stage, answers.2) || fits(before.stage, answers.3) || fits(
        before.stage,
        answers.4,
    ) || fits(before.stage, answers.5));
}

/// Why an answer ends an arrival, where it does: something could not be read, a
/// credential was not accepted, or the attempt was not permitted.
pub open spec fn refusal_in(answer: Answer) -> Option<Refused> {
    match answer {
        Answer::Claims(Err(detail)) => Some(Refused::Identification(detail)),
        Answer::Authenticated(Err(refusal)) => Some(Refused::Authentication(refusal)),
        Answer::Decided(decision) => if decision.allowed {
            None
        } else {
            Some(Refused::Authorization(decision))
        },
        _ => None,
    }
}

/// An arrival that is answered what it asks is refused by the first answer that
/// refuses, in that answer's own words, and by nothing else.
pub proof fn law_the_first_refusal_ends_an_arrival(passages: Seq<Passage>, answers: Seq<Answer>)
    requires
        travels(passages, answers),
        passages[0].stage is IdentifyingTransport,
        forall|i: int|
            0 <= i < answers.len() ==> fits(passages[i].stage, #[trigger] answers[i]),
    ensures
        forall|i: int| 0 <= i < answers.len() - 1 ==> refusal_in(#[trigger] answers[i]) is None,
        match passages.last().stage {
            Stage::Finished { arrived: Arrived::Refused { reason } } => refusal_in(answers.last())
                == Some(reason),
            _ => answers.len() > 0 ==> refusal_in(answers.last()) is None,
        },
{
    assert forall|i: int| 0 <= i < answers.len() - 1 implies refusal_in(
        #[trigger] answers[i],
    ) is None by {
        assert(moves(passages[i], answers[i], passages[i + 1]));
        assert(fits(passages[i + 1].stage, answers[i + 1]));
    }
    if answers.len() > 0 {
        let last = answers.len() - 1;
        assert(moves(passages[last], answers[last], passages[last + 1]));
        assert(fits(passages[last].stage, answers[last]));
    }
}

/// Nothing that is promoted stands under a name that something else stands
/// under: the layers do not cover each other.
pub proof fn law_promoted_names_are_distinct(facts: IdentityFacts, arriving: Seq<char>)
    ensures
        forall|i: int, j: int|
            0 <= i < j < promoted(facts, arriving).len() ==> (#[trigger] promoted(
                facts,
                arriving,
            )[i]).0 != (#[trigger] promoted(facts, arriving)[j]).0,
{
    reveal_strlit("xmip.arriving");
    reveal_strlit("xmip.transport.mechanism");
    reveal_strlit("xmip.transport.identity");
    reveal_strlit("xmip.transport.class");
    reveal_strlit("xmip.transport.proven");
    reveal_strlit("xmip.transport.established");
    reveal_strlit("xmip.message.mechanism");
    reveal_strlit("xmip.message.identity");
    reveal_strlit("xmip.message.class");
    reveal_strlit("xmip.message.proven");
    reveal_strlit("xmip.message.established");
    reveal_strlit("xmip.identity.misaligned");
    reveal_strlit("xmip.party");
    let all = promoted(facts, arriving);
    assert forall|i: int, j: int| 0 <= i < j < all.len() implies (#[trigger] all[i]).0 != (
    #[trigger] all[j]).0 by {
        assert(all[i].0.len() != all[j].0.len() || all[i].0[5] != all[j].0[5]);
    }
}

/// The alignment of the identities was asked for at step `at`, and answered.
pub open spec fn evaluated_at(passages: Seq<Passage>, answers: Seq<Answer>, at: int) -> bool {
    asked(&passages[at]) is Evaluate && answers[at] is Evaluated
}

/// The last evaluation answered before step `n` was at step `at`.
pub open spec fn last_evaluated(
    passages: Seq<Passage>,
    answers: Seq<Answer>,
    at: int,
    n: int,
) -> bool {
    &&& 0 <= at < n
    &&& evaluated_at(passages, answers, at)
    &&& forall|i: int| at < i < n ==> !#[trigger] evaluated_at(passages, answers, i)
}

/// `facts` are the identities whose alignment was asked for, with what was
/// answered.
pub open spec fn evaluates_to(ask: Ask<'_>, answer: Answer, facts: IdentityFacts) -> bool {
    &&& ask matches Ask::Evaluate { transport, content }
    &&& answer matches Answer::Evaluated { misaligned, party }
    &&& facts.transport == *transport
    &&& match (facts.message, content) {
        (Some(kept), Some(identity)) => kept == *identity,
        (None, None) => true,
        _ => false,
    }
    &&& facts.misaligned == misaligned
    &&& facts.party == party
}

/// What an arrival goes by wherever it has come to.
pub open spec fn goes_by(stage: Stage) -> Option<IdentityFacts> {
    match stage {
        Stage::AuthorizingTransport { stream, facts } => Some(facts),
        Stage::DrawingMessage { stream, facts } => Some(facts),
        Stage::DrawingSection { stream, facts, message_id } => Some(facts),
        Stage::IdentifyingMessage { message, facts } => Some(facts),
        Stage::AuthenticatingMessage { message, facts, claimed } => Some(facts),
        Stage::AuthorizingMessage { message, facts } => Some(facts),
        Stage::DrawingJourney { message, facts } => Some(facts),
        Stage::Publishing { work, facts } => Some(facts),
        Stage::Finished { arrived: Arrived::Routed { work, facts, routing } } => Some(facts),
        Stage::Finished { arrived: Arrived::Unroutable { work, facts, routing } } => Some(facts),
        _ => None,
    }
}

/// What an arrival goes by is what the latest evaluation answered. Whatever run
/// of it, the facts handed to each authorization, and those kept in the finished
/// arrival, are the identities that were evaluated last, with the misalignment
/// and the Party of that answer; and what is asked to be permitted is to receive
/// at this Location, at the moment the arrival began.
pub proof fn law_the_facts_are_what_was_evaluated(
    passages: Seq<Passage>,
    answers: Seq<Answer>,
    n: int,
)
    requires
        travels(passages, answers),
        passages[0].stage is IdentifyingTransport,
        0 <= n < passages.len(),
    ensures
        goes_by(passages[n].stage) matches Some(facts) ==> exists|at: int| #[trigger]
            last_evaluated(passages, answers, at, n) && evaluates_to(
                asked(&passages[at]),
                answers[at],
                facts,
            ),
        asked(&passages[n]) matches Ask::Authorize { facts, attempt } ==> goes_by(
            passages[n].stage,
        ) == Some(*facts) && attempt.action == Action::Receive && *attempt.name
            == passages[0].terms.location && attempt.at == passages[0].terms.now,
        passages[n].terms == passages[0].terms,
    decreases n,
{
    if n > 0 {
        let k = n - 1;
        law_the_facts_are_what_was_evaluated(passages, answers, k);
        assert(moves(passages[k], answers[k], passages[k + 1]));
        if let Some(facts) = goes_by(passages[n].stage) {
            if evaluated_at(passages, answers, k) {
                assert(last_evaluated(passages, answers, k, n));
            } else {
                assert(goes_by(passages[k].stage) == Some(facts));
                let at = choose|at: int| #[trigger]
                    last_evaluated(passages, answers, at, k) && evaluates_to(
                        asked(&passages[at]),
                        answers[at],
                        facts,
                    );
                assert(last_evaluated(passages, answers, at, n));
            }
        }
    }
}

/// Something in the content names somebody.
pub open spec fn claimed_in(claims: Seq<Presented>) -> bool {
    exists|i: int| 0 <= i < claims.len() && (#[trigger] claims[i]).layer == Layer::Message
}

/// What an arrival that was refused nowhere comes to, by what was answered on
/// its way: the identities are the ones the gates accepted, concluded when it
/// began; the identifiers are the ones that were drawn, each for what it was
/// drawn for; the Stream is the one that came; and the routing is the one that
/// was published. A second round of gates runs exactly where the content names
/// somebody.
pub proof fn law_an_arrival_is_what_was_answered(
    passages: Seq<Passage>,
    answers: Seq<Answer>,
    location: &str,
    received: ReceivedStream,
    treatment: MessageTreatment,
    now: i128,
    work: ReceivedWork,
    facts: IdentityFacts,
    routing: Routing,
)
    requires
        call_ensures(arrive, (location, received, treatment, now), passages[0]),
        travels(passages, answers),
        forall|i: int|
            0 <= i < answers.len() ==> fits(passages[i].stage, #[trigger] answers[i]),
        passages.last().stage == (Stage::Finished {
            arrived: Arrived::Routed { work, facts, routing },
        }) || passages.last().stage == (Stage::Finished {
            arrived: Arrived::Unroutable { work, facts, routing },
        }),
    ensures
        answers.len() == 9 || answers.len() == 12,
        answers[6] matches Answer::Claims(Ok(claims)) && (answers.len() == 12 <==> claimed_in(
            claims@,
        )),
        (passages.last().stage->arrived is Routed) <==> (routing.dispatch is Routed),
        answers.last() == Answer::Published(routing),
        answers[4] == Answer::Drawn(work.message.message_id.0),
        work.message.sections@.len() == 1,
        answers[5] == Answer::Drawn(work.message.sections@[0].section_id.0),
        work.message.sections@[0].name == None::<String>,
        work.message.sections@[0].stream == received.stream,
        work.message.sections@[0].contract == None::<String>,
        work.message.generation == 0,
        work.message.treatment == treatment,
        work.message.created_by == crate::message::MessageCreationSource::Receive,
        answers[answers.len() - 2] == Answer::Drawn(work.journey.journey_id.0),
        work.journey.previous_journey_id == None::<JourneyId>,
        work.journey.state == crate::message::JourneyState::Active,
        work.journey.messages@.len() == 1,
        work.journey.messages@[0].message_id == work.message.message_id,
        work.journey.messages@[0].stream_id == received.stream.id,
        answers[1] matches Answer::Authenticated(Ok(identity)) && facts.transport == (Identity {
            at: now,
            ..identity
        }),
        answers.len() == 9 ==> facts.message is None && answers[2] == (Answer::Evaluated {
            misaligned: facts.misaligned,
            party: facts.party,
        }),
        answers.len() == 12 ==> answers[8] == (Answer::Evaluated {
            misaligned: facts.misaligned,
            party: facts.party,
        }),
        answers.len() == 12 ==> (answers[7] matches Answer::Authenticated(Ok(identity))
            && facts.message == Some(Identity { at: now, ..identity })),
{
    assert(fits(passages[0].stage, answers[0]));
    assert(moves(passages[0], answers[0], passages[1]));
    assert(fits(passages[1].stage, answers[1]));
    assert(moves(passages[1], answers[1], passages[2]));
    assert(fits(passages[2].stage, answers[2]));
    assert(moves(passages[2], answers[2], passages[3]));
    assert(fits(passages[3].stage, answers[3]));
    assert(moves(passages[3], answers[3], passages[4]));
    assert(fits(passages[4].stage, answers[4]));
    assert(moves(passages[4], answers[4], passages[5]));
    assert(fits(passages[5].stage, answers[5]));
    assert(moves(passages[5], answers[5], passages[6]));
    assert(fits(passages[6].stage, answers[6]));
    assert(moves(passages[6], answers[6], passages[7]));
    let claims = answers[6]->Claims_0->Ok_0;
    lemma_message_claim(claims@);
    assert(fits(passages[7].stage, answers[7]));
    assert(moves(passages[7], answers[7], passages[8]));
    assert(fits(passages[8].stage, answers[8]));
    assert(moves(passages[8], answers[8], passages[9]));
    if claimed_in(claims@) {
        assert(fits(passages[9].stage, answers[9]));
        assert(moves(passages[9], answers[9], passages[10]));
        assert(fits(passages[10].stage, answers[10]));
        assert(moves(passages[10], answers[10], passages[11]));
        assert(fits(passages[11].stage, answers[11]));
        assert(moves(passages[11], answers[11], passages[12]));
        if answers.len() > 12 {
            assert(fits(passages[12].stage, answers[12]));
        }
    } else {
        if answers.len() > 9 {
            assert(fits(passages[9].stage, answers[9]));
        }
    }
}

/// The first claim made in the content is found where there is one.
proof fn lemma_message_claim(claims: Seq<Presented>)
    ensures
        message_claim(claims) is Some <==> claimed_in(claims),
        message_claim(claims) matches Some(claim) ==> exists|at: int|
            #![trigger claims[at]]
            0 <= at < claims.len() && claims[at] == claim && claim.layer == Layer::Message && (
            forall|i: int| 0 <= i < at ==> (#[trigger] claims[i]).layer != Layer::Message),
    decreases claims.len(),
{
    if claims.len() > 0 {
        let rest = claims.drop_first();
        lemma_message_claim(rest);
        if claims[0].layer == Layer::Message {
            assert(claimed_in(claims));
        } else {
            if claimed_in(claims) {
                let i = choose|i: int|
                    0 <= i < claims.len() && (#[trigger] claims[i]).layer == Layer::Message;
                assert(rest[i - 1].layer == Layer::Message);
            }
            if let Some(claim) = message_claim(rest) {
                let at = choose|at: int|
                    #![trigger rest[at]]
                    0 <= at < rest.len() && rest[at] == claim && claim.layer == Layer::Message && (
                    forall|i: int| 0 <= i < at ==> (#[trigger] rest[i]).layer != Layer::Message);
                assert(claims[at + 1] == claim);
                assert forall|i: int| 0 <= i < at + 1 implies (#[trigger] claims[i]).layer
                    != Layer::Message by {
                    if i > 0 {
                        assert(rest[i - 1] == claims[i]);
                    }
                }
            }
        }
    }
}

/// Which claim goes to the gates. Off the connection it is the first one an
/// identifier read; without any, the one the transport passed on; and without
/// that either, the circumstance: inferred, with where the Stream came from as
/// its value and its evidence. Out of the content it is the first that was made
/// there, whatever was read before it.
pub proof fn law_the_first_claim_goes_to_the_gates(
    before: Passage,
    claims: Vec<Presented>,
    after: Passage,
)
    requires
        call_ensures(Passage::answer, (before, Answer::Claims(Ok(claims))), after),
    ensures
        asked(&before) matches Ask::IdentifyTransport { received } ==> {
            &&& asked(&after) matches Ask::Authenticate { presented }
            &&& claims@.len() > 0 ==> *presented == claims@[0]
            &&& claims@.len() == 0 ==> (received.presented matches Some(passed) ==> *presented
                == passed)
            &&& claims@.len() == 0 && received.presented is None ==> {
                &&& presented.mechanism@ == "circumstance"@
                &&& presented.value@ == received.source_uri@
                &&& presented.layer == Layer::Transport
                &&& presented.established == Established::Inferred
                &&& presented.evidence@.len() == 1
                &&& presented.evidence@[0].name@ == "source"@
                &&& presented.evidence@[0].value@ == received.source_uri@
            }
        },
        asked(&before) matches Ask::IdentifyMessage { message } ==> {
            &&& claimed_in(claims@) ==> (asked(&after) matches Ask::Authenticate { presented }
                && exists|at: int|
                #![trigger claims@[at]]
                0 <= at < claims@.len() && claims@[at] == *presented && presented.layer
                    == Layer::Message && (forall|i: int|
                    0 <= i < at ==> (#[trigger] claims@[i]).layer != Layer::Message))
            &&& !claimed_in(claims@) ==> asked(&after) is Draw
        },
{
    lemma_message_claim(claims@);
}

/// What is asked about is what stands there: an accepted identity is evaluated
/// as it was accepted, at the moment the arrival began, the connection's alone
/// first and then both; a Message is read once it is made; and what is published
/// is the context of the Message the Journey holds.
pub proof fn law_what_is_asked_is_what_was_concluded(
    before: Passage,
    answer: Answer,
    after: Passage,
)
    requires
        call_ensures(Passage::answer, (before, answer), after),
    ensures
        asked(&before) is Authenticate ==> (answer matches Answer::Authenticated(Ok(identity)) ==> {
            &&& asked(&after) matches Ask::Evaluate { transport, content }
            &&& match (before.stage, content) {
                (Stage::AuthenticatingTransport { stream, presented }, None) => *transport == (
                Identity { at: before.terms.now, ..identity }),
                (Stage::AuthenticatingMessage { message, facts, claimed }, Some(second)) =>
                    *transport == facts.transport && *second == (Identity {
                    at: before.terms.now,
                    ..identity
                }),
                _ => false,
            }
        }),
        before.stage is DrawingSection && answer is Drawn ==> asked(&after) is IdentifyMessage,
        asked(&after) matches Ask::IdentifyMessage { message } ==> (
        after.stage matches Stage::IdentifyingMessage { message: made, facts } && *message == made),
        asked(&after) matches Ask::Authenticate { presented } ==> match after.stage {
            Stage::AuthenticatingTransport { stream, presented: claim } => *presented == claim,
            Stage::AuthenticatingMessage { message, facts, claimed } => *presented == claimed,
            _ => false,
        },
        asked(&after) matches Ask::Publish { context } ==> (after.stage matches Stage::Publishing {
            work,
            facts,
        } && *context == work.message.context),
        asked(&after) matches Ask::Nothing { arrived } ==> after.stage == (Stage::Finished {
            arrived: *arrived,
        }),
        asked(&after) is Nothing <==> after.stage is Finished,
        asked(&after) is Draw <==> (after.stage is DrawingMessage || after.stage is DrawingSection
            || after.stage is DrawingJourney),
{
}

/// What routing may read of an arrival: how it arrived, the five facts of the
/// connection's identity, the five of the content's where there is one, whether
/// the two are misaligned, and the Party where one is known; each under its own
/// name, and nothing else.
pub proof fn law_routing_reads_what_the_gates_concluded(
    facts: IdentityFacts,
    arriving: &str,
    context: MessageContext,
)
    requires
        call_ensures(promote_identity, (&facts, arriving), context),
    ensures
        context@.len() == 7 + (if facts.message is Some {
            5int
        } else {
            0
        }) + (if facts.party is Some {
            1int
        } else {
            0
        }),
        context@.contains(("xmip.arriving"@, ContextReading::Text(arriving@))),
        context@.contains(
            ("xmip.transport.mechanism"@, ContextReading::Text(facts.transport.mechanism@)),
        ),
        context@.contains(
            ("xmip.transport.identity"@, ContextReading::Text(facts.transport.value@)),
        ),
        context@.contains(("xmip.transport.class"@, ContextReading::Text(facts.transport.class@))),
        context@.contains(("xmip.transport.proven"@, ContextReading::Bool(facts.transport.proven))),
        context@.contains(
            ("xmip.transport.established"@, ContextReading::Text(facts.transport.established@)),
        ),
        facts.message matches Some(identity) ==> {
            &&& context@.contains(
                ("xmip.message.mechanism"@, ContextReading::Text(identity.mechanism@)),
            )
            &&& context@.contains(("xmip.message.identity"@, ContextReading::Text(identity.value@)))
            &&& context@.contains(("xmip.message.class"@, ContextReading::Text(identity.class@)))
            &&& context@.contains(("xmip.message.proven"@, ContextReading::Bool(identity.proven)))
            &&& context@.contains(
                ("xmip.message.established"@, ContextReading::Text(identity.established@)),
            )
        },
        context@.contains(("xmip.identity.misaligned"@, ContextReading::Bool(facts.misaligned))),
        facts.party matches Some(party) ==> context@.contains(
            ("xmip.party"@, ContextReading::Text(party@)),
        ),
{
    let all = context@;
    let n: int = if facts.message is Some {
        11
    } else {
        6
    };
    assert(all[0] == ("xmip.arriving"@, ContextReading::Text(arriving@)));
    assert(all[1].0 == "xmip.transport.mechanism"@);
    assert(all[2].0 == "xmip.transport.identity"@);
    assert(all[3].0 == "xmip.transport.class"@);
    assert(all[4].0 == "xmip.transport.proven"@);
    assert(all[5].0 == "xmip.transport.established"@);
    if facts.message is Some {
        assert(all[6].0 == "xmip.message.mechanism"@);
        assert(all[7].0 == "xmip.message.identity"@);
        assert(all[8].0 == "xmip.message.class"@);
        assert(all[9].0 == "xmip.message.proven"@);
        assert(all[10].0 == "xmip.message.established"@);
    }
    assert(all[n] == ("xmip.identity.misaligned"@, ContextReading::Bool(facts.misaligned)));
    if facts.party is Some {
        assert(all[n + 1].0 == "xmip.party"@);
    }
}

/// The Message of a finished arrival promotes the facts it was kept with: what
/// routing reads of the layers, their alignment and the Party is what the last
/// evaluation answered.
pub proof fn law_the_message_promotes_the_facts(
    passages: Seq<Passage>,
    answers: Seq<Answer>,
    location: &str,
    received: ReceivedStream,
    treatment: MessageTreatment,
    now: i128,
    n: int,
)
    requires
        call_ensures(arrive, (location, received, treatment, now), passages[0]),
        travels(passages, answers),
        0 <= n < passages.len(),
    ensures
        passages[n].stage matches Stage::Finished {
            arrived: Arrived::Routed { work, facts, routing },
        } ==> promotes(work.message.context@, facts, received.arriving@),
        passages[n].stage matches Stage::Finished {
            arrived: Arrived::Unroutable { work, facts, routing },
        } ==> promotes(work.message.context@, facts, received.arriving@),
        passages[n].stage matches Stage::Publishing { work, facts } ==> promotes(
            work.message.context@,
            facts,
            received.arriving@,
        ),
        passages[n].terms.location@ == location@,
        passages[n].terms.now == now,
{
    law_an_arrival_keeps_the_stream(
        passages,
        answers,
        location@,
        received,
        treatment,
        now,
        n,
    );
    match passages[n].stage {
        Stage::Finished { arrived: Arrived::Routed { work, facts, routing } } => {
            lemma_promotes(work.message.context@, facts, received.arriving@);
        },
        Stage::Finished { arrived: Arrived::Unroutable { work, facts, routing } } => {
            lemma_promotes(work.message.context@, facts, received.arriving@);
        },
        Stage::Publishing { work, facts } => {
            lemma_promotes(work.message.context@, facts, received.arriving@);
        },
        _ => {},
    }
}

/// A context says of both layers who they are, how they stand to each other and
/// who answers for them.
pub open spec fn promotes(
    context: Seq<(Seq<char>, ContextReading)>,
    facts: IdentityFacts,
    arriving: Seq<char>,
) -> bool {
    &&& context.contains(("xmip.arriving"@, ContextReading::Text(arriving)))
    &&& context.contains(("xmip.transport.identity"@, ContextReading::Text(facts.transport.value@)))
    &&& facts.message matches Some(identity) ==> context.contains(
        ("xmip.message.identity"@, ContextReading::Text(identity.value@)),
    )
    &&& context.contains(("xmip.identity.misaligned"@, ContextReading::Bool(facts.misaligned)))
    &&& facts.party matches Some(party) ==> context.contains(
        ("xmip.party"@, ContextReading::Text(party@)),
    )
}

proof fn lemma_promotes(
    context: Seq<(Seq<char>, ContextReading)>,
    facts: IdentityFacts,
    arriving: Seq<char>,
)
    requires
        context == promoted(facts, arriving),
    ensures
        promotes(context, facts, arriving),
{
    let n: int = if facts.message is Some {
        11
    } else {
        6
    };
    assert(context[0] == ("xmip.arriving"@, ContextReading::Text(arriving)));
    assert(context[2].0 == "xmip.transport.identity"@);
    if facts.message is Some {
        assert(context[7].0 == "xmip.message.identity"@);
    }
    assert(context[n] == ("xmip.identity.misaligned"@, ContextReading::Bool(facts.misaligned)));
    if facts.party is Some {
        assert(context[n + 1].0 == "xmip.party"@);
    }
}

} // verus!
