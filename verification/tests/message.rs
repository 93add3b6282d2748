use xmip_core_runtime::generation::{
    apply_assignment, apply_transformation, business, conversation, pass_through, ReceivedWork,
};
use xmip_core_runtime::message::{
    JourneyId, MessageContext, MessageCreationSource, MessageDurability, MessageId,
    MessagePriority, MessageTreatment, StreamId,
};
use xmip_core_runtime::receive::{receive, Arrival};

/// Counts from one, so that every run draws the same identifiers.
struct Counter(u128);

impl Counter {
    fn next(&mut self) -> u128 {
        self.0 += 1;
        self.0
    }

    fn three(&mut self) -> [u128; 3] {
        [self.next(), self.next(), self.next()]
    }

    fn four(&mut self) -> [u128; 4] {
        [self.next(), self.next(), self.next(), self.next()]
    }
}

fn arrived(ids: &mut Counter, treatment: MessageTreatment) -> ReceivedWork {
    receive(
        ids.four(),
        &Arrival::File {
            media_type: Some("application/xml".to_string()),
        },
        b"<order/>".to_vec(),
        treatment,
    )
}

#[test]
fn generation_assignment_keeps_the_stream_and_transformation_replaces_it() {
    let mut ids = Counter(0);
    let received = arrived(&mut ids, business());
    let original = received.message.sections[0].stream.id;

    let assigned = apply_assignment(ids.next(), received, MessageContext::new());
    assert_eq!(assigned.message.sections[0].stream.id, original);

    let transformed = apply_transformation(ids.three(), assigned, b"<Order/>".to_vec(), None);
    assert_ne!(transformed.message.sections[0].stream.id, original);

    assert_eq!(transformed.message.generation, 2);
    assert_eq!(transformed.journey.messages.len(), 3);
}

#[test]
fn an_assignment_is_recorded_as_an_assignment() {
    let mut ids = Counter(0);
    let work = arrived(&mut ids, business());
    let assigned = apply_assignment(ids.next(), work, MessageContext::new());

    assert_eq!(
        assigned.message.created_by,
        MessageCreationSource::Assignment
    );
}

#[test]
fn generation_treatment_is_a_declaration_not_a_measurement() {
    let mut ids = Counter(0);

    assert_eq!(
        arrived(&mut ids, conversation()).message.treatment.priority,
        MessagePriority::Immediate
    );
    assert_eq!(
        arrived(&mut ids, pass_through()).message.treatment.priority,
        MessagePriority::Background
    );
}

#[test]
fn the_three_treatments_differ_in_what_survives_a_restart() {
    assert_eq!(conversation().durability, MessageDurability::Ephemeral);
    assert_eq!(business().durability, MessageDurability::Recoverable);
    assert_eq!(pass_through().durability, MessageDurability::Durable);
}

#[test]
fn arrival_produces_one_message_the_journey_is_holding() {
    let work = arrived(&mut Counter(0), business());

    assert_eq!(work.journey.messages.len(), 1);
    assert_eq!(
        work.journey.messages[0].message_id,
        work.message.message_id
    );
    assert_eq!(work.message.generation, 0);
    assert_eq!(work.message.created_by, MessageCreationSource::Receive);
}

#[test]
fn receive_assignment_keeps_the_stream_and_transformation_replaces_it() {
    let mut ids = Counter(0);
    let received = receive(
        ids.four(),
        &Arrival::HttpRequest { media_type: None },
        b"<order/>".to_vec(),
        business(),
    );
    let original_stream = received.message.sections[0].stream.id;

    let assigned = apply_assignment(ids.next(), received, MessageContext::new());
    assert_eq!(assigned.message.sections[0].stream.id, original_stream);

    let transformed = apply_transformation(ids.three(), assigned, b"<Order/>".to_vec(), None);
    assert_ne!(transformed.message.sections[0].stream.id, original_stream);

    assert_eq!(transformed.message.generation, 2);
    assert_eq!(transformed.journey.messages.len(), 3);
}

#[test]
fn the_journey_is_active_and_does_not_follow_anything() {
    let work = arrived(&mut Counter(0), business());

    assert!(!work.journey.state.is_terminal());
    assert!(work.journey.previous_journey_id.is_none());
}

#[test]
fn the_arriving_media_type_reaches_the_stream() {
    let work = arrived(&mut Counter(0), business());

    assert_eq!(
        work.message.sections[0].stream.media_type.as_deref(),
        Some("application/xml")
    );
}

#[test]
fn receive_treatment_is_a_declaration_not_a_measurement() {
    let mut ids = Counter(0);
    let tiny = receive(
        ids.four(),
        &Arrival::File { media_type: None },
        b"ok".to_vec(),
        conversation(),
    );
    let large = receive(
        ids.four(),
        &Arrival::File { media_type: None },
        vec![0_u8; 4096],
        pass_through(),
    );

    assert_eq!(tiny.message.treatment.priority, MessagePriority::Immediate);
    assert_eq!(
        large.message.treatment.priority,
        MessagePriority::Background
    );
}

#[test]
fn identifiers_go_where_they_were_drawn_for() {
    let mut ids = Counter(0);
    let work = arrived(&mut ids, business());

    assert_eq!(work.message.sections[0].stream.id, StreamId(1));
    assert_eq!(work.message.message_id, MessageId(2));
    assert_eq!(work.message.sections[0].section_id.0, 3);
    assert_eq!(work.journey.journey_id, JourneyId(4));

    let next = apply_transformation(ids.three(), work, b"x".to_vec(), None);
    assert_eq!(next.message.sections[0].stream.id, StreamId(5));
    assert_eq!(next.message.message_id, MessageId(6));
    assert_eq!(next.message.sections[0].section_id.0, 7);
    assert_eq!(next.journey.messages[0].message_id, MessageId(2));
    assert_eq!(next.journey.messages[1].message_id, MessageId(6));
    assert_eq!(
        next.message.created_by,
        MessageCreationSource::Transformation
    );
}
