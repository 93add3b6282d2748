use xmip_core_runtime::arrival::{arrive, promote_identity, Answer, Ask, Passage, Stage};
use xmip_core_runtime::departure;
use xmip_core_runtime::departure::{
    choose_identity, depart, Departed, Departing, PartyId, Resolved, SendError, SendIdentity,
    SendLevel, SendLocation,
};
use xmip_core_runtime::generation::business;
use xmip_core_runtime::identity::{
    Action, Attempt, Decision, Established, Identity, IdentityFacts, Layer, Presented, Property,
    ReceivedStream, Refusal, Verified,
};
use xmip_core_runtime::message::{ContextValue, Message, MessageContext, Stream, StreamId};
use xmip_core_runtime::outcome::{Arrived, Decline, Dispatch, Refused, Routing, Subscriber};

const SECOND: i128 = 1_000_000_000;
const NOW: i128 = 1_700_000_000 * SECOND;

/// Why a closed set turns a claim down.
#[derive(Debug)]
enum Closed {
    MechanismNotDeclared { presented: String },
}

/// When a Subscription wants a Message.
enum Predicate {
    Everything,
    Equals(&'static str, &'static str),
}

struct Subscription {
    name: &'static str,
    subscriber: (&'static str, &'static str),
    predicate: Predicate,
}

/// Everything the gates are answered from: what reads claims, what is accepted,
/// who is known, what is permitted and who subscribes.
struct Estate {
    drawn: u128,
    reads_property: Option<(&'static str, &'static str)>,
    reads_interchange: bool,
    authenticators: Vec<(&'static str, Verified)>,
    parties: Vec<(&'static str, &'static str, &'static str)>,
    permits: bool,
    subscriptions: Vec<Subscription>,
    /// Everything that was asked, by its kind.
    asked: Vec<&'static str>,
}

fn proves(mechanism: &str) -> bool {
    mechanism != "edi-x12-interchange" && mechanism != "circumstance"
}

fn class(mechanism: &str) -> &'static str {
    if mechanism == "mutual-tls" {
        "highAssurance"
    } else {
        "weak"
    }
}

fn words(established: Established) -> &'static str {
    match established {
        Established::Passed => "passed",
        Established::Detected => "detected",
        Established::Inferred => "inferred",
    }
}

fn presented(mechanism: &str, value: &str, layer: Layer, established: Established) -> Presented {
    Presented {
        mechanism: mechanism.to_string(),
        value: value.to_string(),
        layer,
        established,
        evidence: Vec::new(),
    }
}

impl Estate {
    fn identify_transport(&self, received: &ReceivedStream) -> Result<Vec<Presented>, String> {
        let mut claims = Vec::new();
        if let Some((mechanism, name)) = self.reads_property {
            for property in &received.transport_properties {
                if property.name == name {
                    claims.push(presented(
                        mechanism,
                        &property.value,
                        Layer::Transport,
                        Established::Passed,
                    ));
                }
            }
        }
        Ok(claims)
    }

    fn identify_message(&self, message: &Message) -> Result<Vec<Presented>, String> {
        if !self.reads_interchange {
            return Ok(Vec::new());
        }
        let text = match core::str::from_utf8(&message.sections[0].stream.bytes) {
            Ok(text) => text,
            Err(_) => return Err("the interchange envelope is not text".to_string()),
        };
        Ok(text
            .split('*')
            .nth(6)
            .map(|value| {
                presented(
                    "edi-x12-interchange",
                    &format!("ISA06={value}"),
                    Layer::Message,
                    Established::Detected,
                )
            })
            .into_iter()
            .collect())
    }

    fn authenticate(&self, accept: &[&str], claim: &Presented) -> Result<Identity, Refusal> {
        if !accept.contains(&claim.mechanism.as_str()) {
            let closed = Closed::MechanismNotDeclared {
                presented: claim.mechanism.clone(),
            };
            return Err(Refusal {
                said: format!("{closed:?}"),
            });
        }
        for (mechanism, verified) in &self.authenticators {
            if *mechanism == claim.mechanism {
                return Ok(Identity {
                    mechanism: claim.mechanism.clone(),
                    value: claim.value.clone(),
                    class: class(&claim.mechanism).to_string(),
                    proven: proves(&claim.mechanism),
                    verified: *verified,
                    established: words(claim.established).to_string(),
                    at: 0,
                });
            }
        }
        Err(Refusal {
            said: "nothing verifies this".to_string(),
        })
    }

    fn party(&self, identity: &Identity) -> Option<String> {
        self.parties
            .iter()
            .find(|(_, mechanism, value)| {
                *mechanism == identity.mechanism && *value == identity.value
            })
            .map(|(party, _, _)| party.to_string())
    }

    fn publish(&self, context: &MessageContext) -> Routing {
        let mut destinations = Vec::new();
        let mut declines = Vec::new();
        for subscription in &self.subscriptions {
            let wanted = match subscription.predicate {
                Predicate::Everything => true,
                Predicate::Equals(name, value) => text_of(context, name).as_deref() == Some(value),
            };
            let (kind, name) = subscription.subscriber;
            if wanted {
                destinations.push(Subscriber {
                    name: name.to_string(),
                    shown: format!("{kind}.{name}"),
                });
            } else if let Predicate::Equals(name, _) = subscription.predicate {
                declines.push(Decline {
                    subscription: subscription.name.to_string(),
                    why: format!("{name} is {:?}", text_of(context, name)),
                });
            }
        }
        let dispatch = if destinations.is_empty() {
            Dispatch::Unroutable
        } else {
            Dispatch::Routed(destinations.len())
        };
        Routing {
            dispatch,
            destinations,
            declines,
        }
    }

    fn draw(&mut self) -> u128 {
        self.drawn += 1;
        self.drawn
    }

    /// Answer what an arrival has to know.
    fn answer(&mut self, accept: &[&str], passage: &Passage) -> Option<Answer> {
        let (kind, answer) = match passage.asks() {
            Ask::IdentifyTransport { received } => (
                "identify-transport",
                Answer::Claims(self.identify_transport(received)),
            ),
            Ask::Authenticate { presented } => (
                "authenticate",
                Answer::Authenticated(self.authenticate(accept, presented)),
            ),
            Ask::Evaluate { transport, content } => (
                "evaluate",
                Answer::Evaluated {
                    misaligned: false,
                    party: match content {
                        Some(identity) => self.party(identity).or(self.party(transport)),
                        None => self.party(transport),
                    },
                },
            ),
            Ask::Authorize { attempt, .. } => {
                assert_eq!(attempt.action, Action::Receive);
                assert_eq!(attempt.at, NOW);
                (
                    "authorize",
                    Answer::Decided(Decision {
                        allowed: self.permits,
                        said: format!("{} decided", attempt.name),
                    }),
                )
            }
            Ask::Draw => ("draw", Answer::Drawn(self.draw())),
            Ask::IdentifyMessage { message } => (
                "identify-message",
                Answer::Claims(self.identify_message(message)),
            ),
            Ask::Publish { context } => ("publish", Answer::Published(self.publish(context))),
            Ask::Nothing { .. } => return None,
        };
        self.asked.push(kind);
        Some(answer)
    }

    fn arrived(&mut self, location: &str, accept: &[&str], received: ReceivedStream) -> Arrived {
        let mut passage = arrive(location, received, business(), NOW);
        while let Some(answer) = self.answer(accept, &passage) {
            passage = passage.answer(answer);
        }
        match passage.stage {
            Stage::Finished { arrived } => arrived,
            stage => panic!("not finished: {stage:?}"),
        }
    }
}

fn text_of(context: &MessageContext, name: &str) -> Option<String> {
    context
        .entries
        .iter()
        .find(|entry| entry.name == name)
        .and_then(|entry| match &entry.value {
            ContextValue::Text(text) => Some(text.clone()),
            ContextValue::Bool(_) => None,
        })
}

fn estate(subscriptions: Vec<Subscription>) -> Estate {
    Estate {
        drawn: 0,
        reads_property: None,
        reads_interchange: false,
        authenticators: vec![("mutual-tls", Verified::Proven)],
        parties: vec![("7", "mutual-tls", "CN=partner-x.example")],
        permits: true,
        subscriptions,
        asked: Vec::new(),
    }
}

fn subscribed_to_partner() -> Vec<Subscription> {
    vec![Subscription {
        name: "billing",
        subscriber: ("SendPort", "Billing"),
        predicate: Predicate::Equals("xmip.party", "7"),
    }]
}

fn stream(id: u128, bytes: &[u8], source: &str) -> ReceivedStream {
    ReceivedStream {
        stream: Stream {
            id: StreamId(id),
            bytes: bytes.to_vec(),
            media_type: None,
        },
        arriving: "pushed".to_string(),
        source_uri: source.to_string(),
        transport_properties: Vec::new(),
        presented: None,
    }
}

fn arriving() -> ReceivedStream {
    let mut received = stream(100, b"<order/>", "https://xmip.example/in/partner-x");
    received.presented = Some(presented(
        "mutual-tls",
        "CN=partner-x.example",
        Layer::Transport,
        Established::Passed,
    ));
    received
}

#[test]
fn a_file_arrives_and_reaches_a_send_port() {
    let mut estate = estate(subscribed_to_partner());
    let arrived = estate.arrived("partner-x", &["mutual-tls"], arriving());

    let Arrived::Routed {
        work,
        facts,
        routing,
    } = arrived
    else {
        panic!("expected a route, got {arrived:?}");
    };

    assert_eq!(facts.party.as_deref(), Some("7"));
    assert_eq!(routing.dispatch, Dispatch::Routed(1));
    assert_eq!(routing.destinations[0].shown, "SendPort.Billing");

    assert_eq!(work.message.generation, 0);
    assert_eq!(work.journey.messages.len(), 1);
    assert_eq!(
        work.journey.messages[0].message_id,
        work.message.message_id
    );
}

#[test]
fn a_refused_arrival_opens_no_journey() {
    let mut estate = estate(subscribed_to_partner());
    let mut received = stream(101, b"{}", "https://xmip.example/in/partner-x");
    received.presented = Some(presented(
        "api-key",
        "k-123",
        Layer::Transport,
        Established::Passed,
    ));
    let arrived = estate.arrived("partner-x", &["mutual-tls"], received);

    let Arrived::Refused {
        reason: Refused::Authentication(refusal),
    } = &arrived
    else {
        panic!("expected an authentication refusal, got {arrived:?}");
    };

    let closed = Closed::MechanismNotDeclared {
        presented: "api-key".to_string(),
    };
    assert_eq!(refusal.said, format!("{closed:?}"));
    assert_eq!(estate.drawn, 0, "no identifier was drawn");
    assert!(!arrived.retains());
    assert!(arrived.routing().is_none());
}

#[test]
fn nobody_wanting_it_keeps_it_and_says_why() {
    let mut estate = estate(vec![Subscription {
        name: "invoices",
        subscriber: ("SendPort", "Invoices"),
        predicate: Predicate::Equals("xmip.party", "99"),
    }]);
    let arrived = estate.arrived("partner-x", &["mutual-tls"], arriving());

    assert!(arrived.retains());

    let declines = &arrived.routing().expect("published").declines;

    assert_eq!(declines.len(), 1);
    assert_eq!(declines[0].subscription, "invoices");
    assert!(
        declines[0].why.contains("xmip.party is"),
        "got: {}",
        declines[0].why
    );
}

#[test]
fn a_drop_folder_authenticates_on_its_circumstance() {
    let mut estate = estate(vec![Subscription {
        name: "archive",
        subscriber: ("SendPort", "Archive"),
        predicate: Predicate::Everything,
    }]);
    estate.authenticators = vec![("circumstance", Verified::Proven)];
    estate.parties = Vec::new();
    let arrived = estate.arrived(
        "drop",
        &["circumstance"],
        stream(102, b"ISA*00*", "file:///in/partner-y/order-1.edi"),
    );

    let Arrived::Routed { facts, .. } = arrived else {
        panic!("expected a route, got {arrived:?}");
    };

    assert_eq!(facts.party, None);
    assert_eq!(facts.transport.mechanism, "circumstance");
}

#[test]
fn what_the_gate_concluded_is_routable() {
    let mut estate = estate(vec![Subscription {
        name: "high-assurance-only",
        subscriber: ("Process", "Approval"),
        predicate: Predicate::Equals("xmip.transport.class", "highAssurance"),
    }]);
    let arrived = estate.arrived("partner-x", &["mutual-tls"], arriving());

    assert_eq!(
        arrived.routing().expect("published").dispatch,
        Dispatch::Routed(1)
    );
}

/// A transport that records what it was asked to present.
struct Recording {
    technology: &'static str,
    fail: Option<(bool, &'static str)>,
    presented: Vec<String>,
}

fn billing(departing: Departing) -> SendLocation {
    SendLocation {
        name: "Billing".to_string(),
        uri: "sftp://billing.example/in".to_string(),
        transport: "ssh-key".to_string(),
        departing,
    }
}

/// Carry what arrived to every destination.
fn departed(
    arrived: &Arrived,
    transport: &mut Recording,
    permits: bool,
    departing: Departing,
) -> Vec<Departed> {
    let Arrived::Routed {
        work,
        facts,
        routing,
    } = arrived
    else {
        panic!("expected a route, got {arrived:?}");
    };
    let mut departures = depart(work, facts, routing, vec![transport.technology.to_string()]);
    loop {
        let answer = match departures.asks() {
            None => return departures.done,
            Some(departure::Ask::Locate { to }) => {
                departure::Answer::Located(if to.name == "Billing" {
                    Some((
                        billing(departing),
                        Some(Resolved {
                            party_id: PartyId(8),
                            level: SendLevel::Port,
                        }),
                    ))
                } else {
                    None
                })
            }
            Some(departure::Ask::Clock) => departure::Answer::Clock(NOW + SECOND),
            Some(departure::Ask::Authorize {
                attempt,
                misaligned_is_accepted,
                ..
            }) => {
                assert_eq!(
                    attempt,
                    Attempt {
                        action: Action::Send,
                        name: &"Billing".to_string(),
                        at: NOW + SECOND
                    }
                );
                assert!(misaligned_is_accepted);
                departure::Answer::Decided(Decision {
                    allowed: permits,
                    said: "decided".to_string(),
                })
            }
            Some(departure::Ask::Party { party_id }) => {
                assert_eq!(party_id, PartyId(8));
                departure::Answer::Party(Some(vec![SendIdentity {
                    mechanism: "ssh-key".to_string(),
                    value: "SHA256:xmip-outbound".to_string(),
                }]))
            }
            Some(departure::Ask::Send { present, .. }) => {
                transport.presented.push(match present {
                    Some(identity) => identity.value.clone(),
                    None => "(none)".to_string(),
                });
                departure::Answer::Sent(match transport.fail {
                    Some((retryable, message)) => Err(SendError {
                        retryable,
                        message: message.to_string(),
                    }),
                    None => Ok("accepted".to_string()),
                })
            }
            Some(departure::Ask::Nothing { .. }) => unreachable!(),
        };
        departures = departures.answer(answer);
    }
}

fn recording(technology: &'static str) -> Recording {
    Recording {
        technology,
        fail: None,
        presented: Vec::new(),
    }
}

fn routed() -> Arrived {
    estate(subscribed_to_partner()).arrived("partner-x", &["mutual-tls"], arriving())
}

#[test]
fn a_routed_message_leaves_presenting_xmips_own_identity() {
    let mut sftp = recording("ssh-key");
    let departed = departed(&routed(), &mut sftp, true, Departing::Pushed);

    assert_eq!(departed.len(), 1);
    assert!(departed[0].sent(), "got {:?}", departed[0]);

    let Departed::Sent { presented_from, .. } = &departed[0] else {
        unreachable!()
    };
    assert_eq!(*presented_from, Some(SendLevel::Port));

    assert_eq!(sftp.presented.as_slice(), ["SHA256:xmip-outbound"]);
}

#[test]
fn a_destination_configuration_does_not_have_is_named() {
    let mut estate = estate(vec![Subscription {
        name: "elsewhere",
        subscriber: ("SendPort", "Nowhere"),
        predicate: Predicate::Everything,
    }]);
    let arrived = estate.arrived("partner-x", &["mutual-tls"], arriving());
    let departed = departed(&arrived, &mut recording("ssh-key"), true, Departing::Pushed);

    assert!(matches!(departed[0], Departed::NoSuchDestination { .. }));
}

#[test]
fn the_transport_decides_whether_a_failure_is_worth_retrying() {
    let mut refusing = recording("ssh-key");
    refusing.fail = Some((true, "connection refused"));
    let departed = departed(&routed(), &mut refusing, true, Departing::Pushed);

    let Departed::Failed {
        retryable, detail, ..
    } = &departed[0]
    else {
        panic!("expected a failure, got {:?}", departed[0]);
    };

    assert!(retryable);
    assert_eq!(detail, "connection refused");
}

#[test]
fn a_technology_nothing_loaded_speaks_is_named_rather_than_guessed() {
    let departed = departed(&routed(), &mut recording("http"), true, Departing::Pushed);

    let Departed::NoTransport { technology, .. } = &departed[0] else {
        panic!("expected no transport, got {:?}", departed[0]);
    };

    assert_eq!(technology, "ssh-key");
}

#[test]
fn the_first_gate_is_called_and_the_transport_does_not_decide() {
    let mut estate = estate(subscribed_to_partner());
    estate.reads_property = Some(("mutual-tls", "tls.client.subject"));
    let mut received = stream(103, b"<order/>", "https://xmip.example/in/partner-x");
    received.transport_properties = vec![Property {
        name: "tls.client.subject".to_string(),
        value: "CN=partner-x.example".to_string(),
    }];
    let arrived = estate.arrived("partner-x", &["mutual-tls"], received);

    let Arrived::Routed { facts, .. } = arrived else {
        panic!("expected a route, got {arrived:?}");
    };

    assert_eq!(facts.transport.value, "CN=partner-x.example");
    assert_eq!(facts.party.as_deref(), Some("7"));
}

fn interchange(id: u128, source: &str, subject: &str) -> ReceivedStream {
    let mut received = stream(id, b"ISA*00*          *00*          *ZZ*PARTNERX", source);
    received.presented = Some(presented(
        "mutual-tls",
        subject,
        Layer::Transport,
        Established::Passed,
    ));
    received
}

fn reading_envelopes(subscriptions: Vec<Subscription>) -> Estate {
    let mut estate = estate(subscriptions);
    estate
        .authenticators
        .push(("edi-x12-interchange", Verified::Claimed));
    estate.reads_interchange = true;
    estate
}

#[test]
fn the_message_gate_runs_after_the_message_exists_and_records_both_layers() {
    let mut estate = reading_envelopes(vec![Subscription {
        name: "edi",
        subscriber: ("SendPort", "Billing"),
        predicate: Predicate::Equals("xmip.message.mechanism", "edi-x12-interchange"),
    }]);
    let arrived = estate.arrived(
        "van",
        &["mutual-tls", "edi-x12-interchange"],
        interchange(104, "https://xmip.example/in/van", "CN=van.example"),
    );

    let Arrived::Routed { facts, work, .. } = arrived else {
        panic!("expected a route, got {arrived:?}");
    };

    assert_eq!(facts.transport.value, "CN=van.example");

    let message = facts.message.as_ref().expect("the envelope named someone");
    assert_eq!(message.value, "ISA06=PARTNERX");
    assert_eq!(message.verified, Verified::Claimed);

    assert_eq!(work.message.generation, 0);

    assert_eq!(
        estate.asked,
        [
            "identify-transport",
            "authenticate",
            "evaluate",
            "authorize",
            "draw",
            "draw",
            "identify-message",
            "authenticate",
            "evaluate",
            "authorize",
            "draw",
            "publish"
        ]
    );
}

#[test]
fn a_message_identity_the_location_never_declared_is_refused() {
    let mut estate = reading_envelopes(subscribed_to_partner());
    let arrived = estate.arrived(
        "partner-x",
        &["mutual-tls"],
        interchange(
            105,
            "https://xmip.example/in/partner-x",
            "CN=partner-x.example",
        ),
    );

    let Arrived::Refused {
        reason: Refused::Authentication(refusal),
    } = arrived
    else {
        panic!("expected an authentication refusal, got {arrived:?}");
    };

    let closed = Closed::MechanismNotDeclared {
        presented: "edi-x12-interchange".to_string(),
    };
    assert_eq!(refusal.said, format!("{closed:?}"));
}

#[test]
fn a_scheduled_pickup_has_no_caller_and_its_identity_is_inferred() {
    let mut estate = estate(vec![Subscription {
        name: "nightly",
        subscriber: ("SendPort", "Archive"),
        predicate: Predicate::Equals("xmip.arriving", "scheduled"),
    }]);
    estate.authenticators = vec![("circumstance", Verified::Proven)];
    estate.parties = Vec::new();
    let mut received = stream(
        106,
        b"<orders/>",
        "sftp://partner-y.example/out/orders-2026-08-27.xml",
    );
    received.arriving = "scheduled".to_string();
    let arrived = estate.arrived("partner-y-nightly", &["circumstance"], received);

    let Arrived::Routed { facts, .. } = arrived else {
        panic!("expected a route, got {arrived:?}");
    };

    assert_eq!(facts.transport.established, "inferred");
    assert_eq!(facts.transport.mechanism, "circumstance");
    assert_eq!(
        facts.transport.value,
        "sftp://partner-y.example/out/orders-2026-08-27.xml"
    );
}

#[test]
fn how_it_arrived_and_how_the_identity_was_established_are_separate_facts() {
    let mut estate = reading_envelopes(vec![Subscription {
        name: "pushed-edi",
        subscriber: ("SendPort", "Billing"),
        predicate: Predicate::Equals("xmip.message.established", "detected"),
    }]);
    let arrived = estate.arrived(
        "van",
        &["mutual-tls", "edi-x12-interchange"],
        interchange(107, "https://xmip.example/in/van", "CN=van.example"),
    );

    let Arrived::Routed { facts, routing, .. } = arrived else {
        panic!("expected a route, got {arrived:?}");
    };

    assert_eq!(facts.transport.established, "passed");
    assert_eq!(
        facts
            .message
            .as_ref()
            .expect("the envelope named someone")
            .established,
        "detected"
    );
    assert_eq!(routing.dispatch, Dispatch::Routed(1));
}

#[test]
fn a_sender_who_is_not_permitted_is_refused_before_anything_is_read() {
    let mut estate = reading_envelopes(subscribed_to_partner());
    estate.permits = false;
    let arrived = estate.arrived("partner-x", &["mutual-tls"], arriving());

    let Arrived::Refused { reason } = &arrived else {
        panic!("expected a refusal, got {arrived:?}");
    };
    assert!(matches!(reason, Refused::Authorization(_)));
    assert_eq!(reason.text(), "partner-x decided");
    assert!(!estate.asked.contains(&"identify-message"));
}

#[test]
fn an_envelope_that_cannot_be_read_is_refused_in_its_readers_words() {
    let mut estate = reading_envelopes(subscribed_to_partner());
    let mut received = arriving();
    received.stream.bytes = vec![0xff];
    let arrived = estate.arrived("partner-x", &["mutual-tls"], received);

    let Arrived::Refused { reason } = arrived else {
        panic!("expected a refusal");
    };
    assert_eq!(
        reason,
        Refused::Identification("the interchange envelope is not text".to_string())
    );
    assert_eq!(reason.text(), "the interchange envelope is not text");
}

#[test]
fn an_answer_to_something_else_changes_nothing() {
    let passage = arrive("partner-x", arriving(), business(), NOW);
    let again = arrive("partner-x", arriving(), business(), NOW);

    assert_eq!(passage.answer(Answer::Drawn(9)), again);
}

#[test]
fn the_circumstance_is_evidence_of_itself() {
    let passage = arrive("drop", stream(1, b"", "file:///in/a"), business(), NOW);
    let passage = passage.answer(Answer::Claims(Ok(Vec::new())));

    let Stage::AuthenticatingTransport { presented, .. } = &passage.stage else {
        panic!("got {passage:?}");
    };
    assert_eq!(presented.mechanism, "circumstance");
    assert_eq!(presented.value, "file:///in/a");
    assert_eq!(presented.established, Established::Inferred);
    assert_eq!(presented.evidence[0].name, "source");
    assert_eq!(presented.evidence[0].value, "file:///in/a");
}

#[test]
fn every_promoted_name_stands_once() {
    let identity = |value: &str| Identity {
        mechanism: "m".to_string(),
        value: value.to_string(),
        class: "c".to_string(),
        proven: true,
        verified: Verified::Proven,
        established: "passed".to_string(),
        at: NOW,
    };
    let facts = IdentityFacts {
        transport: identity("t"),
        message: Some(identity("m")),
        misaligned: true,
        party: Some("7".to_string()),
    };
    let context = promote_identity(&facts, "pushed");
    let names: Vec<&str> = context
        .entries
        .iter()
        .map(|entry| entry.name.as_str())
        .collect();

    assert_eq!(
        names,
        [
            "xmip.arriving",
            "xmip.transport.mechanism",
            "xmip.transport.identity",
            "xmip.transport.class",
            "xmip.transport.proven",
            "xmip.transport.established",
            "xmip.message.mechanism",
            "xmip.message.identity",
            "xmip.message.class",
            "xmip.message.proven",
            "xmip.message.established",
            "xmip.identity.misaligned",
            "xmip.party"
        ]
    );
    assert_eq!(context.entries[11].value, ContextValue::Bool(true));
    assert_eq!(text_of(&context, "xmip.message.identity").as_deref(), Some("m"));
    assert_eq!(text_of(&context, "xmip.transport.identity").as_deref(), Some("t"));
}

#[test]
fn leaving_is_permitted_again_and_a_collected_departure_is_held() {
    let mut sftp = recording("ssh-key");
    let refused = departed(&routed(), &mut sftp, false, Departing::Pushed);
    assert!(matches!(refused[0], Departed::NotPermitted { .. }));
    assert!(sftp.presented.is_empty());

    let awaiting = departed(&routed(), &mut sftp, true, Departing::Collected);
    assert!(awaiting[0].holds());
    assert!(!awaiting[0].sent());
    assert!(
        matches!(&awaiting[0], Departed::Awaiting { at, .. } if at == "sftp://billing.example/in")
    );
    assert!(sftp.presented.is_empty());
}

#[test]
fn the_locations_own_mechanism_is_presented_before_any_other() {
    let of = |mechanism: &str, value: &str| SendIdentity {
        mechanism: mechanism.to_string(),
        value: value.to_string(),
    };
    let both = || vec![of("api-key", "k"), of("ssh-key", "s"), of("ssh-key", "t")];

    assert_eq!(choose_identity(both(), "ssh-key"), Some(of("ssh-key", "s")));
    assert_eq!(choose_identity(both(), "http"), Some(of("api-key", "k")));
    assert_eq!(choose_identity(Vec::new(), "http"), None);
}

#[test]
fn every_destination_has_its_own_result_in_order() {
    let mut estate = estate(vec![
        Subscription {
            name: "one",
            subscriber: ("SendPort", "Nowhere"),
            predicate: Predicate::Everything,
        },
        Subscription {
            name: "two",
            subscriber: ("SendPort", "Billing"),
            predicate: Predicate::Everything,
        },
    ]);
    let arrived = estate.arrived("partner-x", &["mutual-tls"], arriving());
    let departed = departed(&arrived, &mut recording("ssh-key"), true, Departing::Pushed);

    assert_eq!(departed.len(), 2);
    assert!(matches!(&departed[0], Departed::NoSuchDestination { to } if to.name == "Nowhere"));
    assert!(matches!(&departed[1], Departed::Sent { to, .. } if to.name == "Billing"));
}
