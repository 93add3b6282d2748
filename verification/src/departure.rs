//! The departure path: what a Host Service does with a Message that is going
//! somewhere.
//!
//! The mirror of [`crate::arrival`], and the same shape. A Stream arrives at a
//! Receive Location; a Message departs from a Send Location. Both are gated,
//! both are recorded, and the vocabulary is deliberately symmetric because an
//! operator watching an estate is reading one board.
//!
//! ```text
//! Routing        every destination the Message matched
//!   -> authorize may this identity still send, now
//!   -> resolve   whose identity Xmip presents
//!   -> depart    pushed, collected or scheduled
//! ```
//!
//! **The ToDo holds the Message until every departure is settled.** A Journey
//! with two destinations reached and one awaiting collection is unfinished, and
//! the work store is the only place that state can live without either lying
//! about it.
//!
//! Authorization runs again here rather than being inherited from arrival.
//! Time has passed, and what was true then is never a licence to act now.

use vstd::prelude::*;
use vstd::string::*;

use crate::generation::ReceivedWork;
use crate::identity::{Action, Attempt, Decision, IdentityFacts};
use crate::message::Message;
use crate::outcome::{Routing, Subscriber};
use crate::text;

verus! {

/// Who takes the Message from here to there.
#[derive(Clone, Copy, Debug, PartialEq, Eq, Structural)]
pub enum Departing {
    Pushed,
    /// The Stream is made available and something comes and takes it.
    Collected,
    Scheduled,
}

/// Where a Message departs from.
#[derive(Clone, Debug, PartialEq, Eq)]
pub struct SendLocation {
    pub name: String,
    pub uri: String,
    /// The technology a transport has to speak here.
    pub transport: String,
    pub departing: Departing,
}

/// Which artifact declared the identity Xmip presents.
#[derive(Clone, Copy, Debug, PartialEq, Eq, Structural)]
pub enum SendLevel {
    Location,
    Port,
    Group,
    Process,
}

#[derive(Clone, Copy, Debug, PartialEq, Eq, Structural)]
pub struct PartyId(pub u128);

/// The Party whose identity is presented, and the artifact that said so.
#[derive(Clone, Copy, Debug, PartialEq, Eq, Structural)]
pub struct Resolved {
    pub party_id: PartyId,
    pub level: SendLevel,
}

/// An identity a Party is configured to send under.
#[derive(Clone, Debug, PartialEq, Eq)]
pub struct SendIdentity {
    /// The name of the mechanism.
    pub mechanism: String,
    pub value: String,
}

/// Why a transport did not get a Message across.
#[derive(Clone, Debug, PartialEq, Eq)]
pub struct SendError {
    pub retryable: bool,
    pub message: String,
}

/// What became of one Message on its way out to one destination.
#[derive(Clone, Debug, PartialEq, Eq)]
pub enum Departed {
    Sent {
        to: Subscriber,
        /// Which artifact decided the identity presented, or `None` where
        /// nothing in the chain declared one.
        presented_from: Option<SendLevel>,
        status: String,
    },
    /// Available, and waiting to be collected.
    ///
    /// Not a success and not a failure. Xmip has done everything it can and the
    /// departure completes when somebody turns up, so the Message stays in the
    /// ToDo, and an unreachable partner and an idle one stay distinguishable.
    Awaiting { to: Subscriber, at: String },
    /// Routing named a destination that configuration does not have.
    NoSuchDestination { to: Subscriber },
    /// No loaded transport speaks the Location's technology.
    NoTransport { to: Subscriber, technology: String },
    /// Authorized to arrive, and not authorized to leave this way.
    ///
    /// The two are different questions and time may have passed between them.
    NotPermitted { to: Subscriber, decision: Decision },
    /// The transport tried and failed. `retryable` is the transport's answer,
    /// not the runtime's: only it knows whether a refused connection is a
    /// restart away from working.
    Failed { to: Subscriber, retryable: bool, detail: String },
}

impl Departed {
    /// Where it was going.
    pub open spec fn destination(self) -> Subscriber {
        match self {
            Departed::Sent { to, presented_from, status } => to,
            Departed::Awaiting { to, at } => to,
            Departed::NoSuchDestination { to } => to,
            Departed::NoTransport { to, technology } => to,
            Departed::NotPermitted { to, decision } => to,
            Departed::Failed { to, retryable, detail } => to,
        }
    }

    pub fn sent(&self) -> (r: bool)
        ensures
            r == (self is Sent),
    {
        matches!(self, Departed::Sent { .. })
    }

    /// Whether the ToDo must keep holding this.
    ///
    /// True while a collected departure has not been collected. The Message is
    /// not done and is not failed.
    pub fn holds(&self) -> (r: bool)
        ensures
            r == (self is Awaiting),
    {
        matches!(self, Departed::Awaiting { .. })
    }
}

/// How far one departure has come, and what it carries there.
#[derive(Debug, PartialEq, Eq)]
pub enum Stage {
    Locating,
    ReadingClock { location: SendLocation, resolved: Option<Resolved> },
    Authorizing { location: SendLocation, resolved: Option<Resolved>, now: i128 },
    FindingParty { location: SendLocation, chosen: Resolved, transport: usize },
    Sending {
        location: SendLocation,
        transport: usize,
        present: Option<SendIdentity>,
        present_from: Option<SendLevel>,
    },
    Settled { departed: Departed },
}

/// One Message on its way to one destination.
#[derive(Debug, PartialEq, Eq)]
pub struct Departure {
    pub to: Subscriber,
    pub stage: Stage,
}

/// What a departure has to know next.
#[derive(Debug)]
pub enum Ask<'a> {
    /// Where the Subscriber is configured, and whose identity the chain of
    /// artifacts there presents.
    Locate { to: &'a Subscriber },
    /// The time.
    Clock,
    /// Whether the policies permit the attempt. Two layers that name different
    /// Parties are no reason against it here.
    Authorize { facts: &'a IdentityFacts, attempt: Attempt<'a>, misaligned_is_accepted: bool },
    /// The identities a Party is configured to send under.
    Party { party_id: PartyId },
    /// What the transport at this place in the list makes of the Message.
    Send {
        transport: usize,
        message: &'a Message,
        location: &'a SendLocation,
        present: &'a Option<SendIdentity>,
        present_from: Option<SendLevel>,
    },
    /// Nothing. This is what became of it.
    Nothing { departed: &'a Departed },
}

/// The answer to what was asked.
#[derive(Debug)]
pub enum Answer {
    Located(Option<(SendLocation, Option<Resolved>)>),
    Clock(i128),
    Decided(Decision),
    /// The Party's send identities in the order they are configured, or `None`
    /// where there is no such Party.
    Party(Option<Vec<SendIdentity>>),
    /// What the transport reports back, or why it failed.
    Sent(Result<String, SendError>),
}

/// The first transport that speaks a technology.
pub open spec fn transport_for(technologies: Seq<String>, wanted: Seq<char>, at: int) -> bool {
    &&& 0 <= at < technologies.len()
    &&& technologies[at]@ == wanted
    &&& forall|i: int| 0 <= i < at ==> (#[trigger] technologies[i])@ != wanted
}

/// Some transport speaks a technology.
pub open spec fn spoken(technologies: Seq<String>, wanted: Seq<char>) -> bool {
    exists|i: int| 0 <= i < technologies.len() && (#[trigger] technologies[i])@ == wanted
}

/// The identity Xmip presents: the first one of the Location's own mechanism,
/// else the first one there is.
pub open spec fn presents(
    identities: Seq<SendIdentity>,
    mechanism: Seq<char>,
    present: Option<SendIdentity>,
) -> bool {
    if identities.len() == 0 {
        present is None
    } else if exists|i: int|
        0 <= i < identities.len() && (#[trigger] identities[i]).mechanism@ == mechanism {
        exists|i: int|
            #![trigger identities[i]]
            0 <= i < identities.len() && present == Some(identities[i])
                && identities[i].mechanism@ == mechanism && (forall|j: int|
                0 <= j < i ==> (#[trigger] identities[j]).mechanism@ != mechanism)
    } else {
        present == Some(identities[0])
    }
}

/// `stage` is the end.
pub open spec fn settled(stage: Stage, departed: Departed) -> bool {
    stage == (Stage::Settled { departed })
}

/// Where a departure that was permitted goes on to.
pub open spec fn permitted(
    to: Subscriber,
    location: SendLocation,
    resolved: Option<Resolved>,
    technologies: Seq<String>,
    stage: Stage,
) -> bool {
    if location.departing == Departing::Collected {
        settled(stage, Departed::Awaiting { to, at: location.uri })
    } else if !spoken(technologies, location.transport@) {
        settled(stage, Departed::NoTransport { to, technology: location.transport })
    } else {
        match resolved {
            Some(found) => {
                &&& stage matches Stage::FindingParty { location: kept, chosen, transport }
                &&& kept == location
                &&& chosen == found
                &&& transport_for(technologies, location.transport@, transport as int)
            },
            None => {
                &&& stage matches Stage::Sending {
                    location: kept,
                    transport,
                    present,
                    present_from,
                }
                &&& kept == location
                &&& present is None
                &&& present_from is None
                &&& transport_for(technologies, location.transport@, transport as int)
            },
        }
    }
}

/// Where a departure comes to from `before` with `answer`. An answer to
/// something else leaves it where it was.
pub open spec fn moves(
    before: Departure,
    answer: Answer,
    technologies: Seq<String>,
    after: Departure,
) -> bool {
    let to = before.to;
    &&& after.to == to
    &&& match (before.stage, answer) {
        (Stage::Locating, Answer::Located(None)) => settled(
            after.stage,
            Departed::NoSuchDestination { to },
        ),
        (Stage::Locating, Answer::Located(Some((location, resolved)))) => after.stage
            == (Stage::ReadingClock { location, resolved }),
        (Stage::ReadingClock { location, resolved }, Answer::Clock(now)) => after.stage
            == (Stage::Authorizing { location, resolved, now }),
        (Stage::Authorizing { location, resolved, now }, Answer::Decided(decision)) => {
            if decision.allowed {
                permitted(to, location, resolved, technologies, after.stage)
            } else {
                settled(after.stage, Departed::NotPermitted { to, decision })
            }
        },
        (Stage::FindingParty { location, chosen, transport }, Answer::Party(identities)) => {
            &&& after.stage matches Stage::Sending {
                location: kept,
                transport: by,
                present,
                present_from,
            }
            &&& kept == location
            &&& by == transport
            &&& present_from == Some(chosen.level)
            &&& match identities {
                Some(identities) => presents(identities@, location.transport@, present),
                None => present is None,
            }
        },
        (
            Stage::Sending { location, transport, present, present_from },
            Answer::Sent(Ok(status)),
        ) => settled(after.stage, Departed::Sent { to, presented_from: present_from, status }),
        (
            Stage::Sending { location, transport, present, present_from },
            Answer::Sent(Err(error)),
        ) => settled(
            after.stage,
            Departed::Failed { to, retryable: error.retryable, detail: error.message },
        ),
        _ => after.stage == before.stage,
    }
}

/// `answer` is an answer to what the stage has to know.
pub open spec fn fits(stage: Stage, answer: Answer) -> bool {
    match stage {
        Stage::Locating => answer is Located,
        Stage::ReadingClock { location, resolved } => answer is Clock,
        Stage::Authorizing { location, resolved, now } => answer is Decided,
        Stage::FindingParty { location, chosen, transport } => answer is Party,
        Stage::Sending { location, transport, present, present_from } => answer is Sent,
        Stage::Settled { departed } => false,
    }
}

/// One destination, before anything is known of it.
pub fn depart_one(to: Subscriber) -> (r: Departure)
    ensures
        r.to == to,
        r.stage == Stage::Locating,
{
    Departure { to, stage: Stage::Locating }
}

impl Departure {
    /// Go on with the answer to what was asked, with the transports in the
    /// order they were loaded. An answer to something else changes nothing.
    pub fn answer(self, answer: Answer, technologies: &Vec<String>) -> (r: Departure)
        ensures
            moves(self, answer, technologies@, r),
    {
        let to = self.to;
        match (self.stage, answer) {
            (Stage::Locating, Answer::Located(None)) => settle(
                Departed::NoSuchDestination { to },
            ),
            (Stage::Locating, Answer::Located(Some((location, resolved)))) => Departure {
                to,
                stage: Stage::ReadingClock { location, resolved },
            },
            (Stage::ReadingClock { location, resolved }, Answer::Clock(now)) => Departure {
                to,
                stage: Stage::Authorizing { location, resolved, now },
            },
            (Stage::Authorizing { location, resolved, .. }, Answer::Decided(decision)) => {
                if decision.allowed {
                    go_on(to, location, resolved, technologies)
                } else {
                    settle(Departed::NotPermitted { to, decision })
                }
            },
            (Stage::FindingParty { location, chosen, transport }, Answer::Party(identities)) => {
                let present = match identities {
                    Some(identities) => choose_identity(identities, location.transport.as_str()),
                    None => None,
                };
                Departure {
                    to,
                    stage: Stage::Sending {
                        location,
                        transport,
                        present,
                        present_from: Some(chosen.level),
                    },
                }
            },
            (Stage::Sending { present_from, .. }, Answer::Sent(Ok(status))) => settle(
                Departed::Sent { to, presented_from: present_from, status },
            ),
            (Stage::Sending { .. }, Answer::Sent(Err(error))) => settle(
                Departed::Failed { to, retryable: error.retryable, detail: error.message },
            ),
            (stage, _) => Departure { to, stage },
        }
    }
}

fn settle(departed: Departed) -> (r: Departure)
    ensures
        r.to == departed.destination(),
        settled(r.stage, departed),
{
    let to = match &departed {
        Departed::Sent { to, .. } => to.clone(),
        Departed::Awaiting { to, .. } => to.clone(),
        Departed::NoSuchDestination { to } => to.clone(),
        Departed::NoTransport { to, .. } => to.clone(),
        Departed::NotPermitted { to, .. } => to.clone(),
        Departed::Failed { to, .. } => to.clone(),
    };
    Departure { to, stage: Stage::Settled { departed } }
}

fn go_on(
    to: Subscriber,
    location: SendLocation,
    resolved: Option<Resolved>,
    technologies: &Vec<String>,
) -> (r: Departure)
    ensures
        r.to == to,
        permitted(to, location, resolved, technologies@, r.stage),
{
    if location.departing == Departing::Collected {
        return settle(Departed::Awaiting { to, at: location.uri });
    }
    match find_transport(technologies, location.transport.as_str()) {
        Some(transport) => {
            let stage = match resolved {
                Some(found) => Stage::FindingParty { location, chosen: found, transport },
                None => Stage::Sending {
                    location,
                    transport,
                    present: None,
                    present_from: None,
                },
            };
            Departure { to, stage }
        },
        None => settle(Departed::NoTransport { to, technology: location.transport }),
    }
}

fn find_transport(technologies: &Vec<String>, wanted: &str) -> (r: Option<usize>)
    ensures
        match r {
            Some(at) => transport_for(technologies@, wanted@, at as int),
            None => !spoken(technologies@, wanted@),
        },
{
    let mut at: usize = 0;
    while at < technologies.len()
        invariant
            at <= technologies@.len(),
            forall|i: int| 0 <= i < at ==> (#[trigger] technologies@[i])@ != wanted@,
        decreases technologies@.len() - at,
    {
        if text::same(technologies[at].as_str(), wanted) {
            return Some(at);
        }
        at += 1;
    }
    None
}

/// The first identity of the Location's own mechanism, else the first one
/// there is: the target only cares which identity Xmip presents.
pub fn choose_identity(identities: Vec<SendIdentity>, mechanism: &str) -> (r: Option<SendIdentity>)
    ensures
        presents(identities@, mechanism@, r),
{
    let mut identities = identities;
    let ghost all = identities@;
    let mut at: usize = 0;
    while at < identities.len()
        invariant
            at <= identities@.len(),
            identities@ == all,
            forall|j: int| 0 <= j < at ==> (#[trigger] all[j]).mechanism@ != mechanism@,
        ensures
            at <= identities@.len(),
            identities@ == all,
            forall|j: int| 0 <= j < at ==> (#[trigger] all[j]).mechanism@ != mechanism@,
            at < all.len() ==> all[at as int].mechanism@ == mechanism@,
        decreases identities@.len() - at,
    {
        if text::same(identities[at].mechanism.as_str(), mechanism) {
            break;
        }
        at += 1;
    }
    if at < identities.len() {
        Some(identities.swap_remove(at))
    } else if identities.len() > 0 {
        Some(identities.swap_remove(0))
    } else {
        None
    }
}

/// A routed Message on its way to every destination that matched.
#[derive(Debug)]
pub struct Departures<'a> {
    pub work: &'a ReceivedWork,
    pub facts: &'a IdentityFacts,
    /// What the loaded transports speak, in the order they were loaded.
    pub technologies: Vec<String>,
    pub destinations: &'a Vec<Subscriber>,
    /// What became of the destinations so far.
    pub done: Vec<Departed>,
    /// The departure under way, until every destination is settled.
    pub current: Option<Departure>,
}

/// As many results as destinations were settled, each for its own; and a
/// departure under way as long as one is left, for the next of them.
pub open spec fn in_step(departures: Departures<'_>) -> bool {
    &&& departures.done@.len() <= departures.destinations@.len()
    &&& forall|i: int|
        0 <= i < departures.done@.len() ==> (#[trigger] departures.done@[i]).destination()
            == departures.destinations@[i]
    &&& match departures.current {
        Some(departure) => {
            &&& departures.done@.len() < departures.destinations@.len()
            &&& departure.to == departures.destinations@[departures.done@.len() as int]
            &&& departure.stage !is Settled
        },
        None => departures.done@.len() == departures.destinations@.len(),
    }
}

/// The departure at a place in the list, before anything is known of it.
pub open spec fn setting_out(
    destinations: Seq<Subscriber>,
    at: int,
    departure: Option<Departure>,
) -> bool {
    if at < destinations.len() {
        departure == Some(Departure { to: destinations[at], stage: Stage::Locating })
    } else {
        departure is None
    }
}

/// Carry a routed Message to every destination that matched.
///
/// One departure per destination, and one result per departure. A Message
/// routed to three Send Ports that reaches two of them is two successes and one
/// failure, not a single verdict.
pub fn depart<'a>(
    work: &'a ReceivedWork,
    facts: &'a IdentityFacts,
    routing: &'a Routing,
    technologies: Vec<String>,
) -> (r: Departures<'a>)
    ensures
        in_step(r),
        r.work == work,
        r.facts == facts,
        r.technologies == technologies,
        *r.destinations == routing.destinations,
        r.done@.len() == 0,
        setting_out(routing.destinations@, 0, r.current),
{
    Departures {
        work,
        facts,
        technologies,
        destinations: &routing.destinations,
        done: Vec::new(),
        current: set_out(&routing.destinations, 0),
    }
}

fn set_out(destinations: &Vec<Subscriber>, at: usize) -> (r: Option<Departure>)
    ensures
        setting_out(destinations@, at as int, r),
{
    if at < destinations.len() {
        Some(depart_one(destinations[at].clone()))
    } else {
        None
    }
}

/// What the departure under way has to know next.
pub open spec fn asked<'a>(departures: &'a Departures<'a>) -> Option<Ask<'a>> {
    match &departures.current {
        None => None,
        Some(departure) => Some(
            match &departure.stage {
                Stage::Locating => Ask::Locate { to: &departure.to },
                Stage::ReadingClock { location, resolved } => Ask::Clock,
                Stage::Authorizing { location, resolved, now } => Ask::Authorize {
                    facts: departures.facts,
                    attempt: Attempt { action: Action::Send, name: &location.name, at: *now },
                    misaligned_is_accepted: true,
                },
                Stage::FindingParty { location, chosen, transport } => Ask::Party {
                    party_id: chosen.party_id,
                },
                Stage::Sending { location, transport, present, present_from } => Ask::Send {
                    transport: *transport,
                    message: &departures.work.message,
                    location,
                    present,
                    present_from: *present_from,
                },
                Stage::Settled { departed } => Ask::Nothing { departed },
            },
        ),
    }
}

/// Where the whole list comes to with an answer: the departure under way goes
/// on, and once it is settled the next one sets out.
pub open spec fn goes_on(
    before: Departures<'_>,
    answer: Answer,
    after: Departures<'_>,
) -> bool {
    &&& after.work == before.work
    &&& after.facts == before.facts
    &&& after.technologies == before.technologies
    &&& after.destinations == before.destinations
    &&& match before.current {
        None => after.done == before.done && after.current is None,
        Some(departure) => exists|next: Departure|
            {
                &&& #[trigger] moves(departure, answer, before.technologies@, next)
                &&& match next.stage {
                    Stage::Settled { departed } => {
                        &&& after.done@ == before.done@.push(departed)
                        &&& setting_out(
                            before.destinations@,
                            before.done@.len() as int + 1,
                            after.current,
                        )
                    },
                    _ => after.done == before.done && after.current == Some(next),
                }
            },
    }
}

impl<'a> Departures<'a> {
    /// What the departure under way has to know next, or `None` once every
    /// destination is settled.
    pub fn asks(&self) -> (r: Option<Ask<'_>>)
        ensures
            r == asked(self),
    {
        match &self.current {
            None => None,
            Some(departure) => Some(
                match &departure.stage {
                    Stage::Locating => Ask::Locate { to: &departure.to },
                    Stage::ReadingClock { .. } => Ask::Clock,
                    Stage::Authorizing { location, now, .. } => Ask::Authorize {
                        facts: self.facts,
                        attempt: Attempt { action: Action::Send, name: &location.name, at: *now },
                        misaligned_is_accepted: true,
                    },
                    Stage::FindingParty { chosen, .. } => Ask::Party {
                        party_id: chosen.party_id,
                    },
                    Stage::Sending { location, transport, present, present_from } => Ask::Send {
                        transport: *transport,
                        message: &self.work.message,
                        location,
                        present,
                        present_from: *present_from,
                    },
                    Stage::Settled { departed } => Ask::Nothing { departed },
                },
            ),
        }
    }

    /// Go on with the answer to what was asked. An answer to something else
    /// changes nothing.
    pub fn answer(self, answer: Answer) -> (r: Departures<'a>)
        requires
            in_step(self),
        ensures
            in_step(r),
            goes_on(self, answer, r),
    {
        let ghost before = self;
        let Departures { work, facts, technologies, destinations, done, current } = self;
        match current {
            None => Departures {
                work,
                facts,
                technologies,
                destinations,
                done,
                current: None,
            },
            Some(departure) => {
                let next = departure.answer(answer, &technologies);
                assert(moves(before.current->0, answer, before.technologies@, next));
                match next.stage {
                    Stage::Settled { departed } => {
                        let mut done = done;
                        proof {
                            lemma_settled_where_it_was_going(
                                before.current->0,
                                answer,
                                technologies@,
                                next,
                            );
                        }
                        done.push(departed);
                        let current = set_out(destinations, done.len());
                        Departures { work, facts, technologies, destinations, done, current }
                    },
                    stage => Departures {
                        work,
                        facts,
                        technologies,
                        destinations,
                        done,
                        current: Some(Departure { to: next.to, stage }),
                    },
                }
            },
        }
    }
}

proof fn lemma_settled_where_it_was_going(
    before: Departure,
    answer: Answer,
    technologies: Seq<String>,
    after: Departure,
)
    requires
        moves(before, answer, technologies, after),
        before.stage !is Settled,
        after.stage is Settled,
    ensures
        after.stage->departed.destination() == before.to,
{
}

/// One departure followed from stage to stage, with the answer between each
/// two.
pub open spec fn travels(
    departures: Seq<Departure>,
    answers: Seq<Answer>,
    technologies: Seq<String>,
) -> bool {
    &&& departures.len() == answers.len() + 1
    &&& forall|i: int|
        0 <= i < answers.len() ==> moves(
            departures[i],
            #[trigger] answers[i],
            technologies,
            departures[i + 1],
        )
}

/// The policies permitted the departure at step `at`.
pub open spec fn permitted_at(
    departures: Seq<Departure>,
    answers: Seq<Answer>,
    at: int,
) -> bool {
    &&& departures[at].stage is Authorizing
    &&& answers[at] matches Answer::Decided(decision)
    &&& decision.allowed
}

/// Stages at which the Message may leave, is made available or has left.
pub open spec fn leaving(stage: Stage) -> bool {
    match stage {
        Stage::FindingParty { location, chosen, transport } => true,
        Stage::Sending { location, transport, present, present_from } => true,
        Stage::Settled { departed } => departed is Sent || departed is Failed
            || departed is Awaiting || departed is NoTransport,
        _ => false,
    }
}

/// How many answers it takes at most from here.
pub open spec fn ahead(stage: Stage) -> nat {
    match stage {
        Stage::Locating => 5,
        Stage::ReadingClock { location, resolved } => 4,
        Stage::Authorizing { location, resolved, now } => 3,
        Stage::FindingParty { location, chosen, transport } => 2,
        Stage::Sending { location, transport, present, present_from } => 1,
        Stage::Settled { departed } => 0,
    }
}

/// How many answers it takes at most until every destination is settled.
pub open spec fn left(departures: Departures<'_>) -> int {
    match departures.current {
        Some(departure) => 5 * (departures.destinations@.len() - departures.done@.len() - 1)
            + ahead(departure.stage),
        None => 0,
    }
}

/// Nothing leaves on the strength of what was concluded at arrival: a
/// departure that has come to a transport, or to being available, was permitted
/// on its own way out.
pub proof fn law_nothing_leaves_without_being_permitted_again(
    departures: Seq<Departure>,
    answers: Seq<Answer>,
    technologies: Seq<String>,
    n: int,
)
    requires
        travels(departures, answers, technologies),
        departures[0].stage is Locating,
        0 <= n < departures.len(),
        leaving(departures[n].stage),
    ensures
        exists|at: int| 0 <= at < n && #[trigger] permitted_at(departures, answers, at),
    decreases n,
{
    let k = n - 1;
    assert(moves(departures[k], answers[k], technologies, departures[k + 1]));
    if leaving(departures[k].stage) {
        law_nothing_leaves_without_being_permitted_again(departures, answers, technologies, k);
    } else {
        assert(permitted_at(departures, answers, k));
    }
}

/// One result per destination, in the order of the destinations, once nothing
/// is under way.
pub proof fn law_every_destination_has_its_own_result(departures: Departures<'_>)
    requires
        in_step(departures),
        departures.current is None,
    ensures
        departures.done@.len() == departures.destinations@.len(),
        forall|i: int|
            0 <= i < departures.destinations@.len() ==> (
            #[trigger] departures.done@[i]).destination() == departures.destinations@[i],
{
}

/// A result that is in stays as it is, whatever becomes of the destinations
/// after it.
pub proof fn law_a_result_stays(before: Departures<'_>, answer: Answer, after: Departures<'_>)
    requires
        goes_on(before, answer, after),
    ensures
        before.done@.len() <= after.done@.len(),
        after.done@.take(before.done@.len() as int) == before.done@,
{
    assert(after.done@.take(before.done@.len() as int) =~= before.done@);
}

/// Every answer to what was asked brings the whole list on, so that every
/// destination is settled after five answers each at most.
pub proof fn law_every_answer_brings_the_departures_on(
    before: Departures<'_>,
    answer: Answer,
    after: Departures<'_>,
)
    requires
        in_step(before),
        in_step(after),
        goes_on(before, answer, after),
        before.current matches Some(departure) && fits(departure.stage, answer),
    ensures
        0 <= left(after) < left(before) <= 5 * before.destinations@.len(),
{
}

/// A departure was permitted at `location` at step `at`.
pub open spec fn permitted_from(
    departures: Seq<Departure>,
    answers: Seq<Answer>,
    at: int,
    location: SendLocation,
) -> bool {
    &&& departures[at].stage matches Stage::Authorizing { location: from, resolved, now }
    &&& from == location
    &&& answers[at] matches Answer::Decided(decision)
    &&& decision.allowed
}

/// A departure waits to be collected where it was permitted and its Location is
/// one that is collected, at that Location's own address, and nowhere else.
pub proof fn law_only_a_collected_departure_waits(
    departures: Seq<Departure>,
    answers: Seq<Answer>,
    technologies: Seq<String>,
    n: int,
)
    requires
        travels(departures, answers, technologies),
        departures[0].stage is Locating,
        0 <= n < departures.len(),
    ensures
        departures[n].stage matches Stage::Settled { departed: Departed::Awaiting { to, at } } ==> {
            &&& to == departures[0].to
            &&& exists|k: int, location: SendLocation|
                0 <= k < n && #[trigger] permitted_from(departures, answers, k, location)
                    && location.departing == Departing::Collected && location.uri == at
        },
        forall|k: int, location: SendLocation|
            0 <= k < n && #[trigger] permitted_from(departures, answers, k, location)
                && location.departing == Departing::Collected ==> departures[n].stage == (
            Stage::Settled {
                departed: Departed::Awaiting { to: departures[0].to, at: location.uri },
            }),
        departures[n].to == departures[0].to,
    decreases n,
{
    if n > 0 {
        let k = n - 1;
        law_only_a_collected_departure_waits(departures, answers, technologies, k);
        assert(moves(departures[k], answers[k], technologies, departures[k + 1]));
        match departures[n].stage {
            Stage::Settled { departed: Departed::Awaiting { to, at } } => {
                match departures[k].stage {
                    Stage::Authorizing { location, resolved, now } => {
                        assert(permitted_from(departures, answers, k, location));
                    },
                    _ => {},
                }
            },
            _ => {},
        }
    }
}

/// A departure that was permitted, from a Location that is pushed to or sent to
/// on a schedule, and whose technology some loaded transport speaks, comes to
/// asking a transport to send: the first that speaks it, with that Location.
/// Where an identity was resolved, the Party it names is asked for first, and
/// what is presented is presented on behalf of the artifact that resolved it.
pub proof fn law_a_permitted_departure_is_sent(
    before: Departure,
    decision: Decision,
    technologies: &Vec<String>,
    after: Departure,
    answer: Answer,
    last: Departure,
)
    requires
        before.stage is Authorizing,
        decision.allowed,
        before.stage->Authorizing_location.departing != Departing::Collected,
        exists|i: int|
            0 <= i < technologies@.len() && (#[trigger] technologies@[i])@
                == before.stage->Authorizing_location.transport@,
        call_ensures(Departure::answer, (before, Answer::Decided(decision), technologies), after),
        answer is Party,
        call_ensures(Departure::answer, (after, answer, technologies), last),
    ensures
        before.stage->Authorizing_resolved is None ==> sends(
            after,
            before.to,
            before.stage->Authorizing_location,
            technologies@,
            None,
        ) && after.stage->present is None && last == after,
        before.stage->Authorizing_resolved matches Some(resolved) ==> {
            &&& after.stage matches Stage::FindingParty { location, chosen, transport }
            &&& chosen.party_id == resolved.party_id
            &&& sends(
                last,
                before.to,
                before.stage->Authorizing_location,
                technologies@,
                Some(resolved.level),
            )
        },
{
}

/// A departure asks a transport to send: the first that speaks what the Location
/// does.
pub open spec fn sends(
    departure: Departure,
    to: Subscriber,
    from: SendLocation,
    technologies: Seq<String>,
    level: Option<SendLevel>,
) -> bool {
    &&& departure.to == to
    &&& departure.stage matches Stage::Sending { location, transport, present, present_from }
    &&& location == from
    &&& present_from == level
    &&& 0 <= transport < technologies.len()
    &&& technologies[transport as int]@ == from.transport@
    &&& forall|i: int| 0 <= i < transport ==> (#[trigger] technologies[i])@ != from.transport@
}

/// What ends a departure, and as what. A Subscriber that nothing is configured
/// for is named; a decision against it is kept; a technology that nothing loaded
/// speaks is named; and what the transport reports, or why it failed and whether
/// to try again, is kept as the transport said it.
pub proof fn law_a_departure_ends_as_it_was_answered(
    before: Departure,
    answer: Answer,
    technologies: &Vec<String>,
    after: Departure,
)
    requires
        call_ensures(Departure::answer, (before, answer, technologies), after),
    ensures
        after.to == before.to,
        before.stage is Locating ==> match answer {
            Answer::Located(None) => after.stage == (Stage::Settled {
                departed: Departed::NoSuchDestination { to: before.to },
            }),
            Answer::Located(Some(found)) => after.stage == (Stage::ReadingClock {
                location: found.0,
                resolved: found.1,
            }),
            _ => after == before,
        },
        before.stage matches Stage::ReadingClock { location, resolved } ==> (
        answer matches Answer::Clock(moment) ==> (after.stage matches Stage::Authorizing {
            location: kept,
            resolved: still,
            now,
        } && kept == location && still == resolved && now == moment)),
        before.stage matches Stage::Authorizing { location, resolved, now } ==> (
        answer matches Answer::Decided(decision) ==> {
            &&& !decision.allowed ==> after.stage == (Stage::Settled {
                departed: Departed::NotPermitted { to: before.to, decision },
            })
            &&& decision.allowed ==> !(after.stage matches Stage::Settled {
                departed: Departed::NotPermitted { to, decision: other },
            })
            &&& (after.stage matches Stage::Settled {
                departed: Departed::NoTransport { to, technology },
            }) <==> decision.allowed && location.departing != Departing::Collected && (forall|
                i: int,
            |
                0 <= i < technologies@.len() ==> (#[trigger] technologies@[i])@
                    != location.transport@)
            &&& after.stage matches Stage::Settled {
                departed: Departed::NoTransport { to, technology },
            } ==> to == before.to && technology == location.transport
        }),
        before.stage matches Stage::Sending { location, transport, present, present_from } ==> (
        answer matches Answer::Sent(report) ==> after.stage == (Stage::Settled {
            departed: match report {
                Ok(status) => Departed::Sent {
                    to: before.to,
                    presented_from: present_from,
                    status,
                },
                Err(error) => Departed::Failed {
                    to: before.to,
                    retryable: error.retryable,
                    detail: error.message,
                },
            },
        })),
        before.stage is Settled ==> after == before,
{
    match before.stage {
        Stage::Authorizing { location, resolved, now } => {
            if spoken(technologies@, location.transport@) {
                let i = choose|i: int|
                    0 <= i < technologies@.len() && (#[trigger] technologies@[i])@
                        == location.transport@;
                assert(technologies@[i]@ == location.transport@);
            }
        },
        _ => {},
    }
}

/// What is presented is one of the Party's own identities, the earliest of the
/// Location's mechanism where there is one, and otherwise the first; a Party
/// without any, or that is not there, presents nothing.
pub proof fn law_a_party_presents_its_own_identity(
    before: Departure,
    party: Option<Vec<SendIdentity>>,
    technologies: &Vec<String>,
    after: Departure,
)
    requires
        before.stage is FindingParty,
        call_ensures(Departure::answer, (before, Answer::Party(party), technologies), after),
    ensures
        after.stage matches Stage::Sending { location, transport, present, present_from },
        after.stage->Sending_location == before.stage->FindingParty_location,
        after.stage->Sending_transport == before.stage->FindingParty_transport,
        after.stage->present_from == Some(before.stage->chosen.level),
        after.stage->present is None <==> (party is None || party->0@.len() == 0),
        after.stage->present matches Some(identity) ==> {
            let own = party->0@;
            let mechanism = before.stage->FindingParty_location.transport@;
            &&& own.contains(identity)
            &&& (forall|i: int|
                0 <= i < own.len() ==> (#[trigger] own[i]).mechanism@ != mechanism) ==> identity
                == own[0]
            &&& forall|i: int|
                0 <= i < own.len() && (#[trigger] own[i]).mechanism@ == mechanism ==> exists|
                    j: int,
                |
                    0 <= j <= i && #[trigger] own[j] == identity && identity.mechanism@
                        == mechanism
        },
{
    if let Some(identities) = party {
        let own = identities@;
        let mechanism = before.stage->FindingParty_location.transport@;
        if own.len() > 0 {
            assert(own.contains(own[0]));
            if exists|i: int| 0 <= i < own.len() && (#[trigger] own[i]).mechanism@ == mechanism {
                let at = choose|i: int|
                    #![trigger own[i]]
                    0 <= i < own.len() && after.stage->present == Some(own[i])
                        && own[i].mechanism@ == mechanism && (forall|j: int|
                        0 <= j < i ==> (#[trigger] own[j]).mechanism@ != mechanism);
                assert forall|i: int|
                    0 <= i < own.len() && (#[trigger] own[i]).mechanism@
                        == mechanism implies exists|j: int|
                    0 <= j <= i && #[trigger] own[j] == own[at] && own[at].mechanism@
                        == mechanism by {
                    assert(0 <= at <= i && own[at] == own[at]);
                }
            }
        }
    }
}

/// What is asked on the way out concerns this Message and these facts: the
/// policies are asked about the facts of the arrival, to send, at the Location's
/// name and the moment that was read, with two layers that differ accepted; the
/// transport is handed the Message itself, the Location it was found at and the
/// identity that was chosen.
pub proof fn law_what_leaves_is_the_message_that_arrived(departures: Departures<'_>)
    ensures
        asked(&departures) is None <==> departures.current is None,
        departures.current matches Some(departure) ==> match departure.stage {
            Stage::Locating => asked(&departures) matches Some(Ask::Locate { to }) && *to
                == departure.to,
            Stage::ReadingClock { location, resolved } => asked(&departures) == Some(Ask::Clock),
            Stage::Authorizing { location, resolved, now } => {
                &&& asked(&departures) matches Some(
                    Ask::Authorize { facts, attempt, misaligned_is_accepted },
                )
                &&& *facts == *departures.facts
                &&& attempt.action == Action::Send
                &&& *attempt.name == location.name
                &&& attempt.at == now
                &&& misaligned_is_accepted
            },
            Stage::FindingParty { location, chosen, transport } => asked(&departures) == Some(
                Ask::Party { party_id: chosen.party_id },
            ),
            Stage::Sending { location, transport, present, present_from } => {
                &&& asked(&departures) matches Some(
                    Ask::Send {
                        transport: by,
                        message,
                        location: from,
                        present: identity,
                        present_from: level,
                    },
                )
                &&& by == transport
                &&& *message == departures.work.message
                &&& *from == location
                &&& *identity == present
                &&& level == present_from
            },
            Stage::Settled { departed } => asked(&departures) matches Some(
                Ask::Nothing { departed: told },
            ) && *told == departed,
        },
{
}

/// Every destination a Message was routed to sets out once, in order, and the
/// next one only when the one before it is settled; the Message, the facts and
/// the transports stay what they were.
pub proof fn law_destinations_set_out_in_order(
    before: Departures<'_>,
    answer: Answer,
    after: Departures<'_>,
)
    requires
        in_step(before),
        goes_on(before, answer, after),
        before.current is Some,
    ensures
        *after.work == *before.work,
        *after.facts == *before.facts,
        after.technologies@ == before.technologies@,
        after.destinations@ == before.destinations@,
        after.done@.len() == before.done@.len() || after.done@.len() == before.done@.len() + 1,
        after.done@.len() == before.done@.len() ==> after.current is Some
            && after.current->0.to == before.current->0.to,
        after.done@.len() == before.done@.len() + 1 ==> {
            let next = after.done@.len() as int;
            &&& after.done@.last().destination() == before.destinations@[next - 1]
            &&& next < before.destinations@.len() ==> after.current == Some(
                Departure { to: before.destinations@[next], stage: Stage::Locating },
            )
            &&& next == before.destinations@.len() ==> after.current is None
        },
{
    let next = choose|next: Departure|
        {
            &&& #[trigger] moves(before.current->0, answer, before.technologies@, next)
            &&& match next.stage {
                Stage::Settled { departed } => {
                    &&& after.done@ == before.done@.push(departed)
                    &&& setting_out(
                        before.destinations@,
                        before.done@.len() as int + 1,
                        after.current,
                    )
                },
                _ => after.done == before.done && after.current == Some(next),
            }
        };
    if next.stage is Settled {
        lemma_settled_where_it_was_going(
            before.current->0,
            answer,
            before.technologies@,
            next,
        );
    }
}

/// A result names where the Message was going, whatever became of it, and only
/// one that waits is held: what was sent, refused or failed is not.
pub proof fn law_only_what_waits_is_held(departed: Departed, sent: bool, holds: bool)
    requires
        call_ensures(Departed::sent, (&departed,), sent),
        call_ensures(Departed::holds, (&departed,), holds),
    ensures
        match departed {
            Departed::Sent { to, presented_from, status } => sent && !holds
                && departed.destination() == to,
            Departed::Awaiting { to, at } => !sent && holds && departed.destination() == to,
            Departed::NoSuchDestination { to } => !sent && !holds && departed.destination() == to,
            Departed::NoTransport { to, technology } => !sent && !holds && departed.destination()
                == to,
            Departed::NotPermitted { to, decision } => !sent && !holds && departed.destination()
                == to,
            Departed::Failed { to, retryable, detail } => !sent && !holds
                && departed.destination() == to,
        },
{
}

/// A routed Message sets out for the first of the destinations that matched,
/// with what arrived, what the gates concluded of it and the transports in the
/// order they were loaded; where nothing matched there is nothing to do.
pub proof fn law_a_routed_message_sets_out<'a>(
    work: &'a ReceivedWork,
    facts: &'a IdentityFacts,
    routing: &'a Routing,
    technologies: Vec<String>,
    departures: Departures<'a>,
)
    requires
        call_ensures(depart, (work, facts, routing, technologies), departures),
    ensures
        *departures.work == *work,
        *departures.facts == *facts,
        departures.technologies@ == technologies@,
        departures.destinations@ == routing.destinations@,
        departures.done@.len() == 0,
        routing.destinations@.len() == 0 ==> asked(&departures) is None,
        routing.destinations@.len() > 0 ==> (asked(&departures) matches Some(Ask::Locate { to })
            && *to == routing.destinations@[0]),
{
}

} // verus!
