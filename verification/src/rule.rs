//! The rules a surface calls instead of keeping its own.
//!
//! Scope containment, the node and stage a scope is on, a mood's word and
//! color, the rollup, the worst-first order, a counted kind's word and where a
//! capability record sits each have one owner, and each is handed in here. What
//! stands here is the door: what is asked is read, the owner is asked once, and
//! the answer goes back in the header's shape or as a status that leaves
//! everything untouched. No rule of its own.

pub mod node;

use vstd::prelude::*;
use vstd::string::*;

use crate::abi::Status;
use crate::boundary;
use crate::boundary::{fill_copied, scope_text, Filled};
use crate::observe::{Counted, Health};
use crate::rule::node::{write_declared, Capability, Declared};
use crate::wire::{
    from_wire_counted, from_wire_health, wire_counted, wire_health, CountedCodes, HealthCodes,
};

verus! {

/// The owner takes every text.
pub open spec fn takes_text<'a, R, F: Fn(&'a str) -> R>(owner: F) -> bool {
    forall|text: &'a str| #[trigger] owner.requires((text,))
}

/// The owner says `said` of a text that reads as `text`.
pub open spec fn says<'a, R, F: Fn(&'a str) -> R>(owner: F, text: Seq<char>, said: R) -> bool {
    exists|asked: &'a str| asked@ == text && #[trigger] owner.ensures((asked,), said)
}

/// The owner says `said` of two texts that read as `text` and `other`.
pub open spec fn says_of_both<'a, R, F: Fn(&'a str, &'a str) -> R>(
    owner: F,
    text: Seq<char>,
    other: Seq<char>,
    said: R,
) -> bool {
    exists|one: &'a str, two: &'a str|
        one@ == text && two@ == other && #[trigger] owner.ensures((one, two), said)
}

/// The owner says `said` of a value.
pub open spec fn tells<T, R, F: Fn(T) -> R>(owner: F, of: T, said: R) -> bool {
    owner.ensures((of,), said)
}

/// Whether one scope holds another, as the owner of scopes says.
pub fn xmip_scope_contains_v1<'a, F: Fn(&'a str, &'a str) -> bool>(
    scope: Option<&'a [u8]>,
    candidate: Option<&'a [u8]>,
    contains: F,
) -> (r: Result<bool, Status>)
    requires
        forall|one: &'a str, other: &'a str| #[trigger] contains.requires((one, other)),
    ensures
        (r is Ok) == (boundary::reading(scope) is Some && boundary::reading(candidate) is Some),
        r matches Err(status) ==> status == Status::Malformed,
        r matches Ok(held) ==> says_of_both(
            contains,
            boundary::reading(scope)->0,
            boundary::reading(candidate)->0,
            held,
        ),
{
    match (scope_text(scope), scope_text(candidate)) {
        (Some(scope), Some(candidate)) => {
            let held = contains(scope, candidate);
            assert(says_of_both(contains, scope@, candidate@, held));
            Ok(held)
        },
        _ => Err(Status::Malformed),
    }
}

/// The segments of a scope, each borrowed from it.
pub fn xmip_scope_parts_v1<'a, F: Fn(&'a str) -> Vec<&'a str>>(
    scope: Option<&'a [u8]>,
    cap: usize,
    segments: F,
) -> (r: Result<Filled<&'a str>, Status>)
    requires
        takes_text(segments),
    ensures
        (r is Ok) == (boundary::reading(scope) is Some),
        r matches Err(status) ==> status == Status::Malformed,
        r matches Ok(filled) ==> exists|parts: Vec<&'a str>|
            #[trigger] says(segments, boundary::reading(scope)->0, parts) && boundary::fills(
                filled,
                parts@,
                cap,
            ),
{
    match scope_text(scope) {
        Some(scope) => {
            let parts = segments(scope);
            assert(says(segments, scope@, parts));
            Ok(fill_copied(parts.as_slice(), cap))
        },
        None => Err(Status::Malformed),
    }
}

/// The node a scope is on and the word of its stage, each empty where there is
/// none.
pub struct Whereabouts<'a> {
    pub node: &'a str,
    pub stage: &'static str,
}

/// `text` is what was found, or empty where nothing was.
pub open spec fn or_empty(text: &str, found: Option<&str>) -> bool {
    match found {
        Some(found) => text@ == found@,
        None => text@ == ""@,
    }
}

/// The node and the stage a scope is on, as the owner of scopes says.
pub fn xmip_scope_node_v1<
    'a,
    N: Fn(&'a str) -> Option<&'a str>,
    S: Fn(&'a str) -> Option<&'static str>,
>(scope: Option<&'a [u8]>, node: N, stage: S) -> (r: Result<Whereabouts<'a>, Status>)
    requires
        takes_text(node),
        takes_text(stage),
    ensures
        (r is Ok) == (boundary::reading(scope) is Some),
        r matches Err(status) ==> status == Status::Malformed,
        r matches Ok(whereabouts) ==> {
            &&& exists|found: Option<&'a str>| #[trigger]
                says(node, boundary::reading(scope)->0, found) && or_empty(whereabouts.node, found)
            &&& exists|found: Option<&'static str>| #[trigger]
                says(stage, boundary::reading(scope)->0, found) && or_empty(whereabouts.stage, found)
        },
{
    match scope_text(scope) {
        Some(scope) => {
            let on = node(scope);
            let at = stage(scope);
            assert(says(node, scope@, on));
            assert(says(stage, scope@, at));
            let whereabouts = Whereabouts {
                node: match on {
                    Some(name) => name,
                    None => "",
                },
                stage: match at {
                    Some(word) => word,
                    None => "",
                },
            };
            assert(or_empty(whereabouts.node, on));
            assert(or_empty(whereabouts.stage, at));
            Ok(whereabouts)
        },
        None => Err(Status::Malformed),
    }
}

/// The mood an integer stands for has this text, by the owner's function.
pub open spec fn mood_text<R, F: Fn(Health) -> R>(
    codes: HealthCodes,
    value: i32,
    text: F,
    said: R,
) -> bool {
    exists|health: Health| codes.code(health) == value && #[trigger] tells(text, health, said)
}

/// No mood crosses as this integer.
pub open spec fn no_mood(codes: HealthCodes, value: i32) -> bool {
    forall|health: Health| #[trigger] codes.code(health) != value
}

/// The counted thing an integer stands for has this word, by the owner's
/// function.
pub open spec fn counted_text<R, F: Fn(Counted) -> R>(
    codes: CountedCodes,
    value: i32,
    word: F,
    said: R,
) -> bool {
    exists|counted: Counted| codes.code(counted) == value && #[trigger] tells(word, counted, said)
}

/// No counted thing crosses as this integer.
pub open spec fn nothing_counted(codes: CountedCodes, value: i32) -> bool {
    forall|counted: Counted| #[trigger] codes.code(counted) != value
}

fn health_text<F: Fn(Health) -> &'static str>(codes: &HealthCodes, value: i32, text: F) -> (r:
    Result<&'static str, Status>)
    requires
        forall|health: Health| #[trigger] text.requires((health,)),
    ensures
        (r is Err) == no_mood(*codes, value),
        r matches Err(status) ==> status == Status::Invalid,
        r matches Ok(said) ==> mood_text(*codes, value, text, said),
{
    match from_wire_health(codes, value) {
        Some(health) => {
            let said = text(health);
            assert(tells(text, health, said));
            Ok(said)
        },
        None => Err(Status::Invalid),
    }
}

/// A mood's word.
pub fn xmip_health_word_v1<F: Fn(Health) -> &'static str>(
    codes: &HealthCodes,
    value: i32,
    word: F,
) -> (r: Result<&'static str, Status>)
    requires
        forall|health: Health| #[trigger] word.requires((health,)),
    ensures
        (r is Err) == no_mood(*codes, value),
        r matches Err(status) ==> status == Status::Invalid,
        r matches Ok(said) ==> mood_text(*codes, value, word, said),
{
    health_text(codes, value, word)
}

/// A mood's color.
pub fn xmip_health_color_v1<F: Fn(Health) -> &'static str>(
    codes: &HealthCodes,
    value: i32,
    color: F,
) -> (r: Result<&'static str, Status>)
    requires
        forall|health: Health| #[trigger] color.requires((health,)),
    ensures
        (r is Err) == no_mood(*codes, value),
        r matches Err(status) ==> status == Status::Invalid,
        r matches Ok(said) ==> mood_text(*codes, value, color, said),
{
    health_text(codes, value, color)
}

/// The mood a word names.
pub fn xmip_health_named_v1<'a, F: Fn(&'a str) -> Option<Health>>(
    codes: &HealthCodes,
    word: Option<&'a [u8]>,
    named: F,
) -> (r: Result<i32, Status>)
    requires
        takes_text(named),
    ensures
        boundary::reading(word) is None ==> r == Err::<i32, Status>(Status::Malformed),
        boundary::reading(word) is Some ==> exists|health: Option<Health>| #[trigger]
            says(named, boundary::reading(word)->0, health) && r == (match health {
                Some(health) => Ok(codes.code(health)),
                None => Err(Status::NotFound),
            }),
{
    match scope_text(word) {
        Some(word) => {
            let health = named(word);
            assert(says(named, word@, health));
            match health {
                Some(health) => Ok(wire_health(codes, health)),
                None => Err(Status::NotFound),
            }
        },
        None => Err(Status::Malformed),
    }
}

/// What a parent shows for a mood beneath it.
pub fn xmip_health_rolled_v1<F: Fn(Health) -> Health>(
    codes: &HealthCodes,
    value: i32,
    rolled: F,
) -> (r: Result<i32, Status>)
    requires
        forall|health: Health| #[trigger] rolled.requires((health,)),
    ensures
        (r is Err) == no_mood(*codes, value),
        r matches Err(status) ==> status == Status::Invalid,
        r matches Ok(code) ==> exists|shown: Health| #[trigger]
            mood_text(*codes, value, rolled, shown) && codes.code(shown) == code,
{
    match from_wire_health(codes, value) {
        Some(health) => {
            let shown = rolled(health);
            assert(tells(rolled, health, shown));
            assert(mood_text(*codes, value, rolled, shown));
            Ok(wire_health(codes, shown))
        },
        None => Err(Status::Invalid),
    }
}

/// A counted kind's word.
pub fn xmip_counted_word_v1<F: Fn(Counted) -> &'static str>(
    codes: &CountedCodes,
    value: i32,
    word: F,
) -> (r: Result<&'static str, Status>)
    requires
        forall|counted: Counted| #[trigger] word.requires((counted,)),
    ensures
        (r is Err) == nothing_counted(*codes, value),
        r matches Err(status) ==> status == Status::Invalid,
        r matches Ok(said) ==> counted_text(*codes, value, word, said),
{
    match from_wire_counted(codes, value) {
        Some(counted) => {
            let said = word(counted);
            assert(tells(word, counted, said));
            Ok(said)
        },
        None => Err(Status::Invalid),
    }
}

/// What the stage a word names counts, or nothing where no stage has the word.
pub fn xmip_stage_counted_v1<'a, F: Fn(&'a str) -> Option<Counted>>(
    codes: &CountedCodes,
    stage: Option<&'a [u8]>,
    counts: F,
) -> (r: Result<i32, Status>)
    requires
        takes_text(counts),
    ensures
        boundary::reading(stage) is None ==> r == Err::<i32, Status>(Status::Malformed),
        boundary::reading(stage) is Some ==> exists|counted: Option<Counted>| #[trigger]
            says(counts, boundary::reading(stage)->0, counted) && r == (match counted {
                Some(counted) => Ok(codes.code(counted)),
                None => Err(Status::NotFound),
            }),
{
    match scope_text(stage) {
        Some(word) => {
            let counted = counts(word);
            assert(says(counts, word@, counted));
            match counted {
                Some(counted) => Ok(wire_counted(codes, counted)),
                None => Err(Status::NotFound),
            }
        },
        None => Err(Status::Malformed),
    }
}

/// A capability record: the node it sits beneath, and what it declares.
pub struct Published<'a> {
    pub node: &'a str,
    pub declared: Declared,
}

/// The node a capability record sits beneath, and what its evidence declares or
/// why it is refused. `read` is the owner's reading of a scope and its evidence,
/// and has nothing to say of a scope that is no capability record.
pub fn xmip_capability_published_v1<
    'a,
    F: Fn(&'a str, &'a str) -> Option<(&'a str, Result<Capability, String>)>,
>(
    scope: Option<&'a [u8]>,
    evidence: Option<&'a [u8]>,
    cap: usize,
    refusal_cap: usize,
    read: F,
) -> (r: Result<Published<'a>, Status>)
    requires
        forall|one: &'a str, other: &'a str| #[trigger] read.requires((one, other)),
    ensures
        boundary::reading(scope) is None || boundary::reading(evidence) is None ==> r is Err
            && r->Err_0 == Status::Malformed,
        boundary::reading(scope) is Some && boundary::reading(evidence) is Some ==> exists|
            found: Option<(&'a str, Result<Capability, String>)>,
        |
            {
                &&& #[trigger] says_of_both(
                    read,
                    boundary::reading(scope)->0,
                    boundary::reading(evidence)->0,
                    found,
                )
                &&& match found {
                    Some((node, said)) => {
                        &&& r matches Ok(published)
                        &&& published.node == node
                        &&& node::declares(published.declared, said, cap, refusal_cap)
                    },
                    None => r is Err && r->Err_0 == Status::NotFound,
                }
            },
{
    match (scope_text(scope), scope_text(evidence)) {
        (Some(scope), Some(evidence)) => {
            let found = read(scope, evidence);
            assert(says_of_both(read, scope@, evidence@, found));
            match found {
                Some((node, said)) => Ok(
                    Published { node, declared: write_declared(said, cap, refusal_cap) },
                ),
                None => Err(Status::NotFound),
            }
        },
        _ => Err(Status::Malformed),
    }
}

/// One entry to be put in order: a mood as the header's integer, how bad it is,
/// and where.
#[derive(Clone, Copy)]
pub struct HealthEntry<'a> {
    pub health: i32,
    pub severity: u8,
    pub scope: Option<&'a [u8]>,
}

/// An entry as it was read.
#[derive(Clone, Copy)]
pub struct Ranked<'a> {
    pub health: Health,
    pub severity: u8,
    pub scope: &'a str,
}

/// An entry whose mood the header names and whose scope is text.
pub open spec fn readable(codes: HealthCodes, entry: HealthEntry<'_>) -> bool {
    &&& exists|health: Health| #[trigger] codes.code(health) == entry.health
    &&& boundary::reading(entry.scope) is Some
}

/// `ranked` is what `entry` was read as.
pub open spec fn read_as(codes: HealthCodes, entry: HealthEntry<'_>, ranked: Ranked<'_>) -> bool {
    &&& codes.code(ranked.health) == entry.health
    &&& ranked.severity == entry.severity
    &&& boundary::reading(entry.scope) == Some(ranked.scope@)
}

/// What is answered to an entry that cannot be read.
pub open spec fn unreadable(codes: HealthCodes, entry: HealthEntry<'_>) -> Status {
    if exists|health: Health| #[trigger] codes.code(health) == entry.health {
        Status::Malformed
    } else {
        Status::Invalid
    }
}

/// Every entry can be read.
pub open spec fn all_readable(codes: HealthCodes, entries: Seq<HealthEntry<'_>>) -> bool {
    forall|i: int| 0 <= i < entries.len() ==> readable(codes, #[trigger] entries[i])
}

/// Every entry was read.
pub open spec fn all_read_as(
    codes: HealthCodes,
    entries: Seq<HealthEntry<'_>>,
    ranked: Seq<Ranked<'_>>,
) -> bool {
    &&& ranked.len() == entries.len()
    &&& forall|i: int|
        0 <= i < entries.len() ==> read_as(codes, #[trigger] entries[i], ranked[i])
}

/// The entry at `at` is the first that cannot be read, and this is the answer.
pub open spec fn stops_at(
    codes: HealthCodes,
    entries: Seq<HealthEntry<'_>>,
    at: int,
    status: Status,
) -> bool {
    &&& 0 <= at < entries.len()
    &&& !readable(codes, entries[at])
    &&& status == unreadable(codes, entries[at])
    &&& forall|i: int| 0 <= i < at ==> readable(codes, #[trigger] entries[i])
}

/// The owner's order of what the entries were read as.
pub open spec fn put_in_order<'a, F: Fn(&Vec<Ranked<'a>>) -> Vec<usize>>(
    codes: HealthCodes,
    entries: Seq<HealthEntry<'a>>,
    worst_first: F,
    order: Vec<usize>,
) -> bool {
    exists|ranked: Vec<Ranked<'a>>| #[trigger]
        orders(worst_first, ranked, order) && all_read_as(codes, entries, ranked@)
}

/// The answer to the first entry that cannot be read.
pub open spec fn stopped(
    codes: HealthCodes,
    entries: Seq<HealthEntry<'_>>,
    status: Status,
) -> bool {
    exists|at: int| #[trigger] stops_at(codes, entries, at, status)
}

/// The owner puts what was read in this order.
pub open spec fn orders<'a, F: Fn(&Vec<Ranked<'a>>) -> Vec<usize>>(
    worst_first: F,
    ranked: Vec<Ranked<'a>>,
    order: Vec<usize>,
) -> bool {
    worst_first.ensures((&ranked,), order)
}

/// The entries' places, worst first. `entries` is `None` where the surface
/// handed over no list, and `room` is whether it handed over somewhere to write.
/// Nothing is asked of either where there are no entries.
pub fn xmip_health_order_v1<'a, F: Fn(&Vec<Ranked<'a>>) -> Vec<usize>>(
    codes: &HealthCodes,
    entries: Option<&Vec<HealthEntry<'a>>>,
    len: usize,
    room: bool,
    worst_first: F,
) -> (r: Result<Vec<usize>, Status>)
    requires
        entries matches Some(list) ==> list@.len() == len,
        forall|ranked: &Vec<Ranked<'a>>| #[trigger] worst_first.requires((ranked,)),
    ensures
        len == 0 ==> r is Ok && r->Ok_0@.len() == 0,
        len > 0 && (entries is None || !room) ==> r is Err && r->Err_0 == Status::Invalid,
        len > 0 && entries is Some && room ==> {
            &&& (r is Ok) == all_readable(*codes, entries->0@)
            &&& r matches Err(status) ==> stopped(*codes, entries->0@, status)
            &&& r matches Ok(order) ==> put_in_order(*codes, entries->0@, worst_first, order)
        },
{
    if len == 0 {
        return Ok(Vec::new());
    }
    let list = match entries {
        Some(list) => list,
        None => return Err(Status::Invalid),
    };
    if !room {
        return Err(Status::Invalid);
    }
    let mut ranked: Vec<Ranked<'a>> = Vec::new();
    let mut at: usize = 0;
    while at < list.len()
        invariant
            at <= list@.len(),
            list@.len() == len,
            len > 0,
            room,
            entries == Some(list),
            entries->0@ == list@,
            ranked@.len() == at,
            forall|i: int| 0 <= i < at ==> read_as(*codes, #[trigger] list@[i], ranked@[i]),
            forall|i: int| 0 <= i < at ==> readable(*codes, #[trigger] list@[i]),
        decreases list@.len() - at,
    {
        let entry = list[at];
        assert(entry == list@[at as int]);
        match from_wire_health(codes, entry.health) {
            Some(health) => {
                assert(codes.code(health) == entry.health);
                match scope_text(entry.scope) {
                    Some(scope) => {
                        ranked.push(Ranked { health, severity: entry.severity, scope });
                    },
                    None => {
                        assert(stops_at(*codes, list@, at as int, Status::Malformed));
                        return Err(Status::Malformed);
                    },
                }
            },
            None => {
                assert(stops_at(*codes, list@, at as int, Status::Invalid));
                return Err(Status::Invalid);
            },
        }
        at += 1;
    }
    assert(all_read_as(*codes, list@, ranked@));
    let order = worst_first(&ranked);
    assert(orders(worst_first, ranked, order));
    Ok(order)
}

/// Asked whether one scope holds another, the answer is the owner's for those
/// two, in that order.
pub proof fn law_containment_is_the_owners<'a, F: Fn(&'a str, &'a str) -> bool>(
    scope: Option<&'a [u8]>,
    candidate: Option<&'a [u8]>,
    contains: F,
    owner: spec_fn(Seq<char>, Seq<char>) -> bool,
    r: Result<bool, Status>,
)
    requires
        forall|one: &'a str, other: &'a str, held: bool| #[trigger]
            contains.ensures((one, other), held) ==> held == owner(one@, other@),
        call_ensures(xmip_scope_contains_v1::<F>, (scope, candidate, contains), r),
    ensures
        match (boundary::reading(scope), boundary::reading(candidate)) {
            (Some(outer), Some(inner)) => r == Ok::<bool, Status>(owner(outer, inner)),
            _ => r == Err::<bool, Status>(Status::Malformed),
        },
{
}

/// The parts of a scope are the owner's, from the first, as far as there is
/// room, with their true count.
pub proof fn law_the_parts_are_the_owners<'a, F: Fn(&'a str) -> Vec<&'a str>>(
    scope: Option<&'a [u8]>,
    cap: usize,
    segments: F,
    owner: spec_fn(Seq<char>) -> Seq<Seq<char>>,
    r: Result<Filled<&'a str>, Status>,
)
    requires
        forall|text: &'a str, parts: Vec<&'a str>| #[trigger]
            segments.ensures((text,), parts) ==> parts@.map_values(|part: &'a str| part@) == owner(
                text@,
            ),
        call_ensures(xmip_scope_parts_v1::<F>, (scope, cap, segments), r),
    ensures
        match boundary::reading(scope) {
            Some(text) => {
                &&& r matches Ok(filled)
                &&& filled.count == owner(text).len()
                &&& filled.entries@.len() <= cap
                &&& filled.entries@.len() == cap || filled.entries@.len() == owner(text).len()
                &&& forall|i: int|
                    0 <= i < filled.entries@.len() ==> (#[trigger] filled.entries@[i])@ == owner(
                        text,
                    )[i]
            },
            None => r is Err && r->Err_0 == Status::Malformed,
        },
{
    if let Some(text) = boundary::reading(scope) {
        let parts = choose|parts: Vec<&'a str>| #[trigger]
            says(segments, text, parts) && boundary::fills(r->Ok_0, parts@, cap);
        let read = parts@.map_values(|part: &'a str| part@);
        assert(read == owner(text));
        assert(read.len() == parts@.len());
        assert forall|i: int| 0 <= i < r->Ok_0.entries@.len() implies (
        #[trigger] r->Ok_0.entries@[i])@ == owner(text)[i] by {
            assert(read[i] == parts@[i]@);
        }
    }
}

/// The node and the stage are what the two owners say of the scope, each in its
/// own place, and empty where they say nothing.
pub proof fn law_the_whereabouts_are_the_owners<
    'a,
    N: Fn(&'a str) -> Option<&'a str>,
    S: Fn(&'a str) -> Option<&'static str>,
>(
    scope: Option<&'a [u8]>,
    node: N,
    stage: S,
    node_owner: spec_fn(Seq<char>) -> Option<Seq<char>>,
    stage_owner: spec_fn(Seq<char>) -> Option<Seq<char>>,
    r: Result<Whereabouts<'a>, Status>,
)
    requires
        forall|text: &'a str, found: Option<&'a str>| #[trigger]
            node.ensures((text,), found) ==> match found {
                Some(name) => node_owner(text@) == Some(name@),
                None => node_owner(text@) is None,
            },
        forall|text: &'a str, found: Option<&'static str>| #[trigger]
            stage.ensures((text,), found) ==> match found {
                Some(word) => stage_owner(text@) == Some(word@),
                None => stage_owner(text@) is None,
            },
        call_ensures(xmip_scope_node_v1::<N, S>, (scope, node, stage), r),
    ensures
        match boundary::reading(scope) {
            Some(text) => {
                &&& r matches Ok(found)
                &&& match node_owner(text) {
                    Some(name) => found.node@ == name,
                    None => found.node@.len() == 0,
                }
                &&& match stage_owner(text) {
                    Some(word) => found.stage@ == word,
                    None => found.stage@.len() == 0,
                }
            },
            None => r is Err && r->Err_0 == Status::Malformed,
        },
{
    reveal_strlit("");
    if let Some(text) = boundary::reading(scope) {
        let on = choose|found: Option<&'a str>| #[trigger]
            says(node, text, found) && or_empty(r->Ok_0.node, found);
        let at = choose|found: Option<&'static str>| #[trigger]
            says(stage, text, found) && or_empty(r->Ok_0.stage, found);
    }
}

/// A mood that crosses as its integer is worded, colored and rolled up as its
/// owner does for that mood; an integer no mood crosses as is invalid.
pub proof fn law_a_mood_is_worded_by_its_owner<
    W: Fn(Health) -> &'static str,
    C: Fn(Health) -> &'static str,
    U: Fn(Health) -> Health,
>(
    codes: HealthCodes,
    health: Health,
    value: i32,
    word: W,
    color: C,
    rolled: U,
    words: spec_fn(Health) -> Seq<char>,
    colors: spec_fn(Health) -> Seq<char>,
    rolls: spec_fn(Health) -> Health,
    worded: Result<&'static str, Status>,
    colored: Result<&'static str, Status>,
    shown: Result<i32, Status>,
)
    requires
        codes.distinct(),
        forall|mood: Health, said: &'static str| #[trigger]
            word.ensures((mood,), said) ==> said@ == words(mood),
        forall|mood: Health, said: &'static str| #[trigger]
            color.ensures((mood,), said) ==> said@ == colors(mood),
        forall|mood: Health, said: Health| #[trigger]
            rolled.ensures((mood,), said) ==> said == rolls(mood),
        call_ensures(xmip_health_word_v1::<W>, (&codes, value, word), worded),
        call_ensures(xmip_health_color_v1::<C>, (&codes, value, color), colored),
        call_ensures(xmip_health_rolled_v1::<U>, (&codes, value, rolled), shown),
    ensures
        value == codes.code(health) ==> {
            &&& worded is Ok && worded->Ok_0@ == words(health)
            &&& colored is Ok && colored->Ok_0@ == colors(health)
            &&& shown is Ok && shown->Ok_0 == codes.code(rolls(health))
        },
        worded is Err ==> worded->Err_0 == Status::Invalid,
        colored is Err ==> colored->Err_0 == Status::Invalid,
        shown is Err ==> shown->Err_0 == Status::Invalid,
        worded is Err <==> (forall|mood: Health| #[trigger] codes.code(mood) != value),
        colored is Err <==> worded is Err,
        shown is Err <==> worded is Err,
{
    if value == codes.code(health) {
        assert(!no_mood(codes, value));
        assert(mood_text(codes, value, word, worded->Ok_0));
        let mood = choose|mood: Health|
            codes.code(mood) == value && #[trigger] tells(word, mood, worded->Ok_0);
        assert(mood == health);
        let tinted = choose|mood: Health|
            codes.code(mood) == value && #[trigger] tells(color, mood, colored->Ok_0);
        assert(tinted == health);
        let up = choose|up: Health| #[trigger]
            mood_text(codes, value, rolled, up) && codes.code(up) == shown->Ok_0;
        let below = choose|mood: Health|
            codes.code(mood) == value && #[trigger] tells(rolled, mood, up);
        assert(below == health);
    }
}

/// A word is the mood its owner says it names, as that mood's integer; and a
/// stage's word counts what its owner says, as that thing's integer. A word that
/// names nothing is not found, and what is no text is malformed.
pub proof fn law_a_word_names_what_its_owner_says<
    'a,
    H: Fn(&'a str) -> Option<Health>,
    K: Fn(&'a str) -> Option<Counted>,
>(
    moods: HealthCodes,
    kinds: CountedCodes,
    word: Option<&'a [u8]>,
    named: H,
    counts: K,
    names: spec_fn(Seq<char>) -> Option<Health>,
    counted: spec_fn(Seq<char>) -> Option<Counted>,
    mood: Result<i32, Status>,
    kind: Result<i32, Status>,
)
    requires
        forall|text: &'a str, said: Option<Health>| #[trigger]
            named.ensures((text,), said) ==> said == names(text@),
        forall|text: &'a str, said: Option<Counted>| #[trigger]
            counts.ensures((text,), said) ==> said == counted(text@),
        call_ensures(xmip_health_named_v1::<H>, (&moods, word, named), mood),
        call_ensures(xmip_stage_counted_v1::<K>, (&kinds, word, counts), kind),
    ensures
        match boundary::reading(word) {
            Some(text) => {
                &&& match names(text) {
                    Some(health) => mood is Ok && mood->Ok_0 == moods.code(health),
                    None => mood is Err && mood->Err_0 == Status::NotFound,
                }
                &&& match counted(text) {
                    Some(thing) => kind is Ok && kind->Ok_0 == kinds.code(thing),
                    None => kind is Err && kind->Err_0 == Status::NotFound,
                }
            },
            None => {
                &&& mood is Err && mood->Err_0 == Status::Malformed
                &&& kind is Err && kind->Err_0 == Status::Malformed
            },
        },
{
}

/// A counted thing that crosses as its integer has the word its owner gives it.
pub proof fn law_a_counted_thing_is_worded_by_its_owner<W: Fn(Counted) -> &'static str>(
    codes: CountedCodes,
    counted: Counted,
    value: i32,
    word: W,
    words: spec_fn(Counted) -> Seq<char>,
    worded: Result<&'static str, Status>,
)
    requires
        codes.distinct(),
        forall|thing: Counted, said: &'static str| #[trigger]
            word.ensures((thing,), said) ==> said@ == words(thing),
        call_ensures(xmip_counted_word_v1::<W>, (&codes, value, word), worded),
    ensures
        value == codes.code(counted) ==> worded is Ok && worded->Ok_0@ == words(counted),
        worded is Err ==> worded->Err_0 == Status::Invalid,
        worded is Err <==> (forall|thing: Counted| #[trigger] codes.code(thing) != value),
{
    if value == codes.code(counted) {
        assert(!nothing_counted(codes, value));
        let thing = choose|thing: Counted|
            codes.code(thing) == value && #[trigger] tells(word, thing, worded->Ok_0);
        assert(thing == counted);
    }
}

/// The order is the owner's over every entry as it was read, its mood, its
/// severity and its scope each from the entry at that place; nothing is asked
/// where there is nothing to order, and the first entry that cannot be read ends
/// it, as invalid where its mood is unknown and as malformed where its scope is
/// no text.
pub proof fn law_the_order_is_the_owners<'a, F: Fn(&Vec<Ranked<'a>>) -> Vec<usize>>(
    codes: HealthCodes,
    entries: Vec<HealthEntry<'a>>,
    room: bool,
    worst_first: F,
    r: Result<Vec<usize>, Status>,
)
    requires
        call_ensures(
            xmip_health_order_v1::<F>,
            (&codes, Some(&entries), entries.len(), room, worst_first),
            r,
        ),
    ensures
        entries@.len() == 0 ==> r is Ok && r->Ok_0@.len() == 0,
        entries@.len() > 0 && !room ==> r is Err && r->Err_0 == Status::Invalid,
        entries@.len() > 0 && room ==> {
            &&& r matches Ok(order) ==> exists|ranked: Vec<Ranked<'a>>|
                {
                    &&& #[trigger] worst_first.ensures((&ranked,), order)
                    &&& ranked@.len() == entries@.len()
                    &&& forall|i: int|
                        0 <= i < entries@.len() ==> codes.code(ranked@[i].health) == (
                        #[trigger] entries@[i]).health && ranked@[i].severity
                            == entries@[i].severity && boundary::reading(entries@[i].scope) == Some(
                            ranked@[i].scope@,
                        )
                }
            &&& r matches Err(status) ==> exists|at: int|
                {
                    &&& 0 <= at < entries@.len()
                    &&& #[trigger] fails(codes, entries@[at], status)
                    &&& forall|i: int|
                        0 <= i < at ==> !fails(codes, #[trigger] entries@[i], Status::Invalid)
                            && !fails(codes, entries@[i], Status::Malformed)
                }
        },
{
    if entries@.len() > 0 && room {
        match r {
            Ok(order) => {
                let ranked = choose|ranked: Vec<Ranked<'a>>| #[trigger]
                    orders(worst_first, ranked, order) && all_read_as(codes, entries@, ranked@);
                assert(worst_first.ensures((&ranked,), order));
                assert forall|i: int| 0 <= i < entries@.len() implies codes.code(
                    ranked@[i].health,
                ) == (#[trigger] entries@[i]).health && ranked@[i].severity == entries@[i].severity
                    && boundary::reading(entries@[i].scope) == Some(ranked@[i].scope@) by {
                    assert(read_as(codes, entries@[i], ranked@[i]));
                }
            },
            Err(status) => {
                let at = choose|at: int| #[trigger] stops_at(codes, entries@, at, status);
                assert(fails(codes, entries@[at], status));
                assert forall|i: int| 0 <= i < at implies !fails(
                    codes,
                    #[trigger] entries@[i],
                    Status::Invalid,
                ) && !fails(codes, entries@[i], Status::Malformed) by {
                    assert(readable(codes, entries@[i]));
                }
            },
        }
    }
}

/// An entry cannot be read, and this is the answer.
pub open spec fn fails(codes: HealthCodes, entry: HealthEntry<'_>, status: Status) -> bool {
    let known = exists|health: Health| #[trigger] codes.code(health) == entry.health;
    ||| !known && status == Status::Invalid
    ||| known && boundary::reading(entry.scope) is None && status == Status::Malformed
}

/// A capability record sits beneath the node the owner names, and declares what
/// the owner reads of its evidence; what the owner has nothing to say of is not
/// found.
pub proof fn law_a_capability_record_is_read_by_its_owner<
    'a,
    F: Fn(&'a str, &'a str) -> Option<(&'a str, Result<Capability, String>)>,
>(
    scope: Option<&'a [u8]>,
    evidence: Option<&'a [u8]>,
    cap: usize,
    refusal_cap: usize,
    read: F,
    beneath: spec_fn(Seq<char>, Seq<char>) -> Option<Seq<char>>,
    r: Result<Published<'a>, Status>,
)
    requires
        forall|
            one: &'a str,
            other: &'a str,
            found: Option<(&'a str, Result<Capability, String>)>,
        | #[trigger]
            read.ensures((one, other), found) ==> match found {
                Some((node, said)) => beneath(one@, other@) == Some(node@),
                None => beneath(one@, other@) is None,
            },
        call_ensures(
            xmip_capability_published_v1::<F>,
            (scope, evidence, cap, refusal_cap, read),
            r,
        ),
    ensures
        match (boundary::reading(scope), boundary::reading(evidence)) {
            (Some(one), Some(other)) => match beneath(one, other) {
                Some(node) => r is Ok && r->Ok_0.node@ == node,
                None => r is Err && r->Err_0 == Status::NotFound,
            },
            _ => r is Err && r->Err_0 == Status::Malformed,
        },
{
}

} // verus!
