//! The table a surface calls: what each call reads, and what it hands over.
//!
//! Every call reads a snapshot and nothing else. Reading a snapshot belongs to
//! whoever owns it and is handed in.

use vstd::prelude::*;
use vstd::string::*;

use crate::abi::Status;
use crate::boundary;
use crate::boundary::scope_text;
use crate::observe::{Count, Counted, LightRecord};
use crate::operator::Operator;
use crate::publication::Measurement;
use crate::wire::{from_wire_counted, wire_light, CountedCodes, LightCodes};

verus! {

/// What a call comes to before its entries are handed over: a status, and the
/// count that is written. Nothing is written where there is none.
#[derive(Clone, Copy, Debug, PartialEq, Eq, Structural)]
pub struct Outcome {
    pub status: Status,
    pub count: Option<usize>,
}

/// A record in the header's values.
#[derive(Clone, Copy, Debug)]
pub struct LightEntry<'a> {
    pub scope: &'a String,
    pub health: i32,
    pub evidence: &'a String,
    pub observed_unix_nanos: i64,
}

/// What a surface is told of a scope: every record the snapshot has of it.
pub open spec fn told<S, F: Fn(&S, &str) -> Vec<LightRecord>>(
    health: F,
    snapshot: S,
    scope: Seq<char>,
    records: Vec<LightRecord>,
) -> bool {
    exists|asked: &str| asked@ == scope && #[trigger] health.ensures((&snapshot, asked), records)
}

/// What a surface is told of a scope: how much of one thing passed there.
pub open spec fn measured<S, F: Fn(&S, &str, Counted) -> Option<Count>>(
    measure: F,
    snapshot: S,
    scope: Seq<char>,
    counted: Counted,
    count: Option<Count>,
) -> bool {
    exists|asked: &str|
        asked@ == scope && #[trigger] measure.ensures((&snapshot, asked, counted), count)
}

/// `health` in the table: hold every record of a scope, and say how many there
/// are. A scope with none is not found.
pub fn health_entry<S, F: Fn(&S, &str) -> Vec<LightRecord>>(
    operator: &mut Operator<S>,
    snapshot: &S,
    scope: Option<&[u8]>,
    health: F,
) -> (r: Outcome)
    requires
        forall|asked: &str| #[trigger] health.requires((snapshot, asked)),
    ensures
        final(operator).source == old(operator).source,
        final(operator).held_count == old(operator).held_count,
        boundary::reading(scope) is None ==> {
            &&& r.status == Status::Malformed
            &&& r.count is None
            &&& final(operator).held_health == old(operator).held_health
        },
        boundary::reading(scope) is Some ==> {
            &&& told(health, *snapshot, boundary::reading(scope)->0, final(operator).held_health)
            &&& r.count == Some(final(operator).held_health.len())
            &&& r.status == (if final(operator).held_health@.len() == 0 {
                Status::NotFound
            } else {
                Status::Okay
            })
        },
{
    let text = match scope_text(scope) {
        Some(text) => text,
        None => return Outcome { status: Status::Malformed, count: None },
    };
    let records = health(snapshot, text);
    assert(told(health, *snapshot, text@, records));
    let count = records.len();
    operator.held_health = records;
    let status = if count == 0 {
        Status::NotFound
    } else {
        Status::Okay
    };
    Outcome { status, count: Some(count) }
}

/// The entries a call of `health` hands over: as many of the held records as
/// there is room for, in their order.
pub fn health_entries<'a, S>(
    operator: &'a Operator<S>,
    codes: &LightCodes,
    cap: usize,
) -> (r: Vec<LightEntry<'a>>)
    ensures
        r@.len() == boundary::as_fits(operator.held_health@, cap as nat).len(),
        forall|i: int|
            0 <= i < r@.len() ==> #[trigger] r@[i] == (LightEntry {
                scope: &operator.held_health@[i].scope,
                health: codes.code(operator.held_health@[i].light),
                evidence: &operator.held_health@[i].evidence,
                observed_unix_nanos: operator.held_health@[i].observed_unix_nanos,
            }),
{
    let mut entries: Vec<LightEntry<'a>> = Vec::new();
    let mut at: usize = 0;
    while at < operator.held_health.len() && at < cap
        invariant
            at <= operator.held_health@.len(),
            at <= cap,
            entries@.len() == at,
            forall|i: int|
                0 <= i < at ==> #[trigger] entries@[i] == (LightEntry {
                    scope: &operator.held_health@[i].scope,
                    health: codes.code(operator.held_health@[i].light),
                    evidence: &operator.held_health@[i].evidence,
                    observed_unix_nanos: operator.held_health@[i].observed_unix_nanos,
                }),
        decreases operator.held_health@.len() - at,
    {
        let record = &operator.held_health[at];
        entries.push(
            LightEntry {
                scope: &record.scope,
                health: wire_light(codes, record.light),
                evidence: &record.evidence,
                observed_unix_nanos: record.observed_unix_nanos,
            },
        );
        at += 1;
    }
    entries
}

/// `measure` in the table: hold the one count of a scope, or say that there is
/// none. A kind the header does not name is refused before anything is read.
pub fn measure_entry<S, F: Fn(&S, &str, Counted) -> Option<Count>>(
    operator: &mut Operator<S>,
    snapshot: &S,
    scope: Option<&[u8]>,
    codes: &CountedCodes,
    what: i32,
    measure: F,
) -> (r: Outcome)
    requires
        forall|asked: &str, counted: Counted| #[trigger]
            measure.requires((snapshot, asked, counted)),
    ensures
        final(operator).source == old(operator).source,
        final(operator).held_health == old(operator).held_health,
        boundary::reading(scope) is None ==> {
            &&& r.status == Status::Malformed
            &&& r.count is None
            &&& final(operator).held_count == old(operator).held_count
        },
        boundary::reading(scope) is Some && crate::rule::nothing_counted(*codes, what) ==> {
            &&& r.status == Status::Invalid
            &&& r.count is None
            &&& final(operator).held_count == old(operator).held_count
        },
        boundary::reading(scope) is Some && !crate::rule::nothing_counted(*codes, what) ==> {
            &&& exists|counted: Counted|
                codes.code(counted) == what && #[trigger] measured(
                    measure,
                    *snapshot,
                    boundary::reading(scope)->0,
                    counted,
                    final(operator).held_count,
                )
            &&& final(operator).held_count is Some ==> r.status == Status::Okay && r.count
                == Some(1usize)
            &&& final(operator).held_count is None ==> r.status == Status::NotFound && r.count
                == Some(0usize)
        },
{
    let text = match scope_text(scope) {
        Some(text) => text,
        None => return Outcome { status: Status::Malformed, count: None },
    };
    let counted = match from_wire_counted(codes, what) {
        Some(counted) => counted,
        None => return Outcome { status: Status::Invalid, count: None },
    };
    let count = measure(snapshot, text, counted);
    assert(measured(measure, *snapshot, text@, counted, count));
    let found = count.is_some();
    operator.held_count = count;
    if found {
        Outcome { status: Status::Okay, count: Some(1) }
    } else {
        Outcome { status: Status::NotFound, count: Some(0) }
    }
}

/// The entry a call of `measure` hands over, where there is room for one and one
/// is held. It carries the kind it was asked for.
pub fn measurement<'a, S>(operator: &'a Operator<S>, what: i32, cap: usize) -> (r: Option<
    Measurement<'a>,
>)
    ensures
        (r is Some) == (operator.held_count is Some && cap > 0),
        r matches Some(entry) ==> entry == (Measurement {
            scope: &operator.held_count->0.scope,
            counted: what,
            value: operator.held_count->0.value,
            window_start_unix_nanos: operator.held_count->0.window_start_unix_nanos,
            window_end_unix_nanos: operator.held_count->0.window_end_unix_nanos,
            observed_unix_nanos: operator.held_count->0.observed_unix_nanos,
        }),
{
    if cap == 0 {
        return None;
    }
    match &operator.held_count {
        Some(count) => Some(
            Measurement {
                scope: &count.scope,
                counted: what,
                value: count.value,
                window_start_unix_nanos: count.window_start_unix_nanos,
                window_end_unix_nanos: count.window_end_unix_nanos,
                observed_unix_nanos: count.observed_unix_nanos,
            },
        ),
        None => None,
    }
}

/// Hand out a table: over what was published, or over the empty snapshot of a
/// node that has published nothing yet. A version this build does not speak is
/// refused here rather than on the first call.
pub fn xmip_operate_v1<S>(
    version: u32,
    spoken: u32,
    published: Option<S>,
    nothing: S,
) -> (r: Result<Operator<S>, Status>)
    ensures
        (r is Ok) == (version == spoken),
        r matches Err(status) ==> status == Status::Unsupported,
        r matches Ok(operator) ==> {
            &&& operator.source == crate::operator::Source::Fixed(
                match published {
                    Some(snapshot) => snapshot,
                    None => nothing,
                },
            )
            &&& operator.held_health@.len() == 0
            &&& operator.held_count is None
        },
{
    if version != spoken {
        return Err(Status::Unsupported);
    }
    let snapshot = match published {
        Some(snapshot) => snapshot,
        None => nothing,
    };
    Ok(Operator::new(snapshot))
}

/// A table is handed out exactly for the version this build speaks, over what
/// was published where something was; it reads that and nothing else, and has
/// handed out nothing yet.
pub proof fn law_a_table_is_handed_out_over_what_was_published<S>(
    version: u32,
    spoken: u32,
    published: Option<S>,
    nothing: S,
    r: Result<Operator<S>, Status>,
    board: crate::operator::Board<S>,
    unconfigured: S,
    seen: &S,
)
    requires
        call_ensures(xmip_operate_v1::<S>, (version, spoken, published, nothing), r),
        r matches Ok(operator) ==> call_ensures(
            Operator::<S>::snapshot,
            (&operator, &board, &unconfigured),
            seen,
        ),
    ensures
        r is Ok <==> version == spoken,
        r matches Err(status) ==> status == Status::Unsupported,
        r matches Ok(operator) ==> operator.held_health@.len() == 0 && operator.held_count is None,
        r is Ok ==> (published matches Some(snapshot) ==> *seen == snapshot),
        r is Ok && published is None ==> *seen == nothing,
{
}

/// The records that are handed over are the held ones, from the first, each with
/// its own scope, light, evidence and moment, as many as there is room for.
pub proof fn law_held_records_are_handed_over_in_order<'a, S>(
    operator: &'a Operator<S>,
    codes: LightCodes,
    cap: usize,
    entries: Vec<LightEntry<'a>>,
    at: int,
)
    requires
        call_ensures(health_entries::<S>, (operator, &codes, cap), entries),
    ensures
        entries@.len() <= cap,
        entries@.len() <= operator.held_health@.len(),
        entries@.len() == cap || entries@.len() == operator.held_health@.len(),
        0 <= at < entries@.len() ==> {
            let held = operator.held_health@[at];
            &&& entries@[at].scope@ == held.scope@
            &&& entries@[at].health == codes.code(held.light)
            &&& entries@[at].evidence@ == held.evidence@
            &&& entries@[at].observed_unix_nanos == held.observed_unix_nanos
        },
{
}

/// The one count that is handed over is the held one, under the kind it was
/// asked for, where there is room and one is held.
pub proof fn law_the_held_count_is_handed_over<'a, S>(
    operator: &'a Operator<S>,
    what: i32,
    cap: usize,
    entry: Option<Measurement<'a>>,
)
    requires
        call_ensures(measurement::<S>, (operator, what, cap), entry),
    ensures
        entry is Some <==> operator.held_count is Some && cap > 0,
        entry matches Some(handed) ==> (operator.held_count matches Some(count) && handed.scope@
            == count.scope@ && handed.counted == what && handed.value == count.value
            && handed.window_start_unix_nanos == count.window_start_unix_nanos
            && handed.window_end_unix_nanos == count.window_end_unix_nanos
            && handed.observed_unix_nanos == count.observed_unix_nanos),
{
}

/// What a surface is told of a scope is what the snapshot's owner says of that
/// scope, and of that thing where it asked for one.
pub proof fn law_a_surface_is_told_what_the_snapshot_says<
    S,
    H: Fn(&S, &str) -> Vec<LightRecord>,
    M: Fn(&S, &str, Counted) -> Option<Count>,
>(
    snapshot: S,
    scope: Seq<char>,
    counted: Counted,
    health: H,
    measure: M,
    records: Vec<LightRecord>,
    count: Option<Count>,
    of_scope: spec_fn(Seq<char>) -> Seq<LightRecord>,
    of_thing: spec_fn(Seq<char>, Counted) -> Option<Count>,
)
    requires
        forall|asked: &str, found: Vec<LightRecord>| #[trigger]
            health.ensures((&snapshot, asked), found) ==> found@ == of_scope(asked@),
        forall|asked: &str, thing: Counted, found: Option<Count>| #[trigger]
            measure.ensures((&snapshot, asked, thing), found) ==> found == of_thing(asked@, thing),
        told(health, snapshot, scope, records),
        measured(measure, snapshot, scope, counted, count),
    ensures
        records@ == of_scope(scope),
        count == of_thing(scope, counted),
{
}

/// Asked for the health of a scope, the table holds every record the snapshot
/// has of it, says how many there are, and that there is nothing to find where
/// there are none; a scope that is no text changes nothing. What it counted
/// last, and what it reads, stay.
pub proof fn law_health_holds_every_record_of_the_scope<S, F: Fn(&S, &str) -> Vec<LightRecord>>(
    operator: &mut Operator<S>,
    snapshot: S,
    scope: Option<&[u8]>,
    health: F,
    of_scope: spec_fn(Seq<char>) -> Seq<LightRecord>,
    r: Outcome,
)
    requires
        forall|asked: &str, found: Vec<LightRecord>| #[trigger]
            health.ensures((&snapshot, asked), found) ==> found@ == of_scope(asked@),
        call_ensures(health_entry::<S, F>, (operator, &snapshot, scope, health), r),
    ensures
        final(operator).source == old(operator).source,
        final(operator).held_count == old(operator).held_count,
        match boundary::reading(scope) {
            Some(text) => {
                &&& final(operator).held_health@ == of_scope(text)
                &&& r.count is Some && r.count->0 == of_scope(text).len()
                &&& r.status == Status::NotFound <==> of_scope(text).len() == 0
                &&& r.status == Status::Okay <==> of_scope(text).len() > 0
            },
            None => {
                &&& final(operator).held_health@ == old(operator).held_health@
                &&& r.count is None
                &&& r.status == Status::Malformed
            },
        },
{
}

/// Asked how much of one thing passed in a scope, the table holds the one count
/// the snapshot has of that thing there, or none; a thing the header does not
/// name is invalid, and a scope that is no text malformed, and neither changes
/// anything. The records it holds, and what it reads, stay.
pub proof fn law_a_measure_holds_the_count_of_the_scope<
    S,
    F: Fn(&S, &str, Counted) -> Option<Count>,
>(
    operator: &mut Operator<S>,
    snapshot: S,
    scope: Option<&[u8]>,
    codes: CountedCodes,
    counted: Counted,
    what: i32,
    measure: F,
    of_thing: spec_fn(Seq<char>, Counted) -> Option<Count>,
    r: Outcome,
)
    requires
        codes.distinct(),
        forall|asked: &str, thing: Counted, found: Option<Count>| #[trigger]
            measure.ensures((&snapshot, asked, thing), found) ==> found == of_thing(asked@, thing),
        call_ensures(
            measure_entry::<S, F>,
            (operator, &snapshot, scope, &codes, what, measure),
            r,
        ),
    ensures
        final(operator).source == old(operator).source,
        final(operator).held_health@ == old(operator).held_health@,
        boundary::reading(scope) is None ==> r.status == Status::Malformed,
        boundary::reading(scope) is Some && (forall|thing: Counted| #[trigger]
            codes.code(thing) != what) ==> r.status == Status::Invalid,
        r.status == Status::Malformed || r.status == Status::Invalid ==> r.count is None,
        r.count is None ==> final(operator).held_count == old(operator).held_count,
        boundary::reading(scope) matches Some(text) ==> (what == codes.code(counted) ==> {
            &&& final(operator).held_count == of_thing(text, counted)
            &&& r.status == Status::Okay <==> of_thing(text, counted) is Some
            &&& r.status == Status::NotFound <==> of_thing(text, counted) is None
            &&& r.count == Some(
                if of_thing(text, counted) is Some {
                    1usize
                } else {
                    0
                },
            )
        }),
{
    if boundary::reading(scope) is Some && what == codes.code(counted) {
        assert(!crate::rule::nothing_counted(codes, what));
        let thing = choose|thing: Counted|
            codes.code(thing) == what && #[trigger] measured(
                measure,
                snapshot,
                boundary::reading(scope)->0,
                thing,
                final(operator).held_count,
            );
        assert(thing == counted);
    }
}

} // verus!
