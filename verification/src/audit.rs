//! A program's audit record, forwarded.
//!
//! A program that cannot link the audit itself asks for its record here. What is
//! asked is read and checked, in the header's order; the record, its policy and
//! where it is kept are the audit's own. What became of it goes back in the
//! header's shape.

use vstd::prelude::*;
use vstd::string::*;

use crate::abi::Status;
use crate::boundary;
use crate::boundary::{nothing_said, refuse, scope_text, Written};
use crate::ordered::Ordered;

verus! {

#[derive(Clone, Copy, Debug, PartialEq, Eq, Structural)]
pub enum ExecutionPhase {
    Begin,
    Execute,
    Finished,
    Failure,
}

#[derive(Clone, Copy, Debug, PartialEq, Eq, Structural)]
pub enum Severity {
    Information,
    Warning,
    Error,
}

/// The header's integers for a phase, a severity and where a record was kept.
#[derive(Clone, Copy, Debug, PartialEq, Eq, Structural)]
pub struct AuditCodes {
    pub begin: i32,
    pub execute: i32,
    pub finished: i32,
    pub failure: i32,
    pub information: i32,
    pub warning: i32,
    pub error: i32,
    pub suppressed: i32,
    pub persisted: i32,
    pub operating_system: i32,
}

impl AuditCodes {
    /// The phase an integer stands for.
    pub open spec fn phase(self, value: i32) -> Option<ExecutionPhase> {
        if value == self.begin {
            Some(ExecutionPhase::Begin)
        } else if value == self.execute {
            Some(ExecutionPhase::Execute)
        } else if value == self.finished {
            Some(ExecutionPhase::Finished)
        } else if value == self.failure {
            Some(ExecutionPhase::Failure)
        } else {
            None
        }
    }

    /// The severity an integer stands for.
    pub open spec fn severity(self, value: i32) -> Option<Severity> {
        if value == self.information {
            Some(Severity::Information)
        } else if value == self.warning {
            Some(Severity::Warning)
        } else if value == self.error {
            Some(Severity::Error)
        } else {
            None
        }
    }
}

/// The phase for the header's `XmipPhase`, or `None`.
pub fn from_wire_phase(codes: &AuditCodes, value: i32) -> (r: Option<ExecutionPhase>)
    ensures
        r == codes.phase(value),
{
    if value == codes.begin {
        Some(ExecutionPhase::Begin)
    } else if value == codes.execute {
        Some(ExecutionPhase::Execute)
    } else if value == codes.finished {
        Some(ExecutionPhase::Finished)
    } else if value == codes.failure {
        Some(ExecutionPhase::Failure)
    } else {
        None
    }
}

/// The severity for the header's `XmipSeverity`, or `None`.
pub fn from_wire_severity(codes: &AuditCodes, value: i32) -> (r: Option<Severity>)
    ensures
        r == codes.severity(value),
{
    if value == codes.information {
        Some(Severity::Information)
    } else if value == codes.warning {
        Some(Severity::Warning)
    } else if value == codes.error {
        Some(Severity::Error)
    } else {
        None
    }
}

/// What a program asks to be recorded, as it crossed.
#[derive(Clone, Copy)]
pub struct Asked<'a> {
    pub program: Option<&'a [u8]>,
    pub directory: Option<&'a [u8]>,
    pub action: Option<&'a [u8]>,
    pub phase: i32,
    pub severity: i32,
    pub message: Option<&'a [u8]>,
    /// Keys and values in turn, or `None` where no list was handed over.
    pub properties: Option<&'a [Option<&'a [u8]>]>,
    pub properties_len: usize,
}

/// What a program asks to be recorded.
#[derive(Debug)]
pub struct AuditRequest<'a> {
    pub program: &'a str,
    /// Where the program was told to keep its records, if anywhere.
    pub directory: Option<&'a str>,
    pub action: &'a str,
    pub phase: ExecutionPhase,
    pub severity: Severity,
    pub message: Option<&'a str>,
    pub properties: Ordered<String>,
}

/// Every string of a list is text.
pub open spec fn all_text(strings: Seq<Option<&[u8]>>) -> bool {
    forall|i: int| 0 <= i < strings.len() ==> boundary::reading(#[trigger] strings[i]) is Some
}

/// Keys and values in turn as a map. Of two values for one key the later
/// stands.
pub open spec fn paired(strings: Seq<Option<&[u8]>>, pairs: nat) -> Map<Seq<char>, Seq<char>>
    decreases pairs,
{
    if pairs == 0 {
        Map::empty()
    } else {
        paired(strings, (pairs - 1) as nat).insert(
            boundary::reading(strings[2 * pairs - 2])->0,
            boundary::reading(strings[2 * pairs - 1])->0,
        )
    }
}

/// What a map of texts reads as.
pub open spec fn read_map(map: Map<Seq<char>, String>) -> Map<Seq<char>, Seq<char>> {
    map.map_values(|value: String| value@)
}

/// The key and value strings as a map, or `None` when one is not UTF-8.
pub fn pairs(strings: &[Option<&[u8]>]) -> (r: Option<Ordered<String>>)
    requires
        strings@.len() % 2 == 0,
    ensures
        (r is Some) == all_text(strings@),
        r matches Some(map) ==> map.well_formed() && read_map(map@) == paired(
            strings@,
            strings@.len() / 2,
        ),
{
    let mut map: Ordered<String> = Ordered::new();
    let mut at: usize = 0;
    assert(read_map(map@) =~= paired(strings@, 0));
    while at < strings.len()
        invariant
            at <= strings@.len(),
            at % 2 == 0,
            strings@.len() % 2 == 0,
            map.well_formed(),
            read_map(map@) == paired(strings@, (at / 2) as nat),
            forall|i: int| 0 <= i < at ==> boundary::reading(#[trigger] strings@[i]) is Some,
        decreases strings@.len() - at,
    {
        let (key, value) = match (scope_text(strings[at]), scope_text(strings[at + 1])) {
            (Some(key), Some(value)) => (key, value),
            _ => {
                assert(boundary::reading(strings@[at as int]) is None || boundary::reading(
                    strings@[at + 1],
                ) is None);
                return None;
            },
        };
        let ghost before = map@;
        let text = value.to_string();
        map.insert(key.to_string(), text);
        proof {
            let pairs = (at / 2) as nat + 1;
            assert(2 * pairs - 2 == at && 2 * pairs - 1 == at + 1);
            assert(read_map(map@) =~= read_map(before).insert(key@, value@));
            assert(paired(strings@, pairs) == paired(strings@, (pairs - 1) as nat).insert(
                key@,
                value@,
            ));
        }
        at += 2;
    }
    Some(map)
}

/// The list is one of pairs: even, and there where it says it is.
pub open spec fn in_pairs(asked: Asked<'_>) -> bool {
    asked.properties_len % 2 == 0 && (asked.properties is None ==> asked.properties_len == 0)
}

/// Every text that was handed over is one.
pub open spec fn texts_read(asked: Asked<'_>) -> bool {
    &&& boundary::reading(asked.program) is Some
    &&& boundary::reading(asked.directory) is Some
    &&& boundary::reading(asked.action) is Some
    &&& boundary::reading(asked.message) is Some
    &&& asked.properties matches Some(strings) ==> all_text(strings@)
}

/// `given` is the text where it says anything.
pub open spec fn if_said(given: Option<&str>, text: Seq<char>) -> bool {
    if text.len() == 0 {
        given is None
    } else {
        given is Some && given->0@ == text
    }
}

/// `request` is what was asked for.
pub open spec fn asks_for(
    codes: AuditCodes,
    asked: Asked<'_>,
    request: AuditRequest<'_>,
) -> bool {
    &&& request.program@ == boundary::reading(asked.program)->0
    &&& if_said(request.directory, boundary::reading(asked.directory)->0)
    &&& request.action@ == boundary::reading(asked.action)->0
    &&& Some(request.phase) == codes.phase(asked.phase)
    &&& Some(request.severity) == codes.severity(asked.severity)
    &&& if_said(request.message, boundary::reading(asked.message)->0)
    &&& request.properties.well_formed()
    &&& read_map(request.properties@) == (match asked.properties {
        Some(strings) => paired(strings@, strings@.len() / 2),
        None => Map::empty(),
    })
}

/// What a program asks to be recorded. A phase or a severity the header does not
/// define, or a list that is not one of pairs, is invalid; a string that is not
/// UTF-8 is malformed.
pub fn audit_request<'a>(codes: &AuditCodes, asked: Asked<'a>) -> (r: Result<
    AuditRequest<'a>,
    Status,
>)
    requires
        asked.properties matches Some(strings) ==> strings@.len() == asked.properties_len,
    ensures
        (r is Ok) == (unrecordable(*codes, asked) is None),
        r matches Err(status) ==> Some(status) == unrecordable(*codes, asked),
        r matches Ok(request) ==> asks_for(*codes, asked, request),
{
    let (phase, severity) = match (
        from_wire_phase(codes, asked.phase),
        from_wire_severity(codes, asked.severity),
    ) {
        (Some(phase), Some(severity)) => (phase, severity),
        _ => return Err(Status::Invalid),
    };
    if asked.properties_len % 2 != 0 || (asked.properties.is_none() && asked.properties_len > 0) {
        return Err(Status::Invalid);
    }
    let program = match scope_text(asked.program) {
        Some(program) => program,
        None => return Err(Status::Malformed),
    };
    let directory = match scope_text(asked.directory) {
        Some(directory) => directory,
        None => return Err(Status::Malformed),
    };
    let action = match scope_text(asked.action) {
        Some(action) => action,
        None => return Err(Status::Malformed),
    };
    let message = match scope_text(asked.message) {
        Some(message) => message,
        None => return Err(Status::Malformed),
    };
    let properties = match asked.properties {
        Some(strings) => match pairs(strings) {
            Some(properties) => properties,
            None => return Err(Status::Malformed),
        },
        None => Ordered::new(),
    };
    assert(asked.properties is None ==> read_map(properties@) =~= Map::empty());
    Ok(
        AuditRequest {
            program,
            directory: if directory.is_empty() {
                None
            } else {
                Some(directory)
            },
            action,
            phase,
            severity,
            message: if message.is_empty() {
                None
            } else {
                Some(message)
            },
            properties,
        },
    )
}

/// What became of a record.
#[derive(Debug)]
pub enum AuditOutcome {
    Suppressed,
    Persisted,
    /// Kept in the operating system's own log, and why there.
    OperatingSystem { log: String, reason: String },
}

/// What became of a record, in the header's shape.
#[derive(Debug)]
pub struct AuditReply {
    pub status: Status,
    /// Where it was kept, where it was.
    pub kept: Option<i32>,
    pub said: Written,
}

/// `reply` is what became of a record.
pub open spec fn replies(
    codes: AuditCodes,
    outcome: Result<AuditOutcome, String>,
    cap: usize,
    reply: AuditReply,
) -> bool {
    match outcome {
        Ok(AuditOutcome::Suppressed) => reply.status == Status::Okay && reply.kept == Some(
            codes.suppressed,
        ) && reply.said.bytes@.len() == 0 && reply.said.length == 0,
        Ok(AuditOutcome::Persisted) => reply.status == Status::Okay && reply.kept == Some(
            codes.persisted,
        ) && reply.said.bytes@.len() == 0 && reply.said.length == 0,
        Ok(AuditOutcome::OperatingSystem { log, reason }) => reply.status == Status::Okay
            && reply.kept == Some(codes.operating_system) && boundary::writes(
            reply.said,
            log@ + ": "@ + reason@,
            cap,
        ),
        Err(error) => reply.status == Status::Io && reply.kept is None && boundary::writes(
            reply.said,
            error@,
            cap,
        ),
    }
}

/// Put what became of a record into the header's shape.
pub fn audit_reply(
    codes: &AuditCodes,
    outcome: Result<AuditOutcome, String>,
    cap: usize,
) -> (r: AuditReply)
    ensures
        replies(*codes, outcome, cap, r),
{
    match outcome {
        Ok(AuditOutcome::Suppressed) => AuditReply {
            status: Status::Okay,
            kept: Some(codes.suppressed),
            said: nothing_said(),
        },
        Ok(AuditOutcome::Persisted) => AuditReply {
            status: Status::Okay,
            kept: Some(codes.persisted),
            said: nothing_said(),
        },
        Ok(AuditOutcome::OperatingSystem { log, reason }) => {
            let sentence = log.concat(": ").concat(reason.as_str());
            AuditReply {
                status: Status::Okay,
                kept: Some(codes.operating_system),
                said: refuse(sentence.as_str(), cap),
            }
        },
        Err(error) => AuditReply {
            status: Status::Io,
            kept: None,
            said: refuse(error.as_str(), cap),
        },
    }
}

/// What is asked cannot be recorded, and this is the answer.
pub open spec fn unrecordable(codes: AuditCodes, asked: Asked<'_>) -> Option<Status> {
    if codes.phase(asked.phase) is None || codes.severity(asked.severity) is None || !in_pairs(
        asked,
    ) {
        Some(Status::Invalid)
    } else if !texts_read(asked) {
        Some(Status::Malformed)
    } else {
        None
    }
}

/// The audit made `outcome` of what was asked.
pub open spec fn recorded<'a, F: FnOnce(AuditRequest<'a>) -> Result<AuditOutcome, String>>(
    codes: AuditCodes,
    asked: Asked<'a>,
    record: F,
    outcome: Result<AuditOutcome, String>,
) -> bool {
    exists|request: AuditRequest<'a>|
        asks_for(codes, asked, request) && #[trigger] record.ensures((request,), outcome)
}

/// Record what a program asks for, and say what became of it.
pub fn xmip_audit_v1<'a, F: FnOnce(AuditRequest<'a>) -> Result<AuditOutcome, String>>(
    codes: &AuditCodes,
    asked: Asked<'a>,
    cap: usize,
    record: F,
) -> (r: Result<AuditReply, Status>)
    requires
        asked.properties matches Some(strings) ==> strings@.len() == asked.properties_len,
        forall|request: AuditRequest<'a>| #[trigger] record.requires((request,)),
    ensures
        match unrecordable(*codes, asked) {
            Some(status) => r is Err && r->Err_0 == status,
            None => {
                &&& r is Ok
                &&& exists|outcome: Result<AuditOutcome, String>| #[trigger]
                    recorded(*codes, asked, record, outcome) && replies(
                        *codes,
                        outcome,
                        cap,
                        r->Ok_0,
                    )
            },
        },
{
    match audit_request(codes, asked) {
        Ok(request) => {
            let ghost wanted = request;
            let outcome = record(request);
            assert(record.ensures((wanted,), outcome));
            assert(recorded(*codes, asked, record, outcome));
            Ok(audit_reply(codes, outcome, cap))
        },
        Err(status) => Err(status),
    }
}

/// No two phases share an integer, and no two severities.
pub open spec fn told_apart(codes: AuditCodes) -> bool {
    &&& codes.begin != codes.execute && codes.begin != codes.finished && codes.begin
        != codes.failure
    &&& codes.execute != codes.finished && codes.execute != codes.failure && codes.finished
        != codes.failure
    &&& codes.information != codes.warning && codes.information != codes.error && codes.warning
        != codes.error
}

/// Each phase and each severity is read from the header's own integer for it,
/// and any other integer stands for none.
pub proof fn law_each_phase_and_severity_has_its_own_integer(
    codes: AuditCodes,
    value: i32,
    phase: Option<ExecutionPhase>,
    severity: Option<Severity>,
)
    requires
        told_apart(codes),
        call_ensures(from_wire_phase, (&codes, value), phase),
        call_ensures(from_wire_severity, (&codes, value), severity),
    ensures
        phase == Some(ExecutionPhase::Begin) <==> value == codes.begin,
        phase == Some(ExecutionPhase::Execute) <==> value == codes.execute,
        phase == Some(ExecutionPhase::Finished) <==> value == codes.finished,
        phase == Some(ExecutionPhase::Failure) <==> value == codes.failure,
        severity == Some(Severity::Information) <==> value == codes.information,
        severity == Some(Severity::Warning) <==> value == codes.warning,
        severity == Some(Severity::Error) <==> value == codes.error,
{
}

/// A text crosses as `bytes`, or as nothing handed over where it is empty.
pub open spec fn crosses_as(text: Seq<char>, bytes: Option<&[u8]>) -> bool {
    match bytes {
        Some(bytes) => vstd::utf8::valid_utf8(bytes@) && vstd::utf8::decode_utf8(bytes@) == text,
        None => text.len() == 0,
    }
}

/// No text crosses as these bytes.
pub open spec fn is_no_text(bytes: Option<&[u8]>) -> bool {
    bytes matches Some(bytes) && !vstd::utf8::valid_utf8(bytes@)
}

/// What is recorded is what was asked for, each field from its own: the program
/// and the action as they were said, the directory and the message where they
/// say anything, the phase and the severity the integers stand for. It is
/// refused as invalid where a phase or severity is unknown or the properties are
/// not in pairs, and only then as malformed where something is no text.
pub proof fn law_what_is_recorded_is_what_was_asked(
    codes: AuditCodes,
    asked: Asked<'_>,
    r: Result<AuditRequest<'_>, Status>,
    phase: Option<ExecutionPhase>,
    severity: Option<Severity>,
)
    requires
        call_ensures(audit_request, (&codes, asked), r),
        call_ensures(from_wire_phase, (&codes, asked.phase), phase),
        call_ensures(from_wire_severity, (&codes, asked.severity), severity),
    ensures
        r matches Ok(request) ==> {
            &&& crosses_as(request.program@, asked.program)
            &&& crosses_as(request.action@, asked.action)
            &&& Some(request.phase) == phase
            &&& Some(request.severity) == severity
            &&& request.directory matches Some(directory) ==> directory@.len() > 0 && crosses_as(
                directory@,
                asked.directory,
            )
            &&& request.directory is None ==> crosses_as(Seq::empty(), asked.directory)
            &&& request.message matches Some(message) ==> message@.len() > 0 && crosses_as(
                message@,
                asked.message,
            )
            &&& request.message is None ==> crosses_as(Seq::empty(), asked.message)
        },
        r == Err::<AuditRequest<'_>, Status>(Status::Invalid) <==> phase is None || severity is None
            || asked.properties_len % 2 != 0 || (asked.properties is None && asked.properties_len
            > 0),
        r matches Err(status) ==> status == Status::Invalid || status == Status::Malformed,
        is_no_text(asked.program) || is_no_text(asked.directory) || is_no_text(asked.action)
            || is_no_text(asked.message) ==> r is Err,
        r == Err::<AuditRequest<'_>, Status>(Status::Malformed) ==> is_no_text(asked.program)
            || is_no_text(asked.directory) || is_no_text(asked.action) || is_no_text(asked.message)
            || asked.properties is Some,
{
    if let Ok(request) = r {
        if request.directory is None {
            assert(boundary::reading(asked.directory)->0 =~= Seq::empty());
        }
        if request.message is None {
            assert(boundary::reading(asked.message)->0 =~= Seq::empty());
        }
    }
}

/// The properties are the keys and values that were handed over in turn: a key
/// has the value that stands behind it the last time it is named, and nothing
/// else is a key.
pub proof fn law_the_last_value_of_a_key_stands(
    strings: &[Option<&[u8]>],
    map: Ordered<String>,
    at: int,
)
    requires
        call_ensures(pairs, (strings,), Some(map)),
        strings@.len() % 2 == 0,
        0 <= at < strings@.len() / 2,
        forall|later: int|
            at < later < strings@.len() / 2 ==> boundary::reading(#[trigger] strings@[2 * later])
                != boundary::reading(strings@[2 * at]),
    ensures
        boundary::reading(strings@[2 * at]) matches Some(key) && map@.contains_key(key)
            && boundary::reading(strings@[2 * at + 1]) == Some(map@[key]@),
{
    let pairs = strings@.len() / 2;
    let key = boundary::reading(strings@[2 * at])->0;
    assert(boundary::reading(strings@[2 * at]) is Some);
    assert(boundary::reading(strings@[2 * at + 1]) is Some);
    lemma_paired(strings@, pairs as int, at);
    assert(read_map(map@).contains_key(key));
    assert(read_map(map@)[key] == map@[key]@);
}

proof fn lemma_paired(strings: Seq<Option<&[u8]>>, pairs: int, at: int)
    requires
        0 <= at < pairs,
        2 * pairs <= strings.len(),
        all_text(strings),
        forall|later: int|
            at < later < pairs ==> boundary::reading(#[trigger] strings[2 * later])
                != boundary::reading(strings[2 * at]),
    ensures
        paired(strings, pairs as nat).contains_key(boundary::reading(strings[2 * at])->0),
        paired(strings, pairs as nat)[boundary::reading(strings[2 * at])->0] == boundary::reading(
            strings[2 * at + 1],
        )->0,
    decreases pairs,
{
    let last = pairs - 1;
    if at < last {
        lemma_paired(strings, last, at);
        assert(boundary::reading(strings[2 * last]) != boundary::reading(strings[2 * at]));
        assert(boundary::reading(strings[2 * last]) is Some);
        assert(boundary::reading(strings[2 * at]) is Some);
    }
}

/// A key of the properties was handed over as one.
pub proof fn law_every_property_was_handed_over(
    strings: &[Option<&[u8]>],
    map: Ordered<String>,
    key: Seq<char>,
)
    requires
        call_ensures(pairs, (strings,), Some(map)),
        strings@.len() % 2 == 0,
        map@.contains_key(key),
    ensures
        exists|at: int|
            0 <= at < strings@.len() / 2 && boundary::reading(#[trigger] strings@[2 * at]) == Some(
                key,
            ),
{
    let pairs = strings@.len() / 2;
    assert(read_map(map@).contains_key(key));
    lemma_paired_keys(strings@, pairs as int, key);
}

proof fn lemma_paired_keys(strings: Seq<Option<&[u8]>>, pairs: int, key: Seq<char>)
    requires
        0 <= pairs,
        2 * pairs <= strings.len(),
        all_text(strings),
        paired(strings, pairs as nat).contains_key(key),
    ensures
        exists|at: int|
            0 <= at < pairs && boundary::reading(#[trigger] strings[2 * at]) == Some(key),
    decreases pairs,
{
    if pairs > 0 {
        let last = pairs - 1;
        assert(boundary::reading(strings[2 * last]) is Some);
        if paired(strings, last as nat).contains_key(key) {
            lemma_paired_keys(strings, last, key);
            let at = choose|at: int|
                0 <= at < last && boundary::reading(#[trigger] strings[2 * at]) == Some(key);
            assert(boundary::reading(strings[2 * at]) == Some(key));
        } else {
            assert(boundary::reading(strings[2 * last]) == Some(key));
        }
    }
}

/// What became of a record goes back as it was: where it was kept, as the
/// header's integer for that place; why it was kept with the operating system,
/// log and reason together; and where it was not kept, only why.
pub proof fn law_what_became_of_a_record_goes_back(
    codes: AuditCodes,
    outcome: Result<AuditOutcome, String>,
    cap: usize,
    reply: AuditReply,
)
    requires
        call_ensures(audit_reply, (&codes, outcome, cap), reply),
    ensures
        outcome is Ok <==> reply.status == Status::Okay,
        outcome is Err <==> reply.status == Status::Io,
        outcome is Err <==> reply.kept is None,
        outcome matches Ok(AuditOutcome::Suppressed) ==> reply.kept == Some(codes.suppressed)
            && reply.said.length == 0,
        outcome matches Ok(AuditOutcome::Persisted) ==> reply.kept == Some(codes.persisted)
            && reply.said.length == 0,
        outcome matches Ok(AuditOutcome::OperatingSystem { log, reason }) ==> {
            let sentence = vstd::utf8::encode_utf8(log@ + ": "@ + reason@);
            &&& reply.kept == Some(codes.operating_system)
            &&& reply.said.length == sentence.len()
            &&& reply.said.length <= cap ==> reply.said.bytes@ == sentence
        },
        outcome matches Err(error) ==> {
            let sentence = vstd::utf8::encode_utf8(error@);
            &&& reply.said.length == sentence.len()
            &&& reply.said.length <= cap ==> reply.said.bytes@ == sentence
        },
{
}

/// Properties are read exactly where every key and every value is text; one that
/// is not makes the whole request malformed.
pub proof fn law_one_property_that_is_no_text_refuses_all(
    codes: AuditCodes,
    asked: Asked<'_>,
    r: Result<AuditRequest<'_>, Status>,
    strings: &[Option<&[u8]>],
    map: Option<Ordered<String>>,
)
    requires
        call_ensures(audit_request, (&codes, asked), r),
        asked.properties == Some(strings),
        call_ensures(pairs, (strings,), map),
    ensures
        map is None <==> exists|i: int|
            0 <= i < strings@.len() && is_no_text(#[trigger] strings@[i]),
        map is None ==> r is Err,
        r matches Ok(request) ==> map is Some && read_map(request.properties@) == read_map(
            map->0@,
        ),
{
    if map is None {
        let i = choose|i: int|
            0 <= i < strings@.len() && !(boundary::reading(#[trigger] strings@[i]) is Some);
        assert(is_no_text(strings@[i]));
    }
    if exists|i: int| 0 <= i < strings@.len() && is_no_text(#[trigger] strings@[i]) {
        let i = choose|i: int| 0 <= i < strings@.len() && is_no_text(#[trigger] strings@[i]);
        assert(boundary::reading(strings@[i]) is None);
    }
}

/// A request that can be recorded is handed to the audit as it was asked, once,
/// and what goes back is what the audit made of it; one that cannot is refused
/// and never gets there.
pub proof fn law_a_record_goes_through_the_audit<
    'a,
    F: FnOnce(AuditRequest<'a>) -> Result<AuditOutcome, String>,
>(
    codes: AuditCodes,
    asked: Asked<'a>,
    cap: usize,
    record: F,
    keeps: spec_fn(Seq<char>, Seq<char>, ExecutionPhase, Severity) -> bool,
    request: Result<AuditRequest<'a>, Status>,
    r: Result<AuditReply, Status>,
)
    requires
        forall|wanted: AuditRequest<'a>, outcome: Result<AuditOutcome, String>| #[trigger]
            record.ensures((wanted,), outcome) ==> (outcome is Ok) == keeps(
                wanted.program@,
                wanted.action@,
                wanted.phase,
                wanted.severity,
            ),
        call_ensures(audit_request, (&codes, asked), request),
        call_ensures(xmip_audit_v1::<F>, (&codes, asked, cap, record), r),
    ensures
        request matches Err(status) ==> r is Err && r->Err_0 == status,
        request matches Ok(wanted) ==> r is Ok && (r->Ok_0.status == Status::Okay) == keeps(
            wanted.program@,
            wanted.action@,
            wanted.phase,
            wanted.severity,
        ) && (r->Ok_0.kept is Some) == (r->Ok_0.status == Status::Okay),
{
    if let Ok(wanted) = request {
        let outcome = choose|outcome: Result<AuditOutcome, String>| #[trigger]
            recorded(codes, asked, record, outcome) && replies(codes, outcome, cap, r->Ok_0);
        let handed = choose|handed: AuditRequest<'a>|
            asks_for(codes, asked, handed) && #[trigger] record.ensures((handed,), outcome);
        assert(handed.program@ == wanted.program@ && handed.action@ == wanted.action@);
        assert(handed.phase == wanted.phase && handed.severity == wanted.severity);
    }
}

} // verus!
