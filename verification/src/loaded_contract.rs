//! The contract trait of a loaded module.
//!
//! A contract holds well-formedness always, and conformance when a descriptor
//! names one. The header gives that trait as functions over an opaque handle;
//! calling through them belongs to whoever holds the library. What stands here
//! is what is decided around each call: whether a module's table may be driven,
//! what each answer means, how a stream is read out to the module, and what a
//! verdict says.

use vstd::prelude::*;
use vstd::string::*;

use crate::abi::ModuleDescriptor;
use crate::text;

verus! {

/// The trait this file drives, as `descriptor.module` spells it.
pub const CONTRACT: &'static str = "contract";

/// What a table says of the trait it serves.
#[derive(Clone, Copy, Debug, PartialEq, Eq, Structural)]
pub struct TableVersion {
    pub trait_major: u32,
    pub trait_minor: u32,
}

/// What a contract said about one stream, copied out of the module.
#[derive(Clone, Debug, PartialEq, Eq)]
pub struct Verdict {
    pub status: i32,
    pub diagnostics: Vec<String>,
}

impl Verdict {
    /// Good with nothing to report is the only answer that means the stream
    /// held. `okay` is the header's integer for good.
    pub fn held(&self, okay: i32) -> (r: bool)
        ensures
            r == (self.status == okay && self.diagnostics@.len() == 0),
    {
        self.status == okay && self.diagnostics.is_empty()
    }
}

/// A table that may be driven: the descriptor names the contract trait, there is
/// a table, and it agrees with the descriptor.
pub open spec fn drivable(descriptor: ModuleDescriptor, table: Option<TableVersion>) -> bool {
    &&& descriptor.module@ == CONTRACT@
    &&& table == Some(
        TableVersion {
            trait_major: descriptor.trait_major,
            trait_minor: descriptor.trait_minor,
        },
    )
}

/// What is said of a module whose table may not be driven.
pub open spec fn not_driven(
    descriptor: ModuleDescriptor,
    shown: Seq<char>,
    table: Option<TableVersion>,
) -> Seq<char> {
    if descriptor.module@ != CONTRACT@ {
        shown + " answers the '"@ + descriptor.module@ + "' trait, and only '"@ + CONTRACT@
            + "' can be driven from here"@
    } else {
        match table {
            None => shown + " names the '"@ + CONTRACT@ + "' trait and carries no table"@,
            Some(version) => shown + " declares trait "@ + text::decimal(
                descriptor.trait_major as nat,
            ) + "."@ + text::decimal(descriptor.trait_minor as nat) + " and its table says "@
                + text::decimal(version.trait_major as nat) + "."@ + text::decimal(
                version.trait_minor as nat,
            ) + ": a module that disagrees with itself is not driven"@,
        }
    }
}

/// Select a module's contract table, by the name in its descriptor. `table` is
/// what the table's own header says, and `None` where there is no table.
///
/// # Errors
///
/// A module that answers another trait, one that names `contract` and carries no
/// table, or a table whose own header disagrees with the descriptor the host has
/// just accepted.
pub fn of(descriptor: &ModuleDescriptor, shown: &str, table: Option<TableVersion>) -> (r: Result<
    (),
    String,
>)
    ensures
        (r is Ok) == drivable(*descriptor, table),
        r matches Err(said) ==> said@ == not_driven(*descriptor, shown@, table),
{
    if !text::same(descriptor.module.as_str(), CONTRACT) {
        return Err(
            shown.to_string().concat(" answers the '").concat(descriptor.module.as_str()).concat(
                "' trait, and only '",
            ).concat(CONTRACT).concat("' can be driven from here"),
        );
    }
    let version = match table {
        Some(version) => version,
        None => return Err(
            shown.to_string().concat(" names the '").concat(CONTRACT).concat(
                "' trait and carries no table",
            ),
        ),
    };
    if version.trait_major != descriptor.trait_major || version.trait_minor
        != descriptor.trait_minor {
        return Err(
            shown.to_string().concat(" declares trait ").concat(
                text::decimal_text(descriptor.trait_major as u64).as_str(),
            ).concat(".").concat(
                text::decimal_text(descriptor.trait_minor as u64).as_str(),
            ).concat(" and its table says ").concat(
                text::decimal_text(version.trait_major as u64).as_str(),
            ).concat(".").concat(
                text::decimal_text(version.trait_minor as u64).as_str(),
            ).concat(": a module that disagrees with itself is not driven"),
        );
    }
    Ok(())
}

/// What is said of a table that does not carry a call.
pub open spec fn carries_no(shown: Seq<char>, what: Seq<char>) -> Seq<char> {
    shown + " carries no "@ + what
}

/// What is said of a module that answered a call with anything but good.
pub open spec fn answered(
    shown: Seq<char>,
    what: Seq<char>,
    answer: i32,
    last_error: Seq<char>,
) -> Seq<char> {
    shown + " answered status "@ + text::signed_decimal(answer as int) + " to "@ + what + ": "@
        + last_error
}

/// What configuring, starting or stopping a module came to. `answer` is what the
/// call answered, and `None` where the table carries no such call; `last_error`
/// is the module's own detail, asked for only after a failing call.
///
/// # Errors
///
/// A table with no such call, or the module's own status.
pub fn lifecycle(
    shown: &str,
    what: &str,
    answer: Option<i32>,
    okay: i32,
    last_error: &str,
) -> (r: Result<(), String>)
    ensures
        (r is Ok) == (answer == Some(okay)),
        r matches Err(said) ==> said@ == (match answer {
            Some(answer) => answered(shown@, what@, answer, last_error@),
            None => carries_no(shown@, what@),
        }),
{
    match answer {
        Some(answer) => judge(shown, what, answer, okay, last_error),
        None => Err(missing(shown, what)),
    }
}

fn judge(shown: &str, what: &str, answer: i32, okay: i32, last_error: &str) -> (r: Result<
    (),
    String,
>)
    ensures
        (r is Ok) == (answer == okay),
        r matches Err(said) ==> said@ == answered(shown@, what@, answer, last_error@),
{
    if answer == okay {
        return Ok(());
    }
    Err(
        shown.to_string().concat(" answered status ").concat(
            text::signed_decimal_text(answer as i64).as_str(),
        ).concat(" to ").concat(what).concat(": ").concat(last_error),
    )
}

/// What is said of a table that does not carry a call.
pub fn missing(shown: &str, what: &str) -> (r: String)
    ensures
        r@ == carries_no(shown@, what@),
{
    shown.to_string().concat(" carries no ").concat(what)
}

/// What binding a contract descriptor came to.
#[derive(Clone, Copy, Debug, PartialEq, Eq, Structural)]
pub struct Binding {
    pub answer: i32,
    /// Whether the module handed a contract over.
    pub handed_over: bool,
}

/// Whether a contract descriptor is bound. `binding` is what the call came to,
/// and `None` where the table carries no `load`.
///
/// # Errors
///
/// A table with no `load`, or a module that would not bind it: one that answered
/// anything but good, or that handed nothing over.
pub fn bind(shown: &str, descriptor: &str, binding: Option<Binding>, okay: i32) -> (r: Result<
    (),
    String,
>)
    ensures
        (r is Ok) == (binding == Some(Binding { answer: okay, handed_over: true })),
        r matches Err(said) ==> said@ == (match binding {
            None => carries_no(shown@, "load"@),
            Some(binding) => shown@ + " would not bind '"@ + descriptor@ + "': status "@
                + text::signed_decimal(binding.answer as int),
        }),
{
    let binding = match binding {
        Some(binding) => binding,
        None => return Err(missing(shown, "load")),
    };
    if binding.answer != okay || !binding.handed_over {
        return Err(
            shown.to_string().concat(" would not bind '").concat(descriptor).concat(
                "': status ",
            ).concat(text::signed_decimal_text(binding.answer as i64).as_str()),
        );
    }
    Ok(())
}

/// The next bytes of a stream of which `taken` were read: as many as there is
/// room for.
pub open spec fn piece(whole: Seq<u8>, taken: nat, room: nat) -> Seq<u8> {
    if whole.len() - taken <= room {
        whole.subrange(taken as int, whole.len() as int)
    } else {
        whole.subrange(taken as int, taken as int + room)
    }
}

/// What a byte slice looks like to a module reading it.
#[derive(Debug)]
pub struct Source<'a> {
    bytes: &'a [u8],
    at: usize,
}

impl<'a> Source<'a> {
    /// The whole stream.
    pub closed spec fn whole(self) -> Seq<u8> {
        self.bytes@
    }

    /// How much of it was read out.
    pub closed spec fn taken(self) -> nat {
        self.at as nat
    }

    pub open spec fn well_formed(self) -> bool {
        self.taken() <= self.whole().len()
    }

    pub fn new(bytes: &'a [u8]) -> (r: Self)
        ensures
            r.well_formed(),
            r.whole() == bytes@,
            r.taken() == 0,
    {
        Source { bytes, at: 0 }
    }

    /// The next bytes of the stream: as many as there is room for, and none only
    /// at its end. A short read is not the end of the stream.
    pub fn read(&mut self, room: usize) -> (r: Vec<u8>)
        requires
            old(self).well_formed(),
        ensures
            final(self).well_formed(),
            final(self).whole() == old(self).whole(),
            final(self).taken() == old(self).taken() + r@.len(),
            r@ == piece(old(self).whole(), old(self).taken(), room as nat),
    {
        let total: usize = self.bytes.len();
        let left: usize = total - self.at;
        let taken: usize = if left <= room {
            left
        } else {
            room
        };
        let mut read: Vec<u8> = Vec::new();
        let mut i: usize = 0;
        while i < taken
            invariant
                i <= taken,
                self.at + taken <= total,
                total == self.bytes@.len(),
                read@ == self.bytes@.subrange(self.at as int, self.at + i),
            decreases taken - i,
        {
            read.push(self.bytes[self.at + i]);
            i += 1;
            assert(read@ =~= self.bytes@.subrange(self.at as int, self.at + i));
        }
        self.at = self.at + taken;
        assert(read@ =~= piece(old(self).whole(), old(self).taken(), room as nat));
        read
    }
}

/// What the host's reader answers a module that asks for bytes: how many were
/// written, or that the question makes no sense. `source` is `None` where the
/// module handed nothing back, and `buffer` whether it handed over somewhere to
/// write.
pub open spec fn read_makes_sense(source: bool, buffer: bool, room: usize) -> bool {
    source && (buffer || room == 0)
}

/// Read a stream out to a module.
pub fn read_source(source: Option<&mut Source<'_>>, buffer: bool, room: usize) -> (r: Option<
    Vec<u8>,
>)
    requires
        source matches Some(source) ==> source.well_formed(),
    ensures
        (r is Some) == read_makes_sense(source is Some, buffer, room),
        source matches Some(stream) ==> {
            &&& final(stream).well_formed()
            &&& final(stream).whole() == stream.whole()
            &&& match r {
                Some(read) => {
                    &&& final(stream).taken() == stream.taken() + read@.len()
                    &&& read@ == piece(stream.whole(), stream.taken(), room as nat)
                },
                None => final(stream).taken() == stream.taken(),
            }
        },
{
    match source {
        Some(stream) => {
            if !buffer && room > 0 {
                return None;
            }
            Some(stream.read(room))
        },
        None => None,
    }
}

/// One thing a contract found wrong, copied out of the module.
#[derive(Clone, Debug, PartialEq, Eq)]
pub struct Diagnostic {
    pub code: i32,
    pub location: String,
    pub message: String,
}

/// A diagnostic in words: where, if anywhere, and what.
pub open spec fn worded(found: Diagnostic) -> Seq<char> {
    if found.location@.len() == 0 {
        "["@ + text::signed_decimal(found.code as int) + "] "@ + found.message@
    } else {
        "["@ + text::signed_decimal(found.code as int) + "] "@ + found.location@ + ": "@
            + found.message@
    }
}

/// Each diagnostic in words, in the order they were found.
pub fn read_diagnostics(run: &Vec<Diagnostic>) -> (r: Vec<String>)
    ensures
        text::read(r@) == run@.map_values(|found: Diagnostic| worded(found)),
{
    let mut lines: Vec<String> = Vec::new();
    let mut at: usize = 0;
    while at < run.len()
        invariant
            at <= run@.len(),
            text::read(lines@) =~= run@.map_values(|found: Diagnostic| worded(found)).take(
                at as int,
            ),
        decreases run@.len() - at,
    {
        let found = &run[at];
        let code = text::signed_decimal_text(found.code as i64);
        let opening = "[".to_string().concat(code.as_str()).concat("] ");
        let line = if found.location.as_str().is_empty() {
            opening.concat(found.message.as_str())
        } else {
            opening.concat(found.location.as_str()).concat(": ").concat(found.message.as_str())
        };
        text::push_line(&mut lines, line);
        at += 1;
    }
    lines
}

/// What judging a stream came to. `answer` is what the call answered, and `None`
/// where the table carries no `validate`.
///
/// # Errors
///
/// A table with no `validate`.
pub fn validate(shown: &str, answer: Option<i32>, run: &Vec<Diagnostic>) -> (r: Result<
    Verdict,
    String,
>)
    ensures
        (r is Ok) == (answer is Some),
        r matches Ok(verdict) ==> verdict.status == answer->0 && text::read(verdict.diagnostics@)
            == run@.map_values(|found: Diagnostic| worded(found)),
        r matches Err(said) ==> said@ == carries_no(shown@, "validate"@),
{
    match answer {
        Some(status) => Ok(Verdict { status, diagnostics: read_diagnostics(run) }),
        None => Err(missing(shown, "validate")),
    }
}

/// What a contract already determines about a key, or nothing where the standard
/// implies nothing. `told` is what the call answered and said, and `None` where
/// the table carries no `implies`.
pub fn implies(told: Option<(i32, String)>, okay: i32) -> (r: Option<String>)
    ensures
        r == (match told {
            Some((answer, said)) => if answer == okay {
                Some(said)
            } else {
                None
            },
            None => None,
        }),
{
    match told {
        Some((answer, said)) => if answer == okay {
            Some(said)
        } else {
            None
        },
        None => None,
    }
}

/// How much of a stream was read once it was asked for with these rooms, one
/// after the other.
pub open spec fn taken_by(whole: Seq<u8>, rooms: Seq<nat>) -> nat
    decreases rooms.len(),
{
    if rooms.len() == 0 {
        0
    } else {
        let before = taken_by(whole, rooms.drop_last());
        before + piece(whole, before, rooms.last()).len()
    }
}

/// What the reads brought, one after the other.
pub open spec fn brought_by(whole: Seq<u8>, rooms: Seq<nat>) -> Seq<u8>
    decreases rooms.len(),
{
    if rooms.len() == 0 {
        Seq::empty()
    } else {
        brought_by(whole, rooms.drop_last()) + piece(
            whole,
            taken_by(whole, rooms.drop_last()),
            rooms.last(),
        )
    }
}

/// However a module asks for a stream, what it is brought is the stream from its
/// beginning, with nothing left out and nothing twice.
pub proof fn law_reads_bring_the_stream(whole: Seq<u8>, rooms: Seq<nat>)
    ensures
        taken_by(whole, rooms) <= whole.len(),
        brought_by(whole, rooms) == whole.take(taken_by(whole, rooms) as int),
    decreases rooms.len(),
{
    if rooms.len() > 0 {
        law_reads_bring_the_stream(whole, rooms.drop_last());
    }
    assert(brought_by(whole, rooms) =~= whole.take(taken_by(whole, rooms) as int));
}

/// A read with room that brings nothing is the end: everything was brought by
/// then. A short read is not.
pub proof fn law_an_empty_read_is_the_end(whole: Seq<u8>, rooms: Seq<nat>, room: nat)
    requires
        room > 0,
        piece(whole, taken_by(whole, rooms), room).len() == 0,
    ensures
        brought_by(whole, rooms) == whole,
{
    law_reads_bring_the_stream(whole, rooms);
    assert(whole.take(whole.len() as int) =~= whole);
}

/// A table is driven exactly where the module names the contract trait, carries
/// a table, and the table's own version is the one the descriptor declares.
pub proof fn law_only_a_table_that_agrees_is_driven(
    descriptor: ModuleDescriptor,
    shown: &str,
    table: Option<TableVersion>,
    r: Result<(), String>,
)
    requires
        call_ensures(of, (&descriptor, shown, table), r),
    ensures
        r is Ok <==> descriptor.module@ == "contract"@ && (table matches Some(version)
            && version.trait_major == descriptor.trait_major && version.trait_minor
            == descriptor.trait_minor),
        r matches Err(said) ==> text::holds(said@, shown@),
        descriptor.module@ != "contract"@ ==> (r matches Err(said) && text::holds(
            said@,
            "the '"@ + descriptor.module@ + "' trait"@,
        )),
        descriptor.module@ == "contract"@ && table is None ==> (r matches Err(said) && text::holds(
            said@,
            "carries no table"@,
        )),
        descriptor.module@ == "contract"@ && r is Err ==> (table matches Some(version)
            ==> text::holds(
            r->Err_0@,
            " declares trait "@ + text::decimal(descriptor.trait_major as nat) + "."@
                + text::decimal(descriptor.trait_minor as nat),
        ) && text::holds(
            r->Err_0@,
            " and its table says "@ + text::decimal(version.trait_major as nat) + "."@
                + text::decimal(version.trait_minor as nat),
        )),
{
    let none = Seq::<char>::empty();
    if r is Err {
        let said = r->Err_0@;
        if descriptor.module@ != CONTRACT@ {
            let end = ", and only '"@ + CONTRACT@ + "' can be driven from here"@;
            reveal_strlit(" answers the '");
            reveal_strlit(" answers ");
            reveal_strlit("the '");
            reveal_strlit("' trait, and only '");
            reveal_strlit("' trait");
            reveal_strlit(", and only '");
            assert(" answers the '"@ =~= " answers "@ + "the '"@);
            assert("' trait, and only '"@ =~= "' trait"@ + ", and only '"@);
            let named = "the '"@ + descriptor.module@ + "' trait"@;
            assert(said =~= none + shown@ + (" answers "@ + named + end));
            text::lemma_holds(none, shown@, " answers "@ + named + end);
            assert(said =~= (shown@ + " answers "@) + named + end);
            text::lemma_holds(shown@ + " answers "@, named, end);
        } else if table is None {
            let rest = " names the '"@ + CONTRACT@ + "' trait and carries no table"@;
            assert(said =~= none + shown@ + rest);
            text::lemma_holds(none, shown@, rest);
            reveal_strlit("' trait and carries no table");
            reveal_strlit("' trait and ");
            reveal_strlit("carries no table");
            assert("' trait and carries no table"@ =~= "' trait and "@ + "carries no table"@);
            let head = shown@ + " names the '"@ + CONTRACT@ + "' trait and "@;
            assert(said =~= head + "carries no table"@ + none);
            text::lemma_holds(head, "carries no table"@, none);
        } else {
            let version = table->0;
            let own = " declares trait "@ + text::decimal(descriptor.trait_major as nat) + "."@
                + text::decimal(descriptor.trait_minor as nat);
            let says = " and its table says "@ + text::decimal(version.trait_major as nat) + "."@
                + text::decimal(version.trait_minor as nat);
            let end = ": a module that disagrees with itself is not driven"@;
            assert(said =~= none + shown@ + (own + says + end));
            text::lemma_holds(none, shown@, own + says + end);
            assert(said =~= shown@ + own + (says + end));
            text::lemma_holds(shown@, own, says + end);
            assert(said =~= (shown@ + own) + says + end);
            text::lemma_holds(shown@ + own, says, end);
        }
    }
}

/// A call succeeds exactly where the table carries it and it answers good; what
/// is said of one that does not names the module and the call, and where it was
/// answered, the status and the module's own detail.
pub proof fn law_a_call_succeeds_only_where_it_answers_good(
    shown: &str,
    what: &str,
    answer: Option<i32>,
    okay: i32,
    last_error: &str,
    r: Result<(), String>,
)
    requires
        call_ensures(lifecycle, (shown, what, answer, okay, last_error), r),
    ensures
        r is Ok <==> answer is Some && answer->0 == okay,
        r matches Err(said) ==> text::holds(said@, shown@) && text::holds(said@, what@),
        r matches Err(said) ==> (answer matches Some(status) ==> text::holds(
            said@,
            "status "@ + text::signed_decimal(status as int),
        ) && text::holds(said@, last_error@)),
{
    let none = Seq::<char>::empty();
    if r is Err {
        let said = r->Err_0@;
        match answer {
            Some(status) => {
                let number = text::signed_decimal(status as int);
                reveal_strlit(" answered status ");
                reveal_strlit(" answered ");
                reveal_strlit("status ");
                assert(" answered status "@ =~= " answered "@ + "status "@);
                let told = "status "@ + number;
                let rest = " to "@ + what@ + ": "@ + last_error@;
                assert(said =~= none + shown@ + (" answered "@ + told + rest));
                text::lemma_holds(none, shown@, " answered "@ + told + rest);
                assert(said =~= (shown@ + " answered "@) + told + rest);
                text::lemma_holds(shown@ + " answered "@, told, rest);
                let head = shown@ + " answered "@ + told + " to "@;
                assert(said =~= head + what@ + (": "@ + last_error@));
                text::lemma_holds(head, what@, ": "@ + last_error@);
                assert(said =~= (head + what@ + ": "@) + last_error@ + none);
                text::lemma_holds(head + what@ + ": "@, last_error@, none);
            },
            None => {
                assert(said =~= none + shown@ + (" carries no "@ + what@));
                text::lemma_holds(none, shown@, " carries no "@ + what@);
                assert(said =~= (shown@ + " carries no "@) + what@ + none);
                text::lemma_holds(shown@ + " carries no "@, what@, none);
            },
        }
    }
}

/// A descriptor is bound exactly where the table carries the call, it answers
/// good and a contract is handed over; otherwise it is named, with the status.
pub proof fn law_a_contract_is_bound_only_where_it_is_handed_over(
    shown: &str,
    descriptor: &str,
    binding: Option<Binding>,
    okay: i32,
    r: Result<(), String>,
)
    requires
        call_ensures(bind, (shown, descriptor, binding, okay), r),
    ensures
        r is Ok <==> (binding matches Some(bound) && bound.answer == okay && bound.handed_over),
        r matches Err(said) ==> text::holds(said@, shown@),
        r matches Err(said) ==> (binding matches Some(bound) ==> text::holds(
            said@,
            "would not bind '"@ + descriptor@ + "': status "@ + text::signed_decimal(
                bound.answer as int,
            ),
        )),
{
    let none = Seq::<char>::empty();
    if r is Err {
        let said = r->Err_0@;
        match binding {
            Some(bound) => {
                reveal_strlit(" would not bind '");
                reveal_strlit("would not bind '");
                reveal_strlit(" ");
                assert(" would not bind '"@ =~= " "@ + "would not bind '"@);
                let told = "would not bind '"@ + descriptor@ + "': status "@
                    + text::signed_decimal(bound.answer as int);
                assert(said =~= none + shown@ + (" "@ + told));
                text::lemma_holds(none, shown@, " "@ + told);
                assert(said =~= (shown@ + " "@) + told + none);
                text::lemma_holds(shown@ + " "@, told, none);
            },
            None => {
                assert(said =~= none + shown@ + (" carries no "@ + "load"@));
                text::lemma_holds(none, shown@, " carries no "@ + "load"@);
            },
        }
    }
}

/// Every read brings as much as there is room for, or as is left where that is
/// less; and a read is refused only where nothing was handed back to read from,
/// or there is room and nowhere to write.
pub proof fn law_a_read_fills_the_room(
    whole: Seq<u8>,
    taken: nat,
    room: usize,
    source: bool,
    buffer: bool,
)
    requires
        taken <= whole.len(),
    ensures
        room <= whole.len() - taken ==> piece(whole, taken, room as nat).len() == room,
        room > whole.len() - taken ==> piece(whole, taken, room as nat).len() == whole.len()
            - taken,
        forall|i: int|
            0 <= i < piece(whole, taken, room as nat).len() ==> #[trigger] piece(
                whole,
                taken,
                room as nat,
            )[i] == whole[taken + i],
        read_makes_sense(source, buffer, room) <==> source && !(room > 0 && !buffer),
{
}

/// Each diagnostic becomes one line, in the order they were found: its code in
/// brackets first, then where, if it says where, and then what, at the end.
pub proof fn law_a_diagnostic_is_one_line(run: Vec<Diagnostic>, lines: Vec<String>, at: int)
    requires
        call_ensures(read_diagnostics, (&run,), lines),
    ensures
        lines@.len() == run@.len(),
        0 <= at < run@.len() ==> {
            let found = run@[at];
            let opening = "["@ + text::signed_decimal(found.code as int) + "] "@;
            &&& found.location@.len() == 0 ==> lines@[at]@ == opening + found.message@
            &&& found.location@.len() > 0 ==> lines@[at]@ == opening + (found.location@ + ": "@
                + found.message@)
        },
{
    let read = text::read(lines@);
    assert(read.len() == lines@.len());
    if 0 <= at < run@.len() {
        let found = run@[at];
        let opening = "["@ + text::signed_decimal(found.code as int) + "] "@;
        assert(read[at] == lines@[at]@);
        assert(read[at] == worded(found));
        assert(found.location@.len() > 0 ==> lines@[at]@ =~= opening + (found.location@ + ": "@
            + found.message@));
    }
}

/// A verdict is the status that was answered and every diagnostic, a table that
/// carries no such call gives none, and a stream held exactly where the verdict
/// is good and has nothing to report.
pub proof fn law_a_verdict_is_what_was_answered(
    shown: &str,
    answer: Option<i32>,
    run: Vec<Diagnostic>,
    r: Result<Verdict, String>,
    okay: i32,
    held: bool,
)
    requires
        call_ensures(validate, (shown, answer, &run), r),
        r matches Ok(verdict) ==> call_ensures(Verdict::held, (&verdict, okay), held),
    ensures
        r is Ok <==> answer is Some,
        r matches Ok(verdict) ==> answer == Some(verdict.status) && verdict.diagnostics@.len()
            == run@.len() && (held <==> answer == Some(okay) && run@.len() == 0),
        r matches Err(said) ==> text::holds(said@, shown@) && text::holds(said@, "validate"@),
{
    let none = Seq::<char>::empty();
    match r {
        Ok(verdict) => {
            assert(text::read(verdict.diagnostics@).len() == verdict.diagnostics@.len());
        },
        Err(said) => {
            assert(said@ =~= none + shown@ + (" carries no "@ + "validate"@));
            text::lemma_holds(none, shown@, " carries no "@ + "validate"@);
            assert(said@ =~= (shown@ + " carries no "@) + "validate"@ + none);
            text::lemma_holds(shown@ + " carries no "@, "validate"@, none);
        },
    }
}

/// Something is implied exactly where the call is carried and answers good, and
/// then it is what was said.
pub proof fn law_what_is_implied_is_what_was_said(
    told: Option<(i32, String)>,
    okay: i32,
    r: Option<String>,
)
    requires
        call_ensures(implies, (told, okay), r),
    ensures
        r is Some <==> (told matches Some((answer, said)) && answer == okay),
        r matches Some(found) ==> (told matches Some((answer, said)) && found@ == said@),
{
}

/// A module that reads a stream is handed its next bytes, from where the last
/// read ended: as many as there is room for, or as are left. A question that
/// makes no sense is answered with nothing and takes nothing from the stream.
pub proof fn law_a_module_reads_on_where_it_ended(
    bytes: &[u8],
    fresh: Source<'_>,
    source: &mut Source<'_>,
    room: usize,
    read: Vec<u8>,
)
    requires
        call_ensures(Source::new, (bytes,), fresh),
        old(source).well_formed(),
        call_ensures(Source::read, (source, room), read),
    ensures
        fresh.whole() == bytes@,
        fresh.taken() == 0,
        fresh.well_formed(),
        final(source).whole() == old(source).whole(),
        final(source).taken() == old(source).taken() + read@.len(),
        final(source).taken() <= final(source).whole().len(),
        read@.len() <= room,
        read@.len() == room || final(source).taken() == final(source).whole().len(),
        read@ == old(source).whole().subrange(
            old(source).taken() as int,
            final(source).taken() as int,
        ),
{
}

} // verus!
