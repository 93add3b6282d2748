//! Whether the host takes the module it just opened, as three comparisons over
//! a descriptor already read.
//!
//! Whether a descriptor is well formed at all is settled before: the ABI
//! version the boundary speaks, a provider and a module named. That cannot
//! answer the question a load actually asks, because that question has a second
//! party, the capability doing the loading. One well-formed descriptor is taken
//! by `contract` and refused by `transport`, and only the loader knows which of
//! the two asked for the library.
//!
//! Every refusal names the field that disagreed and what was expected.

use vstd::prelude::*;
use vstd::string::*;

use crate::abi::ModuleDescriptor;
use crate::text;

verus! {

/// What the loading capability requires of a module offering to serve it.
///
/// Each core module versions its own trait, so the trait version here is the
/// loading capability's own and never a platform-wide number. `contract` at 1.0
/// says nothing about `transport` at 1.0.
#[derive(Clone, Debug, PartialEq, Eq)]
pub struct Expectation {
    /// The loading capability's name, as `descriptor.module` spells it:
    /// `contract`, `transport`, `message`, `path`.
    pub module: String,
    pub trait_major: u32,
    pub trait_minor: u32,
}

impl Expectation {
    pub fn new(module: &str, trait_major: u32, trait_minor: u32) -> (r: Self)
        ensures
            r.module@ == module@,
            r.trait_major == trait_major,
            r.trait_minor == trait_minor,
    {
        Expectation { module: module.to_string(), trait_major, trait_minor }
    }
}

/// The descriptor answers the capability that is loading it.
pub open spec fn answers(descriptor: ModuleDescriptor, expected: Expectation) -> bool {
    &&& descriptor.module@ == expected.module@
    &&& descriptor.trait_major == expected.trait_major
    &&& descriptor.trait_minor <= expected.trait_minor
}

/// What is said to a descriptor that does not answer: the first field that
/// disagrees.
pub open spec fn disagreement(
    descriptor: ModuleDescriptor,
    shown: Seq<char>,
    expected: Expectation,
) -> Seq<char> {
    if descriptor.module@ != expected.module@ {
        shown + " answers the '"@ + descriptor.module@ + "' trait and '"@ + expected.module@
            + "' is loading it: descriptor.module must equal the loading capability"@
    } else if descriptor.trait_major != expected.trait_major {
        shown + " is built against trait_major "@ + text::decimal(descriptor.trait_major as nat)
            + " and '"@ + expected.module@ + "' speaks "@ + text::decimal(
            expected.trait_major as nat,
        ) + ": a major generation apart is a different trait"@
    } else {
        shown + " is built against trait_minor "@ + text::decimal(descriptor.trait_minor as nat)
            + " and '"@ + expected.module@ + "' speaks "@ + text::decimal(
            expected.trait_minor as nat,
        ) + ": trait_minor must be less than or equal to the host's"@
    }
}

/// The compatibility rule, in its own order: the descriptor well formed,
/// `module` equal to the loading capability, `trait_major` equal, `trait_minor`
/// less than or equal.
///
/// `validated` is what the boundary's own check of the descriptor came to, and
/// `shown` the descriptor in words.
///
/// # Errors
///
/// Names the one field that disagreed and what was expected. An operator
/// reading this is holding a library file and has to know which fact about it
/// to fix: a module built for another capability, a trait generation apart, or
/// a table newer than the host can drive.
pub fn accepts(
    validated: Result<(), String>,
    descriptor: &ModuleDescriptor,
    shown: &str,
    expected: &Expectation,
) -> (r: Result<(), String>)
    ensures
        validated is Err ==> r == validated,
        validated is Ok ==> (r is Ok) == answers(*descriptor, *expected),
        validated is Ok ==> (r matches Err(said) ==> said@ == disagreement(
            *descriptor,
            shown@,
            *expected,
        )),
{
    if validated.is_err() {
        return validated;
    }
    if !text::same(descriptor.module.as_str(), expected.module.as_str()) {
        return Err(
            shown.to_string().concat(" answers the '").concat(descriptor.module.as_str()).concat(
                "' trait and '",
            ).concat(expected.module.as_str()).concat(
                "' is loading it: descriptor.module must equal the loading capability",
            ),
        );
    }
    if descriptor.trait_major != expected.trait_major {
        return Err(
            shown.to_string().concat(" is built against trait_major ").concat(
                text::decimal_text(descriptor.trait_major as u64).as_str(),
            ).concat(" and '").concat(expected.module.as_str()).concat("' speaks ").concat(
                text::decimal_text(expected.trait_major as u64).as_str(),
            ).concat(": a major generation apart is a different trait"),
        );
    }
    if descriptor.trait_minor > expected.trait_minor {
        return Err(
            shown.to_string().concat(" is built against trait_minor ").concat(
                text::decimal_text(descriptor.trait_minor as u64).as_str(),
            ).concat(" and '").concat(expected.module.as_str()).concat("' speaks ").concat(
                text::decimal_text(expected.trait_minor as u64).as_str(),
            ).concat(": trait_minor must be less than or equal to the host's"),
        );
    }
    Ok(())
}

/// A host that moves on to a later minor of the same trait still takes every
/// module it took before.
pub proof fn law_a_later_minor_takes_what_an_earlier_one_took(
    descriptor: ModuleDescriptor,
    earlier: Expectation,
    later: Expectation,
)
    requires
        answers(descriptor, earlier),
        later.module@ == earlier.module@,
        later.trait_major == earlier.trait_major,
        earlier.trait_minor <= later.trait_minor,
    ensures
        answers(descriptor, later),
{
}

/// Two capabilities never take the same module.
pub proof fn law_a_module_answers_one_capability(
    descriptor: ModuleDescriptor,
    one: Expectation,
    other: Expectation,
)
    requires
        answers(descriptor, one),
        answers(descriptor, other),
    ensures
        one.module@ == other.module@,
        one.trait_major == other.trait_major,
{
}

/// A module is taken exactly where its descriptor is well formed, it was built
/// for the capability that asks, in that trait's generation, and against a minor
/// the host has reached. What is said to one that is not begins with the module
/// and names the first of the three that disagrees, with both sides of it.
pub proof fn law_a_module_is_taken_where_all_three_agree(
    validated: Result<(), String>,
    descriptor: ModuleDescriptor,
    shown: &str,
    expected: Expectation,
    r: Result<(), String>,
)
    requires
        call_ensures(accepts, (validated, &descriptor, shown, &expected), r),
    ensures
        r is Ok <==> validated is Ok && descriptor.module@ == expected.module@
            && descriptor.trait_major == expected.trait_major && descriptor.trait_minor
            <= expected.trait_minor,
        validated matches Err(refusal) ==> r is Err && r->Err_0@ == refusal@,
        validated is Ok ==> (r matches Err(said) ==> {
            &&& text::holds(said@, shown@)
            &&& text::holds(said@, expected.module@)
            &&& descriptor.module@ != expected.module@ ==> text::holds(said@, descriptor.module@)
                && text::holds(
                said@,
                "descriptor.module must equal the loading capability"@,
            )
            &&& descriptor.module@ == expected.module@ && descriptor.trait_major
                != expected.trait_major ==> text::holds(
                said@,
                "trait_major "@ + text::decimal(descriptor.trait_major as nat),
            ) && text::holds(
                said@,
                "' speaks "@ + text::decimal(expected.trait_major as nat),
            )
            &&& descriptor.module@ == expected.module@ && descriptor.trait_major
                == expected.trait_major ==> text::holds(
                said@,
                "trait_minor "@ + text::decimal(descriptor.trait_minor as nat),
            ) && text::holds(
                said@,
                "' speaks "@ + text::decimal(expected.trait_minor as nat),
            )
        }),
{
    if validated is Ok && r is Err {
        lemma_disagreement(descriptor, shown@, expected);
    }
}

proof fn lemma_disagreement(
    descriptor: ModuleDescriptor,
    shown: Seq<char>,
    expected: Expectation,
)
    ensures
        ({
            let said = disagreement(descriptor, shown, expected);
            &&& text::holds(said, shown)
            &&& text::holds(said, expected.module@)
            &&& descriptor.module@ != expected.module@ ==> text::holds(said, descriptor.module@)
                && text::holds(said, "descriptor.module must equal the loading capability"@)
            &&& descriptor.module@ == expected.module@ && descriptor.trait_major
                != expected.trait_major ==> text::holds(
                said,
                "trait_major "@ + text::decimal(descriptor.trait_major as nat),
            ) && text::holds(said, "' speaks "@ + text::decimal(expected.trait_major as nat))
            &&& descriptor.module@ == expected.module@ && descriptor.trait_major
                == expected.trait_major ==> text::holds(
                said,
                "trait_minor "@ + text::decimal(descriptor.trait_minor as nat),
            ) && text::holds(said, "' speaks "@ + text::decimal(expected.trait_minor as nat))
        }),
{
    let said = disagreement(descriptor, shown, expected);
    let none = Seq::<char>::empty();
    if descriptor.module@ != expected.module@ {
        let end = "' is loading it: descriptor.module must equal the loading capability"@;
        let a = " answers the '"@;
        let b = "' trait and '"@;
        assert(said =~= none + shown + (a + descriptor.module@ + b + expected.module@ + end));
        text::lemma_holds(none, shown, a + descriptor.module@ + b + expected.module@ + end);
        assert(said =~= (shown + a) + descriptor.module@ + (b + expected.module@ + end));
        text::lemma_holds(shown + a, descriptor.module@, b + expected.module@ + end);
        assert(said =~= (shown + a + descriptor.module@ + b) + expected.module@ + end);
        text::lemma_holds(shown + a + descriptor.module@ + b, expected.module@, end);
        let rule = "descriptor.module must equal the loading capability"@;
        reveal_strlit("' is loading it: descriptor.module must equal the loading capability");
        reveal_strlit("descriptor.module must equal the loading capability");
        let cut = end.take(end.len() - rule.len());
        assert(end =~= cut + rule + none);
        text::lemma_holds(cut, rule, none);
        let head = shown + a + descriptor.module@ + b + expected.module@;
        assert(said =~= head + end + none);
        text::lemma_holds_within(head, end, none, rule);
    } else if descriptor.trait_major != expected.trait_major {
        let own = text::decimal(descriptor.trait_major as nat);
        let theirs = text::decimal(expected.trait_major as nat);
        let end = ": a major generation apart is a different trait"@;
        reveal_strlit(" is built against trait_major ");
        reveal_strlit("trait_major ");
        let cut = " is built against "@;
        reveal_strlit(" is built against ");
        assert(" is built against trait_major "@ =~= cut + "trait_major "@);
        lemma_told(said, shown, cut, "trait_major "@, own, expected.module@, theirs, end);
    } else {
        let own = text::decimal(descriptor.trait_minor as nat);
        let theirs = text::decimal(expected.trait_minor as nat);
        let end = ": trait_minor must be less than or equal to the host's"@;
        reveal_strlit(" is built against trait_minor ");
        reveal_strlit("trait_minor ");
        let cut = " is built against "@;
        reveal_strlit(" is built against ");
        assert(" is built against trait_minor "@ =~= cut + "trait_minor "@);
        lemma_told(said, shown, cut, "trait_minor "@, own, expected.module@, theirs, end);
    }
}

proof fn lemma_told(
    said: Seq<char>,
    shown: Seq<char>,
    cut: Seq<char>,
    field: Seq<char>,
    own: Seq<char>,
    module: Seq<char>,
    theirs: Seq<char>,
    end: Seq<char>,
)
    requires
        said == shown + (cut + field) + own + " and '"@ + module + "' speaks "@ + theirs + end,
    ensures
        text::holds(said, shown),
        text::holds(said, module),
        text::holds(said, field + own),
        text::holds(said, "' speaks "@ + theirs),
{
    let none = Seq::<char>::empty();
    let and = " and '"@;
    let speaks = "' speaks "@;
    assert(said =~= none + shown + (cut + field + own + and + module + speaks + theirs + end));
    text::lemma_holds(none, shown, cut + field + own + and + module + speaks + theirs + end);
    assert(said =~= (shown + cut) + (field + own) + (and + module + speaks + theirs + end));
    text::lemma_holds(shown + cut, field + own, and + module + speaks + theirs + end);
    assert(said =~= (shown + cut + field + own + and) + module + (speaks + theirs + end));
    text::lemma_holds(shown + cut + field + own + and, module, speaks + theirs + end);
    let head = shown + cut + field + own + and + module;
    assert(said =~= head + (speaks + theirs) + end);
    text::lemma_holds(head, speaks + theirs, end);
}

/// What is expected is what the capability asks for.
pub proof fn law_an_expectation_is_what_was_asked_for(
    module: &str,
    major: u32,
    minor: u32,
    expected: Expectation,
)
    requires
        call_ensures(Expectation::new, (module, major, minor), expected),
    ensures
        expected.module@ == module@,
        expected.trait_major == major,
        expected.trait_minor == minor,
{
}

} // verus!
