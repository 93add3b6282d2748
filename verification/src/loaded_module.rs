//! Opening a module: what is said where the host turns one down.
//!
//! Opening the library, finding its entrypoint and calling it belong to whoever
//! holds the library. What each of the steps came to is judged here, and the
//! descriptor by [`crate::compatibility::accepts`].

use vstd::prelude::*;
use vstd::string::*;

use crate::abi::{ModuleDescriptor, XMIP_ENTRYPOINT};
use crate::compatibility::{accepts, Expectation};
use crate::text;

verus! {

/// What opening a module came to, as far as it got.
#[derive(Debug)]
pub enum Opening {
    /// The library would not open, and why.
    Closed(String),
    /// It exports no entrypoint, and why not.
    NoEntrypoint(String),
    /// The entrypoint answered with this status and left its result untouched.
    NotCreated(i32),
    /// A module, with what it says it is, in words too, and what the boundary's
    /// own check of that came to.
    Created { descriptor: ModuleDescriptor, shown: String, validated: Result<(), String> },
}

/// A module the host keeps.
pub open spec fn kept(opening: Opening, expected: Expectation) -> bool {
    match opening {
        Opening::Created { descriptor, shown, validated } => validated is Ok
            && crate::compatibility::answers(descriptor, expected),
        _ => false,
    }
}

/// What is said of a module the host does not keep.
pub open spec fn turned_down(
    path: Seq<char>,
    opening: Opening,
    expected: Expectation,
) -> Seq<char> {
    match opening {
        Opening::Closed(why) => path + " would not open: "@ + why@,
        Opening::NoEntrypoint(why) => path + " exports no "@ + XMIP_ENTRYPOINT@ + ": "@ + why@
            + ". Every conforming module exports exactly that symbol"@,
        Opening::NotCreated(answer) => path + " refused to create a module: status "@
            + text::signed_decimal(answer as int)
            + ", and *out was left untouched as header section 7 requires"@,
        Opening::Created { descriptor, shown, validated } => match validated {
            Err(refusal) => refusal@,
            Ok(_) => crate::compatibility::disagreement(descriptor, shown@, expected),
        },
    }
}

/// Keep a module only if it opened, was created, and the capability that asked
/// takes what its descriptor says.
///
/// # Errors
///
/// A library that will not open, one that exports no entrypoint, an entrypoint
/// that refuses this host's ABI version, or a descriptor that is turned down,
/// which names the field that disagreed.
pub fn open(path: &str, opening: Opening, expected: &Expectation) -> (r: Result<
    ModuleDescriptor,
    String,
>)
    ensures
        (r is Ok) == kept(opening, *expected),
        r matches Ok(descriptor) ==> opening matches Opening::Created { descriptor: own, .. }
            && descriptor == own,
        r matches Err(said) ==> said@ == turned_down(path@, opening, *expected),
{
    match opening {
        Opening::Closed(why) => Err(
            path.to_string().concat(" would not open: ").concat(why.as_str()),
        ),
        Opening::NoEntrypoint(why) => Err(
            path.to_string().concat(" exports no ").concat(XMIP_ENTRYPOINT).concat(": ").concat(
                why.as_str(),
            ).concat(". Every conforming module exports exactly that symbol"),
        ),
        Opening::NotCreated(answer) => Err(
            path.to_string().concat(" refused to create a module: status ").concat(
                text::signed_decimal_text(answer as i64).as_str(),
            ).concat(", and *out was left untouched as header section 7 requires"),
        ),
        Opening::Created { descriptor, shown, validated } => {
            match accepts(validated, &descriptor, shown.as_str(), expected) {
                Ok(()) => Ok(descriptor),
                Err(refusal) => Err(refusal),
            }
        },
    }
}

/// A module is kept exactly where its library opened, its entrypoint was there
/// and created it, its descriptor is well formed, and the capability that asked
/// takes it; what is kept is the descriptor the module brought. What is said of
/// any other names the file, why it would not open or has no entrypoint, or the
/// status it answered; and of one that was created, what was refused in it.
pub proof fn law_a_module_is_kept_where_every_step_succeeded(
    path: &str,
    opening: Opening,
    expected: Expectation,
    r: Result<ModuleDescriptor, String>,
)
    requires
        call_ensures(open, (path, opening, &expected), r),
    ensures
        r is Ok <==> (opening matches Opening::Created { descriptor, shown, validated }
            && validated is Ok && descriptor.module@ == expected.module@
            && descriptor.trait_major == expected.trait_major && descriptor.trait_minor
            <= expected.trait_minor),
        r matches Ok(kept) ==> opening->descriptor == kept,
        opening matches Opening::Closed(why) ==> r is Err && text::holds(r->Err_0@, path@)
            && text::holds(r->Err_0@, "would not open: "@ + why@),
        opening matches Opening::NoEntrypoint(why) ==> r is Err && text::holds(r->Err_0@, path@)
            && text::holds(r->Err_0@, why@) && text::holds(
            r->Err_0@,
            "exports no "@ + XMIP_ENTRYPOINT@,
        ),
        opening matches Opening::NotCreated(answer) ==> r is Err && text::holds(r->Err_0@, path@)
            && text::holds(r->Err_0@, "status "@ + text::signed_decimal(answer as int)),
        opening matches Opening::Created { descriptor, shown, validated: Err(refusal) } ==> r is Err
            && r->Err_0@ == refusal@,
{
    let none = Seq::<char>::empty();
    match opening {
        Opening::Closed(why) => {
            let said = r->Err_0@;
            reveal_strlit(" would not open: ");
            reveal_strlit("would not open: ");
            reveal_strlit(" ");
            assert(" would not open: "@ =~= " "@ + "would not open: "@);
            assert(said =~= none + path@ + (" would not open: "@ + why@));
            text::lemma_holds(none, path@, " would not open: "@ + why@);
            assert(said =~= (path@ + " "@) + ("would not open: "@ + why@) + none);
            text::lemma_holds(path@ + " "@, "would not open: "@ + why@, none);
        },
        Opening::NoEntrypoint(why) => {
            let said = r->Err_0@;
            let end = ". Every conforming module exports exactly that symbol"@;
            reveal_strlit(" exports no ");
            reveal_strlit("exports no ");
            reveal_strlit(" ");
            assert(" exports no "@ =~= " "@ + "exports no "@);
            let rest = " exports no "@ + XMIP_ENTRYPOINT@ + ": "@ + why@ + end;
            assert(said =~= none + path@ + rest);
            text::lemma_holds(none, path@, rest);
            let head = path@ + " exports no "@ + XMIP_ENTRYPOINT@ + ": "@;
            assert(said =~= head + why@ + end);
            text::lemma_holds(head, why@, end);
            let symbol = "exports no "@ + XMIP_ENTRYPOINT@;
            assert(said =~= (path@ + " "@) + symbol + (": "@ + why@ + end));
            text::lemma_holds(path@ + " "@, symbol, ": "@ + why@ + end);
        },
        Opening::NotCreated(answer) => {
            let said = r->Err_0@;
            let end = ", and *out was left untouched as header section 7 requires"@;
            let cut = " refused to create a module: "@;
            reveal_strlit(" refused to create a module: status ");
            reveal_strlit(" refused to create a module: ");
            reveal_strlit("status ");
            assert(" refused to create a module: status "@ =~= cut + "status "@);
            let status = "status "@ + text::signed_decimal(answer as int);
            assert(said =~= none + path@ + (cut + status + end));
            text::lemma_holds(none, path@, cut + status + end);
            assert(said =~= (path@ + cut) + status + end);
            text::lemma_holds(path@ + cut, status, end);
        },
        _ => {},
    }
}

} // verus!
