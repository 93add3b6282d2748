//! The node's part of the rules: the stage words and their parse, the other
//! facts of a stage, and a run's node entry. Each has its owner, and is handed
//! in.

use vstd::prelude::*;
use vstd::string::*;

use crate::abi::Status;
use crate::boundary;
use crate::boundary::{fill_copied, nothing_said, refuse, scope_text, Filled, Written};
use crate::rule;

verus! {

/// What a node declares it can do: the words of its stages, and whether it is
/// online.
#[derive(Debug, PartialEq, Eq)]
pub struct Capability {
    pub features: Vec<&'static str>,
    pub online: bool,
}

/// A declaration's answer in the header's shape: its stages and no refusal, or
/// no stage and the refusal.
#[derive(Debug, PartialEq, Eq)]
pub struct Declared {
    pub status: Status,
    pub stages: Filled<&'static str>,
    pub refusal: Written,
    /// Whether the node is online, where anything was declared.
    pub online: Option<bool>,
}

/// `declared` is what the owner said of a declaration.
pub open spec fn declares(
    declared: Declared,
    said: Result<Capability, String>,
    cap: usize,
    refusal_cap: usize,
) -> bool {
    match said {
        Ok(capability) => {
            &&& declared.status == Status::Okay
            &&& boundary::fills(declared.stages, capability.features@, cap)
            &&& declared.refusal.bytes@.len() == 0
            &&& declared.refusal.length == 0
            &&& declared.online == Some(capability.online)
        },
        Err(sentence) => {
            &&& declared.status == Status::Invalid
            &&& declared.stages.entries@.len() == 0
            &&& declared.stages.count == 0
            &&& boundary::writes(declared.refusal, sentence@, refusal_cap)
            &&& declared.online is None
        },
    }
}

/// Put what the owner said of a declaration into the header's shape.
pub fn write_declared(
    said: Result<Capability, String>,
    cap: usize,
    refusal_cap: usize,
) -> (r: Declared)
    ensures
        declares(r, said, cap, refusal_cap),
{
    match said {
        Ok(capability) => Declared {
            status: Status::Okay,
            stages: fill_copied(capability.features.as_slice(), cap),
            refusal: nothing_said(),
            online: Some(capability.online),
        },
        Err(sentence) => Declared {
            status: Status::Invalid,
            stages: Filled { entries: Vec::new(), count: 0 },
            refusal: refuse(sentence.as_str(), refusal_cap),
            online: None,
        },
    }
}

/// The stage words.
pub fn xmip_stage_words_v1(words: &[&'static str], cap: usize) -> (r: Filled<&'static str>)
    ensures
        boundary::fills(r, words@, cap),
{
    fill_copied(words, cap)
}

/// The stages a declaration reads as, or the refusal.
pub fn xmip_stage_declared_v1<'a, F: Fn(&'a str) -> Result<Capability, String>>(
    declared: Option<&'a [u8]>,
    cap: usize,
    refusal_cap: usize,
    read: F,
) -> (r: Result<Declared, Status>)
    requires
        rule::takes_text(read),
    ensures
        (r is Ok) == (boundary::reading(declared) is Some),
        r matches Err(status) ==> status == Status::Malformed,
        r matches Ok(answer) ==> exists|said: Result<Capability, String>| #[trigger]
            rule::says(read, boundary::reading(declared)->0, said) && declares(
                answer,
                said,
                cap,
                refusal_cap,
            ),
{
    match scope_text(declared) {
        Some(text) => {
            let said = read(text);
            assert(rule::says(read, text@, said));
            Ok(write_declared(said, cap, refusal_cap))
        },
        None => Err(Status::Malformed),
    }
}

/// What is answered of the stage a word names: its fact, or that no stage has
/// the word, or that the word is no text.
pub open spec fn fact_of<'a, T, F: Fn(&'a str) -> Option<T>>(
    stage: Option<&'a [u8]>,
    fact: F,
    r: Result<T, Status>,
) -> bool {
    match boundary::reading(stage) {
        Some(word) => exists|found: Option<T>| #[trigger]
            rule::says(fact, word, found) && r == (match found {
                Some(found) => Ok(found),
                None => Err(Status::NotFound),
            }),
        None => r == Err::<T, Status>(Status::Malformed),
    }
}

/// A fact of the stage a word names.
fn named<'a, T, F: Fn(&'a str) -> Option<T>>(stage: Option<&'a [u8]>, fact: F) -> (r: Result<
    T,
    Status,
>)
    requires
        rule::takes_text(fact),
    ensures
        fact_of(stage, fact, r),
{
    match scope_text(stage) {
        Some(word) => {
            let found = fact(word);
            assert(rule::says(fact, word@, found));
            match found {
                Some(found) => Ok(found),
                None => Err(Status::NotFound),
            }
        },
        None => Err(Status::Malformed),
    }
}

/// Whether the stage a word names can be paused.
pub fn xmip_stage_pausable_v1<'a, F: Fn(&'a str) -> Option<bool>>(
    stage: Option<&'a [u8]>,
    pausable: F,
) -> (r: Result<bool, Status>)
    requires
        rule::takes_text(pausable),
    ensures
        fact_of(stage, pausable, r),
{
    named(stage, pausable)
}

/// What a Location of the stage a word names is called.
pub fn xmip_stage_location_v1<'a, F: Fn(&'a str) -> Option<&'static str>>(
    stage: Option<&'a [u8]>,
    location: F,
) -> (r: Result<&'static str, Status>)
    requires
        rule::takes_text(location),
    ensures
        fact_of(stage, location, r),
{
    named(stage, location)
}

/// A run's node entry: the name, and the stages or the refusal.
pub struct NodeEntry<'a> {
    pub node: &'a str,
    pub declared: Declared,
}

/// The name an entry gives a node, and what it declares. The name survives a
/// refusal.
pub fn xmip_capability_entry_v1<'a, F: Fn(&'a str) -> (&'a str, Result<Capability, String>)>(
    entry: Option<&'a [u8]>,
    cap: usize,
    refusal_cap: usize,
    read: F,
) -> (r: Result<NodeEntry<'a>, Status>)
    requires
        rule::takes_text(read),
    ensures
        (r is Ok) == (boundary::reading(entry) is Some),
        r matches Err(status) ==> status == Status::Malformed,
        r matches Ok(found) ==> exists|said: (&'a str, Result<Capability, String>)| #[trigger]
            rule::says(read, boundary::reading(entry)->0, said) && found.node == said.0
                && declares(found.declared, said.1, cap, refusal_cap),
{
    match scope_text(entry) {
        Some(text) => {
            let said = read(text);
            assert(rule::says(read, text@, said));
            let (node, declaration) = said;
            Ok(NodeEntry { node, declared: write_declared(declaration, cap, refusal_cap) })
        },
        None => Err(Status::Malformed),
    }
}

/// A declaration that was read crosses with every stage it names, from the
/// first, as far as there is room, and whether the node is online; a refusal
/// crosses in its own words, with no stage and nothing of being online.
pub proof fn law_a_declaration_crosses_whole(
    said: Result<Capability, String>,
    cap: usize,
    refusal_cap: usize,
    declared: Declared,
    at: int,
)
    requires
        call_ensures(write_declared, (said, cap, refusal_cap), declared),
    ensures
        said matches Ok(capability) ==> {
            &&& declared.status == Status::Okay
            &&& declared.stages.count == capability.features@.len()
            &&& declared.stages.entries@.len() <= cap
            &&& 0 <= at < cap && at < capability.features@.len() ==> at
                < declared.stages.entries@.len() && declared.stages.entries@[at]
                == capability.features@[at]
            &&& declared.online == Some(capability.online)
            &&& declared.refusal.length == 0
            &&& declared.refusal.bytes@.len() == 0
        },
        said matches Err(sentence) ==> {
            &&& declared.status == Status::Invalid
            &&& declared.stages.count == 0
            &&& declared.stages.entries@.len() == 0
            &&& declared.online is None
            &&& declared.refusal.length == vstd::utf8::encode_utf8(sentence@).len()
            &&& declared.refusal.bytes@.len() <= refusal_cap
            &&& declared.refusal.length <= refusal_cap ==> declared.refusal.bytes@
                == vstd::utf8::encode_utf8(sentence@)
        },
{
}

/// The stage words cross from the first, as far as there is room, with their
/// true count.
pub proof fn law_the_stage_words_cross_in_order(
    words: &[&'static str],
    cap: usize,
    filled: Filled<&'static str>,
    at: int,
)
    requires
        call_ensures(xmip_stage_words_v1, (words, cap), filled),
    ensures
        filled.count == words@.len(),
        filled.entries@.len() <= cap,
        0 <= at < cap && at < words@.len() ==> at < filled.entries@.len() && filled.entries@[at]
            == words@[at],
{
}

/// A fact of a stage is what its owner says of the word that names it, whether
/// it can be paused or what its Locations are called; a word that names no stage
/// is not found, and what is no text is malformed.
pub proof fn law_a_stage_has_the_facts_its_owner_gives_it<
    'a,
    P: Fn(&'a str) -> Option<bool>,
    L: Fn(&'a str) -> Option<&'static str>,
>(
    stage: Option<&'a [u8]>,
    pausable: P,
    location: L,
    pauses: spec_fn(Seq<char>) -> Option<bool>,
    called: spec_fn(Seq<char>) -> Option<Seq<char>>,
    paused: Result<bool, Status>,
    named: Result<&'static str, Status>,
)
    requires
        forall|text: &'a str, said: Option<bool>| #[trigger]
            pausable.ensures((text,), said) ==> said == pauses(text@),
        forall|text: &'a str, said: Option<&'static str>| #[trigger]
            location.ensures((text,), said) ==> match said {
                Some(name) => called(text@) == Some(name@),
                None => called(text@) is None,
            },
        call_ensures(xmip_stage_pausable_v1::<P>, (stage, pausable), paused),
        call_ensures(xmip_stage_location_v1::<L>, (stage, location), named),
    ensures
        match boundary::reading(stage) {
            Some(word) => {
                &&& match pauses(word) {
                    Some(held) => paused is Ok && paused->Ok_0 == held,
                    None => paused is Err && paused->Err_0 == Status::NotFound,
                }
                &&& match called(word) {
                    Some(name) => named is Ok && named->Ok_0@ == name,
                    None => named is Err && named->Err_0 == Status::NotFound,
                }
            },
            None => {
                &&& paused is Err && paused->Err_0 == Status::Malformed
                &&& named is Err && named->Err_0 == Status::Malformed
            },
        },
{
}

/// An entry gives the node the name its owner reads in it, whatever becomes of
/// what the entry declares.
pub proof fn law_a_name_survives_a_refusal<
    'a,
    F: Fn(&'a str) -> (&'a str, Result<Capability, String>),
>(
    entry: Option<&'a [u8]>,
    cap: usize,
    refusal_cap: usize,
    read: F,
    names: spec_fn(Seq<char>) -> Seq<char>,
    refuses: spec_fn(Seq<char>) -> bool,
    r: Result<NodeEntry<'a>, Status>,
)
    requires
        forall|text: &'a str, said: (&'a str, Result<Capability, String>)| #[trigger]
            read.ensures((text,), said) ==> said.0@ == names(text@) && (said.1 is Err) == refuses(
                text@,
            ),
        call_ensures(xmip_capability_entry_v1::<F>, (entry, cap, refusal_cap, read), r),
    ensures
        match boundary::reading(entry) {
            Some(text) => {
                &&& r matches Ok(found)
                &&& found.node@ == names(text)
                &&& found.declared.status == (if refuses(text) {
                    Status::Invalid
                } else {
                    Status::Okay
                })
                &&& found.declared.online is None <==> refuses(text)
            },
            None => r is Err && r->Err_0 == Status::Malformed,
        },
{
}

/// A declaration is read by its owner: as many stages as the owner reads in it,
/// or the owner's refusal with its true length. What is no text is malformed.
pub proof fn law_a_declaration_is_read_by_its_owner<
    'a,
    F: Fn(&'a str) -> Result<Capability, String>,
>(
    declared: Option<&'a [u8]>,
    cap: usize,
    refusal_cap: usize,
    read: F,
    owner: spec_fn(Seq<char>) -> Result<(nat, bool), Seq<char>>,
    r: Result<Declared, Status>,
)
    requires
        forall|asked: &'a str, said: Result<Capability, String>| #[trigger]
            read.ensures((asked,), said) ==> match said {
                Ok(capability) => owner(asked@) == Ok::<(nat, bool), Seq<char>>(
                    (capability.features@.len(), capability.online),
                ),
                Err(sentence) => owner(asked@) == Err::<(nat, bool), Seq<char>>(sentence@),
            },
        call_ensures(xmip_stage_declared_v1::<F>, (declared, cap, refusal_cap, read), r),
    ensures
        match boundary::reading(declared) {
            Some(asked) => match owner(asked) {
                Ok((stages, online)) => r is Ok && r->Ok_0.status == Status::Okay
                    && r->Ok_0.stages.count == stages && r->Ok_0.online == Some(online),
                Err(sentence) => r is Ok && r->Ok_0.status == Status::Invalid
                    && r->Ok_0.online is None && r->Ok_0.stages.count == 0
                    && r->Ok_0.refusal.length == vstd::utf8::encode_utf8(sentence).len(),
            },
            None => r is Err && r->Err_0 == Status::Malformed,
        },
{
}

} // verus!
