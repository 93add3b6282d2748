//! What a topology value is called: the word it is written as, and the name a
//! person reads it by.
//!
//! A publication carries a topology's kind, origin and pattern as the header's
//! integers. The words and the names belong to whoever owns the topology and are
//! handed in.

use vstd::prelude::*;

use crate::abi::Status;
use crate::observe::{NodeKind, Origin, Pattern};
use crate::rule;
use crate::wire;
use crate::wire::{from_wire_kind, from_wire_origin, from_wire_pattern};

verus! {

/// A value's word and its name.
#[derive(Clone, Copy, Debug, PartialEq, Eq)]
pub struct Words {
    pub word: &'static str,
    pub name: &'static str,
}

/// What is answered of a value: what the owner calls the word that stands at its
/// place, or that it stands for none.
pub open spec fn called<T, F: Fn(T) -> Words>(
    words: Seq<T>,
    value: i32,
    owner: F,
    r: Result<Words, Status>,
) -> bool {
    if 0 <= value < words.len() {
        r is Ok && rule::tells(owner, words[value as int], r->Ok_0)
    } else {
        r is Err && r->Err_0 == Status::Invalid
    }
}

/// What a kind is called.
pub fn xmip_topology_kind_words_v1<F: Fn(NodeKind) -> Words>(kind: i32, said: F) -> (r: Result<
    Words,
    Status,
>)
    requires
        forall|value: NodeKind| #[trigger] said.requires((value,)),
    ensures
        called(wire::kinds(), kind, said, r),
{
    match from_wire_kind(kind) {
        Some(kind) => Ok(said(kind)),
        None => Err(Status::Invalid),
    }
}

/// What an origin is called.
pub fn xmip_topology_origin_words_v1<F: Fn(Origin) -> Words>(origin: i32, said: F) -> (r: Result<
    Words,
    Status,
>)
    requires
        forall|value: Origin| #[trigger] said.requires((value,)),
    ensures
        called(wire::origins(), origin, said, r),
{
    match from_wire_origin(origin) {
        Some(origin) => Ok(said(origin)),
        None => Err(Status::Invalid),
    }
}

/// What a pattern is called.
pub fn xmip_topology_pattern_words_v1<F: Fn(Pattern) -> Words>(pattern: i32, said: F) -> (r: Result<
    Words,
    Status,
>)
    requires
        forall|value: Pattern| #[trigger] said.requires((value,)),
    ensures
        called(wire::patterns(), pattern, said, r),
{
    match from_wire_pattern(pattern) {
        Some(pattern) => Ok(said(pattern)),
        None => Err(Status::Invalid),
    }
}

/// A topology's value is called what its owner calls the kind, origin or pattern
/// it was sent for; a value that was sent for none is invalid.
pub proof fn law_a_value_is_called_what_its_owner_calls_it<
    K: Fn(NodeKind) -> Words,
    O: Fn(Origin) -> Words,
    P: Fn(Pattern) -> Words,
>(
    kind: NodeKind,
    kind_sent: i32,
    kinds: K,
    kind_called: Result<Words, Status>,
    origin: Origin,
    origin_sent: i32,
    origins: O,
    origin_called: Result<Words, Status>,
    pattern: Pattern,
    pattern_sent: i32,
    patterns: P,
    pattern_called: Result<Words, Status>,
)
    requires
        call_ensures(wire::wire_kind, (kind,), kind_sent),
        call_ensures(xmip_topology_kind_words_v1::<K>, (kind_sent, kinds), kind_called),
        call_ensures(wire::wire_origin, (origin,), origin_sent),
        call_ensures(xmip_topology_origin_words_v1::<O>, (origin_sent, origins), origin_called),
        call_ensures(wire::wire_pattern, (pattern,), pattern_sent),
        call_ensures(
            xmip_topology_pattern_words_v1::<P>,
            (pattern_sent, patterns),
            pattern_called,
        ),
    ensures
        kind_called matches Ok(words) && kinds.ensures((kind,), words),
        origin_called matches Ok(words) && origins.ensures((origin,), words),
        pattern_called matches Ok(words) && patterns.ensures((pattern,), words),
{
}

/// A value below zero or beyond the last that is sent is invalid.
pub proof fn law_a_value_that_is_never_sent_is_invalid<
    K: Fn(NodeKind) -> Words,
    O: Fn(Origin) -> Words,
    P: Fn(Pattern) -> Words,
>(
    value: i32,
    kinds: K,
    kind_called: Result<Words, Status>,
    origins: O,
    origin_called: Result<Words, Status>,
    patterns: P,
    pattern_called: Result<Words, Status>,
)
    requires
        call_ensures(xmip_topology_kind_words_v1::<K>, (value, kinds), kind_called),
        call_ensures(xmip_topology_origin_words_v1::<O>, (value, origins), origin_called),
        call_ensures(xmip_topology_pattern_words_v1::<P>, (value, patterns), pattern_called),
    ensures
        kind_called is Ok <==> 0 <= value <= 14,
        origin_called is Ok <==> 0 <= value <= 2,
        pattern_called is Ok <==> 0 <= value <= 6,
        kind_called matches Err(status) ==> status == Status::Invalid,
        origin_called matches Err(status) ==> status == Status::Invalid,
        pattern_called matches Err(status) ==> status == Status::Invalid,
{
}

} // verus!
