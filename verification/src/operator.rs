//! The operator a surface's table stands for: which snapshot it answers from,
//! what it last handed out, and what this process has published.
//!
//! A snapshot is carried through as it is, whatever type it has.

use vstd::prelude::*;

use crate::observe::{Count, LightRecord};

verus! {

/// What sits behind a table: where its snapshot comes from, and what the last
/// call handed out.
///
/// Entries borrow from what is held, which is why they are valid until the next
/// call on the table. Replacing what is held is what invalidates them, and that
/// is the whole lifetime rule.
#[derive(Debug)]
pub struct Operator<S> {
    pub source: Source<S>,
    pub held_health: Vec<LightRecord>,
    pub held_count: Option<Count>,
}

/// Where a table's snapshot comes from.
///
/// `Published` reads what the node has most recently published, on every call,
/// so a table handed out before a node started sees the node once it has.
/// `Fixed` is for a surface that wants one consistent view.
#[derive(Debug)]
pub enum Source<S> {
    Fixed(S),
    Published,
}

/// What this process has published, and how often it said so.
#[derive(Debug)]
pub struct Board<S> {
    pub published: Option<S>,
    pub revision: u64,
}

/// The revision after a change: one on, and never zero, which is what a surface
/// that has seen nothing yet begins with.
pub open spec fn next_revision(revision: u64) -> u64 {
    if revision == u64::MAX {
        1
    } else {
        (revision + 1) as u64
    }
}

/// What a live table answers from: what was published, and what stands for a
/// runtime that has published nothing.
pub open spec fn on_board<S>(board: Board<S>, unconfigured: S) -> S {
    match board.published {
        Some(snapshot) => snapshot,
        None => unconfigured,
    }
}

/// The snapshot a source reads.
pub open spec fn seen<S>(source: Source<S>, board: Board<S>, unconfigured: S) -> S {
    match source {
        Source::Fixed(snapshot) => snapshot,
        Source::Published => on_board(board, unconfigured),
    }
}

impl<S> Board<S> {
    /// A process that has published nothing yet.
    pub fn new() -> (r: Self)
        ensures
            r.published is None,
            r.revision == 0,
    {
        Board { published: None, revision: 0 }
    }

    pub fn announce_change(&mut self)
        ensures
            final(self).published == old(self).published,
            final(self).revision == next_revision(old(self).revision),
    {
        self.revision = if self.revision == u64::MAX {
            1
        } else {
            self.revision + 1
        };
    }

    /// Publish the node's current snapshot for surfaces to read.
    pub fn publish(&mut self, snapshot: S)
        ensures
            final(self).published == Some(snapshot),
            final(self).revision == next_revision(old(self).revision),
    {
        self.published = Some(snapshot);
        self.announce_change();
    }
}

impl<S> Source<S> {
    /// Change the snapshot this source reads: in place for `Fixed`, on the board
    /// for `Published`. An operator pausing a live table changes what every live
    /// table then reads.
    pub fn mutate<R, C: FnOnce(S) -> (S, R)>(
        self,
        board: Board<S>,
        unconfigured: S,
        change: C,
    ) -> (r: (Source<S>, Board<S>, R))
        requires
            change.requires((seen(self, board, unconfigured),)),
        ensures
            match self {
                Source::Fixed(snapshot) => {
                    &&& r.0 matches Source::Fixed(changed)
                    &&& r.1 == board
                    &&& change.ensures((snapshot,), (changed, r.2))
                },
                Source::Published => {
                    &&& r.0 is Published
                    &&& r.1.published matches Some(changed)
                    &&& r.1.revision == board.revision
                    &&& change.ensures((on_board(board, unconfigured),), (changed, r.2))
                },
            },
    {
        match self {
            Source::Fixed(snapshot) => {
                let (changed, said) = change(snapshot);
                (Source::Fixed(changed), board, said)
            },
            Source::Published => {
                let snapshot = match board.published {
                    Some(snapshot) => snapshot,
                    None => unconfigured,
                };
                let (changed, said) = change(snapshot);
                (
                    Source::Published,
                    Board { published: Some(changed), revision: board.revision },
                    said,
                )
            },
        }
    }
}

impl<S> Operator<S> {
    /// A table over one fixed snapshot.
    pub fn new(snapshot: S) -> (r: Self)
        ensures
            r.source == Source::Fixed(snapshot),
            r.held_health@.len() == 0,
            r.held_count is None,
    {
        Operator { source: Source::Fixed(snapshot), held_health: Vec::new(), held_count: None }
    }

    /// Replace the snapshot. The next call reads the new one; what the last one
    /// handed out stays until then.
    pub fn publish(&mut self, snapshot: S)
        ensures
            final(self).source == Source::Fixed(snapshot),
            final(self).held_health == old(self).held_health,
            final(self).held_count == old(self).held_count,
    {
        self.source = Source::Fixed(snapshot);
    }

    /// A table over whatever is published, read at each call.
    pub fn live() -> (r: Self)
        ensures
            r.source == Source::<S>::Published,
            r.held_health@.len() == 0,
            r.held_count is None,
    {
        Operator { source: Source::Published, held_health: Vec::new(), held_count: None }
    }

    /// The snapshot to answer from. `unconfigured` stands for a runtime that has
    /// published nothing.
    pub fn snapshot<'a>(&'a self, board: &'a Board<S>, unconfigured: &'a S) -> (r: &'a S)
        ensures
            *r == seen(self.source, *board, *unconfigured),
    {
        match &self.source {
            Source::Fixed(snapshot) => snapshot,
            Source::Published => match &board.published {
                Some(snapshot) => snapshot,
                None => unconfigured,
            },
        }
    }
}

/// A live table sees what is published, from whenever it was handed out; a fixed
/// one goes on seeing what it was made over.
pub proof fn law_a_live_table_sees_what_is_published<S>(
    before: Board<S>,
    after: Board<S>,
    snapshot: S,
    own: S,
    unconfigured: S,
)
    requires
        after.published == Some(snapshot),
    ensures
        seen(Source::Published, after, unconfigured) == snapshot,
        seen(Source::Fixed(own), after, unconfigured) == seen(
            Source::Fixed(own),
            before,
            unconfigured,
        ),
{
}

/// Every change is noticed: a revision differs from the one before it, and from
/// the zero of a surface that has seen none. It is the greater one until the
/// numbers run out.
pub proof fn law_every_change_is_noticed(revision: u64)
    ensures
        next_revision(revision) != revision,
        next_revision(revision) != 0,
        revision < u64::MAX ==> next_revision(revision) > revision,
{
}

/// A live table answers from what is on the board at the moment it is asked, and
/// from what stands for an unconfigured runtime only while nothing is there; a
/// fixed one answers from its own snapshot whatever is on the board.
pub proof fn law_a_table_answers_from_its_source<S>(
    operator: Operator<S>,
    board: Board<S>,
    unconfigured: S,
    answered: &S,
    live: Operator<S>,
    own: S,
    fixed: Operator<S>,
)
    requires
        call_ensures(Operator::<S>::snapshot, (&operator, &board, &unconfigured), answered),
        call_ensures(Operator::<S>::live, (), live),
        call_ensures(Operator::<S>::new, (own,), fixed),
    ensures
        operator.source == live.source ==> (board.published matches Some(snapshot) ==> *answered
            == snapshot),
        operator.source == live.source && board.published is None ==> *answered == unconfigured,
        operator.source == fixed.source ==> *answered == own,
        live.source != fixed.source,
        live.held_health@.len() == 0 && live.held_count is None,
        fixed.held_health@.len() == 0 && fixed.held_count is None,
{
}

/// Changing a fixed table changes its own snapshot and leaves the board alone;
/// changing a live one changes what stands on the board, and with it what every
/// live table then reads, and leaves the table live.
pub proof fn law_a_change_lands_where_the_table_reads<S, R, C: FnOnce(S) -> (S, R)>(
    source: Source<S>,
    board: Board<S>,
    unconfigured: S,
    change: C,
    r: (Source<S>, Board<S>, R),
)
    requires
        call_ensures(Source::<S>::mutate::<R, C>, (source, board, unconfigured, change), r),
    ensures
        source matches Source::Fixed(snapshot) ==> {
            &&& r.1 == board
            &&& r.0 is Fixed
            &&& change.ensures((snapshot,), (r.0->Fixed_0, r.2))
        },
        source is Published ==> {
            &&& r.0 is Published
            &&& r.1.published is Some
            &&& r.1.revision == board.revision
            &&& change.ensures(
                (match board.published {
                    Some(snapshot) => snapshot,
                    None => unconfigured,
                },),
                (r.1.published->0, r.2),
            )
        },
{
}

/// Publishing puts the snapshot on the board and moves the revision on by one,
/// and announcing a change moves it on and leaves the snapshot; once the numbers
/// have run out it begins again at one.
pub proof fn law_publishing_moves_the_revision_on<S>(
    board: &mut Board<S>,
    other: &mut Board<S>,
    snapshot: S,
    empty: Board<S>,
)
    requires
        call_ensures(Board::<S>::publish, (board, snapshot), ()),
        call_ensures(Board::<S>::announce_change, (other,), ()),
        call_ensures(Board::<S>::new, (), empty),
    ensures
        final(board).published == Some(snapshot),
        old(board).revision < u64::MAX ==> final(board).revision == old(board).revision + 1,
        old(board).revision == u64::MAX ==> final(board).revision == 1,
        final(other).published == old(other).published,
        old(other).revision < u64::MAX ==> final(other).revision == old(other).revision + 1,
        old(other).revision == u64::MAX ==> final(other).revision == 1,
        empty.published is None && empty.revision == 0,
{
}

/// A table that is given another snapshot reads that one from then on, and what
/// it handed out last stays as it was.
pub proof fn law_a_table_reads_what_it_was_given<S>(
    operator: &mut Operator<S>,
    snapshot: S,
    board: Board<S>,
    unconfigured: S,
    answered: &S,
)
    requires
        call_ensures(Operator::<S>::publish, (operator, snapshot), ()),
        call_ensures(Operator::<S>::snapshot, (final(operator), &board, &unconfigured), answered),
    ensures
        *answered == snapshot,
        final(operator).held_health@ == old(operator).held_health@,
        final(operator).held_count == old(operator).held_count,
{
}

} // verus!
