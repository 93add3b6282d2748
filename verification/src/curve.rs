//! A node's throughput over time, laid out in the header's measurements.
//!
//! Reading the text belongs to whoever owns the history file's shape and is
//! handed in.

use vstd::prelude::*;

use crate::abi::Status;
use crate::boundary;
use crate::boundary::{fill_copied, scope_text, Filled};
use crate::observe::Count;
use crate::publication;
use crate::publication::{lay_counts, open, Measurement, Opened};
use crate::rule;
use crate::wire::CountedCodes;

verus! {

/// A curve as it was read.
#[derive(Debug)]
pub struct Curve {
    pub points: Vec<Count>,
}

/// A curve's points in the header's values.
#[derive(Debug)]
pub struct Read<'a> {
    pub points: Vec<Measurement<'a>>,
}

impl<'a> Read<'a> {
    pub fn of(curve: &'a Curve, codes: &CountedCodes) -> (r: Self)
        ensures
            publication::laid_counts(curve.points@, *codes, r.points@),
    {
        Read { points: lay_counts(&curve.points, codes) }
    }
}

/// Read a curve, or say in the reader's words why not.
pub fn xmip_curve_read_v1<'a, F: Fn(&'a str) -> Result<Curve, String>>(
    text: Option<&'a [u8]>,
    cap: usize,
    read: F,
) -> (r: Result<Opened<Curve>, Status>)
    requires
        rule::takes_text(read),
    ensures
        (r is Ok) == (boundary::reading(text) is Some),
        r matches Err(status) ==> status == Status::Malformed,
        r matches Ok(opened) ==> exists|said: Result<Curve, String>| #[trigger]
            rule::says(read, boundary::reading(text)->0, said) && publication::opens(
                opened,
                said,
                cap,
            ),
{
    match scope_text(text) {
        Some(text) => {
            let said = read(text);
            assert(rule::says(read, text@, said));
            Ok(open(said, cap))
        },
        None => Err(Status::Malformed),
    }
}

/// The curve's points.
pub fn xmip_curve_points_v1<'a>(held: Option<&Read<'a>>, cap: usize) -> (r: Result<
    Filled<Measurement<'a>>,
    Status,
>)
    ensures
        publication::listed(
            match held {
                Some(read) => Some(read.points@),
                None => None,
            },
            cap,
            r,
        ),
{
    match held {
        Some(read) => Ok(fill_copied(read.points.as_slice(), cap)),
        None => Err(Status::Invalid),
    }
}

/// A curve crosses point for point, each with everything it says, and behind a
/// handle its points are listed from the first as far as there is room, with
/// their true count.
pub proof fn law_a_curve_crosses_point_for_point<'a>(
    curve: &'a Curve,
    codes: CountedCodes,
    read: Read<'a>,
    cap: usize,
    listed: Result<Filled<Measurement<'a>>, Status>,
    nothing: Result<Filled<Measurement<'a>>, Status>,
    at: int,
)
    requires
        call_ensures(Read::<'a>::of, (curve, &codes), read),
        call_ensures(xmip_curve_points_v1, (Some(&read), cap), listed),
        call_ensures(xmip_curve_points_v1, (None::<&Read<'a>>, cap), nothing),
    ensures
        listed matches Ok(filled) && filled.count == curve.points@.len() && filled.entries@.len()
            <= cap,
        0 <= at < cap && at < curve.points@.len() ==> {
            let point = curve.points@[at];
            &&& at < listed->Ok_0.entries@.len()
            &&& listed->Ok_0.entries@[at].scope@ == point.scope@
            &&& listed->Ok_0.entries@[at].counted == codes.code(point.counted)
            &&& listed->Ok_0.entries@[at].value == point.value
            &&& listed->Ok_0.entries@[at].window_start_unix_nanos == point.window_start_unix_nanos
            &&& listed->Ok_0.entries@[at].window_end_unix_nanos == point.window_end_unix_nanos
            &&& listed->Ok_0.entries@[at].observed_unix_nanos == point.observed_unix_nanos
        },
        nothing matches Err(status) && status == Status::Invalid,
{
    if 0 <= at < cap && at < curve.points@.len() {
        assert(read.points@[at] == publication::laid_count(&curve.points@[at], codes));
    }
}

/// A curve is read by its owner: what the owner read is held, and where the
/// owner refuses it, nothing is, and the owner's sentence goes back with its
/// true length. What is no text never gets there.
pub proof fn law_a_curve_is_read_by_its_owner<'a, F: Fn(&'a str) -> Result<Curve, String>>(
    text: Option<&'a [u8]>,
    cap: usize,
    read: F,
    owner: spec_fn(Seq<char>) -> Result<Curve, Seq<char>>,
    r: Result<Opened<Curve>, Status>,
)
    requires
        forall|asked: &'a str, said: Result<Curve, String>| #[trigger]
            read.ensures((asked,), said) ==> match said {
                Ok(curve) => owner(asked@) == Ok::<Curve, Seq<char>>(curve),
                Err(sentence) => owner(asked@) == Err::<Curve, Seq<char>>(sentence@),
            },
        call_ensures(xmip_curve_read_v1::<F>, (text, cap, read), r),
    ensures
        match boundary::reading(text) {
            Some(asked) => match owner(asked) {
                Ok(curve) => r is Ok && r->Ok_0.status == Status::Okay && r->Ok_0.held == Some(
                    curve,
                ) && r->Ok_0.report.length == 0,
                Err(sentence) => r is Ok && r->Ok_0.status == Status::Invalid && r->Ok_0.held
                    is None && r->Ok_0.report.length == vstd::utf8::encode_utf8(sentence).len(),
            },
            None => r is Err && r->Err_0 == Status::Malformed,
        },
{
}

} // verus!
