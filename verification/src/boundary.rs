//! The shapes everything crosses the C boundary in: text as bytes, lists that
//! fill what room there is, and sentences written into a buffer.

use vstd::prelude::*;
use vstd::string::*;

verus! {

/// A list as the header hands it over: as many entries as there is room for,
/// and how many there are.
#[derive(Debug, PartialEq, Eq)]
pub struct Filled<T> {
    pub entries: Vec<T>,
    pub count: usize,
}

/// A sentence as the header hands it over: as many bytes as there is room for,
/// and how many there are.
#[derive(Debug, PartialEq, Eq)]
pub struct Written {
    pub bytes: Vec<u8>,
    pub length: usize,
}

/// As much of `items` as there is room for.
pub open spec fn as_fits<T>(items: Seq<T>, room: nat) -> Seq<T> {
    if items.len() <= room {
        items
    } else {
        items.take(room as int)
    }
}

/// `filled` is what `items` come to in a room for `cap`.
pub open spec fn fills<T>(filled: Filled<T>, items: Seq<T>, cap: usize) -> bool {
    &&& filled.entries@ == as_fits(items, cap as nat)
    &&& filled.count == items.len()
}

/// `written` is what a sentence comes to in a buffer of `cap` bytes.
pub open spec fn writes(written: Written, sentence: Seq<char>, cap: usize) -> bool {
    &&& written.bytes@ == as_fits(vstd::utf8::encode_utf8(sentence), cap as nat)
    &&& written.length == vstd::utf8::encode_utf8(sentence).len()
}

/// `core::str::from_utf8`: the bytes as text where they are UTF-8, and nothing
/// where they are not.
#[verifier::external_body]
fn from_utf8(bytes: &[u8]) -> (r: Option<&str>)
    ensures
        (r is Some) == vstd::utf8::valid_utf8(bytes@),
        r matches Some(text) ==> text.spec_bytes() == bytes@,
{
    core::str::from_utf8(bytes).ok()
}

/// What `bytes` read as, where they are UTF-8. Nothing handed over reads as
/// empty text.
pub open spec fn reading(bytes: Option<&[u8]>) -> Option<Seq<char>> {
    match bytes {
        None => Some(Seq::empty()),
        Some(bytes) => if vstd::utf8::valid_utf8(bytes@) {
            Some(vstd::utf8::decode_utf8(bytes@))
        } else {
            None
        },
    }
}

/// The text a surface passed, or `None` if it is not UTF-8. A null pointer,
/// which is no bytes at all, is empty text.
pub fn scope_text<'a>(bytes: Option<&'a [u8]>) -> (r: Option<&'a str>)
    ensures
        (r is Some) == (reading(bytes) is Some),
        r matches Some(text) ==> text@ == reading(bytes)->0,
{
    match bytes {
        None => {
            let nothing = "";
            proof {
                reveal_strlit("");
                assert(nothing@ =~= Seq::empty());
            }
            Some(nothing)
        },
        Some(bytes) => {
            let text = from_utf8(bytes);
            proof {
                if let Some(found) = text {
                    vstd::utf8::encode_utf8_decode_utf8(found@);
                }
            }
            text
        },
    }
}

/// The header's fill shape: up to `cap` entries, and the true count.
pub fn fill_copied<T: Copy>(items: &[T], cap: usize) -> (r: Filled<T>)
    ensures
        fills(r, items@, cap),
{
    let mut entries: Vec<T> = Vec::new();
    let mut at: usize = 0;
    while at < items.len() && at < cap
        invariant
            at <= items@.len(),
            at <= cap,
            entries@ == items@.take(at as int),
        decreases items@.len() - at,
    {
        entries.push(items[at]);
        at += 1;
        assert(entries@ =~= items@.take(at as int));
    }
    assert(entries@ =~= as_fits(items@, cap as nat));
    Filled { entries, count: items.len() }
}

/// A sentence as UTF-8, up to `cap` bytes, and its true length whether or not it
/// fits.
pub fn refuse(sentence: &str, cap: usize) -> (r: Written)
    ensures
        writes(r, sentence@, cap),
{
    let bytes = sentence.as_bytes();
    let filled = fill_copied(bytes, cap);
    Written { bytes: filled.entries, length: filled.count }
}

/// No bytes at all.
pub fn nothing_said() -> (r: Written)
    ensures
        r.bytes@.len() == 0,
        r.length == 0,
{
    Written { bytes: Vec::new(), length: 0 }
}

/// Nothing is cut off in silence: the count is the whole list's whatever the
/// room, and asking again with that much room gives the whole list.
pub proof fn law_a_short_buffer_is_told_the_true_count<T>(
    items: Seq<T>,
    short: Filled<T>,
    cap: usize,
    again: Filled<T>,
)
    requires
        fills(short, items, cap),
        fills(again, items, short.count),
    ensures
        again.entries@ == items,
        short.entries@ == again.entries@.take(short.entries@.len() as int),
{
    assert(short.entries@ =~= again.entries@.take(short.entries@.len() as int));
}

/// A sentence that fits reads back as it was said.
pub proof fn law_a_sentence_that_fits_reads_back(written: Written, sentence: Seq<char>, cap: usize)
    requires
        writes(written, sentence, cap),
        written.length <= cap,
    ensures
        vstd::utf8::valid_utf8(written.bytes@),
        vstd::utf8::decode_utf8(written.bytes@) == sentence,
{
    vstd::utf8::encode_utf8_valid_utf8(sentence);
    vstd::utf8::encode_utf8_decode_utf8(sentence);
}

/// A list fills what room there is from its beginning, item for item, and the
/// count is the list's own.
pub proof fn law_a_list_fills_what_room_there_is<T: Copy>(
    items: &[T],
    cap: usize,
    filled: Filled<T>,
)
    requires
        call_ensures(fill_copied::<T>, (items, cap), filled),
    ensures
        filled.count == items@.len(),
        items@.len() <= cap ==> filled.entries@.len() == items@.len(),
        items@.len() > cap ==> filled.entries@.len() == cap,
        forall|i: int|
            0 <= i < filled.entries@.len() ==> #[trigger] filled.entries@[i] == items@[i],
{
}

/// A sentence is written as its own UTF-8, from the beginning, as far as there
/// is room; the length is that of the whole sentence.
pub proof fn law_a_sentence_is_written_from_its_beginning(
    sentence: &str,
    cap: usize,
    written: Written,
)
    requires
        call_ensures(refuse, (sentence, cap), written),
    ensures
        written.length == vstd::utf8::encode_utf8(sentence@).len(),
        written.bytes@.len() <= cap,
        written.bytes@.len() <= written.length,
        written.bytes@.len() == cap || written.bytes@.len() == written.length,
        forall|i: int|
            0 <= i < written.bytes@.len() ==> #[trigger] written.bytes@[i]
                == vstd::utf8::encode_utf8(sentence@)[i],
{
}

/// What is handed over reads as the text whose UTF-8 it is, no bytes at all read
/// as empty text, and what is not UTF-8 reads as nothing.
pub proof fn law_text_crosses_as_its_utf8(
    text: Seq<char>,
    bytes: &[u8],
    read: Option<&str>,
    nothing: Option<&str>,
)
    requires
        call_ensures(scope_text, (Some(bytes),), read),
        call_ensures(scope_text, (None::<&[u8]>,), nothing),
    ensures
        bytes@ == vstd::utf8::encode_utf8(text) ==> read is Some && read->0@ == text,
        read is Some <==> vstd::utf8::valid_utf8(bytes@),
        nothing is Some && nothing->0@.len() == 0,
{
    vstd::utf8::encode_utf8_valid_utf8(text);
    vstd::utf8::encode_utf8_decode_utf8(text);
}

} // verus!
