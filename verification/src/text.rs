//! Text: what a report, a refusal or a service definition is put together
//! from.

use vstd::prelude::*;
use vstd::string::*;

verus! {

/// What each of `parts` reads as.
pub open spec fn read(parts: Seq<String>) -> Seq<Seq<char>> {
    parts.map_values(|part: String| part@)
}

/// `parts` one after the other, with `between` between each two.
pub open spec fn joined(parts: Seq<Seq<char>>, between: Seq<char>) -> Seq<char>
    decreases parts.len(),
{
    if parts.len() == 0 {
        Seq::empty()
    } else if parts.len() == 1 {
        parts[0]
    } else {
        joined(parts.drop_last(), between) + between + parts.last()
    }
}

/// What `said` has to say of each item, in the items' order.
pub open spec fn gathered<T, U>(items: Seq<T>, said: spec_fn(T) -> Seq<U>) -> Seq<U>
    decreases items.len(),
{
    if items.len() == 0 {
        Seq::empty()
    } else {
        gathered(items.drop_last(), said) + said(items.last())
    }
}

/// One line, or nothing: `line` where `wrong` holds.
pub open spec fn line_if(wrong: bool, line: Seq<char>) -> Seq<Seq<char>> {
    if wrong {
        seq![line]
    } else {
        Seq::empty()
    }
}

/// A character of Unicode's `White_Space` property.
pub open spec fn white_space(c: char) -> bool {
    ||| '\u{9}' <= c <= '\u{d}'
    ||| c == '\u{20}'
    ||| c == '\u{85}'
    ||| c == '\u{a0}'
    ||| c == '\u{1680}'
    ||| '\u{2000}' <= c <= '\u{200a}'
    ||| c == '\u{2028}'
    ||| c == '\u{2029}'
    ||| c == '\u{202f}'
    ||| c == '\u{205f}'
    ||| c == '\u{3000}'
}

/// Text that says nothing: empty, or white space from end to end.
pub open spec fn blank(text: Seq<char>) -> bool {
    forall|i: int| 0 <= i < text.len() ==> white_space(#[trigger] text[i])
}

/// The decimal digits of `n`, without leading zeros.
pub open spec fn decimal(n: nat) -> Seq<char>
    decreases n,
{
    if n < 10 {
        seq![digit(n)]
    } else {
        decimal(n / 10).push(digit(n % 10))
    }
}

/// The digit of a number below ten.
pub open spec fn digit(n: nat) -> char {
    (('0' as u32) + n) as char
}

/// A signed number in decimal.
pub open spec fn signed_decimal(n: int) -> Seq<char> {
    if n < 0 {
        seq!['-'] + decimal((-n) as nat)
    } else {
        decimal(n as nat)
    }
}

/// `a` comes before `b` where texts are ordered character by character, by
/// code point, and a text comes after its own beginnings.
pub open spec fn before(a: Seq<char>, b: Seq<char>) -> bool
    decreases a.len(),
{
    if b.len() == 0 {
        false
    } else if a.len() == 0 {
        true
    } else if a[0] != b[0] {
        a[0] < b[0]
    } else {
        before(a.drop_first(), b.drop_first())
    }
}

/// `part` stands in `text`, beginning at `at`.
pub open spec fn stands_at(text: Seq<char>, part: Seq<char>, at: int) -> bool {
    &&& 0 <= at
    &&& at + part.len() <= text.len()
    &&& text.subrange(at, at + part.len()) == part
}

/// `part` stands somewhere in `text`.
pub open spec fn holds(text: Seq<char>, part: Seq<char>) -> bool {
    exists|at: int| stands_at(text, part, at)
}

/// A text holds what it was put together from.
pub proof fn lemma_holds(opening: Seq<char>, part: Seq<char>, closing: Seq<char>)
    ensures
        holds(opening + part + closing, part),
{
    let text = opening + part + closing;
    let at = opening.len() as int;
    assert(text.subrange(at, at + part.len()) =~= part);
    assert(stands_at(text, part, at));
}

/// What a part of a text holds, the text holds.
pub proof fn lemma_holds_within(
    opening: Seq<char>,
    middle: Seq<char>,
    closing: Seq<char>,
    part: Seq<char>,
)
    requires
        holds(middle, part),
    ensures
        holds(opening + middle + closing, part),
{
    let at = choose|at: int| stands_at(middle, part, at);
    let text = opening + middle + closing;
    let there = opening.len() as int + at;
    assert(text.subrange(there, there + part.len()) =~= middle.subrange(at, at + part.len()));
    assert(stands_at(text, part, there));
}

/// What was joined is held by what it was joined to.
pub proof fn lemma_joined_holds(parts: Seq<Seq<char>>, between: Seq<char>, at: int)
    requires
        0 <= at < parts.len(),
    ensures
        holds(joined(parts, between), parts[at]),
    decreases parts.len(),
{
    let all = joined(parts, between);
    if parts.len() == 1 {
        assert(all =~= Seq::<char>::empty() + parts[at] + Seq::<char>::empty());
        lemma_holds(Seq::empty(), parts[at], Seq::empty());
    } else if at == parts.len() - 1 {
        let rest = joined(parts.drop_last(), between) + between;
        assert(all =~= rest + parts[at] + Seq::<char>::empty());
        lemma_holds(rest, parts[at], Seq::empty());
    } else {
        let rest = joined(parts.drop_last(), between);
        lemma_joined_holds(parts.drop_last(), between, at);
        assert(all =~= Seq::<char>::empty() + rest + (between + parts.last()));
        lemma_holds_within(Seq::empty(), rest, between + parts.last(), parts[at]);
    }
}

/// `text` ends in `ending`.
pub open spec fn ends_in(text: Seq<char>, ending: Seq<char>) -> bool {
    &&& ending.len() <= text.len()
    &&& text.subrange(text.len() - ending.len(), text.len() as int) == ending
}

/// A text ends in what was put last.
pub proof fn lemma_ends_in(opening: Seq<char>, ending: Seq<char>)
    ensures
        ends_in(opening + ending, ending),
{
    let text = opening + ending;
    assert(text.subrange(text.len() - ending.len(), text.len() as int) =~= ending);
}

/// Two openings under the same ending are the same where the texts are.
pub proof fn lemma_same_ending(one: Seq<char>, other: Seq<char>, ending: Seq<char>)
    requires
        one + ending == other + ending,
    ensures
        one == other,
{
    assert((one + ending).len() == (other + ending).len());
    assert(one =~= (one + ending).take(one.len() as int));
    assert(other =~= (other + ending).take(other.len() as int));
}

/// Two endings after the same opening are the same where the texts are.
pub proof fn lemma_same_opening(opening: Seq<char>, one: Seq<char>, other: Seq<char>)
    requires
        opening + one == opening + other,
    ensures
        one == other,
{
    assert((opening + one).len() == (opening + other).len());
    assert(one =~= (opening + one).skip(opening.len() as int));
    assert(other =~= (opening + other).skip(opening.len() as int));
}

/// What follows the last of a character, and what precedes it, can be told
/// from the text.
proof fn lemma_parted_last(
    one: Seq<char>,
    last: Seq<char>,
    other: Seq<char>,
    end: Seq<char>,
    between: char,
)
    requires
        !last.contains(between),
        !end.contains(between),
        one + seq![between] + last == other + seq![between] + end,
    ensures
        one == other,
        last == end,
{
    let text = one + seq![between] + last;
    let same = other + seq![between] + end;
    assert(text.len() == one.len() + 1 + last.len());
    assert(same.len() == other.len() + 1 + end.len());
    assert(text[one.len() as int] == between);
    assert(same[other.len() as int] == between);
    if one.len() < other.len() {
        let at = other.len() - one.len() - 1;
        assert(text[other.len() as int] == last[at]);
    } else if other.len() < one.len() {
        let at = one.len() - other.len() - 1;
        assert(same[one.len() as int] == end[at]);
    }
    assert(one =~= text.take(one.len() as int) && other =~= same.take(other.len() as int));
    assert(last =~= text.skip(one.len() as int + 1) && end =~= same.skip(other.len() as int + 1));
}

/// Parts that do not hold the character between them can be told from what
/// they were joined to.
pub proof fn lemma_joined_apart(one: Seq<Seq<char>>, other: Seq<Seq<char>>, between: char)
    requires
        one.len() > 0,
        other.len() > 0,
        forall|i: int| 0 <= i < one.len() ==> !(#[trigger] one[i]).contains(between),
        forall|i: int| 0 <= i < other.len() ==> !(#[trigger] other[i]).contains(between),
        joined(one, seq![between]) == joined(other, seq![between]),
    ensures
        one == other,
    decreases one.len(),
{
    let text = joined(one, seq![between]);
    if one.len() == 1 && other.len() == 1 {
        assert(one =~= other);
    } else if one.len() == 1 {
        let rest = joined(other.drop_last(), seq![between]);
        assert(text[rest.len() as int] == between);
        assert(one[0].contains(between));
    } else if other.len() == 1 {
        let rest = joined(one.drop_last(), seq![between]);
        assert(text[rest.len() as int] == between);
        assert(other[0].contains(between));
    } else {
        let a = joined(one.drop_last(), seq![between]);
        let b = joined(other.drop_last(), seq![between]);
        lemma_parted_last(a, one.last(), b, other.last(), between);
        lemma_joined_apart(one.drop_last(), other.drop_last(), between);
        assert(one =~= one.drop_last().push(one.last()));
        assert(other =~= other.drop_last().push(other.last()));
    }
}

/// No text comes before itself, and of two different ones exactly one comes
/// before the other.
pub proof fn lemma_before_is_total(a: Seq<char>, b: Seq<char>)
    ensures
        before(a, b) ==> a != b && !before(b, a),
        a != b ==> before(a, b) || before(b, a),
    decreases a.len(),
{
    if a.len() > 0 && b.len() > 0 && a[0] == b[0] {
        lemma_before_is_total(a.drop_first(), b.drop_first());
        assert(a =~= seq![a[0]] + a.drop_first());
        assert(b =~= seq![b[0]] + b.drop_first());
    } else if a.len() == 0 && b.len() == 0 {
        assert(a =~= b);
    }
}

/// What comes before something comes before everything after it.
pub proof fn lemma_before_is_transitive(a: Seq<char>, b: Seq<char>, c: Seq<char>)
    requires
        before(a, b),
        before(b, c),
    ensures
        before(a, c),
    decreases a.len(),
{
    if a.len() > 0 && a[0] == b[0] && b[0] == c[0] {
        lemma_before_is_transitive(a.drop_first(), b.drop_first(), c.drop_first());
    }
}

/// Reading one more item adds what is said of it at the end.
pub proof fn lemma_gathered_step<T, U>(items: Seq<T>, at: int, said: spec_fn(T) -> Seq<U>)
    requires
        0 <= at < items.len(),
    ensures
        gathered(items.take(at + 1), said) == gathered(items.take(at), said) + said(items[at]),
{
    assert(items.take(at + 1).drop_last() =~= items.take(at));
}

/// Nothing is gathered where nothing is said of any item, and only there.
pub proof fn lemma_gathered_empty<T, U>(items: Seq<T>, said: spec_fn(T) -> Seq<U>)
    ensures
        gathered(items, said).len() == 0 <==> forall|i: int|
            0 <= i < items.len() ==> said(#[trigger] items[i]).len() == 0,
    decreases items.len(),
{
    if items.len() > 0 {
        let rest = items.drop_last();
        lemma_gathered_empty(rest, said);
        if gathered(items, said).len() == 0 {
            assert forall|i: int| 0 <= i < items.len() implies said(#[trigger] items[i]).len()
                == 0 by {
                if i < rest.len() {
                    assert(rest[i] == items[i]);
                }
            }
        }
        if forall|i: int| 0 <= i < items.len() ==> said(#[trigger] items[i]).len() == 0 {
            assert forall|i: int| 0 <= i < rest.len() implies said(#[trigger] rest[i]).len()
                == 0 by {
                assert(rest[i] == items[i]);
            }
        }
    }
}

/// One more line at the end.
pub fn push_line(lines: &mut Vec<String>, line: String)
    ensures
        read(final(lines)@) == read(old(lines)@) + seq![line@],
{
    lines.push(line);
    assert(read(lines@) =~= read(old(lines)@) + seq![line@]);
}

/// Whether two texts read the same.
pub fn same(a: &str, b: &str) -> (r: bool)
    ensures
        r == (a@ == b@),
{
    a.to_string() == b.to_string()
}

/// Whether `c` has Unicode's `White_Space` property.
pub fn is_white_space(c: char) -> (r: bool)
    ensures
        r == white_space(c),
{
    ('\u{9}' <= c && c <= '\u{d}') || c == '\u{20}' || c == '\u{85}' || c == '\u{a0}' || c
        == '\u{1680}' || ('\u{2000}' <= c && c <= '\u{200a}') || c == '\u{2028}' || c == '\u{2029}'
        || c == '\u{202f}' || c == '\u{205f}' || c == '\u{3000}'
}

/// Whether `text` says nothing: nothing is left of it once the white space
/// at its ends is gone.
pub fn is_blank(text: &str) -> (r: bool)
    ensures
        r == blank(text@),
{
    for c in it: text.chars()
        invariant
            it.seq() == text@,
            forall|i: int| 0 <= i < it.index() ==> white_space(#[trigger] text@[i]),
    {
        if !is_white_space(c) {
            return false;
        }
    }
    true
}

/// `parts` as one text, `between` between each two.
pub fn join(parts: &[String], between: &str) -> (r: String)
    ensures
        r@ == joined(read(parts@), between@),
{
    let mut text = String::new();
    let mut at: usize = 0;
    while at < parts.len()
        invariant
            at <= parts@.len(),
            text@ == joined(read(parts@).take(at as int), between@),
        decreases parts@.len() - at,
    {
        let ghost done = read(parts@).take(at as int);
        let ghost next = read(parts@).take(at + 1);
        if at > 0 {
            text.append(between);
        }
        text.append(parts[at].as_str());
        proof {
            assert(next.drop_last() =~= done);
            assert(next.last() == parts@[at as int]@);
            if at == 0 {
                assert(Seq::<char>::empty() + parts@[0]@ =~= parts@[0]@);
            }
        }
        at += 1;
    }
    assert(read(parts@).take(parts@.len() as int) =~= read(parts@));
    text
}

/// A number in decimal.
pub fn decimal_text(n: u64) -> (r: String)
    ensures
        r@ == decimal(n as nat),
    decreases n,
{
    if n < 10 {
        let mut text = String::new();
        push_digit(&mut text, n as u8);
        assert(text@ =~= decimal(n as nat));
        text
    } else {
        let mut text = decimal_text(n / 10);
        push_digit(&mut text, (n % 10) as u8);
        text
    }
}

/// A signed number in decimal.
pub fn signed_decimal_text(n: i64) -> (r: String)
    ensures
        r@ == signed_decimal(n as int),
{
    if n < 0 {
        let positive: u64 = (-(n as i128)) as u64;
        let text = "-".to_string().concat(decimal_text(positive).as_str());
        proof {
            reveal_strlit("-");
            assert("-"@ =~= seq!['-']);
        }
        text
    } else {
        decimal_text(n as u64)
    }
}

fn push_digit(text: &mut String, n: u8)
    requires
        n < 10,
    ensures
        final(text)@ == old(text)@.push(digit(n as nat)),
{
    let said = match n {
        0 => "0",
        1 => "1",
        2 => "2",
        3 => "3",
        4 => "4",
        5 => "5",
        6 => "6",
        7 => "7",
        8 => "8",
        _ => "9",
    };
    proof {
        reveal_strlit("0");
        reveal_strlit("1");
        reveal_strlit("2");
        reveal_strlit("3");
        reveal_strlit("4");
        reveal_strlit("5");
        reveal_strlit("6");
        reveal_strlit("7");
        reveal_strlit("8");
        reveal_strlit("9");
        assert(said@ =~= seq![digit(n as nat)]);
        assert(text@ + said@ =~= text@.push(digit(n as nat)));
    }
    text.append(said);
}

/// The characters of `text`.
fn characters(text: &str) -> (r: Vec<char>)
    ensures
        r@ == text@,
{
    let mut all: Vec<char> = Vec::new();
    for c in it: text.chars()
        invariant
            it.seq() == text@,
            all@ =~= text@.take(it.index()),
    {
        all.push(c);
    }
    all
}

/// Whether `a` comes before `b`.
pub fn comes_before(a: &str, b: &str) -> (r: bool)
    ensures
        r == before(a@, b@),
{
    let left = characters(a);
    let right = characters(b);
    let mut at: usize = 0;
    assert(a@.skip(0) =~= a@ && b@.skip(0) =~= b@);
    while at < left.len() && at < right.len() && left[at] == right[at]
        invariant
            at <= left@.len(),
            at <= right@.len(),
            left@ == a@,
            right@ == b@,
            before(a@, b@) == before(a@.skip(at as int), b@.skip(at as int)),
        decreases left@.len() - at,
    {
        assert(a@.skip(at as int).drop_first() =~= a@.skip(at + 1));
        assert(b@.skip(at as int).drop_first() =~= b@.skip(at + 1));
        at += 1;
    }
    if at == right.len() {
        false
    } else if at == left.len() {
        true
    } else {
        left[at] < right[at]
    }
}

/// What is gathered of the items is what is said of each, laid end to end.
pub proof fn law_gathered_is_end_to_end<T, U>(items: Seq<T>, said: spec_fn(T) -> Seq<U>)
    ensures
        gathered(items, said) == items.map_values(said).flatten(),
    decreases items.len(),
{
    let lists = items.map_values(said);
    if items.len() > 0 {
        law_gathered_is_end_to_end(items.drop_last(), said);
        assert(lists.drop_last() =~= items.drop_last().map_values(said));
        assert(lists =~= lists.drop_last() + seq![lists.last()]);
        lemma_flatten_last(lists);
    }
}

proof fn lemma_flatten_last<U>(lists: Seq<Seq<U>>)
    requires
        lists.len() > 0,
    ensures
        lists.flatten() == lists.drop_last().flatten() + lists.last(),
    decreases lists.len(),
{
    reveal_with_fuel(Seq::<_>::flatten, 2);
    if lists.len() == 1 {
        assert(lists.drop_first() =~= Seq::<Seq<U>>::empty());
        assert(lists.drop_last() =~= Seq::<Seq<U>>::empty());
        assert(lists.flatten() =~= lists.drop_last().flatten() + lists.last());
    } else {
        lemma_flatten_last(lists.drop_first());
        assert(lists.drop_first().drop_last() =~= lists.drop_last().drop_first());
        assert(lists.drop_first().last() == lists.last());
        assert(lists.flatten() =~= lists.drop_last().flatten() + lists.last());
    }
}

/// Something is among what was gathered exactly where it is said of some item.
pub proof fn law_gathered_holds_what_is_said<T, U>(
    items: Seq<T>,
    said: spec_fn(T) -> Seq<U>,
    line: U,
)
    ensures
        gathered(items, said).contains(line) <==> exists|i: int|
            0 <= i < items.len() && said(#[trigger] items[i]).contains(line),
    decreases items.len(),
{
    if items.len() > 0 {
        let rest = items.drop_last();
        let before = gathered(rest, said);
        let last = said(items.last());
        law_gathered_holds_what_is_said(rest, said, line);
        if gathered(items, said).contains(line) {
            let k = choose|k: int|
                0 <= k < gathered(items, said).len() && gathered(items, said)[k] == line;
            if k < before.len() {
                assert(before[k] == line);
                assert(before.contains(line));
                let i = choose|i: int|
                    0 <= i < rest.len() && said(#[trigger] rest[i]).contains(line);
                assert(rest[i] == items[i]);
            } else {
                assert(last[k - before.len()] == line);
                assert(last.contains(line));
                assert(items[items.len() - 1] == items.last());
            }
        }
        if exists|i: int| 0 <= i < items.len() && said(#[trigger] items[i]).contains(line) {
            let i = choose|i: int|
                0 <= i < items.len() && said(#[trigger] items[i]).contains(line);
            if i < rest.len() {
                assert(rest[i] == items[i]);
                assert(before.contains(line));
                let k = choose|k: int| 0 <= k < before.len() && before[k] == line;
                assert(gathered(items, said)[k] == line);
            } else {
                let k = choose|k: int| 0 <= k < last.len() && last[k] == line;
                assert(gathered(items, said)[before.len() + k] == line);
            }
        }
    }
}

/// A joined text begins with its first part; the rest follows after what stands
/// between. Nothing joined is nothing, and one part alone is itself.
pub proof fn law_parts_are_joined_in_order(parts: &[String], between: &str, text: String)
    requires
        call_ensures(join, (parts, between), text),
    ensures
        parts@.len() == 0 ==> text@.len() == 0,
        parts@.len() > 0 ==> text@ == parts@[0]@ + parts@.skip(1).map_values(
            |part: String| between@ + part@,
        ).flatten(),
{
    if parts@.len() > 0 {
        lemma_joined_front(parts@, between@);
    }
}

proof fn lemma_joined_front(parts: Seq<String>, between: Seq<char>)
    requires
        parts.len() > 0,
    ensures
        joined(read(parts), between) == parts[0]@ + parts.skip(1).map_values(
            |part: String| between + part@,
        ).flatten(),
    decreases parts.len(),
{
    let after = |part: String| between + part@;
    let rest = parts.skip(1).map_values(after);
    if parts.len() == 1 {
        assert(rest =~= Seq::<Seq<char>>::empty());
        assert(joined(read(parts), between) =~= parts[0]@ + rest.flatten());
    } else {
        lemma_joined_front(parts.drop_last(), between);
        assert(read(parts).drop_last() =~= read(parts.drop_last()));
        assert(parts.drop_last().skip(1).map_values(after) =~= rest.drop_last());
        lemma_flatten_last(rest);
        assert(rest.last() == between + parts.last()@);
        assert(joined(read(parts), between) =~= parts[0]@ + rest.flatten());
    }
}

/// The number a text of digits stands for.
pub open spec fn number(digits: Seq<char>) -> int
    decreases digits.len(),
{
    if digits.len() == 0 {
        0
    } else {
        number(digits.drop_last()) * 10 + (digits.last() as int - '0' as int)
    }
}

/// A number that was written down reads back as itself: it is written in digits
/// alone, after a sign where it is negative, and without a zero in front of it.
pub proof fn law_a_number_reads_back(n: u64, written: String, signed: i64, with_sign: String)
    requires
        call_ensures(decimal_text, (n,), written),
        call_ensures(signed_decimal_text, (signed,), with_sign),
    ensures
        number(written@) == n,
        written@.len() > 0,
        forall|i: int| 0 <= i < written@.len() ==> '0' <= #[trigger] written@[i] <= '9',
        written@.len() > 1 ==> written@[0] != '0',
        signed >= 0 ==> number(with_sign@) == signed && (forall|i: int|
            0 <= i < with_sign@.len() ==> '0' <= #[trigger] with_sign@[i] <= '9'),
        signed < 0 ==> with_sign@.len() > 1 && with_sign@[0] == '-' && number(with_sign@.skip(1))
            == -signed,
{
    lemma_decimal(n as nat);
    if signed >= 0 {
        lemma_decimal(signed as nat);
    } else {
        lemma_decimal((-signed) as nat);
        assert(with_sign@.skip(1) =~= decimal((-signed) as nat));
    }
}

proof fn lemma_decimal(n: nat)
    ensures
        number(decimal(n)) == n,
        decimal(n).len() > 0,
        forall|i: int| 0 <= i < decimal(n).len() ==> '0' <= #[trigger] decimal(n)[i] <= '9',
        n > 0 ==> decimal(n)[0] != '0',
        n < 10 ==> decimal(n).len() == 1,
    decreases n,
{
    reveal_with_fuel(number, 2);
    if n >= 10 {
        lemma_decimal(n / 10);
        assert(decimal(n).drop_last() =~= decimal(n / 10));
        assert forall|i: int| 0 <= i < decimal(n).len() implies '0' <= #[trigger] decimal(n)[i]
            <= '9' by {
            if i < decimal(n / 10).len() {
                assert(decimal(n)[i] == decimal(n / 10)[i]);
            }
        }
    } else {
        assert(decimal(n).drop_last() =~= Seq::<char>::empty());
    }
}

/// One text comes before another exactly where it is a proper beginning of it,
/// or has the smaller character at the first place where they differ.
pub proof fn law_texts_are_ordered_at_the_first_difference(a: &str, b: &str, first: bool)
    requires
        call_ensures(comes_before, (a, b), first),
    ensures
        first <==> exists|at: int| #[trigger] differ_first_at(a@, b@, at) && at < b@.len() && (at
            == a@.len() || a@[at] < b@[at]),
{
    lemma_before_at(a@, b@);
}

/// Two texts are the same up to `at`, and not beyond it.
pub open spec fn differ_first_at(a: Seq<char>, b: Seq<char>, at: int) -> bool {
    &&& 0 <= at <= a.len()
    &&& at <= b.len()
    &&& a.take(at) == b.take(at)
    &&& at < a.len() && at < b.len() ==> a[at] != b[at]
}

proof fn lemma_before_at(a: Seq<char>, b: Seq<char>)
    ensures
        before(a, b) <==> exists|at: int| #[trigger] differ_first_at(a, b, at) && at < b.len() && (at
            == a.len() || a[at] < b[at]),
    decreases a.len(),
{
    if b.len() > 0 && a.len() == 0 {
        assert(a.take(0) =~= b.take(0));
        assert(differ_first_at(a, b, 0));
    } else if b.len() > 0 && a[0] != b[0] {
        assert(a.take(0) =~= b.take(0));
        assert(differ_first_at(a, b, 0));
        if exists|at: int| #[trigger] differ_first_at(a, b, at) && at < b.len() && (at == a.len()
            || a[at] < b[at]) {
            let at = choose|at: int| #[trigger] differ_first_at(a, b, at) && at < b.len() && (at
                == a.len() || a[at] < b[at]);
            if at > 0 {
                assert(a.take(at)[0] == a[0] && b.take(at)[0] == b[0]);
            }
        }
    } else if b.len() > 0 {
        let x = a.drop_first();
        let y = b.drop_first();
        lemma_before_at(x, y);
        if before(x, y) {
            let at = choose|at: int| #[trigger] differ_first_at(x, y, at) && at < y.len() && (at
                == x.len() || x[at] < y[at]);
            assert forall|i: int| 0 <= i < at + 1 implies a[i] == b[i] by {
                if i > 0 {
                    assert(x.take(at)[i - 1] == y.take(at)[i - 1]);
                }
            }
            assert(a.take(at + 1) =~= b.take(at + 1));
            assert(differ_first_at(a, b, at + 1));
        }
        if exists|at: int| #[trigger] differ_first_at(a, b, at) && at < b.len() && (at == a.len()
            || a[at] < b[at]) {
            let at = choose|at: int| #[trigger] differ_first_at(a, b, at) && at < b.len() && (at
                == a.len() || a[at] < b[at]);
            assert(at > 0);
            assert forall|i: int| 0 <= i < at - 1 implies x[i] == y[i] by {
                assert(a.take(at)[i + 1] == b.take(at)[i + 1]);
            }
            assert(x.take(at - 1) =~= y.take(at - 1));
            assert(differ_first_at(x, y, at - 1));
        }
    }
}

/// A text says something exactly where one of its characters is not white space,
/// and a character that is printed, a letter or a digit among them, never is.
pub proof fn law_a_character_that_is_printed_says_something(text: &str, nothing: bool)
    requires
        call_ensures(is_blank, (text,), nothing),
    ensures
        text@.len() == 0 ==> nothing,
        (exists|i: int| 0 <= i < text@.len() && '!' <= #[trigger] text@[i] <= '~') ==> !nothing,
        (forall|i: int|
            0 <= i < text@.len() ==> #[trigger] text@[i] == ' ' || text@[i] == '\t' || text@[i]
                == '\n' || text@[i] == '\r') ==> nothing,
{
}

/// What `count` counts of each item, together.
pub open spec fn total<T>(items: Seq<T>, count: spec_fn(T) -> nat) -> nat
    decreases items.len(),
{
    if items.len() == 0 {
        0
    } else {
        count(items[0]) + total(items.drop_first(), count)
    }
}

/// As many lines are gathered as are said of the items together.
pub proof fn law_gathered_counts_what_is_said<T, U>(
    items: Seq<T>,
    said: spec_fn(T) -> Seq<U>,
    count: spec_fn(T) -> nat,
)
    requires
        forall|i: int| 0 <= i < items.len() ==> said(#[trigger] items[i]).len() == count(items[i]),
    ensures
        gathered(items, said).len() == total(items, count),
    decreases items.len(),
{
    if items.len() > 0 {
        let rest = items.drop_last();
        assert forall|i: int| 0 <= i < rest.len() implies said(#[trigger] rest[i]).len() == count(
            rest[i],
        ) by {
            assert(rest[i] == items[i]);
        }
        law_gathered_counts_what_is_said(rest, said, count);
        lemma_total_last(items, count);
        assert(items[items.len() - 1] == items.last());
    }
}

proof fn lemma_total_last<T>(items: Seq<T>, count: spec_fn(T) -> nat)
    requires
        items.len() > 0,
    ensures
        total(items, count) == total(items.drop_last(), count) + count(items.last()),
    decreases items.len(),
{
    reveal_with_fuel(total, 2);
    if items.len() > 1 {
        lemma_total_last(items.drop_first(), count);
        assert(items.drop_first().drop_last() =~= items.drop_last().drop_first());
    } else {
        assert(items.drop_first() =~= Seq::<T>::empty());
        assert(items.drop_last() =~= Seq::<T>::empty());
    }
}

/// The white space there is, by code point: twenty-five characters.
pub open spec fn white_space_points() -> Seq<int> {
    seq![
        9,
        10,
        11,
        12,
        13,
        32,
        133,
        160,
        5760,
        8192,
        8193,
        8194,
        8195,
        8196,
        8197,
        8198,
        8199,
        8200,
        8201,
        8202,
        8232,
        8233,
        8239,
        8287,
        12288,
    ]
}

/// A character is white space exactly where its code point is one of those, and
/// a text is blank exactly where every character of it is.
pub proof fn law_white_space_is_these_characters(
    c: char,
    white: bool,
    text: &str,
    nothing: bool,
)
    requires
        call_ensures(is_white_space, (c,), white),
        call_ensures(is_blank, (text,), nothing),
    ensures
        white <==> white_space_points().contains(c as int),
        nothing <==> (forall|i: int|
            0 <= i < text@.len() ==> white_space_points().contains(#[trigger] text@[i] as int)),
{
    lemma_white_space(c);
    assert forall|i: int| 0 <= i < text@.len() implies (white_space(#[trigger] text@[i])
        <==> white_space_points().contains(text@[i] as int)) by {
        lemma_white_space(text@[i]);
    }
}

proof fn lemma_white_space(c: char)
    ensures
        white_space(c) <==> white_space_points().contains(c as int),
{
    let all = white_space_points();
    let n = c as int;
    if white_space(c) {
        let at: int = if n <= 13 {
            n - 9
        } else if n == 32 {
            5
        } else if n == 133 {
            6
        } else if n == 160 {
            7
        } else if n == 5760 {
            8
        } else if n <= 8202 {
            n - 8192 + 9
        } else if n == 8232 {
            20
        } else if n == 8233 {
            21
        } else if n == 8239 {
            22
        } else if n == 8287 {
            23
        } else {
            24
        };
        assert(all[at] == n);
    }
}

/// Two texts are the same exactly where they read the same, and a line that is
/// put behind others leaves them as they were.
pub proof fn law_same_texts_read_the_same(
    a: &str,
    b: &str,
    same_text: bool,
    lines: &mut Vec<String>,
    line: String,
)
    requires
        call_ensures(same, (a, b), same_text),
        call_ensures(push_line, (lines, line), ()),
    ensures
        same_text <==> a@ == b@,
        final(lines)@.len() == old(lines)@.len() + 1,
        final(lines)@.last()@ == line@,
        forall|i: int|
            0 <= i < old(lines)@.len() ==> (#[trigger] final(lines)@[i])@ == old(lines)@[i]@,
{
    let before = read(old(lines)@);
    let after = read(final(lines)@);
    assert(before.len() == old(lines)@.len());
    assert(after.len() == final(lines)@.len());
    assert(after[after.len() - 1] == final(lines)@.last()@);
    assert forall|i: int| 0 <= i < old(lines)@.len() implies (#[trigger] final(lines)@[i])@ == old(
        lines,
    )@[i]@ by {
        assert(after[i] == before[i]);
    }
}

} // verus!
