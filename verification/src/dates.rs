//! Telling dates and version numbers from phone numbers.
//!
//! All three are digits in groups. What sets a date or a version apart is how
//! its groups are joined and how long they are.

use vstd::prelude::*;

verus! {

/// The parts of a text between the marks in it. One without a mark is a single
/// part.
pub open spec fn parts(text: Seq<char>, mark: char) -> Seq<Seq<char>>
    decreases text.len(),
{
    if text.len() == 0 {
        seq![Seq::empty()]
    } else {
        let sooner = parts(text.drop_last(), mark);
        if text.last() == mark {
            sooner.push(Seq::empty())
        } else {
            sooner.drop_last().push(sooner.last().push(text.last()))
        }
    }
}

/// Whether a text is a number in decimal digits.
pub open spec fn is_number(part: Seq<char>) -> bool {
    part.len() > 0 && forall|i: int| 0 <= i < part.len() ==> '0' <= #[trigger] part[i] <= '9'
}

/// The number that one or two digits spell.
pub open spec fn small_number(part: Seq<char>) -> int {
    if part.len() == 1 {
        part[0] as int - '0' as int
    } else {
        10 * (part[0] as int - '0' as int) + (part[1] as int - '0' as int)
    }
}

/// Whether a text is one or two digits that spell a number from one to `high`.
pub open spec fn counts_to(part: Seq<char>, high: int) -> bool {
    is_number(part) && part.len() <= 2 && 1 <= small_number(part) <= high
}

/// Whether a text is a month.
pub open spec fn is_month(part: Seq<char>) -> bool {
    counts_to(part, 12)
}

/// Whether a text is a day of a month.
pub open spec fn is_day(part: Seq<char>) -> bool {
    counts_to(part, 31)
}

/// Whether a text is a year in full.
pub open spec fn is_year(part: Seq<char>) -> bool {
    is_number(part) && part.len() == 4 && (part[0] == '1' || part[0] == '2')
}

/// Whether a text is a year in full, or the last two digits of one.
pub open spec fn ends_a_date(part: Seq<char>) -> bool {
    is_year(part) || (is_number(part) && part.len() == 2)
}

/// Whether parts make up a date: a day, a month and a year, the year first or
/// last, or a month and a year in either order.
pub open spec fn date_of(parts: Seq<Seq<char>>) -> bool {
    if parts.len() == 3 {
        ||| is_year(parts[0]) && is_month(parts[1]) && is_day(parts[2])
        ||| is_day(parts[0]) && is_month(parts[1]) && ends_a_date(parts[2])
        ||| is_month(parts[0]) && is_day(parts[1]) && ends_a_date(parts[2])
    } else if parts.len() == 2 {
        ||| is_year(parts[0]) && is_month(parts[1])
        ||| is_month(parts[0]) && is_year(parts[1])
    } else {
        false
    }
}

/// Whether a text is a date, written with hyphens, slashes or dots.
pub open spec fn dated(text: Seq<char>) -> bool {
    date_of(parts(text, '-')) || date_of(parts(text, '/')) || date_of(parts(text, '.'))
}

/// Whether parts make up a version: three numbers or more. A phone number looks
/// like that too, so one of these must hold as well:
///
/// - a number after the first has a single digit, or
/// - the first has one digit, or two without a leading zero, and the rest is
///   shorter than a subscriber number. Of three numbers, either the last has at
///   most three digits, or the second has at most two and the last at most six.
///   Of more, the last has at most three, and they are not all pairs.
pub open spec fn version_of(parts: Seq<Seq<char>>) -> bool {
    &&& parts.len() >= 3
    &&& forall|i: int| 0 <= i < parts.len() ==> is_number(#[trigger] parts[i])
    &&& {
        ||| exists|i: int| 1 <= i < parts.len() && (#[trigger] parts[i]).len() == 1
        ||| {
            &&& parts[0].len() == 1 || (parts[0].len() == 2 && parts[0][0] != '0')
            &&& if parts.len() == 3 {
                parts[2].len() <= 3 || (parts[1].len() <= 2 && parts[2].len() <= 6)
            } else {
                parts.last().len() <= 3 && exists|i: int|
                    0 <= i < parts.len() && (#[trigger] parts[i]).len() != 2
            }
        }
    }
}

/// Whether a text is a version number.
pub open spec fn versioned(text: Seq<char>) -> bool {
    version_of(parts(text, '.'))
}

/// The contents of each part.
pub open spec fn part_views(all: Seq<Vec<char>>) -> Seq<Seq<char>> {
    all.map_values(|part: Vec<char>| part@)
}

/// Splits a text at the marks in it.
pub fn split(text: &[char], mark: char) -> (r: Vec<Vec<char>>)
    ensures
        part_views(r@) == parts(text@, mark),
{
    let mut done: Vec<Vec<char>> = Vec::new();
    let mut current: Vec<char> = Vec::new();
    assert(part_views(done@).push(current@) =~= parts(text@.take(0), mark));
    for i in 0..text.len()
        invariant
            part_views(done@).push(current@) == parts(text@.take(i as int), mark),
    {
        let c = text[i];
        let ghost sooner = part_views(done@).push(current@);
        assert(text@.take(i + 1).drop_last() =~= text@.take(i as int));
        assert(text@.take(i + 1).last() == c);
        assert(sooner.last() == current@);
        assert(sooner.drop_last() =~= part_views(done@));
        if c == mark {
            done.push(current);
            current = Vec::new();
            assert(part_views(done@) =~= sooner);
            assert(current@ =~= Seq::<char>::empty());
        } else {
            current.push(c);
        }
    }
    assert(text@.take(text@.len() as int) =~= text@);
    let ghost sooner = part_views(done@).push(current@);
    done.push(current);
    assert(part_views(done@) =~= sooner);
    done
}

/// Finds out whether a text is a number.
fn spells_number(part: &Vec<char>) -> (r: bool)
    ensures
        r == is_number(part@),
{
    if part.len() == 0 {
        return false;
    }
    for i in 0..part.len()
        invariant
            forall|k: int| 0 <= k < i ==> '0' <= #[trigger] part@[k] <= '9',
    {
        if part[i] < '0' || part[i] > '9' {
            assert(!('0' <= part@[i as int] <= '9'));
            return false;
        }
    }
    true
}

/// The number that a digit stands for.
fn digit(c: char) -> (r: u32)
    requires
        '0' <= c <= '9',
    ensures
        r == c as int - '0' as int,
{
    c as u32 - '0' as u32
}

/// Finds out whether a text is a number from one to `high`.
fn spells_up_to(part: &Vec<char>, high: u32) -> (r: bool)
    ensures
        r == counts_to(part@, high as int),
{
    if !spells_number(part) || part.len() > 2 {
        return false;
    }
    let number: u32 = if part.len() == 1 {
        digit(part[0])
    } else {
        10 * digit(part[0]) + digit(part[1])
    };
    1 <= number && number <= high
}

/// Finds out whether a text is a year in full.
fn spells_year(part: &Vec<char>) -> (r: bool)
    ensures
        r == is_year(part@),
{
    spells_number(part) && part.len() == 4 && (part[0] == '1' || part[0] == '2')
}

/// Finds out whether parts make up a date.
pub fn is_date(all: &Vec<Vec<char>>) -> (r: bool)
    ensures
        r == date_of(part_views(all@)),
{
    let ghost views = part_views(all@);
    if all.len() == 3 {
        assert(views[0] == all@[0]@ && views[1] == all@[1]@ && views[2] == all@[2]@);
        let ending = spells_year(&all[2]) || (spells_number(&all[2]) && all[2].len() == 2);
        (spells_year(&all[0]) && spells_up_to(&all[1], 12) && spells_up_to(&all[2], 31)) || (
        spells_up_to(&all[0], 31) && spells_up_to(&all[1], 12) && ending) || (spells_up_to(
            &all[0],
            12,
        ) && spells_up_to(&all[1], 31) && ending)
    } else if all.len() == 2 {
        assert(views[0] == all@[0]@ && views[1] == all@[1]@);
        (spells_year(&all[0]) && spells_up_to(&all[1], 12)) || (spells_up_to(&all[0], 12)
            && spells_year(&all[1]))
    } else {
        false
    }
}

/// Finds out whether parts make up a version.
pub fn is_version(all: &Vec<Vec<char>>) -> (r: bool)
    ensures
        r == version_of(part_views(all@)),
{
    let ghost views = part_views(all@);
    if all.len() < 3 {
        return false;
    }
    let mut single = false;
    let mut paired = true;
    for i in 0..all.len()
        invariant
            views == part_views(all@),
            views.len() >= 3,
            forall|k: int| 0 <= k < i ==> is_number(#[trigger] views[k]),
            single <==> exists|k: int| 1 <= k < i && (#[trigger] views[k]).len() == 1,
            !paired <==> exists|k: int| 0 <= k < i && (#[trigger] views[k]).len() != 2,
    {
        let part = &all[i];
        assert(views[i as int] == part@);
        if !spells_number(part) {
            assert(!is_number(views[i as int]));
            return false;
        }
        if i >= 1 && part.len() == 1 {
            assert(views[i as int].len() == 1);
            single = true;
        }
        if part.len() != 2 {
            assert(views[i as int].len() != 2);
            paired = false;
        }
    }
    let last: usize = all.len() - 1;
    assert(views[0] == all@[0]@ && views[1] == all@[1]@ && views[2] == all@[2]@);
    assert(views[last as int] == all@[last as int]@);
    assert(is_number(views[0]));
    let major = all[0].len() == 1 || (all[0].len() == 2 && all[0][0] != '0');
    let short = if all.len() == 3 {
        all[2].len() <= 3 || (all[1].len() <= 2 && all[2].len() <= 6)
    } else {
        all[last].len() <= 3 && !paired
    };
    single || (major && short)
}

/// Whether a text is a date or a version number.
pub fn is_dated_or_versioned(text: &[char]) -> (r: bool)
    ensures
        r == (dated(text@) || versioned(text@)),
{
    let dotted = split(text, '.');
    is_date(&split(text, '-')) || is_date(&split(text, '/')) || is_date(&dotted) || is_version(
        &dotted,
    )
}

// ---------------------------------------------------------------------------
// What telling them apart promises
// ---------------------------------------------------------------------------

/// A text is split at every mark and nowhere else.
pub proof fn law_texts_are_split_at_every_mark(head: Seq<char>, mark: char, last: Seq<char>)
    requires
        !last.contains(mark),
    ensures
        parts(last, mark) == seq![last],
        parts(head.push(mark) + last, mark) == parts(head, mark).push(last),
    decreases last.len(),
{
    let all = head.push(mark) + last;
    if last.len() == 0 {
        assert(last =~= Seq::<char>::empty());
        assert(all.drop_last() =~= head);
    } else {
        let fewer = last.drop_last();
        assert(last.contains(last.last()));
        assert forall|c: char| fewer.contains(c) implies last.contains(c) by {
            let k = fewer.index_of(c);
            assert(last[k] == c);
        }
        law_texts_are_split_at_every_mark(head, mark, fewer);
        assert(all.drop_last() =~= head.push(mark) + fewer);
        assert(fewer.push(last.last()) =~= last);
        assert(parts(head, mark).push(fewer).drop_last() =~= parts(head, mark));
        assert(seq![fewer].drop_last().push(last) =~= seq![last]);
    }
}

/// A month is one or two digits from 1 to 12, a day from 1 to 31, and a year four
/// digits of which the first is a one or a two.
pub proof fn law_months_days_and_years(part: Seq<char>)
    ensures
        is_number(part) <==> part.len() > 0 && forall|i: int|
            0 <= i < part.len() ==> 48 <= #[trigger] part[i] as int <= 57,
        part.len() == 1 ==> {
            &&& is_month(part) <==> 49 <= part[0] as int <= 57
            &&& is_day(part) <==> 49 <= part[0] as int <= 57
        },
        part.len() == 2 ==> {
            let n = 10 * (part[0] as int - 48) + (part[1] as int - 48);
            &&& is_month(part) <==> is_number(part) && 1 <= n <= 12
            &&& is_day(part) <==> is_number(part) && 1 <= n <= 31
        },
        part.len() == 0 || part.len() > 2 ==> !is_month(part) && !is_day(part),
        is_year(part) <==> is_number(part) && part.len() == 4 && (part[0] as int == 49
            || part[0] as int == 50),
{
    if is_number(part) {
        assert forall|i: int| 0 <= i < part.len() implies 48 <= #[trigger] part[i] as int <= 57 by {}
    }
    if part.len() == 1 && 49 <= part[0] as int <= 57 {
        assert(is_number(part));
    }
}

/// A number holds none of the marks that a date is written with.
proof fn lemma_numbers_hold_no_mark(part: Seq<char>, mark: char)
    requires
        is_number(part),
        mark == '-' || mark == '/' || mark == '.',
    ensures
        !part.contains(mark),
{
    if part.contains(mark) {
        let i = part.index_of(mark);
        assert('0' <= part[i] <= '9');
    }
}

/// The parts of two or three numbers with marks between them.
proof fn lemma_parts_of_numbers(a: Seq<char>, b: Seq<char>, c: Seq<char>, mark: char)
    requires
        is_number(a) && is_number(b) && is_number(c),
        mark == '-' || mark == '/' || mark == '.',
    ensures
        parts(a.push(mark) + b, mark) == seq![a, b],
        parts((a.push(mark) + b).push(mark) + c, mark) == seq![a, b, c],
{
    lemma_numbers_hold_no_mark(a, mark);
    lemma_numbers_hold_no_mark(b, mark);
    lemma_numbers_hold_no_mark(c, mark);
    law_texts_are_split_at_every_mark(a, mark, a);
    law_texts_are_split_at_every_mark(a, mark, b);
    law_texts_are_split_at_every_mark(a.push(mark) + b, mark, c);
    assert(seq![a].push(b) =~= seq![a, b]);
    assert(seq![a, b].push(c) =~= seq![a, b, c]);
}

/// A year, a month and a day make a date, with hyphens, slashes or dots between
/// them: year first, or last behind the other two in either order. So do a year
/// and a month in either order.
pub proof fn law_years_months_and_days_make_dates(
    year: Seq<char>,
    month: Seq<char>,
    day: Seq<char>,
    mark: char,
)
    requires
        is_year(year) && is_month(month) && is_day(day),
        mark == '-' || mark == '/' || mark == '.',
    ensures
        dated((year.push(mark) + month).push(mark) + day),
        dated((day.push(mark) + month).push(mark) + year),
        dated((month.push(mark) + day).push(mark) + year),
        dated(year.push(mark) + month),
        dated(month.push(mark) + year),
{
    lemma_parts_of_numbers(year, month, day, mark);
    lemma_parts_of_numbers(day, month, year, mark);
    lemma_parts_of_numbers(month, day, year, mark);
    lemma_parts_of_numbers(month, year, day, mark);
}

/// A year at the end of a date may be short.
pub proof fn law_short_years_end_dates(
    year: Seq<char>,
    month: Seq<char>,
    day: Seq<char>,
    mark: char,
)
    requires
        is_number(year) && year.len() == 2 && is_month(month) && is_day(day),
        mark == '-' || mark == '/' || mark == '.',
    ensures
        dated((day.push(mark) + month).push(mark) + year),
        dated((month.push(mark) + day).push(mark) + year),
{
    lemma_parts_of_numbers(day, month, year, mark);
    lemma_parts_of_numbers(month, day, year, mark);
}

/// Nothing is a date but numbers between hyphens, slashes or dots, two or three
/// of them, with a month among the first two, and a year at one end that is in
/// full unless it is the last of three.
pub proof fn law_other_numbers_are_no_dates(text: Seq<char>)
    requires
        dated(text),
    ensures
        ({
            let shape = |all: Seq<Seq<char>>| {
                &&& all.len() == 2 || all.len() == 3
                &&& forall|i: int| 0 <= i < all.len() ==> is_number(#[trigger] all[i])
                &&& is_month(all[0]) || is_month(all[1])
                &&& is_year(all[0]) || is_year(all.last()) || (all.len() == 3 && all[2].len() == 2)
                &&& all.len() == 3 && !is_year(all[0]) ==> is_day(all[0]) && is_day(all[1])
                &&& all.len() == 3 && is_year(all[0]) ==> is_month(all[1]) && is_day(all[2])
            };
            shape(parts(text, '-')) || shape(parts(text, '/')) || shape(parts(text, '.'))
        }),
{
    law_months_days_and_years(parts(text, '-')[0]);
    law_months_days_and_years(parts(text, '/')[0]);
    law_months_days_and_years(parts(text, '.')[0]);
}

/// Three dotted numbers or more are a version if one after the first has a single
/// digit. Less than three are none, and neither is anything with a part that is
/// no number.
pub proof fn law_a_single_digit_makes_a_version(parts: Seq<Seq<char>>, i: int)
    ensures
        parts.len() < 3 ==> !version_of(parts),
        0 <= i < parts.len() && !is_number(parts[i]) ==> !version_of(parts),
        parts.len() >= 3 && 1 <= i < parts.len() && parts[i].len() == 1 && (forall|k: int|
            0 <= k < parts.len() ==> is_number(#[trigger] parts[k])) ==> version_of(parts),
{
}

/// Three dotted numbers without a single digit behind the first are a version if
/// the first has one digit, or two without a leading zero, and the rest is short:
/// the last has up to three digits, or up to six behind a second of two.
pub proof fn law_three_numbers_make_a_version(a: Seq<char>, b: Seq<char>, c: Seq<char>)
    requires
        is_number(a) && is_number(b) && is_number(c),
        b.len() >= 2 && c.len() >= 2,
    ensures
        version_of(seq![a, b, c]) <==> ({
            &&& a.len() == 1 || (a.len() == 2 && a[0] as int != 48)
            &&& c.len() <= 3 || (b.len() == 2 && c.len() <= 6)
        }),
{
    let all = seq![a, b, c];
    assert(all[0] == a && all[1] == b && all[2] == c);
    assert forall|i: int| 0 <= i < all.len() implies is_number(#[trigger] all[i]) by {}
}

/// Four dotted numbers or more without a single digit behind the first are a
/// version if the first has one digit, or two without a leading zero, the last up
/// to three, and not all have two.
pub proof fn law_more_numbers_make_a_version(parts: Seq<Seq<char>>)
    requires
        parts.len() >= 4,
        forall|i: int| 0 <= i < parts.len() ==> is_number(#[trigger] parts[i]),
        forall|i: int| 1 <= i < parts.len() ==> (#[trigger] parts[i]).len() >= 2,
    ensures
        version_of(parts) <==> ({
            &&& parts[0].len() == 1 || (parts[0].len() == 2 && parts[0][0] as int != 48)
            &&& parts[parts.len() - 1].len() <= 3
            &&& !(forall|i: int| 0 <= i < parts.len() ==> (#[trigger] parts[i]).len() == 2)
        }),
{
}

/// A version is written with dots.
pub proof fn law_versions_are_dotted(text: Seq<char>)
    ensures
        versioned(text) <==> version_of(parts(text, '.')),
{
}

} // verus!
