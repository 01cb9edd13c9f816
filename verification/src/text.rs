//! Text as sequences of characters.
//!
//! The specifications in this crate speak of text as `Seq<char>`. This module
//! says what trimming, searching, splitting into lines and ordering mean on
//! such a sequence, and provides the functions that compute them.

use vstd::prelude::*;
use vstd::slice::slice_to_vec;
#[allow(unused_imports)]
use vstd::utf8::{decode_utf8, valid_utf8};

verus! {

/// `String::push` appends one character and changes nothing else.
pub assume_specification[ String::push ](text: &mut String, c: char)
    ensures
        final(text)@ == old(text)@.push(c),
;

/// What `std::string::FromUtf8Error` says of bytes that are not UTF-8.
pub uninterp spec fn utf8_complaint(bytes: Seq<u8>) -> Seq<char>;

/// `String::from_utf8`: the text that the bytes encode, if they are UTF-8. If
/// they are not, the words of the error depend on the bytes alone.
#[verifier::external_body]
pub(crate) fn utf8_text(bytes: Vec<u8>) -> (r: Result<String, String>)
    ensures
        match r {
            Ok(text) => valid_utf8(bytes@) && text@ == decode_utf8(bytes@),
            Err(cause) => !valid_utf8(bytes@) && cause@ == utf8_complaint(bytes@),
        },
{
    match String::from_utf8(bytes) {
        Ok(text) => Ok(text),
        Err(e) => Err(e.to_string()),
    }
}

/// The text that `String::from_utf8_lossy` makes of bytes.
pub uninterp spec fn lossy_text(bytes: Seq<u8>) -> Seq<char>;

/// `String::from_utf8_lossy`: the text that the bytes encode if they are UTF-8.
/// Otherwise what is not UTF-8 is replaced; that the result depends on the
/// bytes alone is all that is said of it then.
#[verifier::external_body]
pub(crate) fn lossy(bytes: &[u8]) -> (r: String)
    ensures
        r@ == lossy_text(bytes@),
        valid_utf8(bytes@) ==> r@ == decode_utf8(bytes@),
{
    String::from_utf8_lossy(bytes).into_owned()
}

// ---------------------------------------------------------------------------
// What the operations mean
// ---------------------------------------------------------------------------

/// Whether `c` has the Unicode `White_Space` property.
pub open spec fn is_space(c: char) -> bool {
    ||| '\u{9}' <= c <= '\u{d}'
    ||| c == '\u{20}'
    ||| c == '\u{85}'
    ||| c == '\u{a0}'
    ||| c == '\u{1680}'
    ||| '\u{2000}' <= c <= '\u{200a}'
    ||| c == '\u{2028}'
    ||| c == '\u{2029}'
    ||| c == '\u{202f}'
    ||| c == '\u{205f}'
    ||| c == '\u{3000}'
}

/// `s` without its leading white space.
pub open spec fn trim_start(s: Seq<char>) -> Seq<char>
    decreases s.len(),
{
    if s.len() > 0 && is_space(s[0]) {
        trim_start(s.skip(1))
    } else {
        s
    }
}

/// `s` without its trailing white space.
pub open spec fn trim_end(s: Seq<char>) -> Seq<char>
    decreases s.len(),
{
    if s.len() > 0 && is_space(s.last()) {
        trim_end(s.drop_last())
    } else {
        s
    }
}

/// `s` without leading and trailing white space.
pub open spec fn trim(s: Seq<char>) -> Seq<char> {
    trim_end(trim_start(s))
}

/// Whether `needle` stands in `s` at position `i`.
pub open spec fn occurs_at(s: Seq<char>, needle: Seq<char>, i: int) -> bool {
    0 <= i && i + needle.len() <= s.len() && s.subrange(i, i + needle.len()) == needle
}

/// The first position at or after `from` where `needle` stands in `s`.
pub open spec fn find_from(s: Seq<char>, needle: Seq<char>, from: int) -> Option<int>
    decreases s.len() + 1 - from,
{
    if from + needle.len() > s.len() {
        None
    } else if occurs_at(s, needle, from) {
        Some(from)
    } else {
        find_from(s, needle, from + 1)
    }
}

/// The first position where `needle` stands in `s`.
pub open spec fn find(s: Seq<char>, needle: Seq<char>) -> Option<int> {
    find_from(s, needle, 0)
}

/// Whether `needle` stands anywhere in `s`.
pub open spec fn mentions(s: Seq<char>, needle: Seq<char>) -> bool {
    find(s, needle) is Some
}

/// Whether `s` begins with `prefix`.
pub open spec fn begins(s: Seq<char>, prefix: Seq<char>) -> bool {
    prefix.len() <= s.len() && s.take(prefix.len() as int) == prefix
}

/// Whether `s` ends with `suffix`.
pub open spec fn ends(s: Seq<char>, suffix: Seq<char>) -> bool {
    suffix.len() <= s.len() && s.skip(s.len() - suffix.len()) == suffix
}

/// What follows `prefix` in `s`, if `s` begins with it.
pub open spec fn after_prefix(s: Seq<char>, prefix: Seq<char>) -> Option<Seq<char>> {
    if begins(s, prefix) {
        Some(s.skip(prefix.len() as int))
    } else {
        None
    }
}

/// The part of `s` before the first `mark`, or all of it.
pub open spec fn before(s: Seq<char>, mark: char) -> Seq<char>
    decreases s.len(),
{
    if s.len() == 0 || s[0] == mark {
        Seq::empty()
    } else {
        seq![s[0]] + before(s.skip(1), mark)
    }
}

/// A line that ended in a line feed, without the carriage return before it.
pub open spec fn without_return(line: Seq<char>) -> Seq<char> {
    if line.len() > 0 && line.last() == '\r' {
        line.drop_last()
    } else {
        line
    }
}

/// The lines of `s`. A line ends at a line feed, optionally preceded by a
/// carriage return; the last line may lack its end.
pub open spec fn lines(s: Seq<char>) -> Seq<Seq<char>>
    decreases s.len(),
{
    if s.len() == 0 {
        Seq::empty()
    } else {
        let head = before(s, '\n');
        if head.len() >= s.len() {
            seq![s]
        } else {
            seq![without_return(head)] + lines(s.skip(head.len() as int + 1))
        }
    }
}

/// The first line of `s`, empty if it has none.
pub open spec fn first_line(s: Seq<char>) -> Seq<char> {
    let all = lines(s);
    if all.len() == 0 {
        Seq::empty()
    } else {
        all[0]
    }
}

/// `parts` one after the other with `separator` between each two.
pub open spec fn joined(parts: Seq<Seq<char>>, separator: Seq<char>) -> Seq<char>
    decreases parts.len(),
{
    if parts.len() == 0 {
        Seq::empty()
    } else if parts.len() == 1 {
        parts[0]
    } else {
        joined(parts.drop_last(), separator) + separator + parts.last()
    }
}

/// `c` in lower case if it is an ASCII letter, otherwise `c`.
pub open spec fn lower_char(c: char) -> char {
    if 'A' <= c <= 'Z' {
        (c as u8 + 32) as u8 as char
    } else {
        c
    }
}

/// `s` with its ASCII letters in lower case.
pub open spec fn lower(s: Seq<char>) -> Seq<char> {
    s.map_values(|c: char| lower_char(c))
}

/// How often `c` stands in `s`.
pub open spec fn count(s: Seq<char>, c: char) -> nat
    decreases s.len(),
{
    if s.len() == 0 {
        0
    } else {
        count(s.drop_last(), c) + if s.last() == c {
            1nat
        } else {
            0nat
        }
    }
}

/// Whether `a` sorts before `b`, comparing character by character.
pub open spec fn sorts_before(a: Seq<char>, b: Seq<char>) -> bool
    decreases a.len(),
{
    if b.len() == 0 {
        false
    } else if a.len() == 0 {
        true
    } else if a[0] == b[0] {
        sorts_before(a.skip(1), b.skip(1))
    } else {
        a[0] < b[0]
    }
}

/// The contents of each string in a sequence.
pub open spec fn texts(strings: Seq<String>) -> Seq<Seq<char>> {
    strings.map_values(|s: String| s@)
}

/// The contents of an optional string.
pub open spec fn maybe_text(string: Option<String>) -> Option<Seq<char>> {
    match string {
        Some(s) => Some(s@),
        None => None,
    }
}

// ---------------------------------------------------------------------------
// Facts about them
// ---------------------------------------------------------------------------

/// A search finds an occurrence, and nothing before it is one.
pub proof fn lemma_find_from(s: Seq<char>, needle: Seq<char>, from: int)
    requires
        0 <= from,
    ensures
        match find_from(s, needle, from) {
            Some(i) => from <= i && occurs_at(s, needle, i) && forall|j: int|
                from <= j < i ==> !#[trigger] occurs_at(s, needle, j),
            None => forall|j: int| from <= j ==> !#[trigger] occurs_at(s, needle, j),
        },
    decreases s.len() + 1 - from,
{
    if from + needle.len() > s.len() {
    } else if occurs_at(s, needle, from) {
    } else {
        lemma_find_from(s, needle, from + 1);
    }
}

/// If nothing before `i` is an occurrence, the search may start at `i`.
pub proof fn lemma_find_skips(s: Seq<char>, needle: Seq<char>, from: int, i: int)
    requires
        0 <= from <= i,
        forall|j: int| from <= j < i ==> !#[trigger] occurs_at(s, needle, j),
    ensures
        find_from(s, needle, from) == find_from(s, needle, i),
    decreases i - from,
{
    if from < i {
        assert(!occurs_at(s, needle, from));
        if from + needle.len() > s.len() {
            lemma_find_from(s, needle, i);
        } else {
            lemma_find_skips(s, needle, from + 1, i);
        }
    }
}

/// Trimming the start drops a prefix that is all white space and stops at the
/// first character that is not.
pub proof fn lemma_trim_start(s: Seq<char>, i: int)
    requires
        0 <= i <= s.len(),
        forall|j: int| 0 <= j < i ==> is_space(#[trigger] s[j]),
        i == s.len() || !is_space(s[i]),
    ensures
        trim_start(s) == s.skip(i),
    decreases i,
{
    if i == 0 {
        assert(s.skip(0) =~= s);
    } else {
        assert(is_space(s[0]));
        let t = s.skip(1);
        assert forall|j: int| 0 <= j < i - 1 implies is_space(#[trigger] t[j]) by {
            assert(t[j] == s[j + 1]);
        }
        lemma_trim_start(t, i - 1);
        assert(t.skip(i - 1) =~= s.skip(i));
    }
}

/// Trimming the end drops a suffix that is all white space and stops at the
/// last character that is not.
pub proof fn lemma_trim_end(s: Seq<char>, n: int)
    requires
        0 <= n <= s.len(),
        forall|j: int| n <= j < s.len() ==> is_space(#[trigger] s[j]),
        n == 0 || !is_space(s[n - 1]),
    ensures
        trim_end(s) == s.take(n),
    decreases s.len() - n,
{
    if n == s.len() {
        assert(s.take(n) =~= s);
    } else {
        assert(is_space(s[s.len() - 1]));
        let t = s.drop_last();
        lemma_trim_end(t, n);
        assert(t.take(n) =~= s.take(n));
    }
}

/// What trimming the start leaves does not begin with white space.
proof fn lemma_trimmed_start(s: Seq<char>)
    ensures
        trim_start(s).len() > 0 ==> !is_space(trim_start(s)[0]),
    decreases s.len(),
{
    if s.len() > 0 && is_space(s[0]) {
        lemma_trimmed_start(s.skip(1));
    }
}

/// What trimming the end leaves is a prefix that does not end in white space.
proof fn lemma_trimmed_end(s: Seq<char>)
    ensures
        trim_end(s).len() <= s.len(),
        trim_end(s) == s.take(trim_end(s).len() as int),
        trim_end(s).len() > 0 ==> !is_space(trim_end(s).last()),
    decreases s.len(),
{
    if s.len() > 0 && is_space(s.last()) {
        lemma_trimmed_end(s.drop_last());
        let n = trim_end(s).len() as int;
        assert(s.drop_last().take(n) =~= s.take(n));
    } else {
        assert(s.take(s.len() as int) =~= s);
    }
}

/// A trimmed text neither begins nor ends with white space, and trimming it
/// again changes nothing.
pub proof fn law_trim(s: Seq<char>)
    ensures
        trim(s).len() > 0 ==> !is_space(trim(s)[0]) && !is_space(trim(s).last()),
        trim(trim(s)) == trim(s),
{
    let t = trim_start(s);
    lemma_trimmed_start(s);
    lemma_trimmed_end(t);
    let r = trim(s);
    if r.len() > 0 {
        assert(r[0] == t[0]);
    }
    assert(trim_start(r) == r);
    assert(trim_end(r) == r);
}

/// `before` is the part up to the first mark.
pub proof fn lemma_before(s: Seq<char>, mark: char, n: int)
    requires
        0 <= n <= s.len(),
        forall|j: int| 0 <= j < n ==> #[trigger] s[j] != mark,
        n == s.len() || s[n] == mark,
    ensures
        before(s, mark) == s.take(n),
    decreases n,
{
    if n == 0 {
        assert(s.take(0) =~= Seq::<char>::empty());
    } else {
        let t = s.skip(1);
        assert forall|j: int| 0 <= j < n - 1 implies #[trigger] t[j] != mark by {
            assert(t[j] == s[j + 1]);
        }
        lemma_before(t, mark, n - 1);
        assert(seq![s[0]] + t.take(n - 1) =~= s.take(n));
    }
}

/// What `before` returns is a prefix without the mark.
pub proof fn lemma_before_is_prefix(s: Seq<char>, mark: char)
    ensures
        before(s, mark).len() <= s.len(),
        before(s, mark) == s.take(before(s, mark).len() as int),
        !before(s, mark).contains(mark),
        before(s, mark).len() < s.len() ==> s[before(s, mark).len() as int] == mark,
    decreases s.len(),
{
    if s.len() == 0 || s[0] == mark {
        assert(s.take(0) =~= Seq::<char>::empty());
    } else {
        let t = s.skip(1);
        lemma_before_is_prefix(t, mark);
        let b = before(t, mark);
        assert(seq![s[0]] + t.take(b.len() as int) =~= s.take(b.len() as int + 1));
        assert forall|i: int| 0 <= i < before(s, mark).len() implies before(s, mark)[i] != mark by {
            if i > 0 {
                assert(before(s, mark)[i] == b[i - 1]);
                assert(b.contains(b[i - 1]));
            }
        }
    }
}

/// The first of several parts stands in front of the others.
proof fn lemma_joined_front(parts: Seq<Seq<char>>, separator: Seq<char>)
    requires
        parts.len() >= 2,
    ensures
        joined(parts, separator) == parts[0] + separator + joined(parts.skip(1), separator),
    decreases parts.len(),
{
    let fewer = parts.drop_last();
    if parts.len() == 2 {
        assert(joined(fewer, separator) == parts[0]);
        assert(joined(parts.skip(1), separator) == parts[1]);
    } else {
        lemma_joined_front(fewer, separator);
        assert(fewer.skip(1) =~= parts.skip(1).drop_last());
        assert(parts.skip(1).last() == parts.last());
        assert(joined(parts.skip(1), separator) == joined(fewer.skip(1), separator) + separator
            + parts.last());
    }
    assert(joined(parts, separator) =~= parts[0] + separator + joined(parts.skip(1), separator));
}

/// Lines that are joined, with an end behind the last, are the lines of the
/// result.
pub proof fn lemma_lines_of_joined(parts: Seq<Seq<char>>)
    requires
        parts.len() > 0,
        forall|i: int|
            0 <= i < parts.len() ==> !(#[trigger] parts[i]).contains('\n') && !parts[i].contains(
                '\r',
            ),
    ensures
        lines(joined(parts, "\n"@).push('\n')) == parts,
    decreases parts.len(),
{
    reveal_strlit("\n");
    assert("\n"@ =~= seq!['\n']);
    let text = joined(parts, "\n"@).push('\n');
    let first = parts[0];
    let rest = parts.skip(1);
    if parts.len() > 1 {
        lemma_joined_front(parts, "\n"@);
    }
    let n = first.len() as int;
    assert(text[n] == '\n');
    assert(text.take(n) =~= first);
    assert forall|i: int| 0 <= i < n implies #[trigger] text[i] != '\n' by {
        assert(first.contains(first[i]));
        assert(text.take(n)[i] == first[i]);
    }
    lemma_before(text, '\n', n);
    assert(without_return(first) == first) by {
        if first.len() > 0 {
            assert(first.contains(first.last()));
        }
    }
    if parts.len() > 1 {
        assert forall|i: int| 0 <= i < rest.len() implies !(#[trigger] rest[i]).contains('\n')
            && !rest[i].contains('\r') by {
            assert(rest[i] == parts[i + 1]);
        }
        assert(text.skip(n + 1) =~= joined(rest, "\n"@).push('\n'));
        lemma_lines_of_joined(rest);
    } else {
        assert(text.skip(n + 1) =~= Seq::empty());
        assert(lines(text.skip(n + 1)) =~= rest);
    }
    assert(before(text, '\n') == first);
    assert(lines(text) == seq![first] + lines(text.skip(n + 1)));
    assert(seq![first] + rest =~= parts);
}

/// A line holds no line feed, and no carriage return unless the text does.
pub proof fn lemma_lines_are_plain(s: Seq<char>, i: int)
    requires
        0 <= i < lines(s).len(),
    ensures
        !lines(s)[i].contains('\n'),
        lines(s)[i].contains('\r') ==> s.contains('\r'),
    decreases s.len(),
{
    let head = before(s, '\n');
    lemma_before_is_prefix(s, '\n');
    if head.len() >= s.len() {
        assert(head =~= s);
    } else {
        let rest = s.skip(head.len() as int + 1);
        if i == 0 {
            let line = without_return(head);
            assert(lines(s)[0] == line);
            assert forall|k: int| 0 <= k < line.len() implies #[trigger] line[k] != '\n' && s.contains(
                line[k],
            ) by {
                assert(line[k] == head[k]);
                assert(head.contains(head[k]));
                assert(s[k] == head[k]);
            }
        } else {
            lemma_lines_are_plain(rest, i - 1);
            assert(lines(s)[i] == lines(rest)[i - 1]);
            if rest.contains('\r') {
                let k = rest.index_of('\r');
                assert(s[k + head.len() + 1] == '\r');
            }
        }
    }
}

// ---------------------------------------------------------------------------
// What the operations promise
// ---------------------------------------------------------------------------

/// White space is the tab, the line feed, the vertical tab, the form feed, the
/// carriage return, the space, the next line, the no-break space, the Ogham
/// space, the spaces from the en quad to the hair space, the two separators, the
/// narrow no-break space, the mathematical space and the ideographic space.
pub proof fn law_white_space_is_as_unicode_has_it(c: char)
    ensures
        is_space(c) <==> ({
            let n = c as int;
            ||| n == 0x9 || n == 0xa || n == 0xb || n == 0xc || n == 0xd
            ||| n == 0x20 || n == 0x85 || n == 0xa0 || n == 0x1680
            ||| 0x2000 <= n && n <= 0x200a
            ||| n == 0x2028 || n == 0x2029 || n == 0x202f || n == 0x205f || n == 0x3000
        }),
{
}

/// Trimming takes the white space off both ends, and nothing else: of white
/// space, a text that neither begins nor ends with any, and white space again,
/// it leaves the middle.
pub proof fn law_trimming_leaves_the_middle(lead: Seq<char>, core: Seq<char>, tail: Seq<char>)
    requires
        forall|i: int| 0 <= i < lead.len() ==> is_space(#[trigger] lead[i]),
        forall|i: int| 0 <= i < tail.len() ==> is_space(#[trigger] tail[i]),
        core.len() > 0 ==> !is_space(core[0]) && !is_space(core.last()),
    ensures
        trim(lead + core + tail) == core,
        trim_start(lead + core + tail) == (if core.len() > 0 {
            core + tail
        } else {
            Seq::empty()
        }),
{
    let all = lead + core + tail;
    if core.len() > 0 {
        let n = lead.len() as int;
        assert forall|j: int| 0 <= j < n implies is_space(#[trigger] all[j]) by {
            assert(all[j] == lead[j]);
        }
        assert(all[n] == core[0]);
        lemma_trim_start(all, n);
        let rest = core + tail;
        assert(all.skip(n) =~= rest);
        let m = core.len() as int;
        assert forall|j: int| m <= j < rest.len() implies is_space(#[trigger] rest[j]) by {
            assert(rest[j] == tail[j - m]);
        }
        assert(rest[m - 1] == core.last());
        lemma_trim_end(rest, m);
        assert(rest.take(m) =~= core);
    } else {
        assert forall|j: int| 0 <= j < all.len() implies is_space(#[trigger] all[j]) by {
            if j < lead.len() {
                assert(all[j] == lead[j]);
            } else {
                assert(all[j] == tail[j - lead.len()]);
            }
        }
        lemma_trim_start(all, all.len() as int);
        assert(all.skip(all.len() as int) =~= core);
        assert(Seq::<char>::empty() =~= core);
        lemma_trim_end(core, 0);
        assert(core.take(0) =~= core);
    }
}

/// What is found is an occurrence, with none before it, and a text mentions
/// exactly what occurs in it.
pub proof fn law_the_first_occurrence_is_found(s: Seq<char>, needle: Seq<char>)
    ensures
        match find(s, needle) {
            Some(i) => {
                &&& 0 <= i <= s.len() - needle.len()
                &&& s.subrange(i, i + needle.len()) == needle
                &&& forall|j: int|
                    0 <= j < i ==> #[trigger] s.subrange(j, j + needle.len()) != needle
            },
            None => forall|j: int|
                0 <= j <= s.len() - needle.len() ==> #[trigger] s.subrange(j, j + needle.len())
                    != needle,
        },
        mentions(s, needle) <==> exists|j: int|
            0 <= j <= s.len() - needle.len() && #[trigger] s.subrange(j, j + needle.len())
                == needle,
{
    lemma_find_from(s, needle, 0);
    match find(s, needle) {
        Some(i) => {
            assert(occurs_at(s, needle, i));
            assert forall|j: int| 0 <= j < i implies #[trigger] s.subrange(j, j + needle.len())
                != needle by {
                assert(!occurs_at(s, needle, j));
            }
        },
        None => {
            assert forall|j: int| 0 <= j <= s.len() - needle.len() implies #[trigger] s.subrange(
                j,
                j + needle.len(),
            ) != needle by {
                assert(!occurs_at(s, needle, j));
            }
        },
    }
}

/// A text begins with a prefix exactly if it is the prefix and something behind
/// it, which is what follows; and it ends with a suffix exactly if it is
/// something and the suffix.
pub proof fn law_prefixes_and_suffixes_are_the_ends(s: Seq<char>, a: Seq<char>, b: Seq<char>)
    ensures
        begins(a + b, a),
        after_prefix(a + b, a) == Some(b),
        ends(a + b, b),
        begins(s, a) <==> exists|rest: Seq<char>| s == a + rest,
        after_prefix(s, a) is None <==> !begins(s, a),
        ends(s, b) <==> exists|rest: Seq<char>| s == rest + b,
{
    assert((a + b).take(a.len() as int) =~= a);
    assert((a + b).skip(a.len() as int) =~= b);
    if begins(s, a) {
        assert(s =~= a + s.skip(a.len() as int));
    }
    if exists|rest: Seq<char>| s == a + rest {
        let rest = choose|rest: Seq<char>| s == a + rest;
        assert((a + rest).take(a.len() as int) =~= a);
    }
    if ends(s, b) {
        assert(s =~= s.take(s.len() - b.len()) + b);
    }
    if exists|rest: Seq<char>| s == rest + b {
        let rest = choose|rest: Seq<char>| s == rest + b;
        assert((rest + b).skip(rest.len() as int) =~= b);
    }
}

/// What stands before a mark is what stands before the first of them.
pub proof fn law_before_ends_at_the_first_mark(head: Seq<char>, mark: char, rest: Seq<char>)
    requires
        !head.contains(mark),
    ensures
        before(head, mark) == head,
        before(head.push(mark) + rest, mark) == head,
{
    let all = head.push(mark) + rest;
    let n = head.len() as int;
    assert forall|j: int| 0 <= j < n implies #[trigger] all[j] != mark by {
        assert(head.contains(head[j]));
        assert(all[j] == head[j]);
    }
    assert forall|j: int| 0 <= j < n implies #[trigger] head[j] != mark by {
        assert(head.contains(head[j]));
    }
    lemma_before(all, mark, n);
    lemma_before(head, mark, n);
    assert(all.take(n) =~= head);
    assert(head.take(n) =~= head);
}

/// A line ends at a line feed, and loses a carriage return that stands before
/// it. What follows the last line feed is a line unless it is empty.
pub proof fn law_lines_end_at_line_feeds(head: Seq<char>, rest: Seq<char>)
    requires
        !head.contains('\n'),
    ensures
        lines(head) == (if head.len() == 0 {
            Seq::<Seq<char>>::empty()
        } else {
            seq![head]
        }),
        lines(head.push('\n') + rest) == seq![
            if head.len() > 0 && head[head.len() - 1] == '\r' {
                head.take(head.len() - 1)
            } else {
                head
            },
        ] + lines(rest),
        first_line(head) == head,
        first_line(head.push('\n') + rest) == (if head.len() > 0 && head[head.len() - 1] == '\r' {
            head.take(head.len() - 1)
        } else {
            head
        }),
{
    let all = head.push('\n') + rest;
    law_before_ends_at_the_first_mark(head, '\n', rest);
    assert(all.skip(head.len() as int + 1) =~= rest);
    if head.len() > 0 {
        assert(head.drop_last() =~= head.take(head.len() - 1));
    } else {
        assert(head =~= Seq::<char>::empty());
    }
}

/// Joining puts the separator between each two parts, and nowhere else.
pub proof fn law_joining_separates_the_parts(
    parts: Seq<Seq<char>>,
    separator: Seq<char>,
    last: Seq<char>,
)
    ensures
        joined(Seq::empty(), separator) == Seq::<char>::empty(),
        joined(seq![last], separator) == last,
        parts.len() > 0 ==> joined(parts.push(last), separator) == joined(parts, separator)
            + separator + last,
{
    assert(parts.push(last).drop_last() =~= parts);
}

/// Lower case concerns the ASCII letters alone, and each by itself.
pub proof fn law_lower_case_concerns_ascii_letters(s: Seq<char>, i: int)
    requires
        0 <= i < s.len(),
    ensures
        lower(s).len() == s.len(),
        65 <= s[i] as int <= 90 ==> lower(s)[i] as int == s[i] as int + 32,
        !(65 <= s[i] as int <= 90) ==> lower(s)[i] == s[i],
{
}

/// Counting counts each occurrence once.
pub proof fn law_counting_adds_up(s: Seq<char>, c: char, d: char)
    ensures
        count(Seq::empty(), c) == 0,
        count(s.push(c), c) == count(s, c) + 1,
        c != d ==> count(s.push(d), c) == count(s, c),
{
    assert(s.push(c).drop_last() =~= s);
    assert(s.push(d).drop_last() =~= s);
}

/// Texts are sorted by the first character in which they differ; where there is
/// none, the shorter one comes first.
pub proof fn law_the_first_difference_sorts(
    common: Seq<char>,
    a: Seq<char>,
    b: Seq<char>,
)
    requires
        a.len() > 0 && b.len() > 0 ==> a[0] != b[0],
    ensures
        sorts_before(common + a, common + b) == (b.len() > 0 && (a.len() == 0 || (a[0] as int) < (
        b[0] as int))),
    decreases common.len(),
{
    if common.len() == 0 {
        assert(common + a =~= a);
        assert(common + b =~= b);
    } else {
        let rest = common.skip(1);
        law_the_first_difference_sorts(rest, a, b);
        assert((common + a).skip(1) =~= rest + a);
        assert((common + b).skip(1) =~= rest + b);
    }
}

// ---------------------------------------------------------------------------
// Computing them
// ---------------------------------------------------------------------------

/// The characters of `s`.
pub fn to_chars(s: &str) -> (r: Vec<char>)
    ensures
        r@ == s@,
{
    let mut out: Vec<char> = Vec::new();
    for c in it: s.chars()
        invariant
            out@ == it.seq().take(it.index() as int),
            it.seq() == s@,
    {
        assert(it.seq().take(it.index() + 1) =~= it.seq().take(it.index() as int).push(c));
        out.push(c);
    }
    assert(s@.take(s@.len() as int) =~= s@);
    out
}

/// A string of the given characters.
pub fn to_text(chars: &[char]) -> (r: String)
    ensures
        r@ == chars@,
{
    let mut out = String::new();
    for i in 0..chars.len()
        invariant
            out@ == chars@.take(i as int),
    {
        assert(chars@.take(i + 1) =~= chars@.take(i as int).push(chars@[i as int]));
        out.push(chars[i]);
    }
    assert(chars@.take(chars@.len() as int) =~= chars@);
    out
}

/// A string with the contents of `s`.
pub fn owned(s: &str) -> (r: String)
    ensures
        r@ == s@,
{
    s.to_owned()
}

/// Whether two runs of characters are the same.
pub fn same(a: &[char], b: &[char]) -> (r: bool)
    ensures
        r == (a@ == b@),
{
    if a.len() != b.len() {
        return false;
    }
    for i in 0..a.len()
        invariant
            a.len() == b.len(),
            forall|j: int| 0 <= j < i ==> a@[j] == b@[j],
    {
        if a[i] != b[i] {
            assert(a@[i as int] != b@[i as int]);
            return false;
        }
    }
    assert(a@ =~= b@);
    true
}

/// Whether a run of characters spells out `s`.
pub fn spells(chars: &[char], s: &str) -> (r: bool)
    ensures
        r == (chars@ == s@),
{
    let other = to_chars(s);
    same(chars, other.as_slice())
}

/// Whether two texts are the same.
pub fn same_text(a: &str, b: &str) -> (r: bool)
    ensures
        r == (a@ == b@),
{
    let a = to_chars(a);
    spells(a.as_slice(), b)
}

/// Whether `c` is white space.
pub fn char_is_space(c: char) -> (r: bool)
    ensures
        r == is_space(c),
{
    ('\u{9}' <= c && c <= '\u{d}') || c == '\u{20}' || c == '\u{85}' || c == '\u{a0}' || c
        == '\u{1680}' || ('\u{2000}' <= c && c <= '\u{200a}') || c == '\u{2028}' || c == '\u{2029}'
        || c == '\u{202f}' || c == '\u{205f}' || c == '\u{3000}'
}

/// The characters without their leading white space.
pub fn trim_start_chars(s: &[char]) -> (r: &[char])
    ensures
        r@ == trim_start(s@),
{
    let mut i: usize = 0;
    while i < s.len() && char_is_space(s[i])
        invariant
            i <= s.len(),
            forall|j: int| 0 <= j < i ==> is_space(#[trigger] s@[j]),
        decreases s.len() - i,
    {
        i = i + 1;
    }
    proof {
        lemma_trim_start(s@, i as int);
    }
    let r = &s[i..s.len()];
    assert(r@ =~= s@.skip(i as int));
    r
}

/// The characters without leading and trailing white space.
pub fn trim_chars(s: &[char]) -> (r: &[char])
    ensures
        r@ == trim(s@),
{
    let t = trim_start_chars(s);
    let mut n: usize = t.len();
    while n > 0 && char_is_space(t[n - 1])
        invariant
            n <= t.len(),
            forall|j: int| n <= j < t.len() ==> is_space(#[trigger] t@[j]),
        decreases n,
    {
        n = n - 1;
    }
    proof {
        lemma_trim_end(t@, n as int);
    }
    let r = &t[0..n];
    assert(r@ =~= t@.take(n as int));
    r
}

/// Whether `needle` stands in `s` at `i`.
fn stands_at(s: &[char], needle: &[char], i: usize) -> (r: bool)
    requires
        i <= s.len(),
    ensures
        r == occurs_at(s@, needle@, i as int),
{
    if needle.len() > s.len() - i {
        return false;
    }
    let part = &s[i..i + needle.len()];
    assert(part@ =~= s@.subrange(i as int, i + needle@.len()));
    same(part, needle)
}

/// The first position where `needle` stands in `s`.
pub fn find_chars(s: &[char], needle: &[char]) -> (r: Option<usize>)
    ensures
        match r {
            Some(i) => find(s@, needle@) == Some(i as int) && i + needle@.len() <= s@.len(),
            None => find(s@, needle@) is None,
        },
{
    let mut i: usize = 0;
    while needle.len() <= s.len() - i
        invariant
            i <= s.len(),
            forall|j: int| 0 <= j < i ==> !#[trigger] occurs_at(s@, needle@, j),
        decreases s.len() - i,
    {
        if stands_at(s, needle, i) {
            proof {
                lemma_find_skips(s@, needle@, 0, i as int);
            }
            return Some(i);
        }
        assert(i < s.len()) by {
            if i == s.len() {
                assert(s@.subrange(i as int, i as int) =~= needle@);
            }
        }
        i = i + 1;
    }
    proof {
        lemma_find_skips(s@, needle@, 0, i as int);
    }
    None
}

/// Whether `needle` stands anywhere in `s`.
pub fn has_chars(s: &[char], needle: &[char]) -> (r: bool)
    ensures
        r == mentions(s@, needle@),
{
    find_chars(s, needle).is_some()
}

/// Whether `s` begins with `prefix`.
pub fn begins_chars(s: &[char], prefix: &[char]) -> (r: bool)
    ensures
        r == begins(s@, prefix@),
{
    if prefix.len() > s.len() {
        return false;
    }
    let head = &s[0..prefix.len()];
    assert(head@ =~= s@.take(prefix@.len() as int));
    same(head, prefix)
}

/// Whether `s` ends with `suffix`.
pub fn ends_chars(s: &[char], suffix: &[char]) -> (r: bool)
    ensures
        r == ends(s@, suffix@),
{
    if suffix.len() > s.len() {
        return false;
    }
    let tail = &s[s.len() - suffix.len()..s.len()];
    assert(tail@ =~= s@.skip(s@.len() - suffix@.len()));
    same(tail, suffix)
}

/// What follows `prefix` in `s`, if `s` begins with it.
pub fn after_prefix_chars<'a>(s: &'a [char], prefix: &str) -> (r: Option<&'a [char]>)
    ensures
        match r {
            Some(rest) => after_prefix(s@, prefix@) == Some(rest@),
            None => after_prefix(s@, prefix@) is None,
        },
{
    let p = to_chars(prefix);
    if begins_chars(s, p.as_slice()) {
        let rest = &s[p.len()..s.len()];
        assert(rest@ =~= s@.skip(prefix@.len() as int));
        Some(rest)
    } else {
        None
    }
}

/// Whether `c` stands in `s`.
pub fn contains_char(s: &[char], c: char) -> (r: bool)
    ensures
        r == s@.contains(c),
{
    for i in 0..s.len()
        invariant
            forall|j: int| 0 <= j < i ==> s@[j] != c,
    {
        if s[i] == c {
            return true;
        }
    }
    false
}

/// The part of `s` before the first `mark`, or all of it.
pub fn before_chars(s: &[char], mark: char) -> (r: &[char])
    ensures
        r@ == before(s@, mark),
{
    let mut n: usize = 0;
    while n < s.len() && s[n] != mark
        invariant
            n <= s.len(),
            forall|j: int| 0 <= j < n ==> #[trigger] s@[j] != mark,
        decreases s.len() - n,
    {
        n = n + 1;
    }
    proof {
        lemma_before(s@, mark, n as int);
    }
    let r = &s[0..n];
    assert(r@ =~= s@.take(n as int));
    r
}

/// The lines of `s`.
pub fn lines_of(s: &[char]) -> (r: Vec<Vec<char>>)
    ensures
        r@.map_values(|line: Vec<char>| line@) == lines(s@),
{
    let mut out: Vec<Vec<char>> = Vec::new();
    let mut start: usize = 0;
    proof {
        assert(s@.skip(0) =~= s@);
        assert(out@.map_values(|line: Vec<char>| line@) =~= Seq::<Seq<char>>::empty());
        assert(Seq::<Seq<char>>::empty() + lines(s@) =~= lines(s@));
    }
    while start < s.len()
        invariant
            start <= s.len(),
            out@.map_values(|line: Vec<char>| line@) + lines(s@.skip(start as int)) == lines(s@),
        decreases s.len() - start,
    {
        let rest = &s[start..s.len()];
        assert(rest@ =~= s@.skip(start as int));
        let head = before_chars(rest, '\n');
        let ghost done = out@;
        let ghost view = |line: Vec<char>| line@;
        proof {
            lemma_before_is_prefix(rest@, '\n');
        }
        if head.len() >= rest.len() {
            let line = slice_to_vec(rest);
            out.push(line);
            start = s.len();
            proof {
                assert(out@.map_values(view) =~= done.map_values(view) + seq![rest@]);
                assert(lines(rest@) == seq![rest@]);
                assert(s@.skip(start as int) =~= Seq::<char>::empty());
                assert(out@.map_values(view) + lines(s@.skip(start as int)) =~= out@.map_values(
                    view,
                ));
            }
        } else {
            let line = if head.len() > 0 && head[head.len() - 1] == '\r' {
                let cut = &head[0..head.len() - 1];
                assert(cut@ =~= head@.drop_last());
                slice_to_vec(cut)
            } else {
                slice_to_vec(head)
            };
            assert(line@ == without_return(head@));
            let step = head.len() + 1;
            out.push(line);
            proof {
                assert(out@.map_values(view) =~= done.map_values(view) + seq![
                    without_return(head@),
                ]);
                assert(s@.skip(start + step) =~= rest@.skip(head@.len() as int + 1));
                assert(lines(rest@) == seq![without_return(head@)] + lines(
                    rest@.skip(head@.len() as int + 1),
                ));
                assert(out@.map_values(view) + lines(s@.skip(start + step)) =~= done.map_values(
                    view,
                ) + lines(rest@));
            }
            start = start + step;
        }
    }
    proof {
        assert(s@.skip(start as int) =~= Seq::<char>::empty());
        assert(out@.map_values(|line: Vec<char>| line@) + lines(s@.skip(start as int))
            =~= out@.map_values(|line: Vec<char>| line@));
    }
    out
}

/// The first line of `s`, empty if it has none.
pub fn first_line_of(s: &[char]) -> (r: &[char])
    ensures
        r@ == first_line(s@),
{
    let head = before_chars(s, '\n');
    proof {
        lemma_before_is_prefix(s@, '\n');
    }
    if head.len() >= s.len() {
        assert(s.len() > 0 ==> lines(s@)[0] == s@);
        assert(s@.len() == 0 ==> s@ =~= Seq::<char>::empty());
        s
    } else if head.len() > 0 && head[head.len() - 1] == '\r' {
        let cut = &head[0..head.len() - 1];
        assert(cut@ =~= head@.drop_last());
        assert(lines(s@)[0] == without_return(head@));
        cut
    } else {
        assert(lines(s@)[0] == without_return(head@));
        head
    }
}

/// Appends each of `chars` to `out`.
pub fn push_chars(out: &mut String, chars: &[char])
    ensures
        final(out)@ == old(out)@ + chars@,
{
    let ghost start = out@;
    for i in 0..chars.len()
        invariant
            out@ == start + chars@.take(i as int),
    {
        assert(start + chars@.take(i + 1) =~= (start + chars@.take(i as int)).push(
            chars@[i as int],
        ));
        out.push(chars[i]);
    }
    assert(chars@.take(chars@.len() as int) =~= chars@);
}

/// `parts` one after the other with `separator` between each two.
pub fn join_texts(parts: &Vec<String>, separator: &str) -> (r: String)
    ensures
        r@ == joined(texts(parts@), separator@),
{
    let mut out = String::new();
    let ghost all = texts(parts@);
    for i in 0..parts.len()
        invariant
            all == texts(parts@),
            out@ == joined(all.take(i as int), separator@),
    {
        let ghost so_far = out@;
        if i > 0 {
            out.append(separator);
        }
        out.append(parts[i].as_str());
        proof {
            assert(all.take(i + 1).drop_last() =~= all.take(i as int));
            assert(all.take(i + 1).last() == parts@[i as int]@);
            assert(all[i as int] == parts@[i as int]@);
            if i == 0 {
                assert(so_far + parts@[0]@ =~= parts@[0]@);
            }
        }
    }
    assert(all.take(all.len() as int) =~= all);
    out
}

/// `s` with its ASCII letters in lower case.
pub fn lower_chars(s: &[char]) -> (r: Vec<char>)
    ensures
        r@ == lower(s@),
{
    let mut out: Vec<char> = Vec::new();
    for i in 0..s.len()
        invariant
            out@ == lower(s@.take(i as int)),
    {
        let c = s[i];
        let low = if 'A' <= c && c <= 'Z' {
            (c as u8 + 32) as char
        } else {
            c
        };
        out.push(low);
        assert(lower(s@.take(i + 1)) =~= lower(s@.take(i as int)).push(lower_char(c)));
    }
    assert(s@.take(s@.len() as int) =~= s@);
    out
}

/// How often `c` stands in `s`.
pub fn count_char(s: &[char], c: char) -> (r: usize)
    ensures
        r == count(s@, c),
{
    let mut n: usize = 0;
    for i in 0..s.len()
        invariant
            n == count(s@.take(i as int), c),
            n <= i,
    {
        assert(s@.take(i + 1).drop_last() =~= s@.take(i as int));
        if s[i] == c {
            n = n + 1;
        }
    }
    assert(s@.take(s@.len() as int) =~= s@);
    n
}

/// Whether `a` sorts before `b`.
pub fn text_sorts_before(a: &str, b: &str) -> (r: bool)
    ensures
        r == sorts_before(a@, b@),
{
    let left = to_chars(a);
    let right = to_chars(b);
    let mut i: usize = 0;
    proof {
        assert(a@.skip(0) =~= a@);
        assert(b@.skip(0) =~= b@);
    }
    while i < left.len() && i < right.len() && left[i] == right[i]
        invariant
            left@ == a@,
            right@ == b@,
            i <= left.len(),
            i <= right.len(),
            sorts_before(a@, b@) == sorts_before(a@.skip(i as int), b@.skip(i as int)),
        decreases left.len() - i,
    {
        proof {
            assert(a@.skip(i as int).skip(1) =~= a@.skip(i + 1));
            assert(b@.skip(i as int).skip(1) =~= b@.skip(i + 1));
        }
        i = i + 1;
    }
    if i >= right.len() {
        false
    } else if i >= left.len() {
        true
    } else {
        left[i] < right[i]
    }
}

/// Whether two optional texts are the same.
pub fn same_maybe(a: &Option<String>, b: &Option<String>) -> (r: bool)
    ensures
        r == (maybe_text(*a) == maybe_text(*b)),
{
    match (a, b) {
        (Some(a), Some(b)) => same_text(a.as_str(), b.as_str()),
        (None, None) => true,
        _ => false,
    }
}

/// Whether two lists of texts are the same.
pub fn same_texts(a: &Vec<String>, b: &Vec<String>) -> (r: bool)
    ensures
        r == (texts(a@) == texts(b@)),
{
    if a.len() != b.len() {
        assert(texts(a@).len() != texts(b@).len());
        return false;
    }
    for i in 0..a.len()
        invariant
            a.len() == b.len(),
            forall|k: int| 0 <= k < i ==> a@[k]@ == b@[k]@,
    {
        if !same_text(a[i].as_str(), b[i].as_str()) {
            assert(texts(a@)[i as int] != texts(b@)[i as int]);
            return false;
        }
    }
    assert(texts(a@) =~= texts(b@));
    true
}

/// The contents of several strings are those of each, in order, and the content
/// of a string that may be missing is there exactly if it is.
pub proof fn law_contents_are_those_of_each(
    strings: Seq<String>,
    string: Option<String>,
    i: int,
)
    ensures
        texts(strings).len() == strings.len(),
        0 <= i < strings.len() ==> texts(strings)[i] == strings[i]@,
        string is None <==> maybe_text(string) is None,
        string matches Some(s) ==> maybe_text(string) == Some(s@),
{
}

} // verus!
