//! Classifying a selection before actions are matched against it.
//!
//! The bar knows what was selected, a link, an address, a path, before any
//! action looks at it. Classification is syntactic: it never touches the
//! filesystem or the network.

use vstd::prelude::*;

use crate::config::copy_maybe;
use crate::dates::is_dated_or_versioned;
use crate::manifest::parse_manifest;
use crate::pattern::Pattern;
use crate::text::{
    after_prefix_chars, before_chars, begins_chars, contains_char, count_char, has_chars, owned,
    to_chars, to_text, trim_chars,
};
#[allow(unused_imports)]
use crate::{
    dates::{dated, versioned},
    manifest::manifest_outcome,
    pattern::{recognised, regex_matches, regex_verdict},
    text::{
        after_prefix, before, begins, count, law_before_ends_at_the_first_mark,
        law_prefixes_and_suffixes_are_the_ends, law_trim, lemma_before_is_prefix, maybe_text,
        mentions, trim,
    },
};

verus! {

/// A kind of selection an action can require via `detects = [...]`.
#[derive(Debug, Clone, Copy, PartialEq, Eq, Structural)]
pub enum Detect {
    Url,
    Email,
    Path,
    Phone,
    Color,
}

/// What one selection was recognised as. Every field is independent; a
/// selection can be several things at once (`mailto:x@y` is a URL and an
/// email address).
#[derive(Debug, PartialEq, Eq)]
pub struct Classification {
    /// A single web URL, normalised: `www.` selections gain `https://`,
    /// trailing sentence punctuation is dropped.
    pub url: Option<String>,
    /// A single email address, without any `mailto:` prefix.
    pub email: Option<String>,
    /// A single absolute or `~/` filesystem path.
    pub path: Option<String>,
    /// A single phone number, compacted to digits and a leading `+` so it can
    /// go straight into a `tel:` URI.
    pub phone: Option<String>,
    /// A single CSS-style colour literal.
    pub color: Option<String>,
    /// The selection parses as an action manifest.
    pub manifest: bool,
}

/// A classification in specifications.
#[verifier::ext_equal]
pub struct ClassView {
    pub url: Option<Seq<char>>,
    pub email: Option<Seq<char>>,
    pub path: Option<Seq<char>>,
    pub phone: Option<Seq<char>>,
    pub color: Option<Seq<char>>,
    pub manifest: bool,
}

impl View for Classification {
    type V = ClassView;

    open spec fn view(&self) -> ClassView {
        ClassView {
            url: maybe_text(self.url),
            email: maybe_text(self.email),
            path: maybe_text(self.path),
            phone: maybe_text(self.phone),
            color: maybe_text(self.color),
            manifest: self.manifest,
        }
    }
}

/// The classification of a selection that is nothing in particular.
pub open spec fn nothing() -> ClassView {
    ClassView { url: None, email: None, path: None, phone: None, color: None, manifest: false }
}

/// The detected value for a kind.
pub open spec fn detected(class: ClassView, kind: Detect) -> Option<Seq<char>> {
    match kind {
        Detect::Url => class.url,
        Detect::Email => class.email,
        Detect::Path => class.path,
        Detect::Phone => class.phone,
        Detect::Color => class.color,
    }
}

impl Default for Classification {
    fn default() -> (r: Self)
        ensures
            r@ == nothing(),
    {
        Classification {
            url: None,
            email: None,
            path: None,
            phone: None,
            color: None,
            manifest: false,
        }
    }
}

impl Clone for Classification {
    fn clone(&self) -> (r: Self)
        ensures
            r@ == self@,
    {
        Classification {
            url: copy_maybe(&self.url),
            email: copy_maybe(&self.email),
            path: copy_maybe(&self.path),
            phone: copy_maybe(&self.phone),
            color: copy_maybe(&self.color),
            manifest: self.manifest,
        }
    }
}

/// An optional string, borrowed.
fn borrowed(string: &Option<String>) -> (r: Option<&str>)
    ensures
        match r {
            Some(s) => maybe_text(*string) == Some(s@),
            None => *string is None,
        },
{
    match string {
        Some(s) => Some(s.as_str()),
        None => None,
    }
}

impl Classification {
    /// The detected value for `kind`, if any.
    pub fn get(&self, kind: Detect) -> (r: Option<&str>)
        ensures
            match r {
                Some(s) => detected(self@, kind) == Some(s@),
                None => detected(self@, kind) is None,
            },
    {
        match kind {
            Detect::Url => borrowed(&self.url),
            Detect::Email => borrowed(&self.email),
            Detect::Path => borrowed(&self.path),
            Detect::Phone => borrowed(&self.phone),
            Detect::Color => borrowed(&self.color),
        }
    }
}

// ---------------------------------------------------------------------------
// Cutting a value out of the text around it
// ---------------------------------------------------------------------------

/// Whether `c` is punctuation that clings to a value at the end of a clause.
pub open spec fn is_sentence_mark(c: char) -> bool {
    c == '.' || c == ',' || c == ';' || c == ':' || c == '!' || c == '?' || c == '"' || c == '\''
        || c == '…'
}

/// Whether there are more closing brackets than opening ones.
pub open spec fn lopsided(text: Seq<char>, open: char, close: char) -> bool {
    count(text, close) > count(text, open)
}

/// Whether a text begins with an opening bracket that its last character
/// closes: up to there, more are opened than closed.
pub open spec fn wrapped(text: Seq<char>, open: char, close: char) -> bool {
    &&& text.len() >= 2
    &&& text[0] == open
    &&& text.last() == close
    &&& count(text, open) == count(text, close)
    &&& forall|k: int|
        0 < k < text.len() ==> count(#[trigger] text.take(k), open) > count(text.take(k), close)
}

/// Whether a closing bracket at the end of a text is a stray one: nothing
/// opened it, or what opened it stands before the value.
pub open spec fn strays(text: Seq<char>, open: char, close: char) -> bool {
    text.last() == close && (lopsided(text, open, close) || wrapped(text, open, close))
}

/// Whether the last character of a text does not belong to the value it ends:
/// sentence punctuation, or a stray closing bracket.
pub open spec fn sheds_last(text: Seq<char>) -> bool {
    &&& text.len() > 0
    &&& {
        ||| is_sentence_mark(text.last())
        ||| strays(text, '(', ')')
        ||| strays(text, '[', ']')
        ||| strays(text, '{', '}')
    }
}

/// A text without the trailing characters that do not belong to the value.
pub open spec fn clipped(text: Seq<char>) -> Seq<char>
    decreases text.len(),
{
    if sheds_last(text) {
        clipped(text.drop_last())
    } else {
        text
    }
}

/// Whether `text` holds more of `close` than of `open`.
pub fn unbalanced(text: &[char], open: char, close: char) -> (r: bool)
    ensures
        r == lopsided(text@, open, close),
{
    let opens: usize = count_char(text, open);
    let closes: usize = count_char(text, close);
    closes > opens
}

/// Whether `text` stands in one pair of brackets.
fn is_wrapped(text: &[char], open: char, close: char) -> (r: bool)
    ensures
        r == wrapped(text@, open, close),
{
    let n: usize = text.len();
    if n < 2 || text[0] != open || text[n - 1] != close {
        return false;
    }
    let mut opens: usize = 0;
    let mut closes: usize = 0;
    for i in 0..n
        invariant
            n == text@.len(),
            opens == count(text@.take(i as int), open),
            closes == count(text@.take(i as int), close),
            opens <= i,
            closes <= i,
            forall|k: int|
                0 < k < i ==> count(#[trigger] text@.take(k), open) > count(text@.take(k), close),
    {
        let ghost part = text@.take(i as int);
        if i > 0 && opens <= closes {
            assert(count(part, open) <= count(part, close));
            return false;
        }
        assert(text@.take(i + 1).drop_last() =~= part);
        if text[i] == open {
            opens = opens + 1;
        }
        if text[i] == close {
            closes = closes + 1;
        }
    }
    assert(text@.take(n as int) =~= text@);
    opens == closes
}

/// Whether the bracket `close` at the end of `text` is a stray one.
fn is_stray(text: &[char], open: char, close: char) -> (r: bool)
    requires
        text@.len() > 0,
    ensures
        r == strays(text@, open, close),
{
    text[text.len() - 1] == close && (unbalanced(text, open, close) || is_wrapped(
        text,
        open,
        close,
    ))
}

/// Drops sentence punctuation that clings to a selected value: the period after
/// a URL that ended a sentence, the comma after an address in a list. Closing
/// brackets are removed only when they are stray, so
/// `https://en.wikipedia.org/wiki/Rust_(film)` keeps its parenthesis while
/// `(https://example.com)` loses the stray one.
pub fn trim_trailing_punctuation(text: &[char]) -> (r: &[char])
    ensures
        r@ == clipped(text@),
{
    let mut n: usize = text.len();
    assert(text@.take(n as int) =~= text@);
    while n > 0
        invariant
            n <= text.len(),
            clipped(text@) == clipped(text@.take(n as int)),
        decreases n,
    {
        let part = &text[0..n];
        assert(part@ =~= text@.take(n as int));
        let last = part[n - 1];
        let sheds = last == '.' || last == ',' || last == ';' || last == ':' || last == '!' || last
            == '?' || last == '"' || last == '\'' || last == '…' || is_stray(part, '(', ')')
            || is_stray(part, '[', ']') || is_stray(part, '{', '}');
        assert(part@.last() == last);
        assert(sheds == sheds_last(part@));
        if !sheds {
            return part;
        }
        assert(part@.drop_last() =~= text@.take(n - 1));
        n = n - 1;
    }
    let r = &text[0..0];
    assert(r@ =~= text@.take(0));
    r
}

/// The decimal digits of a text, in order.
pub open spec fn digits(text: Seq<char>) -> Seq<char>
    decreases text.len(),
{
    if text.len() == 0 {
        Seq::empty()
    } else if '0' <= text.last() <= '9' {
        digits(text.drop_last()).push(text.last())
    } else {
        digits(text.drop_last())
    }
}

/// A phone number as a `tel:` URI wants it: its digits, behind a `+` if it
/// begins with one.
pub open spec fn compacted(text: Seq<char>) -> Seq<char> {
    if text.len() > 0 && text[0] == '+' {
        seq!['+'] + digits(text)
    } else {
        digits(text)
    }
}

/// Reduces a formatted phone number to what a `tel:` URI wants.
pub fn compact_phone(text: &[char]) -> (r: String)
    ensures
        r@ == compacted(text@),
{
    let mut out = String::new();
    for i in 0..text.len()
        invariant
            out@ == compacted(text@.take(i as int)),
    {
        let c = text[i];
        assert(text@.take(i + 1).drop_last() =~= text@.take(i as int));
        assert(text@.take(i + 1).last() == c);
        assert(text@.take(i + 1)[0] == text@[0]);
        assert(i > 0 ==> text@.take(i as int)[0] == text@[0]);
        if i == 0 && c == '+' {
            out.push(c);
            assert(digits(text@.take(1)) =~= Seq::<char>::empty());
            assert(out@ =~= compacted(text@.take(1)));
        } else if '0' <= c && c <= '9' {
            out.push(c);
            assert(out@ =~= compacted(text@.take(i + 1)));
        }
    }
    assert(text@.take(text@.len() as int) =~= text@);
    out
}

// ---------------------------------------------------------------------------
// Recognising values
// ---------------------------------------------------------------------------

/// What a web URL looks like.
pub const URL: &'static str = r"^(?:https?|ftp)://\S+$";

/// What a web domain without a scheme looks like.
pub const WWW: &'static str = r"^www\.[\w-]+(?:\.[\w-]+)+(?:[/?#]\S*)?$";

/// What an email address looks like.
pub const EMAIL: &'static str = r"^[\w.+-]+@[\w-]+(?:\.[\w-]+)+$";

/// What a phone number looks like.
pub const PHONE: &'static str = r"^\+?[0-9(][0-9 ().\-/]{4,24}[0-9]$";

/// What a colour literal looks like.
pub const COLOR: &'static str =
    r"(?i)^(?:#(?:[0-9a-f]{3}|[0-9a-f]{4}|[0-9a-f]{6}|[0-9a-f]{8})|rgba?\([0-9., %]+\)|hsla?\([0-9., %deg]+\))$";

/// Which of the patterns matched. Each is asked of the part of the selection
/// that it is about.
#[derive(Debug, Clone, Copy, PartialEq, Eq, Structural)]
pub struct Hits {
    /// [`URL`], of the clipped selection.
    pub url: bool,
    /// [`WWW`], of the clipped selection.
    pub www: bool,
    /// [`EMAIL`], of what follows `mailto:` in the clipped selection.
    pub address: bool,
    /// [`EMAIL`], of the mailbox in the clipped selection.
    pub mailbox: bool,
    /// [`PHONE`], of the trimmed selection.
    pub phone: bool,
    /// [`COLOR`], of the trimmed selection.
    pub color: bool,
}

/// What follows `mailto:`, if a text begins with it.
pub open spec fn addressed(text: Seq<char>) -> Option<Seq<char>> {
    after_prefix(text, "mailto:"@)
}

/// The part of a text that may be a mailbox: without `mailto:` in front and
/// without the query behind.
pub open spec fn mailbox(text: Seq<char>) -> Seq<char> {
    match addressed(text) {
        Some(address) => before(address, '?'),
        None => before(text, '?'),
    }
}

/// The web URL that a clipped selection is.
pub open spec fn url_value(text: Seq<char>, hits: Hits) -> Option<Seq<char>> {
    if hits.url {
        Some(text)
    } else if hits.www {
        Some("https://"@ + text)
    } else if addressed(text) is Some && hits.address {
        Some(text)
    } else {
        None
    }
}

/// The email address in a clipped selection.
pub open spec fn email_value(text: Seq<char>, hits: Hits) -> Option<Seq<char>> {
    if hits.mailbox {
        Some(mailbox(text))
    } else {
        None
    }
}

/// The path that a trimmed selection is.
pub open spec fn path_value(text: Seq<char>) -> Option<Seq<char>> {
    if text.len() > 1 && (begins(text, "/"@) || begins(text, "~/"@)) && !text.contains('\0') {
        Some(text)
    } else {
        None
    }
}

/// The phone number that a trimmed selection is. One with too few digits
/// cannot be dialled, one with too many is none. Neither is a date or a version.
pub open spec fn phone_value(text: Seq<char>, hits: Hits) -> Option<Seq<char>> {
    if hits.phone && 6 <= digits(text).len() <= 15 && !dated(text) && !versioned(text) {
        Some(compacted(text))
    } else {
        None
    }
}

/// The colour that a trimmed selection is.
pub open spec fn color_value(text: Seq<char>, hits: Hits) -> Option<Seq<char>> {
    if hits.color {
        Some(text)
    } else {
        None
    }
}

/// What a selection is, given which patterns matched and whether it is a
/// manifest. A selection of several lines is a manifest or nothing.
pub open spec fn class_given(text: Seq<char>, hits: Hits, manifest: bool) -> ClassView {
    let candidate = trim(text);
    if candidate.contains('\n') {
        ClassView { manifest, ..nothing() }
    } else {
        let value = clipped(candidate);
        ClassView {
            url: url_value(value, hits),
            email: email_value(value, hits),
            path: path_value(candidate),
            phone: phone_value(candidate, hits),
            color: color_value(candidate, hits),
            manifest: false,
        }
    }
}

/// Which patterns a selection matches.
pub open spec fn hits_of(text: Seq<char>) -> Hits {
    let candidate = trim(text);
    let value = clipped(candidate);
    Hits {
        url: recognised(URL@, value),
        www: recognised(WWW@, value),
        address: addressed(value) matches Some(address) && recognised(EMAIL@, address),
        mailbox: recognised(EMAIL@, mailbox(value)),
        phone: recognised(PHONE@, candidate),
        color: recognised(COLOR@, candidate),
    }
}

/// Whether a text mentions what every manifest must.
pub open spec fn hints_at_manifest(text: Seq<char>) -> bool {
    mentions(text, "id"@) && mentions(text, "title"@) && text.contains('=')
}

/// Whether a text is an action manifest.
pub open spec fn manifest_like(text: Seq<char>) -> bool {
    hints_at_manifest(text) && manifest_outcome(text) is Ok
}

/// What a selection is, the manifest check for selections of one line left out.
pub open spec fn class_of(text: Seq<char>) -> ClassView {
    class_given(text, hits_of(text), manifest_like(trim(text)))
}

/// What a selection is.
pub open spec fn full_class_of(text: Seq<char>) -> ClassView {
    let class = class_of(text);
    ClassView { manifest: class.manifest || manifest_like(trim(text)), ..class }
}

/// Classifies a selection, given which patterns matched it and whether it is a
/// manifest, which counts only if it has several lines.
pub fn classify_from(text: &str, hits: Hits, manifest: bool) -> (r: Classification)
    ensures
        r@ == class_given(text@, hits, manifest),
{
    let all = to_chars(text);
    let candidate = trim_chars(all.as_slice());
    if contains_char(candidate, '\n') {
        return Classification { manifest, ..Classification::default() };
    }
    let value = trim_trailing_punctuation(candidate);
    let address = after_prefix_chars(value, "mailto:");
    let url = if hits.url {
        Some(to_text(value))
    } else if hits.www {
        let mut with_scheme = owned("https://");
        with_scheme.append(to_text(value).as_str());
        Some(with_scheme)
    } else if address.is_some() && hits.address {
        Some(to_text(value))
    } else {
        None
    };
    let email = if hits.mailbox {
        let rest = match address {
            Some(address) => address,
            None => value,
        };
        Some(to_text(before_chars(rest, '?')))
    } else {
        None
    };
    let slash = to_chars("/");
    let home = to_chars("~/");
    let path = if candidate.len() > 1 && (begins_chars(candidate, slash.as_slice())
        || begins_chars(candidate, home.as_slice())) && !contains_char(candidate, '\0') {
        Some(to_text(candidate))
    } else {
        None
    };
    let phone = if hits.phone {
        let count: usize = count_digits(candidate);
        if 6 <= count && count <= 15 && !is_dated_or_versioned(candidate) {
            Some(compact_phone(candidate))
        } else {
            None
        }
    } else {
        None
    };
    let color = if hits.color {
        Some(to_text(candidate))
    } else {
        None
    };
    Classification { url, email, path, phone, color, manifest: false }
}

/// How many decimal digits a text has.
fn count_digits(text: &[char]) -> (r: usize)
    ensures
        r == digits(text@).len(),
{
    let mut n: usize = 0;
    for i in 0..text.len()
        invariant
            n == digits(text@.take(i as int)).len(),
            n <= i,
    {
        assert(text@.take(i + 1).drop_last() =~= text@.take(i as int));
        assert(text@.take(i + 1).last() == text@[i as int]);
        if '0' <= text[i] && text[i] <= '9' {
            n = n + 1;
        }
    }
    assert(text@.take(text@.len() as int) =~= text@);
    n
}

/// The patterns, compiled.
#[derive(Debug)]
pub struct Recognisers {
    url: Option<Pattern>,
    www: Option<Pattern>,
    email: Option<Pattern>,
    phone: Option<Pattern>,
    color: Option<Pattern>,
}

/// Whether an optional pattern is what compiling `source` gives.
spec fn compiled_from(pattern: Option<Pattern>, source: Seq<char>) -> bool {
    match pattern {
        Some(pattern) => regex_verdict(source) is Ok && pattern@ == source,
        None => regex_verdict(source) is Err,
    }
}

/// What is left of a pattern once it is compiled: itself, or nothing where it is
/// no regular expression.
pub open spec fn compiled(source: Seq<char>) -> Option<Seq<char>> {
    if regex_verdict(source) is Ok {
        Some(source)
    } else {
        None
    }
}

/// The contents of an optional pattern.
spec fn maybe_pattern(pattern: Option<Pattern>) -> Option<Seq<char>> {
    match pattern {
        Some(pattern) => Some(pattern@),
        None => None,
    }
}

/// Compiled patterns in specifications.
pub struct RecognisersView {
    pub url: Option<Seq<char>>,
    pub www: Option<Seq<char>>,
    pub email: Option<Seq<char>>,
    pub phone: Option<Seq<char>>,
    pub color: Option<Seq<char>>,
}

impl View for Recognisers {
    type V = RecognisersView;

    closed spec fn view(&self) -> RecognisersView {
        RecognisersView {
            url: maybe_pattern(self.url),
            www: maybe_pattern(self.www),
            email: maybe_pattern(self.email),
            phone: maybe_pattern(self.phone),
            color: maybe_pattern(self.color),
        }
    }
}

/// Compiles a pattern.
fn recogniser(source: &str) -> (r: Option<Pattern>)
    ensures
        compiled_from(r, source@),
{
    match Pattern::new(source) {
        Ok(pattern) => Some(pattern),
        Err(_) => None,
    }
}

/// Whether a text is recognised.
fn recognises(pattern: &Option<Pattern>, text: &[char], Ghost(source): Ghost<Seq<char>>) -> (r:
    bool)
    requires
        compiled_from(*pattern, source),
    ensures
        r == recognised(source, text@),
{
    match pattern {
        Some(pattern) => pattern.is_match(to_text(text).as_str()),
        None => false,
    }
}

impl Recognisers {
    /// Each field is the pattern of its name.
    #[verifier::type_invariant]
    spec fn ready(&self) -> bool {
        &&& compiled_from(self.url, URL@)
        &&& compiled_from(self.www, WWW@)
        &&& compiled_from(self.email, EMAIL@)
        &&& compiled_from(self.phone, PHONE@)
        &&& compiled_from(self.color, COLOR@)
    }

    /// Compiles the patterns.
    pub fn new() -> (r: Self)
        ensures
            r@ == (RecognisersView {
                url: compiled(URL@),
                www: compiled(WWW@),
                email: compiled(EMAIL@),
                phone: compiled(PHONE@),
                color: compiled(COLOR@),
            }),
    {
        Recognisers {
            url: recogniser(URL),
            www: recogniser(WWW),
            email: recogniser(EMAIL),
            phone: recogniser(PHONE),
            color: recogniser(COLOR),
        }
    }

    /// Finds out which patterns a selection matches.
    pub fn hits(&self, text: &str) -> (r: Hits)
        ensures
            r == hits_of(text@),
    {
        proof {
            use_type_invariant(self);
        }
        let all = to_chars(text);
        let candidate = trim_chars(all.as_slice());
        let value = trim_trailing_punctuation(candidate);
        let address = after_prefix_chars(value, "mailto:");
        let part = match address {
            Some(address) => before_chars(address, '?'),
            None => before_chars(value, '?'),
        };
        Hits {
            url: recognises(&self.url, value, Ghost(URL@)),
            www: recognises(&self.www, value, Ghost(WWW@)),
            address: match address {
                Some(address) => recognises(&self.email, address, Ghost(EMAIL@)),
                None => false,
            },
            mailbox: recognises(&self.email, part, Ghost(EMAIL@)),
            phone: recognises(&self.phone, candidate, Ghost(PHONE@)),
            color: recognises(&self.color, candidate, Ghost(COLOR@)),
        }
    }

    /// Classifies one settled selection.
    pub fn classify(&self, text: &str) -> (r: Classification)
        ensures
            r@ == class_of(text@),
    {
        let hits = self.hits(text);
        let all = to_chars(text);
        let candidate = trim_chars(all.as_slice());
        let manifest = contains_char(candidate, '\n') && is_manifest(
            to_text(candidate).as_str(),
        );
        classify_from(text, hits, manifest)
    }

    /// Classifies, including the manifest check for selections of one line.
    pub fn classify_full(&self, text: &str) -> (r: Classification)
        ensures
            r@ == full_class_of(text@),
    {
        let class = self.classify(text);
        let manifest = class.manifest || {
            let all = to_chars(text);
            is_manifest(to_text(trim_chars(all.as_slice())).as_str())
        };
        Classification { manifest, ..class }
    }
}

/// Whether a text mentions what every manifest must. This keeps the parser off
/// ordinary selections.
pub fn may_be_manifest(text: &str) -> (r: bool)
    ensures
        r == hints_at_manifest(text@),
{
    let all = to_chars(text);
    let id = to_chars("id");
    let title = to_chars("title");
    has_chars(all.as_slice(), id.as_slice()) && has_chars(all.as_slice(), title.as_slice())
        && contains_char(all.as_slice(), '=')
}

/// Whether a selection is itself an action manifest.
pub fn is_manifest(text: &str) -> (r: bool)
    ensures
        r == manifest_like(text@),
{
    may_be_manifest(text) && parse_manifest(text).is_ok()
}

/// Classifies one settled selection.
pub fn classify(text: &str) -> (r: Classification)
    ensures
        r@ == class_of(text@),
{
    let recognisers = Recognisers::new();
    recognisers.classify(text)
}

/// Classifies, including the manifest check for selections of one line (a
/// one-line manifest is legal TOML, if unusual).
pub fn classify_full(text: &str) -> (r: Classification)
    ensures
        r@ == full_class_of(text@),
{
    let recognisers = Recognisers::new();
    recognisers.classify_full(text)
}

// ---------------------------------------------------------------------------
// What classifying promises
// ---------------------------------------------------------------------------

/// White space around a selection makes no difference to what it is.
pub proof fn law_surrounding_space_is_ignored(text: Seq<char>)
    ensures
        class_of(trim(text)) == class_of(text),
        full_class_of(trim(text)) == full_class_of(text),
{
    law_trim(text);
}

/// A selection of several lines is a manifest or nothing at all.
pub proof fn law_several_lines_are_prose(text: Seq<char>)
    requires
        trim(text).contains('\n'),
    ensures
        class_of(text) == (ClassView { manifest: manifest_like(trim(text)), ..nothing() }),
{
}

/// The full classification differs from the plain one in the manifest check
/// alone, and tells for every selection whether it is a manifest.
pub proof fn law_full_classification_adds_the_manifest_check(text: Seq<char>)
    ensures
        full_class_of(text) == (ClassView {
            manifest: manifest_like(trim(text)),
            ..class_of(text)
        }),
{
}

/// Clipping drops characters from the end only, until the last one belongs to
/// the value; clipping again changes nothing.
pub proof fn law_clipping_is_complete(text: Seq<char>)
    ensures
        clipped(text).len() <= text.len(),
        clipped(text) == text.take(clipped(text).len() as int),
        !sheds_last(clipped(text)),
        clipped(clipped(text)) == clipped(text),
    decreases text.len(),
{
    if sheds_last(text) {
        law_clipping_is_complete(text.drop_last());
        let n = clipped(text).len() as int;
        assert(text.drop_last().take(n) =~= text.take(n));
    } else {
        assert(text.take(text.len() as int) =~= text);
    }
}

/// A detected URL is the selection without surrounding space and without
/// trailing punctuation, behind `https://` if it was recognised by its `www.`
/// alone. It never ends in sentence punctuation.
pub proof fn law_urls_are_clipped(text: Seq<char>, url: Seq<char>)
    requires
        class_of(text).url == Some(url),
    ensures
        !trim(text).contains('\n'),
        url == clipped(trim(text)) || url == "https://"@ + clipped(trim(text)),
        clipped(trim(text)).len() > 0 ==> !is_sentence_mark(url.last()),
{
    law_clipping_is_complete(trim(text));
    let value = clipped(trim(text));
    if value.len() > 0 && url == "https://"@ + value {
        assert(url.last() == value.last());
    }
}

/// The digits of a text are digits, and no more than it has characters.
proof fn lemma_digits(text: Seq<char>, i: int)
    ensures
        digits(text).len() <= text.len(),
        0 <= i < digits(text).len() ==> '0' <= digits(text)[i] <= '9',
    decreases text.len(),
{
    if text.len() > 0 {
        lemma_digits(text.drop_last(), i);
    }
}

/// A detected phone number is dialable as it stands: six to fifteen digits,
/// behind a `+` if the selection began with one.
pub proof fn law_phone_numbers_are_dialable(text: Seq<char>, phone: Seq<char>)
    requires
        class_of(text).phone == Some(phone),
    ensures
        ({
            let number = if phone[0] == '+' {
                phone.skip(1)
            } else {
                phone
            };
            &&& 6 <= number.len() <= 15
            &&& forall|i: int| 0 <= i < number.len() ==> '0' <= #[trigger] number[i] <= '9'
        }),
        phone[0] == '+' <==> trim(text).len() > 0 && trim(text)[0] == '+',
{
    let candidate = trim(text);
    let found = digits(candidate);
    assert forall|i: int| 0 <= i < found.len() implies '0' <= #[trigger] found[i] <= '9' by {
        lemma_digits(candidate, i);
    }
    lemma_digits(candidate, 0);
    if candidate.len() > 0 && candidate[0] == '+' {
        assert(phone.skip(1) =~= found);
    } else {
        assert(phone[0] == found[0]);
    }
}

/// Neither a date nor a version reads as a phone number, and any other text of
/// one line that looks like one and has a dialable number of digits does.
pub proof fn law_dates_and_versions_are_no_phone_numbers(text: Seq<char>)
    ensures
        dated(trim(text)) || versioned(trim(text)) ==> class_of(text).phone is None,
        !dated(trim(text)) && !versioned(trim(text)) && !trim(text).contains('\n') ==> (
        class_of(text).phone is Some <==> recognised(PHONE@, trim(text)) && 6 <= digits(
            trim(text),
        ).len() <= 15),
{
}

/// A value in one pair of brackets loses the closing one, and one with an equal
/// number of both that is not in such a pair keeps it.
pub proof fn law_stray_brackets_are_dropped(text: Seq<char>, open: char, close: char)
    requires
        (open == '(' && close == ')') || (open == '[' && close == ']') || (open == '{' && close
            == '}'),
        text.len() > 0,
        text.last() == close,
        count(text, open) == count(text, close),
    ensures
        wrapped(text, open, close) ==> clipped(text).len() < text.len(),
        !wrapped(text, open, close) ==> clipped(text) == text,
{
    law_clipping_is_complete(text.drop_last());
}

/// A detected path is the trimmed selection, rooted and of one line.
pub proof fn law_paths_are_rooted(text: Seq<char>, path: Seq<char>)
    requires
        class_of(text).path == Some(path),
    ensures
        path == trim(text),
        path.len() > 1,
        begins(path, "/"@) || begins(path, "~/"@),
        !path.contains('\n'),
        !path.contains('\0'),
{
}

/// A detected email address carries neither a `mailto:` prefix nor a query,
/// and is part of the selection.
pub proof fn law_addresses_are_bare(text: Seq<char>, email: Seq<char>)
    requires
        class_of(text).email == Some(email),
    ensures
        email == mailbox(clipped(trim(text))),
        !email.contains('?'),
        recognised(EMAIL@, email),
{
    let value = clipped(trim(text));
    lemma_before_is_prefix(value, '?');
    match addressed(value) {
        Some(address) => lemma_before_is_prefix(address, '?'),
        None => {},
    }
}

/// `mailto:` before an address, without a query, is a URL and an email address
/// at once: either both are detected or neither, unless the whole is a web URL
/// for another reason.
pub proof fn law_mailto_is_url_and_email(text: Seq<char>, address: Seq<char>)
    requires
        !trim(text).contains('\n'),
        addressed(clipped(trim(text))) == Some(address),
        !address.contains('?'),
        !hits_of(text).url,
        !hits_of(text).www,
    ensures
        class_of(text).url is Some <==> class_of(text).email is Some,
        class_of(text).email matches Some(email) ==> email == address,
{
    lemma_before_is_prefix(address, '?');
    let part = before(address, '?');
    if part.len() < address.len() {
        assert(address.contains(address[part.len() as int]));
    } else {
        assert(part =~= address);
    }
}

/// Any rooted selection of one line is a path, whatever else it holds, if it is
/// more than the root and holds no NUL; and nothing else is.
pub proof fn law_rooted_selections_are_paths(text: Seq<char>)
    requires
        !trim(text).contains('\n'),
    ensures
        ({
            let t = trim(text);
            let rooted = t.len() > 1 && (t[0] == '/' || (t[0] == '~' && t[1] == '/'));
            if rooted && (forall|i: int| 0 <= i < t.len() ==> #[trigger] t[i] as int
                != 0) {
                class_of(text).path == Some(t) && full_class_of(text).path == Some(t)
            } else {
                class_of(text).path is None && full_class_of(text).path is None
            }
        }),
{
    let t = trim(text);
    reveal_strlit("/");
    reveal_strlit("~/");
    if t.len() > 1 {
        assert("/"@.len() == 1 && "~/"@.len() == 2);
        assert(t.take(1)[0] == t[0] && t.take(2)[0] == t[0] && t.take(2)[1] == t[1]);
        if t[0] == '/' {
            assert(t.take(1) =~= "/"@);
        }
        if t[0] == '~' && t[1] == '/' {
            assert(t.take(2) =~= "~/"@);
        }
    }
    if t.contains('\0') {
        let i = t.index_of('\0');
        assert(t[i] as int == 0);
    }
    assert forall|i: int| 0 <= i < t.len() && !t.contains('\0') implies #[trigger] t[i] as int
        != 0 by {
        assert(t.contains(t[i]));
    }
}

/// What the patterns are.
pub proof fn law_the_patterns_are_these()
    ensures
        URL@ == r"^(?:https?|ftp)://\S+$"@,
        WWW@ == r"^www\.[\w-]+(?:\.[\w-]+)+(?:[/?#]\S*)?$"@,
        EMAIL@ == r"^[\w.+-]+@[\w-]+(?:\.[\w-]+)+$"@,
        PHONE@ == r"^\+?[0-9(][0-9 ().\-/]{4,24}[0-9]$"@,
        COLOR@
            == r"(?i)^(?:#(?:[0-9a-f]{3}|[0-9a-f]{4}|[0-9a-f]{6}|[0-9a-f]{8})|rgba?\([0-9., %]+\)|hsla?\([0-9., %deg]+\))$"@,
{
}

/// A clipped selection of one line that looks like a web address is a URL as it
/// is, and one that looks like a domain gains its scheme. Of any other, only
/// `mailto:` before what looks like an email address is one.
pub proof fn law_web_addresses_are_urls(text: Seq<char>, address: Seq<char>)
    requires
        !trim(text).contains('\n'),
    ensures
        ({
            let value = clipped(trim(text));
            let web = regex_matches(URL@, value) && regex_verdict(URL@) is Ok;
            let domain = regex_matches(WWW@, value) && regex_verdict(WWW@) is Ok;
            let mail = regex_matches(EMAIL@, address) && regex_verdict(EMAIL@) is Ok;
            &&& web ==> class_of(text).url == Some(value)
            &&& !web && domain ==> class_of(text).url == Some("https://"@ + value)
            &&& !web && !domain && value == "mailto:"@ + address ==> class_of(text).url == (
            if mail {
                Some(value)
            } else {
                None
            })
            &&& !web && !domain && (forall|rest: Seq<char>| value != "mailto:"@ + rest)
                ==> class_of(text).url is None
        }),
{
    let value = clipped(trim(text));
    law_prefixes_and_suffixes_are_the_ends(value, "mailto:"@, address);
    if let Some(rest) = addressed(value) {
        assert(value =~= "mailto:"@ + rest);
    }
}

/// What looks like an email address, without `mailto:` in front and without the
/// query behind, is one; and nothing else is.
pub proof fn law_mailboxes_are_emails(
    text: Seq<char>,
    mailbox: Seq<char>,
    query: Seq<char>,
    prefixed: bool,
    asked: bool,
)
    requires
        !trim(text).contains('\n'),
        !mailbox.contains('?'),
        !prefixed ==> !begins(clipped(trim(text)), "mailto:"@),
        clipped(trim(text)) == (if prefixed {
            "mailto:"@
        } else {
            Seq::empty()
        }) + mailbox + (if asked {
            seq!['?'] + query
        } else {
            Seq::empty()
        }),
    ensures
        class_of(text).email == (if regex_matches(EMAIL@, mailbox) && regex_verdict(EMAIL@) is Ok {
            Some(mailbox)
        } else {
            None
        }),
{
    let value = clipped(trim(text));
    let rest = mailbox + (if asked {
        seq!['?'] + query
    } else {
        Seq::empty()
    });
    law_before_ends_at_the_first_mark(mailbox, '?', query);
    if asked {
        assert(rest =~= mailbox.push('?') + query);
    } else {
        assert(rest =~= mailbox);
    }
    if prefixed {
        assert(value =~= "mailto:"@ + rest);
        law_prefixes_and_suffixes_are_the_ends(value, "mailto:"@, rest);
    } else {
        assert(value =~= rest);
    }
}

/// A colour is the trimmed selection, and whatever of one line looks like one is
/// one.
pub proof fn law_colours_are_taken_as_they_are(text: Seq<char>)
    requires
        !trim(text).contains('\n'),
    ensures
        class_of(text).color == (if regex_matches(COLOR@, trim(text)) && regex_verdict(COLOR@) is Ok {
            Some(trim(text))
        } else {
            None
        }),
{
}

/// A phone number is the digits of the selection in order, behind a plus sign if
/// the selection begins with one, and whatever of one line looks like one is one
/// if it has six to fifteen digits and is neither a date nor a version.
pub proof fn law_phone_numbers_are_digits(text: Seq<char>, more: Seq<char>, c: char)
    ensures
        digits(Seq::empty()) == Seq::<char>::empty(),
        48 <= c as int <= 57 ==> digits(more.push(c)) == digits(more).push(c),
        !(48 <= c as int <= 57) ==> digits(more.push(c)) == digits(more),
        !trim(text).contains('\n') ==> class_of(text).phone == ({
            let t = trim(text);
            let n = digits(t).len();
            if regex_matches(PHONE@, t) && regex_verdict(PHONE@) is Ok && !dated(t) && !versioned(t)
                && 6 <= n && n <= 15 {
                Some(
                    if t.len() > 0 && t[0] == '+' {
                        seq!['+'] + digits(t)
                    } else {
                        digits(t)
                    },
                )
            } else {
                None
            }
        }),
{
    assert(more.push(c).drop_last() =~= more);
}

/// A text is a manifest exactly if it declares an action, and says `id`, `title`
/// and an equals sign.
pub proof fn law_manifests_are_declarations(text: Seq<char>)
    ensures
        manifest_like(text) <==> manifest_outcome(text) is Ok && text.contains('=') && mentions(
            text,
            "id"@,
        ) && mentions(text, "title"@),
        full_class_of(text).manifest <==> manifest_like(trim(text)),
        class_of(text).manifest <==> trim(text).contains('\n') && manifest_like(trim(text)),
{
}

/// Each kind has its own value in a classification.
pub proof fn law_each_kind_has_its_own_value(class: ClassView)
    ensures
        detected(class, Detect::Url) == class.url,
        detected(class, Detect::Email) == class.email,
        detected(class, Detect::Path) == class.path,
        detected(class, Detect::Phone) == class.phone,
        detected(class, Detect::Color) == class.color,
        nothing().url is None && nothing().email is None && nothing().path is None,
        nothing().phone is None && nothing().color is None && !nothing().manifest,
{
}

/// A dot, comma, semicolon, colon, exclamation mark, question mark, quotation
/// mark, apostrophe or ellipsis at the end is dropped. A character that is
/// neither one of these nor a closing bracket stays, with all before it.
pub proof fn law_sentence_punctuation_is_dropped(text: Seq<char>, c: char)
    ensures
        clipped(Seq::empty()) == Seq::<char>::empty(),
        c == '.' || c == ',' || c == ';' || c == ':' || c == '!' || c == '?' || c == '"' || c
            == '\'' || c == '\u{2026}' ==> clipped(text.push(c)) == clipped(text),
        !(c == '.' || c == ',' || c == ';' || c == ':' || c == '!' || c == '?' || c == '"' || c
            == '\'' || c == '\u{2026}') && c != ')' && c != ']' && c != '}' ==> clipped(text.push(c))
            == text.push(c),
{
    assert(text.push(c).drop_last() =~= text);
    assert(text.push(c).last() == c);
}

/// A closing bracket at the end is dropped if there are not as many opening ones
/// before it.
pub proof fn law_unopened_brackets_are_dropped(text: Seq<char>)
    ensures
        count(text, '(') <= count(text, ')') ==> clipped(text.push(')')) == clipped(text),
        count(text, '[') <= count(text, ']') ==> clipped(text.push(']')) == clipped(text),
        count(text, '{') <= count(text, '}') ==> clipped(text.push('}')) == clipped(text),
{
    assert(text.push(')').drop_last() =~= text);
    assert(text.push(']').drop_last() =~= text);
    assert(text.push('}').drop_last() =~= text);
}

/// A text holds none of what it does not contain.
proof fn lemma_count_none(text: Seq<char>, c: char)
    requires
        !text.contains(c),
    ensures
        count(text, c) == 0,
    decreases text.len(),
{
    if text.len() > 0 {
        assert(text.contains(text.last()));
        assert forall|x: char| text.drop_last().contains(x) implies text.contains(x) by {
            let i = text.drop_last().index_of(x);
            assert(text[i] == x);
        }
        lemma_count_none(text.drop_last(), c);
    }
}

/// How often a character stands in a text with one more in front.
proof fn lemma_count_front(first: char, text: Seq<char>, c: char)
    ensures
        count(seq![first] + text, c) == count(text, c) + (if first == c {
            1nat
        } else {
            0nat
        }),
    decreases text.len(),
{
    let all = seq![first] + text;
    if text.len() == 0 {
        assert(all.drop_last() =~= Seq::<char>::empty());
        assert(count(all.drop_last(), c) == 0);
        assert(all.last() == first);
    } else {
        lemma_count_front(first, text.drop_last(), c);
        assert(all.drop_last() =~= seq![first] + text.drop_last());
    }
}

/// A value in brackets, with none inside, loses the closing one. Behind anything
/// else, the pair belongs to the value.
pub proof fn law_brackets_around_a_value_are_stray(
    before: Seq<char>,
    inner: Seq<char>,
    open: char,
    close: char,
)
    requires
        (open == '(' && close == ')') || (open == '[' && close == ']') || (open == '{' && close
            == '}'),
        !inner.contains(open) && !inner.contains(close),
        !before.contains(open) && !before.contains(close),
    ensures
        clipped(seq![open] + inner + seq![close]) == clipped(seq![open] + inner),
        before.len() > 0 ==> clipped(before + (seq![open] + inner + seq![close])) == before + (
        seq![open] + inner + seq![close]),
{
    let text = seq![open] + inner + seq![close];
    assert(text.drop_last() =~= seq![open] + inner);
    assert(text.last() == close && text[0] == open);
    lemma_count_none(inner, open);
    lemma_count_none(inner, close);
    lemma_count_front(open, inner, open);
    lemma_count_front(open, inner, close);
    assert forall|k: int| 0 < k < text.len() implies count(#[trigger] text.take(k), open) > count(
        text.take(k),
        close,
    ) by {
        let part = inner.take(k - 1);
        assert(text.take(k) =~= seq![open] + part);
        assert forall|x: char| part.contains(x) implies inner.contains(x) by {
            let i = part.index_of(x);
            assert(inner[i] == x);
        }
        lemma_count_none(part, open);
        lemma_count_none(part, close);
        lemma_count_front(open, part, open);
        lemma_count_front(open, part, close);
    }
    assert(wrapped(text, open, close));
    if before.len() > 0 {
        let all = before + text;
        assert(all.last() == close);
        assert(all[0] == before[0]);
        assert(before.contains(before[0]));
        lemma_count_added(before, text, open);
        lemma_count_added(before, text, close);
        lemma_count_none(before, open);
        lemma_count_none(before, close);
        assert(!sheds_last(all));
    }
}

/// How often a character stands in two texts.
proof fn lemma_count_added(a: Seq<char>, b: Seq<char>, c: char)
    ensures
        count(a + b, c) == count(a, c) + count(b, c),
    decreases b.len(),
{
    if b.len() == 0 {
        assert(a + b =~= a);
    } else {
        lemma_count_added(a, b.drop_last(), c);
        assert((a + b).drop_last() =~= a + b.drop_last());
    }
}

} // verus!
