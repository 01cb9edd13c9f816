//! Template expansion, and what running an action takes.

use vstd::prelude::*;
#[allow(unused_imports)]
use vstd::utf8::{decode_utf8, encode_utf8, encode_utf8_decode_utf8, valid_utf8};

use crate::classify::{Classification, Detect};
use crate::config::After;
use crate::manifest::{find_option, Action, OptionSpec};
use crate::selection::Grab;
use crate::text::{
    after_prefix_chars, find_chars, first_line_of, lossy, owned, push_chars, spells, to_chars,
    to_text, trim_chars, utf8_text,
};
#[allow(unused_imports)]
use crate::{
    classify::{ClassView, detected},
    manifest::{
        ActionView, OptionView, effective_value, lemma_option_search, option_named, options_view,
    },
    selection::GrabView,
    text::{
        after_prefix, find, first_line, lemma_find_from, lemma_find_skips, lossy_text, maybe_text,
        mentions, occurs_at, texts, trim, utf8_complaint,
    },
};

verus! {

// ---------------------------------------------------------------------------
// Percent-encoding
// ---------------------------------------------------------------------------

/// Whether a byte is in the unreserved set of RFC 3986.
pub open spec fn is_unreserved(byte: u8) -> bool {
    ||| 0x41 <= byte <= 0x5a
    ||| 0x61 <= byte <= 0x7a
    ||| 0x30 <= byte <= 0x39
    ||| byte == 0x2d
    ||| byte == 0x2e
    ||| byte == 0x5f
    ||| byte == 0x7e
}

/// The upper-case hexadecimal digit of a number below sixteen.
pub open spec fn hex_digit(n: int) -> char {
    if n < 10 {
        (0x30 + n) as char
    } else {
        (0x37 + n) as char
    }
}

/// One byte, percent-encoded.
pub open spec fn encoded_byte(byte: u8) -> Seq<char> {
    if is_unreserved(byte) {
        seq![byte as char]
    } else {
        seq!['%', hex_digit(byte as int / 16), hex_digit(byte as int % 16)]
    }
}

/// Bytes, percent-encoded.
pub open spec fn encoded_bytes(bytes: Seq<u8>) -> Seq<char>
    decreases bytes.len(),
{
    if bytes.len() == 0 {
        Seq::empty()
    } else {
        encoded_byte(bytes[0]) + encoded_bytes(bytes.skip(1))
    }
}

/// A text, percent-encoded for use in a URL query component: its UTF-8 bytes,
/// everything outside the unreserved set escaped.
pub open spec fn encoded(text: Seq<char>) -> Seq<char> {
    encoded_bytes(encode_utf8(text))
}

/// The digit of a number below sixteen.
fn hex(n: u8) -> (r: char)
    requires
        n < 16,
    ensures
        r == hex_digit(n as int),
{
    if n < 10 {
        (0x30 + n) as char
    } else {
        (0x37 + n) as char
    }
}

/// Percent-encodes for use in a URL query component.
///
/// Everything outside the RFC 3986 unreserved set is escaped, including `/`
/// and `:`, because expanded text is always a value and never structure.
pub fn percent_encode(s: &str) -> (r: String)
    ensures
        r@ == encoded(s@),
{
    let bytes = s.as_bytes();
    let ghost all = encode_utf8(s@);
    let mut out = String::new();
    proof {
        assert(all.skip(0) =~= all);
        assert(out@ + encoded_bytes(all) =~= encoded_bytes(all));
    }
    for i in 0..bytes.len()
        invariant
            bytes@ == all,
            out@ + encoded_bytes(all.skip(i as int)) == encoded_bytes(all),
    {
        let byte: u8 = bytes[i];
        let ghost before = out@;
        if (0x41 <= byte && byte <= 0x5a) || (0x61 <= byte && byte <= 0x7a) || (0x30 <= byte
            && byte <= 0x39) || byte == 0x2d || byte == 0x2e || byte == 0x5f || byte == 0x7e {
            out.push(byte as char);
        } else {
            out.push('%');
            out.push(hex(byte / 16));
            out.push(hex(byte % 16));
        }
        proof {
            assert(out@ =~= before + encoded_byte(byte));
            let rest = all.skip(i as int);
            assert(rest[0] == byte);
            assert(rest.skip(1) =~= all.skip(i + 1));
            assert(out@ + encoded_bytes(all.skip(i + 1)) =~= before + encoded_bytes(rest));
        }
    }
    proof {
        assert(all.skip(all.len() as int) =~= Seq::<u8>::empty());
        assert(out@ + encoded_bytes(Seq::<u8>::empty()) =~= out@);
    }
    out
}

// ---------------------------------------------------------------------------
// Expansion
// ---------------------------------------------------------------------------

/// What the `htmd` crate makes of HTML: Markdown, or nothing if it fails.
pub uninterp spec fn markdown_of(html: Seq<char>) -> Option<Seq<char>>;

/// `htmd::convert`: HTML as Markdown. The outcome depends on the HTML alone.
#[verifier::external_body]
fn convert_html(html: &str) -> (r: Option<String>)
    ensures
        maybe_text(r) == markdown_of(html@),
{
    match htmd::convert(html) {
        Ok(markdown) => Some(markdown),
        Err(_) => None,
    }
}

/// Everything placeholder expansion can draw on: the selection itself, its
/// classification, and the options the action declares.
pub struct Expansion<'a> {
    pub grab: &'a Grab,
    pub class: &'a Classification,
    /// The invoking action's `[options]` table, read by `{{option:NAME}}`.
    pub options: &'a Vec<(String, OptionSpec)>,
}

/// What expansion draws on, in specifications.
pub struct ExpansionView {
    pub grab: GrabView,
    pub class: ClassView,
    pub options: Seq<(Seq<char>, OptionView)>,
}

impl<'a> View for Expansion<'a> {
    type V = ExpansionView;

    open spec fn view(&self) -> ExpansionView {
        ExpansionView {
            grab: self.grab@,
            class: self.class@,
            options: options_view(self.options@),
        }
    }
}

/// A value as a template takes it: percent-encoded in a URL, else literal.
pub open spec fn plain(value: Seq<char>, url_mode: bool) -> Seq<char> {
    if url_mode {
        encoded(value)
    } else {
        value
    }
}

/// An optional value, nothing if there is none.
pub open spec fn or_nothing(value: Option<Seq<char>>) -> Seq<char> {
    match value {
        Some(value) => value,
        None => Seq::empty(),
    }
}

/// The kind whose value a placeholder stands for.
pub open spec fn detection_named(name: Seq<char>) -> Option<Detect> {
    if name == "url"@ {
        Some(Detect::Url)
    } else if name == "email"@ {
        Some(Detect::Email)
    } else if name == "path"@ {
        Some(Detect::Path)
    } else if name == "phone"@ {
        Some(Detect::Phone)
    } else if name == "color"@ {
        Some(Detect::Color)
    } else {
        None
    }
}

/// What an option placeholder expands to. An option that the action does not
/// declare expands to nothing.
pub open spec fn option_text(
    options: Seq<(Seq<char>, OptionView)>,
    name: Seq<char>,
    url_mode: bool,
) -> Seq<char> {
    match option_named(options, name) {
        Some(option) => plain(effective_value(option), url_mode),
        None => Seq::empty(),
    }
}

/// What a placeholder expands to, given what the HTML of the selection is as
/// Markdown. One that is not known survives.
pub open spec fn placeholder(
    name: Seq<char>,
    ctx: ExpansionView,
    url_mode: bool,
    markdown: Option<Seq<char>>,
) -> Seq<char> {
    let text = ctx.grab.text;
    if name == "text"@ {
        plain(text, url_mode)
    } else if name == "text_raw"@ {
        text
    } else if name == "text_trimmed"@ {
        plain(trim(text), url_mode)
    } else if name == "text_trimmed_raw"@ {
        trim(text)
    } else if name == "text_url"@ {
        encoded(text)
    } else if name == "text_trimmed_url"@ {
        encoded(trim(text))
    } else if name == "text_line"@ {
        plain(first_line(text), url_mode)
    } else if let Some(kind) = detection_named(name) {
        or_nothing(detected(ctx.class, kind))
    } else if name == "html"@ {
        match ctx.grab.html {
            Some(html) => html,
            None => plain(text, url_mode),
        }
    } else if name == "markdown"@ {
        match (ctx.grab.html, markdown) {
            (Some(_), Some(markdown)) => markdown,
            _ => plain(text, url_mode),
        }
    } else {
        match after_prefix(name, "option:"@) {
            Some(key) => option_text(ctx.options, trim(key), url_mode),
            None => "{{"@ + name + "}}"@,
        }
    }
}

/// A template with its placeholders expanded, given what the HTML of the
/// selection is as Markdown. An unterminated placeholder is kept as it is.
pub open spec fn expanded(
    template: Seq<char>,
    ctx: ExpansionView,
    url_mode: bool,
    markdown: Option<Seq<char>>,
) -> Seq<char>
    decreases template.len(),
{
    match find(template, "{{"@) {
        None => template,
        Some(start) => {
            let inside = template.skip(start + 2);
            match find(inside, "}}"@) {
                None => template,
                Some(end) => {
                    proof {
                        reveal_strlit("{{");
                        reveal_strlit("}}");
                        lemma_find_from(template, "{{"@, 0);
                        lemma_find_from(inside, "}}"@, 0);
                    }
                    template.take(start) + placeholder(
                        trim(inside.take(end)),
                        ctx,
                        url_mode,
                        markdown,
                    ) + expanded(inside.skip(end + 2), ctx, url_mode, markdown)
                },
            }
        },
    }
}

/// What the HTML of a selection is as Markdown.
pub open spec fn markdown_rendering(grab: GrabView) -> Option<Seq<char>> {
    match grab.html {
        Some(html) => markdown_of(html),
        None => None,
    }
}

/// Where the Markdown of a selection comes from.
enum Markdown<'a> {
    /// It is known.
    Given(&'a Option<String>),
    /// It is to be made from the HTML when a template asks for it.
    Convert,
}

/// The Markdown that a source gives for a selection.
spec fn markdown_from(source: Markdown<'_>, grab: GrabView) -> Option<Seq<char>> {
    match source {
        Markdown::Given(markdown) => maybe_text(*markdown),
        Markdown::Convert => markdown_rendering(grab),
    }
}

/// A value as a template takes it.
fn plain_text(value: &[char], url_mode: bool) -> (r: String)
    ensures
        r@ == plain(value@, url_mode),
{
    let text = to_text(value);
    if url_mode {
        percent_encode(text.as_str())
    } else {
        text
    }
}

/// A detected value, nothing if there is none.
fn detected_text(class: &Classification, kind: Detect) -> (r: String)
    ensures
        r@ == or_nothing(detected(class@, kind)),
{
    match class.get(kind) {
        Some(value) => owned(value),
        None => String::new(),
    }
}

/// Finds out whether a placeholder stands for a detected value.
fn read_detection(name: &[char]) -> (r: Option<Detect>)
    ensures
        r == detection_named(name@),
{
    if spells(name, "url") {
        Some(Detect::Url)
    } else if spells(name, "email") {
        Some(Detect::Email)
    } else if spells(name, "path") {
        Some(Detect::Path)
    } else if spells(name, "phone") {
        Some(Detect::Phone)
    } else if spells(name, "color") {
        Some(Detect::Color)
    } else {
        None
    }
}

/// Expands one placeholder.
fn expand_placeholder(
    name: &[char],
    ctx: &Expansion<'_>,
    url_mode: bool,
    markdown: &Markdown<'_>,
) -> (r: String)
    ensures
        r@ == placeholder(name@, ctx@, url_mode, markdown_from(*markdown, ctx@.grab)),
{
    let text = to_chars(ctx.grab.text.as_str());
    let text = text.as_slice();
    if spells(name, "text") {
        plain_text(text, url_mode)
    } else if spells(name, "text_raw") {
        to_text(text)
    } else if spells(name, "text_trimmed") {
        plain_text(trim_chars(text), url_mode)
    } else if spells(name, "text_trimmed_raw") {
        to_text(trim_chars(text))
    } else if spells(name, "text_url") {
        plain_text(text, true)
    } else if spells(name, "text_trimmed_url") {
        plain_text(trim_chars(text), true)
    } else if spells(name, "text_line") {
        plain_text(first_line_of(text), url_mode)
    } else if let Some(kind) = read_detection(name) {
        detected_text(ctx.class, kind)
    } else if spells(name, "html") {
        match &ctx.grab.html {
            Some(html) => html.clone(),
            None => plain_text(text, url_mode),
        }
    } else if spells(name, "markdown") {
        let rendering = match &ctx.grab.html {
            Some(html) => match markdown {
                Markdown::Given(Some(markdown)) => Some(markdown.clone()),
                Markdown::Given(None) => None,
                Markdown::Convert => convert_html(html.as_str()),
            },
            None => None,
        };
        match rendering {
            Some(markdown) => markdown,
            None => plain_text(text, url_mode),
        }
    } else {
        match after_prefix_chars(name, "option:") {
            Some(key) => {
                let key = to_text(trim_chars(key));
                match find_option(ctx.options, key.as_str()) {
                    Some(option) => {
                        let value = to_chars(option.effective());
                        plain_text(value.as_slice(), url_mode)
                    },
                    None => String::new(),
                }
            },
            None => {
                let mut out = owned("{{");
                push_chars(&mut out, name);
                out.append("}}");
                out
            },
        }
    }
}

/// Expands a template.
fn expand_from(
    template: &str,
    ctx: &Expansion<'_>,
    url_mode: bool,
    markdown: &Markdown<'_>,
) -> (r: String)
    ensures
        r@ == expanded(template@, ctx@, url_mode, markdown_from(*markdown, ctx@.grab)),
{
    let ghost given = markdown_from(*markdown, ctx@.grab);
    let all = to_chars(template);
    let open = to_chars("{{");
    let close = to_chars("}}");
    proof {
        reveal_strlit("{{");
        reveal_strlit("}}");
    }
    let mut rest: &[char] = all.as_slice();
    let mut out = String::new();
    assert(out@ + expanded(rest@, ctx@, url_mode, given) =~= expanded(
        template@,
        ctx@,
        url_mode,
        given,
    ));
    loop
        invariant
            open@ == "{{"@,
            close@ == "}}"@,
            open@.len() == 2,
            close@.len() == 2,
            given == markdown_from(*markdown, ctx@.grab),
            out@ + expanded(rest@, ctx@, url_mode, given) == expanded(
                template@,
                ctx@,
                url_mode,
                given,
            ),
        decreases rest@.len(),
    {
        let ghost before = out@;
        match find_chars(rest, open.as_slice()) {
            None => {
                push_chars(&mut out, rest);
                return out;
            },
            Some(start) => {
                let length: usize = rest.len();
                assert(start + 2 <= length);
                let inside = &rest[start + 2..length];
                assert(inside@ =~= rest@.skip(start + 2));
                match find_chars(inside, close.as_slice()) {
                    None => {
                        push_chars(&mut out, rest);
                        return out;
                    },
                    Some(end) => {
                        let head = &rest[0..start];
                        assert(head@ =~= rest@.take(start as int));
                        push_chars(&mut out, head);
                        let name = &inside[0..end];
                        assert(name@ =~= inside@.take(end as int));
                        let value = expand_placeholder(trim_chars(name), ctx, url_mode, markdown);
                        out.append(value.as_str());
                        let tail = &inside[end + 2..inside.len()];
                        assert(tail@ =~= inside@.skip(end + 2));
                        assert(out@ + expanded(tail@, ctx@, url_mode, given) =~= before
                            + expanded(rest@, ctx@, url_mode, given));
                        rest = tail;
                    },
                }
            },
        }
    }
}

/// Expands `{{...}}` placeholders in a template, given what the HTML of the
/// selection is as Markdown.
pub fn expand_with(
    template: &str,
    ctx: &Expansion<'_>,
    url_mode: bool,
    markdown: &Option<String>,
) -> (r: String)
    ensures
        r@ == expanded(template@, ctx@, url_mode, maybe_text(*markdown)),
{
    expand_from(template, ctx, url_mode, &Markdown::Given(markdown))
}

/// Expands `{{...}}` placeholders in a template.
///
/// In `url_mode` the plain `{{text}}` placeholder is percent-encoded, since
/// that is what a URL template almost always wants; `{{text_raw}}` opts out for
/// the cases where the selection is the URL. Outside `url_mode` it is the other
/// way round, and `{{text_url}}` opts in.
///
/// The detection placeholders, `{{url}}`, `{{email}}`, `{{path}}`, `{{phone}}`
/// and `{{color}}`, expand to the classified value verbatim. An undetected kind
/// expands to nothing.
///
/// `{{option:NAME}}` expands to the action's own option, encoded in `url_mode`
/// exactly as `{{text}}` is. An option the action does not declare expands to
/// nothing.
pub fn expand(template: &str, ctx: &Expansion<'_>, url_mode: bool) -> (r: String)
    ensures
        r@ == expanded(template@, ctx@, url_mode, markdown_rendering(ctx@.grab)),
{
    expand_from(template, ctx, url_mode, &Markdown::Convert)
}

// ---------------------------------------------------------------------------
// Running
// ---------------------------------------------------------------------------

/// How long a command may run before it is killed, in milliseconds. Actions are
/// meant to be quick; anything slower has almost certainly hung.
pub const EXEC_TIMEOUT_MS: u64 = 15000;

/// Interval between polls while waiting for a command to exit, in milliseconds.
pub const POLL_INTERVAL_MS: u64 = 20;

/// What the caller should do once an action has run.
#[derive(Debug, PartialEq, Eq)]
pub enum Outcome {
    /// Nothing further; the action was self-contained.
    Nothing,
    /// Put this on the clipboard.
    Clipboard(String),
    /// Put this on the clipboard and paste it over the selection.
    Replace(String),
    /// Show this in the bar's result view.
    Show(String),
}

/// An outcome in specifications.
pub enum OutcomeView {
    Nothing,
    Clipboard(Seq<char>),
    Replace(Seq<char>),
    Show(Seq<char>),
}

impl View for Outcome {
    type V = OutcomeView;

    open spec fn view(&self) -> OutcomeView {
        match self {
            Outcome::Nothing => OutcomeView::Nothing,
            Outcome::Clipboard(text) => OutcomeView::Clipboard(text@),
            Outcome::Replace(text) => OutcomeView::Replace(text@),
            Outcome::Show(text) => OutcomeView::Show(text@),
        }
    }
}

/// What becomes of an action's output.
pub open spec fn outcome_of(after: After, output: Seq<char>) -> OutcomeView {
    match after {
        After::Ignore => OutcomeView::Nothing,
        After::Copy => OutcomeView::Clipboard(output),
        After::Replace => OutcomeView::Replace(output),
        After::Show => OutcomeView::Show(output),
    }
}

/// Decides what becomes of an action's output.
pub fn finish(after: After, output: String) -> (r: Outcome)
    ensures
        r@ == outcome_of(after, output@),
{
    match after {
        After::Ignore => Outcome::Nothing,
        After::Copy => Outcome::Clipboard(output),
        After::Replace => Outcome::Replace(output),
        After::Show => Outcome::Show(output),
    }
}

/// What running an action takes.
#[derive(Debug, PartialEq, Eq)]
pub enum Step {
    /// Hand this URI to the desktop's handler.
    Open(String),
    /// Run this program with these arguments. Its output is the result.
    Spawn {
        program: String,
        args: Vec<String>,
        /// What to feed it on stdin, if anything.
        stdin: Option<String>,
    },
    /// Nothing; this is the outcome.
    Done(Outcome),
}

/// A step in specifications.
pub enum StepView {
    Open(Seq<char>),
    Spawn { program: Seq<char>, args: Seq<Seq<char>>, stdin: Option<Seq<char>> },
    Done(OutcomeView),
}

impl View for Step {
    type V = StepView;

    open spec fn view(&self) -> StepView {
        match self {
            Step::Open(uri) => StepView::Open(uri@),
            Step::Spawn { program, args, stdin } => StepView::Spawn {
                program: program@,
                args: texts(args@),
                stdin: maybe_text(*stdin),
            },
            Step::Done(outcome) => StepView::Done(outcome@),
        }
    }
}

/// Why an action failed.
#[derive(Debug, PartialEq, Eq)]
pub enum RunError {
    /// Its `exec` has no program.
    EmptyExec,
    /// The command ran too long and was killed.
    TimedOut { id: String },
    /// The command failed.
    Failed { id: String, status: String, stderr: String },
    /// The command's output is not text; the cause says where.
    NotText { id: String, cause: String },
}

/// A failure in specifications.
pub enum RunErrorView {
    EmptyExec,
    TimedOut { id: Seq<char> },
    Failed { id: Seq<char>, status: Seq<char>, stderr: Seq<char> },
    NotText { id: Seq<char>, cause: Seq<char> },
}

impl View for RunError {
    type V = RunErrorView;

    open spec fn view(&self) -> RunErrorView {
        match self {
            RunError::EmptyExec => RunErrorView::EmptyExec,
            RunError::TimedOut { id } => RunErrorView::TimedOut { id: id@ },
            RunError::Failed { id, status, stderr } => RunErrorView::Failed {
                id: id@,
                status: status@,
                stderr: stderr@,
            },
            RunError::NotText { id, cause } => RunErrorView::NotText { id: id@, cause: cause@ },
        }
    }
}

/// What a failure says to the user.
pub open spec fn run_error_text(error: RunErrorView) -> Seq<char> {
    match error {
        RunErrorView::EmptyExec => "`exec` is empty"@,
        RunErrorView::TimedOut { id } => "action `"@ + id
            + "` did not finish within 15s and was killed"@,
        RunErrorView::Failed { id, status, stderr } => "action `"@ + id + "` exited with "@
            + status + ": "@ + trim(stderr),
        RunErrorView::NotText { id, cause } => "action `"@ + id
            + "` produced non-UTF-8 output: "@ + cause,
    }
}

impl RunError {
    /// What to say to the user.
    pub fn message(&self) -> (r: String)
        ensures
            r@ == run_error_text(self@),
    {
        match self {
            RunError::EmptyExec => owned("`exec` is empty"),
            RunError::TimedOut { id } => {
                let mut out = owned("action `");
                out.append(id.as_str());
                out.append("` did not finish within 15s and was killed");
                out
            },
            RunError::Failed { id, status, stderr } => {
                let mut out = owned("action `");
                out.append(id.as_str());
                out.append("` exited with ");
                out.append(status.as_str());
                out.append(": ");
                let detail = to_chars(stderr.as_str());
                push_chars(&mut out, trim_chars(detail.as_slice()));
                out
            },
            RunError::NotText { id, cause } => {
                let mut out = owned("action `");
                out.append(id.as_str());
                out.append("` produced non-UTF-8 output: ");
                out.append(cause.as_str());
                out
            },
        }
    }
}

/// Arguments, each expanded on its own.
pub open spec fn expanded_args(
    args: Seq<Seq<char>>,
    ctx: ExpansionView,
    markdown: Option<Seq<char>>,
) -> Seq<Seq<char>> {
    args.map_values(|arg: Seq<char>| expanded(arg, ctx, false, markdown))
}

/// What running an action takes: opening its URL, running its command, or,
/// where it has neither, using the selection itself as the result.
pub open spec fn running(
    action: ActionView,
    ctx: ExpansionView,
    markdown: Option<Seq<char>>,
) -> Result<StepView, RunErrorView> {
    match (action.spec.url, action.spec.command) {
        (Some(url), _) => Ok(StepView::Open(expanded(url, ctx, true, markdown))),
        (None, None) => Ok(StepView::Done(outcome_of(action.spec.after, ctx.grab.text))),
        (None, Some(argv)) => if argv.len() == 0 {
            Err(RunErrorView::EmptyExec)
        } else {
            let all = expanded_args(argv, ctx, markdown);
            Ok(
                StepView::Spawn {
                    program: all[0],
                    args: all.skip(1),
                    stdin: if action.spec.stdin {
                        Some(ctx.grab.text)
                    } else {
                        None
                    },
                },
            )
        },
    }
}

/// Whether a result is as a specification says.
pub open spec fn is_step(
    r: Result<Step, RunError>,
    expected: Result<StepView, RunErrorView>,
) -> bool {
    match r {
        Ok(step) => expected == Ok::<StepView, RunErrorView>(step@),
        Err(error) => expected == Err::<StepView, RunErrorView>(error@),
    }
}

/// Finds out what running an action takes.
fn run_from(action: &Action, ctx: &Expansion<'_>, markdown: &Markdown<'_>) -> (r: Result<
    Step,
    RunError,
>)
    ensures
        is_step(r, running(action@, ctx@, markdown_from(*markdown, ctx@.grab))),
{
    let ghost given = markdown_from(*markdown, ctx@.grab);
    match &action.spec.url {
        Some(url) => {
            return Ok(Step::Open(expand_from(url.as_str(), ctx, true, markdown)));
        },
        None => {},
    }
    let argv = match &action.spec.command {
        Some(argv) => argv,
        None => {
            return Ok(Step::Done(finish(action.spec.after, ctx.grab.text.clone())));
        },
    };
    if argv.len() == 0 {
        return Err(RunError::EmptyExec);
    }
    let ghost all = expanded_args(texts(argv@), ctx@, given);
    let program = expand_from(argv[0].as_str(), ctx, false, markdown);
    let mut args: Vec<String> = Vec::new();
    for i in 1..argv.len()
        invariant
            given == markdown_from(*markdown, ctx@.grab),
            all == expanded_args(texts(argv@), ctx@, given),
            argv.len() > 0,
            args@.len() == i - 1,
            forall|k: int| 0 <= k < args@.len() ==> (#[trigger] args@[k])@ == all[k + 1],
    {
        let arg = expand_from(argv[i].as_str(), ctx, false, markdown);
        assert(texts(argv@)[i as int] == argv@[i as int]@);
        args.push(arg);
    }
    assert(texts(argv@)[0] == argv@[0]@);
    assert(texts(args@) =~= all.skip(1));
    let stdin = if action.spec.stdin {
        Some(ctx.grab.text.clone())
    } else {
        None
    };
    Ok(Step::Spawn { program, args, stdin })
}

/// Finds out what running an action takes, given what the HTML of the selection
/// is as Markdown.
pub fn run_with(action: &Action, ctx: &Expansion<'_>, markdown: &Option<String>) -> (r: Result<
    Step,
    RunError,
>)
    ensures
        is_step(r, running(action@, ctx@, maybe_text(*markdown))),
{
    run_from(action, ctx, &Markdown::Given(markdown))
}

/// Finds out what running `action` against the selection in `ctx` takes.
///
/// Builtins never reach this function: they need keystrokes, which the engine
/// plans.
pub fn run(action: &Action, ctx: &Expansion<'_>) -> (r: Result<Step, RunError>)
    ensures
        is_step(r, running(action@, ctx@, markdown_rendering(ctx@.grab))),
{
    run_from(action, ctx, &Markdown::Convert)
}

/// What to do about a command that was started.
#[derive(Debug, Clone, Copy, PartialEq, Eq, Structural)]
pub enum Poll {
    /// It exited; collect its output.
    Collect,
    /// It ran too long; kill it and report that.
    Kill,
    /// It is still running; look again after the poll interval.
    Sleep,
}

/// What to do about a command that was started `elapsed_ms` ago.
pub open spec fn polled(exited: bool, elapsed_ms: u64) -> Poll {
    if exited {
        Poll::Collect
    } else if elapsed_ms >= EXEC_TIMEOUT_MS {
        Poll::Kill
    } else {
        Poll::Sleep
    }
}

/// Decides what to do about a command that was started `elapsed_ms` ago.
pub fn poll(exited: bool, elapsed_ms: u64) -> (r: Poll)
    ensures
        r == polled(exited, elapsed_ms),
        r == (if exited {
            Poll::Collect
        } else if elapsed_ms >= EXEC_TIMEOUT_MS {
            Poll::Kill
        } else {
            Poll::Sleep
        }),
{
    if exited {
        Poll::Collect
    } else if elapsed_ms >= EXEC_TIMEOUT_MS {
        Poll::Kill
    } else {
        Poll::Sleep
    }
}

/// What was collected of a command, in specifications.
pub open spec fn collected_view(r: Result<String, RunError>) -> Result<Seq<char>, RunErrorView> {
    match r {
        Ok(output) => Ok(output@),
        Err(error) => Err(error@),
    }
}

/// What a command that ended comes to, given its output as text.
pub open spec fn collected(
    id: Seq<char>,
    success: bool,
    status: Seq<char>,
    stdout: Result<Seq<char>, Seq<char>>,
    stderr: Seq<char>,
) -> Result<Seq<char>, RunErrorView> {
    if success {
        match stdout {
            Ok(text) => Ok(text),
            Err(cause) => Err(RunErrorView::NotText { id, cause }),
        }
    } else {
        Err(RunErrorView::Failed { id, status, stderr })
    }
}

/// What a command that ended comes to.
pub open spec fn collected_bytes(
    id: Seq<char>,
    success: bool,
    status: Seq<char>,
    stdout: Seq<u8>,
    stderr: Seq<u8>,
) -> Result<Seq<char>, RunErrorView> {
    collected(
        id,
        success,
        status,
        if valid_utf8(stdout) {
            Ok(decode_utf8(stdout))
        } else {
            Err(utf8_complaint(stdout))
        },
        lossy_text(stderr),
    )
}

/// Makes an action's output of what its command left behind: whether it
/// succeeded, its status in words, its output as text or why it is none, and
/// its error output in words.
pub fn collect_with(
    id: &str,
    success: bool,
    status: &str,
    stdout: Result<String, String>,
    stderr: &str,
) -> (r: Result<String, RunError>)
    ensures
        collected_view(r) == collected(
            id@,
            success,
            status@,
            match stdout {
                Ok(text) => Ok::<Seq<char>, Seq<char>>(text@),
                Err(cause) => Err::<Seq<char>, Seq<char>>(cause@),
            },
            stderr@,
        ),
        match r {
            Ok(output) => success && (stdout matches Ok(text) && output@ == text@),
            Err(error) => if success {
                stdout matches Err(cause) && error@ == (RunErrorView::NotText {
                    id: id@,
                    cause: cause@,
                })
            } else {
                error@ == (RunErrorView::Failed { id: id@, status: status@, stderr: stderr@ })
            },
        },
{
    if !success {
        return Err(
            RunError::Failed { id: owned(id), status: owned(status), stderr: owned(stderr) },
        );
    }
    match stdout {
        Ok(output) => Ok(output),
        Err(cause) => Err(RunError::NotText { id: owned(id), cause }),
    }
}

/// Makes an action's output of what its command left behind: whether it
/// succeeded, its status in words, its output and its error output.
pub fn collect(
    id: &str,
    success: bool,
    status: &str,
    stdout: Vec<u8>,
    stderr: &[u8],
) -> (r: Result<String, RunError>)
    ensures
        collected_view(r) == collected_bytes(id@, success, status@, stdout@, stderr@),
        match r {
            Ok(output) => success && valid_utf8(stdout@) && output@ == decode_utf8(stdout@),
            Err(error) => if success {
                !valid_utf8(stdout@) && error@ == (RunErrorView::NotText {
                    id: id@,
                    cause: utf8_complaint(stdout@),
                })
            } else {
                error@ == (RunErrorView::Failed {
                    id: id@,
                    status: status@,
                    stderr: lossy_text(stderr@),
                })
            },
        },
{
    collect_with(id, success, status, utf8_text(stdout), lossy(stderr).as_str())
}

// ---------------------------------------------------------------------------
// What encoding promises
// ---------------------------------------------------------------------------

/// The number that a hexadecimal digit stands for.
pub open spec fn hex_value(c: char) -> int {
    if '0' <= c <= '9' {
        c as int - 0x30
    } else {
        c as int - 0x37
    }
}

/// The bytes that a percent-encoded text stands for.
pub open spec fn decoded(text: Seq<char>) -> Seq<u8>
    decreases text.len(),
{
    if text.len() == 0 {
        Seq::empty()
    } else if text[0] == '%' && text.len() >= 3 {
        seq![(16 * hex_value(text[1]) + hex_value(text[2])) as u8] + decoded(text.skip(3))
    } else {
        seq![text[0] as u8] + decoded(text.skip(1))
    }
}

/// Decoding gives back the bytes that were encoded.
proof fn lemma_decoding(bytes: Seq<u8>)
    ensures
        decoded(encoded_bytes(bytes)) == bytes,
    decreases bytes.len(),
{
    if bytes.len() > 0 {
        let b = bytes[0];
        let rest = bytes.skip(1);
        let text = encoded_bytes(bytes);
        lemma_decoding(rest);
        if is_unreserved(b) {
            assert(text[0] == b as char);
            assert(text.skip(1) =~= encoded_bytes(rest));
        } else {
            let n = b as int;
            assert(text[0] == '%');
            assert(text[1] == hex_digit(n / 16));
            assert(text[2] == hex_digit(n % 16));
            assert(text.skip(3) =~= encoded_bytes(rest));
            assert(hex_value(text[1]) == n / 16);
            assert(hex_value(text[2]) == n % 16);
        }
        assert(seq![b] + rest =~= bytes);
    } else {
        assert(decoded(encoded_bytes(bytes)) =~= bytes);
    }
}

/// Nothing is lost in encoding: percent-decoding gives back the UTF-8 bytes of
/// the text, so no two texts are encoded alike.
pub proof fn law_encoding_loses_nothing(a: Seq<char>, b: Seq<char>)
    ensures
        decoded(encoded(a)) == encode_utf8(a),
        encoded(a) == encoded(b) ==> a == b,
{
    lemma_decoding(encode_utf8(a));
    lemma_decoding(encode_utf8(b));
    encode_utf8_decode_utf8(a);
    encode_utf8_decode_utf8(b);
}

/// Whether `c` may stand in encoded text.
pub open spec fn is_url_safe(c: char) -> bool {
    ||| 'A' <= c <= 'Z'
    ||| 'a' <= c <= 'z'
    ||| '0' <= c <= '9'
    ||| c == '-'
    ||| c == '.'
    ||| c == '_'
    ||| c == '~'
    ||| c == '%'
}

/// Encoded bytes hold safe characters only.
proof fn lemma_encoded_safe(bytes: Seq<u8>, i: int)
    requires
        0 <= i < encoded_bytes(bytes).len(),
    ensures
        is_url_safe(encoded_bytes(bytes)[i]),
    decreases bytes.len(),
{
    let head = encoded_byte(bytes[0]);
    if i < head.len() {
        assert(encoded_bytes(bytes)[i] == head[i]);
    } else {
        lemma_encoded_safe(bytes.skip(1), i - head.len());
    }
}

/// Encoded text is a value and never structure: it holds unreserved characters
/// and percent signs only, and in particular no `/`, `:`, `?` or `&`.
pub proof fn law_encoded_text_is_never_structure(text: Seq<char>, i: int)
    requires
        0 <= i < encoded(text).len(),
    ensures
        is_url_safe(encoded(text)[i]),
{
    lemma_encoded_safe(encode_utf8(text), i);
}

// ---------------------------------------------------------------------------
// What expansion promises
// ---------------------------------------------------------------------------

/// A template without placeholders is left alone.
pub proof fn law_plain_templates_are_left_alone(
    template: Seq<char>,
    ctx: ExpansionView,
    url_mode: bool,
    markdown: Option<Seq<char>>,
)
    requires
        !mentions(template, "{{"@),
    ensures
        expanded(template, ctx, url_mode, markdown) == template,
{
}

/// A search for two characters in a row finds them right behind a text that
/// neither holds them nor ends in the first of them.
proof fn lemma_find_behind(head: Seq<char>, pair: Seq<char>, tail: Seq<char>)
    requires
        pair.len() == 2,
        !mentions(head, pair),
        head.len() > 0 ==> head.last() != pair[0],
    ensures
        find(head + pair + tail, pair) == Some(head.len() as int),
{
    let all = head + pair + tail;
    let n = head.len() as int;
    assert(all.subrange(n, n + 2) =~= pair);
    assert(occurs_at(all, pair, n));
    lemma_find_from(head, pair, 0);
    assert forall|j: int| 0 <= j < n implies !#[trigger] occurs_at(all, pair, j) by {
        if occurs_at(all, pair, j) {
            let part = all.subrange(j, j + 2);
            assert(part[0] == all[j]);
            assert(all[j] == head[j]);
            if j + 2 <= n {
                assert(head.subrange(j, j + 2) =~= part);
                assert(occurs_at(head, pair, j));
            }
        }
    }
    lemma_find_skips(all, pair, 0, n);
}

/// A placeholder is replaced where it stands: what is before it is kept, what
/// is behind it is expanded on its own.
pub proof fn law_placeholders_are_replaced_in_place(
    head: Seq<char>,
    name: Seq<char>,
    tail: Seq<char>,
    ctx: ExpansionView,
    url_mode: bool,
    markdown: Option<Seq<char>>,
)
    requires
        !mentions(head, "{{"@),
        head.len() > 0 ==> head.last() != '{',
        !mentions(name, "}}"@),
        name.len() > 0 ==> name.last() != '}',
    ensures
        expanded(head + "{{"@ + name + "}}"@ + tail, ctx, url_mode, markdown) == head
            + placeholder(trim(name), ctx, url_mode, markdown) + expanded(
            tail,
            ctx,
            url_mode,
            markdown,
        ),
{
    reveal_strlit("{{");
    reveal_strlit("}}");
    let template = head + "{{"@ + name + "}}"@ + tail;
    let inside = name + "}}"@ + tail;
    assert(template =~= head + "{{"@ + inside);
    lemma_find_behind(head, "{{"@, inside);
    lemma_find_behind(name, "}}"@, tail);
    assert(template.skip(head.len() as int + 2) =~= inside);
    assert(template.take(head.len() as int) =~= head);
    assert(inside.take(name.len() as int) =~= name);
    assert(inside.skip(name.len() as int + 2) =~= tail);
}

/// An unterminated placeholder is kept as it is, with all that follows it,
/// rather than silently truncating the template.
pub proof fn law_unterminated_placeholders_are_kept(
    head: Seq<char>,
    rest: Seq<char>,
    ctx: ExpansionView,
    url_mode: bool,
    markdown: Option<Seq<char>>,
)
    requires
        !mentions(head, "{{"@),
        head.len() > 0 ==> head.last() != '{',
        !mentions(rest, "}}"@),
    ensures
        expanded(head + "{{"@ + rest, ctx, url_mode, markdown) == head + "{{"@ + rest,
{
    reveal_strlit("{{");
    let template = head + "{{"@ + rest;
    lemma_find_behind(head, "{{"@, rest);
    assert(template.skip(head.len() as int + 2) =~= rest);
}

/// The selection itself: encoded in a URL and literal elsewhere, unless the
/// placeholder says otherwise.
pub proof fn law_text_is_encoded_in_urls_only(
    ctx: ExpansionView,
    url_mode: bool,
    markdown: Option<Seq<char>>,
)
    ensures
        placeholder("text"@, ctx, true, markdown) == encoded(ctx.grab.text),
        placeholder("text"@, ctx, false, markdown) == ctx.grab.text,
        placeholder("text_raw"@, ctx, url_mode, markdown) == ctx.grab.text,
        placeholder("text_url"@, ctx, url_mode, markdown) == encoded(ctx.grab.text),
{
    reveal_strlit("text");
    reveal_strlit("text_raw");
    reveal_strlit("text_trimmed");
    reveal_strlit("text_trimmed_raw");
    reveal_strlit("text_url");
    assert("text"@.len() != "text_raw"@.len());
    assert("text"@.len() != "text_url"@.len());
    assert("text_raw"@[5] != "text_url"@[5]);
    assert("text_url"@.len() != "text_trimmed"@.len());
    assert("text_url"@.len() != "text_trimmed_raw"@.len());
}

/// A detected value is spliced in verbatim, in a URL as elsewhere; an
/// undetected kind expands to nothing.
pub proof fn law_detected_values_are_verbatim(
    name: Seq<char>,
    kind: Detect,
    ctx: ExpansionView,
    url_mode: bool,
    markdown: Option<Seq<char>>,
)
    requires
        detection_named(name) == Some(kind),
    ensures
        placeholder(name, ctx, url_mode, markdown) == or_nothing(detected(ctx.class, kind)),
{
    reveal_strlit("url");
    reveal_strlit("email");
    reveal_strlit("path");
    reveal_strlit("phone");
    reveal_strlit("color");
    reveal_strlit("text");
    reveal_strlit("text_raw");
    reveal_strlit("text_trimmed");
    reveal_strlit("text_trimmed_raw");
    reveal_strlit("text_url");
    reveal_strlit("text_trimmed_url");
    reveal_strlit("text_line");
    assert("path"@[0] != "text"@[0]);
}

/// An option placeholder is the option's value, encoded in a URL exactly as the
/// selection is, and nothing if the action declares no such option.
pub proof fn law_options_are_values(
    key: Seq<char>,
    ctx: ExpansionView,
    url_mode: bool,
    markdown: Option<Seq<char>>,
)
    ensures
        placeholder("option:"@ + key, ctx, url_mode, markdown) == option_text(
            ctx.options,
            trim(key),
            url_mode,
        ),
{
    let name = "option:"@ + key;
    reveal_strlit("option:");
    assert(name[0] == 'o');
    reveal_strlit("url");
    reveal_strlit("email");
    reveal_strlit("path");
    reveal_strlit("phone");
    reveal_strlit("color");
    reveal_strlit("html");
    reveal_strlit("markdown");
    reveal_strlit("text");
    reveal_strlit("text_raw");
    reveal_strlit("text_trimmed");
    reveal_strlit("text_trimmed_raw");
    reveal_strlit("text_url");
    reveal_strlit("text_trimmed_url");
    reveal_strlit("text_line");
    assert("text"@[0] == 't' && "text_raw"@[0] == 't' && "text_trimmed"@[0] == 't');
    assert("text_trimmed_raw"@[0] == 't' && "text_url"@[0] == 't');
    assert("text_trimmed_url"@[0] == 't' && "text_line"@[0] == 't');
    assert("url"@[0] == 'u' && "email"@[0] == 'e' && "path"@[0] == 'p');
    assert("phone"@[0] == 'p' && "color"@[0] == 'c' && "html"@[0] == 'h');
    assert("markdown"@[0] == 'm');
    assert(name.take(7) =~= "option:"@);
    assert(name.skip(7) =~= key);
}

/// An argv keeps its shape: every argument expands to exactly one argument, so
/// selected text is never split up or reinterpreted.
pub proof fn law_argv_keeps_its_shape(
    action: ActionView,
    ctx: ExpansionView,
    markdown: Option<Seq<char>>,
    argv: Seq<Seq<char>>,
)
    requires
        action.spec.url is None,
        action.spec.command == Some(argv),
        argv.len() > 0,
    ensures
        running(action, ctx, markdown) matches Ok(StepView::Spawn { program, args, stdin }) && {
            &&& program == expanded(argv[0], ctx, false, markdown)
            &&& args.len() + 1 == argv.len()
            &&& forall|i: int|
                0 <= i < args.len() ==> #[trigger] args[i] == expanded(
                    argv[i + 1],
                    ctx,
                    false,
                    markdown,
                )
        },
{
}

/// Selections without formatting fall back to plain text: without HTML, and
/// where the HTML cannot be converted, `{{html}}` and `{{markdown}}` are what
/// `{{text}}` is. Formatted text is spliced in verbatim.
pub proof fn law_formatting_falls_back_to_plain_text(
    ctx: ExpansionView,
    url_mode: bool,
    markdown: Option<Seq<char>>,
)
    ensures
        placeholder("html"@, ctx, url_mode, markdown) == match ctx.grab.html {
            Some(html) => html,
            None => placeholder("text"@, ctx, url_mode, markdown),
        },
        placeholder("markdown"@, ctx, url_mode, markdown) == match (ctx.grab.html, markdown) {
            (Some(_), Some(markdown)) => markdown,
            _ => placeholder("text"@, ctx, url_mode, markdown),
        },
{
    reveal_strlit("url");
    reveal_strlit("email");
    reveal_strlit("path");
    reveal_strlit("phone");
    reveal_strlit("color");
    reveal_strlit("html");
    reveal_strlit("markdown");
    reveal_strlit("text");
    reveal_strlit("text_raw");
    reveal_strlit("text_trimmed");
    reveal_strlit("text_trimmed_raw");
    reveal_strlit("text_url");
    reveal_strlit("text_trimmed_url");
    reveal_strlit("text_line");
    assert("text"@[0] == 't' && "text_raw"@[0] == 't' && "text_trimmed"@[0] == 't');
    assert("text_trimmed_raw"@[0] == 't' && "text_url"@[0] == 't');
    assert("text_trimmed_url"@[0] == 't' && "text_line"@[0] == 't');
    assert("url"@[0] == 'u' && "email"@[0] == 'e' && "path"@[0] == 'p');
    assert("phone"@[0] == 'p' && "color"@[0] == 'c' && "html"@[0] == 'h');
    assert("markdown"@[0] == 'm');
}

/// The names of the placeholders are different from each other, and none of them
/// begins like an option.
proof fn lemma_placeholder_names()
    ensures
        "text"@.len() == 4 && "path"@.len() == 4 && "html"@.len() == 4,
        "text_raw"@.len() == 8 && "text_url"@.len() == 8 && "markdown"@.len() == 8,
        "text_trimmed_raw"@.len() == 16 && "text_trimmed_url"@.len() == 16,
        "text_trimmed"@.len() == 12 && "text_line"@.len() == 9 && "url"@.len() == 3,
        "email"@.len() == 5 && "phone"@.len() == 5 && "color"@.len() == 5,
        "text"@[0] == 't' && "path"@[0] == 'p' && "html"@[0] == 'h',
        "text_raw"@[5] == 'r' && "text_url"@[5] == 'u' && "markdown"@[5] == 'o',
        "text_trimmed_raw"@[13] == 'r' && "text_trimmed_url"@[13] == 'u',
        "email"@[0] == 'e' && "phone"@[0] == 'p' && "color"@[0] == 'c',
        "option:"@.len() == 7 && "option:"@[0] == 'o',
        "text_raw"@[0] == 't' && "text_url"@[0] == 't' && "markdown"@[0] == 'm',
        "text_trimmed_raw"@[0] == 't' && "text_trimmed_url"@[0] == 't',
        "text_trimmed"@[0] == 't' && "text_line"@[0] == 't' && "url"@[0] == 'u',
{
    reveal_strlit("url");
    reveal_strlit("email");
    reveal_strlit("path");
    reveal_strlit("phone");
    reveal_strlit("color");
    reveal_strlit("html");
    reveal_strlit("markdown");
    reveal_strlit("text");
    reveal_strlit("text_raw");
    reveal_strlit("text_trimmed");
    reveal_strlit("text_trimmed_raw");
    reveal_strlit("text_url");
    reveal_strlit("text_trimmed_url");
    reveal_strlit("text_line");
    reveal_strlit("option:");
}

/// Each detection placeholder stands for the value of its own kind: `{{url}}`
/// for the URL, `{{email}}` for the email address, `{{path}}` for the path,
/// `{{phone}}` for the phone number and `{{color}}` for the colour, and for
/// nothing where there is none.
pub proof fn law_each_detection_placeholder_has_its_own_value(
    ctx: ExpansionView,
    url_mode: bool,
    markdown: Option<Seq<char>>,
)
    ensures
        placeholder("url"@, ctx, url_mode, markdown) == (match ctx.class.url {
            Some(url) => url,
            None => Seq::empty(),
        }),
        placeholder("email"@, ctx, url_mode, markdown) == (match ctx.class.email {
            Some(email) => email,
            None => Seq::empty(),
        }),
        placeholder("path"@, ctx, url_mode, markdown) == (match ctx.class.path {
            Some(path) => path,
            None => Seq::empty(),
        }),
        placeholder("phone"@, ctx, url_mode, markdown) == (match ctx.class.phone {
            Some(phone) => phone,
            None => Seq::empty(),
        }),
        placeholder("color"@, ctx, url_mode, markdown) == (match ctx.class.color {
            Some(color) => color,
            None => Seq::empty(),
        }),
{
    lemma_placeholder_names();
}

/// The placeholders for parts of the selection: without the white space around
/// it, and its first line. They are encoded in a URL and literal elsewhere, and
/// the raw and the encoded form can be asked for.
pub proof fn law_each_text_placeholder_has_its_own_part(
    ctx: ExpansionView,
    url_mode: bool,
    markdown: Option<Seq<char>>,
)
    ensures
        placeholder("text_trimmed"@, ctx, true, markdown) == encoded(trim(ctx.grab.text)),
        placeholder("text_trimmed"@, ctx, false, markdown) == trim(ctx.grab.text),
        placeholder("text_trimmed_raw"@, ctx, url_mode, markdown) == trim(ctx.grab.text),
        placeholder("text_trimmed_url"@, ctx, url_mode, markdown) == encoded(trim(ctx.grab.text)),
        placeholder("text_line"@, ctx, true, markdown) == encoded(first_line(ctx.grab.text)),
        placeholder("text_line"@, ctx, false, markdown) == first_line(ctx.grab.text),
{
    lemma_placeholder_names();
}

/// A placeholder that means nothing survives as it was written, so the mistake
/// can be seen.
pub proof fn law_unknown_placeholders_survive(
    name: Seq<char>,
    ctx: ExpansionView,
    url_mode: bool,
    markdown: Option<Seq<char>>,
)
    requires
        name != "text"@ && name != "text_raw"@ && name != "text_url"@,
        name != "text_trimmed"@ && name != "text_trimmed_raw"@ && name != "text_trimmed_url"@,
        name != "text_line"@ && name != "html"@ && name != "markdown"@,
        name != "url"@ && name != "email"@ && name != "path"@,
        name != "phone"@ && name != "color"@,
        forall|key: Seq<char>| name != "option:"@ + key,
    ensures
        placeholder(name, ctx, url_mode, markdown) == "{{"@ + name + "}}"@,
{
    if let Some(key) = after_prefix(name, "option:"@) {
        assert(name =~= "option:"@ + key);
    }
}

/// An option placeholder is the chosen value of the first option of that name,
/// or its default where none is chosen: encoded in a URL, literal elsewhere.
/// White space around the name does not count, and a name that no option has
/// gives nothing.
pub proof fn law_an_option_placeholder_is_the_chosen_value(
    key: Seq<char>,
    i: int,
    ctx: ExpansionView,
    url_mode: bool,
    markdown: Option<Seq<char>>,
)
    requires
        0 <= i <= ctx.options.len(),
        forall|k: int| 0 <= k < i ==> (#[trigger] ctx.options[k]).0 != trim(key),
        i < ctx.options.len() ==> ctx.options[i].0 == trim(key),
    ensures
        i == ctx.options.len() ==> placeholder("option:"@ + key, ctx, url_mode, markdown)
            == Seq::<char>::empty(),
        i < ctx.options.len() ==> placeholder("option:"@ + key, ctx, url_mode, markdown) == ({
            let value = match ctx.options[i].1.value {
                Some(value) => value,
                None => ctx.options[i].1.default,
            };
            if url_mode {
                encoded(value)
            } else {
                value
            }
        }),
{
    law_options_are_values(key, ctx, url_mode, markdown);
    lemma_option_search(ctx.options, trim(key), 0, i);
}

/// Encoding goes byte by byte. The letters and digits of ASCII, the hyphen, the
/// dot, the underscore and the tilde stay; any other byte becomes a percent sign
/// and its two hexadecimal digits, in upper case.
pub proof fn law_encoding_goes_byte_by_byte(head: Seq<u8>, byte: u8, tail: Seq<u8>)
    ensures
        encoded_bytes(head + tail) == encoded_bytes(head) + encoded_bytes(tail),
        ({
            let n = byte as int;
            if (65 <= n && n <= 90) || (97 <= n && n <= 122) || (48 <= n && n <= 57) || n == 45
                || n == 46 || n == 95 || n == 126 {
                encoded_bytes(seq![byte]).len() == 1 && encoded_bytes(seq![byte])[0] as int == n
            } else {
                encoded_bytes(seq![byte]) == seq![
                    '%',
                    "0123456789ABCDEF"@[n / 16],
                    "0123456789ABCDEF"@[n % 16],
                ]
            }
        }),
    decreases head.len(),
{
    if head.len() == 0 {
        assert(head + tail =~= tail);
        assert(encoded_bytes(head) + encoded_bytes(tail) =~= encoded_bytes(tail));
    } else {
        let rest = head.skip(1);
        law_encoding_goes_byte_by_byte(rest, byte, tail);
        assert((head + tail).skip(1) =~= rest + tail);
        assert(encoded_bytes(head + tail) =~= encoded_bytes(head) + encoded_bytes(tail));
    }
    assert(seq![byte].skip(1) =~= Seq::<u8>::empty());
    assert(encoded_bytes(Seq::<u8>::empty()) =~= Seq::<char>::empty());
    assert(encoded_bytes(seq![byte]) =~= encoded_byte(byte));
    reveal_strlit("0123456789ABCDEF");
}

/// A text is encoded as its UTF-8 bytes are.
pub proof fn law_text_is_encoded_as_its_utf8_bytes(text: Seq<char>)
    ensures
        encoded(text) == encoded_bytes(encode_utf8(text)),
{
}

// ---------------------------------------------------------------------------
// What running promises
// ---------------------------------------------------------------------------

/// A command gets the whole selection on stdin if its action asks for that, and
/// nothing otherwise.
pub proof fn law_stdin_is_the_whole_selection(
    action: ActionView,
    ctx: ExpansionView,
    markdown: Option<Seq<char>>,
    argv: Seq<Seq<char>>,
)
    requires
        action.spec.url is None,
        action.spec.command == Some(argv),
        argv.len() > 0,
    ensures
        running(action, ctx, markdown) matches Ok(StepView::Spawn { program, args, stdin })
            && (action.spec.stdin ==> stdin == Some(ctx.grab.text)) && (!action.spec.stdin
            ==> stdin is None),
{
}

/// A URL is opened with the selection encoded into it. An action with neither a
/// URL nor a command hands the whole selection on, and a command without a
/// program is an error.
pub proof fn law_an_action_opens_runs_or_hands_on(
    action: ActionView,
    ctx: ExpansionView,
    markdown: Option<Seq<char>>,
)
    ensures
        action.spec.url matches Some(url) ==> running(action, ctx, markdown) == Ok::<
            StepView,
            RunErrorView,
        >(StepView::Open(expanded(url, ctx, true, markdown))),
        action.spec.url is None && action.spec.command is None && action.spec.after == After::Ignore
            ==> running(action, ctx, markdown) == Ok::<StepView, RunErrorView>(
            StepView::Done(OutcomeView::Nothing),
        ),
        action.spec.url is None && action.spec.command is None && action.spec.after == After::Copy
            ==> running(action, ctx, markdown) == Ok::<StepView, RunErrorView>(
            StepView::Done(OutcomeView::Clipboard(ctx.grab.text)),
        ),
        action.spec.url is None && action.spec.command is None && action.spec.after
            == After::Replace ==> running(action, ctx, markdown) == Ok::<StepView, RunErrorView>(
            StepView::Done(OutcomeView::Replace(ctx.grab.text)),
        ),
        action.spec.url is None && action.spec.command is None && action.spec.after == After::Show
            ==> running(action, ctx, markdown) == Ok::<StepView, RunErrorView>(
            StepView::Done(OutcomeView::Show(ctx.grab.text)),
        ),
        action.spec.url is None && action.spec.command == Some(Seq::<Seq<char>>::empty())
            ==> running(action, ctx, markdown) == Err::<StepView, RunErrorView>(
            RunErrorView::EmptyExec,
        ),
{
}

/// What a command printed goes where its action says, whole: nowhere, to the
/// clipboard, over the selection, or into the bar.
pub proof fn law_output_goes_where_the_action_says(output: Seq<char>)
    ensures
        outcome_of(After::Ignore, output) == OutcomeView::Nothing,
        outcome_of(After::Copy, output) == OutcomeView::Clipboard(output),
        outcome_of(After::Replace, output) == OutcomeView::Replace(output),
        outcome_of(After::Show, output) == OutcomeView::Show(output),
{
}

/// A command that exited is collected, however long it took. One that still runs
/// after fifteen seconds is killed, and not before.
pub proof fn law_commands_have_fifteen_seconds(elapsed_ms: u64)
    ensures
        polled(true, elapsed_ms) == Poll::Collect,
        elapsed_ms < 15000 ==> polled(false, elapsed_ms) == Poll::Sleep,
        15000 <= elapsed_ms ==> polled(false, elapsed_ms) == Poll::Kill,
{
}

/// The words for a failure name the action, and say what the command itself said,
/// without the white space around it.
pub proof fn law_failures_name_the_action(
    id: Seq<char>,
    status: Seq<char>,
    stderr: Seq<char>,
    cause: Seq<char>,
)
    ensures
        run_error_text(RunErrorView::TimedOut { id }) == "action `"@ + id
            + "` did not finish within 15s and was killed"@,
        run_error_text(RunErrorView::Failed { id, status, stderr }) == "action `"@ + id
            + "` exited with "@ + status + ": "@ + trim(stderr),
        run_error_text(RunErrorView::NotText { id, cause }) == "action `"@ + id
            + "` produced non-UTF-8 output: "@ + cause,
        run_error_text(RunErrorView::EmptyExec) == "`exec` is empty"@,
{
}

/// What a command that succeeded wrote is taken whole, white space and line ends
/// included. What is not text is an error, and so is a failure, whatever was
/// written, with its status and all that the command complained of.
pub proof fn law_output_is_taken_whole(
    id: Seq<char>,
    status: Seq<char>,
    text: Seq<char>,
    stdout: Seq<u8>,
    stderr: Seq<u8>,
)
    ensures
        collected_bytes(id, true, status, encode_utf8(text), stderr) == Ok::<
            Seq<char>,
            RunErrorView,
        >(text),
        !valid_utf8(stdout) ==> collected_bytes(id, true, status, stdout, stderr) == Err::<
            Seq<char>,
            RunErrorView,
        >(RunErrorView::NotText { id, cause: utf8_complaint(stdout) }),
        collected_bytes(id, false, status, stdout, stderr) == Err::<Seq<char>, RunErrorView>(
            RunErrorView::Failed { id, status, stderr: lossy_text(stderr) },
        ),
        collected(id, true, status, Ok(text), lossy_text(stderr)) == Ok::<Seq<char>, RunErrorView>(
            text,
        ),
{
    vstd::utf8::encode_utf8_valid_utf8(text);
    encode_utf8_decode_utf8(text);
}

/// What is run is what was worked out: this program with these arguments, in
/// order, and this on its standard input, all of it; or this address; or this
/// outcome. A failure is handed on.
pub proof fn law_what_is_run_is_what_was_worked_out(
    r: Result<Step, RunError>,
    expected: Result<StepView, RunErrorView>,
    i: int,
)
    requires
        is_step(r, expected),
    ensures
        r is Err <==> expected is Err,
        r matches Ok(Step::Open(uri)) ==> expected == Ok::<StepView, RunErrorView>(
            StepView::Open(uri@),
        ),
        r matches Ok(Step::Spawn { program, args, stdin }) ==> (expected matches Ok(
            StepView::Spawn { program: name, args: words, stdin: fed },
        ) && program@ == name && args@.len() == words.len() && (0 <= i < words.len() ==> args@[i]@
            == words[i]) && (stdin is Some <==> fed is Some) && (stdin matches Some(text)
            ==> fed == Some(text@))),
        r matches Ok(Step::Done(Outcome::Nothing)) ==> expected == Ok::<StepView, RunErrorView>(
            StepView::Done(OutcomeView::Nothing),
        ),
        r matches Ok(Step::Done(Outcome::Clipboard(text))) ==> expected == Ok::<
            StepView,
            RunErrorView,
        >(StepView::Done(OutcomeView::Clipboard(text@))),
        r matches Ok(Step::Done(Outcome::Replace(text))) ==> expected == Ok::<
            StepView,
            RunErrorView,
        >(StepView::Done(OutcomeView::Replace(text@))),
        r matches Ok(Step::Done(Outcome::Show(text))) ==> expected == Ok::<StepView, RunErrorView>(
            StepView::Done(OutcomeView::Show(text@)),
        ),
{
}

} // verus!
