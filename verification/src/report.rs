//! What grabit prints: the list of actions, the capability report and the
//! explanation of why it cannot run.

use vstd::prelude::*;

use crate::config::Builtin;
use crate::detect::{choose_frontend, Capabilities, Frontend};
use crate::manifest::Action;
use crate::text::{join_texts, owned, to_chars};
#[allow(unused_imports)]
use crate::{
    catalog::action_views,
    detect::frontend_of,
    manifest::ActionView,
    text::{joined, texts},
};

verus! {

// ---------------------------------------------------------------------------
// Setting text
// ---------------------------------------------------------------------------

/// This many spaces.
pub open spec fn spaces(n: int) -> Seq<char>
    decreases n,
{
    if n <= 0 {
        Seq::empty()
    } else {
        spaces(n - 1).push(' ')
    }
}

/// `text` with spaces behind it up to a width.
pub open spec fn padded(text: Seq<char>, width: int) -> Seq<char> {
    text + spaces(width - text.len())
}

/// A decimal digit.
pub open spec fn digit(n: int) -> char {
    ('0' as int + n) as char
}

/// The decimal digits of a number that is not negative, without leading zeros.
pub open spec fn numeral(n: int) -> Seq<char>
    decreases n,
{
    if n < 10 {
        seq![digit(n)]
    } else {
        numeral(n / 10).push(digit(n % 10))
    }
}

/// A number in decimal.
pub open spec fn decimal(n: int) -> Seq<char> {
    if n < 0 {
        seq!['-'] + numeral(-n)
    } else {
        numeral(n)
    }
}

/// Appends `text` with spaces behind it up to a width.
fn append_padded(out: &mut String, text: &str, width: usize)
    ensures
        final(out)@ == old(out)@ + padded(text@, width as int),
{
    let ghost start = out@;
    let have: usize = to_chars(text).len();
    out.append(text);
    let mut have_now: usize = have;
    assert(start + text@ + spaces(0) =~= start + text@);
    while have_now < width
        invariant
            have == text@.len(),
            have <= have_now,
            have_now <= width || have_now == have,
            out@ == start + text@ + spaces(have_now - have),
        decreases width - have_now,
    {
        out.push(' ');
        have_now = have_now + 1;
        assert(start + text@ + spaces(have_now - have) =~= (start + text@ + spaces(
            have_now - have - 1,
        )).push(' '));
    }
    if have > width {
        assert(spaces(width - have) =~= spaces(0));
    }
    assert(start + text@ + spaces(width - have) =~= start + padded(text@, width as int));
}

/// A decimal digit.
fn digit_of(n: u64) -> (r: char)
    requires
        n < 10,
    ensures
        r == digit(n as int),
{
    (48 + n as u8) as char
}

/// Appends a number's digits.
fn append_numeral(out: &mut String, n: u64)
    ensures
        final(out)@ == old(out)@ + numeral(n as int),
    decreases n,
{
    let ghost start = out@;
    if n < 10 {
        out.push(digit_of(n));
        assert(start.push(digit(n as int)) =~= start + numeral(n as int));
    } else {
        append_numeral(out, n / 10);
        out.push(digit_of(n % 10));
        assert((start + numeral(n as int / 10)).push(digit(n as int % 10)) =~= start + numeral(
            n as int,
        ));
    }
}

/// A number in decimal.
pub fn decimal_text(n: i32) -> (r: String)
    ensures
        r@ == decimal(n as int),
{
    let mut out = String::new();
    if n < 0 {
        out.push('-');
        assert(out@ =~= seq!['-']);
        append_numeral(&mut out, (-(n as i64)) as u64);
    } else {
        append_numeral(&mut out, n as u64);
        assert(out@ =~= numeral(n as int));
    }
    out
}

// ---------------------------------------------------------------------------
// The list of actions
// ---------------------------------------------------------------------------

/// Whether a shell reads a character as anything but itself.
pub open spec fn is_shell_special(c: char) -> bool {
    ||| c == '\n' || c == '\'' || c == '|' || c == '&' || c == ';' || c == '<' || c == '>'
    ||| c == '(' || c == ')' || c == '$' || c == '`' || c == '\\' || c == '"' || c == ' '
    ||| c == '\t' || c == '*' || c == '?' || c == '[' || c == '#' || c == '~' || c == '='
    ||| c == '%'
}

/// `word` for between single quotes. A quote in it ends them, stands escaped,
/// and begins them anew.
pub open spec fn quote_escaped(word: Seq<char>) -> Seq<char>
    decreases word.len(),
{
    if word.len() == 0 {
        Seq::empty()
    } else if word.last() == '\'' {
        quote_escaped(word.drop_last()) + seq!['\'', '\\', '\'', '\'']
    } else {
        quote_escaped(word.drop_last()).push(word.last())
    }
}

/// `word` as a shell has to be given it. Only a word that needs quotes gets
/// them.
pub open spec fn shell_quoted(word: Seq<char>) -> Seq<char> {
    if word.len() == 0 || exists|i: int| 0 <= i < word.len() && is_shell_special(word[i]) {
        seq!['\''] + quote_escaped(word) + seq!['\'']
    } else {
        word
    }
}

/// Words as one command line.
pub open spec fn shell_line(words: Seq<Seq<char>>) -> Seq<char> {
    joined(words.map_values(|word: Seq<char>| shell_quoted(word)), seq![' '])
}

/// `shell_words::join`: each word quoted where a shell would read a character
/// of it as anything but itself, or where it is empty, and a space between each
/// two.
#[verifier::external_body]
fn join_words(words: &Vec<String>) -> (r: String)
    ensures
        r@ == shell_line(texts(words@)),
{
    shell_words::join(words)
}

/// What an action does. The first of its ways counts.
pub open spec fn kind(action: ActionView) -> Seq<char> {
    match action.spec.builtin {
        Some(Builtin::Cut) => "builtin cut"@,
        Some(Builtin::Paste) => "builtin paste"@,
        None => match action.spec.url {
            Some(url) => "url "@ + url,
            None => match action.spec.command {
                Some(words) => "exec "@ + shell_line(words),
                None => "selection"@,
            },
        },
    }
}

/// The two lines of an action in the list: what it is, and where it came from.
pub open spec fn listing(action: ActionView) -> Seq<char> {
    padded(action.spec.id, 12) + " "@ + padded(action.spec.title, 24) + " order="@ + padded(
        decimal(action.spec.order as int),
        4,
    ) + " "@ + kind(action) + (if action.spec.enabled {
        ""@
    } else {
        "  [disabled]"@
    }) + "\n"@ + padded(""@, 12) + " "@ + action.origin + "\n"@
}

/// The list of the first `n` actions.
pub open spec fn listings(actions: Seq<ActionView>, n: int) -> Seq<char>
    decreases n,
{
    if n <= 0 {
        Seq::empty()
    } else {
        listings(actions, n - 1) + listing(actions[n - 1])
    }
}

/// What an action does.
fn kind_of(action: &Action) -> (r: String)
    ensures
        r@ == kind(action@),
{
    match action.spec.builtin {
        Some(Builtin::Cut) => owned("builtin cut"),
        Some(Builtin::Paste) => owned("builtin paste"),
        None => match &action.spec.url {
            Some(url) => {
                let mut out = owned("url ");
                out.append(url.as_str());
                out
            },
            None => match &action.spec.command {
                Some(words) => {
                    let mut out = owned("exec ");
                    out.append(join_words(words).as_str());
                    out
                },
                None => owned("selection"),
            },
        },
    }
}

/// The two lines of an action in the list.
pub fn list_action(action: &Action) -> (r: String)
    ensures
        r@ == listing(action@),
{
    let order = decimal_text(action.spec.order);
    let kind = kind_of(action);
    let mut out = String::new();
    append_padded(&mut out, action.spec.id.as_str(), 12);
    assert(out@ =~= padded(action@.spec.id, 12));
    out.append(" ");
    append_padded(&mut out, action.spec.title.as_str(), 24);
    out.append(" order=");
    append_padded(&mut out, order.as_str(), 4);
    out.append(" ");
    out.append(kind.as_str());
    out.append(if action.spec.enabled { "" } else { "  [disabled]" });
    out.append("\n");
    append_padded(&mut out, "", 12);
    out.append(" ");
    out.append(action.origin.as_str());
    out.append("\n");
    out
}

/// The list of the actions and where they came from.
pub fn list_actions(actions: &Vec<Action>) -> (r: String)
    ensures
        r@ == listings(action_views(actions@), actions@.len() as int),
{
    let ghost all = action_views(actions@);
    let mut out = String::new();
    assert(out@ =~= Seq::<char>::empty());
    for i in 0..actions.len()
        invariant
            all == action_views(actions@),
            out@ == listings(all, i as int),
    {
        assert(all[i as int] == actions@[i as int]@);
        out.append(list_action(&actions[i]).as_str());
    }
    out
}

// ---------------------------------------------------------------------------
// The capability report
// ---------------------------------------------------------------------------

/// The words of the report, in the language of the reader.
#[derive(Debug)]
pub struct Wording {
    pub capabilities: String,
    pub selection: String,
    pub layer_shell: String,
    pub virtual_keyboard: String,
    pub foreign_toplevel: String,
    pub shell_extension: String,
    pub yes: String,
    pub no: String,
    pub frontend: String,
    pub frontend_layer: String,
    pub frontend_gnome: String,
    pub frontend_none: String,
    pub no_paste: String,
    pub config: String,
    pub actions: String,
}

/// The larger of two numbers.
pub open spec fn larger(a: int, b: int) -> int {
    if a >= b {
        a
    } else {
        b
    }
}

/// The length of the longest label of the report.
pub open spec fn label_width(words: Wording) -> int {
    larger(
        words.selection@.len() as int,
        larger(
            words.layer_shell@.len() as int,
            larger(
                words.virtual_keyboard@.len() as int,
                larger(
                    words.foreign_toplevel@.len() as int,
                    words.shell_extension@.len() as int,
                ),
            ),
        ),
    )
}

/// One row of the report. The values stand below each other.
pub open spec fn row(label: Seq<char>, width: int, words: Wording, present: bool) -> Seq<char> {
    "  "@ + padded(label, width) + " : "@ + (if present {
        words.yes@
    } else {
        words.no@
    }) + "\n"@
}

/// The rows of the report.
pub open spec fn rows(words: Wording, capabilities: Capabilities, gnome: bool) -> Seq<char> {
    let width = label_width(words);
    row(words.selection@, width, words, capabilities.data_control) + row(
        words.layer_shell@,
        width,
        words,
        capabilities.layer_shell,
    ) + row(words.virtual_keyboard@, width, words, capabilities.virtual_keyboard) + row(
        words.foreign_toplevel@,
        width,
        words,
        capabilities.foreign_toplevel,
    ) + row(words.shell_extension@, width, words, gnome)
}

/// A front-end in words.
pub open spec fn frontend_words(words: Wording, frontend: Frontend) -> Seq<char> {
    match frontend {
        Frontend::Layer => words.frontend_layer@,
        Frontend::Gnome => words.frontend_gnome@,
        Frontend::Unsupported => words.frontend_none@,
    }
}

/// The whole report: the capabilities, the front-end, a remark where nothing
/// can paste, where the configuration is and what came of the actions in it.
pub open spec fn doctor_report(
    words: Wording,
    capabilities: Capabilities,
    gnome: bool,
    config_dir: Seq<char>,
    actions: Seq<char>,
) -> Seq<char> {
    words.capabilities@ + "\n"@ + rows(words, capabilities, gnome) + "\n"@ + words.frontend@
        + ": "@ + frontend_words(words, frontend_of(capabilities, gnome)) + "\n"@ + (
    if !capabilities.virtual_keyboard && !gnome {
        words.no_paste@ + "\n"@
    } else {
        ""@
    }) + "\n"@ + words.config@ + ": "@ + config_dir + "\n"@ + words.actions@ + ": "@ + actions
        + "\n"@
}

/// The larger of two numbers.
fn larger_of(a: usize, b: usize) -> (r: usize)
    ensures
        r == larger(a as int, b as int),
{
    if a >= b {
        a
    } else {
        b
    }
}

/// One row of the report.
fn row_of(label: &str, width: usize, words: &Wording, present: bool) -> (r: String)
    ensures
        r@ == row(label@, width as int, *words, present),
{
    let mut out = owned("  ");
    append_padded(&mut out, label, width);
    out.append(" : ");
    out.append(if present { words.yes.as_str() } else { words.no.as_str() });
    out.append("\n");
    out
}

/// The rows of the report.
fn rows_of(words: &Wording, capabilities: &Capabilities, gnome: bool) -> (r: String)
    ensures
        r@ == rows(*words, *capabilities, gnome),
{
    let width: usize = larger_of(
        to_chars(words.selection.as_str()).len(),
        larger_of(
            to_chars(words.layer_shell.as_str()).len(),
            larger_of(
                to_chars(words.virtual_keyboard.as_str()).len(),
                larger_of(
                    to_chars(words.foreign_toplevel.as_str()).len(),
                    to_chars(words.shell_extension.as_str()).len(),
                ),
            ),
        ),
    );
    let mut out = row_of(words.selection.as_str(), width, words, capabilities.data_control);
    out.append(row_of(words.layer_shell.as_str(), width, words, capabilities.layer_shell).as_str());
    out.append(
        row_of(
            words.virtual_keyboard.as_str(),
            width,
            words,
            capabilities.virtual_keyboard,
        ).as_str(),
    );
    out.append(
        row_of(
            words.foreign_toplevel.as_str(),
            width,
            words,
            capabilities.foreign_toplevel,
        ).as_str(),
    );
    out.append(row_of(words.shell_extension.as_str(), width, words, gnome).as_str());
    out
}

/// The report of what a session supports, given where the configuration is and
/// what came of the actions in it.
pub fn doctor(
    words: &Wording,
    capabilities: &Capabilities,
    gnome: bool,
    config_dir: &str,
    actions: &str,
) -> (r: String)
    ensures
        r@ == doctor_report(*words, *capabilities, gnome, config_dir@, actions@),
{
    let mut out = owned(words.capabilities.as_str());
    out.append("\n");
    let table = rows_of(words, capabilities, gnome);
    out.append(table.as_str());
    out.append("\n");
    out.append(words.frontend.as_str());
    out.append(": ");
    out.append(
        match choose_frontend(capabilities, gnome) {
            Frontend::Layer => words.frontend_layer.as_str(),
            Frontend::Gnome => words.frontend_gnome.as_str(),
            Frontend::Unsupported => words.frontend_none.as_str(),
        },
    );
    out.append("\n");
    let remark = if !capabilities.virtual_keyboard && !gnome {
        let mut remark = owned(words.no_paste.as_str());
        remark.append("\n");
        remark
    } else {
        owned("")
    };
    out.append(remark.as_str());
    out.append("\n");
    out.append(words.config.as_str());
    out.append(": ");
    out.append(config_dir);
    out.append("\n");
    out.append(words.actions.as_str());
    out.append(": ");
    out.append(actions);
    out.append("\n");
    out
}

// ---------------------------------------------------------------------------
// Why it cannot run
// ---------------------------------------------------------------------------

/// What a session lacks of what the native front-end needs.
pub open spec fn lacking(capabilities: Capabilities) -> Seq<Seq<char>> {
    (if capabilities.data_control {
        Seq::empty()
    } else {
        seq![
            "ext-data-control-v1 or wlr-data-control-v1 v2 (needed to watch the selection)"@,
        ]
    }) + (if capabilities.layer_shell {
        Seq::empty()
    } else {
        seq!["zwlr_layer_shell_v1 (needed to place the popup)"@]
    })
}

/// The explanation of why no front-end can run: exactly which piece is missing
/// rather than "unsupported desktop".
pub open spec fn explanation(capabilities: Capabilities) -> Seq<char> {
    "this compositor is missing: "@ + joined(lacking(capabilities), "; "@)
        + ".\nOn GNOME this is expected — install and enable the grabit GNOME Shell extension, which provides both, then start grabit again."@
}

/// Says exactly which piece is missing.
pub fn explain_unsupported(capabilities: &Capabilities) -> (r: String)
    ensures
        r@ == explanation(*capabilities),
{
    let mut missing: Vec<String> = Vec::new();
    if !capabilities.data_control {
        missing.push(
            owned("ext-data-control-v1 or wlr-data-control-v1 v2 (needed to watch the selection)"),
        );
    }
    if !capabilities.layer_shell {
        missing.push(owned("zwlr_layer_shell_v1 (needed to place the popup)"));
    }
    assert(texts(missing@) =~= lacking(*capabilities));
    let mut out = owned("this compositor is missing: ");
    out.append(join_texts(&missing, "; ").as_str());
    out.append(
        ".\nOn GNOME this is expected — install and enable the grabit GNOME Shell extension, which provides both, then start grabit again.",
    );
    out
}

// ---------------------------------------------------------------------------
// What the report promises
// ---------------------------------------------------------------------------

proof fn lemma_spaces(n: int)
    ensures
        spaces(n).len() == larger(n, 0),
    decreases n,
{
    if n > 0 {
        lemma_spaces(n - 1);
    }
}

/// The report stays aligned in whichever language it is read: every value
/// starts at the same place of its row.
pub proof fn law_the_report_is_aligned(words: Wording)
    ensures
        ({
            let width = label_width(words);
            &&& padded(words.selection@, width).len() == width
            &&& padded(words.layer_shell@, width).len() == width
            &&& padded(words.virtual_keyboard@, width).len() == width
            &&& padded(words.foreign_toplevel@, width).len() == width
            &&& padded(words.shell_extension@, width).len() == width
        }),
{
    let width = label_width(words);
    lemma_spaces(width - words.selection@.len());
    lemma_spaces(width - words.layer_shell@.len());
    lemma_spaces(width - words.virtual_keyboard@.len());
    lemma_spaces(width - words.foreign_toplevel@.len());
    lemma_spaces(width - words.shell_extension@.len());
}

/// Something is missing exactly where the native front-end cannot run, so the
/// explanation never comes empty.
pub proof fn law_the_explanation_names_something(capabilities: Capabilities, gnome: bool)
    ensures
        frontend_of(capabilities, gnome) == Frontend::Unsupported ==> lacking(capabilities).len()
            > 0,
        frontend_of(capabilities, gnome) == Frontend::Layer <==> lacking(capabilities).len() == 0,
{
}

proof fn lemma_only_spaces(n: int)
    ensures
        spaces(n).len() == larger(n, 0),
        forall|i: int| 0 <= i < spaces(n).len() ==> #[trigger] spaces(n)[i] == ' ',
    decreases n,
{
    if n > 0 {
        lemma_only_spaces(n - 1);
    }
}

/// Setting a text to a width keeps all of it and puts spaces behind it. A text
/// that is wider already stays as it is.
pub proof fn law_padding_goes_behind_the_text(text: Seq<char>, width: int)
    ensures
        padded(text, width).take(text.len() as int) == text,
        text.len() >= width ==> padded(text, width) == text,
        text.len() < width ==> padded(text, width).len() == width,
        forall|i: int|
            text.len() <= i < width ==> #[trigger] padded(text, width)[i] as int == 0x20,
{
    lemma_only_spaces(width - text.len());
    assert(padded(text, width).take(text.len() as int) =~= text);
    if text.len() >= width {
        assert(padded(text, width) =~= text);
    }
}

/// What decimal digits amount to.
pub open spec fn amount(digits: Seq<char>) -> int
    decreases digits.len(),
{
    if digits.len() == 0 {
        0
    } else {
        amount(digits.drop_last()) * 10 + (digits.last() as int - 48)
    }
}

proof fn lemma_numeral(n: int)
    requires
        n >= 0,
    ensures
        numeral(n).len() > 0,
        amount(numeral(n)) == n,
        forall|i: int| 0 <= i < numeral(n).len() ==> 48 <= #[trigger] numeral(n)[i] as int <= 57,
        n > 0 ==> numeral(n)[0] as int != 48,
    decreases n,
{
    if n < 10 {
        assert(numeral(n).drop_last() =~= Seq::<char>::empty());
        assert(amount(numeral(n).drop_last()) == 0);
        assert(numeral(n).last() as int == 48 + n);
    } else {
        lemma_numeral(n / 10);
        assert(numeral(n).drop_last() =~= numeral(n / 10));
        assert(numeral(n).last() as int == 48 + n % 10);
        assert(numeral(n)[0] == numeral(n / 10)[0]);
    }
}

/// A number is written with decimal digits that amount to it, without a zero in
/// front, and with a minus sign before them where it is negative.
pub proof fn law_decimals_read_back(n: int)
    ensures
        n >= 0 ==> amount(decimal(n)) == n && decimal(n).len() > 0 && (forall|i: int|
            0 <= i < decimal(n).len() ==> 48 <= #[trigger] decimal(n)[i] as int <= 57),
        n > 0 ==> decimal(n)[0] as int != 48,
        n < 0 ==> decimal(n)[0] as int == 45 && decimal(n).skip(1) == decimal(-n),
{
    if n >= 0 {
        lemma_numeral(n);
    } else {
        assert(decimal(n).skip(1) =~= decimal(-n));
    }
}

/// An action is listed by what it does: a built-in by its name, a link by its
/// template, a command by its words, and anything else as the selection. Where
/// several are given, they count in this order.
pub proof fn law_actions_are_listed_by_what_they_do(action: ActionView)
    ensures
        action.spec.builtin == Some(Builtin::Cut) ==> kind(action) == "builtin cut"@,
        action.spec.builtin == Some(Builtin::Paste) ==> kind(action) == "builtin paste"@,
        (action.spec.builtin is None && action.spec.url is Some) ==> kind(action) == "url "@
            + action.spec.url->0,
        (action.spec.builtin is None && action.spec.url is None && action.spec.command is Some)
            ==> kind(action) == "exec "@ + shell_line(action.spec.command->0),
        (action.spec.builtin is None && action.spec.url is None && action.spec.command is None)
            ==> kind(action) == "selection"@,
{
}

/// A word that a shell reads as itself is given as it is; one that is empty or
/// holds anything special stands between single quotes, where a quote in it ends
/// them, stands escaped and begins them anew. Spaces stand between words.
pub proof fn law_words_are_quoted_for_the_shell(
    word: Seq<char>,
    words: Seq<Seq<char>>,
    i: int,
    c: char,
)
    ensures
        shell_quoted(Seq::empty()) == seq!['\'', '\''],
        (word.len() > 0 && forall|k: int|
            0 <= k < word.len() ==> !is_shell_special(#[trigger] word[k])) ==> shell_quoted(word)
            == word,
        0 <= i < word.len() && is_shell_special(word[i]) ==> shell_quoted(word) == seq!['\'']
            + quote_escaped(word) + seq!['\''],
        c != '\'' ==> quote_escaped(word.push(c)) == quote_escaped(word) + seq![c],
        quote_escaped(word.push('\'')) == quote_escaped(word) + seq!['\'', '\\', '\'', '\''],
        ('a' <= c <= 'z' || 'A' <= c <= 'Z' || '0' <= c <= '9' || c == '-' || c == '_' || c == '.'
            || c == '/' || c == ':' || c == ',' || c == '+' || c == '@' || c == '{' || c == '}')
            ==> !is_shell_special(c),
        (c == ' ' || c == '\'' || c == '"' || c == '$' || c == '\\' || c == ';' || c == '&' || c
            == '|') ==> is_shell_special(c),
        shell_line(seq![word]) == shell_quoted(word),
        words.len() > 0 ==> shell_line(words.push(word)) == shell_line(words) + seq![' ']
            + shell_quoted(word),
{
    let quoted = |w: Seq<char>| shell_quoted(w);
    assert(word.push(c).drop_last() =~= word);
    assert(word.push('\'').drop_last() =~= word);
    assert(quote_escaped(word.push(c)) =~= if c == '\'' {
        quote_escaped(word) + seq!['\'', '\\', '\'', '\'']
    } else {
        quote_escaped(word) + seq![c]
    });
    assert(quote_escaped(Seq::<char>::empty()) =~= Seq::<char>::empty());
    assert(shell_quoted(Seq::<char>::empty()) =~= seq!['\'', '\'']);
    assert(seq![word].map_values(quoted) =~= seq![shell_quoted(word)]);
    assert(words.push(word).map_values(quoted) =~= words.map_values(quoted).push(
        shell_quoted(word),
    ));
    let parts = words.map_values(quoted).push(shell_quoted(word));
    assert(parts.drop_last() =~= words.map_values(quoted));
}

/// An action takes two lines. The first has its id, title, order and what it
/// does, and says so where it is switched off; the second has where it came
/// from, set below the title. The list is the actions' lines, one after the
/// other.
pub proof fn law_the_list_names_each_action(actions: Seq<ActionView>, n: int)
    requires
        0 <= n < actions.len(),
    ensures
        listings(actions, 0) == Seq::<char>::empty(),
        ({
            let action = actions[n];
            let columns = padded(action.spec.id, 12) + " "@ + padded(action.spec.title, 24)
                + " order="@ + padded(decimal(action.spec.order as int), 4) + " "@ + kind(action);
            let below = "\n"@ + spaces(13) + action.origin + "\n"@;
            &&& action.spec.enabled ==> listings(actions, n + 1) == listings(actions, n) + columns
                + below
            &&& !action.spec.enabled ==> listings(actions, n + 1) == listings(actions, n) + columns
                + "  [disabled]"@ + below
        }),
{
    let action = actions[n];
    reveal_strlit("");
    reveal_strlit(" ");
    reveal_strlit("\n");
    lemma_only_spaces(12);
    lemma_only_spaces(13);
    let columns = padded(action.spec.id, 12) + " "@ + padded(action.spec.title, 24) + " order="@
        + padded(decimal(action.spec.order as int), 4) + " "@ + kind(action);
    let below = "\n"@ + spaces(13) + action.origin + "\n"@;
    assert(padded(""@, 12) + " "@ =~= spaces(13));
    if action.spec.enabled {
        assert(listing(action) =~= columns + below);
        assert(listings(actions, n + 1) =~= listings(actions, n) + columns + below);
    } else {
        assert(listing(action) =~= columns + "  [disabled]"@ + below);
        assert(listings(actions, n + 1) =~= listings(actions, n) + columns + "  [disabled]"@
            + below);
    }
}

/// A row says yes exactly where the piece is there, and each label stands before
/// its own piece.
pub proof fn law_each_row_tells_of_its_own_piece(
    label: Seq<char>,
    width: int,
    words: Wording,
    capabilities: Capabilities,
    gnome: bool,
)
    ensures
        row(label, width, words, true) == "  "@ + padded(label, width) + " : "@ + words.yes@
            + "\n"@,
        row(label, width, words, false) == "  "@ + padded(label, width) + " : "@ + words.no@
            + "\n"@,
        rows(words, capabilities, gnome) == row(
            words.selection@,
            label_width(words),
            words,
            capabilities.data_control,
        ) + row(words.layer_shell@, label_width(words), words, capabilities.layer_shell) + row(
            words.virtual_keyboard@,
            label_width(words),
            words,
            capabilities.virtual_keyboard,
        ) + row(
            words.foreign_toplevel@,
            label_width(words),
            words,
            capabilities.foreign_toplevel,
        ) + row(words.shell_extension@, label_width(words), words, gnome),
{
}

/// The labels are set no wider than the longest of them needs.
pub proof fn law_the_report_is_no_wider_than_it_must_be(words: Wording)
    ensures
        ({
            let width = label_width(words);
            ||| width == words.selection@.len()
            ||| width == words.layer_shell@.len()
            ||| width == words.virtual_keyboard@.len()
            ||| width == words.foreign_toplevel@.len()
            ||| width == words.shell_extension@.len()
        }),
{
}

/// The report names the front-end that will run: the native one where the
/// selection can be watched and the bar be placed, otherwise the extension's if
/// it is there. Where no keystroke can be sent, by a virtual keyboard or by the
/// extension, a line says so.
pub proof fn law_the_report_names_the_frontend(
    words: Wording,
    capabilities: Capabilities,
    gnome: bool,
    config_dir: Seq<char>,
    actions: Seq<char>,
)
    ensures
        ({
            let start = words.capabilities@ + "\n"@ + rows(words, capabilities, gnome) + "\n"@
                + words.frontend@ + ": "@;
            let frontend = if capabilities.data_control && capabilities.layer_shell {
                words.frontend_layer@
            } else if gnome {
                words.frontend_gnome@
            } else {
                words.frontend_none@
            };
            let end = "\n"@ + words.config@ + ": "@ + config_dir + "\n"@ + words.actions@ + ": "@
                + actions + "\n"@;
            let report = doctor_report(words, capabilities, gnome, config_dir, actions);
            &&& capabilities.virtual_keyboard || gnome ==> report == start + frontend + "\n"@ + end
            &&& !capabilities.virtual_keyboard && !gnome ==> report == start + frontend + "\n"@
                + words.no_paste@ + "\n"@ + end
        }),
{
    reveal_strlit("");
    let start = words.capabilities@ + "\n"@ + rows(words, capabilities, gnome) + "\n"@
        + words.frontend@ + ": "@;
    let frontend = if capabilities.data_control && capabilities.layer_shell {
        words.frontend_layer@
    } else if gnome {
        words.frontend_gnome@
    } else {
        words.frontend_none@
    };
    let end = "\n"@ + words.config@ + ": "@ + config_dir + "\n"@ + words.actions@ + ": "@ + actions
        + "\n"@;
    let report = doctor_report(words, capabilities, gnome, config_dir, actions);
    if capabilities.virtual_keyboard || gnome {
        assert(report =~= start + frontend + "\n"@ + end);
    } else {
        assert(report =~= start + frontend + "\n"@ + words.no_paste@ + "\n"@ + end);
    }
}

/// The explanation names each piece that is missing, and no other.
pub proof fn law_the_explanation_names_what_is_missing(capabilities: Capabilities)
    ensures
        ({
            let watching
                = "ext-data-control-v1 or wlr-data-control-v1 v2 (needed to watch the selection)"@;
            let placing = "zwlr_layer_shell_v1 (needed to place the popup)"@;
            let before = "this compositor is missing: "@;
            let after
                = ".\nOn GNOME this is expected — install and enable the grabit GNOME Shell extension, which provides both, then start grabit again."@;
            let told = explanation(capabilities);
            &&& !capabilities.data_control && capabilities.layer_shell ==> told == before
                + watching + after
            &&& capabilities.data_control && !capabilities.layer_shell ==> told == before + placing
                + after
            &&& !capabilities.data_control && !capabilities.layer_shell ==> told == before
                + watching + "; "@ + placing + after
        }),
{
    reveal_with_fuel(joined, 3);
    let watching
        = "ext-data-control-v1 or wlr-data-control-v1 v2 (needed to watch the selection)"@;
    let placing = "zwlr_layer_shell_v1 (needed to place the popup)"@;
    let missing = lacking(capabilities);
    if !capabilities.data_control && capabilities.layer_shell {
        assert(missing =~= seq![watching]);
    } else if capabilities.data_control && !capabilities.layer_shell {
        assert(missing =~= seq![placing]);
    } else if !capabilities.data_control {
        assert(missing =~= seq![watching, placing]);
        assert(missing.drop_last() =~= seq![watching]);
        assert(joined(missing, "; "@) == watching + "; "@ + placing);
        let before = "this compositor is missing: "@;
        let after
            = ".\nOn GNOME this is expected — install and enable the grabit GNOME Shell extension, which provides both, then start grabit again."@;
        assert(before + (watching + "; "@ + placing) + after =~= before + watching + "; "@ + placing
            + after);
    }
}

} // verus!
