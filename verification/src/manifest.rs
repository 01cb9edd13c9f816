//! Actions as their manifests declare them.
//!
//! Every action is one TOML file. This module says which documents are
//! manifests, what action each declares, and which declarations make no sense.

use vstd::prelude::*;

use crate::classify::{Classification, Detect};
use crate::config::{copy_maybe, copy_texts, After, Builtin};
use crate::document::{
    find_record_misfit, join_path, member_of, read_choice, read_document, read_flag, read_number,
    read_text, read_text_list, read_texts, reads_as_record, Misfit, Toml,
};
use crate::pattern::Pattern;
use crate::text::{owned, same_maybe, same_text, same_texts, text_sorts_before};
#[allow(unused_imports)]
use crate::{
    classify::{ClassView, detected},
    document::{
        MisfitView, TomlView, choice_of, entry_from, flag_fits, flag_or, is_record, is_text_list,
        member, misfit_text, names_of, number_fits, number_or, path_to, record_misfit, text_fits,
        text_list, text_of, text_or_empty, texts_fit, texts_or_none, tidy, toml_document,
    },
    pattern::{regex_matches, regex_verdict},
    sorted::{
        ascending, holds, lemma_put_ascends, lemma_slot_from, lemma_sorts_irreflexive,
        lemma_sorts_transitive, put, slot, slot_from,
    },
    text::{maybe_text, sorts_before, texts},
};

verus! {

// ---------------------------------------------------------------------------
// Options
// ---------------------------------------------------------------------------

/// One configurable option an action declares.
///
/// Values live in the manifest itself, under `value`; `default` covers a fresh
/// install. Options exist to be spliced into `url` and `exec` templates through
/// `{{option:NAME}}`, so everything is a string.
#[derive(Debug, PartialEq, Eq)]
pub struct OptionSpec {
    /// Human label, shown in the settings window.
    pub label: String,
    /// The value used until one is chosen.
    pub default: String,
    /// When non-empty, the value must be one of these.
    pub choices: Vec<String>,
    /// The chosen value.
    pub value: Option<String>,
}

/// An option in specifications.
pub struct OptionView {
    pub label: Seq<char>,
    pub default: Seq<char>,
    pub choices: Seq<Seq<char>>,
    pub value: Option<Seq<char>>,
}

impl View for OptionSpec {
    type V = OptionView;

    open spec fn view(&self) -> OptionView {
        OptionView {
            label: self.label@,
            default: self.default@,
            choices: texts(self.choices@),
            value: maybe_text(self.value),
        }
    }
}

impl Clone for OptionSpec {
    fn clone(&self) -> (r: Self)
        ensures
            r@ == self@,
    {
        OptionSpec {
            label: self.label.clone(),
            default: self.default.clone(),
            choices: copy_texts(&self.choices),
            value: copy_maybe(&self.value),
        }
    }
}

/// The value of an option right now: the chosen one, or the default.
pub open spec fn effective_value(option: OptionView) -> Seq<char> {
    match option.value {
        Some(value) => value,
        None => option.default,
    }
}

impl OptionSpec {
    /// The value expansion should use right now.
    pub fn effective(&self) -> (r: &str)
        ensures
            r@ == effective_value(self@),
    {
        match &self.value {
            Some(value) => value.as_str(),
            None => self.default.as_str(),
        }
    }
}

/// A table of options in specifications.
pub open spec fn options_view(options: Seq<(String, OptionSpec)>) -> Seq<(Seq<char>, OptionView)> {
    options.map_values(|option: (String, OptionSpec)| (option.0@, option.1@))
}

/// The names in a table of options.
pub open spec fn option_names(options: Seq<(Seq<char>, OptionView)>) -> Seq<Seq<char>> {
    options.map_values(|option: (Seq<char>, OptionView)| option.0)
}

/// The option of a name at or after `from`.
pub open spec fn option_from_position(
    options: Seq<(Seq<char>, OptionView)>,
    name: Seq<char>,
    from: int,
) -> Option<OptionView>
    decreases options.len() - from,
{
    if from < 0 || from >= options.len() {
        None
    } else if options[from].0 == name {
        Some(options[from].1)
    } else {
        option_from_position(options, name, from + 1)
    }
}

/// The option of a name.
pub open spec fn option_named(
    options: Seq<(Seq<char>, OptionView)>,
    name: Seq<char>,
) -> Option<OptionView> {
    option_from_position(options, name, 0)
}

/// Looks an option up by its name.
pub fn find_option<'a>(options: &'a Vec<(String, OptionSpec)>, name: &str) -> (r: Option<
    &'a OptionSpec,
>)
    ensures
        match r {
            Some(option) => option_named(options_view(options@), name@) == Some(option@),
            None => option_named(options_view(options@), name@) is None,
        },
{
    let ghost views = options_view(options@);
    for i in 0..options.len()
        invariant
            views == options_view(options@),
            option_named(views, name@) == option_from_position(views, name@, i as int),
    {
        assert(views[i as int] == (options@[i as int].0@, options@[i as int].1@));
        if same_text(options[i].0.as_str(), name) {
            return Some(&options[i].1);
        }
    }
    None
}

/// A copy of a table of options.
fn copy_options(options: &Vec<(String, OptionSpec)>) -> (r: Vec<(String, OptionSpec)>)
    ensures
        options_view(r@) == options_view(options@),
{
    let mut out: Vec<(String, OptionSpec)> = Vec::new();
    for i in 0..options.len()
        invariant
            out@.len() == i,
            forall|k: int|
                0 <= k < i ==> (#[trigger] out@[k]).0@ == options@[k].0@ && out@[k].1@
                    == options@[k].1@,
    {
        out.push((options[i].0.clone(), options[i].1.clone()));
    }
    assert(options_view(out@) =~= options_view(options@));
    out
}

/// Puts an option into a table kept ascending by name.
fn put_option(options: &mut Vec<(String, OptionSpec)>, name: String, option: OptionSpec)
    ensures
        options_view(final(options)@) == put(
            option_names(options_view(old(options)@)),
            options_view(old(options)@),
            name@,
            (name@, option@),
        ),
{
    let ghost views = options_view(options@);
    let ghost names = option_names(views);
    let mut i: usize = 0;
    while i < options.len() && text_sorts_before(options[i].0.as_str(), name.as_str())
        invariant
            views == options_view(options@),
            names == option_names(views),
            i <= options.len(),
            slot(names, name@) == slot_from(names, name@, i as int),
        decreases options.len() - i,
    {
        assert(names[i as int] == options@[i as int].0@);
        i = i + 1;
    }
    assert(i < options.len() ==> names[i as int] == options@[i as int].0@);
    assert(slot(names, name@) == i);
    let ghost before = options@;
    let ghost entry = (name@, option@);
    if i < options.len() && same_text(options[i].0.as_str(), name.as_str()) {
        options.set(i, (name, option));
        assert(options_view(options@) =~= views.update(i as int, entry));
    } else {
        options.insert(i, (name, option));
        assert(options_view(options@) =~= views.insert(i as int, entry));
    }
}

// ---------------------------------------------------------------------------
// Declarations
// ---------------------------------------------------------------------------

/// An action exactly as written in its manifest.
#[derive(Debug)]
pub struct ActionSpec {
    /// Stable identifier, also the handle sent to the GNOME Shell view.
    pub id: String,
    /// Button tooltip.
    pub title: String,
    /// Symbolic icon name from the current icon theme.
    pub icon: Option<String>,
    /// Short label drawn when no icon is set or the icon is missing.
    pub label: Option<String>,
    /// Lower sorts first.
    pub order: i32,
    /// Only offer this action when the selection matches this regex. Written
    /// `match` in the manifest.
    pub match_re: Option<String>,
    /// Suppress this action when the selection matches this regex.
    pub not_match: Option<String>,
    /// Only offer this action when the selection was classified as one of
    /// these kinds. Any listed kind suffices; composes with `match` and
    /// `not_match`, which must also hold.
    pub detects: Vec<Detect>,
    /// A behavior grabit implements itself. Excludes `url` and `exec`.
    pub builtin: Option<Builtin>,
    /// Configurable options, spliced into templates as `{{option:NAME}}`, in
    /// the order of their names.
    pub options: Vec<(String, OptionSpec)>,
    /// Open this URL template with the desktop handler.
    pub url: Option<String>,
    /// Run this argv. Each element is a separate argument, so selected text
    /// can never be reinterpreted as shell syntax. Written `exec` in the
    /// manifest.
    pub command: Option<Vec<String>>,
    /// Feed the selection to the command on stdin.
    pub stdin: bool,
    /// What to do with stdout once the command exits.
    pub after: After,
    /// Whether the action is offered at all.
    pub enabled: bool,
}

/// A declaration in specifications.
pub struct SpecView {
    pub id: Seq<char>,
    pub title: Seq<char>,
    pub icon: Option<Seq<char>>,
    pub label: Option<Seq<char>>,
    pub order: i32,
    pub match_re: Option<Seq<char>>,
    pub not_match: Option<Seq<char>>,
    pub detects: Seq<Detect>,
    pub builtin: Option<Builtin>,
    pub options: Seq<(Seq<char>, OptionView)>,
    pub url: Option<Seq<char>>,
    pub command: Option<Seq<Seq<char>>>,
    pub stdin: bool,
    pub after: After,
    pub enabled: bool,
}

/// The contents of an optional list of strings.
pub open spec fn maybe_texts(list: Option<Vec<String>>) -> Option<Seq<Seq<char>>> {
    match list {
        Some(list) => Some(texts(list@)),
        None => None,
    }
}

impl View for ActionSpec {
    type V = SpecView;

    open spec fn view(&self) -> SpecView {
        SpecView {
            id: self.id@,
            title: self.title@,
            icon: maybe_text(self.icon),
            label: maybe_text(self.label),
            order: self.order,
            match_re: maybe_text(self.match_re),
            not_match: maybe_text(self.not_match),
            detects: self.detects@,
            builtin: self.builtin,
            options: options_view(self.options@),
            url: maybe_text(self.url),
            command: maybe_texts(self.command),
            stdin: self.stdin,
            after: self.after,
            enabled: self.enabled,
        }
    }
}

impl Clone for ActionSpec {
    fn clone(&self) -> (r: Self)
        ensures
            r@ == self@,
    {
        let detects = self.detects.clone();
        assert(detects@ =~= self.detects@);
        ActionSpec {
            id: self.id.clone(),
            title: self.title.clone(),
            icon: copy_maybe(&self.icon),
            label: copy_maybe(&self.label),
            order: self.order,
            match_re: copy_maybe(&self.match_re),
            not_match: copy_maybe(&self.not_match),
            detects,
            builtin: self.builtin,
            options: copy_options(&self.options),
            url: copy_maybe(&self.url),
            command: match &self.command {
                Some(argv) => Some(copy_texts(argv)),
                None => None,
            },
            stdin: self.stdin,
            after: self.after,
            enabled: self.enabled,
        }
    }
}

/// Whether two tables of options are the same.
fn same_options(a: &Vec<(String, OptionSpec)>, b: &Vec<(String, OptionSpec)>) -> (r: bool)
    ensures
        r == (options_view(a@) == options_view(b@)),
{
    let ghost left = options_view(a@);
    let ghost right = options_view(b@);
    if a.len() != b.len() {
        assert(left.len() != right.len());
        return false;
    }
    for i in 0..a.len()
        invariant
            a.len() == b.len(),
            left == options_view(a@),
            right == options_view(b@),
            forall|k: int| 0 <= k < i ==> left[k] == right[k],
    {
        let x = &a[i].1;
        let y = &b[i].1;
        assert(left[i as int] == (a@[i as int].0@, a@[i as int].1@));
        assert(right[i as int] == (b@[i as int].0@, b@[i as int].1@));
        let same = same_text(a[i].0.as_str(), b[i].0.as_str()) && same_text(
            x.label.as_str(),
            y.label.as_str(),
        ) && same_text(x.default.as_str(), y.default.as_str()) && same_texts(
            &x.choices,
            &y.choices,
        ) && same_maybe(&x.value, &y.value);
        if !same {
            assert(left[i as int] != right[i as int]);
            return false;
        }
    }
    assert(left =~= right);
    true
}

/// Whether two lists of kinds are the same.
fn same_detects(a: &Vec<Detect>, b: &Vec<Detect>) -> (r: bool)
    ensures
        r == (a@ == b@),
{
    if a.len() != b.len() {
        return false;
    }
    for i in 0..a.len()
        invariant
            a.len() == b.len(),
            forall|k: int| 0 <= k < i ==> a@[k] == b@[k],
    {
        if a[i] != b[i] {
            assert(a@[i as int] != b@[i as int]);
            return false;
        }
    }
    assert(a@ =~= b@);
    true
}

/// Whether two declarations are the same.
pub fn same_spec(a: &ActionSpec, b: &ActionSpec) -> (r: bool)
    ensures
        r == (a@ == b@),
{
    let same_command = match (&a.command, &b.command) {
        (Some(x), Some(y)) => same_texts(x, y),
        (None, None) => true,
        _ => false,
    };
    let same_builtin = match (a.builtin, b.builtin) {
        (Some(x), Some(y)) => x == y,
        (None, None) => true,
        _ => false,
    };
    same_text(a.id.as_str(), b.id.as_str()) && same_text(a.title.as_str(), b.title.as_str())
        && same_maybe(&a.icon, &b.icon) && same_maybe(&a.label, &b.label) && a.order == b.order
        && same_maybe(&a.match_re, &b.match_re) && same_maybe(&a.not_match, &b.not_match)
        && same_detects(&a.detects, &b.detects) && same_builtin && same_options(
        &a.options,
        &b.options,
    ) && same_maybe(&a.url, &b.url) && same_command && a.stdin == b.stdin && a.after == b.after
        && a.enabled == b.enabled
}

/// The kind that a manifest calls `name`.
pub open spec fn detect_named(name: Seq<char>) -> Option<Detect> {
    if name == "url"@ {
        Some(Detect::Url)
    } else if name == "email"@ {
        Some(Detect::Email)
    } else if name == "path"@ {
        Some(Detect::Path)
    } else if name == "phone"@ {
        Some(Detect::Phone)
    } else if name == "color"@ {
        Some(Detect::Color)
    } else {
        None
    }
}

/// The builtin that a manifest calls `name`.
pub open spec fn builtin_named(name: Seq<char>) -> Option<Builtin> {
    if name == "cut"@ {
        Some(Builtin::Cut)
    } else if name == "paste"@ {
        Some(Builtin::Paste)
    } else {
        None
    }
}

/// The mode that a manifest calls `name`.
pub open spec fn after_named(name: Seq<char>) -> Option<After> {
    if name == "ignore"@ {
        Some(After::Ignore)
    } else if name == "copy"@ {
        Some(After::Copy)
    } else if name == "replace"@ {
        Some(After::Replace)
    } else if name == "show"@ {
        Some(After::Show)
    } else {
        None
    }
}

/// The kind that a value names.
pub open spec fn detect_value(value: TomlView) -> Option<Detect> {
    match choice_of(value) {
        Some(name) => detect_named(name),
        None => None,
    }
}

/// The builtin that a value names.
pub open spec fn builtin_value(value: TomlView) -> Option<Builtin> {
    match choice_of(value) {
        Some(name) => builtin_named(name),
        None => None,
    }
}

/// The mode that a value names.
pub open spec fn after_value(value: TomlView) -> Option<After> {
    match choice_of(value) {
        Some(name) => after_named(name),
        None => None,
    }
}

/// Whether a value is a list of kinds.
pub open spec fn is_detect_list(value: TomlView) -> bool {
    value matches TomlView::Array(items) && forall|i: int|
        0 <= i < items.len() ==> detect_value(#[trigger] items[i]) is Some
}

/// The kinds of a list of kinds.
pub open spec fn detect_list(value: TomlView) -> Seq<Detect> {
    value->Array_0.map_values(|item: TomlView| detect_value(item)->Some_0)
}

/// The members of an option, in order.
pub open spec fn option_members() -> Seq<Seq<char>> {
    seq!["label"@, "default"@, "choices"@, "value"@]
}

/// Whether a value reads as an option. Only its label is required.
pub open spec fn option_fits(v: TomlView) -> bool {
    &&& is_record(v, option_members())
    &&& member(v, 0, "label"@) is Some
    &&& text_fits(member(v, 0, "label"@))
    &&& text_fits(member(v, 1, "default"@))
    &&& texts_fit(member(v, 2, "choices"@))
    &&& text_fits(member(v, 3, "value"@))
}

/// The option that a value holds.
pub open spec fn option_from(v: TomlView) -> OptionView {
    OptionView {
        label: text_or_empty(member(v, 0, "label"@)),
        default: text_or_empty(member(v, 1, "default"@)),
        choices: texts_or_none(member(v, 2, "choices"@)),
        value: text_of(member(v, 3, "value"@)),
    }
}

/// Whether a value is a table of options.
pub open spec fn is_option_table(value: TomlView) -> bool {
    value matches TomlView::Table(entries) && forall|i: int|
        0 <= i < entries.len() ==> option_fits((#[trigger] entries[i]).1)
}

/// The options of a table from `from` on, in the order of their names.
pub open spec fn option_table(entries: Seq<(Seq<char>, TomlView)>, from: int) -> Seq<
    (Seq<char>, OptionView),
>
    decreases entries.len() - from,
{
    if from < 0 || from >= entries.len() {
        Seq::empty()
    } else {
        let rest = option_table(entries, from + 1);
        put(
            option_names(rest),
            rest,
            entries[from].0,
            (entries[from].0, option_from(entries[from].1)),
        )
    }
}

/// The members of a manifest, in order.
pub open spec fn action_members() -> Seq<Seq<char>> {
    seq![
        "id"@,
        "title"@,
        "icon"@,
        "label"@,
        "order"@,
        "match"@,
        "not_match"@,
        "detects"@,
        "builtin"@,
        "options"@,
        "url"@,
        "exec"@,
        "stdin"@,
        "after"@,
        "enabled"@,
    ]
}

/// Whether a document reads as a manifest. Only `id` and `title` are required;
/// an unknown member is refused.
pub open spec fn action_fits(doc: TomlView) -> bool {
    &&& is_record(doc, action_members())
    &&& member(doc, 0, "id"@) is Some
    &&& text_fits(member(doc, 0, "id"@))
    &&& member(doc, 1, "title"@) is Some
    &&& text_fits(member(doc, 1, "title"@))
    &&& text_fits(member(doc, 2, "icon"@))
    &&& text_fits(member(doc, 3, "label"@))
    &&& number_fits(member(doc, 4, "order"@), i32::MIN as int, i32::MAX as int)
    &&& text_fits(member(doc, 5, "match"@))
    &&& text_fits(member(doc, 6, "not_match"@))
    &&& member(doc, 7, "detects"@) matches Some(v) ==> is_detect_list(v)
    &&& member(doc, 8, "builtin"@) matches Some(v) ==> builtin_value(v) is Some
    &&& member(doc, 9, "options"@) matches Some(v) ==> is_option_table(v)
    &&& text_fits(member(doc, 10, "url"@))
    &&& texts_fit(member(doc, 11, "exec"@))
    &&& flag_fits(member(doc, 12, "stdin"@))
    &&& member(doc, 13, "after"@) matches Some(v) ==> after_value(v) is Some
    &&& flag_fits(member(doc, 14, "enabled"@))
}

/// The declaration that a document holds.
pub open spec fn action_from(doc: TomlView) -> SpecView {
    SpecView {
        id: text_or_empty(member(doc, 0, "id"@)),
        title: text_or_empty(member(doc, 1, "title"@)),
        icon: text_of(member(doc, 2, "icon"@)),
        label: text_of(member(doc, 3, "label"@)),
        order: number_or(member(doc, 4, "order"@), 0) as i32,
        match_re: text_of(member(doc, 5, "match"@)),
        not_match: text_of(member(doc, 6, "not_match"@)),
        detects: match member(doc, 7, "detects"@) {
            Some(v) => detect_list(v),
            None => Seq::empty(),
        },
        builtin: match member(doc, 8, "builtin"@) {
            Some(v) => builtin_value(v),
            None => None,
        },
        options: match member(doc, 9, "options"@) {
            Some(v) => option_table(v->Table_0, 0),
            None => Seq::empty(),
        },
        url: text_of(member(doc, 10, "url"@)),
        command: match member(doc, 11, "exec"@) {
            Some(v) => Some(text_list(v)),
            None => None,
        },
        stdin: flag_or(member(doc, 12, "stdin"@), false),
        after: match member(doc, 13, "after"@) {
            Some(v) => after_value(v)->Some_0,
            None => After::Ignore,
        },
        enabled: flag_or(member(doc, 14, "enabled"@), true),
    }
}

/// Reads the name of a kind.
fn read_detect(value: &Toml) -> (r: Option<Detect>)
    ensures
        r == detect_value(value@),
{
    match read_choice(value) {
        None => None,
        Some(name) => {
            let name = name.as_str();
            if same_text(name, "url") {
                Some(Detect::Url)
            } else if same_text(name, "email") {
                Some(Detect::Email)
            } else if same_text(name, "path") {
                Some(Detect::Path)
            } else if same_text(name, "phone") {
                Some(Detect::Phone)
            } else if same_text(name, "color") {
                Some(Detect::Color)
            } else {
                None
            }
        },
    }
}

/// Reads the name of a builtin.
fn read_builtin(value: &Toml) -> (r: Option<Builtin>)
    ensures
        r == builtin_value(value@),
{
    match read_choice(value) {
        None => None,
        Some(name) => if same_text(name.as_str(), "cut") {
            Some(Builtin::Cut)
        } else if same_text(name.as_str(), "paste") {
            Some(Builtin::Paste)
        } else {
            None
        },
    }
}

/// Reads the name of a mode.
fn read_after(value: &Toml) -> (r: Option<After>)
    ensures
        r == after_value(value@),
{
    match read_choice(value) {
        None => None,
        Some(name) => {
            let name = name.as_str();
            if same_text(name, "ignore") {
                Some(After::Ignore)
            } else if same_text(name, "copy") {
                Some(After::Copy)
            } else if same_text(name, "replace") {
                Some(After::Replace)
            } else if same_text(name, "show") {
                Some(After::Show)
            } else {
                None
            }
        },
    }
}

/// Reads a list of kinds.
fn read_detects(value: &Toml) -> (r: Option<Vec<Detect>>)
    ensures
        r is Some <==> is_detect_list(value@),
        r matches Some(list) ==> list@ == detect_list(value@),
{
    match value {
        Toml::Array(items) => {
            let ghost views = value@->Array_0;
            let mut out: Vec<Detect> = Vec::new();
            for i in 0..items.len()
                invariant
                    value@ == TomlView::Array(views),
                    views.len() == items@.len(),
                    forall|k: int| 0 <= k < views.len() ==> #[trigger] views[k] == items@[k]@,
                    out@.len() == i,
                    forall|k: int|
                        0 <= k < i ==> detect_value(#[trigger] views[k]) == Some(out@[k]),
            {
                match read_detect(&items[i]) {
                    Some(kind) => {
                        out.push(kind);
                    },
                    None => {
                        assert(detect_value(views[i as int]) is None);
                        return None;
                    },
                }
            }
            assert(out@ =~= detect_list(value@));
            Some(out)
        },
        _ => None,
    }
}

/// Reads an option.
fn read_option(value: &Toml) -> (r: Option<OptionSpec>)
    ensures
        r is Some <==> option_fits(value@),
        r matches Some(option) ==> option@ == option_from(value@),
{
    let members: Vec<&str> = vec!["label", "default", "choices", "value"];
    assert(names_of(members@) =~= option_members());
    if !reads_as_record(value, &members) {
        return None;
    }
    let label = read_text(member_of(value, 0, "label"));
    let default = read_text(member_of(value, 1, "default"));
    let choices = read_texts(member_of(value, 2, "choices"));
    let chosen = read_text(member_of(value, 3, "value"));
    match (label, default, choices, chosen) {
        (Some(Some(label)), Some(default), Some(choices), Some(chosen)) => {
            let default = match default {
                Some(default) => default,
                None => String::new(),
            };
            let option = OptionSpec { label, default, choices, value: chosen };
            assert(option@.default =~= option_from(value@).default);
            Some(option)
        },
        _ => None,
    }
}

/// Reads a table of options.
fn read_options(value: &Toml) -> (r: Option<Vec<(String, OptionSpec)>>)
    ensures
        r is Some <==> is_option_table(value@),
        r matches Some(options) ==> options_view(options@) == option_table(value@->Table_0, 0),
{
    match value {
        Toml::Table(entries) => {
            let ghost views = value@->Table_0;
            let mut out: Vec<(String, OptionSpec)> = Vec::new();
            let mut i: usize = entries.len();
            assert(options_view(out@) =~= option_table(views, i as int));
            while i > 0
                invariant
                    i <= entries.len(),
                    value@ == TomlView::Table(views),
                    views.len() == entries@.len(),
                    forall|k: int|
                        0 <= k < views.len() ==> #[trigger] views[k] == (
                            entries@[k].0@,
                            entries@[k].1@,
                        ),
                    options_view(out@) == option_table(views, i as int),
                    forall|k: int| i <= k < views.len() ==> option_fits((#[trigger] views[k]).1),
                decreases i,
            {
                i = i - 1;
                assert(views[i as int].1 == entries@[i as int].1@);
                match read_option(&entries[i].1) {
                    Some(option) => {
                        put_option(&mut out, entries[i].0.clone(), option);
                    },
                    None => {
                        assert(!is_option_table(value@)) by {
                            if is_option_table(value@) {
                                assert(option_fits(value@->Table_0[i as int].1));
                            }
                        }
                        return None;
                    },
                }
            }
            Some(out)
        },
        _ => None,
    }
}

/// The members from `icon` to `not_match` that are texts.
fn read_labels(doc: &Toml) -> (r: Option<
    (Option<String>, Option<String>, Option<String>, Option<String>, Option<String>),
>)
    ensures
        r is Some <==> text_fits(member(doc@, 2, "icon"@)) && text_fits(
            member(doc@, 3, "label"@),
        ) && text_fits(member(doc@, 5, "match"@)) && text_fits(member(doc@, 6, "not_match"@))
            && text_fits(member(doc@, 10, "url"@)),
        r matches Some(labels) ==> maybe_text(labels.0) == text_of(member(doc@, 2, "icon"@))
            && maybe_text(labels.1) == text_of(member(doc@, 3, "label"@)) && maybe_text(labels.2)
            == text_of(member(doc@, 5, "match"@)) && maybe_text(labels.3) == text_of(
            member(doc@, 6, "not_match"@),
        ) && maybe_text(labels.4) == text_of(member(doc@, 10, "url"@)),
{
    let icon = read_text(member_of(doc, 2, "icon"));
    let label = read_text(member_of(doc, 3, "label"));
    let match_re = read_text(member_of(doc, 5, "match"));
    let not_match = read_text(member_of(doc, 6, "not_match"));
    let url = read_text(member_of(doc, 10, "url"));
    match (icon, label, match_re, not_match, url) {
        (Some(icon), Some(label), Some(match_re), Some(not_match), Some(url)) => Some(
            (icon, label, match_re, not_match, url),
        ),
        _ => None,
    }
}

/// Reads a declaration out of a document, unless it is not one.
pub fn spec_from_document(doc: &Toml) -> (r: Option<ActionSpec>)
    ensures
        r is Some <==> action_fits(doc@),
        r matches Some(spec) ==> spec@ == action_from(doc@),
{
    let members: Vec<&str> = vec![
        "id",
        "title",
        "icon",
        "label",
        "order",
        "match",
        "not_match",
        "detects",
        "builtin",
        "options",
        "url",
        "exec",
        "stdin",
        "after",
        "enabled",
    ];
    assert(names_of(members@) =~= action_members());
    if !reads_as_record(doc, &members) {
        return None;
    }
    let id = match read_text(member_of(doc, 0, "id")) {
        Some(Some(id)) => id,
        _ => return None,
    };
    let title = match read_text(member_of(doc, 1, "title")) {
        Some(Some(title)) => title,
        _ => return None,
    };
    let (icon, label, match_re, not_match, url) = match read_labels(doc) {
        Some(labels) => labels,
        None => return None,
    };
    let order: i32 = match read_number(
        member_of(doc, 4, "order"),
        i32::MIN as i128,
        i32::MAX as i128,
        0,
    ) {
        Some(order) => order as i32,
        None => return None,
    };
    let detects = match member_of(doc, 7, "detects") {
        Some(value) => match read_detects(value) {
            Some(detects) => detects,
            None => return None,
        },
        None => Vec::new(),
    };
    let builtin = match member_of(doc, 8, "builtin") {
        Some(value) => match read_builtin(value) {
            Some(builtin) => Some(builtin),
            None => return None,
        },
        None => None,
    };
    let options: Vec<(String, OptionSpec)> = match member_of(doc, 9, "options") {
        Some(value) => match read_options(value) {
            Some(options) => options,
            None => return None,
        },
        None => Vec::new(),
    };
    let command = match member_of(doc, 11, "exec") {
        Some(value) => match read_text_list(value) {
            Some(argv) => Some(argv),
            None => return None,
        },
        None => None,
    };
    let stdin = match read_flag(member_of(doc, 12, "stdin"), false) {
        Some(stdin) => stdin,
        None => return None,
    };
    let after = match member_of(doc, 13, "after") {
        Some(value) => match read_after(value) {
            Some(after) => after,
            None => return None,
        },
        None => After::Ignore,
    };
    let enabled = match read_flag(member_of(doc, 14, "enabled"), true) {
        Some(enabled) => enabled,
        None => return None,
    };
    let spec = ActionSpec {
        id,
        title,
        icon,
        label,
        order,
        match_re,
        not_match,
        detects,
        builtin,
        options,
        url,
        command,
        stdin,
        after,
        enabled,
    };
    proof {
        let from = action_from(doc@);
        assert(spec@.detects =~= from.detects);
        assert(spec@.options =~= from.options);
    }
    Some(spec)
}

// ---------------------------------------------------------------------------
// What keeps a document from being a manifest
// ---------------------------------------------------------------------------

/// What keeps a value at a path from being read as an option.
pub open spec fn option_misfit(v: TomlView, path: Seq<char>) -> MisfitView {
    if let Some(misfit) = record_misfit(v, option_members(), path) {
        misfit
    } else if member(v, 0, "label"@) is None {
        MisfitView::Missing(path_to(path, "label"@))
    } else if !text_fits(member(v, 0, "label"@)) {
        MisfitView::Wrong(path_to(path, "label"@))
    } else if !text_fits(member(v, 1, "default"@)) {
        MisfitView::Wrong(path_to(path, "default"@))
    } else if !texts_fit(member(v, 2, "choices"@)) {
        MisfitView::Wrong(path_to(path, "choices"@))
    } else {
        MisfitView::Wrong(path_to(path, "value"@))
    }
}

/// What keeps the first option at or after `from` that does not fit from being
/// read as one.
pub open spec fn options_misfit_from(
    entries: Seq<(Seq<char>, TomlView)>,
    from: int,
) -> MisfitView
    decreases entries.len() - from,
{
    if from < 0 || from >= entries.len() {
        MisfitView::Wrong("options"@)
    } else if !option_fits(entries[from].1) {
        option_misfit(entries[from].1, path_to("options"@, entries[from].0))
    } else {
        options_misfit_from(entries, from + 1)
    }
}

/// What keeps a value from being read as a table of options.
pub open spec fn options_misfit(v: TomlView) -> MisfitView {
    match v {
        TomlView::Table(entries) => options_misfit_from(entries, 0),
        _ => MisfitView::Wrong("options"@),
    }
}

/// Whether an optional member is absent or a list of kinds.
pub open spec fn detects_fit(m: Option<TomlView>) -> bool {
    m matches Some(v) ==> is_detect_list(v)
}

/// Whether an optional member is absent or names a builtin.
pub open spec fn builtin_fits(m: Option<TomlView>) -> bool {
    m matches Some(v) ==> builtin_value(v) is Some
}

/// Whether an optional member is absent or a table of options.
pub open spec fn options_fit(m: Option<TomlView>) -> bool {
    m matches Some(v) ==> is_option_table(v)
}

/// Whether an optional member is absent or names a mode.
pub open spec fn after_fits(m: Option<TomlView>) -> bool {
    m matches Some(v) ==> after_value(v) is Some
}

/// What keeps a document that is no manifest from being one: an unknown member,
/// or else the first member that is missing or does not fit.
pub open spec fn action_misfit(doc: TomlView) -> MisfitView {
    if let Some(misfit) = record_misfit(doc, action_members(), Seq::empty()) {
        misfit
    } else if member(doc, 0, "id"@) is None {
        MisfitView::Missing("id"@)
    } else if !text_fits(member(doc, 0, "id"@)) {
        MisfitView::Wrong("id"@)
    } else if member(doc, 1, "title"@) is None {
        MisfitView::Missing("title"@)
    } else if !text_fits(member(doc, 1, "title"@)) {
        MisfitView::Wrong("title"@)
    } else if !text_fits(member(doc, 2, "icon"@)) {
        MisfitView::Wrong("icon"@)
    } else if !text_fits(member(doc, 3, "label"@)) {
        MisfitView::Wrong("label"@)
    } else if !number_fits(member(doc, 4, "order"@), i32::MIN as int, i32::MAX as int) {
        MisfitView::Wrong("order"@)
    } else if !text_fits(member(doc, 5, "match"@)) {
        MisfitView::Wrong("match"@)
    } else if !text_fits(member(doc, 6, "not_match"@)) {
        MisfitView::Wrong("not_match"@)
    } else if !detects_fit(member(doc, 7, "detects"@)) {
        MisfitView::Wrong("detects"@)
    } else if !builtin_fits(member(doc, 8, "builtin"@)) {
        MisfitView::Wrong("builtin"@)
    } else if !options_fit(member(doc, 9, "options"@)) {
        options_misfit(member(doc, 9, "options"@)->Some_0)
    } else if !text_fits(member(doc, 10, "url"@)) {
        MisfitView::Wrong("url"@)
    } else if !texts_fit(member(doc, 11, "exec"@)) {
        MisfitView::Wrong("exec"@)
    } else if !flag_fits(member(doc, 12, "stdin"@)) {
        MisfitView::Wrong("stdin"@)
    } else if !after_fits(member(doc, 13, "after"@)) {
        MisfitView::Wrong("after"@)
    } else {
        MisfitView::Wrong("enabled"@)
    }
}

/// Says what keeps a value at a path from being read as an option.
fn find_option_misfit(value: &Toml, path: &str) -> (r: Misfit)
    requires
        !option_fits(value@),
    ensures
        r@ == option_misfit(value@, path@),
{
    let members: Vec<&str> = vec!["label", "default", "choices", "value"];
    assert(names_of(members@) =~= option_members());
    if let Some(misfit) = find_record_misfit(value, &members, path) {
        return misfit;
    }
    let label = member_of(value, 0, "label");
    if label.is_none() {
        return Misfit::Missing(join_path(path, "label"));
    }
    let name = if read_text(label).is_none() {
        "label"
    } else if read_text(member_of(value, 1, "default")).is_none() {
        "default"
    } else if read_texts(member_of(value, 2, "choices")).is_none() {
        "choices"
    } else {
        "value"
    };
    Misfit::Wrong(join_path(path, name))
}

/// Says what keeps a value from being read as a table of options.
fn find_options_misfit(value: &Toml) -> (r: Misfit)
    ensures
        r@ == options_misfit(value@),
{
    if let Toml::Table(entries) = value {
        let ghost views = value@->Table_0;
        for i in 0..entries.len()
            invariant
                value@ == TomlView::Table(views),
                views.len() == entries@.len(),
                forall|k: int|
                    0 <= k < views.len() ==> #[trigger] views[k] == (
                        entries@[k].0@,
                        entries@[k].1@,
                    ),
                options_misfit(value@) == options_misfit_from(views, i as int),
        {
            assert(views[i as int] == (entries@[i as int].0@, entries@[i as int].1@));
            if read_option(&entries[i].1).is_none() {
                let path = join_path("options", entries[i].0.as_str());
                return find_option_misfit(&entries[i].1, path.as_str());
            }
        }
    }
    Misfit::Wrong(owned("options"))
}

/// Finds the first of the leading members of a manifest, up to `not_match`, that
/// is missing or does not fit.
fn find_leading_misfit(doc: &Toml) -> (r: Option<Misfit>)
    requires
        is_record(doc@, action_members()),
        record_misfit(doc@, action_members(), Seq::empty()) is None,
    ensures
        match r {
            Some(misfit) => misfit@ == action_misfit(doc@),
            None => {
                &&& member(doc@, 0, "id"@) is Some
                &&& text_fits(member(doc@, 0, "id"@))
                &&& member(doc@, 1, "title"@) is Some
                &&& text_fits(member(doc@, 1, "title"@))
                &&& text_fits(member(doc@, 2, "icon"@))
                &&& text_fits(member(doc@, 3, "label"@))
                &&& number_fits(member(doc@, 4, "order"@), i32::MIN as int, i32::MAX as int)
                &&& text_fits(member(doc@, 5, "match"@))
                &&& text_fits(member(doc@, 6, "not_match"@))
            },
        },
{
    let id = member_of(doc, 0, "id");
    if id.is_none() {
        return Some(Misfit::Missing(owned("id")));
    }
    if read_text(id).is_none() {
        return Some(Misfit::Wrong(owned("id")));
    }
    let title = member_of(doc, 1, "title");
    if title.is_none() {
        return Some(Misfit::Missing(owned("title")));
    }
    let order = member_of(doc, 4, "order");
    let name = if read_text(title).is_none() {
        "title"
    } else if read_text(member_of(doc, 2, "icon")).is_none() {
        "icon"
    } else if read_text(member_of(doc, 3, "label")).is_none() {
        "label"
    } else if read_number(order, i32::MIN as i128, i32::MAX as i128, 0).is_none() {
        "order"
    } else if read_text(member_of(doc, 5, "match")).is_none() {
        "match"
    } else if read_text(member_of(doc, 6, "not_match")).is_none() {
        "not_match"
    } else {
        return None;
    };
    Some(Misfit::Wrong(owned(name)))
}

/// Says what keeps a document from being a manifest.
pub fn find_action_misfit(doc: &Toml) -> (r: Misfit)
    requires
        !action_fits(doc@),
    ensures
        r@ == action_misfit(doc@),
{
    let members: Vec<&str> = vec![
        "id",
        "title",
        "icon",
        "label",
        "order",
        "match",
        "not_match",
        "detects",
        "builtin",
        "options",
        "url",
        "exec",
        "stdin",
        "after",
        "enabled",
    ];
    assert(names_of(members@) =~= action_members());
    assert(""@ =~= Seq::<char>::empty()) by {
        reveal_strlit("");
    }
    if let Some(misfit) = find_record_misfit(doc, &members, "") {
        return misfit;
    }
    if let Some(misfit) = find_leading_misfit(doc) {
        return misfit;
    }
    if let Some(value) = member_of(doc, 7, "detects") {
        if read_detects(value).is_none() {
            return Misfit::Wrong(owned("detects"));
        }
    }
    if let Some(value) = member_of(doc, 8, "builtin") {
        if read_builtin(value).is_none() {
            return Misfit::Wrong(owned("builtin"));
        }
    }
    if let Some(value) = member_of(doc, 9, "options") {
        if read_options(value).is_none() {
            return find_options_misfit(value);
        }
    }
    if read_text(member_of(doc, 10, "url")).is_none() {
        return Misfit::Wrong(owned("url"));
    }
    if read_texts(member_of(doc, 11, "exec")).is_none() {
        return Misfit::Wrong(owned("exec"));
    }
    if read_flag(member_of(doc, 12, "stdin"), false).is_none() {
        return Misfit::Wrong(owned("stdin"));
    }
    if let Some(value) = member_of(doc, 13, "after") {
        if read_after(value).is_none() {
            return Misfit::Wrong(owned("after"));
        }
    }
    Misfit::Wrong(owned("enabled"))
}

// ---------------------------------------------------------------------------
// Declarations that make no sense
// ---------------------------------------------------------------------------

/// What is wrong with a manifest.
#[derive(Debug, PartialEq, Eq)]
pub enum Fault {
    /// It is not TOML; the message says why.
    Syntax(String),
    /// It is TOML, but not a declaration: a member is missing, unknown or of
    /// the wrong kind.
    Schema(Misfit),
    /// It sets both `url` and `exec`.
    UrlAndExec,
    /// It is a builtin with a `url` or an `exec`.
    BuiltinTarget,
    /// It is a builtin with an `after`.
    BuiltinAfter,
    /// It has no `url`, no `exec` and no `after`.
    Inert,
    /// It has a `url` and an `after`.
    UrlAfter,
    /// It sets `stdin` without an `exec`.
    StdinWithoutExec,
    /// The option of this name has a default outside its choices.
    OptionDefault(String),
    /// The option of this name has a value outside its choices.
    OptionValue(String),
    /// `match` is not a regex; the message says why.
    BadMatch(String),
    /// `not_match` is not a regex; the message says why.
    BadNotMatch(String),
}

/// A fault in specifications.
pub enum FaultView {
    Syntax(Seq<char>),
    Schema(MisfitView),
    UrlAndExec,
    BuiltinTarget,
    BuiltinAfter,
    Inert,
    UrlAfter,
    StdinWithoutExec,
    OptionDefault(Seq<char>),
    OptionValue(Seq<char>),
    BadMatch(Seq<char>),
    BadNotMatch(Seq<char>),
}

impl View for Fault {
    type V = FaultView;

    open spec fn view(&self) -> FaultView {
        match self {
            Fault::Syntax(message) => FaultView::Syntax(message@),
            Fault::Schema(misfit) => FaultView::Schema(misfit@),
            Fault::UrlAndExec => FaultView::UrlAndExec,
            Fault::BuiltinTarget => FaultView::BuiltinTarget,
            Fault::BuiltinAfter => FaultView::BuiltinAfter,
            Fault::Inert => FaultView::Inert,
            Fault::UrlAfter => FaultView::UrlAfter,
            Fault::StdinWithoutExec => FaultView::StdinWithoutExec,
            Fault::OptionDefault(name) => FaultView::OptionDefault(name@),
            Fault::OptionValue(name) => FaultView::OptionValue(name@),
            Fault::BadMatch(message) => FaultView::BadMatch(message@),
            Fault::BadNotMatch(message) => FaultView::BadNotMatch(message@),
        }
    }
}

/// What is wrong with one option: where there are choices, a default that is
/// set and a value that is chosen must be among them.
pub open spec fn option_fault(name: Seq<char>, option: OptionView) -> Option<FaultView> {
    if option.choices.len() == 0 {
        None
    } else if option.default.len() > 0 && !option.choices.contains(option.default) {
        Some(FaultView::OptionDefault(name))
    } else if option.value matches Some(value) && !option.choices.contains(value) {
        Some(FaultView::OptionValue(name))
    } else {
        None
    }
}

/// What is wrong with the first faulty option at or after `from`.
pub open spec fn options_fault(options: Seq<(Seq<char>, OptionView)>, from: int) -> Option<
    FaultView,
>
    decreases options.len() - from,
{
    if from < 0 || from >= options.len() {
        None
    } else {
        match option_fault(options[from].0, options[from].1) {
            Some(fault) => Some(fault),
            None => options_fault(options, from + 1),
        }
    }
}

/// What is wrong with a declaration, patterns aside.
pub open spec fn spec_fault(spec: SpecView) -> Option<FaultView> {
    if spec.url is Some && spec.command is Some {
        Some(FaultView::UrlAndExec)
    } else if spec.builtin is Some && (spec.url is Some || spec.command is Some) {
        Some(FaultView::BuiltinTarget)
    } else if spec.builtin is Some && spec.after != After::Ignore {
        Some(FaultView::BuiltinAfter)
    } else if spec.builtin is None && spec.url is None && spec.command is None && spec.after
        == After::Ignore {
        Some(FaultView::Inert)
    } else if spec.url is Some && spec.after != After::Ignore {
        Some(FaultView::UrlAfter)
    } else if spec.stdin && spec.command is None {
        Some(FaultView::StdinWithoutExec)
    } else {
        options_fault(spec.options, 0)
    }
}

/// Whether a text is in a list.
pub fn is_listed(list: &Vec<String>, text: &str) -> (r: bool)
    ensures
        r == texts(list@).contains(text@),
{
    let ghost all = texts(list@);
    for i in 0..list.len()
        invariant
            all == texts(list@),
            forall|k: int| 0 <= k < i ==> #[trigger] all[k] != text@,
    {
        assert(all[i as int] == list@[i as int]@);
        if same_text(list[i].as_str(), text) {
            return true;
        }
    }
    false
}

/// Finds what is wrong with one option.
fn check_option(name: &String, option: &OptionSpec) -> (r: Option<Fault>)
    ensures
        match r {
            Some(fault) => option_fault(name@, option@) == Some(fault@),
            None => option_fault(name@, option@) is None,
        },
{
    if option.choices.len() == 0 {
        return None;
    }
    if !same_text(option.default.as_str(), "") && !is_listed(
        &option.choices,
        option.default.as_str(),
    ) {
        proof {
            reveal_strlit("");
            assert(option.default@ !~= ""@ ==> option.default@.len() > 0);
        }
        return Some(Fault::OptionDefault(name.clone()));
    }
    proof {
        reveal_strlit("");
    }
    match &option.value {
        Some(value) => if is_listed(&option.choices, value.as_str()) {
            None
        } else {
            Some(Fault::OptionValue(name.clone()))
        },
        None => None,
    }
}

/// Finds what is wrong with the first faulty option of a table.
fn check_options(options: &Vec<(String, OptionSpec)>) -> (r: Option<Fault>)
    ensures
        match r {
            Some(fault) => options_fault(options_view(options@), 0) == Some(fault@),
            None => options_fault(options_view(options@), 0) is None,
        },
{
    let ghost views = options_view(options@);
    for i in 0..options.len()
        invariant
            views == options_view(options@),
            options_fault(views, 0) == options_fault(views, i as int),
    {
        assert(views[i as int] == (options@[i as int].0@, options@[i as int].1@));
        match check_option(&options[i].0, &options[i].1) {
            Some(fault) => {
                return Some(fault);
            },
            None => {},
        }
    }
    None
}

/// Finds what is wrong with a declaration, patterns aside.
pub fn check_spec(spec: &ActionSpec) -> (r: Option<Fault>)
    ensures
        match r {
            Some(fault) => spec_fault(spec@) == Some(fault@),
            None => spec_fault(spec@) is None,
        },
{
    if spec.url.is_some() && spec.command.is_some() {
        return Some(Fault::UrlAndExec);
    }
    if spec.builtin.is_some() && (spec.url.is_some() || spec.command.is_some()) {
        return Some(Fault::BuiltinTarget);
    }
    if spec.builtin.is_some() && spec.after != After::Ignore {
        return Some(Fault::BuiltinAfter);
    }
    if spec.builtin.is_none() && spec.url.is_none() && spec.command.is_none() && spec.after
        == After::Ignore {
        return Some(Fault::Inert);
    }
    if spec.url.is_some() && spec.after != After::Ignore {
        return Some(Fault::UrlAfter);
    }
    if spec.stdin && spec.command.is_none() {
        return Some(Fault::StdinWithoutExec);
    }
    check_options(&spec.options)
}

/// Why a manifest was refused: what is wrong with it, and the id of the action
/// as far as one could be read.
#[derive(Debug, PartialEq, Eq)]
pub struct ManifestError {
    pub id: String,
    pub fault: Fault,
}

/// A refusal in specifications.
pub struct RefusalView {
    pub id: Seq<char>,
    pub fault: FaultView,
}

impl View for ManifestError {
    type V = RefusalView;

    open spec fn view(&self) -> RefusalView {
        RefusalView { id: self.id@, fault: self.fault@ }
    }
}

/// What a refusal says to the user.
pub open spec fn refusal_text(refusal: RefusalView) -> Seq<char> {
    let action = "action `"@ + refusal.id;
    match refusal.fault {
        FaultView::Syntax(message) => "parsing TOML: "@ + message,
        FaultView::Schema(misfit) => "parsing TOML: "@ + misfit_text(misfit),
        FaultView::UrlAndExec => action + "` sets both `url` and `exec`; pick one"@,
        FaultView::BuiltinTarget => action
            + "` is a `builtin`, so `url` and `exec` do not apply"@,
        FaultView::BuiltinAfter => action + "` is a `builtin`, so `after` has no effect"@,
        FaultView::Inert => action
            + "` has no `url`, no `exec` and no `after`, so it would do nothing"@,
        FaultView::UrlAfter => action + "` is a `url` action, so `after` has no effect"@,
        FaultView::StdinWithoutExec => action + "` sets `stdin` but has no `exec`"@,
        FaultView::OptionDefault(name) => action + "`: option `"@ + name
            + "` has a default outside its choices"@,
        FaultView::OptionValue(name) => action + "`: option `"@ + name
            + "` has a value outside its choices"@,
        FaultView::BadMatch(message) => action + "`: bad `match` regex: "@ + message,
        FaultView::BadNotMatch(message) => action + "`: bad `not_match` regex: "@ + message,
    }
}

impl ManifestError {
    /// What to say to the user.
    pub fn message(&self) -> (r: String)
        ensures
            r@ == refusal_text(self@),
    {
        let mut out = owned("action `");
        out.append(self.id.as_str());
        match &self.fault {
            Fault::Syntax(message) => {
                let mut out = owned("parsing TOML: ");
                out.append(message.as_str());
                return out;
            },
            Fault::Schema(misfit) => {
                let mut out = owned("parsing TOML: ");
                out.append(misfit.message().as_str());
                return out;
            },
            Fault::UrlAndExec => {
                out.append("` sets both `url` and `exec`; pick one");
            },
            Fault::BuiltinTarget => {
                out.append("` is a `builtin`, so `url` and `exec` do not apply");
            },
            Fault::BuiltinAfter => {
                out.append("` is a `builtin`, so `after` has no effect");
            },
            Fault::Inert => {
                out.append("` has no `url`, no `exec` and no `after`, so it would do nothing");
            },
            Fault::UrlAfter => {
                out.append("` is a `url` action, so `after` has no effect");
            },
            Fault::StdinWithoutExec => {
                out.append("` sets `stdin` but has no `exec`");
            },
            Fault::OptionDefault(name) => {
                out.append("`: option `");
                out.append(name.as_str());
                out.append("` has a default outside its choices");
            },
            Fault::OptionValue(name) => {
                out.append("`: option `");
                out.append(name.as_str());
                out.append("` has a value outside its choices");
            },
            Fault::BadMatch(message) => {
                out.append("`: bad `match` regex: ");
                out.append(message.as_str());
            },
            Fault::BadNotMatch(message) => {
                out.append("`: bad `not_match` regex: ");
                out.append(message.as_str());
            },
        }
        out
    }
}

// ---------------------------------------------------------------------------
// Actions
// ---------------------------------------------------------------------------

/// An action with its patterns compiled and its source file remembered.
#[derive(Debug)]
pub struct Action {
    pub spec: ActionSpec,
    pub match_re: Option<Pattern>,
    pub not_match: Option<Pattern>,
    /// The path of the manifest, empty if it came from elsewhere.
    pub origin: String,
}

/// An action in specifications. A compiled pattern counts by its source.
pub struct ActionView {
    pub spec: SpecView,
    pub match_re: Option<Seq<char>>,
    pub not_match: Option<Seq<char>>,
    pub origin: Seq<char>,
}

/// The source of an optional pattern.
pub open spec fn maybe_pattern(pattern: Option<Pattern>) -> Option<Seq<char>> {
    match pattern {
        Some(pattern) => Some(pattern@),
        None => None,
    }
}

impl View for Action {
    type V = ActionView;

    open spec fn view(&self) -> ActionView {
        ActionView {
            spec: self.spec@,
            match_re: maybe_pattern(self.match_re),
            not_match: maybe_pattern(self.not_match),
            origin: self.origin@,
        }
    }
}

/// A copy of an optional pattern.
fn copy_pattern(pattern: &Option<Pattern>) -> (r: Option<Pattern>)
    ensures
        maybe_pattern(r) == maybe_pattern(*pattern),
{
    match pattern {
        Some(pattern) => Some(pattern.clone()),
        None => None,
    }
}

impl Clone for Action {
    fn clone(&self) -> (r: Self)
        ensures
            r@ == self@,
    {
        Action {
            spec: self.spec.clone(),
            match_re: copy_pattern(&self.match_re),
            not_match: copy_pattern(&self.not_match),
            origin: self.origin.clone(),
        }
    }
}

/// Whether a selection was classified as one of the kinds that an action asks
/// for. One that asks for none takes any selection.
pub open spec fn kind_found(detects: Seq<Detect>, class: ClassView) -> bool {
    detects.len() == 0 || exists|i: int|
        0 <= i < detects.len() && detected(class, #[trigger] detects[i]) is Some
}

/// Whether an action is offered, given whether the selection matched `match`
/// and `not_match`.
pub open spec fn offered(
    action: ActionView,
    class: ClassView,
    matched: bool,
    suppressed: bool,
) -> bool {
    &&& action.spec.enabled
    &&& kind_found(action.spec.detects, class)
    &&& action.match_re is Some ==> matched
    &&& action.not_match is Some ==> !suppressed
}

/// Whether an action is offered for a text.
pub open spec fn action_matches(action: ActionView, text: Seq<char>, class: ClassView) -> bool {
    offered(
        action,
        class,
        regex_matches(action.match_re->Some_0, text),
        regex_matches(action.not_match->Some_0, text),
    )
}

impl Action {
    /// Whether this action should be offered, given the classification of the
    /// selection and whether it matched `match` and `not_match`. A pattern that
    /// the action lacks has no say.
    pub fn is_offered(&self, class: &Classification, matched: bool, suppressed: bool) -> (r: bool)
        ensures
            r == offered(self@, class@, matched, suppressed),
    {
        if !self.spec.enabled {
            return false;
        }
        if self.spec.detects.len() > 0 {
            let ghost detects = self@.spec.detects;
            let mut found = false;
            for i in 0..self.spec.detects.len()
                invariant
                    detects == self.spec.detects@,
                    found <==> exists|k: int|
                        0 <= k < i && detected(class@, #[trigger] detects[k]) is Some,
            {
                if class.get(self.spec.detects[i]).is_some() {
                    assert(detected(class@, detects[i as int]) is Some);
                    found = true;
                }
            }
            if !found {
                return false;
            }
        }
        (self.match_re.is_none() || matched) && (self.not_match.is_none() || !suppressed)
    }

    /// Whether this action should be offered for `text`, classified as `class`.
    pub fn matches(&self, text: &str, class: &Classification) -> (r: bool)
        ensures
            r == action_matches(self@, text@, class@),
    {
        let matched = match &self.match_re {
            Some(pattern) => pattern.is_match(text),
            None => true,
        };
        let suppressed = match &self.not_match {
            Some(pattern) => pattern.is_match(text),
            None => false,
        };
        self.is_offered(class, matched, suppressed)
    }
}

/// What became of compiling an optional pattern, in specifications: nothing to
/// compile, the pattern, or the message that says why it is not one.
pub open spec fn compiled_view(compiled: Option<Result<Pattern, String>>) -> Option<
    Result<Seq<char>, Seq<char>>,
> {
    match compiled {
        None => None,
        Some(Ok(pattern)) => Some(Ok(pattern@)),
        Some(Err(message)) => Some(Err(message@)),
    }
}

/// What becomes of compiling an optional pattern.
pub open spec fn compiling(source: Option<Seq<char>>) -> Option<Result<Seq<char>, Seq<char>>> {
    match source {
        None => None,
        Some(source) => match regex_verdict(source) {
            Ok(_) => Some(Ok(source)),
            Err(message) => Some(Err(message)),
        },
    }
}

/// The source of a pattern that compiled.
pub open spec fn compiled_source(compiled: Option<Result<Seq<char>, Seq<char>>>) -> Option<
    Seq<char>,
> {
    match compiled {
        Some(Ok(source)) => Some(source),
        _ => None,
    }
}

/// The action that a declaration makes with what became of its patterns.
pub open spec fn assembled(
    spec: SpecView,
    match_re: Option<Result<Seq<char>, Seq<char>>>,
    not_match: Option<Result<Seq<char>, Seq<char>>>,
) -> Result<ActionView, RefusalView> {
    if spec_fault(spec) is Some {
        Err(RefusalView { id: spec.id, fault: spec_fault(spec)->Some_0 })
    } else if let Some(Err(message)) = match_re {
        Err(RefusalView { id: spec.id, fault: FaultView::BadMatch(message) })
    } else if let Some(Err(message)) = not_match {
        Err(RefusalView { id: spec.id, fault: FaultView::BadNotMatch(message) })
    } else {
        Ok(
            ActionView {
                spec,
                match_re: compiled_source(match_re),
                not_match: compiled_source(not_match),
                origin: Seq::empty(),
            },
        )
    }
}

/// Whether a result is as a specification says.
pub open spec fn is_outcome(
    r: Result<Action, ManifestError>,
    expected: Result<ActionView, RefusalView>,
) -> bool {
    match r {
        Ok(action) => expected == Ok::<ActionView, RefusalView>(action@),
        Err(error) => expected == Err::<ActionView, RefusalView>(error@),
    }
}

/// Compiles an optional pattern.
fn compile_maybe(source: &Option<String>) -> (r: Option<Result<Pattern, String>>)
    ensures
        compiled_view(r) == compiling(maybe_text(*source)),
{
    match source {
        None => None,
        Some(source) => Some(Pattern::new(source.as_str())),
    }
}

/// Makes an action of a declaration and its patterns, unless something is
/// wrong with either.
pub fn assemble(
    spec: ActionSpec,
    match_re: Option<Result<Pattern, String>>,
    not_match: Option<Result<Pattern, String>>,
) -> (r: Result<Action, ManifestError>)
    ensures
        is_outcome(r, assembled(spec@, compiled_view(match_re), compiled_view(not_match))),
{
    let id = spec.id.clone();
    match check_spec(&spec) {
        Some(fault) => {
            return Err(ManifestError { id, fault });
        },
        None => {},
    }
    let match_re = match match_re {
        None => None,
        Some(Ok(pattern)) => Some(pattern),
        Some(Err(message)) => {
            return Err(ManifestError { id, fault: Fault::BadMatch(message) });
        },
    };
    let not_match = match not_match {
        None => None,
        Some(Ok(pattern)) => Some(pattern),
        Some(Err(message)) => {
            return Err(ManifestError { id, fault: Fault::BadNotMatch(message) });
        },
    };
    let origin = String::new();
    assert(origin@ =~= Seq::<char>::empty());
    Ok(Action { spec, match_re, not_match, origin })
}

/// The action that a document declares.
pub open spec fn manifest_action(doc: TomlView) -> Result<ActionView, RefusalView> {
    if action_fits(doc) {
        let spec = action_from(doc);
        assembled(spec, compiling(spec.match_re), compiling(spec.not_match))
    } else {
        Err(RefusalView { id: Seq::empty(), fault: FaultView::Schema(action_misfit(doc)) })
    }
}

/// The action that a manifest declares.
pub open spec fn manifest_outcome(raw: Seq<char>) -> Result<ActionView, RefusalView> {
    match toml_document(raw) {
        Ok(doc) => manifest_action(doc),
        Err(message) => Err(
            RefusalView { id: Seq::empty(), fault: FaultView::Syntax(message) },
        ),
    }
}

/// Reads an action out of a document.
pub fn action_from_document(doc: &Toml) -> (r: Result<Action, ManifestError>)
    ensures
        is_outcome(r, manifest_action(doc@)),
{
    match spec_from_document(doc) {
        Some(spec) => {
            let match_re = compile_maybe(&spec.match_re);
            let not_match = compile_maybe(&spec.not_match);
            assemble(spec, match_re, not_match)
        },
        None => {
            let id = String::new();
            assert(id@ =~= Seq::<char>::empty());
            Err(ManifestError { id, fault: Fault::Schema(find_action_misfit(doc)) })
        },
    }
}

/// Parses and validates one action manifest. Also the test that decides whether
/// a selection is one.
pub fn parse_manifest(raw: &str) -> (r: Result<Action, ManifestError>)
    ensures
        is_outcome(r, manifest_outcome(raw@)),
        toml_document(raw@) matches Ok(doc) ==> doc is Table && tidy(doc),
{
    match read_document(raw) {
        Ok(doc) => action_from_document(&doc),
        Err(message) => {
            let id = String::new();
            assert(id@ =~= Seq::<char>::empty());
            Err(ManifestError { id, fault: Fault::Syntax(message) })
        },
    }
}

// ---------------------------------------------------------------------------
// What a manifest promises
// ---------------------------------------------------------------------------

/// Options without a fault have none from any position on.
proof fn lemma_options_sound(options: Seq<(Seq<char>, OptionView)>, from: int, i: int)
    requires
        0 <= from <= i < options.len(),
        options_fault(options, from) is None,
    ensures
        option_fault(options[i].0, options[i].1) is None,
    decreases i - from,
{
    if from < i {
        lemma_options_sound(options, from + 1, i);
    }
}

/// A table of options is ascending by name.
pub proof fn lemma_option_table_ascends(entries: Seq<(Seq<char>, TomlView)>, from: int)
    ensures
        ascending(option_names(option_table(entries, from))),
    decreases entries.len() - from,
{
    if 0 <= from < entries.len() {
        lemma_option_table_ascends(entries, from + 1);
        let rest = option_table(entries, from + 1);
        lemma_put_ascends(option_names(rest), entries[from].0);
        lemma_slot_from(option_names(rest), entries[from].0, 0);
        assert(option_names(option_table(entries, from)) =~= put(
            option_names(rest),
            option_names(rest),
            entries[from].0,
            entries[from].0,
        ));
    }
}

/// A search finds the first option of a name.
pub proof fn lemma_option_search(
    options: Seq<(Seq<char>, OptionView)>,
    name: Seq<char>,
    from: int,
    i: int,
)
    requires
        0 <= from <= i <= options.len(),
        forall|k: int| from <= k < i ==> (#[trigger] options[k]).0 != name,
        i < options.len() ==> options[i].0 == name,
    ensures
        option_from_position(options, name, from) == (if i < options.len() {
            Some(options[i].1)
        } else {
            None
        }),
    decreases i - from,
{
    if from < i {
        assert(options[from].0 != name);
        lemma_option_search(options, name, from + 1, i);
    }
}

/// In a table ascending by name, an option is found wherever it stands.
pub proof fn lemma_option_found(options: Seq<(Seq<char>, OptionView)>, i: int)
    requires
        ascending(option_names(options)),
        0 <= i < options.len(),
    ensures
        option_named(options, options[i].0) == Some(options[i].1),
{
    let names = option_names(options);
    let name = options[i].0;
    assert forall|k: int| 0 <= k < i implies (#[trigger] options[k]).0 != name by {
        assert(sorts_before(names[k], names[i]));
        lemma_sorts_irreflexive(name);
    }
    lemma_option_search(options, name, 0, i);
}

/// An option that stands nowhere is not found.
pub proof fn lemma_option_missing(options: Seq<(Seq<char>, OptionView)>, name: Seq<char>)
    requires
        forall|i: int| 0 <= i < options.len() ==> (#[trigger] options[i]).0 != name,
    ensures
        option_named(options, name) is None,
{
    lemma_option_search(options, name, 0, options.len() as int);
}

/// Whether an option of a name stands in a table.
pub proof fn lemma_option_stands(options: Seq<(Seq<char>, OptionView)>, name: Seq<char>) -> (i: int)
    requires
        option_named(options, name) is Some,
    ensures
        0 <= i < options.len() && options[i].0 == name,
{
    if forall|i: int| 0 <= i < options.len() ==> (#[trigger] options[i]).0 != name {
        lemma_option_missing(options, name);
    }
    choose|i: int| 0 <= i < options.len() && (#[trigger] options[i]).0 == name
}

/// Putting an option into an ascending table changes that option alone.
proof fn lemma_option_put(
    rest: Seq<(Seq<char>, OptionView)>,
    name: Seq<char>,
    option: OptionView,
    key: Seq<char>,
)
    requires
        ascending(option_names(rest)),
    ensures
        option_named(put(option_names(rest), rest, name, (name, option)), key) == (if key == name {
            Some(option)
        } else {
            option_named(rest, key)
        }),
{
    let names = option_names(rest);
    let out = put(names, rest, name, (name, option));
    let p = slot(names, name);
    lemma_slot_from(names, name, 0);
    lemma_put_ascends(names, name);
    assert(option_names(out) =~= put(names, names, name, name));
    if key == name {
        lemma_option_found(out, p);
    } else if option_named(rest, key) is Some {
        let i = lemma_option_stands(rest, key);
        lemma_option_found(rest, i);
        let j = if holds(names, name) || i < p {
            i
        } else {
            i + 1
        };
        assert(holds(names, name) ==> names[p] == name && rest[p].0 == name);
        assert(out[j] == rest[i]);
        lemma_option_found(out, j);
    } else {
        assert forall|i: int| 0 <= i < out.len() implies (#[trigger] out[i]).0 != key by {
            if out[i].0 == key {
                assert(i != p);
                let j = if holds(names, name) || i < p {
                    i
                } else {
                    i - 1
                };
                assert(rest[j] == out[i]);
                lemma_option_found(rest, j);
            }
        }
        lemma_option_missing(out, key);
    }
}

/// An option is found in a table exactly if the document declares it.
pub proof fn lemma_option_table_lookup(
    entries: Seq<(Seq<char>, TomlView)>,
    key: Seq<char>,
    from: int,
)
    requires
        0 <= from <= entries.len(),
    ensures
        option_named(option_table(entries, from), key) == (match entry_from(entries, key, from) {
            Some(value) => Some(option_from(value)),
            None => None,
        }),
    decreases entries.len() - from,
{
    if from < entries.len() {
        lemma_option_table_lookup(entries, key, from + 1);
        lemma_option_table_ascends(entries, from + 1);
        lemma_option_put(
            option_table(entries, from + 1),
            entries[from].0,
            option_from(entries[from].1),
            key,
        );
    } else {
        lemma_option_missing(option_table(entries, from), key);
    }
}

/// Two ascending tables with the same options are the same.
pub proof fn lemma_option_tables_equal(
    a: Seq<(Seq<char>, OptionView)>,
    b: Seq<(Seq<char>, OptionView)>,
)
    requires
        ascending(option_names(a)),
        ascending(option_names(b)),
        forall|key: Seq<char>| #[trigger] option_named(a, key) == option_named(b, key),
    ensures
        a == b,
    decreases a.len(),
{
    if a.len() == 0 && b.len() == 0 {
        assert(a =~= b);
    } else if a.len() == 0 {
        lemma_option_found(b, b.len() - 1);
        lemma_option_missing(a, b[b.len() - 1].0);
        assert(option_named(a, b[b.len() - 1].0) is None);
    } else if b.len() == 0 {
        lemma_option_found(a, a.len() - 1);
        lemma_option_missing(b, a[a.len() - 1].0);
    } else {
        let x = a[a.len() - 1];
        let y = b[b.len() - 1];
        lemma_option_found(a, a.len() - 1);
        lemma_option_found(b, b.len() - 1);
        let i = lemma_option_stands(b, x.0);
        assert(option_named(a, y.0) is Some);
        let j = lemma_option_stands(a, y.0);
        if x.0 != y.0 {
            assert(sorts_before(option_names(b)[i], option_names(b)[b.len() - 1]));
            assert(sorts_before(option_names(a)[j], option_names(a)[a.len() - 1]));
            lemma_sorts_transitive(x.0, y.0, x.0);
            lemma_sorts_irreflexive(x.0);
        }
        assert(x == y);
        let c = a.drop_last();
        let d = b.drop_last();
        lemma_option_prefix(a);
        lemma_option_prefix(b);
        assert forall|key: Seq<char>| #[trigger] option_named(c, key) == option_named(d, key) by {
            assert(option_named(a, key) == option_named(b, key));
        }
        lemma_option_tables_equal(c, d);
        assert(a =~= c.push(x));
        assert(b =~= d.push(y));
    }
}

/// A table without its last option holds all the others.
proof fn lemma_option_prefix(a: Seq<(Seq<char>, OptionView)>)
    requires
        ascending(option_names(a)),
        a.len() > 0,
    ensures
        ascending(option_names(a.drop_last())),
        forall|key: Seq<char>|
            #[trigger] option_named(a.drop_last(), key) == (if key == a.last().0 {
                None
            } else {
                option_named(a, key)
            }),
{
    let c = a.drop_last();
    let names = option_names(a);
    assert forall|i: int, j: int| 0 <= i < j < option_names(c).len() implies sorts_before(
        #[trigger] option_names(c)[i],
        #[trigger] option_names(c)[j],
    ) by {
        assert(names[i] == option_names(c)[i] && names[j] == option_names(c)[j]);
    }
    assert forall|key: Seq<char>|
        #[trigger] option_named(c, key) == (if key == a.last().0 {
            None
        } else {
            option_named(a, key)
        }) by {
        if option_named(c, key) is Some {
            let i = lemma_option_stands(c, key);
            lemma_option_found(c, i);
            lemma_option_found(a, i);
            assert(sorts_before(names[i], names[a.len() - 1]));
            lemma_sorts_irreflexive(key);
        } else if key != a.last().0 && option_named(a, key) is Some {
            let i = lemma_option_stands(a, key);
            assert(c[i] == a[i]);
            lemma_option_found(c, i);
        }
    }
}

/// An action that a manifest declares does one thing: it is a builtin, opens a
/// URL, runs a command, or hands the selection on. It carries no setting that
/// would have no effect, and its patterns are the ones it declares.
pub proof fn law_actions_do_one_thing(raw: Seq<char>, action: ActionView)
    requires
        manifest_outcome(raw) == Ok::<ActionView, RefusalView>(action),
    ensures
        !(action.spec.url is Some && action.spec.command is Some),
        action.spec.builtin is Some ==> action.spec.url is None && action.spec.command is None
            && action.spec.after == After::Ignore,
        action.spec.builtin is None && action.spec.url is None && action.spec.command is None
            ==> action.spec.after != After::Ignore,
        action.spec.url is Some ==> action.spec.after == After::Ignore,
        action.spec.stdin ==> action.spec.command is Some,
        action.match_re == action.spec.match_re,
        action.not_match == action.spec.not_match,
{
}

/// Where an option of a declared action has choices, its value is one of them,
/// or is an empty default. No two options share a name.
pub proof fn law_options_stay_within_their_choices(raw: Seq<char>, action: ActionView, i: int)
    requires
        manifest_outcome(raw) == Ok::<ActionView, RefusalView>(action),
        0 <= i < action.spec.options.len(),
    ensures
        ascending(option_names(action.spec.options)),
        action.spec.options[i].1.choices.len() > 0 ==> {
            let value = effective_value(action.spec.options[i].1);
            value.len() == 0 || action.spec.options[i].1.choices.contains(value)
        },
{
    let doc = toml_document(raw)->Ok_0;
    lemma_options_sound(action.spec.options, 0, i);
    match member(doc, 9, "options"@) {
        Some(v) => lemma_option_table_ascends(v->Table_0, 0),
        None => {},
    }
}

/// An action guarded by `detects` is offered only where one of the kinds was
/// detected, and a disabled action is never offered.
pub proof fn law_guarded_actions_have_a_value(action: ActionView, text: Seq<char>, class: ClassView)
    requires
        action_matches(action, text, class),
    ensures
        action.spec.enabled,
        action.spec.detects.len() > 0 ==> exists|i: int|
            0 <= i < action.spec.detects.len() && detected(
                class,
                #[trigger] action.spec.detects[i],
            ) is Some,
{
}

/// The words for kinds, builtins and modes are written in full and in lower case,
/// and each means its own.
pub proof fn law_words_mean_their_own(name: Seq<char>)
    ensures
        detect_value(TomlView::Text("url"@)) == Some(Detect::Url),
        detect_value(TomlView::Text("email"@)) == Some(Detect::Email),
        detect_value(TomlView::Text("path"@)) == Some(Detect::Path),
        detect_value(TomlView::Text("phone"@)) == Some(Detect::Phone),
        detect_value(TomlView::Text("color"@)) == Some(Detect::Color),
        detect_value(TomlView::Text(name)) is Some ==> name == "url"@ || name == "email"@ || name
            == "path"@ || name == "phone"@ || name == "color"@,
        builtin_value(TomlView::Text("cut"@)) == Some(Builtin::Cut),
        builtin_value(TomlView::Text("paste"@)) == Some(Builtin::Paste),
        builtin_value(TomlView::Text(name)) is Some ==> name == "cut"@ || name == "paste"@,
        after_value(TomlView::Text("ignore"@)) == Some(After::Ignore),
        after_value(TomlView::Text("copy"@)) == Some(After::Copy),
        after_value(TomlView::Text("replace"@)) == Some(After::Replace),
        after_value(TomlView::Text("show"@)) == Some(After::Show),
        after_value(TomlView::Text(name)) is Some ==> name == "ignore"@ || name == "copy"@ || name
            == "replace"@ || name == "show"@,
{
    reveal_strlit("url");
    reveal_strlit("email");
    reveal_strlit("path");
    reveal_strlit("phone");
    reveal_strlit("color");
    assert("url"@.len() == 3 && "email"@.len() == 5 && "path"@.len() == 4);
    assert("phone"@.len() == 5 && "color"@.len() == 5);
    assert("email"@[0] == 'e' && "phone"@[0] == 'p' && "color"@[0] == 'c');
    reveal_strlit("cut");
    reveal_strlit("paste");
    assert("cut"@.len() == 3 && "paste"@.len() == 5);
    reveal_strlit("ignore");
    reveal_strlit("copy");
    reveal_strlit("replace");
    reveal_strlit("show");
    assert("ignore"@.len() == 6 && "copy"@.len() == 4 && "replace"@.len() == 7);
    assert("show"@.len() == 4 && "copy"@[0] == 'c' && "show"@[0] == 's');
}

/// What each member of a manifest declares. What is left out has no say, but for
/// an action that is on, at order nought, without stdin, whose output is ignored.
pub proof fn law_each_member_declares_its_own(
    entries: Seq<(Seq<char>, TomlView)>,
    text: Seq<char>,
    number: i32,
    flag: bool,
)
    ensures
        ({
            let spec = action_from(TomlView::Table(entries));
            let at = |name: Seq<char>| entry_from(entries, name, 0);
            &&& at("id"@) == Some(TomlView::Text(text)) ==> spec.id == text
            &&& at("title"@) == Some(TomlView::Text(text)) ==> spec.title == text
            &&& at("icon"@) == Some(TomlView::Text(text)) ==> spec.icon == Some(text)
            &&& at("icon"@) is None ==> spec.icon is None
            &&& at("label"@) == Some(TomlView::Text(text)) ==> spec.label == Some(text)
            &&& at("label"@) is None ==> spec.label is None
            &&& at("order"@) == Some(TomlView::Integer(number as int)) ==> spec.order == number
            &&& at("order"@) is None ==> spec.order == 0
            &&& at("match"@) == Some(TomlView::Text(text)) ==> spec.match_re == Some(text)
            &&& at("match"@) is None ==> spec.match_re is None
            &&& at("not_match"@) == Some(TomlView::Text(text)) ==> spec.not_match == Some(text)
            &&& at("not_match"@) is None ==> spec.not_match is None
            &&& at("builtin"@) == Some(TomlView::Text("cut"@)) ==> spec.builtin == Some(
                Builtin::Cut,
            )
            &&& at("builtin"@) == Some(TomlView::Text("paste"@)) ==> spec.builtin == Some(
                Builtin::Paste,
            )
            &&& at("builtin"@) is None ==> spec.builtin is None
            &&& at("url"@) == Some(TomlView::Text(text)) ==> spec.url == Some(text)
            &&& at("url"@) is None ==> spec.url is None
            &&& at("exec"@) is None ==> spec.command is None
            &&& at("stdin"@) == Some(TomlView::Boolean(flag)) ==> spec.stdin == flag
            &&& at("stdin"@) is None ==> !spec.stdin
            &&& at("after"@) == Some(TomlView::Text("ignore"@)) ==> spec.after == After::Ignore
            &&& at("after"@) == Some(TomlView::Text("copy"@)) ==> spec.after == After::Copy
            &&& at("after"@) == Some(TomlView::Text("replace"@)) ==> spec.after == After::Replace
            &&& at("after"@) == Some(TomlView::Text("show"@)) ==> spec.after == After::Show
            &&& at("after"@) is None ==> spec.after == After::Ignore
            &&& at("enabled"@) == Some(TomlView::Boolean(flag)) ==> spec.enabled == flag
            &&& at("enabled"@) is None ==> spec.enabled
            &&& at("detects"@) is None ==> spec.detects.len() == 0
            &&& at("options"@) is None ==> spec.options.len() == 0
        }),
{
    law_words_mean_their_own(text);
}

/// The lists of a manifest are taken item by item.
pub proof fn law_lists_are_declared_item_by_item(
    entries: Seq<(Seq<char>, TomlView)>,
    items: Seq<TomlView>,
    i: int,
    text: Seq<char>,
    kind: Detect,
)
    requires
        0 <= i < items.len(),
    ensures
        ({
            let spec = action_from(TomlView::Table(entries));
            &&& entry_from(entries, "exec"@, 0) == Some(TomlView::Array(items)) ==> {
                &&& spec.command matches Some(argv) && argv.len() == items.len() && (items[i]
                    == TomlView::Text(text) ==> argv[i] == text)
            }
            &&& entry_from(entries, "detects"@, 0) == Some(TomlView::Array(items)) ==> {
                &&& spec.detects.len() == items.len()
                &&& detect_value(items[i]) == Some(kind) ==> spec.detects[i] == kind
            }
        }),
{
}

/// What each member of an option declares. Only the label is required.
pub proof fn law_each_member_of_an_option_declares_its_own(
    entries: Seq<(Seq<char>, TomlView)>,
    text: Seq<char>,
)
    ensures
        ({
            let option = option_from(TomlView::Table(entries));
            let at = |name: Seq<char>| entry_from(entries, name, 0);
            &&& at("label"@) == Some(TomlView::Text(text)) ==> option.label == text
            &&& at("default"@) == Some(TomlView::Text(text)) ==> option.default == text
            &&& at("default"@) is None ==> option.default.len() == 0
            &&& at("value"@) == Some(TomlView::Text(text)) ==> option.value == Some(text)
            &&& at("value"@) is None ==> option.value is None
            &&& at("choices"@) is None ==> option.choices.len() == 0
            &&& at("label"@) is None ==> !option_fits(TomlView::Table(entries))
            &&& option_fits(TomlView::Table(entries)) ==> at("label"@) matches Some(
                TomlView::Text(_),
            )
        }),
{
}

/// The choices of an option are taken item by item.
pub proof fn law_choices_are_declared_item_by_item(
    entries: Seq<(Seq<char>, TomlView)>,
    items: Seq<TomlView>,
    i: int,
    text: Seq<char>,
)
    requires
        0 <= i < items.len(),
        entry_from(entries, "choices"@, 0) == Some(TomlView::Array(items)),
        items[i] == TomlView::Text(text),
    ensures
        option_from(TomlView::Table(entries)).choices.len() == items.len(),
        option_from(TomlView::Table(entries)).choices[i] == text,
{
}

/// A table reads as a manifest exactly if it has an `id` and a `title`, every
/// entry is one of the fifteen members, and each of them is of its kind.
pub proof fn law_a_manifest_has_an_id_and_a_title(
    entries: Seq<(Seq<char>, TomlView)>,
    i: int,
)
    requires
        0 <= i < entries.len(),
    ensures
        ({
            let doc = TomlView::Table(entries);
            let name = entries[i].0;
            let at = |name: Seq<char>| entry_from(entries, name, 0);
            let wrong = |name: Seq<char>| at(name) matches Some(v) && !(v is Text);
            &&& action_fits(doc) ==> at("id"@) is Some && at("title"@) is Some
            &&& action_fits(doc) ==> name == "id"@ || name == "title"@ || name == "icon"@ || name
                == "label"@ || name == "order"@ || name == "match"@ || name == "not_match"@
                || name == "detects"@ || name == "builtin"@ || name == "options"@ || name
                == "url"@ || name == "exec"@ || name == "stdin"@ || name == "after"@ || name
                == "enabled"@
            &&& wrong("id"@) || wrong("title"@) || wrong("icon"@) || wrong("label"@) || wrong(
                "match"@,
            ) || wrong("not_match"@) || wrong("url"@) ==> !action_fits(doc)
            &&& (at("stdin"@) matches Some(v) && !(v is Boolean)) ==> !action_fits(doc)
            &&& (at("enabled"@) matches Some(v) && !(v is Boolean)) ==> !action_fits(doc)
            &&& (at("order"@) matches Some(v) && !(v is Integer)) ==> !action_fits(doc)
            &&& (at("order"@) matches Some(TomlView::Integer(n)) && (n < -0x8000_0000 || n
                > 0x7fff_ffff)) ==> !action_fits(doc)
            &&& (at("exec"@) matches Some(v) && !(v is Array)) ==> !action_fits(doc)
            &&& (at("detects"@) matches Some(v) && !(v is Array)) ==> !action_fits(doc)
            &&& (at("options"@) matches Some(v) && !(v is Table)) ==> !action_fits(doc)
        }),
{
    if action_fits(TomlView::Table(entries)) {
        assert(action_members().contains(entries[i].0));
    }
}

/// A table whose members are known and of their kind reads as a manifest.
pub proof fn law_members_of_their_kind_fit(entries: Seq<(Seq<char>, TomlView)>)
    requires
        forall|i: int|
            0 <= i < entries.len() ==> ({
                let name = (#[trigger] entries[i]).0;
                let value = entries[i].1;
                ||| (name == "id"@ || name == "title"@ || name == "icon"@ || name == "label"@
                    || name == "match"@ || name == "not_match"@ || name == "url"@) && value is Text
                ||| name == "order"@ && (value matches TomlView::Integer(n) && -0x8000_0000 <= n
                    && n <= 0x7fff_ffff)
                ||| (name == "stdin"@ || name == "enabled"@) && value is Boolean
                ||| name == "after"@ && (value == TomlView::Text("ignore"@) || value
                    == TomlView::Text("copy"@) || value == TomlView::Text("replace"@) || value
                    == TomlView::Text("show"@))
                ||| name == "builtin"@ && (value == TomlView::Text("cut"@) || value
                    == TomlView::Text("paste"@))
                ||| name == "exec"@ && is_text_list(value)
                ||| name == "detects"@ && is_detect_list(value)
                ||| name == "options"@ && is_option_table(value)
            }),
        exists|i: int| 0 <= i < entries.len() && (#[trigger] entries[i]).0 == "id"@,
        exists|i: int| 0 <= i < entries.len() && (#[trigger] entries[i]).0 == "title"@,
    ensures
        action_fits(TomlView::Table(entries)),
{
    let doc = TomlView::Table(entries);
    lemma_action_words();
    law_words_mean_their_own("url"@);
    assert forall|i: int| 0 <= i < entries.len() implies action_members().contains(
        (#[trigger] entries[i]).0,
    ) by {
        let all = action_members();
        assert(all[0] == "id"@ && all[1] == "title"@ && all[2] == "icon"@ && all[3] == "label"@);
        assert(all[4] == "order"@ && all[5] == "match"@ && all[6] == "not_match"@);
        assert(all[7] == "detects"@ && all[8] == "builtin"@ && all[9] == "options"@);
        assert(all[10] == "url"@ && all[11] == "exec"@ && all[12] == "stdin"@);
        assert(all[13] == "after"@ && all[14] == "enabled"@);
    }
    lemma_entry_is_one(entries, "id"@, 0);
    lemma_entry_is_one(entries, "title"@, 0);
    lemma_entry_is_one(entries, "icon"@, 0);
    lemma_entry_is_one(entries, "label"@, 0);
    lemma_entry_is_one(entries, "order"@, 0);
    lemma_entry_is_one(entries, "match"@, 0);
    lemma_entry_is_one(entries, "not_match"@, 0);
    lemma_entry_is_one(entries, "detects"@, 0);
    lemma_entry_is_one(entries, "builtin"@, 0);
    lemma_entry_is_one(entries, "options"@, 0);
    lemma_entry_is_one(entries, "url"@, 0);
    lemma_entry_is_one(entries, "exec"@, 0);
    lemma_entry_is_one(entries, "stdin"@, 0);
    lemma_entry_is_one(entries, "after"@, 0);
    lemma_entry_is_one(entries, "enabled"@, 0);
}

/// What is found under a name is an entry of that name, and it is found if there
/// is one.
proof fn lemma_entry_is_one(entries: Seq<(Seq<char>, TomlView)>, name: Seq<char>, from: int)
    requires
        0 <= from <= entries.len(),
    ensures
        entry_from(entries, name, from) matches Some(value) ==> exists|i: int|
            from <= i < entries.len() && (#[trigger] entries[i]).0 == name && entries[i].1 == value,
        entry_from(entries, name, from) is None ==> forall|i: int|
            from <= i < entries.len() ==> (#[trigger] entries[i]).0 != name,
    decreases entries.len() - from,
{
    if from < entries.len() {
        if entries[from].0 == name {
            assert(entries[from].1 == entry_from(entries, name, from)->Some_0);
        } else {
            lemma_entry_is_one(entries, name, from + 1);
        }
    }
}

/// The members of a manifest have different names.
proof fn lemma_action_words()
    ensures
        "id"@.len() == 2 && "url"@.len() == 3 && "icon"@.len() == 4 && "exec"@.len() == 4,
        "title"@.len() == 5 && "label"@.len() == 5 && "order"@.len() == 5,
        "match"@.len() == 5 && "stdin"@.len() == 5 && "after"@.len() == 5,
        "detects"@.len() == 7 && "builtin"@.len() == 7 && "options"@.len() == 7,
        "enabled"@.len() == 7 && "not_match"@.len() == 9,
        "icon"@[0] == 'i' && "exec"@[0] == 'e',
        "title"@[0] == 't' && "label"@[0] == 'l' && "order"@[0] == 'o',
        "match"@[0] == 'm' && "stdin"@[0] == 's' && "after"@[0] == 'a',
        "detects"@[0] == 'd' && "builtin"@[0] == 'b' && "options"@[0] == 'o',
        "enabled"@[0] == 'e',
{
    reveal_strlit("id");
    reveal_strlit("title");
    reveal_strlit("icon");
    reveal_strlit("label");
    reveal_strlit("order");
    reveal_strlit("match");
    reveal_strlit("not_match");
    reveal_strlit("detects");
    reveal_strlit("builtin");
    reveal_strlit("options");
    reveal_strlit("url");
    reveal_strlit("exec");
    reveal_strlit("stdin");
    reveal_strlit("after");
    reveal_strlit("enabled");
}

/// A manifest declares an action exactly if it is TOML, reads as one, does one
/// thing, sets nothing without effect, keeps its options within their choices,
/// and its patterns compile. The action is the declaration as it stands, with its
/// own patterns.
pub proof fn law_sensible_manifests_are_accepted(raw: Seq<char>, doc: TomlView)
    requires
        toml_document(raw) == Ok::<TomlView, Seq<char>>(doc),
    ensures
        ({
            let spec = action_from(doc);
            let sensible = {
                &&& !(spec.url is Some && spec.command is Some)
                &&& spec.builtin is Some ==> spec.url is None && spec.command is None && spec.after
                    == After::Ignore
                &&& spec.builtin is Some || spec.url is Some || spec.command is Some || spec.after
                    != After::Ignore
                &&& spec.url is Some ==> spec.after == After::Ignore
                &&& spec.stdin ==> spec.command is Some
                &&& forall|i: int|
                    0 <= i < spec.options.len() && (#[trigger] spec.options[i]).1.choices.len() > 0
                        ==> {
                        let option = spec.options[i].1;
                        &&& option.default.len() == 0 || option.choices.contains(option.default)
                        &&& option.value matches Some(value) ==> option.choices.contains(value)
                    }
                &&& spec.match_re matches Some(pattern) ==> regex_verdict(pattern) is Ok
                &&& spec.not_match matches Some(pattern) ==> regex_verdict(pattern) is Ok
            };
            &&& manifest_outcome(raw) is Ok <==> action_fits(doc) && sensible
            &&& manifest_outcome(raw) matches Ok(action) ==> action == (ActionView {
                spec,
                match_re: spec.match_re,
                not_match: spec.not_match,
                origin: Seq::empty(),
            })
        }),
{
    let spec = action_from(doc);
    lemma_options_are_checked(spec.options, 0);
}

/// Options are without fault exactly if each of them keeps within its choices.
proof fn lemma_options_are_checked(options: Seq<(Seq<char>, OptionView)>, from: int)
    requires
        0 <= from <= options.len(),
    ensures
        options_fault(options, from) is None <==> forall|i: int|
            from <= i < options.len() && (#[trigger] options[i]).1.choices.len() > 0 ==> {
                let option = options[i].1;
                &&& option.default.len() == 0 || option.choices.contains(option.default)
                &&& option.value matches Some(value) ==> option.choices.contains(value)
            },
    decreases options.len() - from,
{
    if from < options.len() {
        lemma_options_are_checked(options, from + 1);
        assert(options[from].1 == options[from].1);
    }
}

/// What a declaration is refused for, in the order in which it is looked for.
pub proof fn law_faults_are_told_apart(spec: SpecView)
    ensures
        spec.url is Some && spec.command is Some ==> spec_fault(spec) == Some(FaultView::UrlAndExec),
        spec.builtin is Some && (spec.url is Some) != (spec.command is Some) ==> spec_fault(spec)
            == Some(FaultView::BuiltinTarget),
        spec.builtin is Some && spec.url is None && spec.command is None && spec.after
            != After::Ignore ==> spec_fault(spec) == Some(FaultView::BuiltinAfter),
        spec.builtin is None && spec.url is None && spec.command is None && spec.after
            == After::Ignore ==> spec_fault(spec) == Some(FaultView::Inert),
        spec.builtin is None && spec.url is Some && spec.command is None && spec.after
            != After::Ignore ==> spec_fault(spec) == Some(FaultView::UrlAfter),
        spec.builtin is None && spec.url is None && spec.command is None && spec.after
            != After::Ignore && spec.stdin ==> spec_fault(spec) == Some(
            FaultView::StdinWithoutExec,
        ),
{
}

/// A faulty option is named, its default before its value, the first one first.
pub proof fn law_the_first_faulty_option_is_named(
    options: Seq<(Seq<char>, OptionView)>,
    from: int,
    i: int,
)
    requires
        0 <= from <= i < options.len(),
        options[i].1.choices.len() > 0,
        forall|k: int|
            from <= k < i && (#[trigger] options[k]).1.choices.len() > 0 ==> {
                let option = options[k].1;
                &&& option.default.len() == 0 || option.choices.contains(option.default)
                &&& option.value matches Some(value) ==> option.choices.contains(value)
            },
    ensures
        ({
            let option = options[i].1;
            let strange = option.default.len() > 0 && !option.choices.contains(option.default);
            &&& strange ==> options_fault(options, from) == Some(
                FaultView::OptionDefault(options[i].0),
            )
            &&& !strange && (option.value matches Some(value) && !option.choices.contains(value))
                ==> options_fault(options, from) == Some(FaultView::OptionValue(options[i].0))
        }),
    decreases i - from,
{
    if from < i {
        assert(option_fault(options[from].0, options[from].1) is None);
        law_the_first_faulty_option_is_named(options, from + 1, i);
    }
}

/// A pattern that does not compile is refused with the words of the compiler, and
/// every refusal of something that reads as a manifest names the action.
pub proof fn law_refusals_name_the_action(
    raw: Seq<char>,
    doc: TomlView,
    pattern: Seq<char>,
    message: Seq<char>,
)
    requires
        toml_document(raw) == Ok::<TomlView, Seq<char>>(doc),
        action_fits(doc),
    ensures
        manifest_outcome(raw) matches Err(refusal) ==> refusal.id == action_from(doc).id,
        spec_fault(action_from(doc)) matches Some(fault) ==> (manifest_outcome(raw) matches Err(
            refusal,
        ) && refusal.fault == fault),
        spec_fault(action_from(doc)) is None && action_from(doc).match_re == Some(pattern)
            && regex_verdict(pattern) == Err::<(), Seq<char>>(message) ==> (manifest_outcome(
            raw,
        ) matches Err(refusal) && refusal.fault == FaultView::BadMatch(message)),
        spec_fault(action_from(doc)) is None && action_from(doc).match_re is None && action_from(
            doc,
        ).not_match == Some(pattern) && regex_verdict(pattern) == Err::<(), Seq<char>>(message)
            ==> (manifest_outcome(raw) matches Err(refusal) && refusal.fault
            == FaultView::BadNotMatch(message)),
{
}

/// An action is for a selection exactly if it is on, asks for no kind or for one
/// that was detected, and its patterns agree: `match` matches, and `not_match`
/// does not.
pub proof fn law_actions_are_for_what_they_ask_for(
    action: ActionView,
    text: Seq<char>,
    class: ClassView,
)
    ensures
        action_matches(action, text, class) <==> ({
            &&& action.spec.enabled
            &&& action.spec.detects.len() == 0 || exists|i: int|
                0 <= i < action.spec.detects.len() && detected(
                    class,
                    #[trigger] action.spec.detects[i],
                ) is Some
            &&& action.match_re matches Some(pattern) ==> regex_matches(pattern, text)
            &&& action.not_match matches Some(pattern) ==> !regex_matches(pattern, text)
        }),
{
}

/// An option is its chosen value, or its default where none is chosen.
pub proof fn law_an_option_is_its_chosen_value(option: OptionView)
    ensures
        option.value matches Some(value) ==> effective_value(option) == value,
        option.value is None ==> effective_value(option) == option.default,
{
}

/// Whether the member of a manifest at a position is absent or of its kind.
pub open spec fn part_fits(doc: TomlView, position: int) -> bool {
    &&& position == 0 ==> text_fits(member(doc, 0, "id"@))
    &&& position == 1 ==> text_fits(member(doc, 1, "title"@))
    &&& position == 2 ==> text_fits(member(doc, 2, "icon"@))
    &&& position == 3 ==> text_fits(member(doc, 3, "label"@))
    &&& position == 4 ==> number_fits(member(doc, 4, "order"@), -2147483648, 2147483647)
    &&& position == 5 ==> text_fits(member(doc, 5, "match"@))
    &&& position == 6 ==> text_fits(member(doc, 6, "not_match"@))
    &&& position == 7 ==> (member(doc, 7, "detects"@) matches Some(v) ==> is_detect_list(v))
    &&& position == 8 ==> (member(doc, 8, "builtin"@) matches Some(v) ==> builtin_value(
        v,
    ) is Some)
    &&& position == 9 ==> (member(doc, 9, "options"@) matches Some(v) ==> is_option_table(v))
    &&& position == 10 ==> text_fits(member(doc, 10, "url"@))
    &&& position == 11 ==> texts_fit(member(doc, 11, "exec"@))
    &&& position == 12 ==> flag_fits(member(doc, 12, "stdin"@))
    &&& position == 13 ==> (member(doc, 13, "after"@) matches Some(v) ==> after_value(v) is Some)
    &&& position == 14 ==> flag_fits(member(doc, 14, "enabled"@))
}

/// Of a table without strangers, the first member that is missing or of the
/// wrong kind is named, and an id and a title are missed.
pub proof fn law_the_first_misfit_of_a_manifest_is_named(doc: TomlView, k: int)
    requires
        is_record(doc, action_members()),
        record_misfit(doc, action_members(), Seq::empty()) is None,
        forall|i: int| 0 <= i < k ==> #[trigger] part_fits(doc, i),
        k > 0 ==> member(doc, 0, "id"@) is Some,
        k > 1 ==> member(doc, 1, "title"@) is Some,
    ensures
        k == 0 && member(doc, 0, "id"@) is None ==> action_misfit(doc) == MisfitView::Missing(
            "id"@,
        ),
        k == 1 && member(doc, 1, "title"@) is None ==> action_misfit(doc) == MisfitView::Missing(
            "title"@,
        ),
        !part_fits(doc, k) ==> {
            &&& k == 0 ==> action_misfit(doc) == MisfitView::Wrong("id"@)
            &&& k == 1 ==> action_misfit(doc) == MisfitView::Wrong("title"@)
            &&& k == 2 ==> action_misfit(doc) == MisfitView::Wrong("icon"@)
            &&& k == 3 ==> action_misfit(doc) == MisfitView::Wrong("label"@)
            &&& k == 4 ==> action_misfit(doc) == MisfitView::Wrong("order"@)
            &&& k == 5 ==> action_misfit(doc) == MisfitView::Wrong("match"@)
            &&& k == 6 ==> action_misfit(doc) == MisfitView::Wrong("not_match"@)
            &&& k == 7 ==> action_misfit(doc) == MisfitView::Wrong("detects"@)
            &&& k == 8 ==> action_misfit(doc) == MisfitView::Wrong("builtin"@)
            &&& k == 10 ==> action_misfit(doc) == MisfitView::Wrong("url"@)
            &&& k == 11 ==> action_misfit(doc) == MisfitView::Wrong("exec"@)
            &&& k == 12 ==> action_misfit(doc) == MisfitView::Wrong("stdin"@)
            &&& k == 13 ==> action_misfit(doc) == MisfitView::Wrong("after"@)
            &&& k == 14 ==> action_misfit(doc) == MisfitView::Wrong("enabled"@)
        },
{
    if 0 <= k {
        lemma_earlier_parts(doc, k);
    }
}

/// The members before a position, one by one.
proof fn lemma_earlier_parts(doc: TomlView, k: int)
    requires
        forall|i: int| 0 <= i < k ==> #[trigger] part_fits(doc, i),
    ensures
        k > 0 ==> part_fits(doc, 0),
        k > 1 ==> part_fits(doc, 1),
        k > 2 ==> part_fits(doc, 2),
        k > 3 ==> part_fits(doc, 3),
        k > 4 ==> part_fits(doc, 4),
        k > 5 ==> part_fits(doc, 5),
        k > 6 ==> part_fits(doc, 6),
        k > 7 ==> part_fits(doc, 7),
        k > 8 ==> part_fits(doc, 8),
        k > 9 ==> part_fits(doc, 9),
        k > 10 ==> part_fits(doc, 10),
        k > 11 ==> part_fits(doc, 11),
        k > 12 ==> part_fits(doc, 12),
        k > 13 ==> part_fits(doc, 13),
{
}

proof fn lemma_misfit_search(entries: Seq<(Seq<char>, TomlView)>, from: int, i: int)
    requires
        0 <= from <= i < entries.len(),
        forall|k: int| from <= k < i ==> option_fits((#[trigger] entries[k]).1),
        !option_fits(entries[i].1),
    ensures
        options_misfit_from(entries, from) == option_misfit(
            entries[i].1,
            path_to("options"@, entries[i].0),
        ),
    decreases i - from,
{
    if from < i {
        assert(option_fits(entries[from].1));
        lemma_misfit_search(entries, from + 1, i);
    }
}

/// A manifest whose options are no table is told so; otherwise the first option
/// that does not fit is named, and within it the first member that is missing or
/// of the wrong kind.
pub proof fn law_the_first_misfit_of_an_option_is_named(
    doc: TomlView,
    entries: Seq<(Seq<char>, TomlView)>,
    i: int,
)
    requires
        is_record(doc, action_members()),
        record_misfit(doc, action_members(), Seq::empty()) is None,
        forall|k: int| 0 <= k < 9 ==> #[trigger] part_fits(doc, k),
        member(doc, 0, "id"@) is Some,
        member(doc, 1, "title"@) is Some,
        !part_fits(doc, 9),
        0 <= i < entries.len(),
        forall|k: int| 0 <= k < i ==> option_fits((#[trigger] entries[k]).1),
        !option_fits(entries[i].1),
    ensures
        !(member(doc, 9, "options"@)->Some_0 is Table) ==> action_misfit(doc) == MisfitView::Wrong(
            "options"@,
        ),
        member(doc, 9, "options"@) == Some(TomlView::Table(entries)) ==> ({
            let option = entries[i].1;
            let path = "options"@ + "."@ + entries[i].0;
            let label = member(option, 0, "label"@);
            match record_misfit(option, seq!["label"@, "default"@, "choices"@, "value"@], path) {
                Some(misfit) => action_misfit(doc) == misfit,
                None => {
                    &&& label is None ==> action_misfit(doc) == MisfitView::Missing(
                        path + "."@ + "label"@,
                    )
                    &&& !text_fits(label) ==> action_misfit(doc) == MisfitView::Wrong(
                        path + "."@ + "label"@,
                    )
                    &&& label is Some && text_fits(label) ==> {
                        &&& !text_fits(member(option, 1, "default"@)) ==> action_misfit(doc)
                            == MisfitView::Wrong(path + "."@ + "default"@)
                        &&& text_fits(member(option, 1, "default"@)) && !texts_fit(
                            member(option, 2, "choices"@),
                        ) ==> action_misfit(doc) == MisfitView::Wrong(path + "."@ + "choices"@)
                        &&& text_fits(member(option, 1, "default"@)) && texts_fit(
                            member(option, 2, "choices"@),
                        ) ==> action_misfit(doc) == MisfitView::Wrong(path + "."@ + "value"@)
                    }
                },
            }
        }),
{
    lemma_earlier_parts(doc, 9);
    reveal_strlit("options");
    lemma_misfit_search(entries, 0, i);
    assert(option_members() =~= seq!["label"@, "default"@, "choices"@, "value"@]);
}

/// A refusal says which action is at fault, and what the fault is.
pub proof fn law_refusals_say_what_is_at_fault(id: Seq<char>, name: Seq<char>, why: Seq<char>)
    ensures
        ({
            let told = |fault: FaultView| refusal_text(RefusalView { id, fault });
            let action = "action `"@ + id;
            &&& told(FaultView::Syntax(why)) == "parsing TOML: "@ + why
            &&& told(FaultView::Schema(MisfitView::Unknown(name))) == "parsing TOML: "@ + (
            "unknown member `"@ + name + "`"@)
            &&& told(FaultView::UrlAndExec) == action + "` sets both `url` and `exec`; pick one"@
            &&& told(FaultView::BuiltinTarget) == action
                + "` is a `builtin`, so `url` and `exec` do not apply"@
            &&& told(FaultView::BuiltinAfter) == action
                + "` is a `builtin`, so `after` has no effect"@
            &&& told(FaultView::Inert) == action
                + "` has no `url`, no `exec` and no `after`, so it would do nothing"@
            &&& told(FaultView::UrlAfter) == action
                + "` is a `url` action, so `after` has no effect"@
            &&& told(FaultView::StdinWithoutExec) == action
                + "` sets `stdin` but has no `exec`"@
            &&& told(FaultView::OptionDefault(name)) == action + "`: option `"@ + name
                + "` has a default outside its choices"@
            &&& told(FaultView::OptionValue(name)) == action + "`: option `"@ + name
                + "` has a value outside its choices"@
            &&& told(FaultView::BadMatch(why)) == action + "`: bad `match` regex: "@ + why
            &&& told(FaultView::BadNotMatch(why)) == action + "`: bad `not_match` regex: "@ + why
        }),
{
}

/// An option that is written as a list stands in a fixed order: its label, its
/// default, its choices and its value.
pub proof fn law_a_listed_option_stands_in_order(
    items: Seq<TomlView>,
    label: Seq<char>,
    default: Seq<char>,
    value: Seq<char>,
)
    ensures
        ({
            let list = TomlView::Array(items);
            let read = option_from(list);
            let n = items.len();
            &&& n > 0 && items[0] == TomlView::Text(label) ==> read.label == label
            &&& n > 1 && items[1] == TomlView::Text(default) ==> read.default == default
            &&& n <= 1 ==> read.default.len() == 0
            &&& n > 2 ==> read.choices == text_list(items[2])
            &&& n <= 2 ==> read.choices.len() == 0
            &&& n > 3 && items[3] == TomlView::Text(value) ==> read.value == Some(value)
            &&& n <= 3 ==> read.value is None
            &&& n == 0 ==> !option_fits(list)
            &&& n > 0 && !(items[0] is Text) ==> !option_fits(list)
            &&& n > 1 && !(items[1] is Text) ==> !option_fits(list)
            &&& n > 2 && !is_text_list(items[2]) ==> !option_fits(list)
            &&& n > 3 && !(items[3] is Text) ==> !option_fits(list)
        }),
{
}

/// A declaration that is written as a list stands in a fixed order.
pub proof fn law_a_listed_declaration_stands_in_order(
    items: Seq<TomlView>,
    text: Seq<char>,
    number: i32,
    flag: bool,
)
    ensures
        ({
            let read = action_from(TomlView::Array(items));
            let n = items.len();
            let is_text = |k: int| k < n && items[k] == TomlView::Text(text);
            let is_flag = |k: int| k < n && items[k] == TomlView::Boolean(flag);
            &&& is_text(0) ==> read.id == text
            &&& is_text(1) ==> read.title == text
            &&& is_text(2) ==> read.icon == Some(text)
            &&& is_text(3) ==> read.label == Some(text)
            &&& 4 < n && items[4] == TomlView::Integer(number as int) ==> read.order == number
            &&& is_text(5) ==> read.match_re == Some(text)
            &&& is_text(6) ==> read.not_match == Some(text)
            &&& 7 < n ==> read.detects == detect_list(items[7])
            &&& 8 < n ==> read.builtin == builtin_value(items[8])
            &&& 9 < n ==> read.options == option_table(items[9]->Table_0, 0)
            &&& is_text(10) ==> read.url == Some(text)
            &&& 11 < n ==> read.command == Some(text_list(items[11]))
            &&& is_flag(12) ==> read.stdin == flag
            &&& 13 < n && after_value(items[13]) is Some ==> Some(read.after) == after_value(
                items[13],
            )
            &&& is_flag(14) ==> read.enabled == flag
        }),
{
}

} // verus!
