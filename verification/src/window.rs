//! The settings window: what it shows and what a change in it means.

use vstd::prelude::*;

use crate::catalog::Loaded;
use crate::config::Config;
use crate::manifest::{is_listed, Action};
use crate::text::{owned, same_text, to_chars, to_text, trim_chars};
#[allow(unused_imports)]
use crate::{
    catalog::{action_views, LoadedView},
    config::{ConfigView, Popup, Selection},
    manifest::{ActionView, OptionView, effective_value, options_view},
    text::{texts, trim},
};

verus! {

/// Something the user changed.
#[derive(Debug, PartialEq, Eq)]
pub enum Message {
    SettleMs(u32),
    PerPage(u32),
    IconSize(u32),
    OffsetX(i32),
    OffsetY(i32),
    DismissMs(u32),
    TimeoutMs(u32),
    Animate(bool),
    MinLength(u32),
    MaxLength(u32),
    IgnoreWhitespace(bool),
    /// The text field for a new entry of the exclude list.
    ExcludeInput(String),
    /// Add what the text field holds.
    ExcludeAdd,
    /// Remove the entry at this position.
    ExcludeRemove(usize),
    /// Switch the action at this position on or off.
    ActionEnabled(usize, bool),
    /// Move the action at this position by so many places.
    ActionMove(usize, i32),
    /// Open the manifest of the action at this position.
    ActionEdit(usize),
    /// The text field of an option: position of the action, name, text.
    ActionOptionInput(usize, String, String),
    /// Enter was pressed in it.
    ActionOptionCommit(usize, String),
    /// A choice was picked.
    ActionOptionChoice(usize, String, String),
    /// Open the folder of the actions.
    OpenFolder,
}

/// A change in specifications.
pub enum MessageView {
    SettleMs(u32),
    PerPage(u32),
    IconSize(u32),
    OffsetX(i32),
    OffsetY(i32),
    DismissMs(u32),
    TimeoutMs(u32),
    Animate(bool),
    MinLength(u32),
    MaxLength(u32),
    IgnoreWhitespace(bool),
    ExcludeInput(Seq<char>),
    ExcludeAdd,
    ExcludeRemove(usize),
    ActionEnabled(usize, bool),
    ActionMove(usize, i32),
    ActionEdit(usize),
    ActionOptionInput(usize, Seq<char>, Seq<char>),
    ActionOptionCommit(usize, Seq<char>),
    ActionOptionChoice(usize, Seq<char>, Seq<char>),
    OpenFolder,
}

impl View for Message {
    type V = MessageView;

    open spec fn view(&self) -> MessageView {
        match self {
            Message::SettleMs(v) => MessageView::SettleMs(*v),
            Message::PerPage(v) => MessageView::PerPage(*v),
            Message::IconSize(v) => MessageView::IconSize(*v),
            Message::OffsetX(v) => MessageView::OffsetX(*v),
            Message::OffsetY(v) => MessageView::OffsetY(*v),
            Message::DismissMs(v) => MessageView::DismissMs(*v),
            Message::TimeoutMs(v) => MessageView::TimeoutMs(*v),
            Message::Animate(v) => MessageView::Animate(*v),
            Message::MinLength(v) => MessageView::MinLength(*v),
            Message::MaxLength(v) => MessageView::MaxLength(*v),
            Message::IgnoreWhitespace(v) => MessageView::IgnoreWhitespace(*v),
            Message::ExcludeInput(text) => MessageView::ExcludeInput(text@),
            Message::ExcludeAdd => MessageView::ExcludeAdd,
            Message::ExcludeRemove(i) => MessageView::ExcludeRemove(*i),
            Message::ActionEnabled(i, on) => MessageView::ActionEnabled(*i, *on),
            Message::ActionMove(i, offset) => MessageView::ActionMove(*i, *offset),
            Message::ActionEdit(i) => MessageView::ActionEdit(*i),
            Message::ActionOptionInput(i, name, text) => MessageView::ActionOptionInput(
                *i,
                name@,
                text@,
            ),
            Message::ActionOptionCommit(i, name) => MessageView::ActionOptionCommit(*i, name@),
            Message::ActionOptionChoice(i, name, choice) => MessageView::ActionOptionChoice(
                *i,
                name@,
                choice@,
            ),
            Message::OpenFolder => MessageView::OpenFolder,
        }
    }
}

/// What a change takes beyond the window.
#[derive(Debug, PartialEq, Eq)]
pub enum Deed {
    Nothing,
    /// Write the settings and tell a running daemon.
    SaveConfig,
    /// Write `enabled` into the manifest of the action at this position, tell a
    /// running daemon, and load everything anew.
    SetEnabled { index: usize, enabled: bool },
    /// Write the `order` of every action, tell a running daemon, and load
    /// everything anew.
    Renumber,
    /// Open the user's copy of the manifest of the action at this position.
    Edit { index: usize },
    /// Write the value of an option into the manifest of the action at this
    /// position. If that works, tell a running daemon and load everything anew.
    SetOption { index: usize, name: String, chosen: String },
    /// Open the folder of the actions.
    OpenFolder,
}

/// A deed in specifications.
pub enum DeedView {
    Nothing,
    SaveConfig,
    SetEnabled { index: usize, enabled: bool },
    Renumber,
    Edit { index: usize },
    SetOption { index: usize, name: Seq<char>, chosen: Seq<char> },
    OpenFolder,
}

impl View for Deed {
    type V = DeedView;

    open spec fn view(&self) -> DeedView {
        match self {
            Deed::Nothing => DeedView::Nothing,
            Deed::SaveConfig => DeedView::SaveConfig,
            Deed::SetEnabled { index, enabled } => DeedView::SetEnabled {
                index: *index,
                enabled: *enabled,
            },
            Deed::Renumber => DeedView::Renumber,
            Deed::Edit { index } => DeedView::Edit { index: *index },
            Deed::SetOption { index, name, chosen } => DeedView::SetOption {
                index: *index,
                name: name@,
                chosen: chosen@,
            },
            Deed::OpenFolder => DeedView::OpenFolder,
        }
    }
}

// ---------------------------------------------------------------------------
// Half-typed option values
// ---------------------------------------------------------------------------

/// A half-typed value of a free-text option.
///
/// A manifest write per keystroke would rewrite the file and poke the daemon on
/// every character, so a free-text option is buffered and committed on Enter.
#[derive(Debug, PartialEq, Eq)]
pub struct Draft {
    pub action: String,
    pub option: String,
    pub text: String,
}

/// The half-typed values by action id and option name.
pub open spec fn drafts_view(drafts: Seq<Draft>) -> Map<(Seq<char>, Seq<char>), Seq<char>>
    decreases drafts.len(),
{
    if drafts.len() == 0 {
        Map::empty()
    } else {
        drafts_view(drafts.drop_last()).insert(
            (drafts.last().action@, drafts.last().option@),
            drafts.last().text@,
        )
    }
}

/// Whether a draft is that of an option.
fn is_for(draft: &Draft, action: &str, option: &str) -> (r: bool)
    ensures
        r == (draft.action@ == action@ && draft.option@ == option@),
{
    same_text(draft.action.as_str(), action) && same_text(draft.option.as_str(), option)
}

/// Finds the half-typed value of an option.
fn find_draft<'a>(drafts: &'a Vec<Draft>, action: &str, option: &str) -> (r: Option<&'a str>)
    ensures
        match r {
            Some(text) => drafts_view(drafts@).contains_key((action@, option@)) && drafts_view(
                drafts@,
            )[(action@, option@)] == text@,
            None => !drafts_view(drafts@).contains_key((action@, option@)),
        },
{
    let mut i: usize = drafts.len();
    assert(drafts@.take(i as int) =~= drafts@);
    while i > 0
        invariant
            i <= drafts.len(),
            drafts_view(drafts@).contains_key((action@, option@)) == drafts_view(
                drafts@.take(i as int),
            ).contains_key((action@, option@)),
            drafts_view(drafts@).contains_key((action@, option@)) ==> drafts_view(drafts@)[(
                action@,
                option@,
            )] == drafts_view(drafts@.take(i as int))[(action@, option@)],
        decreases i,
    {
        let ghost part = drafts@.take(i as int);
        assert(part.drop_last() =~= drafts@.take(i - 1));
        assert(part.last() == drafts@[i - 1]);
        if is_for(&drafts[i - 1], action, option) {
            return Some(drafts[i - 1].text.as_str());
        }
        i = i - 1;
    }
    None
}

/// The half-typed values without that of an option.
fn drop_draft(drafts: Vec<Draft>, action: &str, option: &str) -> (r: Vec<Draft>)
    ensures
        drafts_view(r@) == drafts_view(drafts@).remove((action@, option@)),
{
    let ghost key = (action@, option@);
    let mut out: Vec<Draft> = Vec::new();
    assert(drafts_view(drafts@.take(0)) =~= Map::empty());
    assert(drafts_view(out@) =~= drafts_view(drafts@.take(0)).remove(key));
    for i in 0..drafts.len()
        invariant
            key == (action@, option@),
            drafts_view(out@) == drafts_view(drafts@.take(i as int)).remove(key),
    {
        let ghost before = out@;
        let ghost part = drafts@.take(i + 1);
        assert(part.drop_last() =~= drafts@.take(i as int));
        assert(part.last() == drafts@[i as int]);
        if !is_for(&drafts[i], action, option) {
            out.push(
                Draft {
                    action: drafts[i].action.clone(),
                    option: drafts[i].option.clone(),
                    text: drafts[i].text.clone(),
                },
            );
            assert(out@.drop_last() =~= before);
        }
        assert(drafts_view(out@) =~= drafts_view(part).remove(key));
    }
    assert(drafts@.take(drafts@.len() as int) =~= drafts@);
    out
}

// ---------------------------------------------------------------------------
// The state
// ---------------------------------------------------------------------------

/// The settings window.
#[derive(Debug)]
pub struct App {
    config: Config,
    actions: Vec<Action>,
    exclude_input: String,
    drafts: Vec<Draft>,
}

/// The settings window in specifications.
#[verifier::ext_equal]
pub struct AppView {
    pub config: ConfigView,
    pub actions: Seq<ActionView>,
    pub exclude_input: Seq<char>,
    pub drafts: Map<(Seq<char>, Seq<char>), Seq<char>>,
}

impl View for App {
    type V = AppView;

    closed spec fn view(&self) -> AppView {
        AppView {
            config: self.config@,
            actions: action_views(self.actions@),
            exclude_input: self.exclude_input@,
            drafts: drafts_view(self.drafts@),
        }
    }
}

/// The window with other popup settings.
pub open spec fn with_popup(state: AppView, popup: Popup) -> AppView {
    AppView { config: ConfigView { popup, ..state.config }, ..state }
}

/// The window with other selection settings.
pub open spec fn with_selection(state: AppView, selection: Selection) -> AppView {
    AppView { config: ConfigView { selection, ..state.config }, ..state }
}

/// The window with another exclude list.
pub open spec fn with_exclude(state: AppView, exclude: Seq<Seq<char>>) -> AppView {
    AppView { config: ConfigView { exclude, ..state.config }, ..state }
}

/// The settings are changed, and saved.
pub open spec fn saved(state: AppView) -> (AppView, DeedView) {
    (state, DeedView::SaveConfig)
}

/// Two actions trade places.
pub open spec fn swapped(actions: Seq<ActionView>, i: int, j: int) -> Seq<ActionView> {
    actions.update(i, actions[j]).update(j, actions[i])
}

/// What a change means.
pub open spec fn app_step(state: AppView, message: MessageView) -> (AppView, DeedView) {
    let popup = state.config.popup;
    let selection = state.config.selection;
    let exclude = state.config.exclude;
    match message {
        MessageView::SettleMs(v) => saved(
            with_popup(state, Popup { settle_ms: v as u64, ..popup }),
        ),
        MessageView::PerPage(v) => saved(
            with_popup(state, Popup { max_actions: v as usize, ..popup }),
        ),
        MessageView::IconSize(v) => saved(
            with_popup(state, Popup { icon_size: v as i32, ..popup }),
        ),
        MessageView::OffsetX(v) => saved(with_popup(state, Popup { offset_x: v, ..popup })),
        MessageView::OffsetY(v) => saved(with_popup(state, Popup { offset_y: v, ..popup })),
        MessageView::DismissMs(v) => saved(
            with_popup(state, Popup { dismiss_ms: v as u64, ..popup }),
        ),
        MessageView::TimeoutMs(v) => saved(
            with_popup(state, Popup { timeout_ms: v as u64, ..popup }),
        ),
        MessageView::Animate(v) => saved(with_popup(state, Popup { animate: v, ..popup })),
        MessageView::MinLength(v) => saved(
            with_selection(state, Selection { min_length: v as usize, ..selection }),
        ),
        MessageView::MaxLength(v) => saved(
            with_selection(state, Selection { max_length: v as usize, ..selection }),
        ),
        MessageView::IgnoreWhitespace(v) => saved(
            with_selection(state, Selection { ignore_whitespace_only: v, ..selection }),
        ),
        MessageView::ExcludeInput(text) => (
            AppView { exclude_input: text, ..state },
            DeedView::Nothing,
        ),
        MessageView::ExcludeAdd => {
            let entry = trim(state.exclude_input);
            if entry.len() > 0 && !exclude.contains(entry) {
                saved(
                    AppView {
                        exclude_input: Seq::empty(),
                        ..with_exclude(state, exclude.push(entry))
                    },
                )
            } else {
                (state, DeedView::Nothing)
            }
        },
        MessageView::ExcludeRemove(index) => if index < exclude.len() {
            saved(with_exclude(state, exclude.remove(index as int)))
        } else {
            (state, DeedView::Nothing)
        },
        MessageView::ActionEnabled(index, enabled) => if index < state.actions.len() {
            (state, DeedView::SetEnabled { index, enabled })
        } else {
            (state, DeedView::Nothing)
        },
        MessageView::ActionMove(index, offset) => {
            let target = index + offset;
            if index < state.actions.len() && 0 <= target < state.actions.len() {
                (
                    AppView {
                        actions: swapped(state.actions, index as int, target),
                        ..state
                    },
                    DeedView::Renumber,
                )
            } else {
                (state, DeedView::Nothing)
            }
        },
        MessageView::ActionEdit(index) => if index < state.actions.len() {
            (state, DeedView::Edit { index })
        } else {
            (state, DeedView::Nothing)
        },
        MessageView::ActionOptionInput(index, name, text) => if index < state.actions.len() {
            (
                AppView {
                    drafts: state.drafts.insert(
                        (state.actions[index as int].spec.id, name),
                        text,
                    ),
                    ..state
                },
                DeedView::Nothing,
            )
        } else {
            (state, DeedView::Nothing)
        },
        MessageView::ActionOptionCommit(index, name) => if index < state.actions.len() {
            let key = (state.actions[index as int].spec.id, name);
            if state.drafts.contains_key(key) {
                (
                    AppView { drafts: state.drafts.remove(key), ..state },
                    DeedView::SetOption { index, name, chosen: state.drafts[key] },
                )
            } else {
                (state, DeedView::Nothing)
            }
        } else {
            (state, DeedView::Nothing)
        },
        MessageView::ActionOptionChoice(index, name, choice) => if index < state.actions.len() {
            (state, DeedView::SetOption { index, name, chosen: choice })
        } else {
            (state, DeedView::Nothing)
        },
        MessageView::OpenFolder => (state, DeedView::OpenFolder),
    }
}

/// A window for what was loaded.
pub open spec fn opened(loaded: LoadedView) -> AppView {
    AppView {
        config: loaded.config,
        actions: loaded.actions,
        exclude_input: Seq::empty(),
        drafts: Map::empty(),
    }
}

/// The window once everything was loaded anew.
pub open spec fn refreshed(state: AppView, loaded: LoadedView) -> AppView {
    AppView { config: loaded.config, actions: loaded.actions, ..state }
}

impl App {
    /// A window for what was loaded.
    pub fn new(loaded: Loaded) -> (r: Self)
        ensures
            r@ == (AppView {
                config: loaded@.config,
                actions: loaded@.actions,
                exclude_input: Seq::empty(),
                drafts: Map::empty(),
            }),
            r@ == opened(loaded@),
    {
        let r = App {
            config: loaded.config,
            actions: loaded.actions,
            exclude_input: String::new(),
            drafts: Vec::new(),
        };
        assert(r@.drafts =~= Map::<(Seq<char>, Seq<char>), Seq<char>>::empty());
        r
    }

    /// Takes over what was loaded anew. What is half-typed stays.
    pub fn refresh(&mut self, loaded: Loaded)
        ensures
            final(self)@ == (AppView {
                config: loaded@.config,
                actions: loaded@.actions,
                ..old(self)@
            }),
            final(self)@ == refreshed(old(self)@, loaded@),
    {
        self.config = loaded.config;
        self.actions = loaded.actions;
    }

    /// The settings as they stand in the window.
    pub fn config(&self) -> (r: &Config)
        ensures
            r@ == self@.config,
    {
        &self.config
    }

    /// The actions as they stand in the window.
    pub fn actions(&self) -> (r: &Vec<Action>)
        ensures
            action_views(r@) == self@.actions,
    {
        &self.actions
    }

    /// Adds what the text field holds to the exclude list, unless it is blank
    /// or there already.
    fn add_exclusion(&mut self) -> (r: Deed)
        ensures
            (final(self)@, r@) == app_step(old(self)@, MessageView::ExcludeAdd),
    {
        let ghost before = self@;
        let raw = to_chars(self.exclude_input.as_str());
        let entry = trim_chars(raw.as_slice());
        let length: usize = entry.len();
        let entry = to_text(entry);
        assert(entry@ == trim(before.exclude_input));
        assert(length == entry@.len());
        if length == 0 || is_listed(&self.config.applications.exclude, entry.as_str()) {
            return Deed::Nothing;
        }
        let ghost list = self.config.applications.exclude@;
        let ghost added = entry;
        self.config.applications.exclude.push(entry);
        self.exclude_input = String::new();
        assert(self@.config.exclude =~= before.config.exclude.push(added@));
        Deed::SaveConfig
    }

    /// Removes an entry of the exclude list.
    fn remove_exclusion(&mut self, index: usize) -> (r: Deed)
        ensures
            (final(self)@, r@) == app_step(old(self)@, MessageView::ExcludeRemove(index)),
    {
        let ghost before = self@;
        assert(before.config.exclude.len() == self.config.applications.exclude@.len());
        if index < self.config.applications.exclude.len() {
            self.config.applications.exclude.remove(index);
            assert(self@.config.exclude =~= before.config.exclude.remove(index as int));
            Deed::SaveConfig
        } else {
            Deed::Nothing
        }
    }

    /// Moves an action by so many places.
    fn move_action(&mut self, index: usize, offset: i32) -> (r: Deed)
        ensures
            (final(self)@, r@) == app_step(old(self)@, MessageView::ActionMove(index, offset)),
    {
        let ghost before = self@;
        assert(before.actions.len() == self.actions@.len());
        let count: usize = self.actions.len();
        let target: i128 = index as i128 + offset as i128;
        if index < count && 0 <= target && target < count as i128 {
            let target = target as usize;
            let first = self.actions[index].clone();
            let second = self.actions[target].clone();
            let ghost (x, y) = (first@, second@);
            assert(x == before.actions[index as int]);
            assert(y == before.actions[target as int]);
            self.actions.set(index, second);
            self.actions.set(target, first);
            assert(self@.actions =~= swapped(before.actions, index as int, target as int));
            Deed::Renumber
        } else {
            Deed::Nothing
        }
    }

    /// Buffers what is typed into the text field of an option.
    fn draft(&mut self, index: usize, name: String, text: String) -> (r: Deed)
        ensures
            (final(self)@, r@) == app_step(
                old(self)@,
                MessageView::ActionOptionInput(index, name@, text@),
            ),
    {
        let ghost before = self@;
        assert(before.actions.len() == self.actions@.len());
        if index < self.actions.len() {
            let id = self.actions[index].spec.id.clone();
            assert(id@ == before.actions[index as int].spec.id);
            let ghost key = (id@, name@);
            let ghost value = text@;
            let mut drafts: Vec<Draft> = Vec::new();
            std::mem::swap(&mut drafts, &mut self.drafts);
            let mut drafts = drop_draft(drafts, id.as_str(), name.as_str());
            let ghost kept = drafts@;
            drafts.push(Draft { action: id, option: name, text });
            assert(drafts@.drop_last() =~= kept);
            self.drafts = drafts;
            assert(self@.drafts =~= before.drafts.insert(key, value));
            assert(self@ =~= app_step(
                before,
                MessageView::ActionOptionInput(index, key.1, value),
            ).0);
        }
        Deed::Nothing
    }

    /// Commits what was typed into the text field of an option.
    fn commit(&mut self, index: usize, name: String) -> (r: Deed)
        ensures
            (final(self)@, r@) == app_step(
                old(self)@,
                MessageView::ActionOptionCommit(index, name@),
            ),
    {
        let ghost before = self@;
        assert(before.actions.len() == self.actions@.len());
        if index >= self.actions.len() {
            return Deed::Nothing;
        }
        let id = self.actions[index].spec.id.clone();
        assert(id@ == before.actions[index as int].spec.id);
        let chosen = match find_draft(&self.drafts, id.as_str(), name.as_str()) {
            Some(text) => owned(text),
            None => return Deed::Nothing,
        };
        let mut drafts: Vec<Draft> = Vec::new();
        std::mem::swap(&mut drafts, &mut self.drafts);
        self.drafts = drop_draft(drafts, id.as_str(), name.as_str());
        Deed::SetOption { index, name, chosen }
    }

    /// Takes a change, and says what it takes beyond the window.
    pub fn update(&mut self, message: Message) -> (r: Deed)
        ensures
            (final(self)@, r@) == app_step(old(self)@, message@),
    {
        let ghost count = self@.actions.len();
        assert(count == self.actions@.len());
        match message {
            Message::SettleMs(v) => {
                self.config.popup.settle_ms = v as u64;
                Deed::SaveConfig
            },
            Message::PerPage(v) => {
                self.config.popup.max_actions = v as usize;
                Deed::SaveConfig
            },
            Message::IconSize(v) => {
                self.config.popup.icon_size = v as i32;
                Deed::SaveConfig
            },
            Message::OffsetX(v) => {
                self.config.popup.offset_x = v;
                Deed::SaveConfig
            },
            Message::OffsetY(v) => {
                self.config.popup.offset_y = v;
                Deed::SaveConfig
            },
            Message::DismissMs(v) => {
                self.config.popup.dismiss_ms = v as u64;
                Deed::SaveConfig
            },
            Message::TimeoutMs(v) => {
                self.config.popup.timeout_ms = v as u64;
                Deed::SaveConfig
            },
            Message::Animate(v) => {
                self.config.popup.animate = v;
                Deed::SaveConfig
            },
            Message::MinLength(v) => {
                self.config.selection.min_length = v as usize;
                Deed::SaveConfig
            },
            Message::MaxLength(v) => {
                self.config.selection.max_length = v as usize;
                Deed::SaveConfig
            },
            Message::IgnoreWhitespace(v) => {
                self.config.selection.ignore_whitespace_only = v;
                Deed::SaveConfig
            },
            Message::ExcludeInput(text) => {
                self.exclude_input = text;
                Deed::Nothing
            },
            Message::ExcludeAdd => self.add_exclusion(),
            Message::ExcludeRemove(index) => self.remove_exclusion(index),
            Message::ActionEnabled(index, enabled) => if index < self.actions.len() {
                Deed::SetEnabled { index, enabled }
            } else {
                Deed::Nothing
            },
            Message::ActionMove(index, offset) => self.move_action(index, offset),
            Message::ActionEdit(index) => if index < self.actions.len() {
                Deed::Edit { index }
            } else {
                Deed::Nothing
            },
            Message::ActionOptionInput(index, name, text) => self.draft(index, name, text),
            Message::ActionOptionCommit(index, name) => self.commit(index, name),
            Message::ActionOptionChoice(index, name, choice) => if index < self.actions.len() {
                Deed::SetOption { index, name, chosen: choice }
            } else {
                Deed::Nothing
            },
            Message::OpenFolder => Deed::OpenFolder,
        }
    }
}

// ---------------------------------------------------------------------------
// What the window shows
// ---------------------------------------------------------------------------

/// A number that can be stepped up and down.
#[derive(Debug, Clone, Copy, PartialEq, Eq, Structural)]
pub enum Dial {
    Settle,
    PerPage,
    IconSize,
    OffsetX,
    OffsetY,
    Dismiss,
    Timeout,
    MinLength,
    MaxLength,
}

/// A switch.
#[derive(Debug, Clone, Copy, PartialEq, Eq, Structural)]
pub enum Switch {
    Animate,
    IgnoreWhitespace,
}

/// One row of the window. Words that are translated are not here: what a row is
/// tells which they are.
#[derive(Debug, PartialEq, Eq)]
pub enum Row {
    /// A number, its step and its range.
    Number { dial: Dial, value: i64, step: i64, low: i64, high: i64 },
    /// A switch.
    Toggle { switch: Switch, on: bool },
    /// The text field for a new entry of the exclude list, with its hint.
    ExcludeField { text: String },
    /// An entry of the exclude list, which can be removed.
    Excluded { index: usize, entry: String },
    /// The button that opens the folder of the actions, with its hint.
    Folder,
    /// An action, which can be switched, edited, and moved if there is a place
    /// to move it to.
    Action { index: usize, title: String, id: String, up: bool, down: bool, enabled: bool },
    /// An option of the action at that position, as a text field.
    OptionField { index: usize, name: String, label: String, shown: String },
    /// An option of the action at that position, as a choice. The current value
    /// is marked if it is one of the choices.
    OptionChoice {
        index: usize,
        name: String,
        label: String,
        choices: Vec<String>,
        marked: Option<usize>,
    },
}

/// A row in specifications.
pub enum RowView {
    Number { dial: Dial, value: i64, step: i64, low: i64, high: i64 },
    Toggle { switch: Switch, on: bool },
    ExcludeField { text: Seq<char> },
    Excluded { index: usize, entry: Seq<char> },
    Folder,
    Action {
        index: usize,
        title: Seq<char>,
        id: Seq<char>,
        up: bool,
        down: bool,
        enabled: bool,
    },
    OptionField { index: usize, name: Seq<char>, label: Seq<char>, shown: Seq<char> },
    OptionChoice {
        index: usize,
        name: Seq<char>,
        label: Seq<char>,
        choices: Seq<Seq<char>>,
        marked: Option<usize>,
    },
}

impl View for Row {
    type V = RowView;

    open spec fn view(&self) -> RowView {
        match self {
            Row::Number { dial, value, step, low, high } => RowView::Number {
                dial: *dial,
                value: *value,
                step: *step,
                low: *low,
                high: *high,
            },
            Row::Toggle { switch, on } => RowView::Toggle { switch: *switch, on: *on },
            Row::ExcludeField { text } => RowView::ExcludeField { text: text@ },
            Row::Excluded { index, entry } => RowView::Excluded { index: *index, entry: entry@ },
            Row::Folder => RowView::Folder,
            Row::Action { index, title, id, up, down, enabled } => RowView::Action {
                index: *index,
                title: title@,
                id: id@,
                up: *up,
                down: *down,
                enabled: *enabled,
            },
            Row::OptionField { index, name, label, shown } => RowView::OptionField {
                index: *index,
                name: name@,
                label: label@,
                shown: shown@,
            },
            Row::OptionChoice { index, name, label, choices, marked } => RowView::OptionChoice {
                index: *index,
                name: name@,
                label: label@,
                choices: texts(choices@),
                marked: *marked,
            },
        }
    }
}

/// Several rows in specifications.
pub open spec fn row_views(rows: Seq<Row>) -> Seq<RowView> {
    rows.map_values(|row: Row| row@)
}

/// A row with a number.
pub open spec fn number_row(dial: Dial, value: i64, step: i64, low: i64, high: i64) -> RowView {
    RowView::Number { dial, value, step, low, high }
}

/// The rows of the popup settings.
pub open spec fn popup_rows(popup: Popup) -> Seq<RowView> {
    seq![
        number_row(Dial::Settle, (popup.settle_ms as u32) as i64, 20, 0, 2000),
        number_row(Dial::PerPage, (popup.max_actions as u32) as i64, 1, 1, 24),
        number_row(Dial::IconSize, (popup.icon_size as u32) as i64, 2, 8, 64),
        number_row(Dial::OffsetX, popup.offset_x as i64, 2, (-64) as i64, 64),
        number_row(Dial::OffsetY, popup.offset_y as i64, 2, (-64) as i64, 64),
        number_row(Dial::Dismiss, (popup.dismiss_ms as u32) as i64, 100, 0, 10000),
        number_row(Dial::Timeout, (popup.timeout_ms as u32) as i64, 500, 0, 60000),
        RowView::Toggle { switch: Switch::Animate, on: popup.animate },
    ]
}

/// The rows of the selection settings.
pub open spec fn selection_rows(selection: Selection) -> Seq<RowView> {
    seq![
        number_row(Dial::MinLength, (selection.min_length as u32) as i64, 1, 1, 1000),
        number_row(Dial::MaxLength, (selection.max_length as u32) as i64, 1000, 100, 1000000),
        RowView::Toggle {
            switch: Switch::IgnoreWhitespace,
            on: selection.ignore_whitespace_only,
        },
    ]
}

/// The rows of the application settings: the text field, and each entry.
pub open spec fn applications_rows(state: AppView) -> Seq<RowView> {
    seq![RowView::ExcludeField { text: state.exclude_input }] + Seq::new(
        state.config.exclude.len(),
        |i: int|
            RowView::Excluded { index: i as usize, entry: state.config.exclude[i] },
    )
}

/// The first position at or after `from` of a text in a list.
pub open spec fn position_from(list: Seq<Seq<char>>, text: Seq<char>, from: int) -> Option<usize>
    decreases list.len() - from,
{
    if from < 0 || from >= list.len() {
        None
    } else if list[from] == text {
        Some(from as usize)
    } else {
        position_from(list, text, from + 1)
    }
}

/// The row of an option. Without choices it is a text field, which shows what
/// is half-typed, if anything is; otherwise it is a choice.
pub open spec fn option_row(
    state: AppView,
    index: int,
    name: Seq<char>,
    option: OptionView,
) -> RowView {
    let key = (state.actions[index].spec.id, name);
    if option.choices.len() == 0 {
        RowView::OptionField {
            index: index as usize,
            name,
            label: option.label,
            shown: if state.drafts.contains_key(key) {
                state.drafts[key]
            } else {
                effective_value(option)
            },
        }
    } else {
        RowView::OptionChoice {
            index: index as usize,
            name,
            label: option.label,
            choices: option.choices,
            marked: position_from(option.choices, effective_value(option), 0),
        }
    }
}

/// The row of an action. The first cannot move up, the last cannot move down.
pub open spec fn action_row(state: AppView, index: int) -> RowView {
    let spec = state.actions[index].spec;
    RowView::Action {
        index: index as usize,
        title: spec.title,
        id: spec.id,
        up: index > 0,
        down: index + 1 < state.actions.len(),
        enabled: spec.enabled,
    }
}

/// The rows of an action: its own, and those of its options beneath it.
pub open spec fn rows_of_action(state: AppView, index: int) -> Seq<RowView> {
    let options = state.actions[index].spec.options;
    seq![action_row(state, index)] + Seq::new(
        options.len(),
        |k: int| option_row(state, index, options[k].0, options[k].1),
    )
}

/// The rows of the first `n` actions.
pub open spec fn rows_of_actions(state: AppView, n: int) -> Seq<RowView>
    decreases n,
{
    if n <= 0 {
        Seq::empty()
    } else {
        rows_of_actions(state, n - 1) + rows_of_action(state, n - 1)
    }
}

/// The rows of the actions: the folder, and each action.
pub open spec fn actions_rows(state: AppView) -> Seq<RowView> {
    seq![RowView::Folder] + rows_of_actions(state, state.actions.len() as int)
}

/// Finds a text in a list.
fn position_in(list: &Vec<String>, text: &str) -> (r: Option<usize>)
    ensures
        r == position_from(texts(list@), text@, 0),
{
    let ghost all = texts(list@);
    for i in 0..list.len()
        invariant
            all == texts(list@),
            position_from(all, text@, 0) == position_from(all, text@, i as int),
    {
        assert(all[i as int] == list@[i as int]@);
        if same_text(list[i].as_str(), text) {
            return Some(i);
        }
    }
    None
}

/// Adds a row.
fn add_row(rows: &mut Vec<Row>, row: Row)
    ensures
        row_views(final(rows)@) == row_views(old(rows)@).push(row@),
{
    let ghost before = rows@;
    rows.push(row);
    assert(row_views(rows@) =~= row_views(before).push(row@));
}

impl App {
    /// The rows of the popup settings.
    pub fn popup_section(&self) -> (r: Vec<Row>)
        ensures
            row_views(r@) == popup_rows(self@.config.popup),
    {
        let popup = &self.config.popup;
        let rows: Vec<Row> = vec![
            Row::Number {
                dial: Dial::Settle,
                value: (popup.settle_ms as u32) as i64,
                step: 20,
                low: 0,
                high: 2000,
            },
            Row::Number {
                dial: Dial::PerPage,
                value: (popup.max_actions as u32) as i64,
                step: 1,
                low: 1,
                high: 24,
            },
            Row::Number {
                dial: Dial::IconSize,
                value: (popup.icon_size as u32) as i64,
                step: 2,
                low: 8,
                high: 64,
            },
            Row::Number {
                dial: Dial::OffsetX,
                value: popup.offset_x as i64,
                step: 2,
                low: -64,
                high: 64,
            },
            Row::Number {
                dial: Dial::OffsetY,
                value: popup.offset_y as i64,
                step: 2,
                low: -64,
                high: 64,
            },
            Row::Number {
                dial: Dial::Dismiss,
                value: (popup.dismiss_ms as u32) as i64,
                step: 100,
                low: 0,
                high: 10000,
            },
            Row::Number {
                dial: Dial::Timeout,
                value: (popup.timeout_ms as u32) as i64,
                step: 500,
                low: 0,
                high: 60000,
            },
            Row::Toggle { switch: Switch::Animate, on: popup.animate },
        ];
        assert(row_views(rows@) =~= popup_rows(self@.config.popup));
        rows
    }

    /// The rows of the selection settings.
    pub fn selection_section(&self) -> (r: Vec<Row>)
        ensures
            row_views(r@) == selection_rows(self@.config.selection),
    {
        let selection = &self.config.selection;
        let rows: Vec<Row> = vec![
            Row::Number {
                dial: Dial::MinLength,
                value: (selection.min_length as u32) as i64,
                step: 1,
                low: 1,
                high: 1000,
            },
            Row::Number {
                dial: Dial::MaxLength,
                value: (selection.max_length as u32) as i64,
                step: 1000,
                low: 100,
                high: 1000000,
            },
            Row::Toggle {
                switch: Switch::IgnoreWhitespace,
                on: selection.ignore_whitespace_only,
            },
        ];
        assert(row_views(rows@) =~= selection_rows(self@.config.selection));
        rows
    }

    /// The rows of the application settings.
    pub fn applications_section(&self) -> (r: Vec<Row>)
        ensures
            row_views(r@) == applications_rows(self@),
    {
        let ghost wanted = applications_rows(self@);
        let mut rows: Vec<Row> = Vec::new();
        add_row(&mut rows, Row::ExcludeField { text: self.exclude_input.clone() });
        let exclude = &self.config.applications.exclude;
        assert(row_views(rows@) =~= wanted.take(1));
        for i in 0..exclude.len()
            invariant
                wanted == applications_rows(self@),
                self@.config.exclude == texts(exclude@),
                row_views(rows@) == wanted.take(i + 1),
        {
            assert(self@.config.exclude[i as int] == exclude@[i as int]@);
            add_row(&mut rows, Row::Excluded { index: i, entry: exclude[i].clone() });
            assert(wanted.take(i + 2) =~= wanted.take(i + 1).push(wanted[i + 1]));
        }
        assert(wanted.take(exclude@.len() as int + 1) =~= wanted);
        rows
    }

    /// The rows of one action.
    fn action_section(&self, index: usize) -> (r: Vec<Row>)
        requires
            index < self@.actions.len(),
        ensures
            row_views(r@) == rows_of_action(self@, index as int),
    {
        assert(self@.actions.len() == self.actions@.len());
        let action = &self.actions[index];
        let ghost wanted = rows_of_action(self@, index as int);
        let ghost options = self@.actions[index as int].spec.options;
        assert(action@ == self@.actions[index as int]);
        let mut rows: Vec<Row> = Vec::new();
        add_row(
            &mut rows,
            Row::Action {
                index,
                title: action.spec.title.clone(),
                id: action.spec.id.clone(),
                up: index > 0,
                down: index < self.actions.len() - 1,
                enabled: action.spec.enabled,
            },
        );
        assert(row_views(rows@) =~= wanted.take(1));
        for k in 0..action.spec.options.len()
            invariant
                index < self@.actions.len(),
                wanted == rows_of_action(self@, index as int),
                action@ == self@.actions[index as int],
                options == options_view(action.spec.options@),
                options == self@.actions[index as int].spec.options,
                drafts_view(self.drafts@) == self@.drafts,
                row_views(rows@) == wanted.take(k + 1),
        {
            let name = &action.spec.options[k].0;
            let option = &action.spec.options[k].1;
            assert(options[k as int] == (name@, option@));
            if option.choices.len() == 0 {
                let shown = match find_draft(
                    &self.drafts,
                    action.spec.id.as_str(),
                    name.as_str(),
                ) {
                    Some(text) => owned(text),
                    None => owned(option.effective()),
                };
                add_row(
                    &mut rows,
                    Row::OptionField {
                        index,
                        name: name.clone(),
                        label: option.label.clone(),
                        shown,
                    },
                );
            } else {
                let marked = position_in(&option.choices, option.effective());
                add_row(
                    &mut rows,
                    Row::OptionChoice {
                        index,
                        name: name.clone(),
                        label: option.label.clone(),
                        choices: crate::config::copy_texts(&option.choices),
                        marked,
                    },
                );
            }
            assert(wanted[k + 1] == option_row(
                self@,
                index as int,
                options[k as int].0,
                options[k as int].1,
            ));
            assert(wanted.take(k + 2) =~= wanted.take(k + 1).push(wanted[k + 1]));
        }
        assert(wanted.take(options.len() as int + 1) =~= wanted);
        rows
    }

    /// The rows of the actions.
    pub fn actions_section(&self) -> (r: Vec<Row>)
        ensures
            row_views(r@) == actions_rows(self@),
    {
        assert(self@.actions.len() == self.actions@.len());
        let mut rows: Vec<Row> = Vec::new();
        add_row(&mut rows, Row::Folder);
        assert(row_views(rows@) =~= seq![RowView::Folder] + rows_of_actions(self@, 0));
        for i in 0..self.actions.len()
            invariant
                self@.actions.len() == self.actions@.len(),
                row_views(rows@) == seq![RowView::Folder] + rows_of_actions(self@, i as int),
        {
            let mut part = self.action_section(i);
            let ghost first = rows@;
            let ghost second = part@;
            rows.append(&mut part);
            assert(row_views(rows@) =~= row_views(first) + row_views(second));
            assert(seq![RowView::Folder] + rows_of_actions(self@, i + 1) =~= (seq![
                RowView::Folder,
            ] + rows_of_actions(self@, i as int)) + rows_of_action(self@, i as int));
        }
        rows
    }
}

/// The change that turning a dial means.
pub open spec fn turned(dial: Dial, value: i64) -> MessageView {
    match dial {
        Dial::Settle => MessageView::SettleMs(value as u32),
        Dial::PerPage => MessageView::PerPage(value as u32),
        Dial::IconSize => MessageView::IconSize(value as u32),
        Dial::OffsetX => MessageView::OffsetX(value as i32),
        Dial::OffsetY => MessageView::OffsetY(value as i32),
        Dial::Dismiss => MessageView::DismissMs(value as u32),
        Dial::Timeout => MessageView::TimeoutMs(value as u32),
        Dial::MinLength => MessageView::MinLength(value as u32),
        Dial::MaxLength => MessageView::MaxLength(value as u32),
    }
}

/// The change that turning a dial means.
pub fn dial_message(dial: Dial, value: i64) -> (r: Message)
    ensures
        r@ == turned(dial, value),
        r@ == (match dial {
            Dial::Settle => MessageView::SettleMs(value as u32),
            Dial::PerPage => MessageView::PerPage(value as u32),
            Dial::IconSize => MessageView::IconSize(value as u32),
            Dial::OffsetX => MessageView::OffsetX(value as i32),
            Dial::OffsetY => MessageView::OffsetY(value as i32),
            Dial::Dismiss => MessageView::DismissMs(value as u32),
            Dial::Timeout => MessageView::TimeoutMs(value as u32),
            Dial::MinLength => MessageView::MinLength(value as u32),
            Dial::MaxLength => MessageView::MaxLength(value as u32),
        }),
{
    match dial {
        Dial::Settle => Message::SettleMs(value as u32),
        Dial::PerPage => Message::PerPage(value as u32),
        Dial::IconSize => Message::IconSize(value as u32),
        Dial::OffsetX => Message::OffsetX(value as i32),
        Dial::OffsetY => Message::OffsetY(value as i32),
        Dial::Dismiss => Message::DismissMs(value as u32),
        Dial::Timeout => Message::TimeoutMs(value as u32),
        Dial::MinLength => Message::MinLength(value as u32),
        Dial::MaxLength => Message::MaxLength(value as u32),
    }
}

// ---------------------------------------------------------------------------
// Where a manifest is written
// ---------------------------------------------------------------------------

/// The last part of a path: what stands behind its last `/`, where empty parts
/// and `.` do not count. A path that ends in `..` has none.
pub open spec fn last_part(path: Seq<char>, part: Seq<char>) -> Option<Seq<char>>
    decreases path.len(),
{
    let here = if part.len() == 0 || part == "."@ {
        None
    } else {
        Some(part)
    };
    if path.len() == 0 {
        here
    } else if path.last() == '/' {
        match here {
            Some(_) => here,
            None => last_part(path.drop_last(), Seq::empty()),
        }
    } else {
        last_part(path.drop_last(), seq![path.last()] + part)
    }
}

/// The name of the file that a user's manifest of an action belongs in: that of
/// the file it came from, or the id of the action.
pub open spec fn manifest_name(origin: Seq<char>, id: Seq<char>) -> Seq<char> {
    match last_part(origin, Seq::empty()) {
        Some(part) => if part == ".."@ {
            id + ".toml"@
        } else {
            part
        },
        None => id + ".toml"@,
    }
}

/// The name of the file that a user's manifest of an action belongs in.
pub fn user_manifest_name(origin: &str, id: &str) -> (r: String)
    ensures
        r@ == manifest_name(origin@, id@),
{
    let path = to_chars(origin);
    let mut end: usize = path.len();
    let mut start: usize = path.len();
    let mut found = false;
    assert(path@.take(path@.len() as int) =~= path@);
    assert(path@.subrange(start as int, end as int) =~= Seq::empty());
    while start > 0 && !found
        invariant
            path@ == origin@,
            start <= end <= path.len(),
            !found ==> last_part(path@, Seq::empty()) == last_part(
                path@.take(start as int),
                path@.subrange(start as int, end as int),
            ),
            found ==> last_part(path@, Seq::empty()) == Some(
                path@.subrange(start as int, end as int),
            ) && start < end && path@.subrange(start as int, end as int) != "."@,
        decreases
            start,
            if found {
                0int
            } else {
                1int
            },
    {
        let ghost head = path@.take(start as int);
        let ghost part = path@.subrange(start as int, end as int);
        assert(head.last() == path@[start - 1]);
        assert(head.drop_last() =~= path@.take(start - 1));
        if path[start - 1] == '/' {
            let piece = &path.as_slice()[start..end];
            assert(piece@ =~= part);
            if piece.len() == 0 || crate::text::spells(piece, ".") {
                start = start - 1;
                end = start;
                assert(path@.subrange(start as int, end as int) =~= Seq::empty());
            } else {
                found = true;
            }
        } else {
            start = start - 1;
            assert(path@.subrange(start as int, end as int) =~= seq![head.last()] + part);
        }
    }
    let piece = &path.as_slice()[start..end];
    assert(piece@ =~= path@.subrange(start as int, end as int));
    assert(!found ==> path@.take(start as int).len() == 0);
    if piece.len() == 0 || crate::text::spells(piece, ".") || crate::text::spells(piece, "..") {
        proof {
            reveal_strlit(".");
            reveal_strlit("..");
        }
        let mut name = owned(id);
        name.append(".toml");
        name
    } else {
        to_text(piece)
    }
}

// ---------------------------------------------------------------------------
// What the window promises
// ---------------------------------------------------------------------------

/// Whether a list of exclusions is clean: no entry is blank, and none is there
/// twice.
pub open spec fn clean(exclude: Seq<Seq<char>>) -> bool {
    &&& forall|i: int| 0 <= i < exclude.len() ==> (#[trigger] exclude[i]).len() > 0
    &&& forall|i: int, j: int|
        0 <= i < j < exclude.len() ==> #[trigger] exclude[i] != #[trigger] exclude[j]
}

/// The window keeps a clean exclude list clean.
pub proof fn law_exclusions_stay_clean(state: AppView, message: MessageView)
    requires
        clean(state.config.exclude),
    ensures
        clean(app_step(state, message).0.config.exclude),
{
    let before = state.config.exclude;
    let after = app_step(state, message).0.config.exclude;
    if let MessageView::ExcludeAdd = message {
        let entry = trim(state.exclude_input);
        if entry.len() > 0 && !before.contains(entry) {
            assert(after =~= before.push(entry));
            assert forall|i: int, j: int| 0 <= i < j < after.len() implies #[trigger] after[i]
                != #[trigger] after[j] by {
                if j == before.len() {
                    assert(before.contains(before[i]));
                }
            }
        }
    } else if let MessageView::ExcludeRemove(index) = message {
        if index < before.len() {
            assert forall|i: int, j: int| 0 <= i < j < after.len() implies #[trigger] after[i]
                != #[trigger] after[j] by {
                let a = if i < index {
                    i
                } else {
                    i + 1
                };
                let b = if j < index {
                    j
                } else {
                    j + 1
                };
                assert(after[i] == before[a] && after[j] == before[b]);
            }
            assert forall|i: int| 0 <= i < after.len() implies (#[trigger] after[i]).len() > 0 by {
                let a = if i < index {
                    i
                } else {
                    i + 1
                };
                assert(after[i] == before[a]);
            }
        }
    }
}

/// Moving an action loses none, and moving it back restores the list.
pub proof fn law_moving_back_restores_the_list(state: AppView, index: usize, offset: i32)
    requires
        index < state.actions.len(),
        state.actions.len() <= usize::MAX,
        0 <= index + offset < state.actions.len(),
        offset > i32::MIN,
    ensures
        ({
            let (moved, deed) = app_step(state, MessageView::ActionMove(index, offset));
            let (back, _) = app_step(
                moved,
                MessageView::ActionMove((index + offset) as usize, (-offset) as i32),
            );
            &&& deed == DeedView::Renumber
            &&& moved.actions.to_multiset() == state.actions.to_multiset()
            &&& back == state
        }),
{
    let (moved, _) = app_step(state, MessageView::ActionMove(index, offset));
    let target = index + offset;
    let (back, _) = app_step(
        moved,
        MessageView::ActionMove((index + offset) as usize, (-offset) as i32),
    );
    assert(back.actions =~= state.actions);
    let x = state.actions[index as int];
    let y = state.actions[target];
    broadcast use vstd::seq_lib::group_to_multiset_ensures;

    let half = state.actions.update(index as int, y);
    state.actions.to_multiset_ensures();
    half.to_multiset_ensures();
    assert(half.to_multiset() =~= state.actions.to_multiset().insert(y).remove(x));
    assert(half[target] == y);
    assert(moved.actions.to_multiset() =~= half.to_multiset().insert(x).remove(y));
    assert(state.actions.contains(x));
    assert(state.actions.to_multiset().count(x) > 0);
    assert(moved.actions.to_multiset() =~= state.actions.to_multiset());
}

/// Enter commits what was typed into the text field of an option, exactly once.
pub proof fn law_enter_commits_what_was_typed(
    state: AppView,
    index: usize,
    name: Seq<char>,
    text: Seq<char>,
)
    requires
        index < state.actions.len(),
    ensures
        ({
            let (typed, first) = app_step(
                state,
                MessageView::ActionOptionInput(index, name, text),
            );
            let (committed, second) = app_step(
                typed,
                MessageView::ActionOptionCommit(index, name),
            );
            let (_, third) = app_step(committed, MessageView::ActionOptionCommit(index, name));
            &&& first == DeedView::Nothing
            &&& second == (DeedView::SetOption { index, name, chosen: text })
            &&& third == DeedView::Nothing
        }),
{
}

/// Turning a dial of the popup sets the setting it shows, and that alone, and
/// saves the settings.
pub proof fn law_each_popup_dial_turns_its_own_setting(state: AppView, value: i64)
    requires
        -2147483648 <= value <= 2147483647,
    ensures
        ({
            let popup = state.config.popup;
            let turn = |dial: Dial| app_step(state, turned(dial, value));
            let set = |popup: Popup|
                (
                    AppView { config: ConfigView { popup, ..state.config }, ..state },
                    DeedView::SaveConfig,
                );
            &&& turn(Dial::OffsetX) == set(Popup { offset_x: value as i32, ..popup })
            &&& turn(Dial::OffsetY) == set(Popup { offset_y: value as i32, ..popup })
            &&& value >= 0 ==> {
                &&& turn(Dial::Settle) == set(Popup { settle_ms: value as u64, ..popup })
                &&& turn(Dial::PerPage) == set(Popup { max_actions: value as usize, ..popup })
                &&& turn(Dial::IconSize) == set(Popup { icon_size: value as i32, ..popup })
                &&& turn(Dial::Dismiss) == set(Popup { dismiss_ms: value as u64, ..popup })
                &&& turn(Dial::Timeout) == set(Popup { timeout_ms: value as u64, ..popup })
            }
        }),
{
}

/// Turning a dial of the selection sets the setting it shows, and that alone, and
/// saves the settings; and so do the switches.
pub proof fn law_each_selection_dial_turns_its_own_setting(state: AppView, value: i64, on: bool)
    requires
        0 <= value <= 4294967295,
    ensures
        ({
            let popup = state.config.popup;
            let selection = state.config.selection;
            let set = |selection: Selection|
                (
                    AppView { config: ConfigView { selection, ..state.config }, ..state },
                    DeedView::SaveConfig,
                );
            &&& app_step(state, turned(Dial::MinLength, value)) == set(
                Selection { min_length: value as usize, ..selection },
            )
            &&& app_step(state, turned(Dial::MaxLength, value)) == set(
                Selection { max_length: value as usize, ..selection },
            )
            &&& app_step(state, MessageView::IgnoreWhitespace(on)) == set(
                Selection { ignore_whitespace_only: on, ..selection },
            )
            &&& app_step(state, MessageView::Animate(on)) == (
                AppView {
                    config: ConfigView {
                        popup: Popup { animate: on, ..popup },
                        ..state.config
                    },
                    ..state
                },
                DeedView::SaveConfig,
            )
        }),
{
}

/// Each dial shows its own setting, with the step and the range that make sense
/// for it, and each switch shows whether it is on.
pub proof fn law_each_dial_shows_its_own_setting(popup: Popup, selection: Selection)
    requires
        popup.settle_ms <= u32::MAX,
        popup.max_actions <= u32::MAX,
        popup.icon_size >= 0,
        popup.dismiss_ms <= u32::MAX,
        popup.timeout_ms <= u32::MAX,
        selection.min_length <= u32::MAX,
        selection.max_length <= u32::MAX,
    ensures
        ({
            let rows = popup_rows(popup);
            let dial = |d: Dial, value: int, step: int, low: int, high: int|
                RowView::Number {
                    dial: d,
                    value: value as i64,
                    step: step as i64,
                    low: low as i64,
                    high: high as i64,
                };
            &&& rows.len() == 8
            &&& rows[0] == dial(Dial::Settle, popup.settle_ms as int, 20, 0, 2000)
            &&& rows[1] == dial(Dial::PerPage, popup.max_actions as int, 1, 1, 24)
            &&& rows[2] == dial(Dial::IconSize, popup.icon_size as int, 2, 8, 64)
            &&& rows[3] == dial(Dial::OffsetX, popup.offset_x as int, 2, -64, 64)
            &&& rows[4] == dial(Dial::OffsetY, popup.offset_y as int, 2, -64, 64)
            &&& rows[5] == dial(Dial::Dismiss, popup.dismiss_ms as int, 100, 0, 10000)
            &&& rows[6] == dial(Dial::Timeout, popup.timeout_ms as int, 500, 0, 60000)
            &&& rows[7] == RowView::Toggle { switch: Switch::Animate, on: popup.animate }
            &&& selection_rows(selection).len() == 3
            &&& selection_rows(selection)[0] == dial(
                Dial::MinLength,
                selection.min_length as int,
                1,
                1,
                1000,
            )
            &&& selection_rows(selection)[1] == dial(
                Dial::MaxLength,
                selection.max_length as int,
                1000,
                100,
                1000000,
            )
            &&& selection_rows(selection)[2] == RowView::Toggle {
                switch: Switch::IgnoreWhitespace,
                on: selection.ignore_whitespace_only,
            }
        }),
{
}

/// The exclude field is shown as typed, and the entries beneath it, in order,
/// each with its position. What is typed is taken as it is, and nothing is
/// written.
pub proof fn law_exclusions_are_shown_in_order(state: AppView, text: Seq<char>, i: int)
    requires
        state.config.exclude.len() <= usize::MAX,
    ensures
        applications_rows(state).len() == state.config.exclude.len() + 1,
        applications_rows(state)[0] == (RowView::ExcludeField { text: state.exclude_input }),
        0 <= i < state.config.exclude.len() ==> (
        applications_rows(state)[i + 1] matches RowView::Excluded { index, entry } && index == i
            && entry == state.config.exclude[i]),
        app_step(state, MessageView::ExcludeInput(text)) == (
            AppView { exclude_input: text, ..state },
            DeedView::Nothing,
        ),
{
}

/// What was typed is added at the end, without the white space around it, and
/// the field is cleared. A blank, and what is there already, changes nothing.
pub proof fn law_an_exclusion_is_added_at_the_end(state: AppView)
    ensures
        ({
            let entry = trim(state.exclude_input);
            let exclude = state.config.exclude;
            let (after, deed) = app_step(state, MessageView::ExcludeAdd);
            let known = exists|k: int| 0 <= k < exclude.len() && exclude[k] == entry;
            &&& (entry.len() == 0 || known) ==> after == state && deed is Nothing
            &&& (entry.len() > 0 && !known) ==> {
                &&& deed is SaveConfig
                &&& after.config.exclude == exclude + seq![entry]
                &&& after.config.popup == state.config.popup
                &&& after.config.selection == state.config.selection
                &&& after.exclude_input.len() == 0
                &&& after.actions == state.actions
                &&& after.drafts == state.drafts
            }
        }),
{
    let entry = trim(state.exclude_input);
    let exclude = state.config.exclude;
    if entry.len() > 0 && !exclude.contains(entry) {
        assert(exclude.push(entry) =~= exclude + seq![entry]);
    }
}

/// Removing an exclusion takes that one out and keeps the others in order. One
/// that is not there changes nothing.
pub proof fn law_an_exclusion_is_removed_by_its_position(
    state: AppView,
    before: Seq<Seq<char>>,
    entry: Seq<char>,
    after: Seq<Seq<char>>,
    index: usize,
)
    requires
        state.config.exclude == before + seq![entry] + after,
        before.len() == index,
    ensures
        ({
            let (left, deed) = app_step(state, MessageView::ExcludeRemove(index));
            &&& deed is SaveConfig
            &&& left == AppView {
                config: ConfigView { exclude: before + after, ..state.config },
                ..state
            }
        }),
        forall|past: usize|
            past >= state.config.exclude.len() ==> #[trigger] app_step(
                state,
                MessageView::ExcludeRemove(past),
            ) == (state, DeedView::Nothing),
{
    assert(state.config.exclude.remove(index as int) =~= before + after);
}

/// What the user does to an action concerns the action at that position: it is
/// switched, edited, or given the option. One that is not there is left alone.
pub proof fn law_changes_concern_the_action_at_the_position(
    state: AppView,
    index: usize,
    on: bool,
    offset: i32,
    name: Seq<char>,
    text: Seq<char>,
)
    ensures
        ({
            let switch = app_step(state, MessageView::ActionEnabled(index, on));
            let edit = app_step(state, MessageView::ActionEdit(index));
            let choose = app_step(state, MessageView::ActionOptionChoice(index, name, text));
            let nothing = (state, DeedView::Nothing);
            &&& index < state.actions.len() ==> {
                &&& switch == (state, DeedView::SetEnabled { index, enabled: on })
                &&& edit == (state, DeedView::Edit { index })
                &&& choose == (state, DeedView::SetOption { index, name, chosen: text })
            }
            &&& index >= state.actions.len() ==> {
                &&& switch == nothing
                &&& edit == nothing
                &&& choose == nothing
                &&& app_step(state, MessageView::ActionOptionInput(index, name, text)) == nothing
                &&& app_step(state, MessageView::ActionOptionCommit(index, name)) == nothing
                &&& app_step(state, MessageView::ActionMove(index, offset)) == nothing
            }
        }),
        app_step(state, MessageView::OpenFolder) == (state, DeedView::OpenFolder),
{
}

/// An action that is moved trades places with the one so far away, and no other
/// moves. Where there is none, nothing does.
pub proof fn law_moved_actions_trade_places(state: AppView, index: usize, offset: i32, k: int)
    requires
        index < state.actions.len(),
        0 <= k < state.actions.len(),
    ensures
        ({
            let (after, deed) = app_step(state, MessageView::ActionMove(index, offset));
            let target = index + offset;
            &&& (target < 0 || target >= state.actions.len()) ==> after == state && deed is Nothing
            &&& 0 <= target < state.actions.len() ==> {
                &&& deed is Renumber
                &&& after.actions.len() == state.actions.len()
                &&& after.actions[target] == state.actions[index as int]
                &&& after.actions[index as int] == state.actions[target]
                &&& k != index && k != target ==> after.actions[k] == state.actions[k]
                &&& after.config == state.config
                &&& after.exclude_input == state.exclude_input
                &&& after.drafts == state.drafts
            }
        }),
{
}

/// What is typed into the field of an option is kept for that option of that
/// action alone, whatever else is half-typed; committing it forgets it alone.
pub proof fn law_drafts_are_kept_apart(
    state: AppView,
    index: usize,
    name: Seq<char>,
    text: Seq<char>,
    other: (Seq<char>, Seq<char>),
)
    requires
        index < state.actions.len(),
    ensures
        ({
            let key = (state.actions[index as int].spec.id, name);
            let (typed, _) = app_step(state, MessageView::ActionOptionInput(index, name, text));
            let (sent, deed) = app_step(state, MessageView::ActionOptionCommit(index, name));
            &&& typed.drafts.contains_key(key)
            &&& typed.drafts[key] == text
            &&& other != key ==> typed.drafts.contains_key(other) == state.drafts.contains_key(
                other,
            ) && typed.drafts[other] == state.drafts[other]
            &&& typed == AppView { drafts: typed.drafts, ..state }
            &&& !sent.drafts.contains_key(key)
            &&& other != key ==> sent.drafts.contains_key(other) == state.drafts.contains_key(
                other,
            ) && (state.drafts.contains_key(other) ==> sent.drafts[other]
                == state.drafts[other])
            &&& sent == AppView { drafts: sent.drafts, ..state }
            &&& state.drafts.contains_key(key) ==> deed == DeedView::SetOption {
                index,
                name,
                chosen: state.drafts[key],
            }
            &&& !state.drafts.contains_key(key) ==> deed is Nothing
        }),
{
}

/// A window starts with what was loaded and nothing typed. Loading anew replaces
/// the settings and the actions and leaves what is half-typed.
pub proof fn law_loading_anew_keeps_what_is_typed(state: AppView, loaded: LoadedView)
    ensures
        opened(loaded).config == loaded.config,
        opened(loaded).actions == loaded.actions,
        opened(loaded).exclude_input.len() == 0,
        opened(loaded).drafts.dom() == Set::<(Seq<char>, Seq<char>)>::empty(),
        refreshed(state, loaded).config == loaded.config,
        refreshed(state, loaded).actions == loaded.actions,
        refreshed(state, loaded).exclude_input == state.exclude_input,
        refreshed(state, loaded).drafts == state.drafts,
{
    assert(opened(loaded).drafts.dom() =~= Set::<(Seq<char>, Seq<char>)>::empty());
}

proof fn lemma_position(list: Seq<Seq<char>>, text: Seq<char>, from: int)
    requires
        0 <= from <= list.len() <= usize::MAX,
    ensures
        match position_from(list, text, from) {
            Some(at) => from <= at < list.len() && list[at as int] == text && (forall|k: int|
                from <= k < at ==> #[trigger] list[k] != text),
            None => forall|k: int| from <= k < list.len() ==> #[trigger] list[k] != text,
        },
    decreases list.len() - from,
{
    if from < list.len() && list[from] != text {
        lemma_position(list, text, from + 1);
    }
}

/// An option without choices is a text field with what is half-typed, or else
/// its value. One with choices offers them all, the first that is its value
/// marked; a value that is none of them is not.
pub proof fn law_options_show_their_value(
    state: AppView,
    index: int,
    name: Seq<char>,
    option: OptionView,
)
    requires
        0 <= index < state.actions.len() <= usize::MAX,
        option.choices.len() <= usize::MAX,
    ensures
        ({
            let row = option_row(state, index, name, option);
            let key = (state.actions[index].spec.id, name);
            let value = effective_value(option);
            &&& option.choices.len() == 0 ==> (row matches RowView::OptionField {
                index: at,
                name: called,
                label,
                shown,
            } && at == index && called == name && label == option.label && (
            if state.drafts.contains_key(key) {
                shown == state.drafts[key]
            } else {
                shown == value
            }))
            &&& option.choices.len() > 0 ==> (row matches RowView::OptionChoice {
                index: at,
                name: called,
                label,
                choices,
                marked,
            } && at == index && called == name && label == option.label && choices
                == option.choices && match marked {
                Some(m) => m < choices.len() && choices[m as int] == value && (forall|k: int|
                    0 <= k < m ==> #[trigger] choices[k] != value),
                None => forall|k: int| 0 <= k < choices.len() ==> #[trigger] choices[k] != value,
            })
        }),
{
    lemma_position(option.choices, effective_value(option), 0);
}

/// The actions are shown in order, the folder first, and each with its options
/// beneath it. The first cannot move up, and the last cannot move down.
pub proof fn law_actions_are_shown_in_order(state: AppView, n: int, k: int)
    requires
        0 <= n < state.actions.len() <= usize::MAX,
    ensures
        actions_rows(state) == seq![RowView::Folder] + rows_of_actions(
            state,
            state.actions.len() as int,
        ),
        rows_of_actions(state, 0).len() == 0,
        rows_of_actions(state, n + 1) == rows_of_actions(state, n) + rows_of_action(state, n),
        ({
            let spec = state.actions[n].spec;
            let rows = rows_of_action(state, n);
            &&& rows.len() == spec.options.len() + 1
            &&& (rows[0] matches RowView::Action { index, title, id, up, down, enabled } && index
                == n && title == spec.title && id == spec.id && enabled == spec.enabled && (up
                <==> n != 0) && (down <==> n != state.actions.len() - 1))
            &&& 0 <= k < spec.options.len() ==> rows[k + 1] == option_row(
                state,
                n,
                spec.options[k].0,
                spec.options[k].1,
            )
        }),
{
}

proof fn lemma_last_part_reads_back(head: Seq<char>, name: Seq<char>, part: Seq<char>)
    requires
        forall|i: int| 0 <= i < name.len() ==> #[trigger] name[i] != '/',
    ensures
        last_part(head + name, part) == last_part(head, name + part),
    decreases name.len(),
{
    if name.len() == 0 {
        assert(head + name =~= head);
        assert(name + part =~= part);
    } else {
        let path = head + name;
        let short = name.drop_last();
        assert(path.last() == name.last());
        assert(path.drop_last() =~= head + short);
        assert(name[name.len() - 1] != '/');
        lemma_last_part_reads_back(head, short, seq![name.last()] + part);
        assert(short + (seq![name.last()] + part) =~= name + part);
    }
}

/// A manifest goes by the name of the file it came from, whatever directory that
/// is in, and even where slashes follow. One that came from no file, and one
/// whose path ends in `..`, goes by the id of its action.
pub proof fn law_a_manifest_keeps_its_file_name(
    directory: Seq<char>,
    name: Seq<char>,
    id: Seq<char>,
)
    requires
        forall|i: int| 0 <= i < name.len() ==> #[trigger] name[i] != '/',
    ensures
        (name.len() > 0 && name != "."@ && name != ".."@) ==> {
            &&& manifest_name(name, id) == name
            &&& manifest_name(directory + seq!['/'] + name, id) == name
            &&& manifest_name(directory + seq!['/'] + name + seq!['/'], id) == name
        },
        manifest_name(Seq::empty(), id) == id + ".toml"@,
        manifest_name("."@, id) == id + ".toml"@,
        manifest_name(".."@, id) == id + ".toml"@,
        manifest_name(directory + seq!['/'] + ".."@, id) == id + ".toml"@,
        manifest_name(directory + seq!['/'] + "."@, id) == manifest_name(directory, id),
        manifest_name(directory + seq!['/'], id) == manifest_name(directory, id),
{
    reveal_strlit(".");
    reveal_strlit("..");
    let none = Seq::<char>::empty();
    let open = directory + seq!['/'];
    assert(open.last() == '/');
    assert(open.drop_last() =~= directory);
    assert(name + none =~= name);
    assert("."@ + none =~= "."@);
    assert(".."@ + none =~= ".."@);
    assert(none + name =~= name);
    assert(none + "."@ =~= "."@);
    assert(none + ".."@ =~= ".."@);
    lemma_last_part_reads_back(open, name, none);
    lemma_last_part_reads_back(open, "."@, none);
    lemma_last_part_reads_back(open, ".."@, none);
    lemma_last_part_reads_back(none, name, none);
    lemma_last_part_reads_back(none, "."@, none);
    lemma_last_part_reads_back(none, ".."@, none);
    let closed = open + name + seq!['/'];
    assert(closed.last() == '/');
    assert(closed.drop_last() =~= open + name);
    assert("."@.len() != ".."@.len());
}

} // verus!
