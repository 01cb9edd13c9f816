//! The desktop-independent half of grabit: which actions apply to a selection,
//! and what happens when one is invoked.
//!
//! Both front-ends drive this. Nothing here knows how the bar is drawn.

use vstd::prelude::*;

use crate::actions::{run, run_with, Expansion, Outcome, RunError, Step};
use crate::catalog::Loaded;
use crate::classify::{Classification, Recognisers};
use crate::config::{After, Builtin, Config};
use crate::install::INSTALL_ID;
use crate::manifest::Action;
use crate::selection::Grab;
use crate::text::{owned, same_text, to_chars, to_text};
#[allow(unused_imports)]
use crate::{
    actions::{
        ExpansionView, OutcomeView, RunErrorView, StepView, markdown_of, markdown_rendering, running,
    },
    catalog::{LoadedView, action_views},
    classify::{ClassView, detected, full_class_of},
    manifest::{ActionView, offered},
    pattern::regex_matches,
    selection::GrabView,
    text::maybe_text,
};

verus! {

// ---------------------------------------------------------------------------
// Buttons
// ---------------------------------------------------------------------------

/// The subset of an action a front-end needs in order to draw a button.
#[derive(Debug, PartialEq, Eq)]
pub struct Button {
    pub id: String,
    pub title: String,
    pub icon: String,
    pub label: String,
}

/// A button in specifications.
pub struct ButtonView {
    pub id: Seq<char>,
    pub title: Seq<char>,
    pub icon: Seq<char>,
    pub label: Seq<char>,
}

impl View for Button {
    type V = ButtonView;

    open spec fn view(&self) -> ButtonView {
        ButtonView {
            id: self.id@,
            title: self.title@,
            icon: self.icon@,
            label: self.label@,
        }
    }
}

impl Clone for Button {
    fn clone(&self) -> (r: Self)
        ensures
            r@ == self@,
    {
        Button {
            id: self.id.clone(),
            title: self.title.clone(),
            icon: self.icon.clone(),
            label: self.label.clone(),
        }
    }
}

/// A row of buttons in specifications.
pub open spec fn button_views(buttons: Seq<Button>) -> Seq<ButtonView> {
    buttons.map_values(|button: Button| button@)
}

/// The words on the button that offers to install the selection.
#[derive(Debug, PartialEq, Eq)]
pub struct Offer {
    pub title: String,
    pub label: String,
}

/// The button that offers to install the selection.
pub open spec fn offer_button(title: Seq<char>, label: Seq<char>) -> ButtonView {
    ButtonView { id: INSTALL_ID@, title, icon: "document-save-symbolic"@, label }
}

/// The first two characters of a text, or all of it if it is shorter.
pub open spec fn initials(text: Seq<char>) -> Seq<char> {
    if text.len() <= 2 {
        text
    } else {
        text.take(2)
    }
}

/// The button of an action. Without a label it gets the beginning of its
/// title.
pub open spec fn action_button(action: ActionView) -> ButtonView {
    ButtonView {
        id: action.spec.id,
        title: action.spec.title,
        icon: match action.spec.icon {
            Some(icon) => icon,
            None => Seq::empty(),
        },
        label: match action.spec.label {
            Some(label) => label,
            None => initials(action.spec.title),
        },
    }
}

/// Whether the session can do what an action needs. Builtins are keystrokes.
pub open spec fn possible(action: ActionView, can_inject: bool) -> bool {
    action.spec.builtin is None || can_inject
}

/// The buttons of the first `n` actions, given which of their patterns matched.
pub open spec fn shown_given(
    actions: Seq<ActionView>,
    class: ClassView,
    matched: Seq<(bool, bool)>,
    can_inject: bool,
    n: int,
) -> Seq<ButtonView>
    decreases n,
{
    if n <= 0 {
        Seq::empty()
    } else {
        let rest = shown_given(actions, class, matched, can_inject, n - 1);
        if offered(actions[n - 1], class, matched[n - 1].0, matched[n - 1].1) && possible(
            actions[n - 1],
            can_inject,
        ) {
            rest.push(action_button(actions[n - 1]))
        } else {
            rest
        }
    }
}

/// The buttons for a selection, given its classification and which patterns of
/// each action it matched. When the selection is itself a manifest, the offer
/// to install it leads.
pub open spec fn buttons_given(
    actions: Seq<ActionView>,
    class: ClassView,
    matched: Seq<(bool, bool)>,
    can_inject: bool,
    offer: ButtonView,
) -> Seq<ButtonView> {
    let shown = shown_given(actions, class, matched, can_inject, actions.len() as int);
    if class.manifest {
        seq![offer] + shown
    } else {
        shown
    }
}

/// Which patterns of each action a text matches. A pattern that an action lacks
/// has no say.
pub open spec fn matches_of(actions: Seq<ActionView>, text: Seq<char>) -> Seq<(bool, bool)> {
    actions.map_values(
        |action: ActionView|
            (
                match action.match_re {
                    Some(pattern) => regex_matches(pattern, text),
                    None => true,
                },
                match action.not_match {
                    Some(pattern) => regex_matches(pattern, text),
                    None => false,
                },
            ),
    )
}

/// The buttons for a selection.
pub open spec fn buttons_for(
    actions: Seq<ActionView>,
    text: Seq<char>,
    can_inject: bool,
    offer: ButtonView,
) -> Seq<ButtonView> {
    buttons_given(actions, full_class_of(text), matches_of(actions, text), can_inject, offer)
}

/// Makes the button of an action.
fn button_of(action: &Action) -> (r: Button)
    ensures
        r@ == action_button(action@),
{
    let icon = match &action.spec.icon {
        Some(icon) => icon.clone(),
        None => String::new(),
    };
    let label = match &action.spec.label {
        Some(label) => label.clone(),
        None => {
            let title = to_chars(action.spec.title.as_str());
            if title.len() <= 2 {
                action.spec.title.clone()
            } else {
                let head = &title.as_slice()[0..2];
                assert(head@ =~= title@.take(2));
                to_text(head)
            }
        },
    };
    Button { id: action.spec.id.clone(), title: action.spec.title.clone(), icon, label }
}

// ---------------------------------------------------------------------------
// The engine
// ---------------------------------------------------------------------------

/// Something an action produced that the front-end should present, arriving
/// after the invocation returned.
#[derive(Debug, PartialEq, Eq)]
pub enum Feedback {
    /// Show this text in the bar, titled with the action that produced it.
    Result { title: String, body: String },
}

/// What to do to the world, one after the other. The first that fails ends it.
#[derive(Debug, PartialEq, Eq)]
pub enum Effect {
    /// Put this on the clipboard.
    SetClipboard(String),
    /// Wait this many milliseconds.
    Pause(u64),
    /// Send Ctrl+V. If that fails, this is what to say of it.
    Paste(String),
    /// Send Delete. If that fails, this is what to say of it.
    Delete(String),
    /// Hand this to the front-end.
    Present(Feedback),
    /// Fail with this message.
    Fail(String),
}

/// An effect in specifications.
pub enum EffectView {
    SetClipboard(Seq<char>),
    Pause(u64),
    Paste(Seq<char>),
    Delete(Seq<char>),
    Present { title: Seq<char>, body: Seq<char> },
    Fail(Seq<char>),
}

impl View for Effect {
    type V = EffectView;

    open spec fn view(&self) -> EffectView {
        match self {
            Effect::SetClipboard(text) => EffectView::SetClipboard(text@),
            Effect::Pause(ms) => EffectView::Pause(*ms),
            Effect::Paste(complaint) => EffectView::Paste(complaint@),
            Effect::Delete(complaint) => EffectView::Delete(complaint@),
            Effect::Present(Feedback::Result { title, body }) => EffectView::Present {
                title: title@,
                body: body@,
            },
            Effect::Fail(message) => EffectView::Fail(message@),
        }
    }
}

/// Several effects in specifications.
pub open spec fn effect_views(effects: Seq<Effect>) -> Seq<EffectView> {
    effects.map_values(|effect: Effect| effect@)
}

/// How long the target application is given to see a new clipboard before it is
/// asked to paste, in milliseconds.
pub const ROUTING_MS: u64 = 40;

/// What a builtin does. Without a way to send keystrokes it fails, `cut` after
/// it copied.
pub open spec fn builtin_effects(builtin: Builtin, text: Seq<char>, can_inject: bool) -> Seq<
    EffectView,
> {
    match (builtin, can_inject) {
        (Builtin::Cut, true) => seq![
            EffectView::SetClipboard(text),
            EffectView::Delete("the selection was copied but could not be deleted"@),
        ],
        (Builtin::Cut, false) => seq![
            EffectView::SetClipboard(text),
            EffectView::Fail(
                "the selection was copied but could not be deleted: this session cannot synthesise keystrokes"@,
            ),
        ],
        (Builtin::Paste, true) => seq![EffectView::Paste("pasting the clipboard"@)],
        (Builtin::Paste, false) => seq![
            EffectView::Fail(
                "pasting the clipboard: this session cannot synthesise keystrokes"@,
            ),
        ],
    }
}

/// What an outcome does.
pub open spec fn outcome_effects(
    title: Seq<char>,
    outcome: OutcomeView,
    can_inject: bool,
) -> Seq<EffectView> {
    match outcome {
        OutcomeView::Nothing => Seq::empty(),
        OutcomeView::Clipboard(text) => seq![EffectView::SetClipboard(text)],
        OutcomeView::Replace(text) => if can_inject {
            seq![
                EffectView::SetClipboard(text),
                EffectView::Pause(ROUTING_MS),
                EffectView::Paste("pasting the replacement text"@),
            ]
        } else {
            seq![
                EffectView::SetClipboard(text),
                EffectView::Fail(
                    "this session cannot synthesise keystrokes, so the replacement text was put on the clipboard but not pasted"@,
                ),
            ]
        },
        OutcomeView::Show(body) => seq![EffectView::Present { title, body }],
    }
}

/// What invoking an action comes to.
#[derive(Debug, PartialEq, Eq)]
pub enum Job {
    /// Install the selection as an action.
    Install(String),
    /// There is no action of that id.
    Unknown,
    /// Do these things.
    Builtin { title: String, effects: Vec<Effect> },
    /// Run this, and apply what comes of it.
    Run { id: String, title: String, after: After, step: Result<Step, RunError> },
}

/// A job in specifications.
pub enum JobView {
    Install(Seq<char>),
    Unknown,
    Builtin { title: Seq<char>, effects: Seq<EffectView> },
    Run {
        id: Seq<char>,
        title: Seq<char>,
        after: After,
        step: Result<StepView, RunErrorView>,
    },
}

/// What a step or its failure is in specifications.
pub open spec fn step_view(step: Result<Step, RunError>) -> Result<StepView, RunErrorView> {
    match step {
        Ok(step) => Ok(step@),
        Err(error) => Err(error@),
    }
}

impl View for Job {
    type V = JobView;

    open spec fn view(&self) -> JobView {
        match self {
            Job::Install(text) => JobView::Install(text@),
            Job::Unknown => JobView::Unknown,
            Job::Builtin { title, effects } => JobView::Builtin {
                title: title@,
                effects: effect_views(effects@),
            },
            Job::Run { id, title, after, step } => JobView::Run {
                id: id@,
                title: title@,
                after: *after,
                step: step_view(*step),
            },
        }
    }
}

/// The first of the actions with an id, at or after `from`.
pub open spec fn action_from_position(
    actions: Seq<ActionView>,
    id: Seq<char>,
    from: int,
) -> Option<ActionView>
    decreases actions.len() - from,
{
    if from < 0 || from >= actions.len() {
        None
    } else if actions[from].spec.id == id {
        Some(actions[from])
    } else {
        action_from_position(actions, id, from + 1)
    }
}

/// The action with an id.
pub open spec fn action_named(actions: Seq<ActionView>, id: Seq<char>) -> Option<ActionView> {
    action_from_position(actions, id, 0)
}

/// What invoking an action comes to, given the classification of the selection
/// and its HTML as Markdown.
pub open spec fn job_given(
    actions: Seq<ActionView>,
    id: Seq<char>,
    grab: GrabView,
    can_inject: bool,
    class: ClassView,
    markdown: Option<Seq<char>>,
) -> JobView {
    if id == INSTALL_ID@ {
        JobView::Install(grab.text)
    } else {
        match action_named(actions, id) {
            None => JobView::Unknown,
            Some(action) => match action.spec.builtin {
                Some(builtin) => JobView::Builtin {
                    title: action.spec.title,
                    effects: builtin_effects(builtin, grab.text, can_inject),
                },
                None => JobView::Run {
                    id: action.spec.id,
                    title: action.spec.title,
                    after: action.spec.after,
                    step: running(
                        action,
                        ExpansionView { grab, class, options: action.spec.options },
                        markdown,
                    ),
                },
            },
        }
    }
}

/// What invoking an action comes to.
pub open spec fn job_for(
    actions: Seq<ActionView>,
    id: Seq<char>,
    grab: GrabView,
    can_inject: bool,
) -> JobView {
    job_given(
        actions,
        id,
        grab,
        can_inject,
        full_class_of(grab.text),
        markdown_rendering(grab),
    )
}

/// Plans what a builtin does.
pub fn run_builtin(builtin: Builtin, text: &str, can_inject: bool) -> (r: Vec<Effect>)
    ensures
        effect_views(r@) == builtin_effects(builtin, text@, can_inject),
{
    let effects: Vec<Effect> = match (builtin, can_inject) {
        (Builtin::Cut, true) => vec![
            Effect::SetClipboard(owned(text)),
            Effect::Delete(owned("the selection was copied but could not be deleted")),
        ],
        (Builtin::Cut, false) => vec![
            Effect::SetClipboard(owned(text)),
            Effect::Fail(
                owned(
                    "the selection was copied but could not be deleted: this session cannot synthesise keystrokes",
                ),
            ),
        ],
        (Builtin::Paste, true) => vec![Effect::Paste(owned("pasting the clipboard"))],
        (Builtin::Paste, false) => vec![
            Effect::Fail(
                owned("pasting the clipboard: this session cannot synthesise keystrokes"),
            ),
        ],
    };
    assert(effect_views(effects@) =~= builtin_effects(builtin, text@, can_inject));
    effects
}

/// Plans what an outcome does.
pub fn apply(title: &str, outcome: Outcome, can_inject: bool) -> (r: Vec<Effect>)
    ensures
        effect_views(r@) == outcome_effects(title@, outcome@, can_inject),
{
    let ghost wanted = outcome_effects(title@, outcome@, can_inject);
    let effects: Vec<Effect> = match outcome {
        Outcome::Nothing => Vec::new(),
        Outcome::Clipboard(text) => vec![Effect::SetClipboard(text)],
        Outcome::Replace(text) => if can_inject {
            vec![
                Effect::SetClipboard(text),
                Effect::Pause(ROUTING_MS),
                Effect::Paste(owned("pasting the replacement text")),
            ]
        } else {
            vec![
                Effect::SetClipboard(text),
                Effect::Fail(
                    owned(
                        "this session cannot synthesise keystrokes, so the replacement text was put on the clipboard but not pasted",
                    ),
                ),
            ]
        },
        Outcome::Show(body) => vec![
            Effect::Present(Feedback::Result { title: owned(title), body }),
        ],
    };
    assert(effect_views(effects@) =~= wanted);
    effects
}

/// The loaded actions and what the session can do.
#[derive(Debug)]
pub struct Engine {
    loaded: Loaded,
    recognisers: Recognisers,
    /// Whether the session has a way to synthesise keystrokes.
    can_inject: bool,
}

/// The engine in specifications.
pub struct EngineView {
    pub loaded: LoadedView,
    pub can_inject: bool,
}

/// The engine once everything was loaded anew, and how many actions that is.
pub open spec fn reloaded(state: EngineView, loaded: LoadedView) -> (EngineView, nat) {
    (EngineView { loaded, ..state }, loaded.actions.len())
}

/// What becomes of the output of the action with an id.
pub open spec fn mode_of(state: EngineView, id: Seq<char>) -> Option<After> {
    match action_named(state.loaded.actions, id) {
        Some(action) => Some(action.spec.after),
        None => None,
    }
}

impl View for Engine {
    type V = EngineView;

    closed spec fn view(&self) -> EngineView {
        EngineView { loaded: self.loaded@, can_inject: self.can_inject }
    }
}

impl Engine {
    /// An engine for what was loaded, in a session that can or cannot
    /// synthesise keystrokes.
    pub fn new(loaded: Loaded, can_inject: bool) -> (r: Self)
        ensures
            r@ == (EngineView { loaded: loaded@, can_inject }),
    {
        Engine { loaded, recognisers: Recognisers::new(), can_inject }
    }

    /// The settings.
    pub fn config(&self) -> (r: Config)
        ensures
            r@ == self@.loaded.config,
    {
        self.loaded.config.clone()
    }

    /// Whether the session has a way to synthesise keystrokes.
    pub fn can_inject(&self) -> (r: bool)
        ensures
            r == self@.can_inject,
    {
        self.can_inject
    }

    /// Takes over what was loaded anew, and says how many actions that is.
    pub fn reload(&mut self, loaded: Loaded) -> (r: usize)
        ensures
            (final(self)@, r as nat) == reloaded(old(self)@, loaded@),
            final(self)@ == (EngineView { loaded: loaded@, ..old(self)@ }),
            r == loaded@.actions.len(),
    {
        let count: usize = loaded.actions.len();
        self.loaded = loaded;
        count
    }

    /// The buttons for a selection, given its classification and which patterns
    /// of each action it matched.
    pub fn buttons_from(
        &self,
        class: &Classification,
        matched: &Vec<(bool, bool)>,
        offer: &Offer,
    ) -> (r: Vec<Button>)
        requires
            matched@.len() == self@.loaded.actions.len(),
        ensures
            button_views(r@) == buttons_given(
                self@.loaded.actions,
                class@,
                matched@,
                self@.can_inject,
                offer_button(offer.title@, offer.label@),
            ),
    {
        let ghost actions = self@.loaded.actions;
        let mut buttons: Vec<Button> = Vec::new();
        let ghost lead = if class@.manifest {
            seq![offer_button(offer.title@, offer.label@)]
        } else {
            Seq::empty()
        };
        if class.manifest {
            buttons.push(
                Button {
                    id: owned(INSTALL_ID),
                    title: offer.title.clone(),
                    icon: owned("document-save-symbolic"),
                    label: offer.label.clone(),
                },
            );
        }
        assert(button_views(buttons@) =~= lead + shown_given(
            actions,
            class@,
            matched@,
            self@.can_inject,
            0,
        ));
        for i in 0..self.loaded.actions.len()
            invariant
                actions == self@.loaded.actions,
                matched@.len() == actions.len(),
                self.loaded.actions@.len() == actions.len(),
                self.can_inject == self@.can_inject,
                actions == action_views(self.loaded.actions@),
                button_views(buttons@) == lead + shown_given(
                    actions,
                    class@,
                    matched@,
                    self@.can_inject,
                    i as int,
                ),
        {
            let action = &self.loaded.actions[i];
            assert(actions[i as int] == action@);
            let ghost before = buttons@;
            let ghost rest = shown_given(actions, class@, matched@, self@.can_inject, i as int);
            if action.is_offered(class, matched[i].0, matched[i].1) && (
            action.spec.builtin.is_none() || self.can_inject) {
                let button = button_of(action);
                buttons.push(button);
                assert(button_views(buttons@) =~= button_views(before).push(button@));
                assert(lead + rest.push(button@) =~= (lead + rest).push(button@));
            }
        }
        assert(lead + shown_given(
            actions,
            class@,
            matched@,
            self@.can_inject,
            actions.len() as int,
        ) =~= buttons_given(
            actions,
            class@,
            matched@,
            self@.can_inject,
            offer_button(offer.title@, offer.label@),
        ));
        buttons
    }

    /// Actions that apply to `text`, ordered. The front-end owns any paging.
    ///
    /// Builtins are keystrokes; where the session has none they are omitted
    /// rather than offered and left to fail. When the selection is itself an
    /// action manifest, the install offer leads.
    pub fn buttons(&self, text: &str, offer: &Offer) -> (r: Vec<Button>)
        ensures
            button_views(r@) == buttons_for(
                self@.loaded.actions,
                text@,
                self@.can_inject,
                offer_button(offer.title@, offer.label@),
            ),
    {
        let class = self.recognisers.classify_full(text);
        let ghost actions = self@.loaded.actions;
        let mut matched: Vec<(bool, bool)> = Vec::new();
        for i in 0..self.loaded.actions.len()
            invariant
                actions == action_views(self.loaded.actions@),
                matched@.len() == i,
                forall|k: int|
                    0 <= k < i ==> #[trigger] matched@[k] == matches_of(actions, text@)[k],
        {
            let action = &self.loaded.actions[i];
            assert(actions[i as int] == action@);
            let hit = match &action.match_re {
                Some(pattern) => pattern.is_match(text),
                None => true,
            };
            let miss = match &action.not_match {
                Some(pattern) => pattern.is_match(text),
                None => false,
            };
            matched.push((hit, miss));
        }
        assert(matched@ =~= matches_of(actions, text@));
        self.buttons_from(&class, &matched, offer)
    }

    /// Looks an action up by its id.
    fn find(&self, id: &str) -> (r: Option<&Action>)
        ensures
            match r {
                Some(action) => action_named(self@.loaded.actions, id@) == Some(action@),
                None => action_named(self@.loaded.actions, id@) is None,
            },
    {
        let ghost actions = self@.loaded.actions;
        for i in 0..self.loaded.actions.len()
            invariant
                actions == action_views(self.loaded.actions@),
                action_named(actions, id@) == action_from_position(actions, id@, i as int),
        {
            assert(actions[i as int] == self.loaded.actions@[i as int]@);
            if same_text(self.loaded.actions[i].spec.id.as_str(), id) {
                return Some(&self.loaded.actions[i]);
            }
        }
        None
    }

    /// The `after` mode of the action with `id`, so a front-end can decide
    /// whether to keep the bar up for a result.
    pub fn action_after(&self, id: &str) -> (r: Option<After>)
        ensures
            r == mode_of(self@, id@),
            r == (match action_named(self@.loaded.actions, id@) {
                Some(action) => Some(action.spec.after),
                None => None,
            }),
    {
        match self.find(id) {
            Some(action) => Some(action.spec.after),
            None => None,
        }
    }

    /// Finds out what invoking the action with `id` against a selection comes
    /// to, given the classification of the selection and its HTML as Markdown.
    pub fn invoke_with(
        &self,
        id: &str,
        grab: &Grab,
        class: &Classification,
        markdown: &Option<String>,
    ) -> (r: Job)
        ensures
            r@ == job_given(
                self@.loaded.actions,
                id@,
                grab@,
                self@.can_inject,
                class@,
                maybe_text(*markdown),
            ),
    {
        if same_text(id, INSTALL_ID) {
            return Job::Install(grab.text.clone());
        }
        let action = match self.find(id) {
            Some(action) => action,
            None => return Job::Unknown,
        };
        match action.spec.builtin {
            Some(builtin) => Job::Builtin {
                title: action.spec.title.clone(),
                effects: run_builtin(builtin, grab.text.as_str(), self.can_inject),
            },
            None => {
                let ctx = Expansion { grab, class, options: &action.spec.options };
                Job::Run {
                    id: action.spec.id.clone(),
                    title: action.spec.title.clone(),
                    after: action.spec.after,
                    step: run_with(action, &ctx, markdown),
                }
            },
        }
    }

    /// Finds out what invoking the action with `id` against a selection comes
    /// to.
    pub fn invoke(&self, id: &str, grab: &Grab) -> (r: Job)
        ensures
            r@ == job_for(self@.loaded.actions, id@, grab@, self@.can_inject),
    {
        if same_text(id, INSTALL_ID) {
            return Job::Install(grab.text.clone());
        }
        let action = match self.find(id) {
            Some(action) => action,
            None => return Job::Unknown,
        };
        match action.spec.builtin {
            Some(builtin) => Job::Builtin {
                title: action.spec.title.clone(),
                effects: run_builtin(builtin, grab.text.as_str(), self.can_inject),
            },
            None => {
                let class = self.recognisers.classify_full(grab.text.as_str());
                let ctx = Expansion { grab, class: &class, options: &action.spec.options };
                Job::Run {
                    id: action.spec.id.clone(),
                    title: action.spec.title.clone(),
                    after: action.spec.after,
                    step: run(action, &ctx),
                }
            },
        }
    }
}

// ---------------------------------------------------------------------------
// What the engine promises
// ---------------------------------------------------------------------------

/// Whether an action gets a button.
pub open spec fn gets_button(
    actions: Seq<ActionView>,
    class: ClassView,
    matched: Seq<(bool, bool)>,
    can_inject: bool,
    i: int,
) -> bool {
    offered(actions[i], class, matched[i].0, matched[i].1) && possible(actions[i], can_inject)
}

/// The positions of the first `n` actions that get a button.
pub open spec fn button_sources(
    actions: Seq<ActionView>,
    class: ClassView,
    matched: Seq<(bool, bool)>,
    can_inject: bool,
    n: int,
) -> Seq<int>
    decreases n,
{
    if n <= 0 {
        Seq::empty()
    } else {
        let rest = button_sources(actions, class, matched, can_inject, n - 1);
        if gets_button(actions, class, matched, can_inject, n - 1) {
            rest.push(n - 1)
        } else {
            rest
        }
    }
}

/// The bar shows the actions that apply, all of them and no others, in the
/// order in which they are loaded.
pub proof fn law_buttons_are_the_actions_that_apply(
    actions: Seq<ActionView>,
    class: ClassView,
    matched: Seq<(bool, bool)>,
    can_inject: bool,
    n: int,
)
    requires
        0 <= n <= actions.len(),
    ensures
        ({
            let shown = shown_given(actions, class, matched, can_inject, n);
            let sources = button_sources(actions, class, matched, can_inject, n);
            &&& shown.len() == sources.len()
            &&& forall|k: int|
                0 <= k < shown.len() ==> {
                    &&& 0 <= #[trigger] sources[k] < n
                    &&& gets_button(actions, class, matched, can_inject, sources[k])
                    &&& shown[k] == action_button(actions[sources[k]])
                }
            &&& forall|j: int, k: int|
                0 <= j < k < sources.len() ==> #[trigger] sources[j] < #[trigger] sources[k]
            &&& forall|i: int|
                0 <= i < n && #[trigger] gets_button(actions, class, matched, can_inject, i)
                    ==> sources.contains(i)
        }),
    decreases n,
{
    if n > 0 {
        law_buttons_are_the_actions_that_apply(actions, class, matched, can_inject, n - 1);
        let before = button_sources(actions, class, matched, can_inject, n - 1);
        let sources = button_sources(actions, class, matched, can_inject, n);
        assert forall|i: int|
            0 <= i < n && #[trigger] gets_button(
                actions,
                class,
                matched,
                can_inject,
                i,
            ) implies sources.contains(i) by {
            if i == n - 1 {
                assert(sources[sources.len() - 1] == i);
            } else {
                assert(before.contains(i));
                let k = choose|k: int| 0 <= k < before.len() && before[k] == i;
                assert(sources[k] == i);
            }
        }
    }
}

/// Where the session cannot send keystrokes, no builtin is offered.
pub proof fn law_builtins_need_keystrokes(
    actions: Seq<ActionView>,
    class: ClassView,
    matched: Seq<(bool, bool)>,
    i: int,
)
    requires
        0 <= i < actions.len(),
        actions[i].spec.builtin is Some,
    ensures
        !gets_button(actions, class, matched, false, i),
{
}

/// When the selection is a manifest, the offer to install it leads, and the
/// actions that apply follow; otherwise there is no offer.
pub proof fn law_the_install_offer_leads(
    actions: Seq<ActionView>,
    class: ClassView,
    matched: Seq<(bool, bool)>,
    can_inject: bool,
    offer: ButtonView,
)
    ensures
        ({
            let all = buttons_given(actions, class, matched, can_inject, offer);
            let shown = shown_given(actions, class, matched, can_inject, actions.len() as int);
            if class.manifest {
                all[0] == offer && all.skip(1) == shown
            } else {
                all == shown
            }
        }),
{
    let all = buttons_given(actions, class, matched, can_inject, offer);
    let shown = shown_given(actions, class, matched, can_inject, actions.len() as int);
    if class.manifest {
        assert(all.skip(1) =~= shown);
    }
}

/// A replacement always reaches the clipboard first. It is pasted where the
/// session can do that; where it cannot, the user is told.
pub proof fn law_replacements_reach_the_clipboard(
    title: Seq<char>,
    text: Seq<char>,
    can_inject: bool,
)
    ensures
        ({
            let effects = outcome_effects(title, OutcomeView::Replace(text), can_inject);
            &&& effects[0] == EffectView::SetClipboard(text)
            &&& can_inject ==> effects.last() is Paste
            &&& !can_inject ==> effects.last() is Fail
        }),
{
}

/// Whether an effect is a keystroke.
pub open spec fn is_keystroke(effect: EffectView) -> bool {
    effect is Paste || effect is Delete
}

/// No keystroke is planned in a session that cannot send one.
pub proof fn law_no_keystrokes_without_an_injector(
    builtin: Builtin,
    title: Seq<char>,
    text: Seq<char>,
    outcome: OutcomeView,
    i: int,
)
    ensures
        ({
            let effects = builtin_effects(builtin, text, false);
            0 <= i < effects.len() ==> !is_keystroke(effects[i])
        }),
        ({
            let effects = outcome_effects(title, outcome, false);
            0 <= i < effects.len() ==> !is_keystroke(effects[i])
        }),
{
}

/// The first actions get the same buttons whatever actions follow.
proof fn lemma_later_actions_do_not_matter(
    actions: Seq<ActionView>,
    more: Seq<ActionView>,
    class: ClassView,
    matched: Seq<(bool, bool)>,
    other: Seq<(bool, bool)>,
    can_inject: bool,
    n: int,
)
    requires
        n <= actions.len() <= more.len(),
        n <= matched.len() && n <= other.len(),
        forall|i: int| 0 <= i < n ==> #[trigger] actions[i] == more[i],
        forall|i: int| 0 <= i < n ==> #[trigger] matched[i] == other[i],
    ensures
        shown_given(actions, class, matched, can_inject, n) == shown_given(
            more,
            class,
            other,
            can_inject,
            n,
        ),
    decreases n,
{
    if n > 0 {
        assert(actions[n - 1] == more[n - 1] && matched[n - 1] == other[n - 1]);
        lemma_later_actions_do_not_matter(actions, more, class, matched, other, can_inject, n - 1);
    }
}

/// Buttons are made action by action. An action adds its button, behind those
/// before it, if it is enabled, the selection is one of the kinds it asks for or
/// it asks for none, the selection matches its `match` and not its `not_match`,
/// and the session can send the keystrokes of a builtin; otherwise it adds none.
pub proof fn law_an_action_adds_its_button_if_it_applies(
    actions: Seq<ActionView>,
    action: ActionView,
    text: Seq<char>,
    can_inject: bool,
    offer: ButtonView,
)
    ensures
        buttons_for(Seq::empty(), text, can_inject, offer) == (if full_class_of(text).manifest {
            seq![offer]
        } else {
            Seq::empty()
        }),
        buttons_for(actions.push(action), text, can_inject, offer) == ({
            let before = buttons_for(actions, text, can_inject, offer);
            let class = full_class_of(text);
            if action.spec.enabled && (action.spec.detects.len() == 0 || exists|i: int|
                0 <= i < action.spec.detects.len() && detected(
                    class,
                    #[trigger] action.spec.detects[i],
                ) is Some) && (action.match_re matches Some(pattern) ==> regex_matches(
                pattern,
                text,
            )) && (action.not_match matches Some(pattern) ==> !regex_matches(pattern, text)) && (
            can_inject || action.spec.builtin is None) {
                before.push(action_button(action))
            } else {
                before
            }
        }),
{
    let more = actions.push(action);
    let class = full_class_of(text);
    let n = actions.len() as int;
    let matched = matches_of(actions, text);
    let other = matches_of(more, text);
    assert forall|i: int| 0 <= i < n implies #[trigger] matched[i] == other[i] by {
        assert(actions[i] == more[i]);
    }
    lemma_later_actions_do_not_matter(actions, more, class, matched, other, can_inject, n);
    let shown = shown_given(actions, class, matched, can_inject, n);
    assert(more[n] == action);
    assert(seq![offer] + shown.push(action_button(action)) =~= (seq![offer] + shown).push(
        action_button(action),
    ));
    let none = Seq::<ActionView>::empty();
    assert(buttons_for(none, text, can_inject, offer) =~= if class.manifest {
        seq![offer]
    } else {
        Seq::empty()
    });
}

/// A selection that an action is not for gets no button of it: one that its
/// `not_match` matches, one that its `match` does not match, and any if it is
/// switched off.
pub proof fn law_patterns_keep_actions_away(
    actions: Seq<ActionView>,
    action: ActionView,
    text: Seq<char>,
    can_inject: bool,
    offer: ButtonView,
    pattern: Seq<char>,
)
    requires
        (action.not_match == Some(pattern) && regex_matches(pattern, text)) || (action.match_re
            == Some(pattern) && !regex_matches(pattern, text)) || !action.spec.enabled,
    ensures
        buttons_for(actions.push(action), text, can_inject, offer) == buttons_for(
            actions,
            text,
            can_inject,
            offer,
        ),
{
    law_an_action_adds_its_button_if_it_applies(actions, action, text, can_inject, offer);
}

/// A button carries the id and the title of its action, its icon if it has one,
/// and its label, or the first two characters of the title where it has none.
/// The button of the offer installs.
pub proof fn law_buttons_show_their_action(action: ActionView, title: Seq<char>, label: Seq<char>)
    ensures
        action_button(action).id == action.spec.id,
        action_button(action).title == action.spec.title,
        action.spec.icon matches Some(icon) ==> action_button(action).icon == icon,
        action.spec.icon is None ==> action_button(action).icon.len() == 0,
        action.spec.label matches Some(label) ==> action_button(action).label == label,
        action.spec.label is None && action.spec.title.len() >= 2 ==> action_button(action).label
            == seq![action.spec.title[0], action.spec.title[1]],
        action.spec.label is None && action.spec.title.len() < 2 ==> action_button(action).label
            == action.spec.title,
        offer_button(title, label).id == "grabit.install"@,
        offer_button(title, label).title == title,
        offer_button(title, label).label == label,
        offer_button(title, label).icon == "document-save-symbolic"@,
{
    if action.spec.title.len() >= 2 {
        assert(action.spec.title.take(2) =~= seq![action.spec.title[0], action.spec.title[1]]);
    }
}

/// A search for an id finds the first action that has it.
proof fn lemma_action_search(actions: Seq<ActionView>, id: Seq<char>, from: int, i: int)
    requires
        0 <= from <= i <= actions.len(),
        forall|k: int| from <= k < i ==> (#[trigger] actions[k]).spec.id != id,
        i < actions.len() ==> actions[i].spec.id == id,
    ensures
        action_from_position(actions, id, from) == (if i < actions.len() {
            Some(actions[i])
        } else {
            None
        }),
    decreases i - from,
{
    if from < i {
        assert(actions[from].spec.id != id);
        lemma_action_search(actions, id, from + 1, i);
    }
}

/// Invoking an id means the first action that has it. A builtin is carried out
/// on the whole selection. Any other action is run on the selection as it was
/// grabbed, with the classification of that selection and the options of that
/// action. The reserved id installs the selection, and an id that no action has
/// is unknown.
pub proof fn law_invoking_means_the_action_of_that_id(
    actions: Seq<ActionView>,
    id: Seq<char>,
    i: int,
    grab: GrabView,
    can_inject: bool,
)
    requires
        0 <= i <= actions.len(),
        forall|k: int| 0 <= k < i ==> (#[trigger] actions[k]).spec.id != id,
        i < actions.len() ==> actions[i].spec.id == id,
    ensures
        id == "grabit.install"@ ==> job_for(actions, id, grab, can_inject) == JobView::Install(
            grab.text,
        ),
        id != "grabit.install"@ && i == actions.len() ==> job_for(actions, id, grab, can_inject)
            == JobView::Unknown,
        id != "grabit.install"@ && i < actions.len() ==> ({
            let action = actions[i];
            match action.spec.builtin {
                Some(builtin) => job_for(actions, id, grab, can_inject) == (JobView::Builtin {
                    title: action.spec.title,
                    effects: builtin_effects(builtin, grab.text, can_inject),
                }),
                None => job_for(actions, id, grab, can_inject) == (JobView::Run {
                    id,
                    title: action.spec.title,
                    after: action.spec.after,
                    step: running(
                        action,
                        ExpansionView {
                            grab,
                            class: full_class_of(grab.text),
                            options: action.spec.options,
                        },
                        match grab.html {
                            Some(html) => markdown_of(html),
                            None => None,
                        },
                    ),
                }),
            }
        }),
{
    lemma_action_search(actions, id, 0, i);
}

/// Cutting puts the whole selection on the clipboard, then deletes it; pasting
/// is one keystroke. Where the session cannot send keystrokes, the user is told,
/// and a cut has still copied.
pub proof fn law_builtins_cut_and_paste(text: Seq<char>)
    ensures
        ({
            let cut = builtin_effects(Builtin::Cut, text, true);
            cut.len() == 2 && cut[0] == EffectView::SetClipboard(text) && cut[1]
                == EffectView::Delete("the selection was copied but could not be deleted"@)
        }),
        ({
            let cut = builtin_effects(Builtin::Cut, text, false);
            cut.len() == 2 && cut[0] == EffectView::SetClipboard(text) && cut[1]
                == EffectView::Fail(
                "the selection was copied but could not be deleted: this session cannot synthesise keystrokes"@,
            )
        }),
        ({
            let paste = builtin_effects(Builtin::Paste, text, true);
            paste.len() == 1 && paste[0] == EffectView::Paste("pasting the clipboard"@)
        }),
        ({
            let paste = builtin_effects(Builtin::Paste, text, false);
            paste.len() == 1 && paste[0] == EffectView::Fail(
                "pasting the clipboard: this session cannot synthesise keystrokes"@,
            )
        }),
{
}

/// An outcome is carried out as it is named: nothing, the clipboard, a paste of
/// the clipboard once the application had forty milliseconds to see it, or the
/// bar, under the title of the action.
pub proof fn law_outcomes_are_carried_out(title: Seq<char>, text: Seq<char>, can_inject: bool)
    ensures
        outcome_effects(title, OutcomeView::Nothing, can_inject).len() == 0,
        outcome_effects(title, OutcomeView::Clipboard(text), can_inject) == seq![
            EffectView::SetClipboard(text),
        ],
        outcome_effects(title, OutcomeView::Show(text), can_inject) == seq![
            EffectView::Present { title, body: text },
        ],
        outcome_effects(title, OutcomeView::Replace(text), true) == seq![
            EffectView::SetClipboard(text),
            EffectView::Pause(40),
            EffectView::Paste("pasting the replacement text"@),
        ],
        outcome_effects(title, OutcomeView::Replace(text), false) == seq![
            EffectView::SetClipboard(text),
            EffectView::Fail(
                "this session cannot synthesise keystrokes, so the replacement text was put on the clipboard but not pasted"@,
            ),
        ],
{
}

/// Loading anew replaces the settings and the actions, counts them, and leaves
/// what keystrokes can be sent.
pub proof fn law_loading_anew_replaces_the_actions(state: EngineView, loaded: LoadedView)
    ensures
        reloaded(state, loaded).0.loaded.actions == loaded.actions,
        reloaded(state, loaded).0.loaded.config == loaded.config,
        reloaded(state, loaded).0.can_inject == state.can_inject,
        reloaded(state, loaded).1 == loaded.actions.len(),
{
}

/// The mode of an action is that of the first with its id; where there is none,
/// there is no mode.
pub proof fn law_the_mode_is_that_of_the_action(state: EngineView, id: Seq<char>, i: int)
    requires
        0 <= i <= state.loaded.actions.len(),
        forall|k: int| 0 <= k < i ==> (#[trigger] state.loaded.actions[k]).spec.id != id,
        i < state.loaded.actions.len() ==> state.loaded.actions[i].spec.id == id,
    ensures
        i == state.loaded.actions.len() ==> mode_of(state, id) is None,
        i < state.loaded.actions.len() ==> mode_of(state, id) == Some(
            state.loaded.actions[i].spec.after,
        ),
{
    lemma_action_search(state.loaded.actions, id, 0, i);
}

} // verus!
