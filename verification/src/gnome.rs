//! The GNOME front-end: what passes between the daemon and the shell extension.
//!
//! On GNOME the shell extension owns both ends: it watches the selection, draws
//! the bar and synthesises keystrokes, while the daemon stays the single source
//! of truth for which actions exist and what they do.

use vstd::prelude::*;

use crate::config::{Applications, Selection};
use crate::control::Command;
use crate::engine::{Button, Engine, Feedback, Offer};
use crate::selection::{is_interesting, Grab, Raw, Settled};
#[allow(unused_imports)]
use crate::{
    config::excluded,
    engine::{button_views, buttons_for, offer_button, ButtonView, EngineView},
    selection::{interesting, no_grab, plain_grab, GrabView, RawView, SettledView},
};

verus! {

/// The name of the shell extension on the session bus.
pub const SHELL_BUS_NAME: &'static str = "org.grabit.Shell";

/// The path of its object.
pub const SHELL_OBJECT_PATH: &'static str = "/org/grabit/Shell";

/// Its interface.
pub const SHELL_INTERFACE: &'static str = "org.grabit.Shell1";

/// Whether the shell extension is loaded and listening.
pub open spec fn available(answer: Option<bool>) -> bool {
    answer == Some(true)
}

/// The protocol version of the extension.
pub open spec fn spoken_version(property: Option<u32>) -> u32 {
    match property {
        Some(version) => version,
        None => 1,
    }
}

/// Whether the shell extension is loaded and listening, given whether the bus
/// said that its name has an owner. A bus that could not be asked did not say.
pub fn is_available(answer: Option<bool>) -> (r: bool)
    ensures
        r == (answer == Some(true)),
        r == available(answer),
{
    match answer {
        Some(present) => present,
        None => false,
    }
}

/// The protocol version of the extension, given what it says of it. Extensions
/// that predate the property speak version 1.
pub fn extension_version(property: Option<u32>) -> (r: u32)
    ensures
        r == (match property {
            Some(version) => version,
            None => 1,
        }),
        r == spoken_version(property),
{
    match property {
        Some(version) => version,
        None => 1,
    }
}

/// The signal by which the extension reports selections. Version 2 adds the
/// focused application to it.
pub open spec fn selection_signal_name(version: u32) -> Seq<char> {
    if version >= 2 {
        "SelectionChangedV2"@
    } else {
        "SelectionChanged"@
    }
}

/// The signal by which the extension reports selections.
pub fn selection_signal(version: u32) -> (r: &'static str)
    ensures
        r@ == selection_signal_name(version),
{
    if version >= 2 {
        "SelectionChangedV2"
    } else {
        "SelectionChanged"
    }
}

/// What a report of the extension amounts to. A selection in an excluded
/// application must also take an existing bar down, so it counts as cleared.
/// The shell is the only source of these events and delivers them in order, so
/// they all have one generation.
pub open spec fn relayed(
    text: Seq<char>,
    app: Option<Seq<char>>,
    exclude: Seq<Seq<char>>,
) -> RawView {
    if text.len() == 0 || (match app {
        Some(app) => app.len() > 0 && excluded(exclude, app),
        None => false,
    }) {
        RawView::Cleared
    } else {
        RawView::Selection { generation: 1, grab: plain_grab(text) }
    }
}

/// Turns a report that names the focused application into an event.
pub fn relay_from(text: &str, app: &str, applications: &Applications) -> (r: Raw)
    ensures
        r@ == relayed(text@, Some(app@), applications@),
{
    if text.is_empty() || (!app.is_empty() && applications.is_excluded(app)) {
        Raw::Cleared
    } else {
        Raw::Selection { generation: 1, grab: Grab::text(text) }
    }
}

/// Turns a report that names no application into an event.
pub fn relay(text: &str) -> (r: Raw)
    ensures
        forall|exclude: Seq<Seq<char>>| r@ == #[trigger] relayed(text@, None, exclude),
{
    if text.is_empty() {
        Raw::Cleared
    } else {
        Raw::Selection { generation: 1, grab: Grab::text(text) }
    }
}

// ---------------------------------------------------------------------------
// The session
// ---------------------------------------------------------------------------

/// Something that happened.
#[derive(Debug)]
pub enum Event {
    /// A selection settled.
    Selection(Settled),
    /// A button was pressed.
    Action(String),
    /// An action produced something to present.
    Feedback(Feedback),
    /// The user asked something of the daemon.
    Command(Command),
    /// The current selection was read, as asked for.
    Primary(String),
}

/// An event in specifications.
pub enum EventView {
    Selection(SettledView),
    Action(Seq<char>),
    Feedback { title: Seq<char>, body: Seq<char> },
    Command(Command),
    Primary(Seq<char>),
}

impl View for Event {
    type V = EventView;

    open spec fn view(&self) -> EventView {
        match self {
            Event::Selection(settled) => EventView::Selection(settled@),
            Event::Action(id) => EventView::Action(id@),
            Event::Feedback(Feedback::Result { title, body }) => EventView::Feedback {
                title: title@,
                body: body@,
            },
            Event::Command(command) => EventView::Command(*command),
            Event::Primary(text) => EventView::Primary(text@),
        }
    }
}

/// What to do about an event.
#[derive(Debug)]
pub enum Deed {
    /// Nothing.
    Nothing,
    /// Ask the extension to show a bar.
    ShowPopup(Vec<Button>),
    /// Ask the extension to take the bar down.
    HidePopup,
    /// Invoke an action against a selection.
    Invoke { id: String, grab: Grab },
    /// Ask the extension to show a result.
    ShowResult { title: String, body: String },
    /// Leave a result in the log.
    LogResult { title: String, body: String },
    /// Read the current selection.
    ReadPrimary,
    /// Load the configuration anew.
    Reload,
    /// Ask the extension to take the bar down, and stop.
    Quit,
}

/// A deed in specifications.
pub enum DeedView {
    Nothing,
    ShowPopup(Seq<ButtonView>),
    HidePopup,
    Invoke { id: Seq<char>, grab: GrabView },
    ShowResult { title: Seq<char>, body: Seq<char> },
    LogResult { title: Seq<char>, body: Seq<char> },
    ReadPrimary,
    Reload,
    Quit,
}

impl View for Deed {
    type V = DeedView;

    open spec fn view(&self) -> DeedView {
        match self {
            Deed::Nothing => DeedView::Nothing,
            Deed::ShowPopup(buttons) => DeedView::ShowPopup(button_views(buttons@)),
            Deed::HidePopup => DeedView::HidePopup,
            Deed::Invoke { id, grab } => DeedView::Invoke { id: id@, grab: grab@ },
            Deed::ShowResult { title, body } => DeedView::ShowResult {
                title: title@,
                body: body@,
            },
            Deed::LogResult { title, body } => DeedView::LogResult {
                title: title@,
                body: body@,
            },
            Deed::ReadPrimary => DeedView::ReadPrimary,
            Deed::Reload => DeedView::Reload,
            Deed::Quit => DeedView::Quit,
        }
    }
}

/// The daemon's end of a session with the extension.
#[derive(Debug)]
pub struct Session {
    /// The selection the visible bar acts on.
    showing: Grab,
    /// The protocol version of the extension.
    version: u32,
}

/// A session in specifications.
pub struct SessionView {
    pub showing: GrabView,
    pub version: u32,
}

impl View for Session {
    type V = SessionView;

    closed spec fn view(&self) -> SessionView {
        SessionView { showing: self.showing@, version: self.version }
    }
}

/// The text that an event wants a bar for.
pub open spec fn subject(event: EventView) -> Option<Seq<char>> {
    match event {
        EventView::Selection(SettledView::Text(grab)) => Some(grab.text),
        EventView::Primary(text) => Some(text),
        _ => None,
    }
}

/// What an event leads to, given the buttons for its text. A settled selection
/// to which no action applies shows nothing. An asked for bar is shown even
/// when it is empty. A version 1 extension has no result view.
pub open spec fn handled(
    state: SessionView,
    event: EventView,
    limits: Selection,
    buttons: Seq<ButtonView>,
) -> (SessionView, DeedView) {
    match event {
        EventView::Selection(SettledView::Text(grab)) => if buttons.len() == 0 {
            (state, DeedView::Nothing)
        } else {
            (SessionView { showing: grab, ..state }, DeedView::ShowPopup(buttons))
        },
        EventView::Selection(SettledView::Cleared) => (
            SessionView { showing: no_grab(), ..state },
            DeedView::HidePopup,
        ),
        EventView::Action(id) => (
            SessionView { showing: no_grab(), ..state },
            DeedView::Invoke { id, grab: state.showing },
        ),
        EventView::Feedback { title, body } => (
            state,
            if state.version >= 2 {
                DeedView::ShowResult { title, body }
            } else {
                DeedView::LogResult { title, body }
            },
        ),
        EventView::Command(Command::Show) => (state, DeedView::ReadPrimary),
        EventView::Command(Command::Hide) => (state, DeedView::HidePopup),
        EventView::Command(Command::Reload) => (state, DeedView::Reload),
        EventView::Command(Command::Quit) => (state, DeedView::Quit),
        EventView::Primary(text) => if interesting(text, limits) {
            (SessionView { showing: plain_grab(text), ..state }, DeedView::ShowPopup(buttons))
        } else {
            (state, DeedView::Nothing)
        },
    }
}

/// What an event leads to, given the engine and the button that offers to
/// install the selection.
pub open spec fn answered(
    state: SessionView,
    event: EventView,
    engine: EngineView,
    offer: ButtonView,
) -> (SessionView, DeedView) {
    handled(
        state,
        event,
        engine.loaded.config.selection,
        match subject(event) {
            Some(text) => buttons_for(engine.loaded.actions, text, engine.can_inject, offer),
            None => Seq::empty(),
        },
    )
}

/// A session that was told of nothing yet.
pub open spec fn fresh_session(version: u32) -> SessionView {
    SessionView { showing: no_grab(), version }
}

impl Session {
    /// A session with an extension of a protocol version.
    pub fn new(version: u32) -> (r: Self)
        ensures
            r@ == (SessionView { showing: no_grab(), version }),
            r@ == fresh_session(version),
    {
        Session { showing: Grab::default(), version }
    }

    /// Takes note of an event, given the buttons for its text, and says what to
    /// do about it.
    pub fn handle_with(&mut self, event: Event, limits: &Selection, buttons: Vec<Button>) -> (r:
        Deed)
        ensures
            (final(self)@, r@) == handled(old(self)@, event@, *limits, button_views(buttons@)),
    {
        match event {
            Event::Selection(Settled::Text(grab)) => {
                if buttons.len() == 0 {
                    Deed::Nothing
                } else {
                    self.showing = grab;
                    Deed::ShowPopup(buttons)
                }
            },
            Event::Selection(Settled::Cleared) => {
                self.showing = Grab::default();
                Deed::HidePopup
            },
            Event::Action(id) => {
                let grab = self.showing.clone();
                self.showing = Grab::default();
                Deed::Invoke { id, grab }
            },
            Event::Feedback(Feedback::Result { title, body }) => {
                if self.version >= 2 {
                    Deed::ShowResult { title, body }
                } else {
                    Deed::LogResult { title, body }
                }
            },
            Event::Command(command) => match command {
                Command::Show => Deed::ReadPrimary,
                Command::Hide => Deed::HidePopup,
                Command::Reload => Deed::Reload,
                Command::Quit => Deed::Quit,
            },
            Event::Primary(text) => {
                if is_interesting(text.as_str(), limits) {
                    self.showing = Grab::text(text.as_str());
                    Deed::ShowPopup(buttons)
                } else {
                    Deed::Nothing
                }
            },
        }
    }

    /// Takes note of an event and says what to do about it.
    pub fn handle(&mut self, event: Event, engine: &Engine, offer: &Offer) -> (r: Deed)
        ensures
            (final(self)@, r@) == handled(
                old(self)@,
                event@,
                engine@.loaded.config.selection,
                match subject(event@) {
                    Some(text) => buttons_for(
                        engine@.loaded.actions,
                        text,
                        engine@.can_inject,
                        offer_button(offer.title@, offer.label@),
                    ),
                    None => Seq::empty(),
                },
            ),
            (final(self)@, r@) == answered(
                old(self)@,
                event@,
                engine@,
                offer_button(offer.title@, offer.label@),
            ),
    {
        let buttons = match &event {
            Event::Selection(Settled::Text(grab)) => engine.buttons(grab.text.as_str(), offer),
            Event::Primary(text) => engine.buttons(text.as_str(), offer),
            _ => Vec::new(),
        };
        let config = engine.config();
        self.handle_with(event, &config.selection, buttons)
    }
}

// ---------------------------------------------------------------------------
// What the front-end promises
// ---------------------------------------------------------------------------

/// A selection in an excluded application never reaches the bar: it is reported
/// as cleared, which takes the bar down and forgets what it acted on.
pub proof fn law_excluded_selections_clear_the_bar(
    text: Seq<char>,
    app: Seq<char>,
    exclude: Seq<Seq<char>>,
    state: SessionView,
    limits: Selection,
    buttons: Seq<ButtonView>,
)
    requires
        app.len() > 0,
        excluded(exclude, app),
    ensures
        relayed(text, Some(app), exclude) == RawView::Cleared,
        handled(state, EventView::Selection(SettledView::Cleared), limits, buttons) == (
            SessionView { showing: no_grab(), ..state },
            DeedView::HidePopup,
        ),
{
}

/// An action runs against the selection whose bar was shown last, and only
/// once: pressing again acts on nothing.
pub proof fn law_an_action_consumes_the_selection(
    state: SessionView,
    grab: GrabView,
    id: Seq<char>,
    again: Seq<char>,
    limits: Selection,
    buttons: Seq<ButtonView>,
)
    requires
        buttons.len() > 0,
    ensures
        ({
            let (shown, _) = handled(
                state,
                EventView::Selection(SettledView::Text(grab)),
                limits,
                buttons,
            );
            let (used, first) = handled(shown, EventView::Action(id), limits, buttons);
            let (_, second) = handled(used, EventView::Action(again), limits, buttons);
            &&& first == DeedView::Invoke { id, grab }
            &&& second == DeedView::Invoke { id: again, grab: no_grab() }
        }),
{
}

/// The extension is found on the session bus under its own name, and is there
/// only where the bus said so.
pub proof fn law_the_extension_is_asked_for_by_name(answer: Option<bool>)
    ensures
        SHELL_BUS_NAME@ == "org.grabit.Shell"@,
        SHELL_OBJECT_PATH@ == "/org/grabit/Shell"@,
        SHELL_INTERFACE@ == "org.grabit.Shell1"@,
        answer is None ==> !available(answer),
        answer matches Some(owned) ==> available(answer) == owned,
{
}

/// An extension speaks the version that it says, and the first one where it says
/// none. From the second version on its reports name the application.
pub proof fn law_versions_speak_their_own_signal(property: Option<u32>)
    ensures
        property matches Some(version) ==> spoken_version(property) == version,
        property is None ==> selection_signal_name(spoken_version(property))
            == "SelectionChanged"@,
        selection_signal_name(0) == "SelectionChanged"@,
        selection_signal_name(1) == "SelectionChanged"@,
        property matches Some(version) && version >= 2 ==> selection_signal_name(
            spoken_version(property),
        ) == "SelectionChangedV2"@,
{
}

/// A report counts as cleared exactly where nothing is selected or the
/// application is excluded; an application without a name never is. Any other
/// is a selection of just that text, and all of them are of one generation.
pub proof fn law_reports_are_selections_or_clear(
    text: Seq<char>,
    app: Option<Seq<char>>,
    exclude: Seq<Seq<char>>,
)
    ensures
        text.len() == 0 ==> relayed(text, app, exclude) is Cleared,
        text.len() > 0 && (app matches Some(name) && name.len() > 0 && excluded(exclude, name))
            ==> relayed(text, app, exclude) is Cleared,
        text.len() > 0 && !(app matches Some(name) && name.len() > 0 && excluded(exclude, name))
            ==> (relayed(text, app, exclude) matches RawView::Selection { generation, grab }
            && generation == 1 && grab.text == text && grab.html is None),
{
}

/// A settled selection puts up a bar with the buttons for its text, which then
/// acts on it, HTML included. Where no action applies, all stays as it is.
pub proof fn law_a_settled_selection_gets_its_bar(
    state: SessionView,
    grab: GrabView,
    engine: EngineView,
    offer: ButtonView,
)
    ensures
        ({
            let buttons = buttons_for(
                engine.loaded.actions,
                grab.text,
                engine.can_inject,
                offer,
            );
            let (after, deed) = answered(
                state,
                EventView::Selection(SettledView::Text(grab)),
                engine,
                offer,
            );
            &&& after.version == state.version
            &&& buttons.len() == 0 ==> after.showing == state.showing && deed is Nothing
            &&& buttons.len() > 0 ==> after.showing == grab && deed == DeedView::ShowPopup(
                buttons,
            )
        }),
{
}

/// Asking for a bar has the selection read. A selection that is worth it then
/// gets its bar, an empty one where no action applies; any other changes
/// nothing.
pub proof fn law_a_bar_can_be_asked_for(
    state: SessionView,
    text: Seq<char>,
    engine: EngineView,
    offer: ButtonView,
)
    ensures
        answered(state, EventView::Command(Command::Show), engine, offer) == (
            state,
            DeedView::ReadPrimary,
        ),
        ({
            let (after, deed) = answered(state, EventView::Primary(text), engine, offer);
            &&& after.version == state.version
            &&& interesting(text, engine.loaded.config.selection) ==> after.showing.text == text
                && after.showing.html is None && deed == DeedView::ShowPopup(
                buttons_for(engine.loaded.actions, text, engine.can_inject, offer),
            )
            &&& !interesting(text, engine.loaded.config.selection) ==> after == state
                && deed is Nothing
        }),
{
}

/// A selection that is gone takes the bar down, and so does the user; only in
/// the first case is there nothing left to act on.
pub proof fn law_the_bar_comes_down(state: SessionView, engine: EngineView, offer: ButtonView)
    ensures
        ({
            let (after, deed) = answered(
                state,
                EventView::Selection(SettledView::Cleared),
                engine,
                offer,
            );
            &&& deed is HidePopup
            &&& after.showing.text.len() == 0
            &&& after.showing.html is None
            &&& after.version == state.version
        }),
        answered(state, EventView::Command(Command::Hide), engine, offer) == (
            state,
            DeedView::HidePopup,
        ),
        answered(state, EventView::Command(Command::Reload), engine, offer) == (
            state,
            DeedView::Reload,
        ),
        answered(state, EventView::Command(Command::Quit), engine, offer) == (
            state,
            DeedView::Quit,
        ),
{
}

/// A pressed button invokes its action against what the bar was for, as it was
/// grabbed, and a new session has nothing to act on.
pub proof fn law_a_pressed_button_invokes_its_action(
    state: SessionView,
    id: Seq<char>,
    engine: EngineView,
    offer: ButtonView,
    version: u32,
)
    ensures
        ({
            let (after, deed) = answered(state, EventView::Action(id), engine, offer);
            &&& deed == DeedView::Invoke { id, grab: state.showing }
            &&& after.showing.text.len() == 0
            &&& after.showing.html is None
            &&& after.version == state.version
        }),
        fresh_session(version).showing.text.len() == 0,
        fresh_session(version).showing.html is None,
        fresh_session(version).version == version,
{
}

/// A result is shown by an extension that can, title and body as they are, and
/// is logged otherwise.
pub proof fn law_results_are_shown_from_the_second_version_on(
    state: SessionView,
    title: Seq<char>,
    body: Seq<char>,
    engine: EngineView,
    offer: ButtonView,
)
    ensures
        ({
            let (after, deed) = answered(
                state,
                EventView::Feedback { title, body },
                engine,
                offer,
            );
            &&& after == state
            &&& state.version < 2 ==> deed == DeedView::LogResult { title, body }
            &&& state.version >= 2 ==> deed == DeedView::ShowResult { title, body }
        }),
{
}

} // verus!
