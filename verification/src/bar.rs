//! The life of the bar on compositors with layer-shell.
//!
//! Three surfaces are at work. One pixel that is always there, so the process
//! never owns none; a full-screen, transparent hunter that waits to be told
//! where the pointer is; and the bar itself, which takes the hunter's place.
//! This module decides when each comes and goes, which buttons are visible, and
//! what a gesture means. Where on the screen the bar goes is not its business.

use vstd::prelude::*;

use crate::config::{After, Popup};
use crate::control::Command;
use crate::engine::{Button, Engine, Feedback, Offer};
use crate::selection::{is_interesting, Grab, Settled};
#[allow(unused_imports)]
use crate::{
    config::excluded,
    engine::{ButtonView, EngineView, action_named, button_views, buttons_for, offer_button},
    selection::{GrabView, SettledView, interesting, no_grab, plain_grab},
};

verus! {

/// How long the hunter waits to be told where the pointer is, in milliseconds.
pub const HUNT_WINDOW_MS: u64 = 4000;

/// How many frames the entrance animation has.
pub const ANIM_STEPS: u8 = 6;

/// How long one frame of it lasts, in milliseconds.
pub const ANIM_FRAME_MS: u64 = 16;

/// A keyboard-navigation gesture on the bar.
#[derive(Debug, Clone, Copy, PartialEq, Eq, Structural)]
pub enum Nav {
    Next,
    Prev,
    Activate,
    Dismiss,
}

/// A key that may mean a gesture.
#[derive(Debug, Clone, Copy, PartialEq, Eq, Structural)]
pub enum Key {
    ArrowRight,
    ArrowDown,
    ArrowLeft,
    ArrowUp,
    Enter,
    Escape,
    Tab,
    Other,
}

/// The gesture that a key means.
pub open spec fn gesture(key: Key) -> Option<Nav> {
    match key {
        Key::ArrowRight | Key::ArrowDown | Key::Tab => Some(Nav::Next),
        Key::ArrowLeft | Key::ArrowUp => Some(Nav::Prev),
        Key::Enter => Some(Nav::Activate),
        Key::Escape => Some(Nav::Dismiss),
        Key::Other => None,
    }
}

/// The gesture that a key means.
pub fn nav_of(key: Key) -> (r: Option<Nav>)
    ensures
        r == gesture(key),
        r == (match key {
            Key::ArrowRight | Key::ArrowDown | Key::Tab => Some(Nav::Next),
            Key::ArrowLeft | Key::ArrowUp => Some(Nav::Prev),
            Key::Enter => Some(Nav::Activate),
            Key::Escape => Some(Nav::Dismiss),
            Key::Other => None,
        }),
{
    match key {
        Key::ArrowRight | Key::ArrowDown | Key::Tab => Some(Nav::Next),
        Key::ArrowLeft | Key::ArrowUp => Some(Nav::Prev),
        Key::Enter => Some(Nav::Activate),
        Key::Escape => Some(Nav::Dismiss),
        Key::Other => None,
    }
}

/// A timer. Each carries the epoch it was armed in.
#[derive(Debug, Clone, Copy, PartialEq, Eq, Structural)]
pub enum Timer {
    /// The hunter has waited long enough.
    Hunt(u64),
    /// This frame of the entrance animation is due.
    Anim(u64, u8),
    /// The bar has been up long enough.
    Expired(u64),
    /// The pointer has been gone long enough.
    Dismiss(u64),
}

/// Something that happened.
#[derive(Debug, PartialEq, Eq)]
pub enum Message {
    /// A selection settled, or went away.
    Selection(Settled),
    /// The primary selection, asked for by the manual trigger.
    Primary(String),
    /// The pointer moved over this surface.
    Pointer(u64),
    /// This surface was mapped or changed its size.
    Sized(u64),
    /// The pointer entered or left this surface.
    Hover(u64, bool),
    /// This action was picked.
    Invoke(String),
    /// Flip to another page of actions; the offset is one either way.
    Page(i32),
    /// A keyboard gesture.
    Key(Nav),
    /// An action produced its result.
    EngineFeedback(Feedback),
    /// Put the shown result on the clipboard and close.
    CopyResult,
    /// A request from outside.
    Control(Command),
    /// A timer went off.
    Timer(Timer),
}

/// Something that happened, in specifications.
pub enum MessageView {
    Selection(SettledView),
    Primary(Seq<char>),
    Pointer(u64),
    Sized(u64),
    Hover(u64, bool),
    Invoke(Seq<char>),
    Page(i32),
    Key(Nav),
    EngineFeedback { title: Seq<char>, body: Seq<char> },
    CopyResult,
    Control(Command),
    Timer(Timer),
}

impl View for Message {
    type V = MessageView;

    open spec fn view(&self) -> MessageView {
        match self {
            Message::Selection(settled) => MessageView::Selection(settled@),
            Message::Primary(text) => MessageView::Primary(text@),
            Message::Pointer(id) => MessageView::Pointer(*id),
            Message::Sized(id) => MessageView::Sized(*id),
            Message::Hover(id, inside) => MessageView::Hover(*id, *inside),
            Message::Invoke(id) => MessageView::Invoke(id@),
            Message::Page(offset) => MessageView::Page(*offset),
            Message::Key(nav) => MessageView::Key(*nav),
            Message::EngineFeedback(Feedback::Result { title, body }) => {
                MessageView::EngineFeedback { title: title@, body: body@ }
            },
            Message::CopyResult => MessageView::CopyResult,
            Message::Control(command) => MessageView::Control(*command),
            Message::Timer(timer) => MessageView::Timer(*timer),
        }
    }
}

/// What to do, one after the other.
#[derive(Debug, PartialEq, Eq)]
pub enum Task {
    /// Destroy this surface.
    Destroy(u64),
    /// Forget the size of the bar.
    ForgetSize,
    /// Open the hunter under this id.
    OpenHunter(u64),
    /// Remember where the pointer is: the bar belongs there.
    KeepAnchor,
    /// Open the bar under this id, with or without the keyboard, where it
    /// belongs at this frame of its entrance.
    OpenBar { id: u64, keyboard: bool, frame: u8 },
    /// The size just reported is that of the output.
    KeepOutput,
    /// The size just reported is that of the bar.
    KeepSize,
    /// Move the bar to where it belongs at this frame of its entrance.
    Place { id: u64, frame: u8 },
    /// Set this timer off after so many milliseconds.
    Arm { after_ms: u64, timer: Timer },
    /// Invoke this action on this selection.
    Invoke { action: String, grab: Grab },
    /// Put this on the clipboard.
    Copy(String),
    /// Read the primary selection and report it.
    ReadPrimary,
    /// Re-read the configuration.
    Reload,
    /// Stop.
    Exit,
}

/// What to do, in specifications.
pub enum TaskView {
    Destroy(u64),
    ForgetSize,
    OpenHunter(u64),
    KeepAnchor,
    OpenBar { id: u64, keyboard: bool, frame: u8 },
    KeepOutput,
    KeepSize,
    Place { id: u64, frame: u8 },
    Arm { after_ms: u64, timer: Timer },
    Invoke { action: Seq<char>, grab: GrabView },
    Copy(Seq<char>),
    ReadPrimary,
    Reload,
    Exit,
}

impl View for Task {
    type V = TaskView;

    open spec fn view(&self) -> TaskView {
        match self {
            Task::Destroy(id) => TaskView::Destroy(*id),
            Task::ForgetSize => TaskView::ForgetSize,
            Task::OpenHunter(id) => TaskView::OpenHunter(*id),
            Task::KeepAnchor => TaskView::KeepAnchor,
            Task::OpenBar { id, keyboard, frame } => TaskView::OpenBar {
                id: *id,
                keyboard: *keyboard,
                frame: *frame,
            },
            Task::KeepOutput => TaskView::KeepOutput,
            Task::KeepSize => TaskView::KeepSize,
            Task::Place { id, frame } => TaskView::Place { id: *id, frame: *frame },
            Task::Arm { after_ms, timer } => TaskView::Arm { after_ms: *after_ms, timer: *timer },
            Task::Invoke { action, grab } => TaskView::Invoke { action: action@, grab: grab@ },
            Task::Copy(text) => TaskView::Copy(text@),
            Task::ReadPrimary => TaskView::ReadPrimary,
            Task::Reload => TaskView::Reload,
            Task::Exit => TaskView::Exit,
        }
    }
}

/// Several things to do, in specifications.
pub open spec fn task_views(tasks: Seq<Task>) -> Seq<TaskView> {
    tasks.map_values(|task: Task| task@)
}

// ---------------------------------------------------------------------------
// Pages
// ---------------------------------------------------------------------------

/// How many buttons a page takes. A page of none would never show anything.
pub open spec fn per_page(max_actions: usize) -> nat {
    if max_actions == 0 {
        1
    } else {
        max_actions as nat
    }
}

/// How many pages so many buttons take. There is always one.
pub open spec fn page_count(buttons: nat, per: nat) -> nat {
    let full = buttons / per;
    let all = if buttons % per == 0 {
        full
    } else {
        full + 1
    };
    if all == 0 {
        1
    } else {
        all
    }
}

/// Where a page begins. A page past the last is the last.
pub open spec fn page_start(buttons: nat, per: nat, page: nat) -> nat {
    let last = (page_count(buttons, per) - 1) as nat;
    if page < last {
        page * per
    } else {
        last * per
    }
}

/// Where a page ends.
pub open spec fn page_end(buttons: nat, per: nat, page: nat) -> nat {
    let end = page_start(buttons, per, page) + per;
    if end < buttons {
        end
    } else {
        buttons
    }
}

/// The buttons on a page.
pub open spec fn page_of(buttons: Seq<ButtonView>, per: nat, page: nat) -> Seq<ButtonView> {
    buttons.subrange(
        page_start(buttons.len(), per, page) as int,
        page_end(buttons.len(), per, page) as int,
    )
}

/// A page lies within the buttons.
pub proof fn lemma_page_bounds(buttons: nat, per: nat, page: nat)
    requires
        per > 0,
    ensures
        page_start(buttons, per, page) <= page_end(buttons, per, page) <= buttons,
        page_end(buttons, per, page) - page_start(buttons, per, page) <= per,
        buttons > 0 ==> page_start(buttons, per, page) < page_end(buttons, per, page),
        (page_count(buttons, per) - 1) * per <= buttons,
        buttons <= page_count(buttons, per) * per,
        buttons > 0 ==> (page_count(buttons, per) - 1) * per < buttons,
{
    let full = buttons / per;
    let rest = buttons % per;
    let last = (page_count(buttons, per) - 1) as nat;
    vstd::arithmetic::div_mod::lemma_fundamental_div_mod(buttons as int, per as int);
    assert(buttons == per * full + rest);
    assert(0 <= rest < per) by {
        vstd::arithmetic::div_mod::lemma_mod_bound(buttons as int, per as int);
    }
    assert(per * full == full * per) by (nonlinear_arith);
    assert((full + 1) * per == full * per + per) by (nonlinear_arith);
    if full > 0 {
        assert((full - 1) * per == full * per - per) by (nonlinear_arith);
    } else {
        assert(full * per == 0) by (nonlinear_arith)
            requires
                full == 0,
        ;
    }
    assert(last * per <= buttons);
    assert(buttons <= (last + 1) * per);
    assert((last + 1) * per == last * per + per) by (nonlinear_arith);
    if page < last {
        assert(page * per + per <= last * per) by (nonlinear_arith)
            requires
                page < last,
        ;
    }
}

// ---------------------------------------------------------------------------
// The state
// ---------------------------------------------------------------------------

/// The bar, or the absence of one.
#[derive(Debug)]
pub struct Bar {
    hunter: Option<u64>,
    bar: Option<u64>,
    /// The selection the visible bar acts on.
    grab: Grab,
    buttons: Vec<Button>,
    /// Which page of actions is showing, when they do not all fit.
    page: usize,
    /// The keyboard-focused action, as an index into the visible page.
    focused: Option<usize>,
    /// Whether this bar takes keyboard focus.
    keyboard: bool,
    /// A result being shown in place of the buttons: action title and body.
    result: Option<(String, String)>,
    /// An action is running and the bar is waiting on its result.
    awaiting: bool,
    /// Progress of the entrance animation, `ANIM_STEPS` when settled.
    anim: u8,
    /// Whether the pointer has been over the bar since it appeared.
    hovered: bool,
    /// Bumped whenever the popup is torn down, so timers armed for an older
    /// popup can tell that they are stale.
    epoch: u64,
}

/// The bar in specifications.
pub struct BarView {
    pub hunter: Option<u64>,
    pub bar: Option<u64>,
    pub grab: GrabView,
    pub buttons: Seq<ButtonView>,
    pub page: usize,
    pub focused: Option<usize>,
    pub keyboard: bool,
    pub result: Option<(Seq<char>, Seq<char>)>,
    pub awaiting: bool,
    pub anim: u8,
    pub hovered: bool,
    pub epoch: u64,
}

/// A result in specifications.
pub open spec fn result_view(result: Option<(String, String)>) -> Option<(Seq<char>, Seq<char>)> {
    match result {
        Some(result) => Some((result.0@, result.1@)),
        None => None,
    }
}

impl View for Bar {
    type V = BarView;

    closed spec fn view(&self) -> BarView {
        BarView {
            hunter: self.hunter,
            bar: self.bar,
            grab: self.grab@,
            buttons: button_views(self.buttons@),
            page: self.page,
            focused: self.focused,
            keyboard: self.keyboard,
            result: result_view(self.result),
            awaiting: self.awaiting,
            anim: self.anim,
            hovered: self.hovered,
            epoch: self.epoch,
        }
    }
}

/// The bar before anything was selected.
pub open spec fn no_bar() -> BarView {
    BarView {
        hunter: None,
        bar: None,
        grab: no_grab(),
        buttons: Seq::empty(),
        page: 0,
        focused: None,
        keyboard: false,
        result: None,
        awaiting: false,
        anim: ANIM_STEPS,
        hovered: false,
        epoch: 0,
    }
}

/// The epoch after this one.
pub open spec fn next_epoch(epoch: u64) -> u64 {
    if epoch == u64::MAX {
        0
    } else {
        (epoch + 1) as u64
    }
}

/// The bar once it is torn down.
pub open spec fn torn_down(state: BarView) -> BarView {
    BarView { epoch: next_epoch(state.epoch), ..no_bar() }
}

/// What tearing the bar down takes.
pub open spec fn teardown_tasks(state: BarView) -> Seq<TaskView> {
    let hunter = match state.hunter {
        Some(id) => seq![TaskView::Destroy(id)],
        None => Seq::empty(),
    };
    let bar = match state.bar {
        Some(id) => seq![TaskView::Destroy(id)],
        None => Seq::empty(),
    };
    hunter + bar + seq![TaskView::ForgetSize]
}

/// Tearing the bar down.
pub open spec fn teardown_step(state: BarView) -> (BarView, Seq<TaskView>) {
    (torn_down(state), teardown_tasks(state))
}

/// Nothing happens.
pub open spec fn no_step(state: BarView) -> (BarView, Seq<TaskView>) {
    (state, Seq::empty())
}

/// A selection is to be shown, with the buttons that apply to it. In an
/// excluded application, or with no button, there is nothing to show.
pub open spec fn begin_step(
    state: BarView,
    grab: GrabView,
    keyboard: bool,
    in_excluded: bool,
    buttons: Seq<ButtonView>,
    fresh: u64,
) -> (BarView, Seq<TaskView>) {
    if in_excluded || buttons.len() == 0 {
        teardown_step(state)
    } else {
        (
            BarView {
                hunter: Some(fresh),
                grab,
                buttons,
                keyboard,
                focused: if keyboard {
                    Some(0)
                } else {
                    None
                },
                ..torn_down(state)
            },
            teardown_tasks(state) + seq![
                TaskView::OpenHunter(fresh),
                TaskView::Arm {
                    after_ms: HUNT_WINDOW_MS,
                    timer: Timer::Hunt(next_epoch(state.epoch)),
                },
            ],
        )
    }
}

/// A timer, unless it is to go off after no time at all.
pub open spec fn timer_tasks(after_ms: u64, timer: Timer) -> Seq<TaskView> {
    if after_ms > 0 {
        seq![TaskView::Arm { after_ms, timer }]
    } else {
        Seq::empty()
    }
}

/// The hunter learned where the pointer is: the bar takes its place.
pub open spec fn place_step(state: BarView, popup: Popup, fresh: u64) -> (BarView, Seq<TaskView>) {
    match state.hunter {
        None => no_step(state),
        Some(hunter) => (
            BarView {
                hunter: None,
                bar: Some(fresh),
                anim: if popup.animate {
                    0
                } else {
                    ANIM_STEPS
                },
                ..state
            },
            seq![
                TaskView::KeepAnchor,
                TaskView::Destroy(hunter),
                TaskView::OpenBar {
                    id: fresh,
                    keyboard: state.keyboard,
                    frame: if popup.animate {
                        0
                    } else {
                        ANIM_STEPS
                    },
                },
            ] + (if popup.animate {
                seq![
                    TaskView::Arm {
                        after_ms: ANIM_FRAME_MS,
                        timer: Timer::Anim(state.epoch, 1),
                    },
                ]
            } else {
                Seq::empty()
            }) + timer_tasks(popup.timeout_ms, Timer::Expired(state.epoch)),
        ),
    }
}

/// The buttons on the page that is showing.
pub open spec fn visible_buttons(state: BarView, per: nat) -> Seq<ButtonView> {
    page_of(state.buttons, per, state.page as nat)
}

/// Keyboard focus moves, paging past either end.
pub open spec fn navigated(state: BarView, offset: int, per: nat) -> BarView {
    let count = visible_buttons(state, per).len();
    let pages = page_count(state.buttons.len(), per);
    let current: int = match state.focused {
        Some(i) => i as int,
        None => 0,
    };
    let next = current + offset;
    if count == 0 {
        state
    } else if next < 0 {
        if state.page > 0 {
            let page = (state.page - 1) as usize;
            let before = page_of(state.buttons, per, page as nat).len();
            BarView {
                page,
                focused: Some(
                    if before == 0 {
                        0
                    } else {
                        (before - 1) as usize
                    },
                ),
                ..state
            }
        } else {
            state
        }
    } else if next >= count {
        if state.page + 1 < pages {
            BarView { page: (state.page + 1) as usize, focused: Some(0), ..state }
        } else {
            state
        }
    } else {
        BarView { focused: Some(next as usize), ..state }
    }
}

/// Another page is asked for. One that does not exist is not shown.
pub open spec fn paged(state: BarView, offset: int, per: nat) -> BarView {
    let next = state.page + offset;
    if 0 <= next < page_count(state.buttons.len(), per) {
        BarView {
            page: next as usize,
            focused: if state.focused is Some {
                Some(0)
            } else {
                None
            },
            ..state
        }
    } else {
        state
    }
}

/// An action was picked. One that shows its result keeps the bar up; for any
/// other the bar goes first, because the action may paste, and the keystroke
/// must not race the bar's own disappearance.
pub open spec fn invoke_step(state: BarView, id: Seq<char>, shows: bool) -> (
    BarView,
    Seq<TaskView>,
) {
    if shows {
        (
            BarView { awaiting: true, ..state },
            seq![TaskView::Invoke { action: id, grab: state.grab }],
        )
    } else {
        (
            torn_down(state),
            teardown_tasks(state) + seq![TaskView::Invoke { action: id, grab: state.grab }],
        )
    }
}

/// How many buttons a page takes.
fn page_size(max_actions: usize) -> (r: usize)
    ensures
        r == per_page(max_actions),
        r > 0,
{
    if max_actions == 0 {
        1
    } else {
        max_actions
    }
}

/// How many pages so many buttons take.
fn count_pages(buttons: usize, per: usize) -> (r: usize)
    requires
        per > 0,
    ensures
        r == page_count(buttons as nat, per as nat),
        r > 0,
{
    let full: usize = buttons / per;
    proof {
        vstd::arithmetic::div_mod::lemma_fundamental_div_mod(buttons as int, per as int);
        assert(full <= buttons) by (nonlinear_arith)
            requires
                buttons == per * full + buttons % per,
                per > 0,
                full >= 0,
                buttons % per >= 0,
        ;
    }
    if buttons % per == 0 {
        if full == 0 {
            1
        } else {
            full
        }
    } else {
        proof {
            assert(full < buttons) by (nonlinear_arith)
                requires
                    buttons == per * full + buttons % per,
                    per > 0,
                    full >= 0,
                    buttons % per > 0,
            ;
        }
        full + 1
    }
}

/// Where a page of buttons begins and ends.
fn page_range(buttons: usize, per: usize, page: usize) -> (r: (usize, usize))
    requires
        per > 0,
    ensures
        r.0 == page_start(buttons as nat, per as nat, page as nat),
        r.1 == page_end(buttons as nat, per as nat, page as nat),
        r.0 <= r.1 <= buttons,
{
    let pages: usize = count_pages(buttons, per);
    proof {
        lemma_page_bounds(buttons as nat, per as nat, page as nat);
    }
    let shown: usize = if page < pages - 1 {
        page
    } else {
        pages - 1
    };
    proof {
        assert(shown * per <= (pages - 1) * per) by (nonlinear_arith)
            requires
                shown <= pages - 1,
                per > 0,
        ;
    }
    let start: usize = shown * per;
    let end: usize = if per < buttons - start {
        start + per
    } else {
        buttons
    };
    (start, end)
}

/// What of an engine and the desktop the bar depends on.
pub struct World<'a> {
    pub engine: &'a Engine,
    /// The application that has the focus, as far as that is known.
    pub app: &'a Option<String>,
    /// The words on the button that offers to install the selection.
    pub offer: &'a Offer,
}

/// The same in specifications.
pub struct WorldView {
    pub engine: EngineView,
    pub app: Option<Seq<char>>,
    pub offer: ButtonView,
}

impl<'a> View for World<'a> {
    type V = WorldView;

    open spec fn view(&self) -> WorldView {
        WorldView {
            engine: self.engine@,
            app: crate::text::maybe_text(*self.app),
            offer: offer_button(self.offer.title@, self.offer.label@),
        }
    }
}

/// Whether the focused application is one the bar must never appear in.
pub open spec fn in_excluded_app(world: WorldView) -> bool {
    world.app matches Some(app) && excluded(world.engine.loaded.config.exclude, app)
}

/// The buttons for a text.
pub open spec fn world_buttons(world: WorldView, text: Seq<char>) -> Seq<ButtonView> {
    buttons_for(world.engine.loaded.actions, text, world.engine.can_inject, world.offer)
}

/// Whether an action shows its result in the bar.
pub open spec fn shows_result(world: WorldView, id: Seq<char>) -> bool {
    action_named(world.engine.loaded.actions, id) matches Some(action) && action.spec.after
        == After::Show
}

/// A gesture on the bar.
pub open spec fn key_step(state: BarView, nav: Nav, world: WorldView) -> (BarView, Seq<TaskView>) {
    let per = per_page(world.engine.loaded.config.popup.max_actions);
    let visible = visible_buttons(state, per);
    if state.bar is None {
        no_step(state)
    } else {
        match nav {
            Nav::Next => no_step(navigated(state, 1, per)),
            Nav::Prev => no_step(navigated(state, -1, per)),
            Nav::Activate => if state.result is Some {
                teardown_step(state)
            } else {
                match state.focused {
                    Some(i) => if i < visible.len() {
                        invoke_step(
                            state,
                            visible[i as int].id,
                            shows_result(world, visible[i as int].id),
                        )
                    } else {
                        no_step(state)
                    },
                    None => no_step(state),
                }
            },
            Nav::Dismiss => teardown_step(state),
        }
    }
}

/// A timer went off. One that was armed for an older popup is stale.
pub open spec fn timer_step(state: BarView, timer: Timer) -> (BarView, Seq<TaskView>) {
    match timer {
        Timer::Hunt(epoch) => if epoch != state.epoch || state.hunter is None {
            no_step(state)
        } else {
            teardown_step(state)
        },
        Timer::Expired(epoch) | Timer::Dismiss(epoch) => if epoch != state.epoch {
            no_step(state)
        } else {
            teardown_step(state)
        },
        Timer::Anim(epoch, step) => match state.bar {
            Some(id) => if epoch != state.epoch {
                no_step(state)
            } else {
                let frame = if step < ANIM_STEPS {
                    step
                } else {
                    ANIM_STEPS
                };
                (
                    BarView { anim: frame, ..state },
                    seq![TaskView::Place { id, frame }] + (if step < ANIM_STEPS {
                        seq![
                            TaskView::Arm {
                                after_ms: ANIM_FRAME_MS,
                                timer: Timer::Anim(epoch, (step + 1) as u8),
                            },
                        ]
                    } else {
                        Seq::empty()
                    }),
                )
            },
            None => no_step(state),
        },
    }
}

/// A request from outside.
pub open spec fn control_step(state: BarView, command: Command) -> (BarView, Seq<TaskView>) {
    match command {
        Command::Show => (state, seq![TaskView::ReadPrimary]),
        Command::Hide => teardown_step(state),
        Command::Reload => (state, seq![TaskView::Reload]),
        Command::Quit => (torn_down(state), teardown_tasks(state) + seq![TaskView::Exit]),
    }
}

/// What happens to the bar.
pub open spec fn update_step(
    state: BarView,
    message: MessageView,
    world: WorldView,
    fresh: u64,
) -> (BarView, Seq<TaskView>) {
    let popup = world.engine.loaded.config.popup;
    let per = per_page(popup.max_actions);
    match message {
        MessageView::Selection(SettledView::Text(grab)) => begin_step(
            state,
            grab,
            false,
            in_excluded_app(world),
            world_buttons(world, grab.text),
            fresh,
        ),
        MessageView::Selection(SettledView::Cleared) => teardown_step(state),
        MessageView::Primary(text) => if interesting(text, world.engine.loaded.config.selection) {
            begin_step(
                state,
                plain_grab(text),
                true,
                in_excluded_app(world),
                world_buttons(world, text),
                fresh,
            )
        } else {
            no_step(state)
        },
        MessageView::Pointer(id) => if state.hunter == Some(id) {
            place_step(state, popup, fresh)
        } else {
            no_step(state)
        },
        MessageView::Sized(id) => if state.hunter == Some(id) {
            (state, seq![TaskView::KeepOutput])
        } else if state.bar == Some(id) {
            (state, seq![TaskView::KeepSize, TaskView::Place { id, frame: state.anim }])
        } else {
            no_step(state)
        },
        MessageView::Hover(id, inside) => if state.bar != Some(id) {
            no_step(state)
        } else if inside {
            no_step(BarView { hovered: true, ..state })
        } else if state.hovered {
            (state, timer_tasks(popup.dismiss_ms, Timer::Dismiss(state.epoch)))
        } else {
            no_step(state)
        },
        MessageView::Invoke(id) => invoke_step(state, id, shows_result(world, id)),
        MessageView::Page(offset) => no_step(paged(state, offset as int, per)),
        MessageView::Key(nav) => key_step(state, nav, world),
        MessageView::EngineFeedback { title, body } => if state.bar is None {
            no_step(state)
        } else {
            (
                BarView { awaiting: false, result: Some((title, body)), ..state },
                timer_tasks(popup.timeout_ms, Timer::Expired(state.epoch)),
            )
        },
        MessageView::CopyResult => (
            torn_down(state),
            (match state.result {
                Some(result) => seq![TaskView::Copy(result.1)],
                None => Seq::empty(),
            }) + teardown_tasks(state),
        ),
        MessageView::Control(command) => control_step(state, command),
        MessageView::Timer(timer) => timer_step(state, timer),
    }
}

/// Whether a result is as a specification says.
pub open spec fn is_bar_step(
    state: BarView,
    tasks: Seq<Task>,
    expected: (BarView, Seq<TaskView>),
) -> bool {
    state == expected.0 && task_views(tasks) == expected.1
}

/// A list with one thing to do.
fn one(task: Task) -> (r: Vec<Task>)
    ensures
        task_views(r@) == seq![task@],
{
    let r: Vec<Task> = vec![task];
    assert(task_views(r@) =~= seq![task@]);
    r
}

/// A list with nothing to do.
fn none() -> (r: Vec<Task>)
    ensures
        task_views(r@) == Seq::<TaskView>::empty(),
{
    let r: Vec<Task> = Vec::new();
    assert(task_views(r@) =~= Seq::<TaskView>::empty());
    r
}

/// Adds something to do.
fn add_task(tasks: &mut Vec<Task>, task: Task)
    ensures
        task_views(final(tasks)@) == task_views(old(tasks)@).push(task@),
{
    let ghost before = tasks@;
    tasks.push(task);
    assert(task_views(tasks@) =~= task_views(before).push(task@));
}

/// A timer, unless it is to go off after no time at all.
fn timer_list(after_ms: u64, timer: Timer) -> (r: Vec<Task>)
    ensures
        task_views(r@) == timer_tasks(after_ms, timer),
{
    if after_ms > 0 {
        one(Task::Arm { after_ms, timer })
    } else {
        none()
    }
}

impl Bar {
    /// No bar yet.
    pub fn new() -> (r: Self)
        ensures
            r@ == no_bar(),
    {
        let r = Bar {
            hunter: None,
            bar: None,
            grab: Grab::default(),
            buttons: Vec::new(),
            page: 0,
            focused: None,
            keyboard: false,
            result: None,
            awaiting: false,
            anim: ANIM_STEPS,
            hovered: false,
            epoch: 0,
        };
        assert(r@.buttons =~= Seq::<ButtonView>::empty());
        r
    }

    /// Tears down the hunter and the bar, invalidating any pending timers.
    pub fn teardown(&mut self) -> (r: Vec<Task>)
        ensures
            is_bar_step(final(self)@, r@, teardown_step(old(self)@)),
    {
        let ghost before = self@;
        let mut tasks = none();
        if let Some(id) = self.hunter {
            add_task(&mut tasks, Task::Destroy(id));
        }
        if let Some(id) = self.bar {
            add_task(&mut tasks, Task::Destroy(id));
        }
        add_task(&mut tasks, Task::ForgetSize);
        let epoch: u64 = if self.epoch == u64::MAX {
            0
        } else {
            self.epoch + 1
        };
        let mut fresh = Bar::new();
        fresh.epoch = epoch;
        *self = fresh;
        assert(task_views(tasks@) =~= teardown_tasks(before));
        tasks
    }

    /// Starts hunting for the pointer so the bar can be placed for a selection,
    /// given the buttons that apply to it. `keyboard` marks a bar raised by the
    /// keyboard trigger, which navigates.
    pub fn begin_with(
        &mut self,
        grab: Grab,
        keyboard: bool,
        in_excluded: bool,
        buttons: Vec<Button>,
        fresh: u64,
    ) -> (r: Vec<Task>)
        ensures
            is_bar_step(
                final(self)@,
                r@,
                begin_step(
                    old(self)@,
                    grab@,
                    keyboard,
                    in_excluded,
                    button_views(buttons@),
                    fresh,
                ),
            ),
    {
        let ghost before = self@;
        let mut tasks = self.teardown();
        if in_excluded || buttons.len() == 0 {
            return tasks;
        }
        self.grab = grab;
        self.buttons = buttons;
        self.keyboard = keyboard;
        self.focused = if keyboard {
            Some(0)
        } else {
            None
        };
        self.hunter = Some(fresh);
        add_task(&mut tasks, Task::OpenHunter(fresh));
        add_task(
            &mut tasks,
            Task::Arm { after_ms: HUNT_WINDOW_MS, timer: Timer::Hunt(self.epoch) },
        );
        assert(task_views(tasks@) =~= teardown_tasks(before) + seq![
            TaskView::OpenHunter(fresh),
            TaskView::Arm {
                after_ms: HUNT_WINDOW_MS,
                timer: Timer::Hunt(next_epoch(before.epoch)),
            },
        ]);
        tasks
    }

    /// Starts hunting for the pointer so the bar can be placed for a selection.
    fn begin(&mut self, grab: Grab, keyboard: bool, world: &World<'_>, fresh: u64) -> (r: Vec<Task>)
        ensures
            is_bar_step(
                final(self)@,
                r@,
                begin_step(
                    old(self)@,
                    grab@,
                    keyboard,
                    in_excluded_app(world@),
                    world_buttons(world@, grab@.text),
                    fresh,
                ),
            ),
    {
        let config = world.engine.config();
        let in_excluded = match world.app {
            Some(app) => config.applications.is_excluded(app.as_str()),
            None => false,
        };
        let buttons = world.engine.buttons(grab.text.as_str(), world.offer);
        self.begin_with(grab, keyboard, in_excluded, buttons, fresh)
    }

    /// Replaces the hunter with the bar.
    pub fn place(&mut self, popup: &Popup, fresh: u64) -> (r: Vec<Task>)
        ensures
            is_bar_step(final(self)@, r@, place_step(old(self)@, *popup, fresh)),
    {
        let ghost before = self@;
        let hunter = match self.hunter {
            Some(hunter) => hunter,
            None => return none(),
        };
        self.hunter = None;
        self.bar = Some(fresh);
        self.anim = if popup.animate {
            0
        } else {
            ANIM_STEPS
        };
        let mut tasks = one(Task::KeepAnchor);
        add_task(&mut tasks, Task::Destroy(hunter));
        add_task(
            &mut tasks,
            Task::OpenBar { id: fresh, keyboard: self.keyboard, frame: self.anim },
        );
        if popup.animate {
            add_task(
                &mut tasks,
                Task::Arm { after_ms: ANIM_FRAME_MS, timer: Timer::Anim(self.epoch, 1) },
            );
        }
        if popup.timeout_ms > 0 {
            add_task(
                &mut tasks,
                Task::Arm { after_ms: popup.timeout_ms, timer: Timer::Expired(self.epoch) },
            );
        }
        assert(task_views(tasks@) =~= place_step(before, *popup, fresh).1);
        tasks
    }

    /// The buttons on the current page, with the page count.
    pub fn visible(&self, max_actions: usize) -> (r: (&[Button], usize))
        ensures
            button_views(r.0@) == visible_buttons(self@, per_page(max_actions)),
            r.1 == page_count(self@.buttons.len(), per_page(max_actions)),
    {
        let per: usize = page_size(max_actions);
        let pages: usize = count_pages(self.buttons.len(), per);
        let (start, end) = page_range(self.buttons.len(), per, self.page);
        let part = &self.buttons.as_slice()[start..end];
        assert(button_views(part@) =~= visible_buttons(self@, per_page(max_actions)));
        (part, pages)
    }

    /// Moves keyboard focus by `offset`, paging past either end.
    pub fn navigate(&mut self, offset: i32, max_actions: usize)
        ensures
            final(self)@ == navigated(old(self)@, offset as int, per_page(max_actions)),
    {
        let ghost before = self@;
        let ghost per = per_page(max_actions);
        let (visible, pages) = self.visible(max_actions);
        let count: usize = visible.len();
        assert(count == visible_buttons(before, per).len());
        if count == 0 {
            return;
        }
        let current: usize = match self.focused {
            Some(i) => i,
            None => 0,
        };
        let next: i128 = current as i128 + offset as i128;
        if next < 0 {
            if self.page > 0 {
                self.page = self.page - 1;
                let (previous, _) = self.visible(max_actions);
                let length: usize = previous.len();
                assert(length == page_of(before.buttons, per, (before.page - 1) as nat).len());
                self.focused = Some(
                    if length == 0 {
                        0
                    } else {
                        length - 1
                    },
                );
            }
        } else if next >= count as i128 {
            if self.page < pages - 1 {
                self.page = self.page + 1;
                self.focused = Some(0);
            }
        } else {
            self.focused = Some(next as usize);
        }
    }

    /// Flips to another page, if there is one.
    pub fn flip(&mut self, offset: i32, max_actions: usize)
        ensures
            final(self)@ == paged(old(self)@, offset as int, per_page(max_actions)),
    {
        let (_, pages) = self.visible(max_actions);
        let next: i128 = self.page as i128 + offset as i128;
        if 0 <= next && next < pages as i128 {
            self.page = next as usize;
            if self.focused.is_some() {
                self.focused = Some(0);
            }
        }
    }

    /// Picks an action, given whether it shows its result in the bar.
    pub fn invoke_with(&mut self, id: String, shows: bool) -> (r: Vec<Task>)
        ensures
            is_bar_step(final(self)@, r@, invoke_step(old(self)@, id@, shows)),
    {
        let ghost before = self@;
        if shows {
            self.awaiting = true;
            let grab = self.grab.clone();
            return one(Task::Invoke { action: id, grab });
        }
        let grab = self.grab.clone();
        let mut tasks = self.teardown();
        let ghost wanted = TaskView::Invoke { action: id@, grab: grab@ };
        add_task(&mut tasks, Task::Invoke { action: id, grab });
        assert(task_views(tasks@) =~= teardown_tasks(before) + seq![wanted]);
        tasks
    }

    /// Picks an action.
    fn invoke(&mut self, id: String, world: &World<'_>) -> (r: Vec<Task>)
        ensures
            is_bar_step(
                final(self)@,
                r@,
                invoke_step(old(self)@, id@, shows_result(world@, id@)),
            ),
    {
        let shows = match world.engine.action_after(id.as_str()) {
            Some(After::Show) => true,
            _ => false,
        };
        self.invoke_with(id, shows)
    }

    /// Takes a gesture.
    fn press(&mut self, nav: Nav, world: &World<'_>) -> (r: Vec<Task>)
        ensures
            is_bar_step(final(self)@, r@, key_step(old(self)@, nav, world@)),
    {
        if self.bar.is_none() {
            return none();
        }
        let config = world.engine.config();
        let max_actions: usize = config.popup.max_actions;
        match nav {
            Nav::Next => {
                self.navigate(1, max_actions);
                none()
            },
            Nav::Prev => {
                self.navigate(-1, max_actions);
                none()
            },
            Nav::Activate => {
                if self.result.is_some() {
                    return self.teardown();
                }
                let focused = match self.focused {
                    Some(i) => i,
                    None => return none(),
                };
                let (visible, _) = self.visible(max_actions);
                assert(visible@.len() == visible_buttons(self@, per_page(max_actions)).len());
                if focused >= visible.len() {
                    return none();
                }
                assert(visible_buttons(self@, per_page(max_actions))[focused as int]
                    == visible@[focused as int]@);
                let id = visible[focused].id.clone();
                self.invoke(id, world)
            },
            Nav::Dismiss => self.teardown(),
        }
    }

    /// Takes a timer that went off.
    pub fn ring(&mut self, timer: Timer) -> (r: Vec<Task>)
        ensures
            is_bar_step(final(self)@, r@, timer_step(old(self)@, timer)),
    {
        let ghost before = self@;
        match timer {
            Timer::Hunt(epoch) => if epoch != self.epoch || self.hunter.is_none() {
                none()
            } else {
                self.teardown()
            },
            Timer::Expired(epoch) | Timer::Dismiss(epoch) => if epoch != self.epoch {
                none()
            } else {
                self.teardown()
            },
            Timer::Anim(epoch, step) => {
                let id = match self.bar {
                    Some(id) => id,
                    None => return none(),
                };
                if epoch != self.epoch {
                    return none();
                }
                let frame: u8 = if step < ANIM_STEPS {
                    step
                } else {
                    ANIM_STEPS
                };
                self.anim = frame;
                let mut tasks = one(Task::Place { id, frame });
                if step < ANIM_STEPS {
                    add_task(
                        &mut tasks,
                        Task::Arm {
                            after_ms: ANIM_FRAME_MS,
                            timer: Timer::Anim(epoch, step + 1),
                        },
                    );
                }
                assert(task_views(tasks@) =~= timer_step(before, timer).1);
                tasks
            },
        }
    }

    /// Takes a request from outside.
    pub fn obey(&mut self, command: Command) -> (r: Vec<Task>)
        ensures
            is_bar_step(final(self)@, r@, control_step(old(self)@, command)),
    {
        let ghost before = self@;
        match command {
            Command::Show => one(Task::ReadPrimary),
            Command::Hide => self.teardown(),
            Command::Reload => one(Task::Reload),
            Command::Quit => {
                let mut tasks = self.teardown();
                add_task(&mut tasks, Task::Exit);
                assert(task_views(tasks@) =~= teardown_tasks(before) + seq![TaskView::Exit]);
                tasks
            },
        }
    }

    /// Takes what happened, and says what to do about it. `fresh` is the id for
    /// a surface, should one be opened.
    pub fn update(&mut self, message: Message, world: &World<'_>, fresh: u64) -> (r: Vec<Task>)
        ensures
            is_bar_step(final(self)@, r@, update_step(old(self)@, message@, world@, fresh)),
    {
        let ghost before = self@;
        match message {
            Message::Selection(Settled::Text(grab)) => self.begin(grab, false, world, fresh),
            Message::Selection(Settled::Cleared) => self.teardown(),
            Message::Primary(text) => {
                let config = world.engine.config();
                if is_interesting(text.as_str(), &config.selection) {
                    let grab = Grab::text(text.as_str());
                    self.begin(grab, true, world, fresh)
                } else {
                    none()
                }
            },
            Message::Pointer(id) => {
                if self.is_hunter(id) {
                    let config = world.engine.config();
                    self.place(&config.popup, fresh)
                } else {
                    none()
                }
            },
            Message::Sized(id) => {
                if self.is_hunter(id) {
                    one(Task::KeepOutput)
                } else if self.is_bar(id) {
                    let mut tasks = one(Task::KeepSize);
                    add_task(&mut tasks, Task::Place { id, frame: self.anim });
                    assert(task_views(tasks@) =~= seq![
                        TaskView::KeepSize,
                        TaskView::Place { id, frame: before.anim },
                    ]);
                    tasks
                } else {
                    none()
                }
            },
            Message::Hover(id, inside) => {
                if !self.is_bar(id) {
                    return none();
                }
                if inside {
                    self.hovered = true;
                    return none();
                }
                if !self.hovered {
                    return none();
                }
                let config = world.engine.config();
                timer_list(config.popup.dismiss_ms, Timer::Dismiss(self.epoch))
            },
            Message::Invoke(id) => self.invoke(id, world),
            Message::Page(offset) => {
                let config = world.engine.config();
                self.flip(offset, config.popup.max_actions);
                none()
            },
            Message::Key(nav) => self.press(nav, world),
            Message::EngineFeedback(Feedback::Result { title, body }) => {
                if self.bar.is_none() {
                    return none();
                }
                self.awaiting = false;
                self.result = Some((title, body));
                let config = world.engine.config();
                timer_list(config.popup.timeout_ms, Timer::Expired(self.epoch))
            },
            Message::CopyResult => {
                let mut tasks = match &self.result {
                    Some(result) => one(Task::Copy(result.1.clone())),
                    None => none(),
                };
                let ghost copied = task_views(tasks@);
                let mut rest = self.teardown();
                let ghost first = tasks@;
                let ghost second = rest@;
                tasks.append(&mut rest);
                assert(task_views(tasks@) =~= task_views(first) + task_views(second));
                tasks
            },
            Message::Control(command) => self.obey(command),
            Message::Timer(timer) => self.ring(timer),
        }
    }

    /// Whether this surface is the hunter.
    pub fn is_hunter(&self, id: u64) -> (r: bool)
        ensures
            r == (self@.hunter == Some(id)),
    {
        match self.hunter {
            Some(hunter) => hunter == id,
            None => false,
        }
    }

    /// Whether this surface is the bar.
    pub fn is_bar(&self, id: u64) -> (r: bool)
        ensures
            r == (self@.bar == Some(id)),
    {
        match self.bar {
            Some(bar) => bar == id,
            None => false,
        }
    }
}

// ---------------------------------------------------------------------------
// What the bar shows
// ---------------------------------------------------------------------------

/// One button as it is drawn. The label is drawn where the icon theme lacks the
/// icon; the focused button reads as the suggested one.
#[derive(Debug, PartialEq, Eq)]
pub struct Face {
    pub id: String,
    pub title: String,
    pub icon: String,
    pub label: String,
    pub focused: bool,
}

/// One drawn button in specifications.
pub open spec fn face_of(button: ButtonView, focused: bool, face: Face) -> bool {
    &&& face.id@ == button.id
    &&& face.title@ == button.title
    &&& face.icon@ == button.icon
    &&& face.label@ == button.label
    &&& face.focused == focused
}

/// What the bar shows.
#[derive(Debug, PartialEq, Eq)]
pub enum Show {
    /// What an action produced, in place of the buttons.
    Result { title: String, body: String },
    /// One page of buttons. Where there are several pages, there is a pager on
    /// either side, which may be switched off.
    Buttons { back: Option<bool>, faces: Vec<Face>, forward: Option<bool> },
}

/// Whether the bar shows what it should.
pub open spec fn is_shown(show: Show, state: BarView, per: nat) -> bool {
    let visible = visible_buttons(state, per);
    let pages = page_count(state.buttons.len(), per);
    match (state.result, show) {
        (Some(result), Show::Result { title, body }) => title@ == result.0 && body@ == result.1,
        (None, Show::Buttons { back, faces, forward }) => {
            &&& back == (if pages > 1 {
                Some(state.page > 0)
            } else {
                None
            })
            &&& forward == (if pages > 1 {
                Some(state.page + 1 < pages)
            } else {
                None
            })
            &&& faces@.len() == visible.len()
            &&& forall|i: int|
                0 <= i < visible.len() ==> face_of(
                    visible[i],
                    state.focused == Some(i as usize),
                    #[trigger] faces@[i],
                )
        },
        _ => false,
    }
}

/// Which surface is to be drawn.
#[derive(Debug, Clone, Copy, PartialEq, Eq, Structural)]
pub enum Surface {
    /// The bar.
    Bar,
    /// A blank pixel.
    Dummy,
    /// A blank that fills its output.
    Blank,
}

/// Which surface an id stands for.
pub open spec fn surface_of(state: BarView, id: u64, dummy: u64) -> Surface {
    if state.bar == Some(id) {
        Surface::Bar
    } else if id == dummy {
        Surface::Dummy
    } else {
        Surface::Blank
    }
}

impl Bar {
    /// What the bar shows.
    pub fn show(&self, max_actions: usize) -> (r: Show)
        ensures
            is_shown(r, self@, per_page(max_actions)),
    {
        if let Some(result) = &self.result {
            return Show::Result { title: result.0.clone(), body: result.1.clone() };
        }
        let ghost per = per_page(max_actions);
        let ghost shown = visible_buttons(self@, per);
        let (visible, pages) = self.visible(max_actions);
        let mut faces: Vec<Face> = Vec::new();
        for i in 0..visible.len()
            invariant
                shown == button_views(visible@),
                faces@.len() == i,
                self.focused == self@.focused,
                forall|k: int|
                    0 <= k < i ==> face_of(
                        shown[k],
                        self@.focused == Some(k as usize),
                        #[trigger] faces@[k],
                    ),
        {
            let button = &visible[i];
            assert(shown[i as int] == button@);
            let focused = match self.focused {
                Some(f) => f == i,
                None => false,
            };
            faces.push(
                Face {
                    id: button.id.clone(),
                    title: button.title.clone(),
                    icon: button.icon.clone(),
                    label: button.label.clone(),
                    focused,
                },
            );
        }
        let (back, forward) = if pages > 1 {
            (Some(self.page > 0), Some(self.page < pages - 1))
        } else {
            (None, None)
        };
        Show::Buttons { back, faces, forward }
    }

    /// Which surface an id stands for, given that of the dummy.
    pub fn surface(&self, id: u64, dummy: u64) -> (r: Surface)
        ensures
            r == surface_of(self@, id, dummy),
            r == (if self@.bar == Some(id) {
                Surface::Bar
            } else if id == dummy {
                Surface::Dummy
            } else {
                Surface::Blank
            }),
    {
        if self.is_bar(id) {
            Surface::Bar
        } else if id == dummy {
            Surface::Dummy
        } else {
            Surface::Blank
        }
    }
}

// ---------------------------------------------------------------------------
// What the bar promises
// ---------------------------------------------------------------------------

/// The epoch a timer was armed in.
pub open spec fn timer_epoch(timer: Timer) -> u64 {
    match timer {
        Timer::Hunt(epoch) => epoch,
        Timer::Anim(epoch, _) => epoch,
        Timer::Expired(epoch) => epoch,
        Timer::Dismiss(epoch) => epoch,
    }
}

/// A timer armed for an older popup does nothing, and tearing the popup down
/// makes every timer armed for it one of those.
pub proof fn law_stale_timers_do_nothing(state: BarView, later: BarView, timer: Timer)
    requires
        timer_epoch(timer) == state.epoch,
        later.epoch == torn_down(state).epoch,
    ensures
        timer_step(later, timer) == no_step(later),
{
}

/// Every timer that is armed belongs to the popup as it then stands.
pub proof fn law_timers_belong_to_their_popup(
    state: BarView,
    message: MessageView,
    world: WorldView,
    fresh: u64,
    i: int,
)
    ensures
        ({
            let (after, tasks) = update_step(state, message, world, fresh);
            0 <= i < tasks.len() ==> (tasks[i] matches TaskView::Arm { after_ms, timer }
                ==> timer_epoch(timer) == after.epoch)
        }),
{
}

/// Whether the parts of the bar fit together, with so many buttons to a page:
/// hunter and bar are not there at once, neither is there without a button, the
/// page that shows exists, and the focused button is on it.
pub open spec fn consistent(state: BarView, per: nat) -> bool {
    &&& !(state.hunter is Some && state.bar is Some)
    &&& (state.hunter is Some || state.bar is Some) ==> state.buttons.len() > 0
    &&& state.page < page_count(state.buttons.len(), per)
    &&& state.focused matches Some(i) ==> i < visible_buttons(state, per).len()
    &&& state.anim <= ANIM_STEPS
}

/// No bar is a consistent one.
proof fn lemma_no_bar(state: BarView, per: nat)
    requires
        per > 0,
    ensures
        consistent(no_bar(), per),
        consistent(torn_down(state), per),
{
    lemma_page_bounds(0, per, 0);
}

/// Starting to hunt keeps the parts together.
proof fn lemma_begin(
    state: BarView,
    grab: GrabView,
    keyboard: bool,
    in_excluded: bool,
    buttons: Seq<ButtonView>,
    fresh: u64,
    per: nat,
)
    requires
        per > 0,
    ensures
        consistent(begin_step(state, grab, keyboard, in_excluded, buttons, fresh).0, per),
{
    lemma_no_bar(state, per);
    lemma_page_bounds(buttons.len(), per, 0);
}

/// Navigating keeps the parts together.
proof fn lemma_navigated(state: BarView, offset: int, per: nat)
    requires
        per > 0,
        consistent(state, per),
    ensures
        consistent(navigated(state, offset, per), per),
{
    let after = navigated(state, offset, per);
    lemma_page_bounds(state.buttons.len(), per, state.page as nat);
    lemma_page_bounds(state.buttons.len(), per, after.page as nat);
}

/// Flipping pages keeps the parts together.
proof fn lemma_paged(state: BarView, offset: int, per: nat)
    requires
        per > 0,
        consistent(state, per),
    ensures
        consistent(paged(state, offset, per), per),
{
    let after = paged(state, offset, per);
    lemma_page_bounds(state.buttons.len(), per, state.page as nat);
    lemma_page_bounds(state.buttons.len(), per, after.page as nat);
}

/// A gesture keeps the parts together.
proof fn lemma_key(state: BarView, nav: Nav, world: WorldView)
    requires
        consistent(state, per_page(world.engine.loaded.config.popup.max_actions)),
    ensures
        consistent(
            key_step(state, nav, world).0,
            per_page(world.engine.loaded.config.popup.max_actions),
        ),
{
    let per = per_page(world.engine.loaded.config.popup.max_actions);
    lemma_no_bar(state, per);
    lemma_navigated(state, 1, per);
    lemma_navigated(state, -1, per);
}

/// Nothing that happens takes the parts of the bar apart.
pub proof fn law_the_bar_stays_consistent(
    state: BarView,
    message: MessageView,
    world: WorldView,
    fresh: u64,
)
    requires
        consistent(state, per_page(world.engine.loaded.config.popup.max_actions)),
    ensures
        consistent(no_bar(), per_page(world.engine.loaded.config.popup.max_actions)),
        consistent(
            update_step(state, message, world, fresh).0,
            per_page(world.engine.loaded.config.popup.max_actions),
        ),
{
    let popup = world.engine.loaded.config.popup;
    let per = per_page(popup.max_actions);
    lemma_no_bar(state, per);
    match message {
        MessageView::Selection(SettledView::Text(grab)) => {
            lemma_begin(
                state,
                grab,
                false,
                in_excluded_app(world),
                world_buttons(world, grab.text),
                fresh,
                per,
            );
        },
        MessageView::Primary(text) => {
            lemma_begin(
                state,
                plain_grab(text),
                true,
                in_excluded_app(world),
                world_buttons(world, text),
                fresh,
                per,
            );
        },
        MessageView::Page(offset) => {
            lemma_paged(state, offset as int, per);
        },
        MessageView::Key(nav) => {
            lemma_key(state, nav, world);
        },
        _ => {},
    }
}

/// So many pages, one after the other.
pub open spec fn pages_of(buttons: Seq<ButtonView>, per: nat, n: nat) -> Seq<ButtonView>
    decreases n,
{
    if n == 0 {
        Seq::empty()
    } else {
        pages_of(buttons, per, (n - 1) as nat) + page_of(buttons, per, (n - 1) as nat)
    }
}

/// The first pages hold the first buttons.
proof fn lemma_pages(buttons: Seq<ButtonView>, per: nat, n: nat)
    requires
        per > 0,
        n < page_count(buttons.len(), per),
    ensures
        n * per <= buttons.len(),
        pages_of(buttons, per, n) == buttons.take((n * per) as int),
    decreases n,
{
    lemma_page_bounds(buttons.len(), per, n);
    assert(n * per <= (page_count(buttons.len(), per) - 1) * per) by (nonlinear_arith)
        requires
            n <= page_count(buttons.len(), per) - 1,
            per > 0,
    ;
    if n > 0 {
        let m = (n - 1) as nat;
        lemma_pages(buttons, per, m);
        lemma_page_bounds(buttons.len(), per, m);
        assert(n * per == m * per + per) by (nonlinear_arith)
            requires
                n == m + 1,
        ;
        assert(buttons.take((m * per) as int) + page_of(buttons, per, m) =~= buttons.take(
            (n * per) as int,
        ));
    } else {
        assert(n * per == 0) by (nonlinear_arith)
            requires
                n == 0,
        ;
        assert(buttons.take(0) =~= Seq::<ButtonView>::empty());
    }
}

/// Nothing is cut off: the pages, one after the other, are all the buttons, and
/// none holds more than its share.
pub proof fn law_pages_hold_every_button(buttons: Seq<ButtonView>, per: nat, page: nat)
    requires
        per > 0,
    ensures
        pages_of(buttons, per, page_count(buttons.len(), per)) == buttons,
        page_of(buttons, per, page).len() <= per,
        buttons.len() > 0 ==> page_of(buttons, per, page).len() > 0,
{
    let last = (page_count(buttons.len(), per) - 1) as nat;
    lemma_pages(buttons, per, last);
    lemma_page_bounds(buttons.len(), per, last);
    lemma_page_bounds(buttons.len(), per, page);
    assert((last + 1) * per == last * per + per) by (nonlinear_arith);
    assert(buttons.take((last * per) as int) + page_of(buttons, per, last) =~= buttons);
}

/// Where focus moved on, moving back undoes it: within a page as across pages.
pub proof fn law_prev_undoes_next(state: BarView, per: nat)
    requires
        per > 0,
        consistent(state, per),
        state.buttons.len() <= usize::MAX,
        state.focused is Some,
        navigated(state, 1, per) != state,
    ensures
        navigated(navigated(state, 1, per), -1, per) == state,
{
    let after = navigated(state, 1, per);
    let back = navigated(after, -1, per);
    lemma_page_bounds(state.buttons.len(), per, state.page as nat);
    lemma_page_bounds(state.buttons.len(), per, after.page as nat);
    let count = visible_buttons(state, per).len();
    assert(visible_buttons(after, per).len() > 0);
    assert(page_count(state.buttons.len(), per) <= usize::MAX) by {
        vstd::arithmetic::div_mod::lemma_fundamental_div_mod(
            state.buttons.len() as int,
            per as int,
        );
        let full = state.buttons.len() / per;
        assert(full <= state.buttons.len()) by (nonlinear_arith)
            requires
                state.buttons.len() == per * full + state.buttons.len() % per,
                per > 0,
        ;
        if state.buttons.len() % per != 0 {
            assert(full < state.buttons.len()) by (nonlinear_arith)
                requires
                    state.buttons.len() == per * full + state.buttons.len() % per,
                    per > 0,
                    state.buttons.len() % per != 0,
            ;
        }
    }
    if after.page == state.page {
        assert(visible_buttons(after, per) == visible_buttons(state, per));
        assert(back.focused == state.focused);
    } else {
        assert(after.page == state.page + 1);
        assert(state.focused == Some((count - 1) as usize));
        assert(back.page == state.page);
        assert(back.focused == state.focused);
    }
}

/// A bar raised by a settled selection never takes the keyboard; one raised by
/// the manual trigger does, and starts with its first button focused.
pub proof fn law_only_the_manual_trigger_takes_the_keyboard(
    state: BarView,
    grab: GrabView,
    in_excluded: bool,
    buttons: Seq<ButtonView>,
    popup: Popup,
    keyboard: bool,
    first: u64,
    second: u64,
    i: int,
)
    ensures
        ({
            let (hunting, _) = begin_step(state, grab, keyboard, in_excluded, buttons, first);
            let (_, tasks) = place_step(hunting, popup, second);
            0 <= i < tasks.len() ==> (tasks[i] matches TaskView::OpenBar { id, keyboard: k, frame }
                ==> k == keyboard)
        }),
        ({
            let (hunting, _) = begin_step(state, grab, keyboard, in_excluded, buttons, first);
            hunting.hunter is Some ==> hunting.focused == (if keyboard {
                Some(0usize)
            } else {
                None
            })
        }),
{
}

/// A result that arrives after the bar closed is dropped.
pub proof fn law_a_late_result_is_dropped(
    state: BarView,
    title: Seq<char>,
    body: Seq<char>,
    world: WorldView,
    fresh: u64,
)
    requires
        state.bar is None,
    ensures
        update_step(state, MessageView::EngineFeedback { title, body }, world, fresh) == no_step(
            state,
        ),
{
}

/// The bar is down before an action that does not show its result runs, and the
/// action still gets the selection that the bar was for.
pub proof fn law_the_bar_goes_before_the_action(state: BarView, id: Seq<char>)
    ensures
        ({
            let (after, tasks) = invoke_step(state, id, false);
            &&& after.bar is None
            &&& after.hunter is None
            &&& tasks.last() == (TaskView::Invoke { action: id, grab: state.grab })
            &&& state.bar matches Some(bar) ==> tasks.contains(TaskView::Destroy(bar))
        }),
{
    let (after, tasks) = invoke_step(state, id, false);
    if let Some(bar) = state.bar {
        let at = if state.hunter is Some {
            1
        } else {
            0int
        };
        assert(tasks[at] == TaskView::Destroy(bar));
    }
}

/// The arrows and Tab move, forward to the right and down and back to the left
/// and up; Enter picks and Escape closes.
pub proof fn law_each_key_has_its_gesture()
    ensures
        gesture(Key::ArrowRight) == Some(Nav::Next),
        gesture(Key::ArrowDown) == Some(Nav::Next),
        gesture(Key::Tab) == Some(Nav::Next),
        gesture(Key::ArrowLeft) == Some(Nav::Prev),
        gesture(Key::ArrowUp) == Some(Nav::Prev),
        gesture(Key::Enter) == Some(Nav::Activate),
        gesture(Key::Escape) == Some(Nav::Dismiss),
        gesture(Key::Other) is None,
{
}

/// There are no more pages than it takes, and always one. A page takes as many
/// buttons as the settings say, or one where they say none.
pub proof fn law_pages_are_as_few_as_can_be(
    buttons: Seq<ButtonView>,
    max_actions: usize,
    page: nat,
    i: int,
)
    ensures
        max_actions == 0 ==> per_page(max_actions) == 1,
        max_actions > 0 ==> per_page(max_actions) == max_actions,
        page_count(0, per_page(max_actions)) == 1,
        buttons.len() > 0 ==> ({
            let per = per_page(max_actions);
            let pages = page_count(buttons.len(), per);
            &&& pages * per >= buttons.len()
            &&& (pages - 1) * per < buttons.len()
        }),
        ({
            let per = per_page(max_actions);
            let shown = page_of(buttons, per, page);
            page < page_count(buttons.len(), per) && 0 <= i < shown.len() ==> shown[i]
                == buttons[page * per + i]
        }),
{
    let per = per_page(max_actions);
    lemma_page_bounds(buttons.len(), per, page);
    lemma_page_bounds(0, per, 0);
    let last = (page_count(buttons.len(), per) - 1) as nat;
    if page < page_count(buttons.len(), per) && page >= last {
        assert(page == last);
    }
}

/// Whether nothing of a bar is left but its epoch.
pub open spec fn is_gone(state: BarView) -> bool {
    &&& state.hunter is None
    &&& state.bar is None
    &&& state.grab.text.len() == 0
    &&& state.grab.html is None
    &&& state.buttons.len() == 0
    &&& state.page == 0
    &&& state.focused is None
    &&& !state.keyboard
    &&& state.result is None
    &&& !state.awaiting
    &&& state.anim == 6
    &&& !state.hovered
}

/// The bar starts out as none. Tearing it down leaves nothing of it, makes every
/// timer stale and destroys the surfaces that were there, and no other, before
/// its size is forgotten.
pub proof fn law_tearing_down_leaves_nothing(state: BarView)
    ensures
        is_gone(no_bar()),
        no_bar().epoch == 0,
        ({
            let (after, tasks) = teardown_step(state);
            &&& is_gone(after)
            &&& after.epoch != state.epoch
            &&& state.epoch < u64::MAX ==> after.epoch == state.epoch + 1
            &&& tasks.last() == TaskView::ForgetSize
            &&& (state.hunter is None && state.bar is None) ==> tasks == seq![
                TaskView::ForgetSize,
            ]
            &&& (state.hunter is Some && state.bar is None) ==> tasks == seq![
                TaskView::Destroy(state.hunter->0),
                TaskView::ForgetSize,
            ]
            &&& (state.hunter is None && state.bar is Some) ==> tasks == seq![
                TaskView::Destroy(state.bar->0),
                TaskView::ForgetSize,
            ]
            &&& (state.hunter is Some && state.bar is Some) ==> tasks == seq![
                TaskView::Destroy(state.hunter->0),
                TaskView::Destroy(state.bar->0),
                TaskView::ForgetSize,
            ]
        }),
{
    let tasks = teardown_tasks(state);
    match (state.hunter, state.bar) {
        (None, None) => {
            assert(tasks =~= seq![TaskView::ForgetSize]);
        },
        (Some(hunter), None) => {
            assert(tasks =~= seq![TaskView::Destroy(hunter), TaskView::ForgetSize]);
        },
        (None, Some(bar)) => {
            assert(tasks =~= seq![TaskView::Destroy(bar), TaskView::ForgetSize]);
        },
        (Some(hunter), Some(bar)) => {
            assert(tasks =~= seq![
                TaskView::Destroy(hunter),
                TaskView::Destroy(bar),
                TaskView::ForgetSize,
            ]);
        },
    }
}

/// Whether a hunt for this selection starts where something else was before: the
/// buttons are those that apply, the first page is up, and the hunter waits four
/// seconds.
pub open spec fn starts_hunting(
    state: BarView,
    step: (BarView, Seq<TaskView>),
    grab: GrabView,
    world: WorldView,
    fresh: u64,
) -> bool {
    let (after, tasks) = step;
    let n = tasks.len() as int;
    &&& after.hunter == Some(fresh)
    &&& after.bar is None
    &&& after.grab == grab
    &&& after.buttons == buttons_for(
        world.engine.loaded.actions,
        grab.text,
        world.engine.can_inject,
        world.offer,
    )
    &&& after.page == 0
    &&& after.result is None
    &&& !after.awaiting
    &&& !after.hovered
    &&& after.epoch != state.epoch
    &&& n >= 3
    &&& tasks.take(n - 2) == teardown_step(state).1
    &&& tasks[n - 2] == TaskView::OpenHunter(fresh)
    &&& tasks[n - 1] == TaskView::Arm { after_ms: 4000, timer: Timer::Hunt(after.epoch) }
}

/// Whether a text gets a bar at all: some action applies to it, and the
/// application it is selected in is not excluded.
pub open spec fn deserves_a_bar(text: Seq<char>, world: WorldView) -> bool {
    &&& buttons_for(
        world.engine.loaded.actions,
        text,
        world.engine.can_inject,
        world.offer,
    ).len() > 0
    &&& !(world.app matches Some(app) && excluded(world.engine.loaded.config.exclude, app))
}

/// A settled selection starts a hunt, without the keyboard, where it deserves a
/// bar; otherwise it takes the last one down, and so does one that is gone.
pub proof fn law_a_settled_selection_starts_a_hunt(
    state: BarView,
    grab: GrabView,
    world: WorldView,
    fresh: u64,
)
    ensures
        ({
            let step = update_step(
                state,
                MessageView::Selection(SettledView::Text(grab)),
                world,
                fresh,
            );
            &&& deserves_a_bar(grab.text, world) ==> starts_hunting(
                state,
                step,
                grab,
                world,
                fresh,
            ) && !step.0.keyboard && step.0.focused is None
            &&& !deserves_a_bar(grab.text, world) ==> step == teardown_step(state)
        }),
        update_step(state, MessageView::Selection(SettledView::Cleared), world, fresh)
            == teardown_step(state),
{
    let tasks = update_step(
        state,
        MessageView::Selection(SettledView::Text(grab)),
        world,
        fresh,
    ).1;
    if deserves_a_bar(grab.text, world) {
        assert(tasks.take(tasks.len() - 2) =~= teardown_tasks(state));
    }
}

/// The manual trigger has the selection read. One that is worth it starts a hunt
/// with the keyboard and its first button focused where it deserves a bar, and
/// takes the last one down otherwise; one that is not changes nothing.
pub proof fn law_the_manual_trigger_starts_a_hunt(
    state: BarView,
    text: Seq<char>,
    world: WorldView,
    fresh: u64,
)
    ensures
        ({
            let step = update_step(state, MessageView::Primary(text), world, fresh);
            let worthy = interesting(text, world.engine.loaded.config.selection);
            &&& worthy && deserves_a_bar(text, world) ==> starts_hunting(
                state,
                step,
                GrabView { text, html: None },
                world,
                fresh,
            ) && step.0.keyboard && step.0.focused == Some(0usize)
            &&& worthy && !deserves_a_bar(text, world) ==> step == teardown_step(state)
            &&& !worthy ==> step.0 == state && step.1.len() == 0
        }),
{
    let step = update_step(state, MessageView::Primary(text), world, fresh);
    if interesting(text, world.engine.loaded.config.selection) && deserves_a_bar(text, world) {
        assert(step.1.take(step.1.len() - 2) =~= teardown_tasks(state));
    }
}

/// Requests from outside: the bar is shown for what is selected, taken down, the
/// configuration read anew, or the bar taken down and the program stopped.
pub proof fn law_requests_are_carried_out(state: BarView, world: WorldView, fresh: u64)
    ensures
        update_step(state, MessageView::Control(Command::Show), world, fresh) == (
            state,
            seq![TaskView::ReadPrimary],
        ),
        update_step(state, MessageView::Control(Command::Hide), world, fresh) == teardown_step(
            state,
        ),
        update_step(state, MessageView::Control(Command::Reload), world, fresh) == (
            state,
            seq![TaskView::Reload],
        ),
        update_step(state, MessageView::Control(Command::Quit), world, fresh) == (
            teardown_step(state).0,
            teardown_step(state).1 + seq![TaskView::Exit],
        ),
{
}

/// Once the pointer moves over the hunter, the bar takes its place, for the same
/// selection, with the keyboard if the hunt was for one. It enters in six frames
/// of sixteen milliseconds, or at once where nothing is to move, and goes after
/// the time in the settings, if they give one. The pointer over anything else
/// changes nothing.
pub proof fn law_the_bar_takes_the_place_of_the_hunter(
    state: BarView,
    id: u64,
    world: WorldView,
    fresh: u64,
)
    ensures
        HUNT_WINDOW_MS == 4000,
        ANIM_FRAME_MS == 16,
        ANIM_STEPS == 6,
        ({
            let popup = world.engine.loaded.config.popup;
            let (after, tasks) = update_step(state, MessageView::Pointer(id), world, fresh);
            let frame: u8 = if popup.animate {
                0
            } else {
                6
            };
            let open = seq![
                TaskView::KeepAnchor,
                TaskView::Destroy(id),
                TaskView::OpenBar { id: fresh, keyboard: state.keyboard, frame },
            ];
            let entering = TaskView::Arm { after_ms: 16, timer: Timer::Anim(state.epoch, 1) };
            let expiring = TaskView::Arm {
                after_ms: popup.timeout_ms,
                timer: Timer::Expired(state.epoch),
            };
            &&& state.hunter != Some(id) ==> after == state && tasks.len() == 0
            &&& state.hunter == Some(id) ==> {
                &&& after == (BarView { hunter: None, bar: Some(fresh), anim: frame, ..state })
                &&& popup.animate && popup.timeout_ms > 0 ==> tasks == open + seq![
                    entering,
                    expiring,
                ]
                &&& popup.animate && popup.timeout_ms == 0 ==> tasks == open + seq![entering]
                &&& !popup.animate && popup.timeout_ms > 0 ==> tasks == open + seq![expiring]
                &&& !popup.animate && popup.timeout_ms == 0 ==> tasks == open
            }
        }),
{
    let popup = world.engine.loaded.config.popup;
    let (after, tasks) = update_step(state, MessageView::Pointer(id), world, fresh);
    let frame: u8 = if popup.animate {
        0
    } else {
        6
    };
    let open = seq![
        TaskView::KeepAnchor,
        TaskView::Destroy(id),
        TaskView::OpenBar { id: fresh, keyboard: state.keyboard, frame },
    ];
    let entering = TaskView::Arm { after_ms: 16, timer: Timer::Anim(state.epoch, 1) };
    let expiring = TaskView::Arm {
        after_ms: popup.timeout_ms,
        timer: Timer::Expired(state.epoch),
    };
    if state.hunter == Some(id) {
        if popup.animate && popup.timeout_ms > 0 {
            assert(tasks =~= open + seq![entering, expiring]);
        } else if popup.animate {
            assert(tasks =~= open + seq![entering]);
        } else if popup.timeout_ms > 0 {
            assert(tasks =~= open + seq![expiring]);
        } else {
            assert(tasks =~= open);
        }
    }
}

/// The hunter's size is that of the output; the bar's is kept, and the bar moved
/// to where it belongs at the frame it is at.
pub proof fn law_sizes_are_those_of_their_surface(
    state: BarView,
    id: u64,
    world: WorldView,
    fresh: u64,
)
    ensures
        ({
            let (after, tasks) = update_step(state, MessageView::Sized(id), world, fresh);
            &&& after == state
            &&& state.hunter == Some(id) ==> tasks == seq![TaskView::KeepOutput]
            &&& state.hunter != Some(id) && state.bar == Some(id) ==> tasks == seq![
                TaskView::KeepSize,
                TaskView::Place { id, frame: state.anim },
            ]
            &&& state.hunter != Some(id) && state.bar != Some(id) ==> tasks.len() == 0
        }),
{
}

/// The pointer on the bar is noticed. Once it leaves again the bar has the time
/// in the settings left, if they give one. A pointer that was never on it, and
/// one over anything else, change nothing.
pub proof fn law_the_bar_goes_after_the_pointer(
    state: BarView,
    id: u64,
    world: WorldView,
    fresh: u64,
)
    ensures
        ({
            let popup = world.engine.loaded.config.popup;
            let (entered, upon) = update_step(state, MessageView::Hover(id, true), world, fresh);
            let (left, behind) = update_step(state, MessageView::Hover(id, false), world, fresh);
            &&& upon.len() == 0
            &&& state.bar == Some(id) ==> entered == BarView { hovered: true, ..state }
            &&& state.bar != Some(id) ==> entered == state && behind.len() == 0
            &&& left == state
            &&& !state.hovered ==> behind.len() == 0
            &&& popup.dismiss_ms == 0 ==> behind.len() == 0
            &&& state.bar == Some(id) && state.hovered && popup.dismiss_ms > 0 ==> behind == seq![
                TaskView::Arm {
                    after_ms: popup.dismiss_ms,
                    timer: Timer::Dismiss(state.epoch),
                },
            ]
        }),
{
}

/// An action that is picked gets the bar's selection. One whose result is to be
/// shown leaves the bar up and waiting; any other, and one that does not exist,
/// has it taken down first.
pub proof fn law_a_picked_action_is_invoked(
    state: BarView,
    id: Seq<char>,
    world: WorldView,
    fresh: u64,
)
    ensures
        ({
            let step = update_step(state, MessageView::Invoke(id), world, fresh);
            let invoke = TaskView::Invoke { action: id, grab: state.grab };
            match action_named(world.engine.loaded.actions, id) {
                Some(action) => {
                    &&& action.spec.after == After::Show ==> step == (
                        BarView { awaiting: true, ..state },
                        seq![invoke],
                    )
                    &&& action.spec.after != After::Show ==> step == (
                        teardown_step(state).0,
                        teardown_step(state).1 + seq![invoke],
                    )
                },
                None => step == (teardown_step(state).0, teardown_step(state).1 + seq![invoke]),
            }
        }),
{
}

/// Flipping goes to the page so far away if there is one, the focus to its first
/// button if any had it, and changes nothing otherwise.
pub proof fn law_pages_flip_within_bounds(
    state: BarView,
    offset: i32,
    world: WorldView,
    fresh: u64,
)
    requires
        page_count(
            state.buttons.len(),
            per_page(world.engine.loaded.config.popup.max_actions),
        ) <= usize::MAX,
    ensures
        ({
            let pages = page_count(
                state.buttons.len(),
                per_page(world.engine.loaded.config.popup.max_actions),
            );
            let (after, tasks) = update_step(state, MessageView::Page(offset), world, fresh);
            let there = 0 <= state.page + offset && state.page + offset < pages;
            &&& tasks.len() == 0
            &&& !there ==> after == state
            &&& there ==> {
                &&& after.page == state.page + offset
                &&& state.focused is Some ==> after.focused == Some(0usize)
                &&& state.focused is None ==> after.focused is None
                &&& after == BarView { page: after.page, focused: after.focused, ..state }
            }
        }),
{
}

/// Moving goes to the button beside the focused one, or beside the first where
/// none was. Past the last button of a page it goes to the first of the next,
/// before the first to the last of the page before, and past either end it stays.
/// Nothing else changes, and without a bar nothing does.
pub proof fn law_moving_goes_one_button_on(state: BarView, world: WorldView, fresh: u64)
    requires
        state.bar is Some,
        state.buttons.len() <= usize::MAX,
        state.page < page_count(
            state.buttons.len(),
            per_page(world.engine.loaded.config.popup.max_actions),
        ),
        page_count(
            state.buttons.len(),
            per_page(world.engine.loaded.config.popup.max_actions),
        ) <= usize::MAX,
        state.focused matches Some(i) ==> i < visible_buttons(
            state,
            per_page(world.engine.loaded.config.popup.max_actions),
        ).len(),
        state.buttons.len() > 0,
    ensures
        ({
            let per = per_page(world.engine.loaded.config.popup.max_actions);
            let pages = page_count(state.buttons.len(), per);
            let count = page_of(state.buttons, per, state.page as nat).len();
            let at: int = if state.focused is Some {
                state.focused->0 as int
            } else {
                0
            };
            let (on, first) = update_step(state, MessageView::Key(Nav::Next), world, fresh);
            let (back, second) = update_step(state, MessageView::Key(Nav::Prev), world, fresh);
            &&& first.len() == 0 && second.len() == 0
            &&& on == BarView { page: on.page, focused: on.focused, ..state }
            &&& back == BarView { page: back.page, focused: back.focused, ..state }
            &&& at + 1 < count ==> on.page == state.page && on.focused == Some((at + 1) as usize)
            &&& at + 1 >= count && state.page + 1 < pages ==> on.page == state.page + 1
                && on.focused == Some(0usize)
            &&& at + 1 >= count && state.page + 1 >= pages ==> on == state
            &&& at > 0 ==> back.page == state.page && back.focused == Some((at - 1) as usize)
            &&& at == 0 && state.page > 0 ==> back.page == state.page - 1 && back.focused == Some(
                (page_of(state.buttons, per, (state.page - 1) as nat).len() - 1) as usize,
            )
            &&& at == 0 && state.page == 0 ==> back == state
        }),
{
    let per = per_page(world.engine.loaded.config.popup.max_actions);
    lemma_page_bounds(state.buttons.len(), per, state.page as nat);
    if state.page > 0 {
        lemma_page_bounds(state.buttons.len(), per, (state.page - 1) as nat);
    }
}

/// Enter picks the focused button, just as if it had been clicked, and closes a
/// bar that shows a result; Escape closes any. Without a bar no gesture means
/// anything.
pub proof fn law_gestures_pick_and_close(
    state: BarView,
    nav: Nav,
    world: WorldView,
    fresh: u64,
    i: usize,
)
    ensures
        state.bar is None ==> update_step(state, MessageView::Key(nav), world, fresh) == (
            state,
            Seq::<TaskView>::empty(),
        ),
        state.bar is Some ==> update_step(state, MessageView::Key(Nav::Dismiss), world, fresh)
            == teardown_step(state),
        (state.bar is Some && state.result is Some) ==> update_step(
            state,
            MessageView::Key(Nav::Activate),
            world,
            fresh,
        ) == teardown_step(state),
        (state.bar is Some && state.result is None && state.focused is None) ==> update_step(
            state,
            MessageView::Key(Nav::Activate),
            world,
            fresh,
        ) == (state, Seq::<TaskView>::empty()),
        ({
            let shown = page_of(
                state.buttons,
                per_page(world.engine.loaded.config.popup.max_actions),
                state.page as nat,
            );
            (state.bar is Some && state.result is None && state.focused == Some(i) && i
                < shown.len()) ==> update_step(
                state,
                MessageView::Key(Nav::Activate),
                world,
                fresh,
            ) == update_step(state, MessageView::Invoke(shown[i as int].id), world, fresh)
        }),
{
}

/// A result takes the place of the buttons while the bar is up, and the bar's
/// time starts anew. Copying it takes all of its body, and closes the bar.
pub proof fn law_results_are_shown_and_copied_whole(
    state: BarView,
    title: Seq<char>,
    body: Seq<char>,
    world: WorldView,
    fresh: u64,
)
    requires
        state.bar is Some,
    ensures
        ({
            let popup = world.engine.loaded.config.popup;
            let (after, tasks) = update_step(
                state,
                MessageView::EngineFeedback { title, body },
                world,
                fresh,
            );
            &&& after == BarView { awaiting: false, result: Some((title, body)), ..state }
            &&& popup.timeout_ms == 0 ==> tasks.len() == 0
            &&& popup.timeout_ms > 0 ==> tasks == seq![
                TaskView::Arm {
                    after_ms: popup.timeout_ms,
                    timer: Timer::Expired(state.epoch),
                },
            ]
            &&& update_step(after, MessageView::CopyResult, world, fresh) == (
                teardown_step(state).0,
                seq![TaskView::Copy(body)] + teardown_step(state).1,
            )
        }),
        state.result is None ==> update_step(state, MessageView::CopyResult, world, fresh)
            == teardown_step(state),
{
    if state.result is None {
        assert(Seq::<TaskView>::empty() + teardown_tasks(state) =~= teardown_tasks(state));
    }
}

/// A timer of this popup closes it: the hunter's only while it hunts, the others
/// in any case. A frame of the entrance moves the bar and asks for the next one,
/// up to the sixth. A timer of any other popup does nothing.
pub proof fn law_timers_close_their_own_popup(
    state: BarView,
    epoch: u64,
    step: u8,
    world: WorldView,
    fresh: u64,
)
    ensures
        ({
            let hunt = update_step(state, MessageView::Timer(Timer::Hunt(epoch)), world, fresh);
            let expired = update_step(
                state,
                MessageView::Timer(Timer::Expired(epoch)),
                world,
                fresh,
            );
            let dismiss = update_step(
                state,
                MessageView::Timer(Timer::Dismiss(epoch)),
                world,
                fresh,
            );
            let anim = update_step(
                state,
                MessageView::Timer(Timer::Anim(epoch, step)),
                world,
                fresh,
            );
            let nothing = (state, Seq::<TaskView>::empty());
            &&& epoch != state.epoch ==> hunt == nothing && expired == nothing && dismiss
                == nothing && anim == nothing
            &&& epoch == state.epoch ==> {
                &&& expired == teardown_step(state)
                &&& dismiss == teardown_step(state)
                &&& state.hunter is Some ==> hunt == teardown_step(state)
                &&& state.hunter is None ==> hunt == nothing
                &&& state.bar is None ==> anim == nothing
                &&& (state.bar is Some && step < 6) ==> anim == (
                    BarView { anim: step, ..state },
                    seq![
                        TaskView::Place { id: state.bar->0, frame: step },
                        TaskView::Arm {
                            after_ms: 16,
                            timer: Timer::Anim(epoch, (step + 1) as u8),
                        },
                    ],
                )
                &&& (state.bar is Some && step >= 6) ==> anim == (
                    BarView { anim: 6, ..state },
                    seq![TaskView::Place { id: state.bar->0, frame: 6 }],
                )
            }
        }),
{
    let anim = update_step(state, MessageView::Timer(Timer::Anim(epoch, step)), world, fresh);
    if epoch == state.epoch && state.bar is Some {
        if step < 6 {
            assert(anim.1 =~= seq![
                TaskView::Place { id: state.bar->0, frame: step },
                TaskView::Arm { after_ms: 16, timer: Timer::Anim(epoch, (step + 1) as u8) },
            ]);
        } else {
            assert(anim.1 =~= seq![TaskView::Place { id: state.bar->0, frame: 6 }]);
        }
    }
}

/// The bar is drawn on its own surface, nothing on the pixel that is always
/// there, and a blank on any other.
pub proof fn law_each_surface_is_drawn_for_what_it_is(state: BarView, id: u64, dummy: u64)
    ensures
        state.bar == Some(id) ==> surface_of(state, id, dummy) == Surface::Bar,
        state.bar != Some(id) && id == dummy ==> surface_of(state, id, dummy) == Surface::Dummy,
        state.bar != Some(id) && id != dummy ==> surface_of(state, id, dummy) == Surface::Blank,
{
}

/// The bar shows a result in place of its buttons, and otherwise the buttons of
/// its page, each as it is, the focused one marked. There are pagers exactly
/// where there is more than one page, and one works where there is a page on its
/// side.
pub proof fn law_the_bar_shows_its_page(show: Show, state: BarView, per: nat, i: int)
    requires
        is_shown(show, state, per),
        page_of(state.buttons, per, state.page as nat).len() <= usize::MAX,
    ensures
        state.result matches Some(result) ==> (show matches Show::Result { title, body } && title@
            == result.0 && body@ == result.1),
        state.result is None ==> (show matches Show::Buttons { back, faces, forward } && {
            let shown = page_of(state.buttons, per, state.page as nat);
            let pages = page_count(state.buttons.len(), per);
            &&& faces@.len() == shown.len()
            &&& 0 <= i < shown.len() ==> {
                &&& faces@[i].id@ == shown[i].id
                &&& faces@[i].title@ == shown[i].title
                &&& faces@[i].icon@ == shown[i].icon
                &&& faces@[i].label@ == shown[i].label
                &&& state.focused is None ==> !faces@[i].focused
                &&& state.focused matches Some(at) ==> (faces@[i].focused <==> at == i)
            }
            &&& pages <= 1 ==> back is None && forward is None
            &&& pages > 1 ==> back == Some(state.page > 0) && forward == Some(
                state.page + 1 < pages,
            )
        }),
{
    if state.result is None {
        match show {
            Show::Buttons { back, faces, forward } => {
                if 0 <= i < faces@.len() {
                    assert(face_of(
                        visible_buttons(state, per)[i],
                        state.focused == Some(i as usize),
                        faces@[i],
                    ));
                }
            },
            _ => {},
        }
    }
}

} // verus!
