use grabit::bar::{
    nav_of, Bar, Key, Message, Nav, Show, Surface, Task, Timer, World, ANIM_FRAME_MS, ANIM_STEPS,
    HUNT_WINDOW_MS,
};
use grabit::catalog::{load, ManifestFile};
use grabit::config::Popup;
use grabit::control::Command;
use grabit::engine::{Button, Engine, Feedback, Offer};
use grabit::selection::{Grab, Settled};

fn engine(config: &str) -> Engine {
    let manifests = [
        "id = \"a\"\ntitle = \"A\"\nafter = \"copy\"\norder = 1\n",
        "id = \"b\"\ntitle = \"B\"\nexec = [\"b\"]\nafter = \"show\"\norder = 2\n",
        "id = \"c\"\ntitle = \"C\"\nafter = \"copy\"\nmatch = '^x'\norder = 3\n",
    ];
    let files = manifests
        .iter()
        .map(|text| ManifestFile { path: String::new(), text: text.to_string() })
        .collect();
    Engine::new(load(Some(config), &files, &Vec::new()).unwrap().0, true)
}

fn offer() -> Offer {
    Offer { title: "Install".to_owned(), label: "In".to_owned() }
}

fn tell(bar: &mut Bar, message: Message, engine: &Engine, app: &Option<String>, fresh: u64) -> Vec<Task> {
    let offer = offer();
    bar.update(message, &World { engine, app, offer: &offer }, fresh)
}

fn selected(text: &str) -> Message {
    Message::Selection(Settled::Text(Grab::text(text)))
}

fn shown_ids(bar: &Bar, max_actions: usize) -> Vec<String> {
    match bar.show(max_actions) {
        Show::Buttons { faces, .. } => faces.into_iter().map(|face| face.id).collect(),
        other => panic!("{other:?}"),
    }
}

#[test]
fn a_selection_opens_the_hunter_and_the_pointer_places_the_bar() {
    let engine = engine("");
    let mut bar = Bar::new();
    let tasks = tell(&mut bar, selected("x"), &engine, &None, 10);
    assert_eq!(
        tasks,
        vec![
            Task::ForgetSize,
            Task::OpenHunter(10),
            Task::Arm { after_ms: HUNT_WINDOW_MS, timer: Timer::Hunt(1) },
        ]
    );
    assert!(bar.is_hunter(10) && !bar.is_bar(10));
    assert_eq!(tell(&mut bar, Message::Pointer(9), &engine, &None, 11), vec![]);
    assert_eq!(tell(&mut bar, Message::Sized(10), &engine, &None, 11), vec![Task::KeepOutput]);
    let tasks = tell(&mut bar, Message::Pointer(10), &engine, &None, 11);
    assert_eq!(
        tasks,
        vec![
            Task::KeepAnchor,
            Task::Destroy(10),
            Task::OpenBar { id: 11, keyboard: false, frame: 0 },
            Task::Arm { after_ms: ANIM_FRAME_MS, timer: Timer::Anim(1, 1) },
            Task::Arm { after_ms: 8000, timer: Timer::Expired(1) },
        ]
    );
    assert!(bar.is_bar(11));
    assert_eq!(bar.surface(11, 0), Surface::Bar);
    assert_eq!(bar.surface(0, 0), Surface::Dummy);
    assert_eq!(bar.surface(10, 0), Surface::Blank);
    assert_eq!(shown_ids(&bar, 8), vec!["a", "b", "c"]);
    assert_eq!(
        tell(&mut bar, Message::Sized(11), &engine, &None, 12),
        vec![Task::KeepSize, Task::Place { id: 11, frame: 0 }]
    );
}

#[test]
fn the_entrance_comes_to_rest() {
    let engine = engine("");
    let mut bar = Bar::new();
    tell(&mut bar, selected("x"), &engine, &None, 1);
    tell(&mut bar, Message::Pointer(1), &engine, &None, 2);
    assert_eq!(
        bar.ring(Timer::Anim(1, 1)),
        vec![
            Task::Place { id: 2, frame: 1 },
            Task::Arm { after_ms: ANIM_FRAME_MS, timer: Timer::Anim(1, 2) },
        ]
    );
    assert_eq!(
        bar.ring(Timer::Anim(1, ANIM_STEPS)),
        vec![Task::Place { id: 2, frame: ANIM_STEPS }]
    );
}

#[test]
fn a_bar_can_appear_at_rest() {
    let mut bar = Bar::new();
    let button = Button {
        id: "a".to_owned(),
        title: "A".to_owned(),
        icon: String::new(),
        label: "A".to_owned(),
    };
    bar.begin_with(Grab::text("x"), true, false, vec![button], 5);
    let popup = Popup { animate: false, timeout_ms: 0, ..Popup::default() };
    assert_eq!(
        bar.place(&popup, 6),
        vec![
            Task::KeepAnchor,
            Task::Destroy(5),
            Task::OpenBar { id: 6, keyboard: true, frame: ANIM_STEPS },
        ]
    );
    assert_eq!(bar.place(&popup, 7), vec![]);
}

#[test]
fn timers_of_an_older_popup_do_nothing() {
    let engine = engine("");
    let mut bar = Bar::new();
    tell(&mut bar, selected("x"), &engine, &None, 1);
    tell(&mut bar, selected("y"), &engine, &None, 2);
    assert_eq!(bar.ring(Timer::Hunt(1)), vec![]);
    assert!(bar.is_hunter(2));
    assert_eq!(bar.ring(Timer::Hunt(2)), vec![Task::Destroy(2), Task::ForgetSize]);
    assert_eq!(bar.ring(Timer::Expired(1)), vec![]);
    assert_eq!(bar.ring(Timer::Dismiss(2)), vec![]);
    assert_eq!(bar.ring(Timer::Anim(3, 1)), vec![]);
}

#[test]
fn nothing_is_shown_in_an_excluded_application() {
    let engine = engine("[applications]\nexclude = [\"editor\"]\n");
    let mut bar = Bar::new();
    let app = Some("org.x.Editor".to_owned());
    assert_eq!(tell(&mut bar, selected("x"), &engine, &app, 1), vec![Task::ForgetSize]);
    assert!(!bar.is_hunter(1));
    let other = Some("org.x.Viewer".to_owned());
    assert!(tell(&mut bar, selected("x"), &engine, &other, 1).contains(&Task::OpenHunter(1)));
}

#[test]
fn the_bar_goes_away_once_the_pointer_left_it() {
    let engine = engine("");
    let mut bar = Bar::new();
    tell(&mut bar, selected("x"), &engine, &None, 1);
    tell(&mut bar, Message::Pointer(1), &engine, &None, 2);
    assert_eq!(tell(&mut bar, Message::Hover(2, false), &engine, &None, 3), vec![]);
    assert_eq!(tell(&mut bar, Message::Hover(2, true), &engine, &None, 3), vec![]);
    assert_eq!(
        tell(&mut bar, Message::Hover(2, false), &engine, &None, 3),
        vec![Task::Arm { after_ms: 900, timer: Timer::Dismiss(1) }]
    );
    assert_eq!(
        tell(&mut bar, Message::Timer(Timer::Dismiss(1)), &engine, &None, 3),
        vec![Task::Destroy(2), Task::ForgetSize]
    );
}

#[test]
fn the_bar_is_gone_before_the_action_runs_unless_it_shows_the_result() {
    let engine = engine("");
    let mut bar = Bar::new();
    tell(&mut bar, selected("x"), &engine, &None, 1);
    tell(&mut bar, Message::Pointer(1), &engine, &None, 2);
    assert_eq!(
        tell(&mut bar, Message::Invoke("b".to_owned()), &engine, &None, 3),
        vec![Task::Invoke { action: "b".to_owned(), grab: Grab::text("x") }]
    );
    assert!(bar.is_bar(2));
    let feedback = Feedback::Result { title: "B".to_owned(), body: "out".to_owned() };
    assert_eq!(
        tell(&mut bar, Message::EngineFeedback(feedback), &engine, &None, 3),
        vec![Task::Arm { after_ms: 8000, timer: Timer::Expired(1) }]
    );
    assert_eq!(bar.show(8), Show::Result { title: "B".to_owned(), body: "out".to_owned() });
    assert_eq!(
        tell(&mut bar, Message::CopyResult, &engine, &None, 3),
        vec![Task::Copy("out".to_owned()), Task::Destroy(2), Task::ForgetSize]
    );
    let late = Feedback::Result { title: "B".to_owned(), body: "late".to_owned() };
    assert_eq!(tell(&mut bar, Message::EngineFeedback(late), &engine, &None, 3), vec![]);

    tell(&mut bar, selected("x"), &engine, &None, 4);
    tell(&mut bar, Message::Pointer(4), &engine, &None, 5);
    assert_eq!(
        tell(&mut bar, Message::Invoke("a".to_owned()), &engine, &None, 6),
        vec![
            Task::Destroy(5),
            Task::ForgetSize,
            Task::Invoke { action: "a".to_owned(), grab: Grab::text("x") },
        ]
    );
}

#[test]
fn pages_hold_every_button_once() {
    let engine = engine("[popup]\nmax_actions = 2\n");
    let mut bar = Bar::new();
    tell(&mut bar, selected("x"), &engine, &None, 1);
    tell(&mut bar, Message::Pointer(1), &engine, &None, 2);
    assert_eq!(bar.visible(2).1, 2);
    assert_eq!(shown_ids(&bar, 2), vec!["a", "b"]);
    match bar.show(2) {
        Show::Buttons { back, forward, .. } => {
            assert_eq!((back, forward), (Some(false), Some(true)))
        }
        other => panic!("{other:?}"),
    }
    tell(&mut bar, Message::Page(1), &engine, &None, 3);
    assert_eq!(shown_ids(&bar, 2), vec!["c"]);
    tell(&mut bar, Message::Page(1), &engine, &None, 3);
    assert_eq!(shown_ids(&bar, 2), vec!["c"]);
    bar.flip(-1, 2);
    assert_eq!(shown_ids(&bar, 2), vec!["a", "b"]);
}

#[test]
fn the_keyboard_walks_over_the_pages() {
    let engine = engine("[popup]\nmax_actions = 2\n");
    let mut bar = Bar::new();
    tell(&mut bar, Message::Primary("x".to_owned()), &engine, &None, 1);
    let tasks = tell(&mut bar, Message::Pointer(1), &engine, &None, 2);
    assert!(tasks.contains(&Task::OpenBar { id: 2, keyboard: true, frame: 0 }));
    let focused = |bar: &Bar| -> String {
        match bar.show(2) {
            Show::Buttons { faces, .. } => {
                faces.into_iter().find(|face| face.focused).map(|face| face.id).unwrap()
            }
            other => panic!("{other:?}"),
        }
    };
    assert_eq!(focused(&bar), "a");
    tell(&mut bar, Message::Key(Nav::Next), &engine, &None, 3);
    assert_eq!(focused(&bar), "b");
    tell(&mut bar, Message::Key(Nav::Next), &engine, &None, 3);
    assert_eq!(focused(&bar), "c");
    tell(&mut bar, Message::Key(Nav::Next), &engine, &None, 3);
    assert_eq!(focused(&bar), "c");
    bar.navigate(-1, 2);
    assert_eq!(focused(&bar), "b");
    tell(&mut bar, Message::Key(Nav::Prev), &engine, &None, 3);
    assert_eq!(
        tell(&mut bar, Message::Key(Nav::Activate), &engine, &None, 3),
        vec![
            Task::Destroy(2),
            Task::ForgetSize,
            Task::Invoke { action: "a".to_owned(), grab: Grab::text("x") },
        ]
    );
    tell(&mut bar, Message::Primary("x".to_owned()), &engine, &None, 4);
    tell(&mut bar, Message::Pointer(4), &engine, &None, 5);
    assert_eq!(
        tell(&mut bar, Message::Key(Nav::Dismiss), &engine, &None, 6),
        vec![Task::Destroy(5), Task::ForgetSize]
    );
}

#[test]
fn keys_stand_for_gestures() {
    assert_eq!(nav_of(Key::ArrowRight), Some(Nav::Next));
    assert_eq!(nav_of(Key::ArrowDown), Some(Nav::Next));
    assert_eq!(nav_of(Key::Tab), Some(Nav::Next));
    assert_eq!(nav_of(Key::ArrowLeft), Some(Nav::Prev));
    assert_eq!(nav_of(Key::ArrowUp), Some(Nav::Prev));
    assert_eq!(nav_of(Key::Enter), Some(Nav::Activate));
    assert_eq!(nav_of(Key::Escape), Some(Nav::Dismiss));
    assert_eq!(nav_of(Key::Other), None);
}

#[test]
fn requests_from_outside_are_obeyed() {
    let engine = engine("");
    let mut bar = Bar::new();
    assert_eq!(bar.obey(Command::Show), vec![Task::ReadPrimary]);
    assert_eq!(bar.obey(Command::Reload), vec![Task::Reload]);
    assert_eq!(tell(&mut bar, Message::Primary("  ".to_owned()), &engine, &None, 1), vec![]);
    tell(&mut bar, selected("x"), &engine, &None, 1);
    assert_eq!(bar.obey(Command::Hide), vec![Task::Destroy(1), Task::ForgetSize]);
    assert_eq!(
        tell(&mut bar, Message::Control(Command::Quit), &engine, &None, 1),
        vec![Task::ForgetSize, Task::Exit]
    );
    let cleared = Message::Selection(Settled::Cleared);
    assert_eq!(tell(&mut bar, cleared, &engine, &None, 1), vec![Task::ForgetSize]);
    assert_eq!(bar.teardown(), vec![Task::ForgetSize]);
    assert_eq!(
        bar.invoke_with("a".to_owned(), true),
        vec![Task::Invoke { action: "a".to_owned(), grab: Grab::default() }]
    );
}
