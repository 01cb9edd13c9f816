use grabit::catalog::{load, ManifestFile};
use grabit::config::{Applications, Selection};
use grabit::control::Command;
use grabit::engine::{Button, Engine, Feedback, Offer};
use grabit::gnome::{
    extension_version, is_available, relay, relay_from, selection_signal, Deed, Event, Session,
};
use grabit::selection::{Grab, Raw, Settled};

#[test]
fn the_extension_is_there_if_the_bus_says_so() {
    assert!(is_available(Some(true)));
    assert!(!is_available(Some(false)));
    assert!(!is_available(None));
    assert_eq!(extension_version(Some(3)), 3);
    assert_eq!(extension_version(None), 1);
    assert_eq!(selection_signal(1), "SelectionChanged");
    assert_eq!(selection_signal(2), "SelectionChangedV2");
}

#[test]
fn an_excluded_selection_is_reported_as_cleared() {
    let list = Applications { exclude: vec!["editor".to_owned()] };
    let selection = Raw::Selection { generation: 1, grab: Grab::text("x") };
    assert_eq!(relay_from("x", "org.a.Editor", &list), Raw::Cleared);
    assert_eq!(relay_from("x", "viewer", &list), selection);
    assert_eq!(relay_from("", "viewer", &list), Raw::Cleared);
    assert_eq!(relay_from("x", "", &Applications { exclude: vec![String::new()] }), selection);
    assert_eq!(relay("x"), selection);
    assert_eq!(relay(""), Raw::Cleared);
}

fn engine() -> Engine {
    let files = vec![ManifestFile {
        path: String::new(),
        text: "id = \"a\"\ntitle = \"A\"\nafter = \"copy\"\nmatch = 'x'\n".to_owned(),
    }];
    Engine::new(load(None, &files, &Vec::new()).unwrap().0, true)
}

fn offer() -> Offer {
    Offer { title: "I".to_owned(), label: "I".to_owned() }
}

fn ids(deed: Deed) -> Vec<String> {
    match deed {
        Deed::ShowPopup(buttons) => buttons.into_iter().map(|button| button.id).collect(),
        other => panic!("{other:?}"),
    }
}

#[test]
fn a_settled_selection_shows_the_bar_and_an_action_uses_it_up() {
    let engine = engine();
    let mut session = Session::new(2);
    let text = |t: &str| Event::Selection(Settled::Text(Grab::text(t)));
    assert_eq!(ids(session.handle(text("x"), &engine, &offer())), vec!["a".to_owned()]);
    assert!(matches!(session.handle(text("y"), &engine, &offer()), Deed::Nothing));
    match session.handle(Event::Action("a".to_owned()), &engine, &offer()) {
        Deed::Invoke { id, grab } => assert_eq!((id.as_str(), grab), ("a", Grab::text("x"))),
        other => panic!("{other:?}"),
    }
    match session.handle(Event::Action("a".to_owned()), &engine, &offer()) {
        Deed::Invoke { grab, .. } => assert_eq!(grab, Grab::default()),
        other => panic!("{other:?}"),
    }
}

#[test]
fn clearing_hides_the_bar() {
    let engine = engine();
    let mut session = Session::new(1);
    session.handle(Event::Selection(Settled::Text(Grab::text("x"))), &engine, &offer());
    let deed = session.handle(Event::Selection(Settled::Cleared), &engine, &offer());
    assert!(matches!(deed, Deed::HidePopup));
    match session.handle(Event::Action("a".to_owned()), &engine, &offer()) {
        Deed::Invoke { grab, .. } => assert_eq!(grab, Grab::default()),
        other => panic!("{other:?}"),
    }
}

#[test]
fn an_old_extension_shows_no_results() {
    let engine = engine();
    let feedback =
        || Event::Feedback(Feedback::Result { title: "T".to_owned(), body: "B".to_owned() });
    match Session::new(2).handle(feedback(), &engine, &offer()) {
        Deed::ShowResult { title, body } => assert_eq!((title.as_str(), body.as_str()), ("T", "B")),
        other => panic!("{other:?}"),
    }
    match Session::new(1).handle(feedback(), &engine, &offer()) {
        Deed::LogResult { title, body } => assert_eq!((title.as_str(), body.as_str()), ("T", "B")),
        other => panic!("{other:?}"),
    }
}

#[test]
fn a_bar_that_was_asked_for_is_shown_even_when_empty() {
    let engine = engine();
    let mut session = Session::new(2);
    let ask = session.handle(Event::Command(Command::Show), &engine, &offer());
    assert!(matches!(ask, Deed::ReadPrimary));
    assert!(ids(session.handle(Event::Primary("y".to_owned()), &engine, &offer())).is_empty());
    let blank = session.handle(Event::Primary("  ".to_owned()), &engine, &offer());
    assert!(matches!(blank, Deed::Nothing));
    match session.handle(Event::Action("a".to_owned()), &engine, &offer()) {
        Deed::Invoke { grab, .. } => assert_eq!(grab, Grab::text("y")),
        other => panic!("{other:?}"),
    }
}

#[test]
fn the_other_requests_are_passed_on() {
    let engine = engine();
    let mut session = Session::new(2);
    let mut ask = |command| session.handle(Event::Command(command), &engine, &offer());
    assert!(matches!(ask(Command::Hide), Deed::HidePopup));
    assert!(matches!(ask(Command::Reload), Deed::Reload));
    assert!(matches!(ask(Command::Quit), Deed::Quit));
}

#[test]
fn given_buttons_are_shown() {
    let button = Button {
        id: "g".to_owned(),
        title: "G".to_owned(),
        icon: String::new(),
        label: "G".to_owned(),
    };
    let limits = Selection { min_length: 2, max_length: 5, ignore_whitespace_only: true };
    let mut session = Session::new(2);
    let long = session.handle_with(Event::Primary("abc".to_owned()), &limits, vec![button]);
    assert_eq!(ids(long), vec!["g".to_owned()]);
    let short = session.handle_with(Event::Primary("a".to_owned()), &limits, Vec::new());
    assert!(matches!(short, Deed::Nothing));
}
