use grabit::actions::{Outcome, Step};
use grabit::catalog::{load, Loaded, ManifestFile};
use grabit::classify::{classify_full, Classification};
use grabit::config::{After, Builtin};
use grabit::engine::{apply, run_builtin, Button, Effect, Engine, Feedback, Job, Offer, ROUTING_MS};
use grabit::install::INSTALL_ID;
use grabit::selection::Grab;

fn loaded(manifests: &[&str]) -> Loaded {
    let files = manifests
        .iter()
        .enumerate()
        .map(|(i, text)| ManifestFile { path: format!("{i}.toml"), text: text.to_string() })
        .collect();
    let (loaded, refused) = load(None, &files, &Vec::new()).unwrap();
    assert!(refused.is_empty(), "{refused:?}");
    loaded
}

fn offer() -> Offer {
    Offer { title: "Install this action".to_owned(), label: "Install".to_owned() }
}

fn ids(buttons: &[Button]) -> Vec<&str> {
    buttons.iter().map(|button| button.id.as_str()).collect()
}

const COPY: &str = "id = \"copy\"\ntitle = \"Copy\"\nafter = \"copy\"\norder = 3\n";
const OPEN: &str =
    "id = \"open\"\ntitle = \"Open link\"\nicon = \"go\"\nlabel = \"Go\"\nurl = \"{{url}}\"\ndetects = [\"url\"]\norder = 2\n";
const CUT: &str = "id = \"cut\"\ntitle = \"Cut\"\nbuiltin = \"cut\"\norder = 1\n";
const ASK: &str =
    "id = \"ask\"\ntitle = \"Ask\"\nexec = [\"ask\", \"{{text}}\"]\nafter = \"show\"\norder = 4\n";

#[test]
fn buttons_are_the_actions_that_apply_in_order() {
    let engine = Engine::new(loaded(&[COPY, OPEN, CUT]), true);
    assert_eq!(ids(&engine.buttons("https://a.org", &offer())), vec!["cut", "open", "copy"]);
    assert_eq!(ids(&engine.buttons("words", &offer())), vec!["cut", "copy"]);
}

#[test]
fn builtins_are_omitted_without_keystrokes() {
    let engine = Engine::new(loaded(&[COPY, CUT]), false);
    assert_eq!(ids(&engine.buttons("words", &offer())), vec!["copy"]);
    assert!(!engine.can_inject());
}

#[test]
fn a_button_without_a_label_gets_the_beginning_of_its_title() {
    let engine = Engine::new(loaded(&[COPY, OPEN]), true);
    let buttons = engine.buttons("https://a.org", &offer());
    assert_eq!(
        buttons,
        vec![
            Button {
                id: "open".to_owned(),
                title: "Open link".to_owned(),
                icon: "go".to_owned(),
                label: "Go".to_owned(),
            },
            Button {
                id: "copy".to_owned(),
                title: "Copy".to_owned(),
                icon: String::new(),
                label: "Co".to_owned(),
            },
        ]
    );
}

#[test]
fn the_install_offer_leads() {
    let engine = Engine::new(loaded(&[COPY]), true);
    let buttons = engine.buttons(ASK, &offer());
    assert_eq!(ids(&buttons), vec![INSTALL_ID, "copy"]);
    assert_eq!(buttons[0].title, "Install this action");
    assert_eq!(buttons[0].label, "Install");
    assert_eq!(buttons[0].icon, "document-save-symbolic");
    assert_eq!(engine.invoke(INSTALL_ID, &Grab::text(ASK)), Job::Install(ASK.to_owned()));
}

#[test]
fn buttons_go_by_the_classification_and_the_matches() {
    let copy = format!("{COPY}match = 'a'\nnot_match = 'b'\n");
    let open = format!("{OPEN}match = 'a'\nnot_match = 'b'\n");
    let engine = Engine::new(loaded(&[&copy, &open]), true);
    let class = Classification { url: Some("u".to_owned()), ..Classification::default() };
    let all = vec![(true, false), (true, false)];
    assert_eq!(ids(&engine.buttons_from(&class, &all, &offer())), vec!["open", "copy"]);
    let some = vec![(true, true), (true, false)];
    assert_eq!(ids(&engine.buttons_from(&class, &some, &offer())), vec!["copy"]);
    let none = vec![(false, false), (true, true)];
    assert!(engine.buttons_from(&class, &none, &offer()).is_empty());
}

#[test]
fn invoking_runs_the_action_against_the_selection() {
    let engine = Engine::new(loaded(&[COPY, OPEN, ASK]), true);
    assert_eq!(
        engine.invoke("open", &Grab::text("https://a.org.")),
        Job::Run {
            id: "open".to_owned(),
            title: "Open link".to_owned(),
            after: After::Ignore,
            step: Ok(Step::Open("https://a.org".to_owned())),
        }
    );
    assert_eq!(
        engine.invoke("copy", &Grab::text("x")),
        Job::Run {
            id: "copy".to_owned(),
            title: "Copy".to_owned(),
            after: After::Copy,
            step: Ok(Step::Done(Outcome::Clipboard("x".to_owned()))),
        }
    );
    assert_eq!(engine.invoke("nope", &Grab::text("x")), Job::Unknown);
    assert_eq!(engine.action_after("ask"), Some(After::Show));
    assert_eq!(engine.action_after("copy"), Some(After::Copy));
    assert_eq!(engine.action_after("nope"), None);
}

#[test]
fn an_action_is_invoked_with_its_options() {
    let manifest = "id = \"t\"\ntitle = \"T\"\nurl = \"https://t.org/{{option:to}}/{{text}}\"\n\
                    [options.to]\nlabel = \"To\"\ndefault = \"de\"\nvalue = \"fr\"\n";
    let engine = Engine::new(loaded(&[manifest]), false);
    match engine.invoke("t", &Grab::text("a b")) {
        Job::Run { step, .. } => {
            assert_eq!(step, Ok(Step::Open("https://t.org/fr/a%20b".to_owned())))
        }
        other => panic!("{other:?}"),
    }
}

#[test]
fn invoking_with_a_known_rendering() {
    let manifest = "id = \"m\"\ntitle = \"M\"\nexec = [\"n\", \"{{markdown}}\"]\n";
    let engine = Engine::new(loaded(&[manifest]), false);
    let grab = Grab { text: "b".to_owned(), html: Some("<b>b</b>".to_owned()) };
    let class = classify_full("b");
    let given = engine.invoke_with("m", &grab, &class, &Some("**b**".to_owned()));
    assert_eq!(given, engine.invoke("m", &grab));
    assert_ne!(given, engine.invoke_with("m", &grab, &class, &None));
}

#[test]
fn builtins_are_keystrokes() {
    assert_eq!(
        run_builtin(Builtin::Cut, "x", true),
        vec![
            Effect::SetClipboard("x".to_owned()),
            Effect::Delete("the selection was copied but could not be deleted".to_owned()),
        ]
    );
    assert_eq!(
        run_builtin(Builtin::Paste, "x", true),
        vec![Effect::Paste("pasting the clipboard".to_owned())]
    );
    assert_eq!(
        run_builtin(Builtin::Paste, "x", false),
        vec![Effect::Fail(
            "pasting the clipboard: this session cannot synthesise keystrokes".to_owned()
        )]
    );
    let engine = Engine::new(loaded(&[CUT]), false);
    assert_eq!(
        engine.invoke("cut", &Grab::text("x")),
        Job::Builtin { title: "Cut".to_owned(), effects: run_builtin(Builtin::Cut, "x", false) }
    );
    assert_eq!(run_builtin(Builtin::Cut, "x", false)[0], Effect::SetClipboard("x".to_owned()));
}

#[test]
fn a_replacement_reaches_the_clipboard_either_way() {
    assert_eq!(
        apply("T", Outcome::Replace("new".to_owned()), true),
        vec![
            Effect::SetClipboard("new".to_owned()),
            Effect::Pause(ROUTING_MS),
            Effect::Paste("pasting the replacement text".to_owned()),
        ]
    );
    assert_eq!(
        apply("T", Outcome::Replace("new".to_owned()), false),
        vec![
            Effect::SetClipboard("new".to_owned()),
            Effect::Fail(
                "this session cannot synthesise keystrokes, so the replacement text was put on the clipboard but not pasted"
                    .to_owned()
            ),
        ]
    );
    assert_eq!(apply("T", Outcome::Nothing, true), vec![]);
    assert_eq!(
        apply("T", Outcome::Clipboard("c".to_owned()), false),
        vec![Effect::SetClipboard("c".to_owned())]
    );
    assert_eq!(
        apply("T", Outcome::Show("s".to_owned()), false),
        vec![Effect::Present(Feedback::Result { title: "T".to_owned(), body: "s".to_owned() })]
    );
}

#[test]
fn reloading_takes_over_what_was_loaded() {
    let mut engine = Engine::new(loaded(&[COPY]), true);
    assert_eq!(engine.reload(loaded(&[COPY, ASK])), 2);
    assert_eq!(ids(&engine.buttons("x", &offer())), vec!["copy", "ask"]);
    assert_eq!(engine.config().popup.max_actions, 8);
}
