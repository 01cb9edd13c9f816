use grabit::catalog::{load, ManifestFile};
use grabit::window::{dial_message, user_manifest_name, App, Deed, Dial, Message, Row, Switch};

fn app() -> App {
    let manifests = [
        "id = \"a\"\ntitle = \"A\"\nafter = \"copy\"\norder = 1\n[options.o]\nlabel = \"O\"\ndefault = \"d\"\n",
        "id = \"b\"\ntitle = \"B\"\nafter = \"copy\"\norder = 2\nenabled = false\n\
         [options.p]\nlabel = \"P\"\ndefault = \"x\"\nchoices = [\"w\", \"x\"]\n",
    ];
    let files = manifests
        .iter()
        .map(|text| ManifestFile { path: String::new(), text: text.to_string() })
        .collect();
    App::new(load(None, &files, &Vec::new()).unwrap().0)
}

fn order(app: &App) -> Vec<&str> {
    app.actions().iter().map(|action| action.spec.id.as_str()).collect()
}

#[test]
fn dials_and_switches_save_the_settings() {
    let mut app = app();
    let turns = [
        (Dial::Settle, 1),
        (Dial::PerPage, 2),
        (Dial::IconSize, 3),
        (Dial::OffsetX, -4),
        (Dial::OffsetY, -5),
        (Dial::Dismiss, 6),
        (Dial::Timeout, 7),
        (Dial::MinLength, 8),
        (Dial::MaxLength, 9),
    ];
    for (dial, value) in turns {
        assert_eq!(app.update(dial_message(dial, value)), Deed::SaveConfig);
    }
    assert_eq!(app.update(Message::Animate(false)), Deed::SaveConfig);
    assert_eq!(app.update(Message::IgnoreWhitespace(false)), Deed::SaveConfig);
    let popup = app.config().popup;
    assert_eq!((popup.settle_ms, popup.max_actions, popup.icon_size), (1, 2, 3));
    assert_eq!((popup.offset_x, popup.offset_y), (-4, -5));
    assert_eq!((popup.dismiss_ms, popup.timeout_ms, popup.animate), (6, 7, false));
    let selection = app.config().selection;
    assert_eq!((selection.min_length, selection.max_length), (8, 9));
    assert!(!selection.ignore_whitespace_only);
}

#[test]
fn the_exclude_list_stays_clean() {
    let mut app = app();
    assert_eq!(app.update(Message::ExcludeInput("  ".to_owned())), Deed::Nothing);
    assert_eq!(app.update(Message::ExcludeAdd), Deed::Nothing);
    app.update(Message::ExcludeInput(" editor ".to_owned()));
    assert_eq!(app.update(Message::ExcludeAdd), Deed::SaveConfig);
    assert_eq!(app.config().applications.exclude, vec!["editor".to_owned()]);
    app.update(Message::ExcludeInput("editor".to_owned()));
    assert_eq!(app.update(Message::ExcludeAdd), Deed::Nothing);
    assert_eq!(
        app.applications_section(),
        vec![
            Row::ExcludeField { text: "editor".to_owned() },
            Row::Excluded { index: 0, entry: "editor".to_owned() },
        ]
    );
    assert_eq!(app.update(Message::ExcludeRemove(1)), Deed::Nothing);
    assert_eq!(app.update(Message::ExcludeRemove(0)), Deed::SaveConfig);
    assert!(app.config().applications.exclude.is_empty());
}

#[test]
fn moving_back_restores_the_list() {
    let mut app = app();
    assert_eq!(app.update(Message::ActionMove(0, -1)), Deed::Nothing);
    assert_eq!(app.update(Message::ActionMove(1, 1)), Deed::Nothing);
    assert_eq!(app.update(Message::ActionMove(0, 1)), Deed::Renumber);
    assert_eq!(order(&app), vec!["b", "a"]);
    assert_eq!(app.update(Message::ActionMove(1, -1)), Deed::Renumber);
    assert_eq!(order(&app), vec!["a", "b"]);
    assert_eq!(app.update(Message::ActionMove(7, -6)), Deed::Nothing);
}

#[test]
fn enter_commits_what_was_typed() {
    let mut app = app();
    let field = "o".to_owned();
    assert_eq!(app.update(Message::ActionOptionCommit(0, field.clone())), Deed::Nothing);
    let typed = Message::ActionOptionInput(0, field.clone(), "dr".to_owned());
    assert_eq!(app.update(typed), Deed::Nothing);
    assert!(app.actions_section().contains(&Row::OptionField {
        index: 0,
        name: "o".to_owned(),
        label: "O".to_owned(),
        shown: "dr".to_owned(),
    }));
    assert_eq!(
        app.update(Message::ActionOptionCommit(0, field.clone())),
        Deed::SetOption { index: 0, name: "o".to_owned(), chosen: "dr".to_owned() }
    );
    assert_eq!(app.update(Message::ActionOptionCommit(0, field)), Deed::Nothing);
}

#[test]
fn actions_are_switched_edited_and_chosen_for() {
    let mut app = app();
    assert_eq!(
        app.update(Message::ActionEnabled(1, true)),
        Deed::SetEnabled { index: 1, enabled: true }
    );
    assert_eq!(app.update(Message::ActionEnabled(2, true)), Deed::Nothing);
    assert_eq!(app.update(Message::ActionEdit(0)), Deed::Edit { index: 0 });
    assert_eq!(app.update(Message::ActionEdit(2)), Deed::Nothing);
    assert_eq!(
        app.update(Message::ActionOptionChoice(1, "p".to_owned(), "w".to_owned())),
        Deed::SetOption { index: 1, name: "p".to_owned(), chosen: "w".to_owned() }
    );
    assert_eq!(app.update(Message::OpenFolder), Deed::OpenFolder);
}

#[test]
fn the_sections_show_the_settings() {
    let app = app();
    let popup = app.popup_section();
    assert_eq!(popup.len(), 8);
    assert_eq!(
        popup[0],
        Row::Number { dial: Dial::Settle, value: 140, step: 20, low: 0, high: 2000 }
    );
    assert_eq!(popup[7], Row::Toggle { switch: Switch::Animate, on: true });
    let selection = app.selection_section();
    assert_eq!(selection.len(), 3);
    assert_eq!(selection[2], Row::Toggle { switch: Switch::IgnoreWhitespace, on: true });
    assert_eq!(
        app.actions_section(),
        vec![
            Row::Folder,
            Row::Action {
                index: 0,
                title: "A".to_owned(),
                id: "a".to_owned(),
                up: false,
                down: true,
                enabled: true,
            },
            Row::OptionField {
                index: 0,
                name: "o".to_owned(),
                label: "O".to_owned(),
                shown: "d".to_owned(),
            },
            Row::Action {
                index: 1,
                title: "B".to_owned(),
                id: "b".to_owned(),
                up: true,
                down: false,
                enabled: false,
            },
            Row::OptionChoice {
                index: 1,
                name: "p".to_owned(),
                label: "P".to_owned(),
                choices: vec!["w".to_owned(), "x".to_owned()],
                marked: Some(1),
            },
        ]
    );
}

#[test]
fn a_refresh_keeps_what_is_being_typed() {
    let mut window = app();
    window.update(Message::ExcludeInput("ed".to_owned()));
    let files = vec![ManifestFile {
        path: String::new(),
        text: "id = \"n\"\ntitle = \"N\"\nafter = \"copy\"\n".to_owned(),
    }];
    window.refresh(load(None, &files, &Vec::new()).unwrap().0);
    assert_eq!(order(&window), vec!["n"]);
    assert_eq!(
        window.applications_section(),
        vec![Row::ExcludeField { text: "ed".to_owned() }]
    );
}

#[test]
fn a_user_manifest_keeps_its_file_name() {
    assert_eq!(user_manifest_name("/usr/share/grabit/actions/search.toml", "s"), "search.toml");
    assert_eq!(user_manifest_name("actions/x.toml/", "s"), "x.toml");
    assert_eq!(user_manifest_name("", "s"), "s.toml");
    assert_eq!(user_manifest_name("/a/..", "s"), "s.toml");
}
