use grabit::catalog::{arrange, is_manifest_file, load, read_manifests, ManifestFile};
use grabit::document::Misfit;
use grabit::config::{parse_config, Applications, Config, ConfigError, Popup, Selection};

#[test]
fn an_empty_file_is_all_defaults() {
    let config = parse_config("").unwrap();
    assert_eq!(config.popup, Popup::default());
    assert_eq!(config.selection, Selection::default());
    assert!(config.applications.exclude.is_empty());
    assert_eq!(config.popup, Config::default().popup);
}

#[test]
fn the_documented_file_holds_the_defaults() {
    let config = parse_config(
        "[popup]\nsettle_ms = 140\nmax_actions = 8\nicon_size = 16\noffset_x = 12\n\
         offset_y = 18\ndismiss_ms = 900\ntimeout_ms = 8000\n\n[selection]\nmin_length = 1\n\
         max_length = 20000\nignore_whitespace_only = true\n",
    )
    .unwrap();
    assert_eq!(config.popup, Popup::default());
    assert_eq!(config.selection, Selection::default());
    assert_eq!(config.popup.settle_ms, 140);
    assert_eq!(config.popup.max_actions, 8);
    assert_eq!(config.popup.icon_size, 16);
    assert_eq!(config.popup.offset_x, 12);
    assert_eq!(config.popup.offset_y, 18);
    assert_eq!(config.popup.dismiss_ms, 900);
    assert_eq!(config.popup.timeout_ms, 8000);
    assert!(config.popup.animate);
    assert_eq!(config.selection.min_length, 1);
    assert_eq!(config.selection.max_length, 20000);
}

#[test]
fn settings_are_read_member_by_member() {
    let config = parse_config(
        "[popup]\noffset_x = -3\nanimate = false\n[applications]\nexclude = [\"a\", \"b\"]\n",
    )
    .unwrap();
    assert_eq!(config.popup, Popup { offset_x: -3, animate: false, ..Popup::default() });
    assert_eq!(config.applications.exclude, vec!["a".to_owned(), "b".to_owned()]);
}

fn refused(text: &str) -> Misfit {
    match parse_config(text).unwrap_err() {
        ConfigError::Schema(misfit) => misfit,
        other => panic!("{other:?}"),
    }
}

#[test]
fn unknown_and_misfitting_members_are_refused() {
    assert_eq!(refused("[popup]\nsetle_ms = 1\n"), Misfit::Unknown("popup.setle_ms".to_owned()));
    assert_eq!(refused("[pop]\n"), Misfit::Unknown("pop".to_owned()));
    assert_eq!(refused("[popup]\nsettle_ms = -1\n"), Misfit::Wrong("popup.settle_ms".to_owned()));
    assert_eq!(refused("[popup]\nsettle_ms = \"1\"\n"), Misfit::Wrong("popup.settle_ms".to_owned()));
    assert_eq!(refused("[applications]\nexclude = [1]\n"), Misfit::Wrong("applications.exclude".to_owned()));
    assert_eq!(refused("popup = 1\n"), Misfit::Wrong("popup".to_owned()));
    assert_eq!(refused("popup = [1, 2, 3, 4, 5, 6, 7, 8]\n"), Misfit::Wrong("popup.animate".to_owned()));
    assert_eq!(
        refused("[selection]\nmax_length = -1\n"),
        Misfit::Wrong("selection.max_length".to_owned())
    );
    assert_eq!(
        parse_config("[pop]\n").unwrap_err().message(),
        "unknown member `pop`"
    );
    match parse_config("[popup\n").unwrap_err() {
        ConfigError::Syntax(message) => assert!(!message.is_empty()),
        other => panic!("{other:?}"),
    }
}

fn excluding(entries: &[&str]) -> Applications {
    Applications { exclude: entries.iter().map(|entry| entry.to_string()).collect() }
}

#[test]
fn an_entry_covers_an_app_id_or_its_last_segment() {
    let list = excluding(&["firefox"]);
    assert!(list.is_excluded("firefox"));
    assert!(list.is_excluded("org.mozilla.firefox"));
    assert!(list.is_excluded("org.mozilla.Firefox"));
    assert!(!list.is_excluded("org.mozilla.firefox.beta"));
    assert!(!list.is_excluded("waterfirefox"));
    let list = excluding(&["x", "org.mozilla.FIREFOX"]);
    assert!(list.is_excluded("org.mozilla.firefox"));
    assert!(!list.is_excluded("firefox"));
    // Two segments are neither the whole id nor the last one.
    assert!(!excluding(&["mozilla.firefox"]).is_excluded("org.mozilla.firefox"));
    assert!(excluding(&["mozilla.firefox"]).is_excluded("mozilla.firefox"));
    assert!(!excluding(&[]).is_excluded("firefox"));
}

fn file(path: &str, text: &str) -> ManifestFile {
    ManifestFile { path: path.to_owned(), text: text.to_owned() }
}

#[test]
fn only_toml_files_are_manifests() {
    assert!(is_manifest_file("a.toml"));
    assert!(is_manifest_file("a.b.toml"));
    assert!(!is_manifest_file("a.toml~"));
    assert!(!is_manifest_file(".toml"));
    assert!(!is_manifest_file("toml"));
    assert!(!is_manifest_file("a.TOML"));
}

#[test]
fn a_user_action_replaces_the_packaged_one() {
    let system = vec![
        file("/s/a.toml", "id = \"a\"\ntitle = \"System A\"\nafter = \"copy\"\norder = 1\n"),
        file("/s/b.toml", "id = \"b\"\ntitle = \"B\"\nafter = \"copy\"\norder = 2\n"),
    ];
    let user = vec![file("/u/z.toml", "id = \"a\"\ntitle = \"User A\"\nafter = \"show\"\norder = 3\n")];
    let (loaded, refused) = load(None, &system, &user).unwrap();
    assert!(refused.is_empty());
    let seen: Vec<(&str, &str, &str)> = loaded
        .actions
        .iter()
        .map(|a| (a.spec.id.as_str(), a.spec.title.as_str(), a.origin.as_str()))
        .collect();
    assert_eq!(seen, vec![("b", "B", "/s/b.toml"), ("a", "User A", "/u/z.toml")]);
    assert_eq!(loaded.config.popup, Popup::default());
}

#[test]
fn equal_orders_go_by_id() {
    let files = vec![
        file("1", "id = \"b\"\ntitle = \"B\"\nafter = \"copy\"\norder = 5\n"),
        file("2", "id = \"a\"\ntitle = \"A\"\nafter = \"copy\"\norder = 5\n"),
        file("3", "id = \"c\"\ntitle = \"C\"\nafter = \"copy\"\norder = -5\n"),
    ];
    let (actions, refused) = read_manifests(&files);
    assert!(refused.is_empty());
    let arranged = arrange(&actions, &Vec::new());
    let ids: Vec<&str> = arranged.iter().map(|a| a.spec.id.as_str()).collect();
    assert_eq!(ids, vec!["c", "a", "b"]);
}

#[test]
fn a_refused_manifest_does_not_stop_the_others() {
    let files = vec![
        file("bad", "id = \"bad\"\ntitle = \"Bad\"\n"),
        file("good", "id = \"good\"\ntitle = \"Good\"\nafter = \"copy\"\n"),
    ];
    let (loaded, refused) = load(Some("[popup]\nicon_size = 24\n"), &files, &Vec::new()).unwrap();
    assert_eq!(loaded.actions.len(), 1);
    assert_eq!(loaded.config.popup.icon_size, 24);
    assert_eq!(refused.len(), 1);
    assert_eq!(refused[0].path, "bad");
    assert_eq!(
        refused[0].error.message(),
        "action `bad` has no `url`, no `exec` and no `after`, so it would do nothing"
    );
    assert_eq!(load(Some("x"), &files, &Vec::new()).is_err(), true);
}
