use grabit::config::{parse_config, Config};
use grabit::edit::EditError;
use grabit::manifest::{check_spec, parse_manifest, same_spec};
use grabit::settings::{
    renumber_action, renumber_actions, set_action_enabled, set_action_option, write_config,
};

#[test]
fn saved_settings_are_loaded_again() {
    let mut config = Config::default();
    config.popup.settle_ms = 7;
    config.popup.offset_y = -40;
    config.popup.animate = false;
    config.selection.min_length = 3;
    config.applications.exclude = vec!["a\"b".to_owned(), "ü".to_owned()];
    let text = write_config("", &config).unwrap();
    let back = parse_config(&text).unwrap();
    assert_eq!(back.popup, config.popup);
    assert_eq!(back.selection, config.selection);
    assert_eq!(back.applications.exclude, config.applications.exclude);
}

#[test]
fn saving_keeps_comments() {
    let raw = "# mine\n[popup]\nsettle_ms = 1 # quick\n";
    let text = write_config(raw, &Config::default()).unwrap();
    assert!(text.contains("# mine\n[popup]\n"));
    assert!(text.contains("settle_ms = 140"));
    assert!(!text.contains("settle_ms = 1 "));
}

fn own_line_comments(text: &str) -> Vec<&str> {
    let mut found: Vec<&str> =
        text.lines().map(str::trim).filter(|line| line.starts_with('#')).collect();
    found.sort();
    found
}

#[test]
fn comments_on_lines_of_their_own_survive_every_change() {
    let config = "# top\n\n# the bar\n[popup]\n# quick\nsettle_ms = 1\n# more\nunrelated = { a = 1 }\n\
                  [applications]\n# not there\nexclude = [\"a\"]\n# end\n";
    let written = write_config(config, &Config::default()).unwrap();
    assert_eq!(own_line_comments(&written), own_line_comments(config));
    assert!(written.contains("# quick\nsettle_ms = 140"));

    let manifest = "# mine\nid = \"t\"\ntitle = \"T\"\n# on\nenabled = true\n# where\norder = 7\n\
                    after = \"copy\"\n# choices\n[options.to]\n# said\nlabel = \"To\"\n# end\n";
    let off = set_action_enabled(manifest, false).unwrap();
    assert_eq!(own_line_comments(&off), own_line_comments(manifest));
    assert!(off.contains("# on\nenabled = false"));
    let chosen = set_action_option(manifest, "to", "fr").unwrap();
    assert_eq!(own_line_comments(&chosen), own_line_comments(manifest));
    let moved = renumber_action(manifest, 2).unwrap().unwrap();
    assert_eq!(own_line_comments(&moved), own_line_comments(manifest));
    assert!(moved.contains("# where\norder = 30"));
}

#[test]
fn comments_behind_values_stay_unless_the_value_goes() {
    let config = "[popup] # the bar\nsettle_ms = 1 # quick\n[other] # mine\nx = 1 # kept\n";
    let written = write_config(config, &Config::default()).unwrap();
    assert!(written.contains("[popup] # the bar\n"));
    assert!(written.contains("[other] # mine\nx = 1 # kept\n"));
    assert!(!written.contains("# quick"));
    let off = set_action_enabled("id = 't' # a\nenabled = true # b\n", false).unwrap();
    assert_eq!(off, "id = 't' # a\nenabled = false\n");
}

#[test]
fn an_option_that_is_not_there_is_made() {
    let raw = "id = \"t\"\n";
    let made = set_action_option(raw, "to", "fr").unwrap();
    let again = set_action_option(&made, "to", "de").unwrap();
    assert!(made.contains("fr"));
    assert!(again.contains("de") && !again.contains("fr"));
}

#[test]
fn a_table_in_the_way_is_an_error() {
    assert_eq!(write_config("popup = 1\n", &Config::default()), Err(EditError::NotATable));
    match write_config("popup = [", &Config::default()) {
        Err(EditError::Syntax(message)) => assert!(!message.is_empty()),
        other => panic!("{other:?}"),
    }
}

const MANIFEST: &str = "id = \"t\"\ntitle = \"T\" # shown\nafter = \"copy\"\norder = 7\n\
                        [options.to]\nlabel = \"To\"\ndefault = \"de\"\n";

#[test]
fn toggling_changes_enabled_alone() {
    let off = set_action_enabled(MANIFEST, false).unwrap();
    assert!(off.contains("title = \"T\" # shown"));
    let action = parse_manifest(&off).unwrap();
    assert!(!action.spec.enabled);
    let on = set_action_enabled(&off, true).unwrap();
    let again = parse_manifest(&on).unwrap();
    assert!(same_spec(&again.spec, &parse_manifest(MANIFEST).unwrap().spec));
}

#[test]
fn choosing_changes_one_option_alone() {
    let chosen = set_action_option(MANIFEST, "to", "fr \"x\"").unwrap();
    let mut action = parse_manifest(&chosen).unwrap();
    assert_eq!(action.spec.options[0].1.effective(), "fr \"x\"");
    action.spec.options[0].1.value = None;
    assert!(same_spec(&action.spec, &parse_manifest(MANIFEST).unwrap().spec));
    assert_eq!(check_spec(&action.spec), None);
}

#[test]
fn an_option_of_something_else_cannot_be_chosen() {
    let raw = "id = \"t\"\ntitle = \"T\"\nafter = \"copy\"\noptions = 3\n";
    assert_eq!(set_action_option(raw, "to", "fr"), Err(EditError::NotATable));
}

#[test]
fn renumbering_leaves_what_is_in_its_place() {
    assert_eq!(renumber_action("order = 10\n", 0), Ok(None));
    let moved = renumber_action(MANIFEST, 2).unwrap().unwrap();
    let action = parse_manifest(&moved).unwrap();
    assert_eq!(action.spec.order, 30);
}

#[test]
fn renumbering_gives_every_action_its_own_place() {
    let raws = vec![
        MANIFEST.to_owned(),
        "id = \"u\"\ntitle = \"U\"\nafter = \"copy\"\norder = 20\n".to_owned(),
        MANIFEST.to_owned(),
    ];
    let (texts, error) = renumber_actions(&raws);
    assert_eq!(error, None);
    assert_eq!(texts.len(), 3);
    assert_eq!(parse_manifest(texts[0].as_ref().unwrap()).unwrap().spec.order, 10);
    assert_eq!(texts[1], None);
    assert_eq!(parse_manifest(texts[2].as_ref().unwrap()).unwrap().spec.order, 30);
    let (texts, error) = renumber_actions(&vec![MANIFEST.to_owned(), "= x".to_owned()]);
    assert_eq!(texts.len(), 1);
    assert!(error.is_some());
}
