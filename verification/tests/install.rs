use grabit::config::After;
use grabit::install::{disable_in_manifest, try_install, InstallError, INSTALL_ID};
use grabit::declaration::write_declaration;
use grabit::manifest::{parse_manifest, same_spec};

#[test]
fn disabling_rewrites_an_existing_enabled_key() {
    let manifest = "id = \"x\"\ntitle = \"X\"\nexec = [\"true\"]\nenabled = true\n";
    let out = disable_in_manifest(manifest);
    assert!(out.contains("enabled = false"));
    assert!(!out.contains("enabled = true"));
}

#[test]
fn disabling_appends_when_no_enabled_key_exists() {
    let manifest = "id = \"x\"\ntitle = \"X\"\nexec = [\"true\"]";
    let out = disable_in_manifest(manifest);
    assert!(out.ends_with("enabled = false\n"));
    // The result must still be a valid manifest.
    assert!(parse_manifest(&out).is_ok());
}

#[test]
fn disabling_keeps_every_other_line() {
    assert_eq!(
        disable_in_manifest("id = \"x\"\r\n  enabled=true # on\ntitle = \"X\""),
        "id = \"x\"\nenabled = false\ntitle = \"X\"\n"
    );
}

#[test]
fn disabling_reaches_past_a_table_at_the_end() {
    let manifest = "id='x'\ntitle='X'\nexec=['true']\n[options.lang]\nlabel='L'\n";
    let before = parse_manifest(manifest).unwrap();
    let after = parse_manifest(&disable_in_manifest(manifest)).unwrap();
    assert!(before.spec.enabled);
    assert!(!after.spec.enabled);
    assert_eq!(after.spec.id, "x");
    assert_eq!(after.spec.title, "X");
    assert_eq!(after.spec.command, before.spec.command);
    assert_eq!(after.spec.options.len(), 1);
    assert_eq!(after.spec.options[0].0, "lang");
    assert_eq!(after.spec.options[0].1.label, "L");
    assert_eq!(after.spec.after, before.spec.after);
}

#[test]
fn disabling_looks_behind_strings_that_mention_the_key() {
    // The line inside the string is no key.
    let manifest = "id='x'\ntitle=\"\"\"\nenabled = true\"\"\"\nexec=['true']\n";
    let after = parse_manifest(&disable_in_manifest(manifest)).unwrap();
    assert!(!after.spec.enabled);
    assert_eq!(after.spec.title, "enabled = true");
}

/// A number that the editor does not take, in an item of an option that nothing
/// reads.
const SURPLUS: &str = "[options]\nlang=['L', 'd', ['d', 'e'], 'e', 1e999]\n";

#[test]
fn what_the_editor_does_not_read_is_disabled_in_front() {
    let manifest = "id='x'\ntitle='X'\nexec=['true']\n[options]\nlang=['L', '', [], '', 1e999]\n";
    let before = parse_manifest(manifest).unwrap();
    assert!(before.spec.enabled);
    let done = try_install(manifest).unwrap();
    assert_eq!(done.id, "x");
    assert!(done.disabled);
    assert_eq!(done.body, format!("enabled = false\n{manifest}"));
    let after = parse_manifest(&done.body).unwrap();
    assert!(!after.spec.enabled);
    assert_eq!(after.spec.command, before.spec.command);
    assert_eq!(after.spec.options, before.spec.options);
    assert_eq!(disable_in_manifest(manifest), done.body);
    assert_eq!(disable_in_manifest(&done.body), done.body);
}

#[test]
fn what_cannot_be_edited_is_written_anew() {
    // The quoted key is no line of its own kind, and a second one is refused.
    let manifest = format!(
        "id='x'\ntitle='X \"y\"'\nicon='i'\nlabel='l'\norder=-7\nmatch='a'\nnot_match='b'\n\
         detects=['url', 'email', 'path', 'phone', 'color']\nexec=['true', \"a\\nb\"]\nstdin=true\n\
         after='show'\n\"enabled\"=true\n{SURPLUS}b=['B']\n"
    );
    let before = parse_manifest(&manifest).unwrap();
    let done = try_install(&manifest).unwrap();
    assert!(done.disabled);
    assert!(!done.body.contains("1e999"));
    let mut after = parse_manifest(&done.body).unwrap();
    assert!(!after.spec.enabled);
    after.spec.enabled = true;
    assert!(same_spec(&after.spec, &before.spec));
    assert_eq!(after.spec.options, before.spec.options);
    assert_eq!(disable_in_manifest(&done.body), done.body);
}

#[test]
fn every_builtin_and_mode_can_be_written_anew() {
    for body in [
        "builtin='cut'\n", "builtin='paste'\n", "url='https://x.org'\n", "after='copy'\n",
        "after='replace'\n", "after='show'\n", "exec=[]\n",
    ] {
        let before = parse_manifest(&format!("id='x'\ntitle='X'\n{body}")).unwrap();
        let after = parse_manifest(&write_declaration(&before.spec)).unwrap();
        assert!(same_spec(&after.spec, &before.spec), "{body}");
    }
}

#[test]
fn disabling_twice_is_disabling_once() {
    for manifest in [
        "id = \"x\"\ntitle = \"X\"\nexec = [\"true\"]",
        "id = \"x\"\n  enabled=true # on\ntitle = \"X\"\nexec = [\"true\"]\n",
        "id='x'\ntitle='X'\nexec=['true']\n[options.lang]\nlabel='L'\n",
        "id='x'\ntitle='X'\nexec=['true']\n[options]\nenabled = { label = 'L' }\n",
        "no manifest",
        "",
    ] {
        let once = disable_in_manifest(manifest);
        assert_eq!(disable_in_manifest(&once), once);
        assert!(once.ends_with('\n'));
    }
}

#[test]
fn disabling_with_the_editor_keeps_comments() {
    let manifest = "# mine\nid='x' # the id\ntitle='X'\nexec=['true']\n[options.lang] # of the page\n\
                    # shown\nlabel='L' # said\n";
    let out = disable_in_manifest(manifest);
    for comment in ["# mine\n", "# the id\n", "# of the page\n", "# shown\n", "# said\n"] {
        assert!(out.contains(comment), "{comment}");
    }
}

#[test]
fn a_url_action_is_installed_as_it_is() {
    let manifest = "id = \"s\"\ntitle = \"S\"\nurl = \"https://x.org/{{text}}\"\n";
    let done = try_install(manifest).unwrap();
    assert_eq!(done.id, "s");
    assert_eq!(done.file, "s.toml");
    assert_eq!(done.body, manifest);
    assert!(!done.disabled);
}

#[test]
fn an_installed_command_does_not_run_until_it_is_switched_on() {
    let manifest = "id = \"e\"\ntitle = \"E\"\nexec = [\"sh\", \"-c\", \"{{text}}\"]\nafter = \"copy\"\n";
    let done = try_install(manifest).unwrap();
    assert!(done.disabled);
    let action = parse_manifest(&done.body).unwrap();
    assert!(!action.spec.enabled);
    assert_eq!(action.spec.after, After::Copy);
    assert_eq!(action.spec.command.as_ref().map(|argv| argv.len()), Some(3));
}

#[test]
fn a_command_is_disabled_even_behind_a_table() {
    // A line at the end would land in the last table.
    let manifest = "id = \"e\"\ntitle = \"E\"\nexec = [\"x\", \"{{option:o}}\"]\n\
                    [options.o]\nlabel = \"O\"\ndefault = \"d\"\n";
    let done = try_install(manifest).unwrap();
    assert!(done.disabled);
    let action = parse_manifest(&done.body).unwrap();
    assert!(!action.spec.enabled);
    assert_eq!(action.spec.options[0].1.default, "d");
}

#[test]
fn a_broken_manifest_is_not_installed() {
    match try_install("not a manifest") {
        Err(InstallError::Manifest(_)) => {}
        other => panic!("{other:?}"),
    }
}

#[test]
fn the_offer_cannot_be_replaced() {
    let manifest = format!("id = \"{INSTALL_ID}\"\ntitle = \"T\"\nafter = \"copy\"\n");
    assert_eq!(try_install(&manifest), Err(InstallError::Reserved));
}

#[test]
fn an_id_must_be_a_file_name() {
    for id in ["../x", "a/b", "a b", "ä"] {
        let manifest = format!("id = \"{id}\"\ntitle = \"T\"\nafter = \"copy\"\n");
        assert_eq!(try_install(&manifest), Err(InstallError::UnsafeName(id.to_owned())));
    }
}

#[test]
fn install_errors_say_what_is_wrong() {
    assert_eq!(InstallError::Reserved.message(), "`grabit.install` is reserved");
    assert_eq!(
        InstallError::UnsafeName("a/b".to_owned()).message(),
        "action id `a/b` is not a safe file name"
    );
    let broken = try_install("id = \"x\"\ntitle = \"X\"\n").unwrap_err();
    assert_eq!(
        broken.message(),
        "the selection stopped parsing: action `x` has no `url`, no `exec` and no `after`, so it would do nothing"
    );
}

#[test]
fn an_action_that_is_off_stays_as_it_is() {
    let manifest = "id = \"e\"\ntitle = \"E\"\nexec = [\"x\"]\nenabled = false\n";
    let done = try_install(manifest).unwrap();
    assert!(done.disabled);
    assert_eq!(done.body, manifest);
}
