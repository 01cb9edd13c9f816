use grabit::classify::{classify, Detect};
use grabit::config::{After, Builtin};
use grabit::document::Misfit;
use grabit::manifest::{
    assemble, check_spec, find_option, is_listed, parse_manifest, same_spec, Action, Fault,
};
use grabit::pattern::Pattern;

fn parsed(text: &str) -> Action {
    parse_manifest(text).unwrap()
}

fn fault(text: &str) -> Fault {
    parse_manifest(text).unwrap_err().fault
}

const HEAD: &str = "id = \"x\"\ntitle = \"X\"\n";

fn with(rest: &str) -> String {
    format!("{HEAD}{rest}")
}

#[test]
fn a_full_manifest_is_read() {
    let action = parsed(
        "id = \"search\"\ntitle = \"Search the web\"\nicon = \"system-search-symbolic\"\n\
         label = \"Search\"\norder = 20\nenabled = true\nmatch = '\\S'\n\
         not_match = '^\\s*https?://'\nurl = \"https://duckduckgo.com/?q={{text}}\"\n",
    );
    assert_eq!(action.spec.id, "search");
    assert_eq!(action.spec.title, "Search the web");
    assert_eq!(action.spec.icon.as_deref(), Some("system-search-symbolic"));
    assert_eq!(action.spec.label.as_deref(), Some("Search"));
    assert_eq!(action.spec.order, 20);
    assert_eq!(action.spec.match_re.as_deref(), Some("\\S"));
    assert_eq!(action.spec.not_match.as_deref(), Some("^\\s*https?://"));
    assert_eq!(action.spec.url.as_deref(), Some("https://duckduckgo.com/?q={{text}}"));
    assert!(action.spec.enabled && !action.spec.stdin);
    assert_eq!(action.spec.after, After::Ignore);
    assert_eq!(action.spec.builtin, None);
    assert_eq!(action.spec.command, None);
    assert_eq!(action.origin, "");
}

#[test]
fn a_command_is_an_argv() {
    let action = parsed(&with(
        "exec = [\"tr\", \"[:lower:]\", \"[:upper:]\"]\nstdin = true\nafter = \"replace\"\n",
    ));
    assert_eq!(
        action.spec.command,
        Some(vec!["tr".to_owned(), "[:lower:]".to_owned(), "[:upper:]".to_owned()])
    );
    assert!(action.spec.stdin);
    assert_eq!(action.spec.after, After::Replace);
}

#[test]
fn detections_and_builtins_go_by_their_names() {
    let action = parsed(&with(
        "detects = [\"url\", \"email\", \"path\", \"phone\", \"color\"]\nafter = \"show\"\n",
    ));
    assert_eq!(
        action.spec.detects,
        vec![Detect::Url, Detect::Email, Detect::Path, Detect::Phone, Detect::Color]
    );
    assert_eq!(parsed(&with("builtin = \"cut\"\n")).spec.builtin, Some(Builtin::Cut));
    assert_eq!(parsed(&with("builtin = \"paste\"\n")).spec.builtin, Some(Builtin::Paste));
    assert_eq!(fault(&with("builtin = \"copy\"\n")), Fault::Schema(Misfit::Wrong("builtin".to_owned())));
    assert_eq!(fault(&with("detects = [\"ip\"]\nafter = \"copy\"\n")), Fault::Schema(Misfit::Wrong("detects".to_owned())));
}

#[test]
fn options_come_in_the_order_of_their_names() {
    let action = parsed(&with(
        "after = \"copy\"\n[options.to]\nlabel = \"To\"\ndefault = \"de\"\nchoices = [\"de\", \"fr\"]\n\
         value = \"fr\"\n[options.from]\nlabel = \"From\"\ndefault = \"en\"\n",
    ));
    let names: Vec<&str> = action.spec.options.iter().map(|(name, _)| name.as_str()).collect();
    assert_eq!(names, vec!["from", "to"]);
    let to = find_option(&action.spec.options, "to").unwrap();
    assert_eq!(to.effective(), "fr");
    assert_eq!(to.choices, vec!["de".to_owned(), "fr".to_owned()]);
    assert_eq!(find_option(&action.spec.options, "from").unwrap().effective(), "en");
    assert!(find_option(&action.spec.options, "via").is_none());
}

#[test]
fn text_that_is_not_toml_is_refused_with_the_reason() {
    match fault("id = = 1") {
        Fault::Syntax(message) => assert!(!message.is_empty()),
        other => panic!("{other:?}"),
    }
    let message = parse_manifest("id = = 1").unwrap_err().message();
    assert!(message.starts_with("parsing TOML: "));
}

#[test]
fn members_must_be_known_and_of_their_kind() {
    assert_eq!(fault("title = \"X\"\nafter = \"copy\"\n"), Fault::Schema(Misfit::Missing("id".to_owned())));
    assert_eq!(fault("id = \"x\"\nafter = \"copy\"\n"), Fault::Schema(Misfit::Missing("title".to_owned())));
    assert_eq!(fault(&with("after = \"copy\"\ncolour = 1\n")), Fault::Schema(Misfit::Unknown("colour".to_owned())));
    assert_eq!(fault(&with("after = \"copy\"\norder = \"1\"\n")), Fault::Schema(Misfit::Wrong("order".to_owned())));
    assert_eq!(fault(&with("after = \"copy\"\norder = 2147483648\n")), Fault::Schema(Misfit::Wrong("order".to_owned())));
    assert_eq!(fault(&with("after = \"later\"\n")), Fault::Schema(Misfit::Wrong("after".to_owned())));
    assert_eq!(fault(&with("exec = \"ls\"\n")), Fault::Schema(Misfit::Wrong("exec".to_owned())));
    assert_eq!(fault(&with("after = \"copy\"\n[options.o]\ndefault = 1\n")), Fault::Schema(Misfit::Missing("options.o.label".to_owned())));
}

#[test]
fn a_refusal_names_the_member_that_is_wrong() {
    let options = "after = \"copy\"\n[options.a]\nlabel = \"A\"\n[options.b]\nlabel = \"B\"\n";
    assert_eq!(
        fault(&with(&format!("{options}hue = 1\n"))),
        Fault::Schema(Misfit::Unknown("options.b.hue".to_owned()))
    );
    assert_eq!(
        fault(&with(&format!("{options}choices = [1]\n"))),
        Fault::Schema(Misfit::Wrong("options.b.choices".to_owned()))
    );
    assert_eq!(
        fault(&with("after = \"copy\"\noptions = 1\n")),
        Fault::Schema(Misfit::Wrong("options".to_owned()))
    );
    assert_eq!(
        fault(&with("after = \"copy\"\nenabled = 1\n")),
        Fault::Schema(Misfit::Wrong("enabled".to_owned()))
    );
    assert_eq!(
        parse_manifest("title = \"X\"\n").unwrap_err().message(),
        "parsing TOML: missing member `id`"
    );
    assert_eq!(
        parse_manifest("id = 1\ntitle = \"X\"\n").unwrap_err().message(),
        "parsing TOML: member `id` holds something of the wrong kind"
    );
}

#[test]
fn an_action_does_exactly_one_thing() {
    assert_eq!(fault(&with("url = \"u\"\nexec = [\"e\"]\n")), Fault::UrlAndExec);
    assert_eq!(fault(&with("builtin = \"cut\"\nurl = \"u\"\n")), Fault::BuiltinTarget);
    assert_eq!(fault(&with("builtin = \"cut\"\nexec = [\"e\"]\n")), Fault::BuiltinTarget);
    assert_eq!(fault(&with("builtin = \"cut\"\nafter = \"copy\"\n")), Fault::BuiltinAfter);
    assert_eq!(fault(HEAD), Fault::Inert);
    assert_eq!(fault(&with("url = \"u\"\nafter = \"copy\"\n")), Fault::UrlAfter);
    assert_eq!(fault(&with("stdin = true\nafter = \"copy\"\n")), Fault::StdinWithoutExec);
}

#[test]
fn options_stay_within_their_choices() {
    let option = |rest: &str| {
        with(&format!("after = \"copy\"\n[options.o]\nlabel = \"O\"\nchoices = [\"a\", \"b\"]\n{rest}"))
    };
    assert_eq!(fault(&option("default = \"c\"\n")), Fault::OptionDefault("o".to_owned()));
    assert_eq!(
        fault(&option("default = \"a\"\nvalue = \"c\"\n")),
        Fault::OptionValue("o".to_owned())
    );
    assert_eq!(parsed(&option("default = \"a\"\nvalue = \"b\"\n")).spec.options[0].1.effective(), "b");
}

#[test]
fn patterns_must_be_regexes() {
    match fault(&with("after = \"copy\"\nmatch = '('\n")) {
        Fault::BadMatch(message) => assert!(message.contains("unclosed group")),
        other => panic!("{other:?}"),
    }
    match fault(&with("after = \"copy\"\nnot_match = '['\n")) {
        Fault::BadNotMatch(message) => assert!(message.contains("unclosed character class")),
        other => panic!("{other:?}"),
    }
}

#[test]
fn faults_are_told_in_words() {
    let message = |text: &str| parse_manifest(text).unwrap_err().message();
    assert_eq!(
        message(&with("url = \"u\"\nexec = [\"e\"]\n")),
        "action `x` sets both `url` and `exec`; pick one"
    );
    assert_eq!(
        message(&with("builtin = \"cut\"\nurl = \"u\"\n")),
        "action `x` is a `builtin`, so `url` and `exec` do not apply"
    );
    assert_eq!(
        message(&with("builtin = \"cut\"\nafter = \"copy\"\n")),
        "action `x` is a `builtin`, so `after` has no effect"
    );
    assert_eq!(
        message(HEAD),
        "action `x` has no `url`, no `exec` and no `after`, so it would do nothing"
    );
    assert_eq!(
        message(&with("url = \"u\"\nafter = \"copy\"\n")),
        "action `x` is a `url` action, so `after` has no effect"
    );
    assert_eq!(
        message(&with("stdin = true\nafter = \"copy\"\n")),
        "action `x` sets `stdin` but has no `exec`"
    );
    assert!(message(&with("after = \"copy\"\nmatch = '('\n"))
        .starts_with("action `x`: bad `match` regex: "));
}

#[test]
fn an_action_applies_where_its_conditions_hold() {
    let applies = |text: &str, manifest: &str| {
        let action = parsed(manifest);
        action.matches(text, &classify(text))
    };
    let digits = with("after = \"copy\"\nmatch = '^[0-9]+$'\nnot_match = '7'\n");
    assert!(applies("123", &digits));
    assert!(!applies("12a", &digits));
    assert!(!applies("127", &digits));
    let links = with("after = \"copy\"\ndetects = [\"url\", \"email\"]\n");
    assert!(applies("https://a.org", &links));
    assert!(applies("kim@a.org", &links));
    assert!(!applies("/etc", &links));
    assert!(!applies("anything", &with("after = \"copy\"\nenabled = false\n")));
    assert!(applies("anything", &with("after = \"copy\"\n")));
}

#[test]
fn conditions_are_all_asked() {
    let action = parsed(&with(
        "after = \"copy\"\ndetects = [\"color\"]\nmatch = 'a'\nnot_match = 'b'\n",
    ));
    let color = classify("#fff");
    let words = classify("words");
    assert!(action.is_offered(&color, true, false));
    assert!(!action.is_offered(&color, false, false));
    assert!(!action.is_offered(&color, true, true));
    assert!(!action.is_offered(&words, true, false));
}

#[test]
fn assembling_goes_by_what_became_of_the_patterns() {
    let spec = || parsed(&with("after = \"copy\"\n")).spec;
    let action = assemble(spec(), Some(Pattern::new("a+")), None).unwrap();
    assert!(action.match_re.as_ref().unwrap().is_match("baa"));
    assert!(!action.match_re.as_ref().unwrap().is_match("b"));
    let refused = assemble(spec(), None, Some(Err("why".to_owned()))).unwrap_err();
    assert_eq!(refused.fault, Fault::BadNotMatch("why".to_owned()));
    assert_eq!(refused.message(), "action `x`: bad `not_match` regex: why");
}

#[test]
fn declarations_can_be_told_apart() {
    let a = parsed(&with("after = \"copy\"\n")).spec;
    let b = parsed(&with("after = \"copy\"\norder = 0\n")).spec;
    let c = parsed(&with("after = \"show\"\n")).spec;
    assert_eq!(same_spec(&a, &b), a.order == 0);
    assert!(same_spec(&a, &a.clone()));
    assert!(!same_spec(&a, &c));
    assert_eq!(check_spec(&a), None);
    assert!(is_listed(&vec!["a".to_owned(), "b".to_owned()], "b"));
    assert!(!is_listed(&vec!["a".to_owned()], "b"));
}
