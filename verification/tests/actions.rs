use grabit::actions::{
    collect, collect_with, expand, expand_with, finish, percent_encode, poll, run, run_with, Expansion, Outcome,
    Poll, RunError, Step,
};
use grabit::classify::classify;
use grabit::config::After;
use grabit::manifest::{parse_manifest, OptionSpec};
use grabit::selection::Grab;

/// Expand against a plain-text selection, classifying it first, as the engine
/// does for real invocations.
fn x(template: &str, text: &str, url_mode: bool) -> String {
    let grab = Grab::text(text);
    let class = classify(text);
    let options: Vec<(String, OptionSpec)> = Vec::new();
    expand(
        template,
        &Expansion { grab: &grab, class: &class, options: &options },
        url_mode,
    )
}

/// An option table holding one option with the given default and value.
fn opts(name: &str, default: &str, value: Option<&str>) -> Vec<(String, OptionSpec)> {
    vec![(
        name.to_owned(),
        OptionSpec {
            label: name.to_owned(),
            default: default.to_owned(),
            choices: Vec::new(),
            value: value.map(str::to_owned),
        },
    )]
}

/// Expand against an action that declares options.
fn xo(template: &str, options: &Vec<(String, OptionSpec)>, url_mode: bool) -> String {
    let grab = Grab::text("sel");
    let class = classify("sel");
    expand(template, &Expansion { grab: &grab, class: &class, options }, url_mode)
}

#[test]
fn url_mode_encodes_text_and_leaves_raw_alone() {
    assert_eq!(x("q={{text}}", "a b&c", true), "q=a%20b%26c");
    assert_eq!(x("{{text_raw}}", "a b&c", true), "a b&c");
}

#[test]
fn exec_mode_is_literal_unless_url_is_requested() {
    assert_eq!(x("{{text}}", "a b&c", false), "a b&c");
    assert_eq!(x("{{text_url}}", "a b&c", false), "a%20b%26c");
}

#[test]
fn trimmed_and_line_variants() {
    assert_eq!(x("{{text_trimmed_raw}}", "  hi  ", true), "hi");
    assert_eq!(x("{{text_line}}", "one\ntwo", false), "one");
}

#[test]
fn unknown_placeholder_survives_expansion() {
    assert_eq!(x("a{{nope}}b", "x", false), "a{{nope}}b");
}

#[test]
fn unterminated_placeholder_does_not_truncate() {
    assert_eq!(x("a{{text", "x", false), "a{{text");
}

#[test]
fn non_ascii_is_encoded_as_utf8_bytes() {
    assert_eq!(x("{{text}}", "é", true), "%C3%A9");
}

#[test]
fn detection_placeholders_expand_verbatim_even_in_url_mode() {
    assert_eq!(x("{{url}}", "https://a.com/x?y=1.", true), "https://a.com/x?y=1");
    assert_eq!(x("mailto:{{email}}", "kim@example.com,", true), "mailto:kim@example.com");
    assert_eq!(x("tel:{{phone}}", "+30 210 123 4567", true), "tel:+302101234567");
}

#[test]
fn undetected_placeholder_expands_to_nothing() {
    assert_eq!(x("[{{url}}]", "plain words", true), "[]");
}

#[test]
fn html_and_markdown_fall_back_to_the_plain_text() {
    assert_eq!(x("{{html}}", "hi", false), "hi");
    assert_eq!(x("{{markdown}}", "hi", false), "hi");
}

#[test]
fn option_expands_to_its_value_and_falls_back_to_the_default() {
    // No value chosen yet: a fresh install expands the declared default.
    assert_eq!(xo("to={{option:lang}}", &opts("lang", "de", None), false), "to=de");
    // Once chosen, the value wins.
    assert_eq!(xo("to={{option:lang}}", &opts("lang", "de", Some("fr")), false), "to=fr");
}

#[test]
fn option_is_encoded_in_url_mode_like_any_other_value() {
    let o = opts("q", "a b&c", None);
    assert_eq!(xo("s={{option:q}}", &o, true), "s=a%20b%26c");
    assert_eq!(xo("s={{option:q}}", &o, false), "s=a b&c");
}

#[test]
fn undeclared_option_expands_to_nothing() {
    assert_eq!(xo("x={{option:nope}}", &opts("lang", "de", None), false), "x=");
}

#[test]
fn option_name_is_trimmed_and_unknown_placeholders_still_survive() {
    assert_eq!(xo("{{ option:lang }}", &opts("lang", "de", None), false), "de");
    assert_eq!(xo("{{nonsense}}", &opts("lang", "de", None), false), "{{nonsense}}");
}

#[test]
fn html_and_markdown_use_the_html_capture_when_present() {
    let grab = Grab { text: "bold".to_owned(), html: Some("<b>bold</b>".to_owned()) };
    let class = classify("bold");
    let options: Vec<(String, OptionSpec)> = Vec::new();
    let ctx = Expansion { grab: &grab, class: &class, options: &options };
    assert_eq!(expand("{{html}}", &ctx, false), "<b>bold</b>");
    assert_eq!(expand("{{markdown}}", &ctx, false), "**bold**");
}

#[test]
fn encoding_keeps_unreserved_characters_and_nothing_else() {
    assert_eq!(percent_encode("AZaz09-_.~"), "AZaz09-_.~");
    assert_eq!(percent_encode("/?:@&=+$,#%"), "%2F%3F%3A%40%26%3D%2B%24%2C%23%25");
    assert_eq!(percent_encode("\n\u{7f}"), "%0A%7F");
    assert_eq!(percent_encode("€"), "%E2%82%AC");
    assert_eq!(percent_encode("\u{1F600}"), "%F0%9F%98%80");
    assert_eq!(percent_encode(""), "");
}

#[test]
fn every_placeholder_is_replaced_where_it_stands() {
    assert_eq!(x("{{text}}-{{text_url}}-{{nope}}-", "a b", false), "a b-a%20b-{{nope}}-");
    assert_eq!(x("{{text_trimmed}}|{{text_trimmed_url}}", " a b ", true), "a%20b|a%20b");
    assert_eq!(x("{{text}} {{text", "a", false), "a {{text");
    assert_eq!(x("no placeholders }}", "a", true), "no placeholders }}");
    assert_eq!(x("{{}}", "a", true), "{{}}");
}

#[test]
fn a_known_rendering_is_used_as_it_is() {
    let grab = Grab { text: "a b".to_owned(), html: Some("<i>a</i> b".to_owned()) };
    let class = classify("a b");
    let options: Vec<(String, OptionSpec)> = Vec::new();
    let ctx = Expansion { grab: &grab, class: &class, options: &options };
    assert_eq!(expand_with("{{markdown}}", &ctx, true, &Some("*a* b".to_owned())), "*a* b");
    assert_eq!(expand_with("{{markdown}}", &ctx, true, &None), "a%20b");
}

#[test]
fn what_becomes_of_the_output_is_up_to_the_action() {
    assert_eq!(finish(After::Ignore, "out".to_owned()), Outcome::Nothing);
    assert_eq!(finish(After::Copy, "out".to_owned()), Outcome::Clipboard("out".to_owned()));
    assert_eq!(finish(After::Replace, "out".to_owned()), Outcome::Replace("out".to_owned()));
    assert_eq!(finish(After::Show, "out".to_owned()), Outcome::Show("out".to_owned()));
}

/// What running a manifest against a selection comes to.
fn step(manifest: &str, grab: &Grab) -> Result<Step, RunError> {
    let action = parse_manifest(manifest).unwrap();
    let class = classify(&grab.text);
    let ctx = Expansion { grab, class: &class, options: &action.spec.options };
    run(&action, &ctx)
}

#[test]
fn a_url_action_opens_its_url_with_values_encoded() {
    let manifest = "id = \"s\"\ntitle = \"S\"\nurl = \"https://x.org/?q={{text}}\"\n";
    assert_eq!(
        step(manifest, &Grab::text("a/b c")),
        Ok(Step::Open("https://x.org/?q=a%2Fb%20c".to_owned()))
    );
}

#[test]
fn selected_text_stays_one_argument() {
    let manifest = "id = \"e\"\ntitle = \"E\"\nexec = [\"echo\", \"-n\", \"<{{text}}>\"]\n";
    assert_eq!(
        step(manifest, &Grab::text("a b; rm -rf ~")),
        Ok(Step::Spawn {
            program: "echo".to_owned(),
            args: vec!["-n".to_owned(), "<a b; rm -rf ~>".to_owned()],
            stdin: None,
        })
    );
}

#[test]
fn the_selection_is_piped_in_where_asked_for() {
    let manifest = "id = \"u\"\ntitle = \"U\"\nexec = [\"tr\", \"a\", \"b\"]\nstdin = true\n";
    assert_eq!(
        step(manifest, &Grab::text("banana")),
        Ok(Step::Spawn {
            program: "tr".to_owned(),
            args: vec!["a".to_owned(), "b".to_owned()],
            stdin: Some("banana".to_owned()),
        })
    );
}

#[test]
fn without_url_and_exec_the_selection_is_the_result() {
    let manifest = "id = \"c\"\ntitle = \"C\"\nafter = \"copy\"\n";
    assert_eq!(
        step(manifest, &Grab::text(" as it is ")),
        Ok(Step::Done(Outcome::Clipboard(" as it is ".to_owned())))
    );
}

#[test]
fn an_empty_exec_is_an_error() {
    let manifest = "id = \"e\"\ntitle = \"E\"\nexec = []\n";
    assert_eq!(step(manifest, &Grab::text("x")), Err(RunError::EmptyExec));
}

#[test]
fn an_action_is_expanded_with_its_own_options() {
    let manifest = "id = \"t\"\ntitle = \"T\"\nurl = \"https://t.org/{{option:to}}\"\n\
                    [options.to]\nlabel = \"To\"\ndefault = \"en us\"\n";
    assert_eq!(
        step(manifest, &Grab::text("x")),
        Ok(Step::Open("https://t.org/en%20us".to_owned()))
    );
}

#[test]
fn a_converted_selection_reaches_the_command() {
    let manifest = "id = \"m\"\ntitle = \"M\"\nexec = [\"note\", \"{{markdown}}\"]\n";
    let grab = Grab { text: "bold".to_owned(), html: Some("<b>bold</b>".to_owned()) };
    let wanted = |markdown: &str| {
        Ok(Step::Spawn {
            program: "note".to_owned(),
            args: vec![markdown.to_owned()],
            stdin: None,
        })
    };
    assert_eq!(step(manifest, &grab), wanted("**bold**"));
    let action = parse_manifest(manifest).unwrap();
    let class = classify("bold");
    let ctx = Expansion { grab: &grab, class: &class, options: &action.spec.options };
    assert_eq!(run_with(&action, &ctx, &Some("given".to_owned())), wanted("given"));
    assert_eq!(run_with(&action, &ctx, &None), wanted("bold"));
}

#[test]
fn a_command_is_waited_for_until_its_time_is_up() {
    assert_eq!(poll(true, 0), Poll::Collect);
    assert_eq!(poll(true, 1_000_000), Poll::Collect);
    assert_eq!(poll(false, 0), Poll::Sleep);
    assert_eq!(poll(false, 14_999), Poll::Sleep);
    assert_eq!(poll(false, 15_000), Poll::Kill);
}

#[test]
fn the_output_of_a_command_is_text_or_an_error() {
    assert_eq!(
        collect("u", true, "exit status: 0", b"OUT\n".to_vec(), b""),
        Ok("OUT\n".to_owned())
    );
    let failed = collect("u", false, "exit status: 2", b"OUT".to_vec(), b"  no such file \n");
    let error = failed.unwrap_err();
    assert_eq!(
        error,
        RunError::Failed {
            id: "u".to_owned(),
            status: "exit status: 2".to_owned(),
            stderr: "  no such file \n".to_owned(),
        }
    );
    assert_eq!(error.message(), "action `u` exited with exit status: 2: no such file");
    let garbled = collect("u", true, "exit status: 0", vec![0xff, 0xfe], b"");
    let cause = String::from_utf8(vec![0xff, 0xfe]).unwrap_err().to_string();
    assert_eq!(garbled, Err(RunError::NotText { id: "u".to_owned(), cause }));
    assert_eq!(
        RunError::NotText { id: "u".to_owned(), cause: "why".to_owned() }.message(),
        "action `u` produced non-UTF-8 output: why"
    );
    assert_eq!(
        collect("u", false, "signal: 9", Vec::new(), &[b'h', 0xff, b'i']),
        collect_with("u", false, "signal: 9", Ok(String::new()), "h\u{fffd}i")
    );
    assert_eq!(
        collect_with("u", true, "exit status: 0", Err("why".to_owned()), ""),
        Err(RunError::NotText { id: "u".to_owned(), cause: "why".to_owned() })
    );
}

#[test]
fn run_errors_say_what_happened() {
    assert_eq!(RunError::EmptyExec.message(), "`exec` is empty");
    assert_eq!(
        RunError::TimedOut { id: "u".to_owned() }.message(),
        "action `u` did not finish within 15s and was killed"
    );
}
