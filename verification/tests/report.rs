use grabit::detect::Capabilities;
use grabit::manifest::{parse_manifest, Action};
use grabit::report::{
    decimal_text, doctor, explain_unsupported, list_action, list_actions, Wording,
};

fn action(manifest: &str, origin: &str) -> Action {
    let mut action = parse_manifest(manifest).unwrap();
    action.origin = origin.to_owned();
    action
}

#[test]
fn actions_are_listed_with_what_they_do_and_where_they_came_from() {
    let search = action(
        "id = \"search\"\ntitle = \"Search the web\"\norder = 20\nurl = \"https://x.org/\"\n",
        "/a/search.toml",
    );
    assert_eq!(
        list_action(&search),
        "search       Search the web           order=20   url https://x.org/\n             /a/search.toml\n"
    );
    let shell = action(
        "id = \"a-rather-long-id\"\ntitle = \"Run\"\norder = -12345\nenabled = false\n\
         exec = [\"sh\", \"-c\", \"it's $HOME\", \"\"]\n",
        "/b",
    );
    assert_eq!(
        list_action(&shell),
        "a-rather-long-id Run                      order=-12345 exec sh -c 'it'\\''s $HOME' ''  [disabled]\n             /b\n"
    );
    assert_eq!(
        list_actions(&vec![search.clone(), shell.clone()]),
        format!("{}{}", list_action(&search), list_action(&shell))
    );
    assert_eq!(list_actions(&Vec::new()), "");
}

#[test]
fn command_lines_are_quoted_where_a_shell_needs_it() {
    let line = |argv: &str| {
        let listed =
            list_action(&action(&format!("id = \"i\"\ntitle = \"T\"\nexec = {argv}\n"), ""));
        listed.lines().next().unwrap().split("exec ").nth(1).unwrap().to_owned()
    };
    assert_eq!(line("[\"a\", \"b-c_d.e/f:g@h,i+j^k!{l}]m\"]"), "a b-c_d.e/f:g@h,i+j^k!{l}]m");
    for special in ["|", "&", ";", "<", ">", "(", ")", "$", "`", " ", "*", "?", "[", "#", "~", "=", "%"] {
        assert_eq!(line(&format!("['x{special}y']")), format!("'x{special}y'"));
    }
    assert_eq!(line("['a\"b']"), "'a\"b'");
    assert_eq!(line("['a\\b']"), "'a\\b'");
    assert_eq!(line("[\"a\\tb\"]"), "'a\tb'");
    assert_eq!(line("[\"'\"]"), "''\\'''");
    assert_eq!(line("[\"\"]"), "''");
}

#[test]
fn the_other_kinds_are_listed_too() {
    let kind = |manifest: &str| {
        let listed = list_action(&action(manifest, ""));
        listed.lines().next().unwrap().split("order=").nth(1).unwrap()[5..].to_owned()
    };
    assert_eq!(kind("id = \"i\"\ntitle = \"T\"\nbuiltin = \"cut\"\norder = 1\n"), "builtin cut");
    assert_eq!(kind("id = \"i\"\ntitle = \"T\"\nbuiltin = \"paste\"\norder = 1\n"), "builtin paste");
    assert_eq!(kind("id = \"i\"\ntitle = \"T\"\nafter = \"copy\"\norder = 1\n"), "selection");
}

#[test]
fn numbers_are_written_in_decimal() {
    assert_eq!(decimal_text(0), "0");
    assert_eq!(decimal_text(9), "9");
    assert_eq!(decimal_text(10), "10");
    assert_eq!(decimal_text(-105), "-105");
    assert_eq!(decimal_text(i32::MAX), "2147483647");
    assert_eq!(decimal_text(i32::MIN), "-2147483648");
}

fn wording() -> Wording {
    Wording {
        capabilities: "Wayland capabilities".to_owned(),
        selection: "selection monitoring (data-control)".to_owned(),
        layer_shell: "overlay placement (layer-shell)".to_owned(),
        virtual_keyboard: "key injection (virtual-keyboard)".to_owned(),
        foreign_toplevel: "focused app (foreign-toplevel)".to_owned(),
        shell_extension: "GNOME Shell extension".to_owned(),
        yes: "yes".to_owned(),
        no: "no".to_owned(),
        frontend: "front-end".to_owned(),
        frontend_layer: "layer-shell".to_owned(),
        frontend_gnome: "GNOME Shell extension".to_owned(),
        frontend_none: "none".to_owned(),
        no_paste: "nothing can paste".to_owned(),
        config: "config".to_owned(),
        actions: "actions".to_owned(),
    }
}

#[test]
fn the_report_is_aligned() {
    let capabilities = Capabilities {
        data_control: true,
        layer_shell: true,
        virtual_keyboard: true,
        foreign_toplevel: false,
    };
    assert_eq!(
        doctor(&wording(), &capabilities, false, "/c", "5 loaded"),
        "Wayland capabilities\n\
         \x20 selection monitoring (data-control) : yes\n\
         \x20 overlay placement (layer-shell)     : yes\n\
         \x20 key injection (virtual-keyboard)    : yes\n\
         \x20 focused app (foreign-toplevel)      : no\n\
         \x20 GNOME Shell extension               : no\n\
         \n\
         front-end: layer-shell\n\
         \n\
         config: /c\n\
         actions: 5 loaded\n"
    );
}

#[test]
fn the_report_says_when_nothing_can_paste() {
    let none = Capabilities {
        data_control: false,
        layer_shell: false,
        virtual_keyboard: false,
        foreign_toplevel: false,
    };
    let text = doctor(&wording(), &none, false, "/c", "0");
    assert!(text.contains("\nfront-end: none\nnothing can paste\n\nconfig: /c\n"));
    let text = doctor(&wording(), &none, true, "/c", "0");
    assert!(text.contains("\nfront-end: GNOME Shell extension\n\nconfig: /c\n"));
}

#[test]
fn exactly_what_is_missing_is_named() {
    let only = |data_control, layer_shell| Capabilities {
        data_control,
        layer_shell,
        virtual_keyboard: true,
        foreign_toplevel: true,
    };
    assert_eq!(
        explain_unsupported(&only(false, false)),
        "this compositor is missing: ext-data-control-v1 or wlr-data-control-v1 v2 (needed to watch the selection); zwlr_layer_shell_v1 (needed to place the popup).\nOn GNOME this is expected — install and enable the grabit GNOME Shell extension, which provides both, then start grabit again."
    );
    assert!(explain_unsupported(&only(true, false))
        .starts_with("this compositor is missing: zwlr_layer_shell_v1 (needed to place the popup).\n"));
    assert!(explain_unsupported(&only(false, true)).starts_with(
        "this compositor is missing: ext-data-control-v1 or wlr-data-control-v1 v2 (needed to watch the selection).\n"
    ));
}
