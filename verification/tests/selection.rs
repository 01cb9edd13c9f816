use grabit::config::Selection;
use grabit::selection::{accept, is_interesting, settled, Debounce, Grab, Raw, Settled};

fn cfg() -> Selection {
    Selection { min_length: 1, max_length: 10, ignore_whitespace_only: true }
}

#[test]
fn whitespace_only_is_uninteresting() {
    assert!(!is_interesting("   \n ", &cfg()));
}

#[test]
fn length_bounds_are_measured_in_characters_after_trimming() {
    assert!(is_interesting("  héllo  ", &cfg()));
    assert!(!is_interesting("way too long here", &cfg()));
}

#[test]
fn stale_generations_are_dropped() {
    let mut newest = 0;
    assert_eq!(
        accept(Raw::Selection { generation: 5, grab: Grab::text("new") }, &mut newest),
        Some(Grab::text("new"))
    );
    assert_eq!(
        accept(Raw::Selection { generation: 4, grab: Grab::text("old") }, &mut newest),
        None
    );
    assert_eq!(newest, 5);
}

/// A drag produces a burst of selections; only the last one should surface.
#[test]
fn a_burst_collapses_to_its_final_value() {
    let mut debounce = Debounce::new();
    for (generation, text) in [(1, "h"), (2, "he"), (3, "hello")] {
        debounce.hear(Raw::Selection { generation, grab: Grab::text(text) });
    }
    assert!(debounce.is_pending());
    assert_eq!(debounce.settle(&cfg()), Some(Settled::Text(Grab::text("hello"))));
    assert!(!debounce.is_pending());
    assert_eq!(debounce.settle(&cfg()), None);
}

#[test]
fn clearing_reports_cleared() {
    let mut debounce = Debounce::new();
    debounce.hear(Raw::Cleared);
    assert_eq!(debounce.settle(&cfg()), Some(Settled::Cleared));
}

#[test]
fn a_late_selection_changes_nothing() {
    let mut debounce = Debounce::new();
    debounce.hear(Raw::Selection { generation: 7, grab: Grab::text("new") });
    debounce.hear(Raw::Selection { generation: 6, grab: Grab::text("old") });
    assert_eq!(debounce.settle(&cfg()), Some(Settled::Text(Grab::text("new"))));
    debounce.hear(Raw::Selection { generation: 3, grab: Grab::text("older") });
    assert!(!debounce.is_pending());
}

#[test]
fn an_equal_generation_is_not_stale() {
    let mut newest = 4;
    let raw = Raw::Selection { generation: 4, grab: Grab::text("same") };
    assert_eq!(accept(raw, &mut newest), Some(Grab::text("same")));
    assert_eq!(accept(Raw::Cleared, &mut newest), None);
    assert_eq!(newest, 4);
}

#[test]
fn an_uninteresting_selection_settles_as_cleared() {
    assert_eq!(settled(Grab::text("   "), &cfg()), Settled::Cleared);
    assert_eq!(settled(Grab::text("much too long"), &cfg()), Settled::Cleared);
    assert_eq!(settled(Grab::text("fine"), &cfg()), Settled::Text(Grab::text("fine")));
}

#[test]
fn blank_selections_can_be_let_through() {
    let limits = Selection { min_length: 0, max_length: 10, ignore_whitespace_only: false };
    assert!(is_interesting("  ", &limits));
    let limits = Selection { min_length: 3, max_length: 3, ignore_whitespace_only: false };
    assert!(is_interesting(" abc ", &limits));
    assert!(!is_interesting(" ab ", &limits));
    assert!(!is_interesting(" abcd ", &limits));
}
