//! The settings in `config.toml`.

use vstd::prelude::*;

use crate::document::{
    find_record_misfit, member_of, read_document, read_flag, read_number, read_texts,
    reads_as_record, Misfit, Toml,
};
#[allow(unused_imports)]
use crate::document::{
    MisfitView, TomlView, flag_fits, flag_or, is_record, member, misfit_text, names_of, number_fits,
    number_or, record_misfit, texts_fit, texts_or_none, toml_document,
};
use crate::text::{lower_chars, owned, same, to_chars};

verus! {

// ---------------------------------------------------------------------------
// Settings
// ---------------------------------------------------------------------------

/// What to do with an action's captured output.
#[derive(Debug, Clone, Copy, PartialEq, Eq, Structural)]
pub enum After {
    /// Discard it; the command is run purely for its side effect.
    Ignore,
    /// Place it on the clipboard.
    Copy,
    /// Place it on the clipboard and paste over the selection.
    Replace,
    /// Show it in the bar itself.
    Show,
}

impl Default for After {
    fn default() -> (r: Self)
        ensures
            r == After::Ignore,
    {
        After::Ignore
    }
}

/// A behavior implemented by grabit itself rather than by a URL or a command.
#[derive(Debug, Clone, Copy, PartialEq, Eq, Structural)]
pub enum Builtin {
    /// Copy the selection, then delete it from the source.
    Cut,
    /// Paste the current clipboard over the selection.
    Paste,
}

/// Popup appearance and timing.
#[derive(Debug, Clone, Copy, PartialEq, Eq, Structural)]
pub struct Popup {
    /// How long the primary selection must stay unchanged before the popup is
    /// shown, in milliseconds.
    pub settle_ms: u64,
    /// How many buttons one page of the bar shows.
    pub max_actions: usize,
    /// Pixel size of action icons.
    pub icon_size: i32,
    /// Offset of the bar relative to the pointer, in logical pixels.
    pub offset_x: i32,
    pub offset_y: i32,
    /// Grace period after the pointer leaves the bar before it hides.
    /// Zero disables leave-triggered dismissal.
    pub dismiss_ms: u64,
    /// Absolute lifetime of the popup regardless of pointer activity.
    /// Zero disables the timeout.
    pub timeout_ms: u64,
    /// Slide the bar into place instead of snapping it there.
    pub animate: bool,
}

/// The popup settings of a fresh install.
pub open spec fn default_popup() -> Popup {
    Popup {
        settle_ms: 140,
        max_actions: 8,
        icon_size: 16,
        offset_x: 12,
        offset_y: 18,
        dismiss_ms: 900,
        timeout_ms: 8000,
        animate: true,
    }
}

impl Default for Popup {
    fn default() -> (r: Self)
        ensures
            r == default_popup(),
    {
        Popup {
            settle_ms: 140,
            max_actions: 8,
            icon_size: 16,
            offset_x: 12,
            offset_y: 18,
            dismiss_ms: 900,
            timeout_ms: 8000,
            animate: true,
        }
    }
}

/// Which selections are considered interesting.
#[derive(Debug, Clone, Copy, PartialEq, Eq, Structural)]
pub struct Selection {
    /// Selections shorter than this (after trimming) are ignored.
    pub min_length: usize,
    /// Selections longer than this are ignored.
    pub max_length: usize,
    /// Ignore selections that are only whitespace.
    pub ignore_whitespace_only: bool,
}

/// The selection settings of a fresh install.
pub open spec fn default_selection() -> Selection {
    Selection { min_length: 1, max_length: 20000, ignore_whitespace_only: true }
}

impl Default for Selection {
    fn default() -> (r: Self)
        ensures
            r == default_selection(),
    {
        Selection { min_length: 1, max_length: 20000, ignore_whitespace_only: true }
    }
}

/// Per-application behavior, keyed on Wayland app ids.
#[derive(Debug)]
pub struct Applications {
    /// App ids the bar must never appear in. An entry matches an app id either
    /// exactly or as its last reverse-DNS segment, case-insensitively, so both
    /// `org.mozilla.firefox` and `firefox` work.
    pub exclude: Vec<String>,
}

impl View for Applications {
    type V = Seq<Seq<char>>;

    open spec fn view(&self) -> Seq<Seq<char>> {
        crate::text::texts(self.exclude@)
    }
}

/// A copy of a list of strings.
pub fn copy_texts(list: &Vec<String>) -> (r: Vec<String>)
    ensures
        crate::text::texts(r@) == crate::text::texts(list@),
        r@ == list@,
{
    let r = list.clone();
    assert(r@ =~= list@);
    r
}

/// A copy of an optional string.
pub fn copy_maybe(string: &Option<String>) -> (r: Option<String>)
    ensures
        r == *string,
{
    match string {
        Some(s) => Some(s.clone()),
        None => None,
    }
}

impl Clone for Applications {
    fn clone(&self) -> (r: Self)
        ensures
            r@ == self@,
    {
        Applications { exclude: copy_texts(&self.exclude) }
    }
}

impl Default for Applications {
    fn default() -> (r: Self)
        ensures
            r@ == Seq::<Seq<char>>::empty(),
    {
        let r = Applications { exclude: Vec::new() };
        assert(r@ =~= Seq::<Seq<char>>::empty());
        r
    }
}

/// What stands behind the last dot of a text, or all of it if it has none.
pub open spec fn last_segment(s: Seq<char>) -> Seq<char>
    decreases s.len(),
{
    if s.len() == 0 || s.last() == '.' {
        Seq::empty()
    } else {
        last_segment(s.drop_last()).push(s.last())
    }
}

/// Whether an entry of the exclude list covers an app id: it is the id, or the
/// last segment of it. Case makes no difference.
pub open spec fn covers(entry: Seq<char>, app_id: Seq<char>) -> bool {
    let id = crate::text::lower(app_id);
    let low = crate::text::lower(entry);
    id == low || last_segment(id) == low
}

/// Whether any entry of an exclude list covers an app id.
pub open spec fn excluded(exclude: Seq<Seq<char>>, app_id: Seq<char>) -> bool {
    exists|i: int| 0 <= i < exclude.len() && covers(#[trigger] exclude[i], app_id)
}

/// What stands behind the last dot.
fn segment_of(s: &[char]) -> (r: &[char])
    ensures
        r@ == last_segment(s@),
{
    let mut from: usize = s.len();
    while from > 0 && s[from - 1] != '.'
        invariant
            0 <= from <= s@.len(),
            forall|k: int| from <= k < s@.len() ==> #[trigger] s@[k] != '.',
        decreases from,
    {
        from -= 1;
    }
    let tail = &s[from..s.len()];
    assert(tail@ =~= s@.skip(from as int));
    proof {
        if from > 0 {
            let dotted = seq!['.'] + tail@;
            assert(s@.skip(s@.len() - dotted.len()) =~= dotted);
        } else {
            assert(tail@ =~= s@);
        }
        lemma_last_segment_is(s@, tail@);
    }
    tail
}

impl Applications {
    /// Whether `app_id` is on the exclude list. Entries match the whole app id
    /// or its last reverse-DNS segment, case-insensitively.
    pub fn is_excluded(&self, app_id: &str) -> (r: bool)
        ensures
            r == excluded(self@, app_id@),
    {
        let raw = to_chars(app_id);
        let id = lower_chars(raw.as_slice());
        let segment = segment_of(id.as_slice());
        for i in 0..self.exclude.len()
            invariant
                id@ == crate::text::lower(app_id@),
                segment@ == last_segment(id@),
                forall|k: int| 0 <= k < i ==> !covers(#[trigger] self@[k], app_id@),
        {
            let entry = to_chars(self.exclude[i].as_str());
            let low = lower_chars(entry.as_slice());
            assert(self@[i as int] == self.exclude@[i as int]@);
            if same(id.as_slice(), low.as_slice()) || same(segment, low.as_slice()) {
                assert(covers(self@[i as int], app_id@));
                return true;
            }
        }
        false
    }
}

/// Everything `config.toml` holds.
#[derive(Debug)]
pub struct Config {
    pub popup: Popup,
    pub selection: Selection,
    pub applications: Applications,
}

/// The settings in specifications.
pub struct ConfigView {
    pub popup: Popup,
    pub selection: Selection,
    pub exclude: Seq<Seq<char>>,
}

impl View for Config {
    type V = ConfigView;

    open spec fn view(&self) -> ConfigView {
        ConfigView {
            popup: self.popup,
            selection: self.selection,
            exclude: self.applications@,
        }
    }
}

impl Clone for Config {
    fn clone(&self) -> (r: Self)
        ensures
            r@ == self@,
    {
        Config {
            popup: self.popup,
            selection: self.selection,
            applications: self.applications.clone(),
        }
    }
}

/// The settings of a fresh install.
pub open spec fn default_config() -> ConfigView {
    ConfigView {
        popup: default_popup(),
        selection: default_selection(),
        exclude: Seq::empty(),
    }
}

impl Default for Config {
    fn default() -> (r: Self)
        ensures
            r@ == default_config(),
    {
        Config {
            popup: Popup::default(),
            selection: Selection::default(),
            applications: Applications::default(),
        }
    }
}

// ---------------------------------------------------------------------------
// Reading the settings out of a document
// ---------------------------------------------------------------------------

/// The members of `[popup]`, in order.
pub open spec fn popup_members() -> Seq<Seq<char>> {
    seq![
        "settle_ms"@,
        "max_actions"@,
        "icon_size"@,
        "offset_x"@,
        "offset_y"@,
        "dismiss_ms"@,
        "timeout_ms"@,
        "animate"@,
    ]
}

/// The members of `[selection]`, in order.
pub open spec fn selection_members() -> Seq<Seq<char>> {
    seq!["min_length"@, "max_length"@, "ignore_whitespace_only"@]
}

/// The members of `[applications]`, in order.
pub open spec fn applications_members() -> Seq<Seq<char>> {
    seq!["exclude"@]
}

/// The tables of `config.toml`, in order.
pub open spec fn config_members() -> Seq<Seq<char>> {
    seq!["popup"@, "selection"@, "applications"@]
}

/// Whether a value reads as the `[popup]` table. A missing member is left at
/// its default; an unknown one is refused.
pub open spec fn popup_fits(v: TomlView) -> bool {
    &&& is_record(v, popup_members())
    &&& number_fits(member(v, 0, "settle_ms"@), 0, u64::MAX as int)
    &&& number_fits(member(v, 1, "max_actions"@), 0, usize::MAX as int)
    &&& number_fits(member(v, 2, "icon_size"@), i32::MIN as int, i32::MAX as int)
    &&& number_fits(member(v, 3, "offset_x"@), i32::MIN as int, i32::MAX as int)
    &&& number_fits(member(v, 4, "offset_y"@), i32::MIN as int, i32::MAX as int)
    &&& number_fits(member(v, 5, "dismiss_ms"@), 0, u64::MAX as int)
    &&& number_fits(member(v, 6, "timeout_ms"@), 0, u64::MAX as int)
    &&& flag_fits(member(v, 7, "animate"@))
}

/// The popup settings that a value holds.
pub open spec fn popup_from(v: TomlView) -> Popup {
    Popup {
        settle_ms: number_or(member(v, 0, "settle_ms"@), 140) as u64,
        max_actions: number_or(member(v, 1, "max_actions"@), 8) as usize,
        icon_size: number_or(member(v, 2, "icon_size"@), 16) as i32,
        offset_x: number_or(member(v, 3, "offset_x"@), 12) as i32,
        offset_y: number_or(member(v, 4, "offset_y"@), 18) as i32,
        dismiss_ms: number_or(member(v, 5, "dismiss_ms"@), 900) as u64,
        timeout_ms: number_or(member(v, 6, "timeout_ms"@), 8000) as u64,
        animate: flag_or(member(v, 7, "animate"@), true),
    }
}

/// Whether a value reads as the `[selection]` table.
pub open spec fn selection_fits(v: TomlView) -> bool {
    &&& is_record(v, selection_members())
    &&& number_fits(member(v, 0, "min_length"@), 0, usize::MAX as int)
    &&& number_fits(member(v, 1, "max_length"@), 0, usize::MAX as int)
    &&& flag_fits(member(v, 2, "ignore_whitespace_only"@))
}

/// The selection settings that a value holds.
pub open spec fn selection_from(v: TomlView) -> Selection {
    Selection {
        min_length: number_or(member(v, 0, "min_length"@), 1) as usize,
        max_length: number_or(member(v, 1, "max_length"@), 20000) as usize,
        ignore_whitespace_only: flag_or(member(v, 2, "ignore_whitespace_only"@), true),
    }
}

/// Whether a value reads as the `[applications]` table.
pub open spec fn applications_fit(v: TomlView) -> bool {
    &&& is_record(v, applications_members())
    &&& texts_fit(member(v, 0, "exclude"@))
}

/// The exclude list that a value holds.
pub open spec fn applications_from(v: TomlView) -> Seq<Seq<char>> {
    texts_or_none(member(v, 0, "exclude"@))
}

/// Whether a document reads as `config.toml`.
pub open spec fn config_fits(doc: TomlView) -> bool {
    &&& is_record(doc, config_members())
    &&& member(doc, 0, "popup"@) matches Some(v) ==> popup_fits(v)
    &&& member(doc, 1, "selection"@) matches Some(v) ==> selection_fits(v)
    &&& member(doc, 2, "applications"@) matches Some(v) ==> applications_fit(v)
}

/// The settings that a document holds.
pub open spec fn config_from(doc: TomlView) -> ConfigView {
    ConfigView {
        popup: match member(doc, 0, "popup"@) {
            Some(v) => popup_from(v),
            None => default_popup(),
        },
        selection: match member(doc, 1, "selection"@) {
            Some(v) => selection_from(v),
            None => default_selection(),
        },
        exclude: match member(doc, 2, "applications"@) {
            Some(v) => applications_from(v),
            None => Seq::empty(),
        },
    }
}

/// Reads the `[popup]` table.
fn read_popup(value: &Toml) -> (r: Option<Popup>)
    ensures
        r is Some <==> popup_fits(value@),
        r matches Some(popup) ==> popup == popup_from(value@),
{
    let members: Vec<&str> = vec![
        "settle_ms",
        "max_actions",
        "icon_size",
        "offset_x",
        "offset_y",
        "dismiss_ms",
        "timeout_ms",
        "animate",
    ];
    assert(names_of(members@) =~= popup_members());
    if !reads_as_record(value, &members) {
        return None;
    }
    let settle = read_number(member_of(value, 0, "settle_ms"), 0, u64::MAX as i128, 140);
    let actions = read_number(member_of(value, 1, "max_actions"), 0, usize::MAX as i128, 8);
    let icon = read_number(
        member_of(value, 2, "icon_size"),
        i32::MIN as i128,
        i32::MAX as i128,
        16,
    );
    let x = read_number(member_of(value, 3, "offset_x"), i32::MIN as i128, i32::MAX as i128, 12);
    let y = read_number(member_of(value, 4, "offset_y"), i32::MIN as i128, i32::MAX as i128, 18);
    let dismiss = read_number(member_of(value, 5, "dismiss_ms"), 0, u64::MAX as i128, 900);
    let timeout = read_number(member_of(value, 6, "timeout_ms"), 0, u64::MAX as i128, 8000);
    let animate = read_flag(member_of(value, 7, "animate"), true);
    match (settle, actions, icon, x, y, dismiss, timeout, animate) {
        (
            Some(settle),
            Some(actions),
            Some(icon),
            Some(x),
            Some(y),
            Some(dismiss),
            Some(timeout),
            Some(animate),
        ) => Some(
            Popup {
                settle_ms: settle as u64,
                max_actions: actions as usize,
                icon_size: icon as i32,
                offset_x: x as i32,
                offset_y: y as i32,
                dismiss_ms: dismiss as u64,
                timeout_ms: timeout as u64,
                animate,
            },
        ),
        _ => None,
    }
}

/// Reads the `[selection]` table.
fn read_selection(value: &Toml) -> (r: Option<Selection>)
    ensures
        r is Some <==> selection_fits(value@),
        r matches Some(selection) ==> selection == selection_from(value@),
{
    let members: Vec<&str> = vec!["min_length", "max_length", "ignore_whitespace_only"];
    assert(names_of(members@) =~= selection_members());
    if !reads_as_record(value, &members) {
        return None;
    }
    let min = read_number(member_of(value, 0, "min_length"), 0, usize::MAX as i128, 1);
    let max = read_number(member_of(value, 1, "max_length"), 0, usize::MAX as i128, 20000);
    let blank = read_flag(member_of(value, 2, "ignore_whitespace_only"), true);
    match (min, max, blank) {
        (Some(min), Some(max), Some(blank)) => Some(
            Selection {
                min_length: min as usize,
                max_length: max as usize,
                ignore_whitespace_only: blank,
            },
        ),
        _ => None,
    }
}

/// Reads the `[applications]` table.
fn read_applications(value: &Toml) -> (r: Option<Applications>)
    ensures
        r is Some <==> applications_fit(value@),
        r matches Some(applications) ==> applications@ == applications_from(value@),
{
    let members: Vec<&str> = vec!["exclude"];
    assert(names_of(members@) =~= applications_members());
    if !reads_as_record(value, &members) {
        return None;
    }
    match read_texts(member_of(value, 0, "exclude")) {
        Some(exclude) => Some(Applications { exclude }),
        None => None,
    }
}

/// Reads the settings out of a document, unless it holds anything that is not
/// one.
pub fn config_from_document(doc: &Toml) -> (r: Option<Config>)
    ensures
        r is Some <==> config_fits(doc@),
        r matches Some(config) ==> config@ == config_from(doc@),
{
    let members: Vec<&str> = vec!["popup", "selection", "applications"];
    assert(names_of(members@) =~= config_members());
    if !reads_as_record(doc, &members) {
        return None;
    }
    let popup = match member_of(doc, 0, "popup") {
        Some(value) => match read_popup(value) {
            Some(popup) => popup,
            None => return None,
        },
        None => Popup::default(),
    };
    let selection = match member_of(doc, 1, "selection") {
        Some(value) => match read_selection(value) {
            Some(selection) => selection,
            None => return None,
        },
        None => Selection::default(),
    };
    let applications = match member_of(doc, 2, "applications") {
        Some(value) => match read_applications(value) {
            Some(applications) => applications,
            None => return None,
        },
        None => Applications::default(),
    };
    Some(Config { popup, selection, applications })
}

/// What keeps a value from being read as the `[popup]` table.
pub open spec fn popup_misfit(v: TomlView) -> MisfitView {
    if let Some(misfit) = record_misfit(v, popup_members(), "popup"@) {
        misfit
    } else if !number_fits(member(v, 0, "settle_ms"@), 0, u64::MAX as int) {
        MisfitView::Wrong("popup.settle_ms"@)
    } else if !number_fits(member(v, 1, "max_actions"@), 0, usize::MAX as int) {
        MisfitView::Wrong("popup.max_actions"@)
    } else if !number_fits(member(v, 2, "icon_size"@), i32::MIN as int, i32::MAX as int) {
        MisfitView::Wrong("popup.icon_size"@)
    } else if !number_fits(member(v, 3, "offset_x"@), i32::MIN as int, i32::MAX as int) {
        MisfitView::Wrong("popup.offset_x"@)
    } else if !number_fits(member(v, 4, "offset_y"@), i32::MIN as int, i32::MAX as int) {
        MisfitView::Wrong("popup.offset_y"@)
    } else if !number_fits(member(v, 5, "dismiss_ms"@), 0, u64::MAX as int) {
        MisfitView::Wrong("popup.dismiss_ms"@)
    } else if !number_fits(member(v, 6, "timeout_ms"@), 0, u64::MAX as int) {
        MisfitView::Wrong("popup.timeout_ms"@)
    } else {
        MisfitView::Wrong("popup.animate"@)
    }
}

/// What keeps a value from being read as the `[selection]` table.
pub open spec fn selection_misfit(v: TomlView) -> MisfitView {
    if let Some(misfit) = record_misfit(v, selection_members(), "selection"@) {
        misfit
    } else if !number_fits(member(v, 0, "min_length"@), 0, usize::MAX as int) {
        MisfitView::Wrong("selection.min_length"@)
    } else if !number_fits(member(v, 1, "max_length"@), 0, usize::MAX as int) {
        MisfitView::Wrong("selection.max_length"@)
    } else {
        MisfitView::Wrong("selection.ignore_whitespace_only"@)
    }
}

/// What keeps a value from being read as the `[applications]` table.
pub open spec fn applications_misfit(v: TomlView) -> MisfitView {
    if let Some(misfit) = record_misfit(v, applications_members(), "applications"@) {
        misfit
    } else {
        MisfitView::Wrong("applications.exclude"@)
    }
}

/// Whether an optional value is there and does not read as the `[popup]` table.
pub open spec fn popup_jars(m: Option<TomlView>) -> bool {
    m matches Some(v) && !popup_fits(v)
}

/// Whether an optional value is there and does not read as the `[selection]`
/// table.
pub open spec fn selection_jars(m: Option<TomlView>) -> bool {
    m matches Some(v) && !selection_fits(v)
}

/// What keeps a document that is no `config.toml` from being one: an unknown
/// table, or else the first member that does not fit.
pub open spec fn config_misfit(doc: TomlView) -> MisfitView {
    if let Some(misfit) = record_misfit(doc, config_members(), Seq::empty()) {
        misfit
    } else if popup_jars(member(doc, 0, "popup"@)) {
        popup_misfit(member(doc, 0, "popup"@)->Some_0)
    } else if selection_jars(member(doc, 1, "selection"@)) {
        selection_misfit(member(doc, 1, "selection"@)->Some_0)
    } else {
        applications_misfit(member(doc, 2, "applications"@)->Some_0)
    }
}

/// Says what keeps a value from being read as the `[popup]` table.
fn find_popup_misfit(value: &Toml) -> (r: Misfit)
    requires
        !popup_fits(value@),
    ensures
        r@ == popup_misfit(value@),
{
    let members: Vec<&str> = vec![
        "settle_ms",
        "max_actions",
        "icon_size",
        "offset_x",
        "offset_y",
        "dismiss_ms",
        "timeout_ms",
        "animate",
    ];
    assert(names_of(members@) =~= popup_members());
    if let Some(misfit) = find_record_misfit(value, &members, "popup") {
        return misfit;
    }
    let (low, high): (i128, i128) = (i32::MIN as i128, i32::MAX as i128);
    let path = if read_number(member_of(value, 0, "settle_ms"), 0, u64::MAX as i128, 0).is_none() {
        "popup.settle_ms"
    } else if read_number(member_of(value, 1, "max_actions"), 0, usize::MAX as i128, 0).is_none() {
        "popup.max_actions"
    } else if read_number(member_of(value, 2, "icon_size"), low, high, 0).is_none() {
        "popup.icon_size"
    } else if read_number(member_of(value, 3, "offset_x"), low, high, 0).is_none() {
        "popup.offset_x"
    } else if read_number(member_of(value, 4, "offset_y"), low, high, 0).is_none() {
        "popup.offset_y"
    } else if read_number(member_of(value, 5, "dismiss_ms"), 0, u64::MAX as i128, 0).is_none() {
        "popup.dismiss_ms"
    } else if read_number(member_of(value, 6, "timeout_ms"), 0, u64::MAX as i128, 0).is_none() {
        "popup.timeout_ms"
    } else {
        "popup.animate"
    };
    Misfit::Wrong(owned(path))
}

/// Says what keeps a value from being read as the `[selection]` table.
fn find_selection_misfit(value: &Toml) -> (r: Misfit)
    requires
        !selection_fits(value@),
    ensures
        r@ == selection_misfit(value@),
{
    let members: Vec<&str> = vec!["min_length", "max_length", "ignore_whitespace_only"];
    assert(names_of(members@) =~= selection_members());
    if let Some(misfit) = find_record_misfit(value, &members, "selection") {
        return misfit;
    }
    let path = if read_number(
        member_of(value, 0, "min_length"),
        0,
        usize::MAX as i128,
        0,
    ).is_none() {
        "selection.min_length"
    } else if read_number(member_of(value, 1, "max_length"), 0, usize::MAX as i128, 0).is_none() {
        "selection.max_length"
    } else {
        "selection.ignore_whitespace_only"
    };
    Misfit::Wrong(owned(path))
}

/// Says what keeps a document from being `config.toml`.
pub fn find_config_misfit(doc: &Toml) -> (r: Misfit)
    requires
        !config_fits(doc@),
    ensures
        r@ == config_misfit(doc@),
{
    let members: Vec<&str> = vec!["popup", "selection", "applications"];
    assert(names_of(members@) =~= config_members());
    assert(""@ =~= Seq::<char>::empty()) by {
        reveal_strlit("");
    }
    if let Some(misfit) = find_record_misfit(doc, &members, "") {
        return misfit;
    }
    if let Some(value) = member_of(doc, 0, "popup") {
        if read_popup(value).is_none() {
            return find_popup_misfit(value);
        }
    }
    if let Some(value) = member_of(doc, 1, "selection") {
        if read_selection(value).is_none() {
            return find_selection_misfit(value);
        }
    }
    let members: Vec<&str> = vec!["exclude"];
    assert(names_of(members@) =~= applications_members());
    if let Some(value) = member_of(doc, 2, "applications") {
        if let Some(misfit) = find_record_misfit(value, &members, "applications") {
            return misfit;
        }
    }
    Misfit::Wrong(owned("applications.exclude"))
}

/// Why `config.toml` could not be used.
#[derive(Debug, PartialEq, Eq)]
pub enum ConfigError {
    /// It is not TOML; the message says why.
    Syntax(String),
    /// It is TOML, but holds something that is not a setting, or a setting of
    /// the wrong kind.
    Schema(Misfit),
}

/// What a refusal of the settings says to the user.
pub open spec fn config_error_text(error: ConfigError) -> Seq<char> {
    match error {
        ConfigError::Syntax(message) => message@,
        ConfigError::Schema(misfit) => misfit_text(misfit@),
    }
}

impl ConfigError {
    /// What to say to the user.
    pub fn message(&self) -> (r: String)
        ensures
            r@ == config_error_text(*self),
            r@ == (match self {
                ConfigError::Syntax(message) => message@,
                ConfigError::Schema(misfit) => misfit_text(misfit@),
            }),
    {
        match self {
            ConfigError::Syntax(message) => owned(message.as_str()),
            ConfigError::Schema(misfit) => misfit.message(),
        }
    }
}

/// Reads the text of `config.toml`.
pub fn parse_config(text: &str) -> (r: Result<Config, ConfigError>)
    ensures
        match toml_document(text@) {
            Ok(doc) => if config_fits(doc) {
                r matches Ok(config) && config@ == config_from(doc)
            } else {
                r matches Err(ConfigError::Schema(misfit)) && misfit@ == config_misfit(doc)
            },
            Err(message) => r matches Err(ConfigError::Syntax(m)) && m@ == message,
        },
{
    match read_document(text) {
        Err(message) => Err(ConfigError::Syntax(message)),
        Ok(doc) => match config_from_document(&doc) {
            Some(config) => Ok(config),
            None => Err(ConfigError::Schema(find_config_misfit(&doc))),
        },
    }
}

// ---------------------------------------------------------------------------
// What the settings promise
// ---------------------------------------------------------------------------

/// The last segment stands behind a dot, or is everything.
proof fn lemma_last_segment_ends(s: Seq<char>)
    ensures
        s == last_segment(s) || crate::text::ends(s, seq!['.'] + last_segment(s)),
    decreases s.len(),
{
    if s.len() > 0 && s.last() != '.' {
        let shorter = s.drop_last();
        lemma_last_segment_ends(shorter);
        let inner = last_segment(shorter);
        if shorter == inner {
            assert(s =~= inner.push(s.last()));
        } else {
            let tail = seq!['.'] + inner.push(s.last());
            assert(tail =~= (seq!['.'] + inner).push(s.last()));
            assert(s.skip(s.len() - tail.len()) =~= shorter.skip(
                shorter.len() - (seq!['.'] + inner).len(),
            ).push(s.last()));
        }
    } else if s.len() > 0 {
        assert(s.skip(s.len() - 1) =~= seq!['.'] + Seq::<char>::empty());
    } else {
        assert(s =~= Seq::<char>::empty());
    }
}

/// A tail without dots behind a dot, or without anything before it, is the last
/// segment.
proof fn lemma_last_segment_is(s: Seq<char>, tail: Seq<char>)
    requires
        forall|i: int| 0 <= i < tail.len() ==> #[trigger] tail[i] != '.',
        s == tail || crate::text::ends(s, seq!['.'] + tail),
    ensures
        last_segment(s) == tail,
    decreases tail.len(),
{
    let dotted = seq!['.'] + tail;
    if tail.len() == 0 {
        if s != tail {
            assert(s.skip(s.len() - 1)[0] == dotted[0]);
        }
        assert(last_segment(s) =~= tail);
    } else {
        if s != tail {
            assert(s.skip(s.len() - dotted.len())[dotted.len() - 1] == dotted[dotted.len() - 1]);
            let shorter = seq!['.'] + tail.drop_last();
            let end = s.drop_last().skip(s.drop_last().len() - shorter.len());
            assert forall|i: int| 0 <= i < shorter.len() implies end[i] == shorter[i] by {
                assert(s.skip(s.len() - dotted.len())[i] == dotted[i]);
            }
            assert(end =~= shorter);
        }
        assert(s.last() == tail.last());
        lemma_last_segment_is(s.drop_last(), tail.drop_last());
        assert(last_segment(s) =~= tail);
    }
}

/// The exclude list does not tell upper from lower case.
pub proof fn law_exclusions_ignore_case(entry: Seq<char>, app_id: Seq<char>)
    ensures
        covers(entry, app_id) == covers(crate::text::lower(entry), app_id),
        covers(entry, app_id) == covers(entry, crate::text::lower(app_id)),
{
    assert(crate::text::lower(crate::text::lower(entry)) =~= crate::text::lower(entry));
    assert(crate::text::lower(crate::text::lower(app_id)) =~= crate::text::lower(app_id));
}

/// A last segment holds no dot.
proof fn lemma_last_segment_has_no_dot(s: Seq<char>)
    ensures
        forall|i: int| 0 <= i < last_segment(s).len() ==> #[trigger] last_segment(s)[i] != '.',
    decreases s.len(),
{
    if s.len() > 0 && s.last() != '.' {
        let shorter = last_segment(s.drop_last());
        lemma_last_segment_has_no_dot(s.drop_last());
        assert forall|i: int| 0 <= i < last_segment(s).len() implies #[trigger] last_segment(s)[i]
            != '.' by {
            if i < shorter.len() {
                assert(shorter[i] != '.');
            }
        }
    }
}

/// An entry covers the app id that it spells out, and any other only if it is
/// what stands behind the last dot: an entry with a dot covers no longer id.
pub proof fn law_exclusions_name_the_app_or_its_last_segment(
    entry: Seq<char>,
    app_id: Seq<char>,
)
    ensures
        covers(app_id, app_id),
        covers(entry, app_id) == ({
            let id = crate::text::lower(app_id);
            let low = crate::text::lower(entry);
            id == low || (!entry.contains('.') && crate::text::ends(id, seq!['.'] + low))
        }),
{
    let id = crate::text::lower(app_id);
    let low = crate::text::lower(entry);
    assert forall|i: int| 0 <= i < entry.len() implies (#[trigger] low[i] == '.') == (entry[i]
        == '.') by {}
    if last_segment(id) == low {
        lemma_last_segment_ends(id);
        lemma_last_segment_has_no_dot(id);
        if entry.contains('.') {
            let i = entry.index_of('.');
            assert(low[i] == '.');
        }
    }
    if !entry.contains('.') && crate::text::ends(id, seq!['.'] + low) {
        assert forall|i: int| 0 <= i < low.len() implies #[trigger] low[i] != '.' by {
            assert(entry.contains(entry[i]));
        }
        lemma_last_segment_is(id, low);
    }
}

/// A fresh install waits 140 ms, shows eight buttons of sixteen pixels twelve to
/// the right of the pointer and eighteen below, hides 900 ms after the pointer
/// left and eight seconds in any case, slides in, takes selections of one to
/// twenty thousand characters that are not blank, and excludes no application.
pub proof fn law_a_fresh_install_has_these_settings()
    ensures
        default_config().popup.settle_ms == 140,
        default_config().popup.max_actions == 8,
        default_config().popup.icon_size == 16,
        default_config().popup.offset_x == 12,
        default_config().popup.offset_y == 18,
        default_config().popup.dismiss_ms == 900,
        default_config().popup.timeout_ms == 8000,
        default_config().popup.animate,
        default_config().selection.min_length == 1,
        default_config().selection.max_length == 20000,
        default_config().selection.ignore_whitespace_only,
        default_config().exclude.len() == 0,
{
}

/// Each setting is read under its own name, and one that is left out is that of a
/// fresh install.
pub proof fn law_each_setting_has_its_own_name(
    entries: Seq<(Seq<char>, TomlView)>,
    wide: u64,
    size: usize,
    narrow: i32,
    flag: bool,
)
    ensures
        ({
            let popup = popup_from(TomlView::Table(entries));
            let at = |name: Seq<char>| crate::document::entry_from(entries, name, 0);
            &&& at("settle_ms"@) == Some(TomlView::Integer(wide as int)) ==> popup.settle_ms == wide
            &&& at("settle_ms"@) is None ==> popup.settle_ms == 140
            &&& at("max_actions"@) == Some(TomlView::Integer(size as int)) ==> popup.max_actions
                == size
            &&& at("max_actions"@) is None ==> popup.max_actions == 8
            &&& at("icon_size"@) == Some(TomlView::Integer(narrow as int)) ==> popup.icon_size
                == narrow
            &&& at("icon_size"@) is None ==> popup.icon_size == 16
            &&& at("offset_x"@) == Some(TomlView::Integer(narrow as int)) ==> popup.offset_x
                == narrow
            &&& at("offset_x"@) is None ==> popup.offset_x == 12
            &&& at("offset_y"@) == Some(TomlView::Integer(narrow as int)) ==> popup.offset_y
                == narrow
            &&& at("offset_y"@) is None ==> popup.offset_y == 18
            &&& at("dismiss_ms"@) == Some(TomlView::Integer(wide as int)) ==> popup.dismiss_ms
                == wide
            &&& at("dismiss_ms"@) is None ==> popup.dismiss_ms == 900
            &&& at("timeout_ms"@) == Some(TomlView::Integer(wide as int)) ==> popup.timeout_ms
                == wide
            &&& at("timeout_ms"@) is None ==> popup.timeout_ms == 8000
            &&& at("animate"@) == Some(TomlView::Boolean(flag)) ==> popup.animate == flag
            &&& at("animate"@) is None ==> popup.animate
        }),
        ({
            let selection = selection_from(TomlView::Table(entries));
            let at = |name: Seq<char>| crate::document::entry_from(entries, name, 0);
            &&& at("min_length"@) == Some(TomlView::Integer(size as int)) ==> selection.min_length
                == size
            &&& at("min_length"@) is None ==> selection.min_length == 1
            &&& at("max_length"@) == Some(TomlView::Integer(size as int)) ==> selection.max_length
                == size
            &&& at("max_length"@) is None ==> selection.max_length == 20000
            &&& at("ignore_whitespace_only"@) == Some(TomlView::Boolean(flag))
                ==> selection.ignore_whitespace_only == flag
            &&& at("ignore_whitespace_only"@) is None ==> selection.ignore_whitespace_only
        }),
{
}

/// The exclude list is read item by item, and is empty where it is left out.
pub proof fn law_the_exclude_list_is_read_item_by_item(
    entries: Seq<(Seq<char>, TomlView)>,
    items: Seq<TomlView>,
    i: int,
    text: Seq<char>,
)
    ensures
        crate::document::entry_from(entries, "exclude"@, 0) is None ==> applications_from(
            TomlView::Table(entries),
        ).len() == 0,
        crate::document::entry_from(entries, "exclude"@, 0) == Some(TomlView::Array(items)) && 0
            <= i < items.len() && items[i] == TomlView::Text(text) ==> applications_from(
            TomlView::Table(entries),
        ).len() == items.len() && applications_from(TomlView::Table(entries))[i] == text,
{
}

/// Each group of settings is a table of its own, and one that is left out is that
/// of a fresh install.
pub proof fn law_each_group_of_settings_has_its_own_table(
    entries: Seq<(Seq<char>, TomlView)>,
    table: TomlView,
)
    ensures
        ({
            let config = config_from(TomlView::Table(entries));
            let at = |name: Seq<char>| crate::document::entry_from(entries, name, 0);
            &&& at("popup"@) == Some(table) ==> config.popup == popup_from(table)
            &&& at("popup"@) is None ==> config.popup == default_config().popup
            &&& at("selection"@) == Some(table) ==> config.selection == selection_from(table)
            &&& at("selection"@) is None ==> config.selection == default_config().selection
            &&& at("applications"@) == Some(table) ==> config.exclude == applications_from(table)
            &&& at("applications"@) is None ==> config.exclude.len() == 0
            &&& config_fits(TomlView::Table(entries)) && at("popup"@) == Some(table) ==> popup_fits(
                table,
            )
            &&& config_fits(TomlView::Table(entries)) && at("selection"@) == Some(table)
                ==> selection_fits(table)
            &&& config_fits(TomlView::Table(entries)) && at("applications"@) == Some(table)
                ==> applications_fit(table)
        }),
{
}

/// A strange table or setting is refused, and so is a setting of the wrong kind or
/// out of range: no time and no count is negative.
pub proof fn law_strange_settings_are_refused(entries: Seq<(Seq<char>, TomlView)>, i: int, n: int)
    requires
        0 <= i < entries.len(),
    ensures
        ({
            let table = TomlView::Table(entries);
            let name = entries[i].0;
            let at = |name: Seq<char>| crate::document::entry_from(entries, name, 0);
            let time = |name: Seq<char>| at(name) == Some(TomlView::Integer(n)) && (n < 0 || n
                > 0xffff_ffff_ffff_ffff);
            let length = |name: Seq<char>| at(name) == Some(TomlView::Integer(n)) && n < 0;
            let pixels = |name: Seq<char>| at(name) == Some(TomlView::Integer(n)) && (n
                < -0x8000_0000 || n > 0x7fff_ffff);
            let wrong = |name: Seq<char>| at(name) matches Some(v) && !(v is Integer);
            &&& config_fits(table) ==> name == "popup"@ || name == "selection"@ || name
                == "applications"@
            &&& popup_fits(table) ==> name == "settle_ms"@ || name == "max_actions"@ || name
                == "icon_size"@ || name == "offset_x"@ || name == "offset_y"@ || name
                == "dismiss_ms"@ || name == "timeout_ms"@ || name == "animate"@
            &&& selection_fits(table) ==> name == "min_length"@ || name == "max_length"@ || name
                == "ignore_whitespace_only"@
            &&& applications_fit(table) ==> name == "exclude"@
            &&& time("settle_ms"@) || time("dismiss_ms"@) || time("timeout_ms"@) || length(
                "max_actions"@,
            ) || pixels("icon_size"@) || pixels("offset_x"@) || pixels("offset_y"@) ==> !popup_fits(
                table,
            )
            &&& wrong("settle_ms"@) || wrong("dismiss_ms"@) || wrong("timeout_ms"@) || wrong(
                "max_actions"@,
            ) || wrong("icon_size"@) || wrong("offset_x"@) || wrong("offset_y"@) ==> !popup_fits(
                table,
            )
            &&& length("min_length"@) || length("max_length"@) || wrong("min_length"@) || wrong(
                "max_length"@,
            ) ==> !selection_fits(table)
            &&& (at("animate"@) matches Some(v) && !(v is Boolean)) ==> !popup_fits(table)
            &&& (at("ignore_whitespace_only"@) matches Some(v) && !(v is Boolean))
                ==> !selection_fits(table)
            &&& (at("exclude"@) matches Some(v) && !(v is Array)) ==> !applications_fit(table)
        }),
{
    let table = TomlView::Table(entries);
    if config_fits(table) {
        assert(config_members().contains(table->Table_0[i].0));
    }
    if popup_fits(table) {
        assert(popup_members().contains(table->Table_0[i].0));
    }
    if selection_fits(table) {
        assert(selection_members().contains(table->Table_0[i].0));
    }
    if applications_fit(table) {
        assert(applications_members().contains(table->Table_0[i].0));
    }
}

/// An empty table of settings is in order, and so is an empty file.
pub proof fn law_every_setting_may_be_left_out()
    ensures
        config_fits(TomlView::Table(Seq::empty())),
        popup_fits(TomlView::Table(Seq::empty())),
        selection_fits(TomlView::Table(Seq::empty())),
        applications_fit(TomlView::Table(Seq::empty())),
{
}

/// An entry of its own name is found.
proof fn lemma_own_entry(
    entries: Seq<(Seq<char>, TomlView)>,
    added: (Seq<char>, TomlView),
    name: Seq<char>,
    from: int,
)
    requires
        0 <= from <= entries.len(),
    ensures
        crate::document::entry_from(entries.push(added), name, from) == (
        match crate::document::entry_from(entries, name, from) {
            Some(value) => Some(value),
            None => if added.0 == name {
                Some(added.1)
            } else {
                None
            },
        }),
    decreases entries.len() - from,
{
    let more = entries.push(added);
    if from < entries.len() {
        assert(more[from] == entries[from]);
        lemma_own_entry(entries, added, name, from + 1);
    } else {
        assert(crate::document::entry_from(more, name, from + 1) is None);
    }
}

/// A table of settings that is in order stays so with one more number in range or
/// one more truth value, under a name of its own.
pub proof fn law_settings_in_range_are_taken(
    entries: Seq<(Seq<char>, TomlView)>,
    name: Seq<char>,
    value: TomlView,
)
    requires
        crate::document::entry_from(entries, name, 0) is None,
    ensures
        ({
            let table = TomlView::Table(entries);
            let more = TomlView::Table(entries.push((name, value)));
            let number = |low: int, high: int| value matches TomlView::Integer(n) && low <= n && n
                <= high;
            &&& popup_fits(table) && (name == "settle_ms"@ || name == "dismiss_ms"@ || name
                == "timeout_ms"@) && number(0, 0xffff_ffff_ffff_ffff) ==> popup_fits(more)
            &&& popup_fits(table) && (name == "icon_size"@ || name == "offset_x"@ || name
                == "offset_y"@) && number(-0x8000_0000, 0x7fff_ffff) ==> popup_fits(more)
            &&& popup_fits(table) && name == "max_actions"@ && number(0, 0xffff_ffff) ==> popup_fits(
                more,
            )
            &&& popup_fits(table) && name == "animate"@ && value is Boolean ==> popup_fits(more)
            &&& selection_fits(table) && (name == "min_length"@ || name == "max_length"@) && number(
                0,
                0xffff_ffff,
            ) ==> selection_fits(more)
            &&& selection_fits(table) && name == "ignore_whitespace_only"@ && value is Boolean
                ==> selection_fits(more)
            &&& applications_fit(table) && name == "exclude"@ && crate::document::is_text_list(value)
                ==> applications_fit(more)
        }),
{
    let table = TomlView::Table(entries);
    let added = (name, value);
    let more = TomlView::Table(entries.push(added));
    lemma_own_entry(entries, added, "settle_ms"@, 0);
    lemma_own_entry(entries, added, "max_actions"@, 0);
    lemma_own_entry(entries, added, "icon_size"@, 0);
    lemma_own_entry(entries, added, "offset_x"@, 0);
    lemma_own_entry(entries, added, "offset_y"@, 0);
    lemma_own_entry(entries, added, "dismiss_ms"@, 0);
    lemma_own_entry(entries, added, "timeout_ms"@, 0);
    lemma_own_entry(entries, added, "animate"@, 0);
    lemma_own_entry(entries, added, "min_length"@, 0);
    lemma_own_entry(entries, added, "max_length"@, 0);
    lemma_own_entry(entries, added, "ignore_whitespace_only"@, 0);
    lemma_own_entry(entries, added, "exclude"@, 0);
    lemma_setting_names();
    lemma_one_more_member(entries, added, popup_members());
    lemma_one_more_member(entries, added, selection_members());
    lemma_one_more_member(entries, added, applications_members());
}

/// A record with one more of its members is one.
proof fn lemma_one_more_member(
    entries: Seq<(Seq<char>, TomlView)>,
    added: (Seq<char>, TomlView),
    names: Seq<Seq<char>>,
)
    ensures
        is_record(TomlView::Table(entries), names) && names.contains(added.0) ==> is_record(
            TomlView::Table(entries.push(added)),
            names,
        ),
{
    let table = TomlView::Table(entries);
    let more = TomlView::Table(entries.push(added));
    if is_record(table, names) && names.contains(added.0) {
        assert forall|i: int| 0 <= i < more->Table_0.len() implies names.contains(
            (#[trigger] more->Table_0[i]).0,
        ) by {
            if i < entries.len() {
                assert(more->Table_0[i] == table->Table_0[i]);
            }
        }
    }
}

/// The settings are listed under different names.
proof fn lemma_setting_names()
    ensures
        popup_members().contains("settle_ms"@) && popup_members().contains("max_actions"@),
        popup_members().contains("icon_size"@) && popup_members().contains("offset_x"@),
        popup_members().contains("offset_y"@) && popup_members().contains("dismiss_ms"@),
        popup_members().contains("timeout_ms"@) && popup_members().contains("animate"@),
        selection_members().contains("min_length"@) && selection_members().contains("max_length"@),
        selection_members().contains("ignore_whitespace_only"@),
        applications_members().contains("exclude"@),
        "settle_ms"@ != "max_actions"@ && "settle_ms"@ != "icon_size"@ && "settle_ms"@
            != "offset_x"@ && "settle_ms"@ != "offset_y"@ && "settle_ms"@ != "dismiss_ms"@
            && "settle_ms"@ != "timeout_ms"@ && "settle_ms"@ != "animate"@,
        "max_actions"@ != "icon_size"@ && "max_actions"@ != "offset_x"@ && "max_actions"@
            != "offset_y"@ && "max_actions"@ != "dismiss_ms"@ && "max_actions"@ != "timeout_ms"@
            && "max_actions"@ != "animate"@,
        "icon_size"@ != "offset_x"@ && "icon_size"@ != "offset_y"@ && "icon_size"@
            != "dismiss_ms"@ && "icon_size"@ != "timeout_ms"@ && "icon_size"@ != "animate"@,
        "offset_x"@ != "offset_y"@ && "offset_x"@ != "dismiss_ms"@ && "offset_x"@ != "timeout_ms"@
            && "offset_x"@ != "animate"@,
        "offset_y"@ != "dismiss_ms"@ && "offset_y"@ != "timeout_ms"@ && "offset_y"@ != "animate"@,
        "dismiss_ms"@ != "timeout_ms"@ && "dismiss_ms"@ != "animate"@,
        "timeout_ms"@ != "animate"@,
        "min_length"@ != "max_length"@ && "min_length"@ != "ignore_whitespace_only"@
            && "max_length"@ != "ignore_whitespace_only"@,
{
    reveal_strlit("settle_ms");
    reveal_strlit("max_actions");
    reveal_strlit("icon_size");
    reveal_strlit("offset_x");
    reveal_strlit("offset_y");
    reveal_strlit("dismiss_ms");
    reveal_strlit("timeout_ms");
    reveal_strlit("animate");
    reveal_strlit("min_length");
    reveal_strlit("max_length");
    reveal_strlit("ignore_whitespace_only");
    let p = popup_members();
    assert(p[0] == "settle_ms"@ && p[1] == "max_actions"@ && p[2] == "icon_size"@);
    assert(p[3] == "offset_x"@ && p[4] == "offset_y"@ && p[5] == "dismiss_ms"@);
    assert(p[6] == "timeout_ms"@ && p[7] == "animate"@);
    let s = selection_members();
    assert(s[0] == "min_length"@ && s[1] == "max_length"@ && s[2] == "ignore_whitespace_only"@);
    assert(applications_members()[0] == "exclude"@);
    assert("settle_ms"@.len() == 9 && "max_actions"@.len() == 11 && "icon_size"@.len() == 9);
    assert("offset_x"@.len() == 8 && "offset_y"@.len() == 8 && "dismiss_ms"@.len() == 10);
    assert("timeout_ms"@.len() == 10 && "animate"@.len() == 7);
    assert("settle_ms"@[0] == 's' && "icon_size"@[0] == 'i');
    assert("offset_x"@[7] == 'x' && "offset_y"@[7] == 'y');
    assert("dismiss_ms"@[0] == 'd' && "timeout_ms"@[0] == 't');
    assert("min_length"@.len() == 10 && "max_length"@.len() == 10);
    assert("ignore_whitespace_only"@.len() == 22);
    assert("min_length"@[1] == 'i' && "max_length"@[1] == 'a');
}

/// Of a `[popup]` table without strangers, the first member of the wrong kind is
/// named.
pub proof fn law_the_first_misfit_of_the_popup_is_named(v: TomlView)
    requires
        is_record(v, popup_members()),
        record_misfit(v, popup_members(), "popup"@) is None,
        !popup_fits(v),
    ensures
        ({
            let large = 18446744073709551615int;
            let settle = number_fits(member(v, 0, "settle_ms"@), 0, large);
            let most = number_fits(member(v, 1, "max_actions"@), 0, usize::MAX as int);
            let icon = number_fits(member(v, 2, "icon_size"@), -2147483648, 2147483647);
            let across = number_fits(member(v, 3, "offset_x"@), -2147483648, 2147483647);
            let down = number_fits(member(v, 4, "offset_y"@), -2147483648, 2147483647);
            let dismiss = number_fits(member(v, 5, "dismiss_ms"@), 0, large);
            let timeout = number_fits(member(v, 6, "timeout_ms"@), 0, large);
            let told = popup_misfit(v);
            &&& !settle ==> told == MisfitView::Wrong("popup.settle_ms"@)
            &&& settle && !most ==> told == MisfitView::Wrong("popup.max_actions"@)
            &&& settle && most && !icon ==> told == MisfitView::Wrong("popup.icon_size"@)
            &&& settle && most && icon && !across ==> told == MisfitView::Wrong(
                "popup.offset_x"@,
            )
            &&& settle && most && icon && across && !down ==> told == MisfitView::Wrong(
                "popup.offset_y"@,
            )
            &&& settle && most && icon && across && down && !dismiss ==> told
                == MisfitView::Wrong("popup.dismiss_ms"@)
            &&& settle && most && icon && across && down && dismiss && !timeout ==> told
                == MisfitView::Wrong("popup.timeout_ms"@)
            &&& settle && most && icon && across && down && dismiss && timeout ==> told
                == MisfitView::Wrong("popup.animate"@)
        }),
{
}

/// The first table that does not fit is at fault, and within it a stranger, or
/// else the first member of the wrong kind.
pub proof fn law_the_first_misfit_of_the_settings_is_named(doc: TomlView)
    requires
        is_record(doc, config_members()),
        record_misfit(doc, config_members(), Seq::empty()) is None,
        !config_fits(doc),
    ensures
        ({
            let popup = member(doc, 0, "popup"@);
            let selection = member(doc, 1, "selection"@);
            let applications = member(doc, 2, "applications"@);
            let bad_popup = popup matches Some(v) && !popup_fits(v);
            let bad_selection = selection matches Some(v) && !selection_fits(v);
            let told = config_misfit(doc);
            &&& bad_popup ==> told == popup_misfit(popup->Some_0)
            &&& !bad_popup && bad_selection ==> {
                let v = selection->Some_0;
                let least = number_fits(member(v, 0, "min_length"@), 0, usize::MAX as int);
                let most = number_fits(member(v, 1, "max_length"@), 0, usize::MAX as int);
                match record_misfit(v, selection_members(), "selection"@) {
                    Some(misfit) => told == misfit,
                    None => {
                        &&& !least ==> told == MisfitView::Wrong("selection.min_length"@)
                        &&& least && !most ==> told == MisfitView::Wrong("selection.max_length"@)
                        &&& least && most ==> told == MisfitView::Wrong(
                            "selection.ignore_whitespace_only"@,
                        )
                    },
                }
            }
            &&& !bad_popup && !bad_selection ==> match record_misfit(
                applications->Some_0,
                applications_members(),
                "applications"@,
            ) {
                Some(misfit) => told == misfit,
                None => told == MisfitView::Wrong("applications.exclude"@),
            }
        }),
{
}

/// A refusal of the settings says what the parser said, or which member it is
/// and what is wrong with it.
pub proof fn law_refused_settings_say_why(error: ConfigError, path: String)
    ensures
        error matches ConfigError::Syntax(message) ==> config_error_text(error) == message@,
        config_error_text(ConfigError::Schema(Misfit::Unknown(path))) == "unknown member `"@
            + path@ + "`"@,
        config_error_text(ConfigError::Schema(Misfit::Missing(path))) == "missing member `"@
            + path@ + "`"@,
        config_error_text(ConfigError::Schema(Misfit::Wrong(path))) == "member `"@ + path@
            + "` holds something of the wrong kind"@,
{
}

/// Settings that are written as a list stand in a fixed order; what the list does
/// not reach is left at its default.
pub proof fn law_listed_settings_stand_in_order(items: Seq<TomlView>, popup: Popup)
    ensures
        ({
            let read = popup_from(TomlView::Array(items));
            let fits = popup_fits(TomlView::Array(items));
            let n = items.len();
            &&& n > 0 && items[0] == TomlView::Integer(popup.settle_ms as int) ==> read.settle_ms
                == popup.settle_ms
            &&& n > 1 && items[1] == TomlView::Integer(popup.max_actions as int)
                ==> read.max_actions == popup.max_actions
            &&& n > 2 && items[2] == TomlView::Integer(popup.icon_size as int) ==> read.icon_size
                == popup.icon_size
            &&& n > 3 && items[3] == TomlView::Integer(popup.offset_x as int) ==> read.offset_x
                == popup.offset_x
            &&& n > 4 && items[4] == TomlView::Integer(popup.offset_y as int) ==> read.offset_y
                == popup.offset_y
            &&& n > 5 && items[5] == TomlView::Integer(popup.dismiss_ms as int)
                ==> read.dismiss_ms == popup.dismiss_ms
            &&& n > 6 && items[6] == TomlView::Integer(popup.timeout_ms as int)
                ==> read.timeout_ms == popup.timeout_ms
            &&& n > 7 && items[7] == TomlView::Boolean(popup.animate) ==> read.animate
                == popup.animate
            &&& n == 0 ==> fits && read.settle_ms == 140 && read.animate
            &&& (exists|i: int| 0 <= i < n && i < 7 && !((#[trigger] items[i]) is Integer))
                ==> !fits
            &&& n > 7 && !(items[7] is Boolean) ==> !fits
        }),
{
}

/// The same of the other settings, and of the tables themselves.
pub proof fn law_listed_tables_stand_in_order(
    items: Seq<TomlView>,
    selection: Selection,
    words: Seq<TomlView>,
)
    ensures
        ({
            let list = TomlView::Array(items);
            let read = selection_from(list);
            let n = items.len();
            &&& n > 0 && items[0] == TomlView::Integer(selection.min_length as int)
                ==> read.min_length == selection.min_length
            &&& n > 1 && items[1] == TomlView::Integer(selection.max_length as int)
                ==> read.max_length == selection.max_length
            &&& n > 2 && items[2] == TomlView::Boolean(selection.ignore_whitespace_only)
                ==> read.ignore_whitespace_only == selection.ignore_whitespace_only
            &&& n > 0 && !(items[0] is Integer) ==> !selection_fits(list)
            &&& n > 1 && !(items[1] is Integer) ==> !selection_fits(list)
            &&& n > 2 && !(items[2] is Boolean) ==> !selection_fits(list)
            &&& n > 0 && items[0] == TomlView::Array(words) ==> applications_from(list)
                == crate::document::text_list(items[0]) && (applications_fit(list)
                <==> crate::document::is_text_list(items[0]))
            &&& n == 0 ==> applications_from(list).len() == 0 && applications_fit(list)
            &&& n > 0 ==> config_from(list).popup == popup_from(items[0])
            &&& n > 1 ==> config_from(list).selection == selection_from(items[1])
            &&& n > 2 ==> config_from(list).exclude == applications_from(items[2])
            &&& config_fits(list) <==> (n > 0 ==> popup_fits(items[0])) && (n > 1
                ==> selection_fits(items[1])) && (n > 2 ==> applications_fit(items[2]))
        }),
{
}

} // verus!
