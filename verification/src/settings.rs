//! The settings window: what it shows, what it changes, and how a change gets
//! into the files.
//!
//! Everything the window changes is written into the same files the user could
//! have edited by hand. There is no second configuration store to drift out of
//! sync.

use vstd::prelude::*;

use crate::config::{copy_texts, Config, Popup, Selection};
use crate::edit::{
    document_text, integer_at, open_document, put_nested, put_top, put_within, Document, EditError,
    Scalar,
};
use crate::text::owned;
#[allow(unused_imports)]
use crate::{
    config::ConfigView,
    document::toml_document,
    edit::{
        agreed, editable_document, entries_at, entry_at, keeps_comments, modest, nested,
        nested_within, notes_in, open_to, open_within, plain_place, reads_as, remarks_in,
        scalar_tree, Tree,
    },
};

verus! {

// ---------------------------------------------------------------------------
// Writing the settings
// ---------------------------------------------------------------------------

/// Entries with several changes, one after the other.
pub open spec fn changed(
    entries: Map<Seq<char>, Tree>,
    changes: Seq<(Seq<char>, Tree)>,
) -> Map<Seq<char>, Tree>
    decreases changes.len(),
{
    if changes.len() == 0 {
        entries
    } else {
        changed(entries, changes.drop_last()).insert(changes.last().0, changes.last().1)
    }
}

/// Entries with several changes to one table.
pub open spec fn table_changed(
    entries: Map<Seq<char>, Tree>,
    table: Seq<char>,
    changes: Seq<(Seq<char>, Tree)>,
) -> Map<Seq<char>, Tree> {
    entries.insert(table, Tree::Table(changed(entries_at(entry_at(entries, table)), changes)))
}

/// A number as it is written.
pub open spec fn written(n: i64) -> Tree {
    Tree::Integer(n as int)
}

/// The `[popup]` table as it is written.
pub open spec fn popup_changes(popup: Popup) -> Seq<(Seq<char>, Tree)> {
    seq![
        ("settle_ms"@, written(popup.settle_ms as i64)),
        ("max_actions"@, written(popup.max_actions as i64)),
        ("icon_size"@, written(popup.icon_size as i64)),
        ("offset_x"@, written(popup.offset_x as i64)),
        ("offset_y"@, written(popup.offset_y as i64)),
        ("dismiss_ms"@, written(popup.dismiss_ms as i64)),
        ("timeout_ms"@, written(popup.timeout_ms as i64)),
        ("animate"@, Tree::Boolean(popup.animate)),
    ]
}

/// The `[selection]` table as it is written.
pub open spec fn selection_changes(selection: Selection) -> Seq<(Seq<char>, Tree)> {
    seq![
        ("min_length"@, written(selection.min_length as i64)),
        ("max_length"@, written(selection.max_length as i64)),
        ("ignore_whitespace_only"@, Tree::Boolean(selection.ignore_whitespace_only)),
    ]
}

/// The `[applications]` table as it is written.
pub open spec fn applications_changes(exclude: Seq<Seq<char>>) -> Seq<(Seq<char>, Tree)> {
    seq![("exclude"@, Tree::Array(exclude.map_values(|t: Seq<char>| Tree::Text(t))))]
}

/// Entries of `config.toml` with the settings written into them.
pub open spec fn config_entries(entries: Map<Seq<char>, Tree>, config: ConfigView) -> Map<
    Seq<char>,
    Tree,
> {
    let first = table_changed(entries, "popup"@, popup_changes(config.popup));
    let second = table_changed(first, "selection"@, selection_changes(config.selection));
    table_changed(second, "applications"@, applications_changes(config.exclude))
}

/// Whether the settings can be written: nothing but a table stands where one of
/// theirs belongs.
pub open spec fn config_writable(entries: Map<Seq<char>, Tree>) -> bool {
    open_to(entries, "popup"@) && open_to(entries, "selection"@) && open_to(
        entries,
        "applications"@,
    )
}

/// A copy of a value.
pub fn copy_scalar(value: &Scalar) -> (r: Scalar)
    ensures
        scalar_tree(r) == scalar_tree(*value),
{
    match value {
        Scalar::Integer(n) => Scalar::Integer(*n),
        Scalar::Boolean(b) => Scalar::Boolean(*b),
        Scalar::Text(t) => Scalar::Text(t.clone()),
        Scalar::Texts(list) => Scalar::Texts(copy_texts(list)),
    }
}

/// Changes in specifications.
spec fn change_views(changes: Seq<(&'static str, Scalar)>) -> Seq<(Seq<char>, Tree)> {
    changes.map_values(|change: (&'static str, Scalar)| (change.0@, scalar_tree(change.1)))
}

/// Whether several changes to one table replace no table, so that no comment
/// goes with them.
pub open spec fn gentle(
    entries: Map<Seq<char>, Tree>,
    table: Seq<char>,
    changes: Seq<(Seq<char>, Tree)>,
) -> bool {
    forall|i: int|
        0 <= i < changes.len() ==> plain_place(
            entry_at(entries_at(entry_at(entries, table)), (#[trigger] changes[i]).0),
        )
}

/// The names that lead to the values that several changes to one table replace.
pub open spec fn places(table: Seq<char>, changes: Seq<(Seq<char>, Tree)>) -> Set<Seq<Seq<char>>>
    decreases changes.len(),
{
    if changes.len() == 0 {
        Set::empty()
    } else {
        places(table, changes.drop_last()).insert(seq![table, changes.last().0])
    }
}

/// Makes several changes to one table.
fn put_all(doc: Document, table: &str, changes: &Vec<(&'static str, Scalar)>) -> (r: (
    Document,
    bool,
))
    requires
        changes@.len() > 0,
    ensures
        r.1 == open_to(doc@.entries, table@),
        r.1 ==> r.0@.entries == table_changed(doc@.entries, table@, change_views(changes@)),
        r.1 && gentle(doc@.entries, table@, change_views(changes@)) ==> r.0@.notes == doc@.notes
            && r.0@.remarks == doc@.remarks.remove_keys(places(table@, change_views(changes@))),
{
    let ghost before = doc@.entries;
    let ghost notes = doc@.notes;
    let ghost remarks = doc@.remarks;
    let ghost base = entries_at(entry_at(before, table@));
    let ghost views = change_views(changes@);
    let mut edited = doc;
    proof {
        assert(views.take(0) =~= Seq::empty());
        assert(remarks.remove_keys(places(table@, views.take(0))) =~= remarks);
    }
    for i in 0..changes.len()
        invariant
            before == doc@.entries,
            notes == doc@.notes,
            remarks == doc@.remarks,
            base == entries_at(entry_at(before, table@)),
            views == change_views(changes@),
            i == 0 ==> edited@.entries == before,
            i > 0 ==> open_to(before, table@) && edited@.entries == before.insert(
                table@,
                Tree::Table(changed(base, views.take(i as int))),
            ),
            gentle(before, table@, views) ==> edited@.notes == notes && edited@.remarks
                == remarks.remove_keys(places(table@, views.take(i as int))) && gentle(
                edited@.entries,
                table@,
                views,
            ),
    {
        let ghost so_far = changed(base, views.take(i as int));
        let ghost current = edited@.entries;
        proof {
            assert(views.take(0) =~= Seq::empty());
            assert(views.take(i + 1).drop_last() =~= views.take(i as int));
            assert(views.take(i + 1).last() == (
                changes@[i as int].0@,
                scalar_tree(changes@[i as int].1),
            ));
            assert(views[i as int].0 == changes@[i as int].0@);
        }
        let (next, done) = put_nested(edited, table, changes[i].0, copy_scalar(&changes[i].1));
        edited = next;
        if !done {
            return (edited, false);
        }
        proof {
            let grown = so_far.insert(changes@[i as int].0@, scalar_tree(changes@[i as int].1));
            assert(edited@.entries =~= before.insert(table@, Tree::Table(grown)));
            if gentle(before, table@, views) {
                let done = places(table@, views.take(i as int));
                let place = seq![table@, views[i as int].0];
                assert(places(table@, views.take(i + 1)) == done.insert(place));
                assert(remarks.remove_keys(done).remove(place) =~= remarks.remove_keys(
                    done.insert(place),
                ));
                assert forall|k: int| 0 <= k < views.len() implies plain_place(
                    entry_at(entries_at(entry_at(edited@.entries, table@)), (#[trigger] views[k]).0),
                ) by {
                    let inside = entries_at(entry_at(current, table@));
                    assert(plain_place(entry_at(inside, views[k].0)));
                    lemma_scalar_is_flat(changes@[i as int].1);
                }
            }
        }
    }
    assert(views.take(views.len() as int) =~= views);
    (edited, true)
}

/// What is put into a document holds no table.
proof fn lemma_scalar_is_flat(value: Scalar)
    ensures
        plain_place(Some(scalar_tree(value))),
{
}

/// Whether writing the settings replaces no table, so that no comment goes with
/// it.
pub open spec fn config_gentle(entries: Map<Seq<char>, Tree>, config: ConfigView) -> bool {
    &&& gentle(entries, "popup"@, popup_changes(config.popup))
    &&& gentle(entries, "selection"@, selection_changes(config.selection))
    &&& gentle(entries, "applications"@, applications_changes(config.exclude))
}

/// The names that lead to the settings.
pub open spec fn config_places(config: ConfigView) -> Set<Seq<Seq<char>>> {
    places("popup"@, popup_changes(config.popup)).union(
        places("selection"@, selection_changes(config.selection)),
    ).union(places("applications"@, applications_changes(config.exclude)))
}

/// Writes the settings into a document. Where something other than a table
/// stands in place of one of theirs, that is refused.
pub fn apply_config(doc: Document, config: &Config) -> (r: (Document, bool))
    ensures
        r.1 == config_writable(doc@.entries),
        r.1 ==> r.0@.entries == config_entries(doc@.entries, config@),
        r.1 && config_gentle(doc@.entries, config@) ==> r.0@.notes == doc@.notes && r.0@.remarks
            == doc@.remarks.remove_keys(config_places(config@)),
{
    let popup = &config.popup;
    let popup_values: Vec<(&'static str, Scalar)> = vec![
        ("settle_ms", Scalar::Integer(popup.settle_ms as i64)),
        ("max_actions", Scalar::Integer(popup.max_actions as i64)),
        ("icon_size", Scalar::Integer(popup.icon_size as i64)),
        ("offset_x", Scalar::Integer(popup.offset_x as i64)),
        ("offset_y", Scalar::Integer(popup.offset_y as i64)),
        ("dismiss_ms", Scalar::Integer(popup.dismiss_ms as i64)),
        ("timeout_ms", Scalar::Integer(popup.timeout_ms as i64)),
        ("animate", Scalar::Boolean(popup.animate)),
    ];
    let selection = &config.selection;
    let selection_values: Vec<(&'static str, Scalar)> = vec![
        ("min_length", Scalar::Integer(selection.min_length as i64)),
        ("max_length", Scalar::Integer(selection.max_length as i64)),
        ("ignore_whitespace_only", Scalar::Boolean(selection.ignore_whitespace_only)),
    ];
    let exclude_values: Vec<(&'static str, Scalar)> = vec![
        ("exclude", Scalar::Texts(copy_texts(&config.applications.exclude))),
    ];
    proof {
        assert(change_views(popup_values@) =~= popup_changes(config@.popup));
        assert(change_views(selection_values@) =~= selection_changes(config@.selection));
        assert(change_views(exclude_values@) =~= applications_changes(config@.exclude));
        lemma_table_names();
    }
    let (first, done) = put_all(doc, "popup", &popup_values);
    if !done {
        return (first, false);
    }
    let (second, done) = put_all(first, "selection", &selection_values);
    if !done {
        return (second, false);
    }
    let r = put_all(second, "applications", &exclude_values);
    assert(doc@.remarks.remove_keys(places("popup"@, popup_changes(config@.popup))).remove_keys(
        places("selection"@, selection_changes(config@.selection)),
    ).remove_keys(places("applications"@, applications_changes(config@.exclude)))
        =~= doc@.remarks.remove_keys(config_places(config@)));
    r
}

/// The tables of `config.toml` have different names.
proof fn lemma_table_names()
    ensures
        "popup"@ != "selection"@,
        "popup"@ != "applications"@,
        "selection"@ != "applications"@,
{
    reveal_strlit("popup");
    reveal_strlit("selection");
    reveal_strlit("applications");
    assert("popup"@.len() == 5 && "selection"@.len() == 9 && "applications"@.len() == 12);
}

/// Writes the `[popup]`, `[selection]` and `[applications]` tables into the
/// text of `config.toml`, preserving whatever else it holds. Comments stay, but
/// for those behind the values that are replaced.
pub fn write_config(raw: &str, config: &Config) -> (r: Result<String, EditError>)
    ensures
        r is Ok ==> agreed(raw@),
        match editable_document(raw@) {
            Err(message) => r matches Err(EditError::Syntax(m)) && m@ == message,
            Ok(tree) => if config_writable(entries_at(Some(tree))) {
                r matches Ok(text) && reads_as(
                    text@,
                    Tree::Table(config_entries(entries_at(Some(tree)), config@)),
                ) && (config_gentle(entries_at(Some(tree)), config@) ==> keeps_comments(
                    raw@,
                    text@,
                    config_places(config@),
                ))
            } else {
                r matches Err(error) && error == EditError::NotATable
            },
        },
{
    let doc = match open_document(raw) {
        Ok(doc) => doc,
        Err(error) => return Err(error),
    };
    let (doc, done) = apply_config(doc, config);
    if done {
        Ok(document_text(&doc))
    } else {
        Err(EditError::NotATable)
    }
}

// ---------------------------------------------------------------------------
// Writing manifests
// ---------------------------------------------------------------------------

/// To replace one value is to lose the comment behind it.
proof fn lemma_one_replaced(remarks: Map<Seq<Seq<char>>, Seq<char>>, place: Seq<Seq<char>>)
    ensures
        remarks.remove_keys(set![place]) == remarks.remove(place),
{
    assert(remarks.remove_keys(set![place]) =~= remarks.remove(place));
}

/// Entries of a manifest with `enabled` set.
pub open spec fn toggled(entries: Map<Seq<char>, Tree>, enabled: bool) -> Map<Seq<char>, Tree> {
    entries.insert("enabled"@, Tree::Boolean(enabled))
}

/// What setting `enabled` in a manifest leads to.
pub open spec fn is_toggled(
    r: Result<String, EditError>,
    raw: Seq<char>,
    enabled: bool,
) -> bool {
    match editable_document(raw) {
        Err(message) => r matches Err(EditError::Syntax(m)) && m@ == message,
        Ok(tree) => r matches Ok(text) && reads_as(
            text@,
            Tree::Table(toggled(entries_at(Some(tree)), enabled)),
        ) && (plain_place(entry_at(entries_at(Some(tree)), "enabled"@)) ==> keeps_comments(
            raw,
            text@,
            set![seq!["enabled"@]],
        )),
    }
}

/// Sets `enabled` in the text of a manifest. Comments stay, but for one behind
/// the value that is replaced.
pub fn set_action_enabled(raw: &str, enabled: bool) -> (r: Result<String, EditError>)
    ensures
        r is Ok ==> agreed(raw@),
        (toml_document(raw@) matches Ok(value) && modest(value)) ==> r is Ok,
        is_toggled(r, raw@, enabled),
        match editable_document(raw@) {
            Err(message) => r matches Err(EditError::Syntax(m)) && m@ == message,
            Ok(tree) => r matches Ok(text) && reads_as(
                text@,
                Tree::Table(toggled(entries_at(Some(tree)), enabled)),
            ) && (plain_place(entry_at(entries_at(Some(tree)), "enabled"@)) ==> keeps_comments(
                raw@,
                text@,
                set![seq!["enabled"@]],
            )),
        },
{
    let doc = match open_document(raw) {
        Ok(doc) => doc,
        Err(error) => return Err(error),
    };
    proof {
        lemma_one_replaced(doc@.remarks, seq!["enabled"@]);
    }
    let doc = put_top(doc, "enabled", Scalar::Boolean(enabled));
    Ok(document_text(&doc))
}

/// Entries of a manifest with the value of an option chosen.
pub open spec fn chosen_entries(
    entries: Map<Seq<char>, Tree>,
    name: Seq<char>,
    chosen: Seq<char>,
) -> Map<Seq<char>, Tree> {
    nested_within(entries, "options"@, name, "value"@, Tree::Text(chosen))
}

/// What stands at the `value` of an option.
pub open spec fn value_place(entries: Map<Seq<char>, Tree>, name: Seq<char>) -> Option<Tree> {
    entry_at(
        entries_at(entry_at(entries_at(entry_at(entries, "options"@)), name)),
        "value"@,
    )
}

/// What choosing the value of an option of a manifest leads to.
pub open spec fn is_chosen(
    r: Result<String, EditError>,
    raw: Seq<char>,
    name: Seq<char>,
    chosen: Seq<char>,
) -> bool {
    match editable_document(raw) {
        Err(message) => r matches Err(EditError::Syntax(m)) && m@ == message,
        Ok(tree) => if open_within(entries_at(Some(tree)), "options"@, name) {
            r matches Ok(text) && reads_as(
                text@,
                Tree::Table(chosen_entries(entries_at(Some(tree)), name, chosen)),
            ) && (plain_place(value_place(entries_at(Some(tree)), name)) ==> keeps_comments(
                raw,
                text@,
                set![seq!["options"@, name, "value"@]],
            ))
        } else {
            r matches Err(error) && error == EditError::NotATable
        },
    }
}

/// Writes `chosen` as an option's `value` into the text of a manifest. Comments
/// stay, but for one behind the value that is replaced.
pub fn set_action_option(raw: &str, name: &str, chosen: &str) -> (r: Result<String, EditError>)
    ensures
        r is Ok ==> agreed(raw@),
        is_chosen(r, raw@, name@, chosen@),
        match editable_document(raw@) {
            Err(message) => r matches Err(EditError::Syntax(m)) && m@ == message,
            Ok(tree) => if open_within(entries_at(Some(tree)), "options"@, name@) {
                r matches Ok(text) && reads_as(
                    text@,
                    Tree::Table(chosen_entries(entries_at(Some(tree)), name@, chosen@)),
                ) && (plain_place(value_place(entries_at(Some(tree)), name@)) ==> keeps_comments(
                    raw@,
                    text@,
                    set![seq!["options"@, name@, "value"@]],
                ))
            } else {
                r matches Err(error) && error == EditError::NotATable
            },
        },
{
    let doc = match open_document(raw) {
        Ok(doc) => doc,
        Err(error) => return Err(error),
    };
    proof {
        lemma_one_replaced(doc@.remarks, seq!["options"@, name@, "value"@]);
    }
    let (doc, done) = put_within(doc, "options", name, "value", Scalar::Text(owned(chosen)));
    if done {
        Ok(document_text(&doc))
    } else {
        Err(EditError::NotATable)
    }
}

/// The `order` of the action at a position of the list. Positions are spaced by
/// ten, so a hand-written manifest can still slot between two.
pub open spec fn order_at(position: int) -> int {
    (position + 1) * 10
}

/// Entries of a manifest with `order` set.
pub open spec fn ordered(entries: Map<Seq<char>, Tree>, order: int) -> Map<Seq<char>, Tree> {
    entries.insert("order"@, Tree::Integer(order))
}

/// What renumbering a manifest leads to: nothing if it has the right `order`
/// already, else the changed text, in which comments stay, but for one behind
/// the value that is replaced.
pub open spec fn is_renumbered(
    r: Result<Option<String>, EditError>,
    raw: Seq<char>,
    position: int,
) -> bool {
    match editable_document(raw) {
        Err(message) => r matches Err(EditError::Syntax(m)) && m@ == message,
        Ok(tree) => {
            let entries = entries_at(Some(tree));
            if entry_at(entries, "order"@) == Some(Tree::Integer(order_at(position))) {
                r matches Ok(None)
            } else {
                r matches Ok(Some(text)) && reads_as(
                    text@,
                    Tree::Table(ordered(entries, order_at(position))),
                ) && (plain_place(entry_at(entries, "order"@)) ==> keeps_comments(
                    raw,
                    text@,
                    set![seq!["order"@]],
                ))
            }
        },
    }
}

/// Gives the manifest at a position of the list the `order` it needs.
pub fn renumber_action(raw: &str, position: usize) -> (r: Result<Option<String>, EditError>)
    requires
        order_at(position as int) <= i64::MAX,
        order_at(position as int) <= usize::MAX,
    ensures
        r is Ok ==> agreed(raw@),
        is_renumbered(r, raw@, position as int),
{
    let order: i64 = ((position + 1) * 10) as i64;
    let doc = match open_document(raw) {
        Ok(doc) => doc,
        Err(error) => return Err(error),
    };
    let current = integer_at(&doc, "order");
    if let Some(current) = current {
        if current == order {
            return Ok(None);
        }
    }
    proof {
        lemma_one_replaced(doc@.remarks, seq!["order"@]);
    }
    let doc = put_top(doc, "order", Scalar::Integer(order));
    Ok(Some(document_text(&doc)))
}

/// Rewrites every manifest's `order` to match its position in the list, up to
/// the first one that cannot be changed. A manifest that needs no change is
/// left alone.
pub fn renumber_actions(raws: &Vec<String>) -> (r: (Vec<Option<String>>, Option<EditError>))
    requires
        order_at(raws@.len() as int) <= i64::MAX,
        order_at(raws@.len() as int) <= usize::MAX,
    ensures
        r.0@.len() <= raws@.len(),
        forall|i: int|
            0 <= i < r.0@.len() ==> is_renumbered(
                Ok::<Option<String>, EditError>(#[trigger] r.0@[i]),
                raws@[i]@,
                i,
            ),
        match r.1 {
            None => r.0@.len() == raws@.len(),
            Some(error) => r.0@.len() < raws@.len() && is_renumbered(
                Err::<Option<String>, EditError>(error),
                raws@[r.0@.len() as int]@,
                r.0@.len() as int,
            ),
        },
{
    let mut out: Vec<Option<String>> = Vec::new();
    for i in 0..raws.len()
        invariant
            order_at(raws@.len() as int) <= i64::MAX,
            order_at(raws@.len() as int) <= usize::MAX,
            out@.len() == i,
            forall|k: int|
                0 <= k < i ==> is_renumbered(
                    Ok::<Option<String>, EditError>(#[trigger] out@[k]),
                    raws@[k]@,
                    k,
                ),
    {
        match renumber_action(raws[i].as_str(), i) {
            Ok(text) => {
                out.push(text);
            },
            Err(error) => {
                return (out, Some(error));
            },
        }
    }
    (out, None)
}

// ---------------------------------------------------------------------------
// What writing promises
// ---------------------------------------------------------------------------

/// Several changes leave every other entry alone.
proof fn lemma_changes_leave_others(
    entries: Map<Seq<char>, Tree>,
    changes: Seq<(Seq<char>, Tree)>,
    name: Seq<char>,
)
    requires
        forall|i: int| 0 <= i < changes.len() ==> (#[trigger] changes[i]).0 != name,
    ensures
        entry_at(changed(entries, changes), name) == entry_at(entries, name),
    decreases changes.len(),
{
    if changes.len() > 0 {
        let fewer = changes.drop_last();
        assert(changes[changes.len() - 1].0 != name);
        assert forall|i: int| 0 <= i < fewer.len() implies (#[trigger] fewer[i]).0 != name by {
            assert(fewer[i] == changes[i]);
        }
        lemma_changes_leave_others(entries, fewer, name);
    }
}

/// Writing the settings leaves everything else in the file alone: every other
/// table, and in the tables of the settings every entry that is none.
pub proof fn law_writing_the_settings_leaves_the_rest(
    entries: Map<Seq<char>, Tree>,
    config: ConfigView,
    name: Seq<char>,
)
    ensures
        ({
            let after = config_entries(entries, config);
            let inside = |all: Map<Seq<char>, Tree>, table: Seq<char>| entry_at(
                entries_at(entry_at(all, table)),
                name,
            );
            &&& name != "popup"@ && name != "selection"@ && name != "applications"@ ==> entry_at(
                after,
                name,
            ) == entry_at(entries, name)
            &&& name != "settle_ms"@ && name != "max_actions"@ && name != "icon_size"@ && name
                != "offset_x"@ && name != "offset_y"@ && name != "dismiss_ms"@ && name
                != "timeout_ms"@ && name != "animate"@ ==> inside(after, "popup"@) == inside(
                entries,
                "popup"@,
            )
            &&& name != "min_length"@ && name != "max_length"@ && name != "ignore_whitespace_only"@
                ==> inside(after, "selection"@) == inside(entries, "selection"@)
            &&& name != "exclude"@ ==> inside(after, "applications"@) == inside(
                entries,
                "applications"@,
            )
        }),
{
    lemma_table_names();
    let popup = popup_changes(config.popup);
    let selection = selection_changes(config.selection);
    let applications = applications_changes(config.exclude);
    if name != "settle_ms"@ && name != "max_actions"@ && name != "icon_size"@ && name
        != "offset_x"@ && name != "offset_y"@ && name != "dismiss_ms"@ && name != "timeout_ms"@
        && name != "animate"@ {
        lemma_changes_leave_others(entries_at(entry_at(entries, "popup"@)), popup, name);
    }
    if name != "min_length"@ && name != "max_length"@ && name != "ignore_whitespace_only"@ {
        lemma_changes_leave_others(entries_at(entry_at(entries, "selection"@)), selection, name);
    }
    if name != "exclude"@ {
        lemma_changes_leave_others(
            entries_at(entry_at(entries, "applications"@)),
            applications,
            name,
        );
    }
}

/// Setting `enabled`, `order` or the value of an option leaves every other entry
/// of a manifest alone.
pub proof fn law_a_change_leaves_the_rest_of_a_manifest(
    entries: Map<Seq<char>, Tree>,
    enabled: bool,
    order: int,
    option: Seq<char>,
    chosen: Seq<char>,
    name: Seq<char>,
)
    ensures
        entry_at(toggled(entries, enabled), "enabled"@) == Some(Tree::Boolean(enabled)),
        name != "enabled"@ ==> entry_at(toggled(entries, enabled), name) == entry_at(entries, name),
        entry_at(ordered(entries, order), "order"@) == Some(Tree::Integer(order)),
        name != "order"@ ==> entry_at(ordered(entries, order), name) == entry_at(entries, name),
        ({
            let after = chosen_entries(entries, option, chosen);
            let options = entries_at(entry_at(after, "options"@));
            let before = entries_at(entry_at(entries, "options"@));
            &&& name != "options"@ ==> entry_at(after, name) == entry_at(entries, name)
            &&& name != option ==> entry_at(options, name) == entry_at(before, name)
            &&& entry_at(entries_at(entry_at(options, option)), "value"@) == Some(
                Tree::Text(chosen),
            )
            &&& name != "value"@ ==> entry_at(entries_at(entry_at(options, option)), name)
                == entry_at(entries_at(entry_at(before, option)), name)
        }),
{
}

/// Positions are numbered in steps of ten, from ten on. A manifest that has its
/// number already is left alone; any other gets it.
pub proof fn law_positions_are_numbered_in_tens(
    r: Result<Option<String>, EditError>,
    raw: Seq<char>,
    position: int,
    tree: Tree,
)
    requires
        editable_document(raw) == Ok::<Tree, Seq<char>>(tree),
        is_renumbered(r, raw, position),
    ensures
        order_at(position) == 10 * position + 10,
        ({
            let number = Some(Tree::Integer(10 * position + 10));
            let before = entry_at(entries_at(Some(tree)), "order"@);
            &&& before == number ==> r == Ok::<Option<String>, EditError>(None)
            &&& before != number ==> (r matches Ok(Some(text)) && reads_as(
                text@,
                Tree::Table(entries_at(Some(tree)).insert("order"@, number->Some_0)),
            ))
        }),
{
}

/// Saving is refused exactly where something other than a table stands in the way
/// of one.
pub proof fn law_only_tables_can_be_written_into(entries: Map<Seq<char>, Tree>)
    ensures
        config_writable(entries) <==> {
            &&& entry_at(entries, "popup"@) matches Some(tree) ==> tree is Table
            &&& entry_at(entries, "selection"@) matches Some(tree) ==> tree is Table
            &&& entry_at(entries, "applications"@) matches Some(tree) ==> tree is Table
        },
{
}

proof fn lemma_places(table: Seq<char>, changes: Seq<(Seq<char>, Tree)>, place: Seq<Seq<char>>)
    ensures
        places(table, changes).contains(place) <==> exists|i: int|
            0 <= i < changes.len() && place == seq![table, (#[trigger] changes[i]).0],
    decreases changes.len(),
{
    if changes.len() > 0 {
        let fewer = changes.drop_last();
        lemma_places(table, fewer, place);
        if places(table, fewer).contains(place) {
            let i = choose|i: int|
                0 <= i < fewer.len() && place == seq![table, (#[trigger] fewer[i]).0];
            assert(changes[i] == fewer[i]);
        }
        if exists|i: int| 0 <= i < changes.len() && place == seq![table, (#[trigger] changes[i]).0]
        {
            let i = choose|i: int|
                0 <= i < changes.len() && place == seq![table, (#[trigger] changes[i]).0];
            if i < fewer.len() {
                assert(fewer[i] == changes[i]);
            }
        }
    }
}

/// Writing the settings replaces values in their own tables alone: a comment
/// anywhere else stays where it is.
pub proof fn law_only_settings_lose_the_comment_behind_them(
    config: ConfigView,
    place: Seq<Seq<char>>,
)
    requires
        config_places(config).contains(place),
    ensures
        place.len() == 2,
        place[0] == "popup"@ || place[0] == "selection"@ || place[0] == "applications"@,
        place[0] == "applications"@ ==> place[1] == "exclude"@,
        place[0] == "selection"@ ==> place[1] == "min_length"@ || place[1] == "max_length"@
            || place[1] == "ignore_whitespace_only"@,
        place[0] == "popup"@ ==> place[1] == "settle_ms"@ || place[1] == "max_actions"@ || place[1]
            == "icon_size"@ || place[1] == "offset_x"@ || place[1] == "offset_y"@ || place[1]
            == "dismiss_ms"@ || place[1] == "timeout_ms"@ || place[1] == "animate"@,
{
    reveal_strlit("popup");
    reveal_strlit("selection");
    reveal_strlit("applications");
    assert("popup"@.len() == 5 && "selection"@.len() == 9 && "applications"@.len() == 12);
    lemma_places("popup"@, popup_changes(config.popup), place);
    lemma_places("selection"@, selection_changes(config.selection), place);
    lemma_places("applications"@, applications_changes(config.exclude), place);
}

/// Where no table stands in the place of a setting, writing the settings keeps
/// the comments.
pub proof fn law_settings_are_written_gently(entries: Map<Seq<char>, Tree>, config: ConfigView)
    requires
        forall|name: Seq<char>|
            plain_place(#[trigger] entry_at(entries_at(entry_at(entries, "popup"@)), name)),
        forall|name: Seq<char>|
            plain_place(#[trigger] entry_at(entries_at(entry_at(entries, "selection"@)), name)),
        forall|name: Seq<char>|
            plain_place(#[trigger] entry_at(entries_at(entry_at(entries, "applications"@)), name)),
    ensures
        config_gentle(entries, config),
{
}

/// What stands at the value of an option is what stands under `value` in the
/// table of that name in the table `options`.
pub proof fn law_the_value_of_an_option_stands_in_its_table(
    entries: Map<Seq<char>, Tree>,
    options: Map<Seq<char>, Tree>,
    option: Map<Seq<char>, Tree>,
    name: Seq<char>,
)
    requires
        entries.contains_key("options"@) && entries["options"@] == Tree::Table(options),
        options.contains_key(name) && options[name] == Tree::Table(option),
    ensures
        option.contains_key("value"@) ==> value_place(entries, name) == Some(option["value"@]),
        !option.contains_key("value"@) ==> value_place(entries, name) is None,
{
}

/// Whether the comments of one text all stand in another, but for the one behind
/// the value at a place.
pub open spec fn comments_stay_but_at(
    before: Seq<char>,
    after: Seq<char>,
    place: Seq<Seq<char>>,
) -> bool {
    &&& notes_in(after) == notes_in(before)
    &&& forall|other: Seq<Seq<char>>|
        other != place ==> (#[trigger] remarks_in(after).contains_key(other) <==> remarks_in(
            before,
        ).contains_key(other))
    &&& forall|other: Seq<Seq<char>>|
        other != place && #[trigger] remarks_in(before).contains_key(other) ==> remarks_in(
            after,
        )[other] == remarks_in(before)[other]
}

/// Switching, choosing and renumbering change that one value of a manifest, and
/// keep every comment but the one behind it. Only where the value of an option has
/// something other than a table in its way is a change refused.
pub proof fn law_a_change_to_a_manifest_is_gentle(
    raw: Seq<char>,
    entries: Map<Seq<char>, Tree>,
    r: Result<String, EditError>,
    n: Result<Option<String>, EditError>,
    enabled: bool,
    name: Seq<char>,
    chosen: Seq<char>,
    position: int,
)
    requires
        editable_document(raw) == Ok::<Tree, Seq<char>>(Tree::Table(entries)),
    ensures
        is_toggled(r, raw, enabled) ==> (r matches Ok(text) && reads_as(
            text@,
            Tree::Table(entries.insert("enabled"@, Tree::Boolean(enabled))),
        ) && ((entries.contains_key("enabled"@) ==> entries["enabled"@] is Boolean)
            ==> comments_stay_but_at(raw, text@, seq!["enabled"@]))),
        is_chosen(r, raw, name, chosen) ==> ({
            let within = entries_at(entry_at(entries, "options"@));
            let inside = entries_at(entry_at(within, name));
            let in_the_way = (entries.contains_key("options"@) && !(entries["options"@] is Table))
                || (within.contains_key(name) && !(within[name] is Table));
            &&& in_the_way ==> r == Err::<String, EditError>(EditError::NotATable)
            &&& !in_the_way ==> (r matches Ok(text) && reads_as(
                text@,
                Tree::Table(
                    entries.insert(
                        "options"@,
                        Tree::Table(
                            within.insert(
                                name,
                                Tree::Table(inside.insert("value"@, Tree::Text(chosen))),
                            ),
                        ),
                    ),
                ),
            ) && ((inside.contains_key("value"@) ==> inside["value"@] is Text)
                ==> comments_stay_but_at(raw, text@, seq!["options"@, name, "value"@])))
        }),
        is_renumbered(n, raw, position) && (entries.contains_key("order"@)
            ==> entries["order"@] is Integer) ==> (n matches Ok(Some(text))
            ==> comments_stay_but_at(raw, text@, seq!["order"@])),
{
}

/// What is not TOML is not changed: the message of the parser is handed on.
pub proof fn law_what_is_not_toml_is_not_changed(
    raw: Seq<char>,
    message: Seq<char>,
    r: Result<String, EditError>,
    n: Result<Option<String>, EditError>,
    enabled: bool,
    name: Seq<char>,
    chosen: Seq<char>,
    position: int,
)
    requires
        editable_document(raw) == Err::<Tree, Seq<char>>(message),
    ensures
        is_toggled(r, raw, enabled) ==> (r matches Err(EditError::Syntax(m)) && m@ == message),
        is_chosen(r, raw, name, chosen) ==> (r matches Err(EditError::Syntax(m)) && m@ == message),
        is_renumbered(n, raw, position) ==> (n matches Err(EditError::Syntax(m)) && m@
            == message),
{
}

} // verus!
