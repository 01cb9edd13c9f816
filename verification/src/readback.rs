//! What a changed file reads as.
//!
//! A change to a document is stated over its values without the order of its
//! tables. This module shows that what is read out of a document depends on
//! those alone, and from that what each change of the settings window does to
//! the settings and actions that are loaded afterwards.

use vstd::prelude::*;

#[allow(unused_imports)]
use crate::{
    config::{
        ConfigView, applications_fit, applications_from, applications_members, config_fits,
        config_from, config_members, popup_fits, popup_from, popup_members, selection_fits,
        selection_from, selection_members,
    },
    document::{
        TomlView, choice_of, entry_from, flag_fits, flag_or, is_hollow, is_record, is_text_list,
        member, number_fits, number_or, text_fits, text_list, text_of, text_or_empty, texts_fit,
        texts_or_none, tidy, toml_document,
    },
    edit::{
        Tree, entries_at, entry_at, flat, flat_entries, lemma_flat_entries, modest, nested,
        open_within, reads_as,
    },
    manifest::{
        OptionView, SpecView, action_fits, action_from, action_members, after_value, builtin_value,
        detect_list, detect_value, is_detect_list, is_option_table, lemma_option_table_ascends,
        lemma_option_table_lookup, lemma_option_tables_equal, option_fits, option_from,
        option_members, option_named, option_table,
    },
    settings::{
        applications_changes, changed, chosen_entries, config_entries, config_writable, order_at,
        ordered, popup_changes, selection_changes, toggled,
    },
};

verus! {

/// An optional value without the order of its tables.
pub open spec fn flat_maybe(m: Option<TomlView>) -> Option<Tree> {
    match m {
        Some(value) => Some(flat(value)),
        None => None,
    }
}

/// The entries of a value that is a table.
pub open spec fn flat_table(value: TomlView) -> Map<Seq<char>, Tree> {
    entries_at(Some(flat(value)))
}

/// A member of a table is the same with and without the order.
pub proof fn lemma_member(value: TomlView, position: int, name: Seq<char>)
    requires
        value is Table,
    ensures
        flat_maybe(member(value, position, name)) == entry_at(flat_table(value), name),
{
    lemma_flat_entries(value->Table_0, name, 0);
}

/// The names of a table are those of its entries.
proof fn lemma_names(entries: Seq<(Seq<char>, TomlView)>, name: Seq<char>, from: int)
    requires
        0 <= from <= entries.len(),
    ensures
        flat_entries(entries, from).contains_key(name) <==> exists|i: int|
            from <= i < entries.len() && (#[trigger] entries[i]).0 == name,
    decreases entries.len() - from,
{
    if from < entries.len() {
        lemma_names(entries, name, from + 1);
        if flat_entries(entries, from).contains_key(name) && entries[from].0 != name {
            let i = choose|i: int|
                from + 1 <= i < entries.len() && (#[trigger] entries[i]).0 == name;
            assert(entries[i].0 == name);
        }
        if exists|i: int| from <= i < entries.len() && (#[trigger] entries[i]).0 == name {
            let i = choose|i: int| from <= i < entries.len() && (#[trigger] entries[i]).0 == name;
            if i > from {
                assert(entries[i].0 == name);
            }
        }
    }
}

/// A table reads as a record exactly if all its names are known.
pub proof fn lemma_record(value: TomlView, names: Seq<Seq<char>>)
    requires
        value is Table,
    ensures
        is_record(value, names) <==> forall|name: Seq<char>|
            #[trigger] flat_table(value).contains_key(name) ==> names.contains(name),
{
    let entries = value->Table_0;
    assert forall|name: Seq<char>|
        is_record(value, names) && #[trigger] flat_table(value).contains_key(
            name,
        ) implies names.contains(name) by {
        lemma_names(entries, name, 0);
        let i = choose|i: int| 0 <= i < entries.len() && (#[trigger] entries[i]).0 == name;
        assert(names.contains(entries[i].0));
    }
    if forall|name: Seq<char>|
        #[trigger] flat_table(value).contains_key(name) ==> names.contains(name) {
        assert forall|i: int| 0 <= i < entries.len() implies names.contains(
            (#[trigger] entries[i]).0,
        ) by {
            lemma_names(entries, entries[i].0, 0);
            assert(flat_table(value).contains_key(entries[i].0));
        }
    }
}

/// Arrays with the same items hold the same items.
proof fn lemma_items(a: Seq<TomlView>, b: Seq<TomlView>)
    requires
        flat(TomlView::Array(a)) == flat(TomlView::Array(b)),
    ensures
        a.len() == b.len(),
        forall|i: int| 0 <= i < a.len() ==> flat(#[trigger] a[i]) == flat(b[i]),
{
    let x = flat(TomlView::Array(a))->Array_0;
    let y = flat(TomlView::Array(b))->Array_0;
    assert(x.len() == a.len() && y.len() == b.len());
    assert forall|i: int| 0 <= i < a.len() implies flat(#[trigger] a[i]) == flat(b[i]) by {
        assert(x[i] == flat(a[i]));
        assert(y[i] == flat(b[i]));
    }
}

/// Scalars are the same if they are the same without order.
proof fn lemma_scalars(a: Option<TomlView>, b: Option<TomlView>)
    requires
        flat_maybe(a) == flat_maybe(b),
    ensures
        text_fits(a) == text_fits(b),
        text_of(a) == text_of(b),
        text_or_empty(a) == text_or_empty(b),
        flag_fits(a) == flag_fits(b),
        forall|default: bool| flag_or(a, default) == #[trigger] flag_or(b, default),
        forall|low: int, high: int|
            number_fits(a, low, high) == #[trigger] number_fits(b, low, high),
        forall|default: int| number_or(a, default) == #[trigger] number_or(b, default),
{
}

/// Lists of texts are the same if they are the same without order.
proof fn lemma_text_lists(a: TomlView, b: TomlView)
    requires
        flat(a) == flat(b),
    ensures
        is_text_list(a) == is_text_list(b),
        is_text_list(a) ==> text_list(a) == text_list(b),
{
    if a is Array && b is Array {
        let x = a->Array_0;
        let y = b->Array_0;
        lemma_items(x, y);
        assert forall|i: int| 0 <= i < x.len() implies (#[trigger] x[i] is Text <==> y[i] is Text)
            && (x[i] is Text ==> x[i] == y[i]) by {
            assert(flat(x[i]) == flat(y[i]));
        }
        if is_text_list(a) {
            assert forall|i: int| 0 <= i < y.len() implies (#[trigger] y[i]) is Text by {
                assert(x[i] is Text);
            }
            assert(text_list(a) =~= text_list(b));
        }
        if is_text_list(b) {
            assert forall|i: int| 0 <= i < x.len() implies (#[trigger] x[i]) is Text by {
                assert(y[i] is Text);
            }
        }
    }
}

/// The same for members that are lists of texts.
proof fn lemma_text_members(a: Option<TomlView>, b: Option<TomlView>)
    requires
        flat_maybe(a) == flat_maybe(b),
    ensures
        texts_fit(a) == texts_fit(b),
        texts_fit(a) ==> texts_or_none(a) == texts_or_none(b),
{
    if let (Some(x), Some(y)) = (a, b) {
        lemma_text_lists(x, y);
    }
}

/// An empty value is one with and without order.
proof fn lemma_hollow(a: TomlView, b: TomlView)
    requires
        flat(a) == flat(b),
    ensures
        is_hollow(a) == is_hollow(b),
{
    if a is Array && b is Array {
        lemma_items(a->Array_0, b->Array_0);
    } else if a is Table && b is Table {
        let x = a->Table_0;
        let y = b->Table_0;
        if x.len() > 0 {
            lemma_names(x, x[0].0, 0);
            lemma_names(y, x[0].0, 0);
        }
        if y.len() > 0 {
            lemma_names(y, y[0].0, 0);
            lemma_names(x, y[0].0, 0);
        }
    }
}

/// A choice is the same with and without order.
proof fn lemma_choice(a: TomlView, b: TomlView)
    requires
        flat(a) == flat(b),
        tidy(a),
        tidy(b),
    ensures
        choice_of(a) == choice_of(b),
{
    if a is Table && b is Table {
        lemma_one_sided_choice(a->Table_0, b->Table_0);
        lemma_one_sided_choice(b->Table_0, a->Table_0);
    }
}

/// If one of two equal tables is a choice, the other is the same.
proof fn lemma_one_sided_choice(
    x: Seq<(Seq<char>, TomlView)>,
    y: Seq<(Seq<char>, TomlView)>,
)
    requires
        flat_entries(x, 0) == flat_entries(y, 0),
        tidy(TomlView::Table(y)),
    ensures
        x.len() == 1 && is_hollow(x[0].1) ==> y.len() == 1 && is_hollow(y[0].1) && y[0].0
            == x[0].0,
{
    if x.len() == 1 && is_hollow(x[0].1) {
        let name = x[0].0;
        assert(x[0].0 == name);
        lemma_names(x, name, 0);
        lemma_names(y, name, 0);
        let j = choose|j: int| 0 <= j < y.len() && (#[trigger] y[j]).0 == name;
        assert(y.len() > 0);
        assert forall|i: int| 0 <= i < y.len() implies (#[trigger] y[i]).0 == name by {
            lemma_names(y, y[i].0, 0);
            lemma_names(x, y[i].0, 0);
            let k = choose|k: int| 0 <= k < x.len() && (#[trigger] x[k]).0 == y[i].0;
            assert(x[k].0 == name);
        }
        if y.len() > 1 {
            let whole = TomlView::Table(y);
            assert(whole->Table_0 == y);
            assert(whole->Table_0[0].0 != whole->Table_0[1].0);
        }
        lemma_flat_entries(x, name, 0);
        lemma_flat_entries(y, name, 0);
        assert(entry_from(x, name, 0) == Some(x[0].1));
        assert(entry_from(y, name, 0) == Some(y[0].1));
        lemma_hollow(x[0].1, y[0].1);
    }
}

/// Lists of kinds are the same if they are the same without order.
proof fn lemma_detect_lists(a: TomlView, b: TomlView)
    requires
        flat(a) == flat(b),
        tidy(a),
        tidy(b),
    ensures
        is_detect_list(a) == is_detect_list(b),
        is_detect_list(a) ==> detect_list(a) == detect_list(b),
{
    if a is Array && b is Array {
        let x = a->Array_0;
        let y = b->Array_0;
        lemma_items(x, y);
        assert forall|i: int| 0 <= i < x.len() implies detect_value(#[trigger] x[i])
            == detect_value(y[i]) by {
            lemma_choice(x[i], y[i]);
        }
        if is_detect_list(a) {
            assert forall|i: int| 0 <= i < y.len() implies detect_value(#[trigger] y[i]) is Some by {
                assert(detect_value(x[i]) is Some);
            }
            assert(detect_list(a) =~= detect_list(b));
        }
        if is_detect_list(b) {
            assert forall|i: int| 0 <= i < x.len() implies detect_value(#[trigger] x[i]) is Some by {
                assert(detect_value(y[i]) is Some);
            }
        }
    }
}

/// A member of a record is the same with and without order.
proof fn lemma_same_member(a: TomlView, b: TomlView, position: int, name: Seq<char>)
    requires
        flat(a) == flat(b),
    ensures
        flat_maybe(member(a, position, name)) == flat_maybe(member(b, position, name)),
{
    if a is Table && b is Table {
        lemma_member(a, position, name);
        lemma_member(b, position, name);
    } else if a is Array && b is Array {
        lemma_items(a->Array_0, b->Array_0);
    }
}

/// Whether a value reads as a record is the same with and without order.
proof fn lemma_same_record(a: TomlView, b: TomlView, names: Seq<Seq<char>>)
    requires
        flat(a) == flat(b),
    ensures
        is_record(a, names) == is_record(b, names),
{
    if a is Table && b is Table {
        lemma_record(a, names);
        lemma_record(b, names);
        let x = flat_table(a);
        let y = flat_table(b);
        assert(x == y);
        if is_record(a, names) {
            assert forall|name: Seq<char>| #[trigger] y.contains_key(name) implies names.contains(
                name,
            ) by {
                assert(x.contains_key(name));
            }
        }
        if is_record(b, names) {
            assert forall|name: Seq<char>| #[trigger] x.contains_key(name) implies names.contains(
                name,
            ) by {
                assert(y.contains_key(name));
            }
        }
    }
}

/// An option is the same with and without order.
proof fn lemma_same_option(a: TomlView, b: TomlView)
    requires
        flat(a) == flat(b),
    ensures
        option_fits(a) == option_fits(b),
        option_fits(a) ==> option_from(a) == option_from(b),
{
    lemma_same_member(a, b, 0, "label"@);
    lemma_same_member(a, b, 1, "default"@);
    lemma_same_member(a, b, 2, "choices"@);
    lemma_same_member(a, b, 3, "value"@);
    lemma_scalars(member(a, 0, "label"@), member(b, 0, "label"@));
    lemma_scalars(member(a, 1, "default"@), member(b, 1, "default"@));
    lemma_text_members(member(a, 2, "choices"@), member(b, 2, "choices"@));
    lemma_scalars(member(a, 3, "value"@), member(b, 3, "value"@));
    lemma_same_record(a, b, option_members());
}

/// In a tidy table, an entry is what its name is looked up to.
proof fn lemma_entry(entries: Seq<(Seq<char>, TomlView)>, i: int, from: int)
    requires
        tidy(TomlView::Table(entries)),
        0 <= from <= i < entries.len(),
    ensures
        entry_from(entries, entries[i].0, from) == Some(entries[i].1),
    decreases i - from,
{
    if from < i {
        let whole = TomlView::Table(entries);
        assert(whole->Table_0[from].0 != whole->Table_0[i].0);
        lemma_entry(entries, i, from + 1);
    }
}

/// Whether a value is a table of options, by its names.
pub proof fn lemma_option_entries(value: TomlView)
    requires
        tidy(value),
        value is Table,
    ensures
        is_option_table(value) <==> forall|name: Seq<char>|
            entry_from(value->Table_0, name, 0) is Some ==> option_fits(
                #[trigger] entry_from(value->Table_0, name, 0)->Some_0,
            ),
{
    let entries = value->Table_0;
    if is_option_table(value) {
        assert forall|name: Seq<char>| entry_from(entries, name, 0) is Some implies option_fits(
            #[trigger] entry_from(entries, name, 0)->Some_0,
        ) by {
            lemma_flat_entries(entries, name, 0);
            lemma_names(entries, name, 0);
            let i = choose|i: int| 0 <= i < entries.len() && (#[trigger] entries[i]).0 == name;
            lemma_entry(entries, i, 0);
            assert(option_fits(entries[i].1));
        }
    }
    if forall|name: Seq<char>|
        entry_from(entries, name, 0) is Some ==> option_fits(
            #[trigger] entry_from(entries, name, 0)->Some_0,
        ) {
        assert forall|i: int| 0 <= i < entries.len() implies option_fits(
            (#[trigger] entries[i]).1,
        ) by {
            lemma_entry(entries, i, 0);
            assert(option_fits(entry_from(entries, entries[i].0, 0)->Some_0));
        }
    }
}

/// A table of options is the same with and without order.
proof fn lemma_same_options(a: TomlView, b: TomlView)
    requires
        flat(a) == flat(b),
        tidy(a),
        tidy(b),
    ensures
        is_option_table(a) == is_option_table(b),
        is_option_table(a) ==> option_table(a->Table_0, 0) == option_table(b->Table_0, 0),
{
    if a is Table && b is Table {
        let x = a->Table_0;
        let y = b->Table_0;
        lemma_option_entries(a);
        lemma_option_entries(b);
        assert forall|name: Seq<char>| same_entry(x, y, name) by {
            lemma_flat_entries(x, name, 0);
            lemma_flat_entries(y, name, 0);
            if let (Some(v), Some(w)) = (entry_from(x, name, 0), entry_from(y, name, 0)) {
                lemma_same_option(v, w);
            }
        }
        if is_option_table(a) {
            assert forall|name: Seq<char>| entry_from(y, name, 0) is Some implies option_fits(
                #[trigger] entry_from(y, name, 0)->Some_0,
            ) by {
                assert(same_entry(x, y, name));
                assert(option_fits(entry_from(x, name, 0)->Some_0));
            }
        }
        if is_option_table(b) {
            assert forall|name: Seq<char>| entry_from(x, name, 0) is Some implies option_fits(
                #[trigger] entry_from(x, name, 0)->Some_0,
            ) by {
                assert(same_entry(x, y, name));
                assert(option_fits(entry_from(y, name, 0)->Some_0));
            }
        }
        if is_option_table(a) {
            let s = option_table(x, 0);
            let t = option_table(y, 0);
            lemma_option_table_ascends(x, 0);
            lemma_option_table_ascends(y, 0);
            assert forall|key: Seq<char>| #[trigger] option_named(s, key) == option_named(t, key) by {
                lemma_option_table_lookup(x, key, 0);
                lemma_option_table_lookup(y, key, 0);
                assert(same_entry(x, y, key));
                if entry_from(x, key, 0) is Some {
                    assert(option_fits(entry_from(x, key, 0)->Some_0));
                }
            }
            lemma_option_tables_equal(s, t);
        }
    }
}

/// Whether two tables hold the same option under a name.
spec fn same_entry(
    x: Seq<(Seq<char>, TomlView)>,
    y: Seq<(Seq<char>, TomlView)>,
    name: Seq<char>,
) -> bool {
    match (entry_from(x, name, 0), entry_from(y, name, 0)) {
        (Some(v), Some(w)) => {
            &&& flat(v) == flat(w)
            &&& option_fits(v) == option_fits(w)
            &&& option_fits(v) ==> option_from(v) == option_from(w)
        },
        (None, None) => true,
        _ => false,
    }
}

/// An entry of a tidy table is tidy.
pub proof fn lemma_tidy_member(value: TomlView, position: int, name: Seq<char>)
    requires
        tidy(value),
    ensures
        member(value, position, name) matches Some(w) ==> tidy(w),
{
    if let TomlView::Table(entries) = value {
        if entry_from(entries, name, 0) is Some {
            lemma_flat_entries(entries, name, 0);
            lemma_names(entries, name, 0);
            let i = choose|i: int| 0 <= i < entries.len() && (#[trigger] entries[i]).0 == name;
            lemma_entry(entries, i, 0);
        }
    }
}

/// Whether two documents hold the same under every name but one.
pub open spec fn differ_at_most_in(a: TomlView, b: TomlView, name: Seq<char>) -> bool {
    &&& a is Table
    &&& b is Table
    &&& forall|other: Seq<char>|
        other != name ==> #[trigger] entry_at(flat_table(a), other) == entry_at(
            flat_table(b),
            other,
        )
}

/// A text member that did not change reads the same.
proof fn lemma_kept(a: TomlView, b: TomlView, changed: Seq<char>, position: int, name: Seq<char>)
    requires
        differ_at_most_in(a, b, changed),
        tidy(a),
        tidy(b),
        name != changed,
    ensures
        flat_maybe(member(a, position, name)) == flat_maybe(member(b, position, name)),
        text_fits(member(a, position, name)) == text_fits(member(b, position, name)),
        text_of(member(a, position, name)) == text_of(member(b, position, name)),
        text_or_empty(member(a, position, name)) == text_or_empty(member(b, position, name)),
        flag_fits(member(a, position, name)) == flag_fits(member(b, position, name)),
        forall|default: bool|
            flag_or(member(a, position, name), default) == #[trigger] flag_or(
                member(b, position, name),
                default,
            ),
        forall|low: int, high: int|
            number_fits(member(a, position, name), low, high) == #[trigger] number_fits(
                member(b, position, name),
                low,
                high,
            ),
        forall|default: int|
            number_or(member(a, position, name), default) == #[trigger] number_or(
                member(b, position, name),
                default,
            ),
        (member(a, position, name) is Some) == (member(b, position, name) is Some),
{
    lemma_member(a, position, name);
    lemma_member(b, position, name);
    assert(entry_at(flat_table(a), name) == entry_at(flat_table(b), name));
    lemma_scalars(member(a, position, name), member(b, position, name));
}

/// The names of the members of a manifest are distinct.
proof fn lemma_action_names()
    ensures
        forall|i: int, j: int|
            0 <= i < j < 15 ==> #[trigger] action_members()[i] != #[trigger] action_members()[j],
{
    reveal_strlit("id");
    reveal_strlit("title");
    reveal_strlit("icon");
    reveal_strlit("label");
    reveal_strlit("order");
    reveal_strlit("match");
    reveal_strlit("not_match");
    reveal_strlit("detects");
    reveal_strlit("builtin");
    reveal_strlit("options");
    reveal_strlit("url");
    reveal_strlit("exec");
    reveal_strlit("stdin");
    reveal_strlit("after");
    reveal_strlit("enabled");
    assert("id"@.len() == 2 && "url"@.len() == 3 && "icon"@.len() == 4 && "exec"@.len() == 4);
    assert("title"@.len() == 5 && "label"@.len() == 5 && "order"@.len() == 5);
    assert("match"@.len() == 5 && "stdin"@.len() == 5 && "after"@.len() == 5);
    assert("detects"@.len() == 7 && "builtin"@.len() == 7 && "options"@.len() == 7);
    assert("enabled"@.len() == 7 && "not_match"@.len() == 9);
    assert("icon"@[0] == 'i' && "exec"@[0] == 'e');
    assert("title"@[0] == 't' && "label"@[0] == 'l' && "order"@[0] == 'o');
    assert("match"@[0] == 'm' && "stdin"@[0] == 's' && "after"@[0] == 'a');
    assert("detects"@[0] == 'd' && "builtin"@[0] == 'b' && "options"@[0] == 'o');
    assert("enabled"@[0] == 'e');
}

/// A manifest that differs in one scalar member declares the same action but
/// for that member.
proof fn lemma_actions_alike(a: TomlView, b: TomlView, changed: Seq<char>)
    requires
        differ_at_most_in(a, b, changed),
        tidy(a),
        tidy(b),
        action_members().contains(changed),
    ensures
        is_record(a, action_members()) == is_record(b, action_members()),
        changed != "id"@ ==> {
            &&& (member(a, 0, "id"@) is Some && text_fits(member(a, 0, "id"@))) == (member(
                b,
                0,
                "id"@,
            ) is Some && text_fits(member(b, 0, "id"@)))
            &&& action_from(a).id == action_from(b).id
        },
        changed != "title"@ ==> {
            &&& (member(a, 1, "title"@) is Some && text_fits(member(a, 1, "title"@))) == (member(
                b,
                1,
                "title"@,
            ) is Some && text_fits(member(b, 1, "title"@)))
            &&& action_from(a).title == action_from(b).title
        },
        changed != "icon"@ ==> text_fits(member(a, 2, "icon"@)) == text_fits(
            member(b, 2, "icon"@),
        ) && action_from(a).icon == action_from(b).icon,
        changed != "label"@ ==> text_fits(member(a, 3, "label"@)) == text_fits(
            member(b, 3, "label"@),
        ) && action_from(a).label == action_from(b).label,
        changed != "order"@ ==> number_fits(
            member(a, 4, "order"@),
            i32::MIN as int,
            i32::MAX as int,
        ) == number_fits(member(b, 4, "order"@), i32::MIN as int, i32::MAX as int)
            && action_from(a).order == action_from(b).order,
        changed != "match"@ ==> text_fits(member(a, 5, "match"@)) == text_fits(
            member(b, 5, "match"@),
        ) && action_from(a).match_re == action_from(b).match_re,
        changed != "not_match"@ ==> text_fits(member(a, 6, "not_match"@)) == text_fits(
            member(b, 6, "not_match"@),
        ) && action_from(a).not_match == action_from(b).not_match,
{
    let names = action_members();
    if is_record(a, names) {
        lemma_record_kept(a, b, changed, names);
    }
    if is_record(b, names) {
        lemma_record_kept(b, a, changed, names);
    }
    if changed != "id"@ {
        lemma_kept(a, b, changed, 0, "id"@);
    }
    if changed != "title"@ {
        lemma_kept(a, b, changed, 1, "title"@);
    }
    if changed != "icon"@ {
        lemma_kept(a, b, changed, 2, "icon"@);
    }
    if changed != "label"@ {
        lemma_kept(a, b, changed, 3, "label"@);
    }
    if changed != "order"@ {
        lemma_kept(a, b, changed, 4, "order"@);
        assert(number_or(member(a, 4, "order"@), 0) == number_or(member(b, 4, "order"@), 0));
        assert(number_fits(member(a, 4, "order"@), i32::MIN as int, i32::MAX as int)
            == number_fits(member(b, 4, "order"@), i32::MIN as int, i32::MAX as int));
    }
    if changed != "match"@ {
        lemma_kept(a, b, changed, 5, "match"@);
    }
    if changed != "not_match"@ {
        lemma_kept(a, b, changed, 6, "not_match"@);
    }
}

/// A record with one known member changed is still a record.
proof fn lemma_record_kept(
    a: TomlView,
    b: TomlView,
    changed: Seq<char>,
    names: Seq<Seq<char>>,
)
    requires
        differ_at_most_in(a, b, changed),
        names.contains(changed),
        is_record(a, names),
    ensures
        is_record(b, names),
{
    lemma_record(a, names);
    lemma_record(b, names);
    assert forall|name: Seq<char>| #[trigger] flat_table(b).contains_key(
        name,
    ) implies names.contains(name) by {
        if name != changed {
            assert(entry_at(flat_table(a), name) == entry_at(flat_table(b), name));
            assert(flat_table(a).contains_key(name));
        }
    }
}

/// The same for the members behind `not_match`.
proof fn lemma_actions_alike_rest(a: TomlView, b: TomlView, changed: Seq<char>)
    requires
        differ_at_most_in(a, b, changed),
        tidy(a),
        tidy(b),
    ensures
        changed != "detects"@ ==> {
            &&& (member(a, 7, "detects"@) matches Some(v) ==> is_detect_list(v)) == (member(
                b,
                7,
                "detects"@,
            ) matches Some(v) ==> is_detect_list(v))
            &&& (member(a, 7, "detects"@) matches Some(v) ==> is_detect_list(v)) ==> action_from(
                a,
            ).detects == action_from(b).detects
        },
        changed != "builtin"@ ==> {
            &&& (member(a, 8, "builtin"@) matches Some(v) ==> builtin_value(v) is Some) == (member(
                b,
                8,
                "builtin"@,
            ) matches Some(v) ==> builtin_value(v) is Some)
            &&& action_from(a).builtin == action_from(b).builtin
        },
        changed != "options"@ ==> {
            &&& (member(a, 9, "options"@) matches Some(v) ==> is_option_table(v)) == (member(
                b,
                9,
                "options"@,
            ) matches Some(v) ==> is_option_table(v))
            &&& (member(a, 9, "options"@) matches Some(v) ==> is_option_table(v)) ==> action_from(
                a,
            ).options == action_from(b).options
        },
        changed != "url"@ ==> text_fits(member(a, 10, "url"@)) == text_fits(
            member(b, 10, "url"@),
        ) && action_from(a).url == action_from(b).url,
        changed != "exec"@ ==> texts_fit(member(a, 11, "exec"@)) == texts_fit(
            member(b, 11, "exec"@),
        ) && (texts_fit(member(a, 11, "exec"@)) ==> action_from(a).command == action_from(
            b,
        ).command),
        changed != "stdin"@ ==> flag_fits(member(a, 12, "stdin"@)) == flag_fits(
            member(b, 12, "stdin"@),
        ) && action_from(a).stdin == action_from(b).stdin,
        changed != "after"@ ==> {
            &&& (member(a, 13, "after"@) matches Some(v) ==> after_value(v) is Some) == (member(
                b,
                13,
                "after"@,
            ) matches Some(v) ==> after_value(v) is Some)
            &&& action_from(a).after == action_from(b).after
        },
        changed != "enabled"@ ==> flag_fits(member(a, 14, "enabled"@)) == flag_fits(
            member(b, 14, "enabled"@),
        ) && action_from(a).enabled == action_from(b).enabled,
{
    if changed != "detects"@ {
        lemma_kept(a, b, changed, 7, "detects"@);
        lemma_tidy_member(a, 7, "detects"@);
        lemma_tidy_member(b, 7, "detects"@);
        if let (Some(v), Some(w)) = (member(a, 7, "detects"@), member(b, 7, "detects"@)) {
            lemma_detect_lists(v, w);
        }
    }
    if changed != "builtin"@ {
        lemma_kept(a, b, changed, 8, "builtin"@);
        lemma_tidy_member(a, 8, "builtin"@);
        lemma_tidy_member(b, 8, "builtin"@);
        if let (Some(v), Some(w)) = (member(a, 8, "builtin"@), member(b, 8, "builtin"@)) {
            lemma_choice(v, w);
        }
    }
    if changed != "options"@ {
        lemma_kept(a, b, changed, 9, "options"@);
        lemma_tidy_member(a, 9, "options"@);
        lemma_tidy_member(b, 9, "options"@);
        if let (Some(v), Some(w)) = (member(a, 9, "options"@), member(b, 9, "options"@)) {
            lemma_same_options(v, w);
        }
    }
    if changed != "url"@ {
        lemma_kept(a, b, changed, 10, "url"@);
    }
    if changed != "exec"@ {
        lemma_kept(a, b, changed, 11, "exec"@);
        lemma_text_members(member(a, 11, "exec"@), member(b, 11, "exec"@));
    }
    if changed != "stdin"@ {
        lemma_kept(a, b, changed, 12, "stdin"@);
        assert(flag_or(member(a, 12, "stdin"@), false) == flag_or(
            member(b, 12, "stdin"@),
            false,
        ));
    }
    if changed != "after"@ {
        lemma_kept(a, b, changed, 13, "after"@);
        lemma_tidy_member(a, 13, "after"@);
        lemma_tidy_member(b, 13, "after"@);
        if let (Some(v), Some(w)) = (member(a, 13, "after"@), member(b, 13, "after"@)) {
            lemma_choice(v, w);
        }
    }
    if changed != "enabled"@ {
        lemma_kept(a, b, changed, 14, "enabled"@);
        assert(flag_or(member(a, 14, "enabled"@), true) == flag_or(
            member(b, 14, "enabled"@),
            true,
        ));
    }
}

/// A manifest changed under one of its names.
proof fn lemma_differ(before: TomlView, after: TomlView, name: Seq<char>, tree: Tree)
    requires
        before is Table,
        flat(after) == Tree::Table(flat_table(before).insert(name, tree)),
    ensures
        differ_at_most_in(before, after, name),
        entry_at(flat_table(after), name) == Some(tree),
{
    assert(flat_table(after) == flat_table(before).insert(name, tree));
}

/// The members of a manifest are different from each other.
pub proof fn lemma_action_name(i: int, j: int)
    requires
        0 <= i < 15,
        0 <= j < 15,
        i != j,
    ensures
        action_members()[i] != action_members()[j],
        action_members().contains(action_members()[i]),
{
    lemma_action_names();
    if i < j {
        assert(action_members()[i] != action_members()[j]);
    } else {
        assert(action_members()[j] != action_members()[i]);
    }
}

/// Flipping the switch of an action in the settings window changes whether the
/// action is enabled, and nothing else about it.
pub proof fn law_toggling_changes_enabled_alone(
    raw: Seq<char>,
    before: TomlView,
    text: Seq<char>,
    enabled: bool,
)
    requires
        toml_document(raw) == Ok::<TomlView, Seq<char>>(before),
        before is Table,
        tidy(before),
        action_fits(before),
        reads_as(text, Tree::Table(toggled(flat_table(before), enabled))),
    ensures
        toml_document(text) matches Ok(after) && action_fits(after) && action_from(after) == (
        SpecView { enabled, ..action_from(before) }),
{
    let after = toml_document(text)->Ok_0;
    let name = "enabled"@;
    lemma_differ(before, after, name, Tree::Boolean(enabled));
    assert(name == action_members()[14]);
    assert forall|i: int| 0 <= i < 14 implies #[trigger] action_members()[i] != name by {
        lemma_action_name(i, 14);
    }
    lemma_action_name(14, 0);
    lemma_members_listed();
    lemma_actions_alike(before, after, name);
    lemma_actions_alike_rest(before, after, name);
    lemma_member(after, 14, name);
}

/// Where each member of a manifest is listed.
pub proof fn lemma_members_listed()
    ensures
        action_members()[0] == "id"@,
        action_members()[1] == "title"@,
        action_members()[2] == "icon"@,
        action_members()[3] == "label"@,
        action_members()[4] == "order"@,
        action_members()[5] == "match"@,
        action_members()[6] == "not_match"@,
        action_members()[7] == "detects"@,
        action_members()[8] == "builtin"@,
        action_members()[9] == "options"@,
        action_members()[10] == "url"@,
        action_members()[11] == "exec"@,
        action_members()[12] == "stdin"@,
        action_members()[13] == "after"@,
        action_members()[14] == "enabled"@,
{
}

// ---------------------------------------------------------------------------
// What both parsers read
// ---------------------------------------------------------------------------

/// Whether no option of a manifest is written as an array with more items than
/// an option has members. Nothing reads the further items, so they can be
/// anything.
pub open spec fn without_surplus(doc: TomlView) -> bool {
    member(doc, 9, "options"@) matches Some(TomlView::Table(entries)) ==> forall|i: int|
        0 <= i < entries.len() ==> ((#[trigger] entries[i]).1 matches TomlView::Array(items)
            ==> items.len() <= 4)
}

/// A list of texts holds neither floats nor dates nor large integers.
proof fn lemma_text_list_modest(value: TomlView)
    requires
        is_text_list(value),
    ensures
        modest(value),
{
    reveal_with_fuel(modest, 3);
}

/// What names one of several alternatives holds neither floats nor dates nor
/// large integers.
proof fn lemma_choice_modest(value: TomlView)
    requires
        choice_of(value) is Some,
    ensures
        modest(value),
{
    reveal_with_fuel(modest, 4);
    if let TomlView::Table(entries) = value {
        assert(modest(entries[0].1));
    }
}

/// An option holds neither floats nor dates nor large integers.
proof fn lemma_option_modest(value: TomlView)
    requires
        option_fits(value),
        tidy(value),
        value matches TomlView::Array(items) ==> items.len() <= 4,
    ensures
        modest(value),
{
    reveal_with_fuel(modest, 2);
    if member(value, 2, "choices"@) is Some {
        lemma_text_list_modest(member(value, 2, "choices"@)->Some_0);
    }
    match value {
        TomlView::Table(entries) => {
            assert forall|i: int| 0 <= i < entries.len() implies modest(
                (#[trigger] entries[i]).1,
            ) by {
                lemma_entry(entries, i, 0);
                assert(option_members().contains(entries[i].0));
            }
        },
        TomlView::Array(items) => {
            assert forall|i: int| 0 <= i < items.len() implies modest(#[trigger] items[i]) by {
                if i == 0 {
                    assert(items[i] == member(value, 0, "label"@)->Some_0);
                } else if i == 1 {
                    assert(items[i] == member(value, 1, "default"@)->Some_0);
                } else if i == 2 {
                    assert(items[i] == member(value, 2, "choices"@)->Some_0);
                } else {
                    assert(items[i] == member(value, 3, "value"@)->Some_0);
                }
            }
        },
        _ => {},
    }
}

/// A manifest holds neither floats nor dates nor large integers, so both
/// parsers read it.
pub proof fn lemma_manifests_are_modest(doc: TomlView)
    requires
        doc is Table,
        tidy(doc),
        action_fits(doc),
        without_surplus(doc),
    ensures
        modest(doc),
{
    reveal_with_fuel(modest, 2);
    let entries = doc->Table_0;
    assert forall|i: int| 0 <= i < entries.len() implies modest((#[trigger] entries[i]).1) by {
        let name = entries[i].0;
        let value = entries[i].1;
        lemma_entry(entries, i, 0);
        assert(action_members().contains(name));
        assert(tidy(value));
        let at = choose|k: int| 0 <= k < 15 && action_members()[k] == name;
        lemma_members_listed();
        assert(member(doc, at, name) == Some(value));
        if at == 7 {
            let items = value->Array_0;
            assert forall|k: int| 0 <= k < items.len() implies modest(#[trigger] items[k]) by {
                assert(detect_value(items[k]) is Some);
                lemma_choice_modest(items[k]);
            }
        } else if at == 8 || at == 13 {
            lemma_choice_modest(value);
        } else if at == 9 {
            let options = value->Table_0;
            assert forall|k: int| 0 <= k < options.len() implies modest(
                (#[trigger] options[k]).1,
            ) by {
                assert(tidy(options[k].1));
                lemma_option_modest(options[k].1);
            }
        } else if at == 11 {
            lemma_text_list_modest(value);
        }
    }
}

/// Renumbering changes where an action stands in the bar, and nothing else
/// about it. The bar then shows the actions in the order of the list.
pub proof fn law_renumbering_changes_the_order_alone(
    raw: Seq<char>,
    before: TomlView,
    text: Seq<char>,
    position: int,
)
    requires
        toml_document(raw) == Ok::<TomlView, Seq<char>>(before),
        before is Table,
        tidy(before),
        action_fits(before),
        0 <= position,
        order_at(position) <= i32::MAX,
        reads_as(text, Tree::Table(ordered(flat_table(before), order_at(position)))),
    ensures
        toml_document(text) matches Ok(after) && action_fits(after) && action_from(after) == (
        SpecView { order: order_at(position) as i32, ..action_from(before) }),
        forall|later: int|
            position < later ==> order_at(position) < #[trigger] order_at(later),
{
    let after = toml_document(text)->Ok_0;
    let name = "order"@;
    lemma_differ(before, after, name, Tree::Integer(order_at(position)));
    assert(name == action_members()[4]);
    lemma_members_listed();
    assert forall|i: int| 0 <= i < 15 && i != 4 implies #[trigger] action_members()[i] != name by {
        lemma_action_name(i, 4);
    }
    lemma_action_name(4, 0);
    lemma_actions_alike(before, after, name);
    lemma_actions_alike_rest(before, after, name);
    lemma_member(after, 4, name);
}

/// An option with its value chosen is still an option, with that value.
proof fn lemma_option_chosen(before: TomlView, after: TomlView, chosen: Seq<char>)
    requires
        tidy(before),
        tidy(after),
        before is Table,
        option_fits(before),
        flat(after) == Tree::Table(flat_table(before).insert("value"@, Tree::Text(chosen))),
    ensures
        option_fits(after),
        option_from(after) == (OptionView { value: Some(chosen), ..option_from(before) }),
{
    let name = "value"@;
    reveal_strlit("label");
    reveal_strlit("default");
    reveal_strlit("choices");
    reveal_strlit("value");
    assert("label"@[0] == 'l' && name[0] == 'v' && "default"@[0] == 'd' && "choices"@[0] == 'c');
    lemma_differ(before, after, name, Tree::Text(chosen));
    lemma_kept(before, after, name, 0, "label"@);
    lemma_kept(before, after, name, 1, "default"@);
    lemma_kept(before, after, name, 2, "choices"@);
    lemma_text_members(member(before, 2, "choices"@), member(after, 2, "choices"@));
    assert(option_members()[3] == name);
    lemma_record_kept(before, after, name, option_members());
    lemma_member(after, 3, name);
}

/// Choosing a value in the settings window changes the value of that option,
/// and nothing else about the action.
pub proof fn law_choosing_changes_one_option_alone(
    raw: Seq<char>,
    before: TomlView,
    text: Seq<char>,
    name: Seq<char>,
    chosen: Seq<char>,
    option: OptionView,
)
    requires
        toml_document(raw) == Ok::<TomlView, Seq<char>>(before),
        before is Table,
        tidy(before),
        action_fits(before),
        option_named(action_from(before).options, name) == Some(option),
        open_within(flat_table(before), "options"@, name),
        reads_as(text, Tree::Table(chosen_entries(flat_table(before), name, chosen))),
    ensures
        toml_document(text) matches Ok(after) && {
            &&& action_fits(after)
            &&& action_from(after) == (SpecView {
                options: action_from(after).options,
                ..action_from(before)
            })
            &&& option_named(action_from(after).options, name) == Some(
                OptionView { value: Some(chosen), ..option },
            )
            &&& forall|key: Seq<char>|
                key != name ==> #[trigger] option_named(action_from(after).options, key)
                    == option_named(action_from(before).options, key)
        },
{
    let after = toml_document(text)->Ok_0;
    let changed = "options"@;
    let entries = flat_table(before);
    let fresh = Tree::Table(
        nested(entries_at(entry_at(entries, changed)), name, "value"@, Tree::Text(chosen)),
    );
    lemma_differ(before, after, changed, fresh);
    assert(changed == action_members()[9]);
    lemma_members_listed();
    assert forall|i: int| 0 <= i < 15 && i != 9 implies #[trigger] action_members()[i]
        != changed by {
        lemma_action_name(i, 9);
    }
    lemma_action_name(9, 0);
    lemma_actions_alike(before, after, changed);
    lemma_actions_alike_rest(before, after, changed);
    lemma_member(before, 9, changed);
    lemma_member(after, 9, changed);
    lemma_tidy_member(before, 9, changed);
    lemma_tidy_member(after, 9, changed);
    let none: Seq<(Seq<char>, OptionView)> = Seq::empty();
    assert(option_named(none, name) is None);
    assert(member(before, 9, changed) is Some);
    let v = member(before, 9, changed)->Some_0;
    let w = member(after, 9, changed)->Some_0;
    let x = v->Table_0;
    let y = w->Table_0;
    lemma_option_table_lookup(x, name, 0);
    lemma_option_entries(v);
    lemma_option_entries(w);
    let old_option = entry_from(x, name, 0)->Some_0;
    assert(option_fits(entry_from(x, name, 0)->Some_0));
    lemma_flat_entries(x, name, 0);
    lemma_flat_entries(y, name, 0);
    assert(flat_table(v) == flat_entries(x, 0));
    assert(flat_table(w) == flat_entries(y, 0));
    assert(flat_entries(y, 0) == nested(flat_entries(x, 0), name, "value"@, Tree::Text(chosen)));
    let new_option = entry_from(y, name, 0)->Some_0;
    lemma_tidy_member(v, 0, name);
    lemma_tidy_member(w, 0, name);
    lemma_option_chosen(old_option, new_option, chosen);
    assert forall|key: Seq<char>| key != name implies same_entry(x, y, key) by {
        lemma_flat_entries(x, key, 0);
        lemma_flat_entries(y, key, 0);
        if let (Some(p), Some(q)) = (entry_from(x, key, 0), entry_from(y, key, 0)) {
            lemma_same_option(p, q);
        }
    }
    assert forall|key: Seq<char>| entry_from(y, key, 0) is Some implies option_fits(
        #[trigger] entry_from(y, key, 0)->Some_0,
    ) by {
        if key != name {
            assert(same_entry(x, y, key));
            assert(option_fits(entry_from(x, key, 0)->Some_0));
        }
    }
    lemma_option_table_lookup(y, name, 0);
    assert forall|key: Seq<char>| key != name implies #[trigger] option_named(
        action_from(after).options,
        key,
    ) == option_named(action_from(before).options, key) by {
        lemma_option_table_lookup(x, key, 0);
        lemma_option_table_lookup(y, key, 0);
        assert(same_entry(x, y, key));
        if entry_from(x, key, 0) is Some {
            assert(option_fits(entry_from(x, key, 0)->Some_0));
        }
    }
}

/// A change to entries leaves the names they had, plus the changed ones.
proof fn lemma_changed_names(
    entries: Map<Seq<char>, Tree>,
    changes: Seq<(Seq<char>, Tree)>,
    name: Seq<char>,
)
    ensures
        changed(entries, changes).contains_key(name) <==> entries.contains_key(name) || exists|
            i: int,
        |
            0 <= i < changes.len() && (#[trigger] changes[i]).0 == name,
    decreases changes.len(),
{
    if changes.len() > 0 {
        let rest = changes.drop_last();
        lemma_changed_names(entries, rest, name);
        if exists|i: int| 0 <= i < rest.len() && (#[trigger] rest[i]).0 == name {
            let i = choose|i: int| 0 <= i < rest.len() && (#[trigger] rest[i]).0 == name;
            assert(changes[i].0 == name);
        }
        if exists|i: int| 0 <= i < changes.len() && (#[trigger] changes[i]).0 == name {
            let i = choose|i: int| 0 <= i < changes.len() && (#[trigger] changes[i]).0 == name;
            if i < rest.len() {
                assert(rest[i].0 == name);
            }
        }
    }
}

/// Among changes of different names, each leaves its value.
proof fn lemma_changed_value(
    entries: Map<Seq<char>, Tree>,
    changes: Seq<(Seq<char>, Tree)>,
    i: int,
)
    requires
        0 <= i < changes.len(),
        forall|a: int, b: int|
            0 <= a < b < changes.len() ==> (#[trigger] changes[a]).0 != (#[trigger] changes[b]).0,
    ensures
        entry_at(changed(entries, changes), changes[i].0) == Some(changes[i].1),
    decreases changes.len(),
{
    if i < changes.len() - 1 {
        assert(changes[i].0 != changes[changes.len() - 1].0);
        lemma_changed_value(entries, changes.drop_last(), i);
    }
}

/// A table that is missing or a record, changed under known names, is a record.
proof fn lemma_changed_record(
    before: Option<TomlView>,
    after: TomlView,
    changes: Seq<(Seq<char>, Tree)>,
    names: Seq<Seq<char>>,
)
    requires
        flat_maybe(before) matches Some(tree) ==> tree is Table,
        before matches Some(v) ==> is_record(v, names),
        flat(after) == Tree::Table(changed(entries_at(flat_maybe(before)), changes)),
        forall|i: int| 0 <= i < changes.len() ==> names.contains((#[trigger] changes[i]).0),
    ensures
        is_record(after, names),
{
    lemma_record(after, names);
    assert forall|name: Seq<char>| #[trigger] flat_table(after).contains_key(
        name,
    ) implies names.contains(name) by {
        lemma_changed_names(entries_at(flat_maybe(before)), changes, name);
        if exists|i: int| 0 <= i < changes.len() && (#[trigger] changes[i]).0 == name {
            let i = choose|i: int| 0 <= i < changes.len() && (#[trigger] changes[i]).0 == name;
            assert(names.contains(changes[i].0));
        } else {
            let v = before->Some_0;
            lemma_record(v, names);
            assert(flat_table(v).contains_key(name));
        }
    }
}

/// The member of a changed table reads as it was written.
proof fn lemma_written(
    base: Map<Seq<char>, Tree>,
    after: TomlView,
    changes: Seq<(Seq<char>, Tree)>,
    i: int,
)
    requires
        flat(after) == Tree::Table(changed(base, changes)),
        0 <= i < changes.len(),
        forall|a: int, b: int|
            0 <= a < b < changes.len() ==> (#[trigger] changes[a]).0 != (#[trigger] changes[b]).0,
    ensures
        flat_maybe(member(after, i, changes[i].0)) == Some(changes[i].1),
{
    lemma_changed_value(base, changes, i);
    lemma_member(after, i, changes[i].0);
}

/// The members of `[popup]` have different names.
proof fn lemma_popup_names(popup: crate::config::Popup)
    ensures
        forall|a: int, b: int|
            0 <= a < b < popup_changes(popup).len() ==> (#[trigger] popup_changes(popup)[a]).0 != (
            #[trigger] popup_changes(popup)[b]).0,
        forall|a: int|
            0 <= a < popup_changes(popup).len() ==> popup_members().contains(
                (#[trigger] popup_changes(popup)[a]).0,
            ),
{
    reveal_strlit("settle_ms");
    reveal_strlit("max_actions");
    reveal_strlit("icon_size");
    reveal_strlit("offset_x");
    reveal_strlit("offset_y");
    reveal_strlit("dismiss_ms");
    reveal_strlit("timeout_ms");
    reveal_strlit("animate");
    assert("settle_ms"@.len() == 9 && "max_actions"@.len() == 11 && "icon_size"@.len() == 9);
    assert("offset_x"@.len() == 8 && "offset_y"@.len() == 8 && "dismiss_ms"@.len() == 10);
    assert("timeout_ms"@.len() == 10 && "animate"@.len() == 7);
    assert("settle_ms"@[0] == 's' && "icon_size"@[0] == 'i');
    assert("offset_x"@[7] == 'x' && "offset_y"@[7] == 'y');
    assert("dismiss_ms"@[0] == 'd' && "timeout_ms"@[0] == 't');
    assert forall|a: int| 0 <= a < popup_changes(popup).len() implies popup_members().contains(
        (#[trigger] popup_changes(popup)[a]).0,
    ) by {
        assert(popup_members()[a] == popup_changes(popup)[a].0);
    }
}

/// The `[popup]` table reads back as it was written.
proof fn lemma_popup_back(before: Option<TomlView>, after: TomlView, popup: crate::config::Popup)
    requires
        flat_maybe(before) matches Some(tree) ==> tree is Table,
        before matches Some(v) ==> popup_fits(v),
        flat(after) == Tree::Table(changed(entries_at(flat_maybe(before)), popup_changes(popup))),
        popup.settle_ms <= i64::MAX,
        popup.max_actions <= i64::MAX,
        popup.dismiss_ms <= i64::MAX,
        popup.timeout_ms <= i64::MAX,
    ensures
        popup_fits(after),
        popup_from(after) == popup,
{
    let changes = popup_changes(popup);
    let base = entries_at(flat_maybe(before));
    lemma_popup_names(popup);
    lemma_changed_record(before, after, changes, popup_members());
    lemma_written(base, after, changes, 0);
    lemma_written(base, after, changes, 1);
    lemma_written(base, after, changes, 2);
    lemma_written(base, after, changes, 3);
    lemma_written(base, after, changes, 4);
    lemma_written(base, after, changes, 5);
    lemma_written(base, after, changes, 6);
    lemma_written(base, after, changes, 7);
    assert(member(after, 0, "settle_ms"@) == Some(TomlView::Integer(popup.settle_ms as int)));
    assert(member(after, 1, "max_actions"@) == Some(TomlView::Integer(popup.max_actions as int)));
    assert(member(after, 2, "icon_size"@) == Some(TomlView::Integer(popup.icon_size as int)));
    assert(member(after, 3, "offset_x"@) == Some(TomlView::Integer(popup.offset_x as int)));
    assert(member(after, 4, "offset_y"@) == Some(TomlView::Integer(popup.offset_y as int)));
    assert(member(after, 5, "dismiss_ms"@) == Some(TomlView::Integer(popup.dismiss_ms as int)));
    assert(member(after, 6, "timeout_ms"@) == Some(TomlView::Integer(popup.timeout_ms as int)));
    assert(member(after, 7, "animate"@) == Some(TomlView::Boolean(popup.animate)));
}

/// The `[selection]` table reads back as it was written.
proof fn lemma_selection_back(
    before: Option<TomlView>,
    after: TomlView,
    selection: crate::config::Selection,
)
    requires
        flat_maybe(before) matches Some(tree) ==> tree is Table,
        before matches Some(v) ==> selection_fits(v),
        flat(after) == Tree::Table(
            changed(entries_at(flat_maybe(before)), selection_changes(selection)),
        ),
        selection.min_length <= i64::MAX,
        selection.max_length <= i64::MAX,
    ensures
        selection_fits(after),
        selection_from(after) == selection,
{
    let changes = selection_changes(selection);
    let base = entries_at(flat_maybe(before));
    reveal_strlit("min_length");
    reveal_strlit("max_length");
    reveal_strlit("ignore_whitespace_only");
    assert("min_length"@[1] == 'i' && "max_length"@[1] == 'a');
    assert("min_length"@.len() == 10 && "max_length"@.len() == 10);
    assert("ignore_whitespace_only"@.len() == 22);
    assert forall|a: int| 0 <= a < changes.len() implies selection_members().contains(
        (#[trigger] changes[a]).0,
    ) by {
        assert(selection_members()[a] == changes[a].0);
    }
    lemma_changed_record(before, after, changes, selection_members());
    lemma_written(base, after, changes, 0);
    lemma_written(base, after, changes, 1);
    lemma_written(base, after, changes, 2);
    assert(member(after, 0, "min_length"@) == Some(
        TomlView::Integer(selection.min_length as int),
    ));
    assert(member(after, 1, "max_length"@) == Some(
        TomlView::Integer(selection.max_length as int),
    ));
}

/// The `[applications]` table reads back as it was written.
proof fn lemma_applications_back(
    before: Option<TomlView>,
    after: TomlView,
    exclude: Seq<Seq<char>>,
)
    requires
        flat_maybe(before) matches Some(tree) ==> tree is Table,
        before matches Some(v) ==> applications_fit(v),
        flat(after) == Tree::Table(
            changed(entries_at(flat_maybe(before)), applications_changes(exclude)),
        ),
    ensures
        applications_fit(after),
        applications_from(after) == exclude,
{
    let changes = applications_changes(exclude);
    let base = entries_at(flat_maybe(before));
    assert(applications_members()[0] == changes[0].0);
    lemma_changed_record(before, after, changes, applications_members());
    lemma_written(base, after, changes, 0);
    let list = member(after, 0, "exclude"@)->Some_0;
    let items = list->Array_0;
    let trees = flat(list)->Array_0;
    assert(list is Array);
    assert(trees.len() == items.len());
    assert(trees == exclude.map_values(|t: Seq<char>| Tree::Text(t)));
    assert forall|i: int| 0 <= i < items.len() implies #[trigger] items[i] == TomlView::Text(
        exclude[i],
    ) by {
        assert(trees[i] == flat(items[i]));
        assert(trees[i] == Tree::Text(exclude[i]));
    }
    assert(text_list(list) =~= exclude);
}

/// Whether every number among the settings can be written.
pub open spec fn config_representable(config: ConfigView) -> bool {
    &&& config.popup.settle_ms <= i64::MAX
    &&& config.popup.max_actions <= i64::MAX
    &&& config.popup.dismiss_ms <= i64::MAX
    &&& config.popup.timeout_ms <= i64::MAX
    &&& config.selection.min_length <= i64::MAX
    &&& config.selection.max_length <= i64::MAX
}

/// The settings that are saved are the settings that are loaded afterwards.
pub proof fn law_saved_settings_are_loaded(
    raw: Seq<char>,
    before: TomlView,
    text: Seq<char>,
    config: ConfigView,
)
    requires
        toml_document(raw) == Ok::<TomlView, Seq<char>>(before),
        before is Table,
        config_fits(before),
        config_representable(config),
        config_writable(flat_table(before)),
        reads_as(text, Tree::Table(config_entries(flat_table(before), config))),
    ensures
        toml_document(text) matches Ok(after) && config_fits(after) && config_from(after)
            == config,
{
    let after = toml_document(text)->Ok_0;
    let entries = flat_table(before);
    reveal_strlit("popup");
    reveal_strlit("selection");
    reveal_strlit("applications");
    assert("popup"@.len() == 5 && "selection"@.len() == 9 && "applications"@.len() == 12);
    assert(flat_table(after) == config_entries(entries, config));
    lemma_member(before, 0, "popup"@);
    lemma_member(before, 1, "selection"@);
    lemma_member(before, 2, "applications"@);
    lemma_member(after, 0, "popup"@);
    lemma_member(after, 1, "selection"@);
    lemma_member(after, 2, "applications"@);
    lemma_popup_back(
        member(before, 0, "popup"@),
        member(after, 0, "popup"@)->Some_0,
        config.popup,
    );
    lemma_selection_back(
        member(before, 1, "selection"@),
        member(after, 1, "selection"@)->Some_0,
        config.selection,
    );
    lemma_applications_back(
        member(before, 2, "applications"@),
        member(after, 2, "applications"@)->Some_0,
        config.exclude,
    );
    lemma_record(before, config_members());
    lemma_record(after, config_members());
    assert(config_members()[0] == "popup"@ && config_members()[1] == "selection"@
        && config_members()[2] == "applications"@);
    assert forall|name: Seq<char>| #[trigger] flat_table(after).contains_key(
        name,
    ) implies config_members().contains(name) by {
        if name != "popup"@ && name != "selection"@ && name != "applications"@ {
            assert(entries.contains_key(name));
            assert(flat_table(before).contains_key(name));
        }
    }
}

} // verus!
