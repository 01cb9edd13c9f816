//! Writing a manifest out of a declaration.
//!
//! The text is made by the editor from nothing, member by member, so it holds
//! what the declaration holds and nothing else.

use vstd::prelude::*;

use crate::classify::Detect;
use crate::config::{copy_texts, After, Builtin};
use crate::edit::{document_text, open_document, put_top, put_within, Document, Scalar};
use crate::manifest::{ActionSpec, OptionSpec};
use crate::settings::copy_scalar;
use crate::text::owned;
#[allow(unused_imports)]
use crate::{
    document::{entry_from, is_record, is_text_list, member, text_list, tidy, toml_document, TomlView},
    edit::{entries_at, entry_at, flat, nested, reads_as, scalar_tree, Tree},
    manifest::{
        action_fits, action_from, action_members, after_named, builtin_named, detect_list,
        detect_named, detect_value, is_option_table, lemma_option_found, lemma_option_missing,
        lemma_option_stands, lemma_option_table_ascends, lemma_option_table_lookup,
        lemma_option_tables_equal, option_fits, option_from, option_members, option_named,
        option_names, option_table, options_view, OptionView, SpecView,
    },
    readback::{
        flat_maybe, flat_table, lemma_action_name, lemma_member, lemma_members_listed,
        lemma_option_entries, lemma_record, lemma_tidy_member,
    },
    sorted::{ascending, lemma_sorts_irreflexive},
    text::{maybe_text, sorts_before, texts},
};

verus! {

// ---------------------------------------------------------------------------
// Members
// ---------------------------------------------------------------------------

/// What a manifest calls a kind.
pub open spec fn detect_word(kind: Detect) -> Seq<char> {
    match kind {
        Detect::Url => "url"@,
        Detect::Email => "email"@,
        Detect::Path => "path"@,
        Detect::Phone => "phone"@,
        Detect::Color => "color"@,
    }
}

/// What a manifest calls a builtin.
pub open spec fn builtin_word(builtin: Builtin) -> Seq<char> {
    match builtin {
        Builtin::Cut => "cut"@,
        Builtin::Paste => "paste"@,
    }
}

/// What a manifest calls a mode.
pub open spec fn after_word(after: After) -> Seq<char> {
    match after {
        After::Ignore => "ignore"@,
        After::Copy => "copy"@,
        After::Replace => "replace"@,
        After::Show => "show"@,
    }
}

/// A list of texts as a value.
pub open spec fn list_tree(list: Seq<Seq<char>>) -> Tree {
    Tree::Array(list.map_values(|t: Seq<char>| Tree::Text(t)))
}

/// An optional text as a value.
pub open spec fn text_tree(text: Option<Seq<char>>) -> Option<Tree> {
    match text {
        Some(t) => Some(Tree::Text(t)),
        None => None,
    }
}

/// Entries with one more, if there is one to add.
pub open spec fn with_maybe(
    entries: Map<Seq<char>, Tree>,
    name: Seq<char>,
    tree: Option<Tree>,
) -> Map<Seq<char>, Tree> {
    match tree {
        Some(tree) => entries.insert(name, tree),
        None => entries,
    }
}

/// The entries that are there of a list of members.
pub open spec fn filled(members: Seq<(Seq<char>, Option<Tree>)>) -> Map<Seq<char>, Tree>
    decreases members.len(),
{
    if members.len() == 0 {
        Map::empty()
    } else {
        with_maybe(filled(members.drop_last()), members.last().0, members.last().1)
    }
}

/// The members of an option, each with its value.
pub open spec fn option_values(option: OptionView) -> Seq<(Seq<char>, Option<Tree>)> {
    seq![
        ("label"@, Some(Tree::Text(option.label))),
        ("default"@, Some(Tree::Text(option.default))),
        ("choices"@, Some(list_tree(option.choices))),
        ("value"@, text_tree(option.value)),
    ]
}

/// The entries of a table of options.
pub open spec fn options_map(options: Seq<(Seq<char>, OptionView)>) -> Map<Seq<char>, Tree>
    decreases options.len(),
{
    if options.len() == 0 {
        Map::empty()
    } else {
        options_map(options.drop_last()).insert(
            options.last().0,
            Tree::Table(filled(option_values(options.last().1))),
        )
    }
}

/// The members of a declaration but for its options, each with its value.
pub open spec fn spec_values(spec: SpecView) -> Seq<(Seq<char>, Option<Tree>)> {
    seq![
        ("id"@, Some(Tree::Text(spec.id))),
        ("title"@, Some(Tree::Text(spec.title))),
        ("icon"@, text_tree(spec.icon)),
        ("label"@, text_tree(spec.label)),
        ("order"@, Some(Tree::Integer(spec.order as int))),
        ("match"@, text_tree(spec.match_re)),
        ("not_match"@, text_tree(spec.not_match)),
        ("detects"@, Some(list_tree(spec.detects.map_values(|kind: Detect| detect_word(kind))))),
        (
            "builtin"@,
            match spec.builtin {
                Some(builtin) => Some(Tree::Text(builtin_word(builtin))),
                None => None,
            },
        ),
        ("options"@, None),
        ("url"@, text_tree(spec.url)),
        (
            "exec"@,
            match spec.command {
                Some(argv) => Some(list_tree(argv)),
                None => None,
            },
        ),
        ("stdin"@, Some(Tree::Boolean(spec.stdin))),
        ("after"@, Some(Tree::Text(after_word(spec.after)))),
        ("enabled"@, Some(Tree::Boolean(spec.enabled))),
    ]
}

/// The entries of the manifest that declares an action.
pub open spec fn spec_entries(spec: SpecView) -> Map<Seq<char>, Tree> {
    let entries = filled(spec_values(spec));
    if spec.options.len() == 0 {
        entries
    } else {
        entries.insert("options"@, Tree::Table(options_map(spec.options)))
    }
}

// ---------------------------------------------------------------------------
// Writing
// ---------------------------------------------------------------------------

/// An optional value to put into a document, in specifications.
spec fn maybe_tree(value: Option<Scalar>) -> Option<Tree> {
    match value {
        Some(value) => Some(scalar_tree(value)),
        None => None,
    }
}

/// An optional text as a value to put into a document.
fn text_scalar(text: &Option<String>) -> (r: Option<Scalar>)
    ensures
        maybe_tree(r) == text_tree(maybe_text(*text)),
{
    match text {
        Some(t) => Some(Scalar::Text(t.clone())),
        None => None,
    }
}

/// A list of texts as a value to put into a document.
fn list_scalar(list: &Vec<String>) -> (r: Scalar)
    ensures
        scalar_tree(r) == list_tree(texts(list@)),
{
    Scalar::Texts(copy_texts(list))
}

/// What a manifest calls a mode.
fn name_after(after: After) -> (r: &'static str)
    ensures
        r@ == after_word(after),
{
    match after {
        After::Ignore => "ignore",
        After::Copy => "copy",
        After::Replace => "replace",
        After::Show => "show",
    }
}

/// What a manifest calls each of several kinds.
fn name_detects(kinds: &Vec<Detect>) -> (r: Vec<String>)
    ensures
        texts(r@) == kinds@.map_values(|kind: Detect| detect_word(kind)),
{
    let mut out: Vec<String> = Vec::new();
    for i in 0..kinds.len()
        invariant
            out@.len() == i,
            forall|k: int| 0 <= k < i ==> (#[trigger] out@[k])@ == detect_word(kinds@[k]),
    {
        let word = match kinds[i] {
            Detect::Url => "url",
            Detect::Email => "email",
            Detect::Path => "path",
            Detect::Phone => "phone",
            Detect::Color => "color",
        };
        out.push(owned(word));
    }
    assert(texts(out@) =~= kinds@.map_values(|kind: Detect| detect_word(kind)));
    out
}

/// Puts a value under a name of a document, if there is one.
fn put_maybe(doc: Document, name: &str, value: Option<Scalar>) -> (r: Document)
    ensures
        r@.entries == with_maybe(doc@.entries, name@, maybe_tree(value)),
{
    match value {
        Some(value) => put_top(doc, name, value),
        None => doc,
    }
}

/// Puts an option into a document that does not have it yet.
fn put_declared(doc: Document, name: &str, option: &OptionSpec) -> (r: Document)
    requires
        match entry_at(doc@.entries, "options"@) {
            Some(tree) => tree is Table,
            None => true,
        },
        !entries_at(entry_at(doc@.entries, "options"@)).contains_key(name@),
    ensures
        r@.entries == nested(
            doc@.entries,
            "options"@,
            name@,
            Tree::Table(filled(option_values(option@))),
        ),
{
    let ghost before = doc@.entries;
    let ghost options = entries_at(entry_at(before, "options"@));
    let ghost values = option_values(option@);
    proof {
        reveal_with_fuel(filled, 5);
        assert(values.drop_last().drop_last().drop_last().drop_last() =~= Seq::empty());
        assert(values.drop_last().drop_last().drop_last().last() == values[0]);
        assert(values.drop_last().drop_last().last() == values[1]);
        assert(values.drop_last().last() == values[2]);
    }
    let label = Scalar::Text(option.label.clone());
    let ghost first = Map::<Seq<char>, Tree>::empty().insert("label"@, scalar_tree(label));
    let (doc, done) = put_within(doc, "options", name, "label", label);
    assert(done);
    assert(doc@.entries =~= before.insert(
        "options"@,
        Tree::Table(options.insert(name@, Tree::Table(first))),
    ));
    let default = Scalar::Text(option.default.clone());
    let ghost second = first.insert("default"@, scalar_tree(default));
    let (doc, done) = put_within(doc, "options", name, "default", default);
    assert(options.insert(name@, Tree::Table(first)).insert(name@, Tree::Table(second))
        =~= options.insert(name@, Tree::Table(second)));
    assert(doc@.entries =~= before.insert(
        "options"@,
        Tree::Table(options.insert(name@, Tree::Table(second))),
    ));
    let choices = list_scalar(&option.choices);
    let ghost third = second.insert("choices"@, scalar_tree(choices));
    let (doc, done) = put_within(doc, "options", name, "choices", choices);
    assert(options.insert(name@, Tree::Table(second)).insert(name@, Tree::Table(third))
        =~= options.insert(name@, Tree::Table(third)));
    assert(doc@.entries =~= before.insert(
        "options"@,
        Tree::Table(options.insert(name@, Tree::Table(third))),
    ));
    match &option.value {
        Some(value) => {
            let chosen = Scalar::Text(value.clone());
            let ghost fourth = third.insert("value"@, scalar_tree(chosen));
            let (doc, done) = put_within(doc, "options", name, "value", chosen);
            assert(options.insert(name@, Tree::Table(third)).insert(name@, Tree::Table(fourth))
                =~= options.insert(name@, Tree::Table(fourth)));
            assert(filled(values) =~= fourth);
            assert(doc@.entries =~= before.insert(
                "options"@,
                Tree::Table(options.insert(name@, Tree::Table(fourth))),
            ));
            doc
        },
        None => {
            assert(filled(values) =~= third);
            doc
        },
    }
}

/// Members with different names are found among the entries, each with its
/// value, and nothing else is.
proof fn lemma_filled(members: Seq<(Seq<char>, Option<Tree>)>)
    requires
        forall|i: int, j: int|
            0 <= i < j < members.len() ==> (#[trigger] members[i]).0 != (#[trigger] members[j]).0,
    ensures
        forall|i: int|
            0 <= i < members.len() ==> entry_at(filled(members), (#[trigger] members[i]).0)
                == members[i].1,
        forall|name: Seq<char>| #[trigger]
            filled(members).contains_key(name) ==> exists|i: int|
                0 <= i < members.len() && (#[trigger] members[i]).0 == name,
    decreases members.len(),
{
    if members.len() > 0 {
        let fewer = members.drop_last();
        let n = members.len() - 1;
        lemma_filled(fewer);
        assert forall|i: int| 0 <= i < members.len() implies entry_at(
            filled(members),
            (#[trigger] members[i]).0,
        ) == members[i].1 by {
            if i < n {
                assert(fewer[i] == members[i]);
                assert(members[i].0 != members[n].0);
            } else if filled(fewer).contains_key(members[n].0) {
                let k = choose|k: int|
                    0 <= k < fewer.len() && (#[trigger] fewer[k]).0 == members[n].0;
                assert(fewer[k] == members[k]);
                assert(members[k].0 != members[n].0);
            }
        }
        assert forall|name: Seq<char>| #[trigger]
            filled(members).contains_key(name) implies exists|i: int|
            0 <= i < members.len() && (#[trigger] members[i]).0 == name by {
            if filled(fewer).contains_key(name) {
                let k = choose|k: int| 0 <= k < fewer.len() && (#[trigger] fewer[k]).0 == name;
                assert(members[k].0 == name);
            } else {
                assert(members[n].0 == name);
            }
        }
    }
}

/// The members of a declaration are listed in order, and have different names.
proof fn lemma_spec_values(spec: SpecView)
    ensures
        spec_values(spec).len() == 15,
        forall|i: int|
            0 <= i < 15 ==> (#[trigger] spec_values(spec)[i]).0 == action_members()[i],
        forall|i: int, j: int|
            0 <= i < j < 15 ==> (#[trigger] spec_values(spec)[i]).0 != (
            #[trigger] spec_values(spec)[j]).0,
{
    let values = spec_values(spec);
    lemma_members_listed();
    assert forall|i: int| 0 <= i < 15 implies (#[trigger] values[i]).0 == action_members()[i] by {}
    assert forall|i: int, j: int| 0 <= i < j < 15 implies (#[trigger] values[i]).0 != (
    #[trigger] values[j]).0 by {
        lemma_action_name(i, j);
    }
}

/// The entries of an ascending table of options are its options.
proof fn lemma_options_map(options: Seq<(Seq<char>, OptionView)>, name: Seq<char>)
    requires
        ascending(option_names(options)),
    ensures
        entry_at(options_map(options), name) == (match option_named(options, name) {
            Some(option) => Some(Tree::Table(filled(option_values(option)))),
            None => None,
        }),
    decreases options.len(),
{
    if options.len() == 0 {
        lemma_option_missing(options, name);
    } else {
        let fewer = options.drop_last();
        let n = options.len() - 1;
        assert forall|i: int, j: int| 0 <= i < j < option_names(fewer).len() implies sorts_before(
            #[trigger] option_names(fewer)[i],
            #[trigger] option_names(fewer)[j],
        ) by {
            assert(option_names(fewer)[i] == option_names(options)[i]);
            assert(option_names(fewer)[j] == option_names(options)[j]);
        }
        lemma_options_map(fewer, name);
        lemma_option_found(options, n);
        if name != options[n].0 {
            if option_named(fewer, name) is Some {
                let i = lemma_option_stands(fewer, name);
                assert(fewer[i] == options[i]);
                lemma_option_found(fewer, i);
                lemma_option_found(options, i);
            } else {
                assert forall|i: int| 0 <= i < options.len() implies (#[trigger] options[i]).0
                    != name by {
                    if i < n && options[i].0 == name {
                        assert(fewer[i] == options[i]);
                        lemma_option_found(fewer, i);
                    }
                }
                lemma_option_missing(options, name);
            }
        }
    }
}

/// The first options of an ascending table do not hold a later one.
proof fn lemma_later_option(options: Seq<(Seq<char>, OptionView)>, i: int)
    requires
        ascending(option_names(options)),
        0 <= i < options.len(),
    ensures
        !options_map(options.take(i)).contains_key(options[i].0),
{
    let some = options.take(i);
    assert forall|a: int, b: int| 0 <= a < b < option_names(some).len() implies sorts_before(
        #[trigger] option_names(some)[a],
        #[trigger] option_names(some)[b],
    ) by {
        assert(option_names(some)[a] == option_names(options)[a]);
        assert(option_names(some)[b] == option_names(options)[b]);
    }
    lemma_options_map(some, options[i].0);
    assert forall|k: int| 0 <= k < some.len() implies (#[trigger] some[k]).0 != options[i].0 by {
        assert(sorts_before(option_names(options)[k], option_names(options)[i]));
        lemma_sorts_irreflexive(options[i].0);
    }
    lemma_option_missing(some, options[i].0);
}

/// The members of a declaration but for its options, as values to put into a
/// document.
fn spec_scalars(spec: &ActionSpec) -> (r: Vec<(&'static str, Option<Scalar>)>)
    ensures
        scalar_views(r@) == spec_values(spec@),
{
    let builtin = match spec.builtin {
        Some(Builtin::Cut) => Some(Scalar::Text(owned("cut"))),
        Some(Builtin::Paste) => Some(Scalar::Text(owned("paste"))),
        None => None,
    };
    let command = match &spec.command {
        Some(argv) => Some(list_scalar(argv)),
        None => None,
    };
    let detects = name_detects(&spec.detects);
    let r: Vec<(&'static str, Option<Scalar>)> = vec![
        ("id", Some(Scalar::Text(spec.id.clone()))),
        ("title", Some(Scalar::Text(spec.title.clone()))),
        ("icon", text_scalar(&spec.icon)),
        ("label", text_scalar(&spec.label)),
        ("order", Some(Scalar::Integer(spec.order as i64))),
        ("match", text_scalar(&spec.match_re)),
        ("not_match", text_scalar(&spec.not_match)),
        ("detects", Some(list_scalar(&detects))),
        ("builtin", builtin),
        ("options", None),
        ("url", text_scalar(&spec.url)),
        ("exec", command),
        ("stdin", Some(Scalar::Boolean(spec.stdin))),
        ("after", Some(Scalar::Text(owned(name_after(spec.after))))),
        ("enabled", Some(Scalar::Boolean(spec.enabled))),
    ];
    assert(scalar_views(r@) =~= spec_values(spec@));
    r
}

/// Members in specifications.
spec fn scalar_views(members: Seq<(&'static str, Option<Scalar>)>) -> Seq<
    (Seq<char>, Option<Tree>),
> {
    members.map_values(
        |member: (&'static str, Option<Scalar>)| (member.0@, maybe_tree(member.1)),
    )
}

/// Writes the manifest that declares an action.
pub fn write_declaration(spec: &ActionSpec) -> (r: String)
    requires
        ascending(option_names(spec@.options)),
    ensures
        reads_as(r@, Tree::Table(spec_entries(spec@))),
{
    proof {
        reveal_strlit("");
    }
    let mut doc = match open_document("") {
        Ok(doc) => doc,
        Err(_) => {
            assert(false);
            return String::new();
        },
    };
    let members = spec_scalars(spec);
    let ghost values = spec_values(spec@);
    assert(values.take(0) =~= Seq::empty());
    for i in 0..members.len()
        invariant
            values == scalar_views(members@),
            doc@.entries == filled(values.take(i as int)),
    {
        let value = match &members[i].1 {
            Some(value) => Some(copy_scalar(value)),
            None => None,
        };
        assert(values[i as int] == (members@[i as int].0@, maybe_tree(members@[i as int].1)));
        assert(values.take(i + 1).drop_last() =~= values.take(i as int));
        doc = put_maybe(doc, members[i].0, value);
    }
    assert(values.take(values.len() as int) =~= values);
    let ghost base = filled(values);
    let ghost options = spec@.options;
    proof {
        lemma_spec_values(spec@);
        lemma_filled(values);
        assert(entry_at(base, values[9].0) is None);
    }
    for i in 0..spec.options.len()
        invariant
            options == options_view(spec.options@),
            ascending(option_names(options)),
            !base.contains_key("options"@),
            doc@.entries == (if i == 0 {
                base
            } else {
                base.insert("options"@, Tree::Table(options_map(options.take(i as int))))
            }),
    {
        let ghost some = options_map(options.take(i as int));
        proof {
            lemma_later_option(options, i as int);
            assert(options.take(0) =~= Seq::empty());
            assert(options.take(i + 1).drop_last() =~= options.take(i as int));
            assert(options[i as int] == (spec.options@[i as int].0@, spec.options@[i as int].1@));
            assert(entries_at(entry_at(doc@.entries, "options"@)) =~= some);
        }
        doc = put_declared(doc, spec.options[i].0.as_str(), &spec.options[i].1);
        assert(doc@.entries =~= base.insert(
            "options"@,
            Tree::Table(options_map(options.take(i + 1))),
        ));
    }
    assert(options.take(options.len() as int) =~= options);
    document_text(&doc)
}

// ---------------------------------------------------------------------------
// Reading back
// ---------------------------------------------------------------------------

/// The words for kinds, builtins and modes are read as what they stand for.
proof fn lemma_words()
    ensures
        forall|kind: Detect| detect_named(#[trigger] detect_word(kind)) == Some(kind),
        forall|builtin: Builtin| builtin_named(#[trigger] builtin_word(builtin)) == Some(builtin),
        forall|after: After| after_named(#[trigger] after_word(after)) == Some(after),
{
    reveal_strlit("url");
    reveal_strlit("email");
    reveal_strlit("path");
    reveal_strlit("phone");
    reveal_strlit("color");
    assert("url"@.len() == 3 && "email"@.len() == 5 && "path"@.len() == 4);
    assert("phone"@.len() == 5 && "color"@.len() == 5);
    assert("email"@[0] == 'e' && "phone"@[0] == 'p' && "color"@[0] == 'c');
    reveal_strlit("cut");
    reveal_strlit("paste");
    assert("cut"@.len() == 3 && "paste"@.len() == 5);
    reveal_strlit("ignore");
    reveal_strlit("copy");
    reveal_strlit("replace");
    reveal_strlit("show");
    assert("ignore"@.len() == 6 && "copy"@.len() == 4 && "replace"@.len() == 7);
    assert("show"@.len() == 4 && "copy"@[0] == 'c' && "show"@[0] == 's');
}

/// A list of texts is read back.
proof fn lemma_list_back(value: TomlView, list: Seq<Seq<char>>)
    requires
        flat(value) == list_tree(list),
    ensures
        value is Array,
        value->Array_0.len() == list.len(),
        forall|i: int|
            0 <= i < list.len() ==> #[trigger] value->Array_0[i] == TomlView::Text(list[i]),
        is_text_list(value),
        text_list(value) == list,
{
    let items = value->Array_0;
    let trees = flat(value)->Array_0;
    assert(trees.len() == items.len());
    assert forall|i: int| 0 <= i < list.len() implies #[trigger] items[i] == TomlView::Text(
        list[i],
    ) by {
        assert(trees[i] == flat(items[i]));
        assert(trees[i] == Tree::Text(list[i]));
    }
    assert(text_list(value) =~= list);
}

/// An option is read back.
proof fn lemma_option_back(value: TomlView, option: OptionView)
    requires
        flat(value) == Tree::Table(filled(option_values(option))),
    ensures
        option_fits(value),
        option_from(value) == option,
{
    let values = option_values(option);
    reveal_strlit("label");
    reveal_strlit("default");
    reveal_strlit("choices");
    reveal_strlit("value");
    assert("label"@[0] == 'l' && "default"@[0] == 'd' && "choices"@[0] == 'c' && "value"@[0]
        == 'v');
    lemma_filled(values);
    assert(values[0].0 == "label"@ && values[1].0 == "default"@ && values[2].0 == "choices"@
        && values[3].0 == "value"@);
    lemma_member(value, 0, "label"@);
    lemma_member(value, 1, "default"@);
    lemma_member(value, 2, "choices"@);
    lemma_member(value, 3, "value"@);
    lemma_list_back(member(value, 2, "choices"@)->Some_0, option.choices);
    assert forall|name: Seq<char>| #[trigger] flat_table(value).contains_key(
        name,
    ) implies option_members().contains(name) by {
        let i = choose|i: int| 0 <= i < values.len() && (#[trigger] values[i]).0 == name;
        assert(option_members()[i] == name);
    }
    lemma_record(value, option_members());
}

/// A table of options is read back.
proof fn lemma_options_back(value: TomlView, options: Seq<(Seq<char>, OptionView)>)
    requires
        tidy(value),
        flat(value) == Tree::Table(options_map(options)),
        ascending(option_names(options)),
    ensures
        is_option_table(value),
        option_table(value->Table_0, 0) == options,
{
    let entries = value->Table_0;
    let table = option_table(entries, 0);
    assert forall|name: Seq<char>| true implies option_named(table, name) == #[trigger]
    option_named(options, name) && (entry_from(entries, name, 0) is Some ==> option_fits(
        entry_from(entries, name, 0)->Some_0,
    )) by {
        lemma_options_map(options, name);
        lemma_member(value, 0, name);
        lemma_option_table_lookup(entries, name, 0);
        if let Some(inner) = entry_from(entries, name, 0) {
            lemma_option_back(inner, option_named(options, name)->Some_0);
        }
    }
    assert forall|name: Seq<char>| entry_from(entries, name, 0) is Some implies option_fits(
        #[trigger] entry_from(entries, name, 0)->Some_0,
    ) by {
        assert(option_named(table, name) == option_named(options, name));
    }
    lemma_option_entries(value);
    lemma_option_table_ascends(entries, 0);
    assert forall|name: Seq<char>| #[trigger] option_named(table, name) == option_named(
        options,
        name,
    ) by {
        assert(option_named(options, name) == option_named(options, name));
    }
    lemma_option_tables_equal(table, options);
}

/// What each member of a manifest that was written out holds.
proof fn lemma_members_back(value: TomlView, spec: SpecView, i: int)
    requires
        flat(value) == Tree::Table(spec_entries(spec)),
        0 <= i < 15,
        i != 9,
    ensures
        flat_maybe(member(value, i, action_members()[i])) == spec_values(spec)[i].1,
{
    let values = spec_values(spec);
    lemma_spec_values(spec);
    lemma_filled(values);
    lemma_members_listed();
    lemma_action_name(i, 9);
    lemma_member(value, i, action_members()[i]);
    assert(entry_at(filled(values), values[i].0) == values[i].1);
}

/// A manifest that was written out reads as a record.
proof fn lemma_record_back(value: TomlView, spec: SpecView)
    requires
        flat(value) == Tree::Table(spec_entries(spec)),
    ensures
        is_record(value, action_members()),
{
    let values = spec_values(spec);
    lemma_spec_values(spec);
    lemma_filled(values);
    lemma_members_listed();
    assert forall|name: Seq<char>| #[trigger] flat_table(value).contains_key(
        name,
    ) implies action_members().contains(name) by {
        if filled(values).contains_key(name) {
            let i = choose|i: int| 0 <= i < values.len() && (#[trigger] values[i]).0 == name;
            assert(action_members()[i] == name);
        } else {
            assert(action_members()[9] == name);
        }
    }
    lemma_record(value, action_members());
}

/// A manifest that is written out of a declaration declares the same action.
pub proof fn law_written_declarations_are_read_back(spec: SpecView, text: Seq<char>)
    requires
        ascending(option_names(spec.options)),
        reads_as(text, Tree::Table(spec_entries(spec))),
    ensures
        toml_document(text) matches Ok(after) && action_fits(after) && action_from(after) == spec,
{
    let after = toml_document(text)->Ok_0;
    let values = spec_values(spec);
    lemma_members_listed();
    lemma_words();
    lemma_record_back(after, spec);
    assert forall|i: int| 0 <= i < 15 && i != 9 implies flat_maybe(
        member(after, i, #[trigger] action_members()[i]),
    ) == values[i].1 by {
        lemma_members_back(after, spec, i);
    }
    assert(flat_maybe(member(after, 0, action_members()[0])) == values[0].1);
    assert(flat_maybe(member(after, 1, action_members()[1])) == values[1].1);
    assert(flat_maybe(member(after, 2, action_members()[2])) == values[2].1);
    assert(flat_maybe(member(after, 3, action_members()[3])) == values[3].1);
    assert(flat_maybe(member(after, 4, action_members()[4])) == values[4].1);
    assert(flat_maybe(member(after, 5, action_members()[5])) == values[5].1);
    assert(flat_maybe(member(after, 6, action_members()[6])) == values[6].1);
    assert(flat_maybe(member(after, 7, action_members()[7])) == values[7].1);
    assert(flat_maybe(member(after, 8, action_members()[8])) == values[8].1);
    assert(flat_maybe(member(after, 10, action_members()[10])) == values[10].1);
    assert(flat_maybe(member(after, 11, action_members()[11])) == values[11].1);
    assert(flat_maybe(member(after, 12, action_members()[12])) == values[12].1);
    assert(flat_maybe(member(after, 13, action_members()[13])) == values[13].1);
    assert(flat_maybe(member(after, 14, action_members()[14])) == values[14].1);
    let words = spec.detects.map_values(|kind: Detect| detect_word(kind));
    let kinds = member(after, 7, "detects"@)->Some_0;
    lemma_list_back(kinds, words);
    assert forall|i: int| 0 <= i < words.len() implies detect_value(
        #[trigger] kinds->Array_0[i],
    ) == Some(spec.detects[i]) by {
        assert(words[i] == detect_word(spec.detects[i]));
    }
    assert(detect_list(kinds) =~= spec.detects);
    if let Some(argv) = spec.command {
        lemma_list_back(member(after, 11, "exec"@)->Some_0, argv);
    }
    lemma_member(after, 9, "options"@);
    if spec.options.len() > 0 {
        lemma_tidy_member(after, 9, "options"@);
        lemma_options_back(member(after, 9, "options"@)->Some_0, spec.options);
    } else {
        lemma_spec_values(spec);
        lemma_filled(values);
        assert(entry_at(filled(values), values[9].0) is None);
        assert(spec.options =~= Seq::empty());
    }
    assert(action_from(after).detects =~= spec.detects);
    assert(action_from(after).options =~= spec.options);
}

/// Each part of a declaration is written under its own name: what must be there
/// always, what may be left out only where it is given, and nothing else.
pub proof fn law_each_part_is_written_under_its_own_name(spec: SpecView)
    ensures
        ({
            let at = |name: Seq<char>| entry_at(spec_entries(spec), name);
            &&& at("id"@) == Some(Tree::Text(spec.id))
            &&& at("title"@) == Some(Tree::Text(spec.title))
            &&& at("order"@) == Some(Tree::Integer(spec.order as int))
            &&& at("stdin"@) == Some(Tree::Boolean(spec.stdin))
            &&& at("enabled"@) == Some(Tree::Boolean(spec.enabled))
            &&& spec.options.len() == 0 ==> at("options"@) is None
            &&& spec.options.len() > 0 ==> at("options"@) == Some(
                Tree::Table(options_map(spec.options)),
            )
            &&& match spec.icon {
                Some(icon) => at("icon"@) == Some(Tree::Text(icon)),
                None => at("icon"@) is None,
            }
            &&& match spec.label {
                Some(label) => at("label"@) == Some(Tree::Text(label)),
                None => at("label"@) is None,
            }
            &&& match spec.match_re {
                Some(pattern) => at("match"@) == Some(Tree::Text(pattern)),
                None => at("match"@) is None,
            }
            &&& match spec.not_match {
                Some(pattern) => at("not_match"@) == Some(Tree::Text(pattern)),
                None => at("not_match"@) is None,
            }
            &&& match spec.url {
                Some(url) => at("url"@) == Some(Tree::Text(url)),
                None => at("url"@) is None,
            }
            &&& match spec.builtin {
                Some(Builtin::Cut) => at("builtin"@) == Some(Tree::Text("cut"@)),
                Some(Builtin::Paste) => at("builtin"@) == Some(Tree::Text("paste"@)),
                None => at("builtin"@) is None,
            }
            &&& match spec.after {
                After::Ignore => at("after"@) == Some(Tree::Text("ignore"@)),
                After::Copy => at("after"@) == Some(Tree::Text("copy"@)),
                After::Replace => at("after"@) == Some(Tree::Text("replace"@)),
                After::Show => at("after"@) == Some(Tree::Text("show"@)),
            }
        }),
{
    let values = spec_values(spec);
    lemma_spec_values(spec);
    lemma_filled(values);
    lemma_members_listed();
    assert forall|i: int| 0 <= i < 15 && i != 9 implies entry_at(
        spec_entries(spec),
        (#[trigger] values[i]).0,
    ) == values[i].1 by {
        lemma_action_name(i, 9);
    }
    assert(values[0].0 == "id"@ && values[1].0 == "title"@ && values[2].0 == "icon"@);
    assert(values[3].0 == "label"@ && values[4].0 == "order"@ && values[5].0 == "match"@);
    assert(values[6].0 == "not_match"@ && values[8].0 == "builtin"@);
    assert(values[9].0 == "options"@ && values[10].0 == "url"@ && values[12].0 == "stdin"@);
    assert(values[13].0 == "after"@ && values[14].0 == "enabled"@);
}

/// The kinds that an action asks for and the words that it runs are written as
/// lists, one item for each, in order.
pub proof fn law_lists_are_written_item_by_item(spec: SpecView, i: int)
    ensures
        entry_at(spec_entries(spec), "detects"@) matches Some(Tree::Array(items)) && items.len()
            == spec.detects.len() && (0 <= i < items.len() ==> items[i] == Tree::Text(
            match spec.detects[i] {
                Detect::Url => "url"@,
                Detect::Email => "email"@,
                Detect::Path => "path"@,
                Detect::Phone => "phone"@,
                Detect::Color => "color"@,
            },
        )),
        match spec.command {
            Some(words) => entry_at(spec_entries(spec), "exec"@) matches Some(Tree::Array(items))
                && items.len() == words.len() && (0 <= i < items.len() ==> items[i] == Tree::Text(
                words[i],
            )),
            None => entry_at(spec_entries(spec), "exec"@) is None,
        },
{
    let values = spec_values(spec);
    lemma_spec_values(spec);
    lemma_filled(values);
    lemma_members_listed();
    assert forall|k: int| 0 <= k < 15 && k != 9 implies entry_at(
        spec_entries(spec),
        (#[trigger] values[k]).0,
    ) == values[k].1 by {
        lemma_action_name(k, 9);
    }
    assert(values[7].0 == "detects"@ && values[11].0 == "exec"@);
}

/// Each part of an option is written under its own name, beneath the name of the
/// option; a value only where one was chosen.
pub proof fn law_each_part_of_an_option_is_written_under_its_own_name(
    options: Seq<(Seq<char>, OptionView)>,
    i: int,
    k: int,
)
    requires
        ascending(option_names(options)),
        0 <= i < options.len(),
    ensures
        entry_at(options_map(options), options[i].0) matches Some(Tree::Table(parts)) && {
            let option = options[i].1;
            &&& entry_at(parts, "label"@) == Some(Tree::Text(option.label))
            &&& entry_at(parts, "default"@) == Some(Tree::Text(option.default))
            &&& match option.value {
                Some(value) => entry_at(parts, "value"@) == Some(Tree::Text(value)),
                None => entry_at(parts, "value"@) is None,
            }
            &&& (entry_at(parts, "choices"@) matches Some(Tree::Array(items)) && items.len()
                == option.choices.len() && (0 <= k < items.len() ==> items[k] == Tree::Text(
                option.choices[k],
            )))
        },
{
    let option = options[i].1;
    let values = option_values(option);
    reveal_strlit("label");
    reveal_strlit("default");
    reveal_strlit("choices");
    reveal_strlit("value");
    assert("label"@[0] == 'l' && "default"@[0] == 'd' && "choices"@[0] == 'c' && "value"@[0]
        == 'v');
    lemma_filled(values);
    assert(values[0].0 == "label"@ && values[1].0 == "default"@ && values[2].0 == "choices"@
        && values[3].0 == "value"@);
    lemma_options_map(options, options[i].0);
    lemma_option_found(options, i);
}

} // verus!
