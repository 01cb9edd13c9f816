//! TOML documents as plain values.
//!
//! The `toml` crate parses; what it found is copied into [`Toml`], a tree of
//! plain values, and everything that reads settings out of a document reads
//! them from there.

use toml::de::DeValue;
use vstd::prelude::*;

use crate::text::{owned, same_text};

verus! {

// ---------------------------------------------------------------------------
// The parser
// ---------------------------------------------------------------------------

/// A value as the `toml` crate's parser hands it out.
#[verifier::external_type_specification]
#[verifier::external_body]
pub struct ExDeValue<'i>(DeValue<'i>);

/// What the `toml` crate's parser makes of a document: the tree of its values,
/// or the message that says why it is not TOML.
pub uninterp spec fn toml_document(text: Seq<char>) -> Result<TomlView, Seq<char>>;

/// The tree of values that a parsed value holds.
pub uninterp spec fn toml_tree(value: DeValue<'_>) -> TomlView;

/// `toml::de::DeTable::parse`: reads a whole document. The outcome depends on
/// the text alone, and a document that parses is a table.
#[verifier::external_body]
fn parse_document<'i>(text: &'i str) -> (r: Result<DeValue<'i>, String>)
    ensures
        match r {
            Ok(value) => toml_document(text@) == Ok::<TomlView, Seq<char>>(toml_tree(value))
                && toml_tree(value) is Table,
            Err(message) => toml_document(text@) == Err::<TomlView, Seq<char>>(message@),
        },
{
    match toml::de::DeTable::parse(text) {
        Ok(table) => Ok(DeValue::Table(table.into_inner())),
        Err(e) => Err(e.to_string()),
    }
}

/// One level of a parsed value.
enum Node<'a, 'i> {
    Text(String),
    Integer(i128),
    Boolean(bool),
    Array(Vec<&'a DeValue<'i>>),
    Table(Vec<(String, &'a DeValue<'i>)>),
    Other,
}

/// The variants of `toml::de::DeValue`, one for one. An integer is handed over
/// as its digits and their radix; one that does not fit 128 bits counts as
/// `Other`, as floats and dates do. The names in a table are distinct.
#[verifier::external_body]
fn open_value<'a, 'i>(value: &'a DeValue<'i>) -> (r: Node<'a, 'i>)
    ensures
        toml_tree(*value) == (match r {
            Node::Text(s) => TomlView::Text(s@),
            Node::Integer(n) => TomlView::Integer(n as int),
            Node::Boolean(b) => TomlView::Boolean(b),
            Node::Array(items) => TomlView::Array(
                items@.map_values(|item: &DeValue<'i>| toml_tree(*item)),
            ),
            Node::Table(entries) => TomlView::Table(
                entries@.map_values(
                    |entry: (String, &DeValue<'i>)| (entry.0@, toml_tree(*entry.1)),
                ),
            ),
            Node::Other => TomlView::Other,
        }),
        r matches Node::Table(entries) ==> forall|i: int, j: int|
            0 <= i < j < entries@.len() ==> (#[trigger] entries@[i]).0@ != (
            #[trigger] entries@[j]).0@,
{
    match value {
        DeValue::String(s) => Node::Text(s.to_string()),
        DeValue::Integer(n) => match i128::from_str_radix(n.as_str(), n.radix()) {
            Ok(n) => Node::Integer(n),
            Err(_) => Node::Other,
        },
        DeValue::Boolean(b) => Node::Boolean(*b),
        DeValue::Array(a) => Node::Array(a.iter().map(|v| v.get_ref()).collect()),
        DeValue::Table(t) => Node::Table(
            t.iter().map(|(k, v)| (k.get_ref().to_string(), v.get_ref())).collect(),
        ),
        DeValue::Float(_) | DeValue::Datetime(_) => Node::Other,
    }
}

// ---------------------------------------------------------------------------
// The tree
// ---------------------------------------------------------------------------

/// A TOML value.
#[derive(Debug)]
pub enum Toml {
    Text(String),
    Integer(i128),
    Boolean(bool),
    Array(Vec<Toml>),
    Table(Vec<(String, Toml)>),
    /// A float or a date, which no setting takes, or a number beyond 128 bits.
    Other,
}

/// A TOML value in specifications.
pub enum TomlView {
    Text(Seq<char>),
    Integer(int),
    Boolean(bool),
    Array(Seq<TomlView>),
    Table(Seq<(Seq<char>, TomlView)>),
    Other,
}

/// What a value is in specifications.
pub open spec fn tree_of(value: Toml) -> TomlView
    decreases value,
{
    match value {
        Toml::Text(s) => TomlView::Text(s@),
        Toml::Integer(n) => TomlView::Integer(n as int),
        Toml::Boolean(b) => TomlView::Boolean(b),
        Toml::Array(items) => TomlView::Array(
            Seq::new(
                items@.len(),
                |i: int|
                    if 0 <= i < items@.len() {
                        tree_of(items@[i])
                    } else {
                        TomlView::Other
                    },
            ),
        ),
        Toml::Table(entries) => TomlView::Table(
            Seq::new(
                entries@.len(),
                |i: int|
                    if 0 <= i < entries@.len() {
                        (entries@[i].0@, tree_of(entries@[i].1))
                    } else {
                        (Seq::empty(), TomlView::Other)
                    },
            ),
        ),
        Toml::Other => TomlView::Other,
    }
}

impl View for Toml {
    type V = TomlView;

    open spec fn view(&self) -> TomlView {
        tree_of(*self)
    }
}

/// Whether no table in a value has two entries of one name.
pub open spec fn tidy(value: TomlView) -> bool
    decreases value,
{
    match value {
        TomlView::Array(items) => forall|i: int|
            0 <= i < items.len() ==> tidy(#[trigger] items[i]),
        TomlView::Table(entries) => {
            &&& forall|i: int, j: int|
                0 <= i < j < entries.len() ==> (#[trigger] entries[i]).0 != (
                #[trigger] entries[j]).0
            &&& forall|i: int| 0 <= i < entries.len() ==> tidy((#[trigger] entries[i]).1)
        },
        _ => true,
    }
}

/// Copies a parsed value into a tree.
fn convert<'i>(value: &DeValue<'i>) -> (r: Toml)
    ensures
        r@ == toml_tree(*value),
        tidy(r@),
    decreases toml_tree(*value),
{
    let ghost whole = toml_tree(*value);
    match open_value(value) {
        Node::Text(s) => Toml::Text(s),
        Node::Integer(n) => Toml::Integer(n),
        Node::Boolean(b) => Toml::Boolean(b),
        Node::Other => Toml::Other,
        Node::Array(items) => {
            let mut out: Vec<Toml> = Vec::new();
            for i in 0..items.len()
                invariant
                    whole == toml_tree(*value),
                    whole matches TomlView::Array(trees) && trees == items@.map_values(
                        |item: &DeValue<'i>| toml_tree(*item),
                    ),
                    out@.len() == i,
                    forall|k: int| 0 <= k < i ==> (#[trigger] out@[k])@ == toml_tree(*items@[k]),
                    forall|k: int| 0 <= k < i ==> tidy((#[trigger] out@[k])@),
            {
                assert(whole->Array_0[i as int] == toml_tree(*items@[i as int]));
                let item = convert(items[i]);
                out.push(item);
            }
            let ghost made = out@;
            let r = Toml::Array(out);
            assert(r@->Array_0 =~= whole->Array_0);
            assert forall|k: int| 0 <= k < made.len() implies tidy(#[trigger] r@->Array_0[k]) by {
                assert(r@->Array_0[k] == made[k]@);
            }
            r
        },
        Node::Table(entries) => {
            let mut out: Vec<(String, Toml)> = Vec::new();
            for i in 0..entries.len()
                invariant
                    whole == toml_tree(*value),
                    whole matches TomlView::Table(trees) && trees == entries@.map_values(
                        |entry: (String, &DeValue<'i>)| (entry.0@, toml_tree(*entry.1)),
                    ),
                    out@.len() == i,
                    forall|k: int|
                        0 <= k < i ==> (#[trigger] out@[k]).0@ == entries@[k].0@ && out@[k].1@
                            == toml_tree(*entries@[k].1) && tidy(out@[k].1@),
            {
                assert(whole->Table_0[i as int].1 == toml_tree(*entries@[i as int].1));
                let item = convert(entries[i].1);
                out.push((entries[i].0.clone(), item));
            }
            let ghost made = out@;
            let r = Toml::Table(out);
            assert(r@->Table_0 =~= whole->Table_0);
            proof {
                let views = r@->Table_0;
                assert forall|a: int, b: int| 0 <= a < b < views.len() implies (
                #[trigger] views[a]).0 != (#[trigger] views[b]).0 by {
                    assert(views[a].0 == entries@[a].0@);
                    assert(views[b].0 == entries@[b].0@);
                }
                assert forall|a: int| 0 <= a < views.len() implies tidy(
                    (#[trigger] views[a]).1,
                ) by {
                    assert(views[a].1 == made[a].1@);
                }
            }
            r
        },
    }
}

/// Parses a whole document, which is a table, or says why it is not TOML.
pub fn read_document(text: &str) -> (r: Result<Toml, String>)
    ensures
        match r {
            Ok(doc) => toml_document(text@) == Ok::<TomlView, Seq<char>>(doc@) && doc@ is Table
                && tidy(doc@),
            Err(message) => toml_document(text@) == Err::<TomlView, Seq<char>>(message@),
        },
{
    match parse_document(text) {
        Ok(value) => Ok(convert(&value)),
        Err(message) => Err(message),
    }
}

// ---------------------------------------------------------------------------
// Reading settings out of a tree
// ---------------------------------------------------------------------------

/// The first position at or after `from` of the entry called `name`.
pub open spec fn entry_from(
    entries: Seq<(Seq<char>, TomlView)>,
    name: Seq<char>,
    from: int,
) -> Option<TomlView>
    decreases entries.len() - from,
{
    if from < 0 || from >= entries.len() {
        None
    } else if entries[from].0 == name {
        Some(entries[from].1)
    } else {
        entry_from(entries, name, from + 1)
    }
}

/// The value of one member of a record. A record is written as a table, whose
/// entries are named, or as an array, whose items are the members in order.
pub open spec fn member(record: TomlView, position: int, name: Seq<char>) -> Option<TomlView> {
    match record {
        TomlView::Table(entries) => entry_from(entries, name, 0),
        TomlView::Array(items) => if 0 <= position < items.len() {
            Some(items[position])
        } else {
            None
        },
        _ => None,
    }
}

/// Whether a value can be read as a record whose members are called `names`:
/// an array, or a table without any other entry.
pub open spec fn is_record(value: TomlView, names: Seq<Seq<char>>) -> bool {
    match value {
        TomlView::Table(entries) => forall|i: int|
            0 <= i < entries.len() ==> names.contains((#[trigger] entries[i]).0),
        TomlView::Array(_) => true,
        _ => false,
    }
}

/// The contents of each name in a list.
pub open spec fn names_of(names: Seq<&str>) -> Seq<Seq<char>> {
    names.map_values(|name: &str| name@)
}

/// Whether an optional member is absent or a text.
pub open spec fn text_fits(m: Option<TomlView>) -> bool {
    m matches Some(v) ==> v is Text
}

/// The text of a member that is one.
pub open spec fn text_of(m: Option<TomlView>) -> Option<Seq<char>> {
    match m {
        Some(TomlView::Text(t)) => Some(t),
        _ => None,
    }
}

/// The text of a member, empty if it is absent.
pub open spec fn text_or_empty(m: Option<TomlView>) -> Seq<char> {
    match text_of(m) {
        Some(t) => t,
        None => Seq::empty(),
    }
}

/// Whether an optional member is absent or a truth value.
pub open spec fn flag_fits(m: Option<TomlView>) -> bool {
    m matches Some(v) ==> v is Boolean
}

/// The truth value of a member, `default` if it is absent.
pub open spec fn flag_or(m: Option<TomlView>, default: bool) -> bool {
    match m {
        Some(TomlView::Boolean(b)) => b,
        _ => default,
    }
}

/// Whether an optional member is absent or an integer from `low` to `high`.
pub open spec fn number_fits(m: Option<TomlView>, low: int, high: int) -> bool {
    m matches Some(v) ==> (v matches TomlView::Integer(n) && low <= n <= high)
}

/// The integer of a member, `default` if it is absent.
pub open spec fn number_or(m: Option<TomlView>, default: int) -> int {
    match m {
        Some(TomlView::Integer(n)) => n,
        _ => default,
    }
}

/// Whether a value is a list of texts.
pub open spec fn is_text_list(value: TomlView) -> bool {
    value matches TomlView::Array(items) && forall|i: int|
        0 <= i < items.len() ==> (#[trigger] items[i]) is Text
}

/// The texts of a list of texts.
pub open spec fn text_list(value: TomlView) -> Seq<Seq<char>> {
    value->Array_0.map_values(|item: TomlView| item->Text_0)
}

/// Whether an optional member is absent or a list of texts.
pub open spec fn texts_fit(m: Option<TomlView>) -> bool {
    m matches Some(v) ==> is_text_list(v)
}

/// The texts of a member, none if it is absent.
pub open spec fn texts_or_none(m: Option<TomlView>) -> Seq<Seq<char>> {
    match m {
        Some(v) => text_list(v),
        None => Seq::empty(),
    }
}

/// Whether a value is an empty array or an empty table.
pub open spec fn is_hollow(value: TomlView) -> bool {
    match value {
        TomlView::Array(items) => items.len() == 0,
        TomlView::Table(entries) => entries.len() == 0,
        _ => false,
    }
}

/// The name by which a value picks one of several alternatives: a text, or a
/// table with that name as its only entry and nothing in it.
pub open spec fn choice_of(value: TomlView) -> Option<Seq<char>> {
    match value {
        TomlView::Text(t) => Some(t),
        TomlView::Table(entries) => if entries.len() == 1 && is_hollow(entries[0].1) {
            Some(entries[0].0)
        } else {
            None
        },
        _ => None,
    }
}

/// The view of an optional value.
pub open spec fn seen(m: Option<&Toml>) -> Option<TomlView> {
    match m {
        Some(v) => Some(v@),
        None => None,
    }
}

/// The member of a record.
pub fn member_of<'a>(record: &'a Toml, position: usize, name: &str) -> (r: Option<&'a Toml>)
    ensures
        seen(r) == member(record@, position as int, name@),
{
    match record {
        Toml::Table(entries) => {
            let ghost views = record@->Table_0;
            for i in 0..entries.len()
                invariant
                    record@ == TomlView::Table(views),
                    views.len() == entries@.len(),
                    forall|k: int|
                        0 <= k < views.len() ==> #[trigger] views[k] == (
                            entries@[k].0@,
                            entries@[k].1@,
                        ),
                    entry_from(views, name@, 0) == entry_from(views, name@, i as int),
            {
                if same_text(entries[i].0.as_str(), name) {
                    return Some(&entries[i].1);
                }
            }
            None
        },
        Toml::Array(items) => if position < items.len() {
            Some(&items[position])
        } else {
            None
        },
        _ => None,
    }
}

/// Whether `name` is one of `names`.
pub fn is_one_of(name: &str, names: &Vec<&str>) -> (r: bool)
    ensures
        r == names_of(names@).contains(name@),
{
    for i in 0..names.len()
        invariant
            forall|k: int| 0 <= k < i ==> names@[k]@ != name@,
    {
        if same_text(names[i], name) {
            assert(names_of(names@)[i as int] == name@);
            return true;
        }
    }
    assert forall|k: int| 0 <= k < names_of(names@).len() implies names_of(names@)[k] != name@ by {
        assert(names@[k]@ != name@);
    }
    false
}

/// Whether a value can be read as a record with the given members.
pub fn reads_as_record(value: &Toml, names: &Vec<&str>) -> (r: bool)
    ensures
        r == is_record(value@, names_of(names@)),
{
    match value {
        Toml::Table(entries) => {
            let ghost views = value@->Table_0;
            for i in 0..entries.len()
                invariant
                    value@ == TomlView::Table(views),
                    views.len() == entries@.len(),
                    forall|k: int|
                        0 <= k < views.len() ==> (#[trigger] views[k]).0 == entries@[k].0@,
                    forall|k: int|
                        0 <= k < i ==> names_of(names@).contains((#[trigger] views[k]).0),
            {
                if !is_one_of(entries[i].0.as_str(), names) {
                    assert(!is_record(value@, names_of(names@))) by {
                        if is_record(value@, names_of(names@)) {
                            assert(names_of(names@).contains(value@->Table_0[i as int].0));
                        }
                    }
                    return false;
                }
            }
            true
        },
        Toml::Array(_) => true,
        _ => false,
    }
}

/// Reads a member that must be a text if it is there.
pub fn read_text(m: Option<&Toml>) -> (r: Option<Option<String>>)
    ensures
        r is Some <==> text_fits(seen(m)),
        r matches Some(t) ==> crate::text::maybe_text(t) == text_of(seen(m)),
{
    match m {
        None => Some(None),
        Some(Toml::Text(t)) => Some(Some(t.clone())),
        Some(_) => None,
    }
}

/// Reads a member that must be a truth value if it is there.
pub fn read_flag(m: Option<&Toml>, default: bool) -> (r: Option<bool>)
    ensures
        r is Some <==> flag_fits(seen(m)),
        r matches Some(b) ==> b == flag_or(seen(m), default),
{
    match m {
        None => Some(default),
        Some(Toml::Boolean(b)) => Some(*b),
        Some(_) => None,
    }
}

/// Reads a member that must be an integer from `low` to `high` if it is there.
pub fn read_number(m: Option<&Toml>, low: i128, high: i128, default: i128) -> (r: Option<i128>)
    ensures
        r is Some <==> number_fits(seen(m), low as int, high as int),
        r matches Some(n) ==> n == number_or(seen(m), default as int) && (m is Some ==> low <= n
            <= high),
{
    match m {
        None => Some(default),
        Some(Toml::Integer(n)) => if low <= *n && *n <= high {
            Some(*n)
        } else {
            None
        },
        Some(_) => None,
    }
}

/// Reads a list of texts.
pub fn read_text_list(value: &Toml) -> (r: Option<Vec<String>>)
    ensures
        r is Some <==> is_text_list(value@),
        r matches Some(list) ==> crate::text::texts(list@) == text_list(value@),
{
    match value {
        Toml::Array(items) => {
            let ghost views = value@->Array_0;
            let mut out: Vec<String> = Vec::new();
            for i in 0..items.len()
                invariant
                    value@ == TomlView::Array(views),
                    views.len() == items@.len(),
                    forall|k: int| 0 <= k < views.len() ==> #[trigger] views[k] == items@[k]@,
                    out@.len() == i,
                    forall|k: int|
                        0 <= k < i ==> #[trigger] views[k] == TomlView::Text(out@[k]@),
            {
                match &items[i] {
                    Toml::Text(t) => {
                        out.push(t.clone());
                    },
                    _ => {
                        assert(!(views[i as int] is Text));
                        return None;
                    },
                }
            }
            assert(crate::text::texts(out@) =~= text_list(value@));
            Some(out)
        },
        _ => None,
    }
}

/// Reads a member that must be a list of texts if it is there.
pub fn read_texts(m: Option<&Toml>) -> (r: Option<Vec<String>>)
    ensures
        r is Some <==> texts_fit(seen(m)),
        r matches Some(list) ==> crate::text::texts(list@) == texts_or_none(seen(m)),
{
    match m {
        None => {
            let out: Vec<String> = Vec::new();
            assert(crate::text::texts(out@) =~= Seq::<Seq<char>>::empty());
            Some(out)
        },
        Some(value) => read_text_list(value),
    }
}

/// Reads the name of an alternative.
pub fn read_choice(value: &Toml) -> (r: Option<String>)
    ensures
        crate::text::maybe_text(r) == choice_of(value@),
{
    match value {
        Toml::Text(t) => Some(t.clone()),
        Toml::Table(entries) => {
            if entries.len() != 1 {
                return None;
            }
            let hollow = match &entries[0].1 {
                Toml::Array(items) => items.len() == 0,
                Toml::Table(inner) => inner.len() == 0,
                _ => false,
            };
            assert(hollow == is_hollow(entries@[0].1@));
            if hollow {
                Some(entries[0].0.clone())
            } else {
                None
            }
        },
        _ => None,
    }
}

// ---------------------------------------------------------------------------
// Saying what does not fit
// ---------------------------------------------------------------------------

/// What keeps a document from being read, and the path of the member that it
/// is about.
#[derive(Debug, PartialEq, Eq)]
pub enum Misfit {
    /// A member that is not known.
    Unknown(String),
    /// A member that must be there and is not.
    Missing(String),
    /// A member that holds something of the wrong kind.
    Wrong(String),
}

/// What does not fit, in specifications.
pub enum MisfitView {
    Unknown(Seq<char>),
    Missing(Seq<char>),
    Wrong(Seq<char>),
}

impl View for Misfit {
    type V = MisfitView;

    open spec fn view(&self) -> MisfitView {
        match self {
            Misfit::Unknown(path) => MisfitView::Unknown(path@),
            Misfit::Missing(path) => MisfitView::Missing(path@),
            Misfit::Wrong(path) => MisfitView::Wrong(path@),
        }
    }
}

/// What a misfit says to the user.
pub open spec fn misfit_text(misfit: MisfitView) -> Seq<char> {
    match misfit {
        MisfitView::Unknown(path) => "unknown member `"@ + path + "`"@,
        MisfitView::Missing(path) => "missing member `"@ + path + "`"@,
        MisfitView::Wrong(path) => "member `"@ + path + "` holds something of the wrong kind"@,
    }
}

impl Misfit {
    /// What to say to the user.
    pub fn message(&self) -> (r: String)
        ensures
            r@ == misfit_text(self@),
    {
        match self {
            Misfit::Unknown(path) => {
                let mut out = owned("unknown member `");
                out.append(path.as_str());
                out.append("`");
                out
            },
            Misfit::Missing(path) => {
                let mut out = owned("missing member `");
                out.append(path.as_str());
                out.append("`");
                out
            },
            Misfit::Wrong(path) => {
                let mut out = owned("member `");
                out.append(path.as_str());
                out.append("` holds something of the wrong kind");
                out
            },
        }
    }
}

/// The path of a member of what stands at `outer`, which is empty for the
/// document itself.
pub open spec fn path_to(outer: Seq<char>, name: Seq<char>) -> Seq<char> {
    if outer.len() == 0 {
        name
    } else {
        outer + "."@ + name
    }
}

/// Makes the path of a member.
pub fn join_path(outer: &str, name: &str) -> (r: String)
    ensures
        r@ == path_to(outer@, name@),
{
    if outer.is_empty() {
        owned(name)
    } else {
        let mut out = owned(outer);
        out.append(".");
        out.append(name);
        out
    }
}

/// The first entry at or after `from` that is none of `names`.
pub open spec fn stranger_from(
    entries: Seq<(Seq<char>, TomlView)>,
    names: Seq<Seq<char>>,
    from: int,
) -> Option<Seq<char>>
    decreases entries.len() - from,
{
    if from < 0 || from >= entries.len() {
        None
    } else if !names.contains(entries[from].0) {
        Some(entries[from].0)
    } else {
        stranger_from(entries, names, from + 1)
    }
}

/// What keeps a value at a path from being read as a record.
pub open spec fn record_misfit(
    value: TomlView,
    names: Seq<Seq<char>>,
    path: Seq<char>,
) -> Option<MisfitView> {
    match value {
        TomlView::Table(entries) => match stranger_from(entries, names, 0) {
            Some(name) => Some(MisfitView::Unknown(path_to(path, name))),
            None => None,
        },
        TomlView::Array(_) => None,
        _ => Some(MisfitView::Wrong(path)),
    }
}

/// The view of an optional misfit.
pub open spec fn maybe_misfit(misfit: Option<Misfit>) -> Option<MisfitView> {
    match misfit {
        Some(misfit) => Some(misfit@),
        None => None,
    }
}

/// Finds what keeps a value at a path from being read as a record.
pub fn find_record_misfit(value: &Toml, names: &Vec<&str>, path: &str) -> (r: Option<Misfit>)
    ensures
        maybe_misfit(r) == record_misfit(value@, names_of(names@), path@),
        r is None <==> is_record(value@, names_of(names@)),
{
    match value {
        Toml::Table(entries) => {
            let ghost views = value@->Table_0;
            for i in 0..entries.len()
                invariant
                    value@ == TomlView::Table(views),
                    views.len() == entries@.len(),
                    forall|k: int|
                        0 <= k < views.len() ==> (#[trigger] views[k]).0 == entries@[k].0@,
                    forall|k: int|
                        0 <= k < i ==> names_of(names@).contains((#[trigger] views[k]).0),
                    stranger_from(views, names_of(names@), 0) == stranger_from(
                        views,
                        names_of(names@),
                        i as int,
                    ),
            {
                let name = entries[i].0.as_str();
                assert(views[i as int].0 == name@);
                if !is_one_of(name, names) {
                    return Some(Misfit::Unknown(join_path(path, name)));
                }
            }
            None
        },
        Toml::Array(_) => None,
        _ => Some(Misfit::Wrong(owned(path))),
    }
}

// ---------------------------------------------------------------------------
// What reading promises
// ---------------------------------------------------------------------------

/// The member of a table is its first entry of that name; the member of an array
/// is the item at its position.
pub proof fn law_members_go_by_name_or_position(
    entries: Seq<(Seq<char>, TomlView)>,
    items: Seq<TomlView>,
    position: int,
    name: Seq<char>,
    i: int,
)
    requires
        0 <= i <= entries.len(),
        forall|k: int| 0 <= k < i ==> (#[trigger] entries[k]).0 != name,
        i < entries.len() ==> entries[i].0 == name,
    ensures
        i < entries.len() ==> member(TomlView::Table(entries), position, name) == Some(
            entries[i].1,
        ),
        i == entries.len() ==> member(TomlView::Table(entries), position, name) is None,
        0 <= position < items.len() ==> member(TomlView::Array(items), position, name) == Some(
            items[position],
        ),
        items.len() <= position ==> member(TomlView::Array(items), position, name) is None,
{
    lemma_entry_search(entries, name, 0, i);
}

/// A search finds the first entry of a name.
proof fn lemma_entry_search(
    entries: Seq<(Seq<char>, TomlView)>,
    name: Seq<char>,
    from: int,
    i: int,
)
    requires
        0 <= from <= i <= entries.len(),
        forall|k: int| from <= k < i ==> (#[trigger] entries[k]).0 != name,
        i < entries.len() ==> entries[i].0 == name,
    ensures
        entry_from(entries, name, from) == (if i < entries.len() {
            Some(entries[i].1)
        } else {
            None
        }),
    decreases i - from,
{
    if from < i {
        assert(entries[from].0 != name);
        lemma_entry_search(entries, name, from + 1, i);
    }
}

/// A text, a truth value or an integer is read as what it is, and as nothing
/// else. What is not there takes its default.
pub proof fn law_scalars_are_read_as_they_are(
    t: Seq<char>,
    b: bool,
    n: int,
    low: int,
    high: int,
    default: int,
    off: bool,
)
    ensures
        text_fits(Some(TomlView::Text(t))) && text_of(Some(TomlView::Text(t))) == Some(t),
        text_fits(None) && text_of(None) is None && text_or_empty(None).len() == 0,
        text_or_empty(Some(TomlView::Text(t))) == t,
        !text_fits(Some(TomlView::Integer(n))) && !text_fits(Some(TomlView::Boolean(b))),
        flag_fits(Some(TomlView::Boolean(b))) && flag_or(Some(TomlView::Boolean(b)), off) == b,
        flag_fits(None) && flag_or(None, off) == off,
        !flag_fits(Some(TomlView::Integer(n))) && !flag_fits(Some(TomlView::Text(t))),
        number_fits(Some(TomlView::Integer(n)), low, high) <==> low <= n && n <= high,
        number_or(Some(TomlView::Integer(n)), default) == n,
        number_fits(None, low, high) && number_or(None, default) == default,
        !number_fits(Some(TomlView::Text(t)), low, high),
        !number_fits(Some(TomlView::Boolean(b)), low, high),
        !text_fits(Some(TomlView::Other)) && !flag_fits(Some(TomlView::Other)) && !number_fits(
            Some(TomlView::Other),
            low,
            high,
        ),
{
}

/// An array of texts is read item by item, and an array with anything else in it
/// is none.
pub proof fn law_lists_of_texts_are_read_item_by_item(items: Seq<TomlView>, i: int)
    requires
        0 <= i < items.len(),
    ensures
        !(items[i] is Text) ==> !texts_fit(Some(TomlView::Array(items))),
        (forall|k: int| 0 <= k < items.len() ==> (#[trigger] items[k]) is Text) ==> {
            let list = texts_or_none(Some(TomlView::Array(items)));
            &&& texts_fit(Some(TomlView::Array(items)))
            &&& list.len() == items.len()
            &&& items[i] == TomlView::Text(list[i])
        },
        texts_fit(None) && texts_or_none(None).len() == 0,
{
}

/// A table with an entry that is no member is not a record, and one whose entries
/// are all members is.
pub proof fn law_records_hold_known_members_only(
    entries: Seq<(Seq<char>, TomlView)>,
    names: Seq<Seq<char>>,
    i: int,
)
    ensures
        0 <= i < entries.len() && !names.contains(entries[i].0) ==> !is_record(
            TomlView::Table(entries),
            names,
        ),
        (forall|k: int| 0 <= k < entries.len() ==> names.contains((#[trigger] entries[k]).0))
            ==> is_record(TomlView::Table(entries), names),
{
    let table = TomlView::Table(entries);
    if 0 <= i < entries.len() && is_record(table, names) {
        assert(names.contains(table->Table_0[i].0));
    }
}

/// The words for a misfit name the member and say what is wrong with it.
pub proof fn law_misfits_name_the_member(path: Seq<char>, name: Seq<char>)
    ensures
        misfit_text(MisfitView::Unknown(path)) == "unknown member `"@ + path + "`"@,
        misfit_text(MisfitView::Missing(path)) == "missing member `"@ + path + "`"@,
        misfit_text(MisfitView::Wrong(path)) == "member `"@ + path
            + "` holds something of the wrong kind"@,
        path_to(Seq::empty(), name) == name,
        path.len() > 0 ==> path_to(path, name) == path + "."@ + name,
{
}

/// Of several strangers in a table, the first is named.
pub proof fn law_the_first_stranger_is_named(
    entries: Seq<(Seq<char>, TomlView)>,
    names: Seq<Seq<char>>,
    path: Seq<char>,
    i: int,
)
    requires
        0 <= i < entries.len(),
        forall|k: int| 0 <= k < i ==> names.contains((#[trigger] entries[k]).0),
        !names.contains(entries[i].0),
    ensures
        record_misfit(TomlView::Table(entries), names, path) == Some(
            MisfitView::Unknown(path_to(path, entries[i].0)),
        ),
{
    lemma_stranger_search(entries, names, 0, i);
}

/// A search finds the first stranger.
proof fn lemma_stranger_search(
    entries: Seq<(Seq<char>, TomlView)>,
    names: Seq<Seq<char>>,
    from: int,
    i: int,
)
    requires
        0 <= from <= i < entries.len(),
        forall|k: int| from <= k < i ==> names.contains((#[trigger] entries[k]).0),
        !names.contains(entries[i].0),
    ensures
        stranger_from(entries, names, from) == Some(entries[i].0),
    decreases i - from,
{
    if from < i {
        assert(names.contains(entries[from].0));
        lemma_stranger_search(entries, names, from + 1, i);
    }
}

/// A value is what it is: a text, a number, a flag, a list of its items in order
/// or a table of its entries in order.
pub proof fn law_values_are_what_they_are(value: Toml, i: int)
    ensures
        value matches Toml::Text(s) ==> value@ == TomlView::Text(s@),
        value matches Toml::Integer(n) ==> value@ == TomlView::Integer(n as int),
        value matches Toml::Boolean(b) ==> value@ == TomlView::Boolean(b),
        value matches Toml::Array(items) ==> (value@ matches TomlView::Array(trees) && trees.len()
            == items@.len() && (0 <= i < trees.len() ==> trees[i] == items@[i]@)),
        value matches Toml::Table(entries) ==> (value@ matches TomlView::Table(trees)
            && trees.len() == entries@.len() && (0 <= i < trees.len() ==> trees[i] == (
            entries@[i].0@,
            entries@[i].1@,
        ))),
        value is Other ==> value@ == TomlView::Other,
{
}

} // verus!
