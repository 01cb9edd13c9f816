//! TOML documents that are changed in place.
//!
//! The `toml_edit` crate keeps comments and formatting; this module says what a
//! change does to the values a document holds.

use toml_edit::{DocumentMut, Item};
use vstd::multiset::Multiset;
use vstd::prelude::*;

#[allow(unused_imports)]
use crate::{
    document::{entry_from, tidy, toml_document, TomlView},
    text::texts,
};

verus! {

// ---------------------------------------------------------------------------
// What a document holds
// ---------------------------------------------------------------------------

/// A TOML value whose tables have no order.
#[verifier::ext_equal]
pub enum Tree {
    Text(Seq<char>),
    Integer(int),
    Boolean(bool),
    Array(Seq<Tree>),
    Table(Map<Seq<char>, Tree>),
    Other,
}

/// A value without the order of its tables.
pub open spec fn flat(value: TomlView) -> Tree
    decreases value, 0int,
{
    match value {
        TomlView::Text(t) => Tree::Text(t),
        TomlView::Integer(n) => Tree::Integer(n),
        TomlView::Boolean(b) => Tree::Boolean(b),
        TomlView::Array(items) => Tree::Array(
            Seq::new(
                items.len(),
                |i: int|
                    if 0 <= i < items.len() {
                        flat(items[i])
                    } else {
                        Tree::Other
                    },
            ),
        ),
        TomlView::Table(entries) => Tree::Table(flat_entries(entries, 0)),
        TomlView::Other => Tree::Other,
    }
}

/// The entries from `from` on, without their order.
pub open spec fn flat_entries(entries: Seq<(Seq<char>, TomlView)>, from: int) -> Map<
    Seq<char>,
    Tree,
>
    decreases entries, entries.len() - from,
{
    if from < 0 || from >= entries.len() {
        Map::empty()
    } else {
        flat_entries(entries, from + 1).insert(entries[from].0, flat(entries[from].1))
    }
}

/// Looking a name up is the same with and without the order.
pub proof fn lemma_flat_entries(entries: Seq<(Seq<char>, TomlView)>, name: Seq<char>, from: int)
    requires
        0 <= from <= entries.len(),
    ensures
        match entry_from(entries, name, from) {
            Some(value) => flat_entries(entries, from).contains_key(name) && flat_entries(
                entries,
                from,
            )[name] == flat(value),
            None => !flat_entries(entries, from).contains_key(name),
        },
    decreases entries.len() - from,
{
    if from < entries.len() {
        lemma_flat_entries(entries, name, from + 1);
    }
}

// ---------------------------------------------------------------------------
// The editor
// ---------------------------------------------------------------------------

/// An editable document of the `toml_edit` crate.
#[verifier::external_type_specification]
#[verifier::external_body]
pub struct ExDocumentMut(DocumentMut);

/// An item of an editable document.
#[verifier::external_type_specification]
#[verifier::external_body]
pub struct ExItem(Item);

/// What the `toml_edit` crate's parser makes of a text: the values it holds, or
/// the message that says why it is not TOML.
pub uninterp spec fn editable_document(text: Seq<char>) -> Result<Tree, Seq<char>>;

/// The comments that the `toml_edit` crate's parser finds before a key, before
/// the header of a table, or before the end of a text.
pub uninterp spec fn notes_in(text: Seq<char>) -> Multiset<Seq<char>>;

/// The comments that the `toml_edit` crate's parser finds on the line of a value
/// or of the header of a table, behind it, by the names that lead there. What
/// stands inside an inline table or an array is left out.
pub uninterp spec fn remarks_in(text: Seq<char>) -> Map<Seq<Seq<char>>, Seq<char>>;

/// The values that an editable document holds.
pub uninterp spec fn document_tree(doc: DocumentMut) -> Tree;

/// The comments before a key, before the header of a table, or before the end
/// of an editable document.
pub uninterp spec fn document_notes(doc: DocumentMut) -> Multiset<Seq<char>>;

/// The comments behind a value or the header of a table of an editable document,
/// by the names that lead there. What stands inside an inline table or an array
/// is left out.
pub uninterp spec fn document_remarks(doc: DocumentMut) -> Map<Seq<Seq<char>>, Seq<char>>;

/// Whether an editable document came from the parser and was changed only by
/// putting plain values under names.
pub uninterp spec fn sound(doc: DocumentMut) -> bool;

/// The value of an item of an editable document.
pub uninterp spec fn item_tree(item: Item) -> Tree;

/// Whether an item was made of a plain value.
pub uninterp spec fn plain_item(item: Item) -> bool;

/// Whether a value is in reach of both parsers: `toml_edit` keeps integers of
/// 64 bits only, and turns floats that are too large away.
pub open spec fn modest(value: TomlView) -> bool
    decreases value,
{
    match value {
        TomlView::Text(_) => true,
        TomlView::Integer(n) => i64::MIN <= n <= i64::MAX,
        TomlView::Boolean(_) => true,
        TomlView::Array(items) => forall|i: int|
            0 <= i < items.len() ==> modest(#[trigger] items[i]),
        TomlView::Table(entries) => forall|i: int|
            0 <= i < entries.len() ==> modest((#[trigger] entries[i]).1),
        TomlView::Other => false,
    }
}

/// `<toml_edit::DocumentMut as FromStr>::from_str`: reads a whole document,
/// whose root is a table. The outcome depends on the text alone. Where the
/// `toml` crate reads the text too, both find the same values, and where it
/// finds neither floats nor dates nor integers beyond 64 bits, this reads it. An
/// empty text is a document without entries.
#[verifier::external_body]
fn parse_editable(text: &str) -> (r: Result<DocumentMut, String>)
    ensures
        match r {
            Ok(doc) => {
                &&& editable_document(text@) == Ok::<Tree, Seq<char>>(document_tree(doc))
                &&& document_tree(doc) is Table
                &&& document_notes(doc) == notes_in(text@)
                &&& document_remarks(doc) == remarks_in(text@)
                &&& sound(doc)
                &&& toml_document(text@) matches Ok(value) ==> flat(value) == document_tree(doc)
            },
            Err(message) => editable_document(text@) == Err::<Tree, Seq<char>>(message@),
        },
        (toml_document(text@) matches Ok(value) && modest(value)) ==> r is Ok,
        text@.len() == 0 ==> r is Ok && document_tree(r->Ok_0) == Tree::Table(Map::empty()),
{
    match text.parse::<DocumentMut>() {
        Ok(doc) => Ok(doc),
        Err(e) => Err(e.to_string()),
    }
}

/// `<toml_edit::DocumentMut as Display>::fmt`: writes a document out. The
/// `toml` crate reads the values back that the document holds, and the comments
/// before a key, a header or the end and those behind a value or a header are
/// all written. White space, the order of the entries, and comments inside an
/// inline table or an array are not spoken of.
#[verifier::external_body]
fn render(doc: &DocumentMut) -> (r: String)
    requires
        sound(*doc),
    ensures
        toml_document(r@) is Ok,
        tidy(toml_document(r@)->Ok_0),
        flat(toml_document(r@)->Ok_0) == document_tree(*doc),
        notes_in(r@) == document_notes(*doc),
        remarks_in(r@) == document_remarks(*doc),
{
    doc.to_string()
}

/// The entries at a place that is empty or a table.
pub open spec fn entries_at(tree: Option<Tree>) -> Map<Seq<char>, Tree> {
    match tree {
        Some(Tree::Table(entries)) => entries,
        _ => Map::empty(),
    }
}

/// The value of a name among entries, if there is one.
pub open spec fn entry_at(entries: Map<Seq<char>, Tree>, name: Seq<char>) -> Option<Tree> {
    if entries.contains_key(name) {
        Some(entries[name])
    } else {
        None
    }
}

/// Whether a value holds no table.
pub open spec fn is_flat(tree: Tree) -> bool {
    match tree {
        Tree::Table(_) => false,
        Tree::Array(items) => forall|i: int|
            0 <= i < items.len() ==> !((#[trigger] items[i]) is Table || items[i] is Array),
        _ => true,
    }
}

/// Whether a place is empty or holds no table, so that no comment goes with
/// what stands there.
pub open spec fn plain_place(place: Option<Tree>) -> bool {
    place matches Some(tree) ==> is_flat(tree)
}

/// The value at an optional item.
spec fn maybe_tree(item: Option<&Item>) -> Option<Tree> {
    match item {
        Some(item) => Some(item_tree(*item)),
        None => None,
    }
}

/// `toml_edit::Table::get`, of the root of a document: the item under a name.
#[verifier::external_body]
fn top_item<'a>(doc: &'a DocumentMut, name: &str) -> (r: Option<&'a Item>)
    requires
        sound(*doc),
    ensures
        maybe_tree(r) == entry_at(entries_at(Some(document_tree(*doc))), name@),
{
    doc.get(name)
}

/// `toml_edit::Item::get`: the item under a name of a table. Anything but a
/// table has none.
#[verifier::external_body]
fn inner_item<'a>(item: &'a Item, name: &str) -> (r: Option<&'a Item>)
    ensures
        maybe_tree(r) == entry_at(entries_at(Some(item_tree(*item))), name@),
{
    item.get(name)
}

/// `toml_edit::Item::is_table_like`: whether an item is a table, inline or not.
#[verifier::external_body]
fn is_table(item: &Item) -> (r: bool)
    ensures
        r == (item_tree(*item) is Table),
{
    item.is_table_like()
}

/// `toml_edit::Item::as_integer`: the integer that an item is, if it is one.
#[verifier::external_body]
fn integer_of(item: &Item) -> (r: Option<i64>)
    ensures
        match r {
            Some(n) => item_tree(*item) == Tree::Integer(n as int),
            None => !(item_tree(*item) is Integer),
        },
{
    item.as_integer()
}

/// A value to put into a document.
#[derive(Debug, PartialEq, Eq)]
pub enum Scalar {
    Integer(i64),
    Boolean(bool),
    Text(String),
    Texts(Vec<String>),
}

/// A value to put into a document, in specifications.
pub open spec fn scalar_tree(value: Scalar) -> Tree {
    match value {
        Scalar::Integer(n) => Tree::Integer(n as int),
        Scalar::Boolean(b) => Tree::Boolean(b),
        Scalar::Text(t) => Tree::Text(t@),
        Scalar::Texts(list) => Tree::Array(
            texts(list@).map_values(|t: Seq<char>| Tree::Text(t)),
        ),
    }
}

/// `toml_edit::value`: a value as it is put into a document.
#[verifier::external_body]
fn item_of(value: Scalar) -> (r: Item)
    ensures
        item_tree(r) == scalar_tree(value),
        plain_item(r),
{
    match value {
        Scalar::Integer(n) => toml_edit::value(n),
        Scalar::Boolean(b) => toml_edit::value(b),
        Scalar::Text(t) => toml_edit::value(t),
        Scalar::Texts(list) => toml_edit::value(list.into_iter().collect::<toml_edit::Array>()),
    }
}

/// Whether a table can be changed under a name.
pub open spec fn open_to(entries: Map<Seq<char>, Tree>, name: Seq<char>) -> bool {
    entry_at(entries, name) matches Some(tree) ==> tree is Table
}

/// Entries with a value under a name of a table.
pub open spec fn nested(
    entries: Map<Seq<char>, Tree>,
    table: Seq<char>,
    name: Seq<char>,
    tree: Tree,
) -> Map<Seq<char>, Tree> {
    entries.insert(table, Tree::Table(entries_at(entry_at(entries, table)).insert(name, tree)))
}

/// Whether a table can be changed under a name of another.
pub open spec fn open_within(
    entries: Map<Seq<char>, Tree>,
    outer: Seq<char>,
    inner: Seq<char>,
) -> bool {
    open_to(entries, outer) && open_to(entries_at(entry_at(entries, outer)), inner)
}

/// Entries with a value under a name of a table within a table.
pub open spec fn nested_within(
    entries: Map<Seq<char>, Tree>,
    outer: Seq<char>,
    inner: Seq<char>,
    name: Seq<char>,
    tree: Tree,
) -> Map<Seq<char>, Tree> {
    entries.insert(
        outer,
        Tree::Table(nested(entries_at(entry_at(entries, outer)), inner, name, tree)),
    )
}

/// `<toml_edit::DocumentMut as IndexMut<&str>>::index_mut`, and an assignment:
/// puts an item under a name of a document. The key stays as it was, so no
/// comment is lost but the one behind a replaced value, and what stood within a
/// replaced table.
#[verifier::external_body]
fn set_top(doc: &mut DocumentMut, name: &str, item: Item)
    requires
        sound(*old(doc)),
        plain_item(item),
    ensures
        sound(*final(doc)),
        document_tree(*final(doc)) == Tree::Table(
            entries_at(Some(document_tree(*old(doc)))).insert(name@, item_tree(item)),
        ),
        plain_place(entry_at(entries_at(Some(document_tree(*old(doc)))), name@))
            ==> document_notes(*final(doc)) == document_notes(*old(doc)),
        plain_place(entry_at(entries_at(Some(document_tree(*old(doc)))), name@))
            ==> document_remarks(*final(doc)) == document_remarks(*old(doc)).remove(seq![name@]),
{
    doc[name] = item;
}

/// The same call, and `<toml_edit::Item as IndexMut<&str>>::index_mut` on what
/// it gives: puts an item under a name of a table of a document. A table that
/// is not there is made; anything else in its place would panic.
#[verifier::external_body]
fn set_nested(doc: &mut DocumentMut, table: &str, name: &str, item: Item)
    requires
        sound(*old(doc)),
        plain_item(item),
        open_to(entries_at(Some(document_tree(*old(doc)))), table@),
    ensures
        sound(*final(doc)),
        document_tree(*final(doc)) == Tree::Table(
            nested(
                entries_at(Some(document_tree(*old(doc)))),
                table@,
                name@,
                item_tree(item),
            ),
        ),
        plain_place(
            entry_at(
                entries_at(entry_at(entries_at(Some(document_tree(*old(doc)))), table@)),
                name@,
            ),
        ) ==> document_notes(*final(doc)) == document_notes(*old(doc)),
        plain_place(
            entry_at(
                entries_at(entry_at(entries_at(Some(document_tree(*old(doc)))), table@)),
                name@,
            ),
        ) ==> document_remarks(*final(doc)) == document_remarks(*old(doc)).remove(
            seq![table@, name@],
        ),
{
    doc[table][name] = item;
}

/// The same calls, one level further down.
#[verifier::external_body]
fn set_within(doc: &mut DocumentMut, outer: &str, inner: &str, name: &str, item: Item)
    requires
        sound(*old(doc)),
        plain_item(item),
        open_within(entries_at(Some(document_tree(*old(doc)))), outer@, inner@),
    ensures
        sound(*final(doc)),
        document_tree(*final(doc)) == Tree::Table(
            nested_within(
                entries_at(Some(document_tree(*old(doc)))),
                outer@,
                inner@,
                name@,
                item_tree(item),
            ),
        ),
        plain_place(
            entry_at(
                entries_at(
                    entry_at(
                        entries_at(entry_at(entries_at(Some(document_tree(*old(doc)))), outer@)),
                        inner@,
                    ),
                ),
                name@,
            ),
        ) ==> document_notes(*final(doc)) == document_notes(*old(doc)),
        plain_place(
            entry_at(
                entries_at(
                    entry_at(
                        entries_at(entry_at(entries_at(Some(document_tree(*old(doc)))), outer@)),
                        inner@,
                    ),
                ),
                name@,
            ),
        ) ==> document_remarks(*final(doc)) == document_remarks(*old(doc)).remove(
            seq![outer@, inner@, name@],
        ),
{
    doc[outer][inner][name] = item;
}

// ---------------------------------------------------------------------------
// Changes
// ---------------------------------------------------------------------------

/// Why a document was not changed.
#[derive(Debug, PartialEq, Eq)]
pub enum EditError {
    /// It is not TOML; the message says why.
    Syntax(String),
    /// A table is to be changed where something else stands.
    NotATable,
}

/// Whether a text reads as a document with these values.
pub open spec fn reads_as(text: Seq<char>, tree: Tree) -> bool {
    toml_document(text) matches Ok(value) && tidy(value) && flat(value) == tree
}

/// Whether a text that both parsers read holds the same values for both.
pub open spec fn agreed(text: Seq<char>) -> bool {
    toml_document(text) matches Ok(value) ==> editable_document(text) == Ok::<Tree, Seq<char>>(
        flat(value),
    )
}

/// A document that is being changed.
#[derive(Debug)]
pub struct Document {
    inner: DocumentMut,
}

/// A document in specifications: the values it holds, the comments that stand
/// on lines of their own, and those behind a value or a header.
pub struct DocumentView {
    pub entries: Map<Seq<char>, Tree>,
    pub notes: Multiset<Seq<char>>,
    pub remarks: Map<Seq<Seq<char>>, Seq<char>>,
}

/// Whether the comments of one text stand in another, but for those behind the
/// values that were replaced.
pub open spec fn keeps_comments(
    before: Seq<char>,
    after: Seq<char>,
    replaced: Set<Seq<Seq<char>>>,
) -> bool {
    &&& notes_in(after) == notes_in(before)
    &&& remarks_in(after) == remarks_in(before).remove_keys(replaced)
}

impl View for Document {
    type V = DocumentView;

    closed spec fn view(&self) -> DocumentView {
        DocumentView {
            entries: entries_at(Some(document_tree(self.inner))),
            notes: document_notes(self.inner),
            remarks: document_remarks(self.inner),
        }
    }
}

impl Document {
    /// It came from the parser, and its root is a table.
    #[verifier::type_invariant]
    spec fn ready(&self) -> bool {
        sound(self.inner) && document_tree(self.inner) is Table
    }
}

/// Reads a document that is to be changed.
pub fn open_document(text: &str) -> (r: Result<Document, EditError>)
    ensures
        match r {
            Ok(doc) => {
                &&& editable_document(text@) == Ok::<Tree, Seq<char>>(Tree::Table(doc@.entries))
                &&& doc@.notes == notes_in(text@)
                &&& doc@.remarks == remarks_in(text@)
                &&& agreed(text@)
            },
            Err(error) => error matches EditError::Syntax(message) && editable_document(text@)
                == Err::<Tree, Seq<char>>(message@),
        },
        (toml_document(text@) matches Ok(value) && modest(value)) ==> r is Ok,
        text@.len() == 0 ==> (r matches Ok(doc) && doc@.entries == Map::<Seq<char>, Tree>::empty()),
{
    match parse_editable(text) {
        Ok(inner) => Ok(Document { inner }),
        Err(message) => Err(EditError::Syntax(message)),
    }
}

/// Writes a document out.
pub fn document_text(doc: &Document) -> (r: String)
    ensures
        reads_as(r@, Tree::Table(doc@.entries)),
        notes_in(r@) == doc@.notes,
        remarks_in(r@) == doc@.remarks,
{
    proof {
        use_type_invariant(doc);
    }
    render(&doc.inner)
}

/// Puts a value under a name of a document.
pub fn put_top(doc: Document, name: &str, value: Scalar) -> (r: Document)
    ensures
        r@.entries == doc@.entries.insert(name@, scalar_tree(value)),
        plain_place(entry_at(doc@.entries, name@)) ==> r@.notes == doc@.notes && r@.remarks
            == doc@.remarks.remove(seq![name@]),
{
    proof {
        use_type_invariant(&doc);
    }
    let mut inner = doc.inner;
    set_top(&mut inner, name, item_of(value));
    Document { inner }
}

/// Puts a value under a name of a table of a document. Where something else
/// stands in place of the table, nothing changes.
pub fn put_nested(doc: Document, table: &str, name: &str, value: Scalar) -> (r: (Document, bool))
    ensures
        r.1 == open_to(doc@.entries, table@),
        if r.1 {
            &&& r.0@.entries == nested(doc@.entries, table@, name@, scalar_tree(value))
            &&& plain_place(
                entry_at(entries_at(entry_at(doc@.entries, table@)), name@),
            ) ==> r.0@.notes == doc@.notes && r.0@.remarks == doc@.remarks.remove(
                seq![table@, name@],
            )
        } else {
            r.0@ == doc@
        },
{
    proof {
        use_type_invariant(&doc);
    }
    if let Some(outer) = top_item(&doc.inner, table) {
        if !is_table(outer) {
            return (doc, false);
        }
    }
    let mut inner = doc.inner;
    set_nested(&mut inner, table, name, item_of(value));
    (Document { inner }, true)
}

/// Whether a value can be put under a name of a table within a table.
fn is_open_within(doc: &Document, outer: &str, inner: &str) -> (r: bool)
    ensures
        r == open_within(doc@.entries, outer@, inner@),
{
    proof {
        use_type_invariant(doc);
    }
    match top_item(&doc.inner, outer) {
        None => true,
        Some(first) => is_table(first) && match inner_item(first, inner) {
            None => true,
            Some(second) => is_table(second),
        },
    }
}

/// Puts a value under a name of a table within a table of a document. Where
/// something else stands in place of either, nothing changes.
pub fn put_within(doc: Document, outer: &str, inner: &str, name: &str, value: Scalar) -> (r: (
    Document,
    bool,
))
    ensures
        r.1 == open_within(doc@.entries, outer@, inner@),
        if r.1 {
            &&& r.0@.entries == nested_within(
                doc@.entries,
                outer@,
                inner@,
                name@,
                scalar_tree(value),
            )
            &&& plain_place(
                entry_at(
                    entries_at(entry_at(entries_at(entry_at(doc@.entries, outer@)), inner@)),
                    name@,
                ),
            ) ==> r.0@.notes == doc@.notes && r.0@.remarks == doc@.remarks.remove(
                seq![outer@, inner@, name@],
            )
        } else {
            r.0@ == doc@
        },
{
    proof {
        use_type_invariant(&doc);
    }
    if !is_open_within(&doc, outer, inner) {
        return (doc, false);
    }
    let mut changed = doc.inner;
    set_within(&mut changed, outer, inner, name, item_of(value));
    (Document { inner: changed }, true)
}

/// The integer under a name of a document, if that is what stands there.
pub fn integer_at(doc: &Document, name: &str) -> (r: Option<i64>)
    ensures
        match r {
            Some(n) => entry_at(doc@.entries, name@) == Some(Tree::Integer(n as int)),
            None => !(entry_at(doc@.entries, name@) matches Some(Tree::Integer(_))),
        },
{
    proof {
        use_type_invariant(doc);
    }
    match top_item(&doc.inner, name) {
        Some(item) => integer_of(item),
        None => None,
    }
}

// ---------------------------------------------------------------------------
// What a change promises
// ---------------------------------------------------------------------------

/// A value is put into a document as what it is.
pub proof fn law_values_are_put_as_they_are(n: i64, b: bool, t: String, list: Vec<String>, i: int)
    ensures
        scalar_tree(Scalar::Integer(n)) == Tree::Integer(n as int),
        scalar_tree(Scalar::Boolean(b)) == Tree::Boolean(b),
        scalar_tree(Scalar::Text(t)) == Tree::Text(t@),
        scalar_tree(Scalar::Texts(list)) matches Tree::Array(items) && items.len() == list@.len()
            && (0 <= i < items.len() ==> items[i] == Tree::Text(list@[i]@)),
{
}

/// A value that is put into a table is found there. Whatever else the table
/// held, and every other entry, stays; a table that was not there is made.
pub proof fn law_a_change_stays_within_its_table(
    entries: Map<Seq<char>, Tree>,
    table: Seq<char>,
    name: Seq<char>,
    tree: Tree,
    other: Seq<char>,
)
    ensures
        ({
            let after = nested(entries, table, name, tree);
            &&& (entry_at(after, table) matches Some(Tree::Table(inside)) && {
                &&& inside.contains_key(name)
                &&& inside[name] == tree
                &&& other != name ==> match entry_at(entries, table) {
                    Some(Tree::Table(before)) => inside.contains_key(other)
                        == before.contains_key(other) && (before.contains_key(other)
                        ==> inside[other] == before[other]),
                    _ => !inside.contains_key(other),
                }
            })
            &&& other != table ==> after.contains_key(other) == entries.contains_key(other) && (
            entries.contains_key(other) ==> after[other] == entries[other])
        }),
        open_to(entries, table) <==> (!entries.contains_key(table) || entries[table] is Table),
{
}

/// A value that is put into a table within a table is found there, and nothing
/// outside of the inner table changes.
pub proof fn law_a_change_stays_within_its_inner_table(
    entries: Map<Seq<char>, Tree>,
    outer: Seq<char>,
    inner: Seq<char>,
    name: Seq<char>,
    tree: Tree,
    other: Seq<char>,
)
    ensures
        ({
            let after = nested_within(entries, outer, inner, name, tree);
            let within = entries_at(entry_at(entries, outer));
            &&& (entry_at(after, outer) matches Some(Tree::Table(inside)) && {
                &&& (entry_at(inside, inner) matches Some(Tree::Table(deep)) && deep.contains_key(
                    name,
                ) && deep[name] == tree && (other != name ==> match entry_at(within, inner) {
                    Some(Tree::Table(before)) => deep.contains_key(other) == before.contains_key(
                        other,
                    ) && (before.contains_key(other) ==> deep[other] == before[other]),
                    _ => !deep.contains_key(other),
                }))
                &&& other != inner ==> inside.contains_key(other) == within.contains_key(other) && (
                within.contains_key(other) ==> inside[other] == within[other])
            })
            &&& other != outer ==> after.contains_key(other) == entries.contains_key(other) && (
            entries.contains_key(other) ==> after[other] == entries[other])
        }),
        open_within(entries, outer, inner) <==> {
            ||| !entries.contains_key(outer)
            ||| (entries[outer] matches Tree::Table(inside) && (!inside.contains_key(inner)
                || inside[inner] is Table))
        },
{
}

/// Where comments are kept, those on lines of their own all stay, and so does
/// each behind a value that is not among the replaced ones; behind those there is
/// none.
pub proof fn law_comments_are_kept_but_behind_what_is_replaced(
    before: Seq<char>,
    after: Seq<char>,
    replaced: Set<Seq<Seq<char>>>,
    place: Seq<Seq<char>>,
)
    requires
        keeps_comments(before, after, replaced),
    ensures
        notes_in(after) == notes_in(before),
        replaced.contains(place) ==> !remarks_in(after).contains_key(place),
        !replaced.contains(place) ==> (remarks_in(after).contains_key(place) <==> remarks_in(
            before,
        ).contains_key(place)),
        !replaced.contains(place) && remarks_in(before).contains_key(place) ==> remarks_in(
            after,
        )[place] == remarks_in(before)[place],
{
}

/// A place that is empty, or holds a text, a number, a flag or a list of such, is
/// a plain one; a table is not.
pub proof fn law_what_is_no_table_is_plain(
    t: Seq<char>,
    n: int,
    b: bool,
    items: Seq<Tree>,
    entries: Map<Seq<char>, Tree>,
)
    ensures
        plain_place(None),
        plain_place(Some(Tree::Text(t))),
        plain_place(Some(Tree::Integer(n))),
        plain_place(Some(Tree::Boolean(b))),
        plain_place(Some(Tree::Other)),
        (forall|i: int|
            0 <= i < items.len() ==> !((#[trigger] items[i]) is Table) && !(items[i] is Array))
            ==> plain_place(Some(Tree::Array(items))),
        !plain_place(Some(Tree::Table(entries))),
{
}

} // verus!
