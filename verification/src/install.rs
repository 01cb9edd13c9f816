//! Installing an action whose manifest was selected.
//!
//! A manifest that executes anything is installed disabled: one click must
//! never turn selected text into something that runs.

use vstd::prelude::*;

use crate::declaration::write_declaration;
use crate::manifest::{parse_manifest, same_spec, ActionSpec, ManifestError};
use crate::settings::set_action_enabled;
use crate::text::{
    begins_chars, contains_char, join_texts, lines_of, owned, same_text, to_chars, to_text,
    trim_start_chars,
};
#[allow(unused_imports)]
use crate::{
    declaration::{law_written_declarations_are_read_back, spec_entries},
    document::{member, tidy, toml_document, TomlView},
    edit::{editable_document, keeps_comments, notes_in, reads_as, remarks_in, Tree},
    manifest::{
        action_from, law_actions_do_one_thing, lemma_option_table_ascends, manifest_outcome,
        option_names, spec_fault, ActionView, RefusalView, SpecView,
    },
    readback::{
        flat_table, law_toggling_changes_enabled_alone, lemma_manifests_are_modest, lemma_member,
        without_surplus,
    },
    settings::toggled,
    sorted::ascending,
    text::{
        begins, joined, lemma_lines_are_plain, lemma_lines_of_joined, lines, texts, trim_start,
    },
};

verus! {

/// The id of the synthetic action that is offered when the selection itself is
/// an action manifest. Reserved: a manifest may not claim it.
pub const INSTALL_ID: &'static str = "grabit.install";

// ---------------------------------------------------------------------------
// Disabling
// ---------------------------------------------------------------------------

/// Whether a line sets `enabled`.
pub open spec fn sets_enabled(line: Seq<char>) -> bool {
    begins(trim_start(line), "enabled"@) && line.contains('=')
}

/// A line that switches the action off, if it is one that sets `enabled`.
pub open spec fn disabled_line(line: Seq<char>) -> Seq<char> {
    if sets_enabled(line) {
        "enabled = false"@
    } else {
        line
    }
}

/// Lines that switch the action off: every one that sets `enabled` is
/// rewritten, and where there is none, one is added at the end.
pub open spec fn disabled_lines(all: Seq<Seq<char>>) -> Seq<Seq<char>> {
    let rewritten = all.map_values(|line: Seq<char>| disabled_line(line));
    if exists|i: int| 0 <= i < all.len() && sets_enabled(#[trigger] all[i]) {
        rewritten
    } else {
        rewritten.push("# Installed from a selection; review it, then enable it."@).push(
            "enabled = false"@,
        )
    }
}

/// A manifest rewritten line by line so that it switches the action off.
pub open spec fn disabled_text(manifest: Seq<char>) -> Seq<char> {
    joined(disabled_lines(lines(manifest)), "\n"@).push('\n')
}

/// Rewrites a manifest line by line so that it switches the action off, whether
/// or not it already carried an `enabled` key.
fn rewrite_lines(manifest: &str) -> (r: String)
    ensures
        r@ == disabled_text(manifest@),
{
    let all = to_chars(manifest);
    let before = lines_of(all.as_slice());
    let key = to_chars("enabled");
    let ghost views = lines(manifest@);
    let mut out: Vec<String> = Vec::new();
    let mut found = false;
    for i in 0..before.len()
        invariant
            views == lines(manifest@),
            before@.map_values(|line: Vec<char>| line@) == views,
            key@ == "enabled"@,
            out@.len() == i,
            forall|k: int| 0 <= k < i ==> (#[trigger] out@[k])@ == disabled_line(views[k]),
            found <==> exists|k: int| 0 <= k < i && sets_enabled(#[trigger] views[k]),
    {
        let line = before[i].as_slice();
        assert(views[i as int] == before@[i as int]@);
        if begins_chars(trim_start_chars(line), key.as_slice()) && contains_char(line, '=') {
            assert(sets_enabled(views[i as int]));
            out.push(owned("enabled = false"));
            found = true;
        } else {
            out.push(to_text(line));
        }
    }
    let ghost rewritten = views.map_values(|line: Seq<char>| disabled_line(line));
    assert(views.len() == before@.len());
    assert(texts(out@) =~= rewritten);
    if !found {
        out.push(owned("# Installed from a selection; review it, then enable it."));
        out.push(owned("enabled = false"));
    }
    assert(texts(out@) =~= disabled_lines(views));
    let mut text = join_texts(&out, "\n");
    text.push('\n');
    text
}

/// The action switched off.
pub open spec fn switched_off(action: ActionView) -> ActionView {
    ActionView { spec: SpecView { enabled: false, ..action.spec }, ..action }
}

/// Whether a text is a manifest of an action.
pub open spec fn declares(text: Seq<char>, action: ActionView) -> bool {
    manifest_outcome(text) == Ok::<ActionView, RefusalView>(action)
}

/// Finds out whether a text declares a given action, patterns and all.
fn is_declared(text: &str, spec: &ActionSpec, Ghost(action): Ghost<ActionView>) -> (r: bool)
    requires
        spec@ == action.spec,
        action.match_re == action.spec.match_re,
        action.not_match == action.spec.not_match,
        action.origin == Seq::<char>::empty(),
    ensures
        r == declares(text@, action),
{
    match parse_manifest(text) {
        Ok(found) => {
            proof {
                law_actions_do_one_thing(text@, found@);
            }
            same_spec(&found.spec, spec)
        },
        Err(_) => false,
    }
}

/// An action that declares itself differently only in being enabled is as valid
/// as it was.
proof fn lemma_switched_off_is_valid(
    manifest: Seq<char>,
    before: TomlView,
    action: ActionView,
    text: Seq<char>,
)
    requires
        toml_document(manifest) == Ok::<TomlView, Seq<char>>(before),
        before is Table,
        tidy(before),
        declares(manifest, action),
        reads_as(text, Tree::Table(toggled(flat_table(before), false))),
    ensures
        declares(text, switched_off(action)),
{
    law_toggling_changes_enabled_alone(manifest, before, text, false);
    let after = toml_document(text)->Ok_0;
    let spec = action_from(before);
    assert(spec_fault(action_from(after)) == spec_fault(spec));
}

/// A declaration written out anew is as valid as the manifest it came from.
proof fn lemma_written_anew(manifest: Seq<char>, action: ActionView, text: Seq<char>)
    requires
        declares(manifest, action),
        ascending(option_names(action.spec.options)),
        reads_as(text, Tree::Table(spec_entries(switched_off(action).spec))),
    ensures
        declares(text, switched_off(action)),
{
    let off = switched_off(action).spec;
    law_written_declarations_are_read_back(off, text);
    assert(spec_fault(off) == spec_fault(action.spec));
}

/// What disabling a manifest comes to. A text that is none is rewritten line by
/// line. Of a manifest the result declares the same action, switched off:
/// rewritten line by line if that does it, as it was if it is off already, and
/// otherwise with every comment but the one behind `enabled`. Only one that the
/// editor does not read can lose more, and then an option of it is written as an
/// array with items to spare.
pub open spec fn is_disabled_form(manifest: Seq<char>, text: Seq<char>) -> bool {
    match manifest_outcome(manifest) {
        Err(_) => text == disabled_text(manifest),
        Ok(action) => {
            &&& declares(text, switched_off(action))
            &&& if declares(disabled_text(manifest), switched_off(action)) {
                text == disabled_text(manifest)
            } else if !action.spec.enabled {
                text == manifest
            } else {
                editable_document(manifest) is Ok || without_surplus(toml_document(manifest)->Ok_0)
                    ==> keeps_comments(manifest, text, set![seq!["enabled"@]])
            }
        },
    }
}

/// Switches the action of a manifest off. Rewriting line by line keeps the text
/// as the user saw it; where that does not do, the `enabled` key is set by an
/// editor that knows the format. What the editor does not read gets the key in
/// front, or is written anew.
fn switch_off(manifest: &str, spec: &ActionSpec, Ghost(action): Ghost<ActionView>) -> (r: String)
    requires
        declares(manifest@, action),
        spec@ == action.spec,
        toml_document(manifest@) matches Ok(doc) ==> doc is Table && tidy(doc),
    ensures
        declares(r@, switched_off(action)),
        declares(disabled_text(manifest@), switched_off(action)) ==> r@ == disabled_text(manifest@),
        is_disabled_form(manifest@, r@),
{
    let ghost before = toml_document(manifest@)->Ok_0;
    proof {
        law_actions_do_one_thing(manifest@, action);
    }
    let mut off = spec.clone();
    off.enabled = false;
    let ghost target = switched_off(action);
    assert(off@ == target.spec);
    let rewritten = rewrite_lines(manifest);
    if is_declared(rewritten.as_str(), &off, Ghost(target)) {
        return rewritten;
    }
    if !spec.enabled {
        assert(target == action);
        return owned(manifest);
    }
    proof {
        if without_surplus(before) {
            lemma_manifests_are_modest(before);
        }
    }
    if let Ok(body) = set_action_enabled(manifest, false) {
        proof {
            lemma_switched_off_is_valid(manifest@, before, action, body@);
            lemma_member(before, 14, "enabled"@);
        }
        return body;
    }
    let mut fronted = owned("enabled = false\n");
    fronted.append(manifest);
    if is_declared(fronted.as_str(), &off, Ghost(target)) {
        return fronted;
    }
    proof {
        match member(before, 9, "options"@) {
            Some(v) => lemma_option_table_ascends(v->Table_0, 0),
            None => {},
        }
    }
    let anew = write_declaration(&off);
    proof {
        lemma_written_anew(manifest@, action, anew@);
    }
    anew
}

/// Rewrites a manifest so that it switches the action off, whether or not it
/// already carried an `enabled` key. The result declares the same action but
/// for that.
pub fn disable_in_manifest(manifest: &str) -> (r: String)
    ensures
        is_disabled_form(manifest@, r@),
        manifest_outcome(manifest@) matches Ok(action) ==> declares(r@, switched_off(action)),
{
    match parse_manifest(manifest) {
        Ok(action) => switch_off(manifest, &action.spec, Ghost(action@)),
        Err(_) => rewrite_lines(manifest),
    }
}

/// A line that switches the action off sets `enabled`.
proof fn lemma_switch_sets_enabled()
    ensures
        sets_enabled("enabled = false"@),
        !"enabled = false"@.contains('\n'),
        !"enabled = false"@.contains('\r'),
        !"# Installed from a selection; review it, then enable it."@.contains('\n'),
        !"# Installed from a selection; review it, then enable it."@.contains('\r'),
        !sets_enabled("# Installed from a selection; review it, then enable it."@),
{
    reveal_strlit("enabled = false");
    reveal_strlit("enabled");
    reveal_strlit("# Installed from a selection; review it, then enable it.");
    let line = "enabled = false"@;
    assert(line[8] == '=');
    assert(trim_start(line) == line);
    assert(line.take(7) =~= "enabled"@);
    let remark = "# Installed from a selection; review it, then enable it."@;
    assert(trim_start(remark) == remark);
    assert(remark.take(7)[0] == '#' && "enabled"@[0] == 'e');
}

/// Rewriting a text without carriage returns line by line, so that it switches
/// the action off, keeps every line that does not set `enabled`, where it was.
/// One line of the result is the switch, it ends with its last line, and
/// rewriting it again changes nothing.
pub proof fn law_rewriting_twice_is_rewriting_once(manifest: Seq<char>)
    requires
        !manifest.contains('\r'),
    ensures
        disabled_text(disabled_text(manifest)) == disabled_text(manifest),
        disabled_text(manifest).last() == '\n',
        lines(disabled_text(manifest)) == disabled_lines(lines(manifest)),
        lines(disabled_text(manifest)).contains("enabled = false"@),
        lines(manifest).len() <= lines(disabled_text(manifest)).len(),
        forall|i: int|
            0 <= i < lines(manifest).len() && !sets_enabled(#[trigger] lines(manifest)[i]) ==> lines(
                disabled_text(manifest),
            )[i] == lines(manifest)[i],
{
    let all = lines(manifest);
    let off = disabled_lines(all);
    let switch = "enabled = false"@;
    lemma_switch_sets_enabled();
    if exists|i: int| 0 <= i < all.len() && sets_enabled(#[trigger] all[i]) {
        let i = choose|i: int| 0 <= i < all.len() && sets_enabled(#[trigger] all[i]);
        assert(off[i] == switch);
    } else {
        assert(off[off.len() - 1] == switch);
    }
    assert(off.contains(switch));
    assert forall|i: int| 0 <= i < off.len() implies !(#[trigger] off[i]).contains('\n')
        && !off[i].contains('\r') by {
        if i < all.len() {
            lemma_lines_are_plain(manifest, i);
        }
    }
    lemma_lines_of_joined(off);
    let at = choose|i: int| 0 <= i < off.len() && off[i] == switch;
    assert(sets_enabled(off[at]));
    assert forall|i: int| 0 <= i < off.len() implies disabled_line(#[trigger] off[i]) == off[i] by {
        if i < all.len() {
            assert(off[i] == disabled_line(all[i]));
        }
    }
    assert(disabled_lines(off) =~= off);
}

/// Disabling a text again leaves it as it is, or rewrites it line by line. One
/// without carriage returns that was rewritten line by line stays as it is. Left
/// out is a text that only the rewriting made a manifest, of an action that is
/// still on.
pub proof fn law_disabling_twice_is_disabling_once(
    manifest: Seq<char>,
    once: Seq<char>,
    twice: Seq<char>,
)
    requires
        is_disabled_form(manifest, once),
        is_disabled_form(once, twice),
        manifest_outcome(manifest) is Err ==> (manifest_outcome(once) matches Ok(action)
            ==> !action.spec.enabled),
    ensures
        manifest_outcome(manifest) is Ok ==> manifest_outcome(twice) == manifest_outcome(once),
        twice == once || twice == disabled_text(once),
        once == disabled_text(manifest) && !manifest.contains('\r') ==> twice == once,
{
    if let Ok(action) = manifest_outcome(manifest) {
        assert(switched_off(switched_off(action)) == switched_off(action));
    }
    if let Ok(action) = manifest_outcome(once) {
        assert(!action.spec.enabled ==> switched_off(action) == action);
    }
    if once == disabled_text(manifest) && !manifest.contains('\r') {
        law_rewriting_twice_is_rewriting_once(manifest);
    }
}

// ---------------------------------------------------------------------------
// Installing
// ---------------------------------------------------------------------------

/// Whether every character of a text is safe in a file name.
pub open spec fn safe_name(id: Seq<char>) -> bool {
    forall|i: int| 0 <= i < id.len() ==> is_safe(#[trigger] id[i])
}

/// Whether `c` is safe in a file name.
pub open spec fn is_safe(c: char) -> bool {
    ||| 'a' <= c <= 'z'
    ||| 'A' <= c <= 'Z'
    ||| '0' <= c <= '9'
    ||| c == '-'
    ||| c == '_'
    ||| c == '.'
}

/// Whether every character of `id` is safe in a file name.
fn has_safe_name(id: &str) -> (r: bool)
    ensures
        r == safe_name(id@),
{
    let chars = to_chars(id);
    for i in 0..chars.len()
        invariant
            chars@ == id@,
            forall|k: int| 0 <= k < i ==> is_safe(#[trigger] id@[k]),
    {
        let c = chars[i];
        if !(('a' <= c && c <= 'z') || ('A' <= c && c <= 'Z') || ('0' <= c && c <= '9') || c == '-'
            || c == '_' || c == '.') {
            assert(!is_safe(id@[i as int]));
            return false;
        }
    }
    true
}

/// A manifest ready to be written into the user's actions directory.
#[derive(Debug, PartialEq, Eq)]
pub struct Installation {
    /// The id of the action.
    pub id: String,
    /// The name of the file.
    pub file: String,
    /// What to write.
    pub body: String,
    /// Whether the action is switched off once it is installed.
    pub disabled: bool,
}

/// Why a manifest was not installed.
#[derive(Debug, PartialEq, Eq)]
pub enum InstallError {
    /// It is not a manifest.
    Manifest(ManifestError),
    /// It claims the reserved id.
    Reserved,
    /// Its id is not a safe file name.
    UnsafeName(String),
}

/// What a refusal to install says to the user.
pub open spec fn install_error_text(error: InstallError) -> Seq<char> {
    match error {
        InstallError::Manifest(error) => "the selection stopped parsing: "@
            + crate::manifest::refusal_text(error@),
        InstallError::Reserved => "`grabit.install` is reserved"@,
        InstallError::UnsafeName(id) => "action id `"@ + id@ + "` is not a safe file name"@,
    }
}

impl InstallError {
    /// What to say to the user.
    pub fn message(&self) -> (r: String)
        ensures
            r@ == install_error_text(*self),
            r@ == (match self {
                InstallError::Manifest(error) => "the selection stopped parsing: "@
                    + crate::manifest::refusal_text(error@),
                InstallError::Reserved => "`grabit.install` is reserved"@,
                InstallError::UnsafeName(id) => "action id `"@ + id@
                    + "` is not a safe file name"@,
            }),
    {
        match self {
            InstallError::Manifest(error) => {
                let mut out = owned("the selection stopped parsing: ");
                out.append(error.message().as_str());
                out
            },
            InstallError::Reserved => owned("`grabit.install` is reserved"),
            InstallError::UnsafeName(id) => {
                let mut out = owned("action id `");
                out.append(id.as_str());
                out.append("` is not a safe file name");
                out
            },
        }
    }
}

/// Whether an action must be switched off before it is installed: it runs
/// something, and would do so at once.
pub open spec fn must_disable(action: ActionView) -> bool {
    action.spec.command is Some && action.spec.enabled
}

/// Whether an installation is the right one for a manifest of an action.
pub open spec fn is_installation(
    done: Installation,
    manifest: Seq<char>,
    action: ActionView,
) -> bool {
    &&& done.id@ == action.spec.id
    &&& done.file@ == action.spec.id + ".toml"@
    &&& done.disabled == (must_disable(action) || !action.spec.enabled)
    &&& if must_disable(action) {
        declares(done.body@, switched_off(action)) && is_disabled_form(manifest, done.body@)
    } else {
        done.body@ == manifest
    }
}

/// Whether a result is what preparing the installation of a text comes to.
pub open spec fn is_install_outcome(
    r: Result<Installation, InstallError>,
    manifest: Seq<char>,
) -> bool {
    match manifest_outcome(manifest) {
        Err(refusal) => r matches Err(InstallError::Manifest(error)) && error@ == refusal,
        Ok(action) => if action.spec.id == INSTALL_ID@ {
            r matches Err(InstallError::Reserved)
        } else if !safe_name(action.spec.id) {
            r matches Err(InstallError::UnsafeName(id)) && id@ == action.spec.id
        } else {
            r matches Ok(done) && is_installation(done, manifest, action)
        },
    }
}

/// Prepares the installation of a selected manifest.
///
/// One that runs a command is switched off, whatever it claimed; any other is
/// written as it was selected.
pub fn try_install(manifest: &str) -> (r: Result<Installation, InstallError>)
    ensures
        is_install_outcome(r, manifest@),
        match manifest_outcome(manifest@) {
            Err(refusal) => r matches Err(InstallError::Manifest(error)) && error@ == refusal,
            Ok(action) => if action.spec.id == INSTALL_ID@ {
                r matches Err(InstallError::Reserved)
            } else if !safe_name(action.spec.id) {
                r matches Err(InstallError::UnsafeName(id)) && id@ == action.spec.id
            } else {
                r matches Ok(done) && is_installation(done, manifest@, action)
            },
        },
{
    let action = match parse_manifest(manifest) {
        Ok(action) => action,
        Err(error) => return Err(InstallError::Manifest(error)),
    };
    let id = action.spec.id.clone();
    if same_text(id.as_str(), INSTALL_ID) {
        return Err(InstallError::Reserved);
    }
    if !has_safe_name(id.as_str()) {
        return Err(InstallError::UnsafeName(id));
    }
    let must = action.spec.command.is_some() && action.spec.enabled;
    let body = if must {
        switch_off(manifest, &action.spec, Ghost(action@))
    } else {
        owned(manifest)
    };
    let mut file = id.clone();
    file.append(".toml");
    Ok(Installation { id, file, body, disabled: must || !action.spec.enabled })
}

/// One click never turns selected text into something that runs: an action
/// with a command is switched off once it is installed, and is otherwise the
/// one that was selected.
pub proof fn law_installed_commands_do_not_run(
    manifest: Seq<char>,
    action: ActionView,
    done: Installation,
)
    requires
        declares(manifest, action),
        is_installation(done, manifest, action),
        action.spec.command is Some,
    ensures
        done.disabled,
        declares(done.body@, switched_off(action)),
        !switched_off(action).spec.enabled,
{
    if !must_disable(action) {
        assert(switched_off(action) == action);
    }
}

/// A manifest is installed exactly if it declares an action whose id is not the
/// reserved one and is made of the letters and digits of ASCII, hyphens,
/// underscores and dots alone.
pub proof fn law_safe_ids_are_installed(id: Seq<char>)
    ensures
        safe_name(id) <==> forall|i: int|
            0 <= i < id.len() ==> ({
                let n = (#[trigger] id[i]) as int;
                ||| 65 <= n && n <= 90
                ||| 97 <= n && n <= 122
                ||| 48 <= n && n <= 57
                ||| n == 45 || n == 95 || n == 46
            }),
        INSTALL_ID@ == "grabit.install"@,
{
    if safe_name(id) {
        assert forall|i: int| 0 <= i < id.len() implies ({
            let n = (#[trigger] id[i]) as int;
            ||| 65 <= n && n <= 90
            ||| 97 <= n && n <= 122
            ||| 48 <= n && n <= 57
            ||| n == 45 || n == 95 || n == 46
        }) by {
            assert(is_safe(id[i]));
        }
    }
    if forall|i: int|
        0 <= i < id.len() ==> ({
            let n = (#[trigger] id[i]) as int;
            ||| 65 <= n && n <= 90
            ||| 97 <= n && n <= 122
            ||| 48 <= n && n <= 57
            ||| n == 45 || n == 95 || n == 46
        }) {
        assert forall|i: int| 0 <= i < id.len() implies is_safe(#[trigger] id[i]) by {}
    }
}

/// What installing a manifest comes to. One with a safe id that is not reserved
/// is installed under that id, as it was selected, unless it would run a command
/// at once: then what is written declares the same action, switched off. Any
/// other id is refused.
pub proof fn law_what_is_installed_is_what_was_selected(
    manifest: Seq<char>,
    action: ActionView,
    r: Result<Installation, InstallError>,
    i: int,
)
    requires
        manifest_outcome(manifest) == Ok::<ActionView, RefusalView>(action),
        is_install_outcome(r, manifest),
    ensures
        ({
            let id = action.spec.id;
            let safe = |c: char| {
                ||| 65 <= c as int <= 90
                ||| 97 <= c as int <= 122
                ||| 48 <= c as int <= 57
                ||| c as int == 45 || c as int == 95 || c as int == 46
            };
            &&& id == "grabit.install"@ ==> (r matches Err(InstallError::Reserved))
            &&& id != "grabit.install"@ && 0 <= i < id.len() && !safe(id[i]) ==> (r matches Err(
                InstallError::UnsafeName(named),
            ) && named@ == id)
            &&& id != "grabit.install"@ && (forall|k: int| 0 <= k < id.len() ==> safe(#[trigger] id[k]))
                ==> (r matches Ok(done) && {
                &&& done.id@ == id
                &&& done.file@ == id + ".toml"@
                &&& done.disabled <==> action.spec.command is Some || !action.spec.enabled
                &&& action.spec.command is None || !action.spec.enabled ==> done.body@ == manifest
                &&& action.spec.command is Some && action.spec.enabled ==> manifest_outcome(
                    done.body@,
                ) == Ok::<ActionView, RefusalView>(
                    ActionView { spec: SpecView { enabled: false, ..action.spec }, ..action },
                )
            })
        }),
{
    let id = action.spec.id;
    law_safe_ids_are_installed(id);
    if safe_name(id) && 0 <= i < id.len() {
        assert(is_safe(id[i]));
    }
    if forall|k: int|
        0 <= k < id.len() ==> ({
            let c = #[trigger] id[k];
            ||| 65 <= c as int <= 90
            ||| 97 <= c as int <= 122
            ||| 48 <= c as int <= 57
            ||| c as int == 45 || c as int == 95 || c as int == 46
        }) {
        assert forall|k: int| 0 <= k < id.len() implies is_safe(#[trigger] id[k]) by {}
    }
}

/// A text that is no manifest is not installed, and the refusal is that of the
/// manifest.
pub proof fn law_what_is_no_manifest_is_not_installed(
    manifest: Seq<char>,
    refusal: RefusalView,
    r: Result<Installation, InstallError>,
)
    requires
        manifest_outcome(manifest) == Err::<ActionView, RefusalView>(refusal),
        is_install_outcome(r, manifest),
    ensures
        r matches Err(InstallError::Manifest(error)) && error@ == refusal,
{
}

/// A line sets `enabled` if that is its first word, behind any white space, and
/// an equals sign stands in it; it is then replaced by the switch. Any other line
/// is kept.
pub proof fn law_lines_that_set_enabled_are_replaced(
    lead: Seq<char>,
    rest: Seq<char>,
    line: Seq<char>,
)
    requires
        forall|i: int| 0 <= i < lead.len() ==> crate::text::is_space(#[trigger] lead[i]),
    ensures
        rest.contains('=') ==> disabled_line(lead + "enabled"@ + rest) == "enabled = false"@,
        !line.contains('=') ==> disabled_line(line) == line,
        !begins(trim_start(line), "enabled"@) ==> disabled_line(line) == line,
{
    let whole = lead + "enabled"@ + rest;
    let n = lead.len() as int;
    reveal_strlit("enabled");
    assert forall|j: int| 0 <= j < n implies crate::text::is_space(#[trigger] whole[j]) by {
        assert(whole[j] == lead[j]);
    }
    assert(whole[n] == 'e');
    crate::text::lemma_trim_start(whole, n);
    let cut = whole.skip(n);
    assert(cut.take(7) =~= "enabled"@);
    if rest.contains('=') {
        let k = rest.index_of('=');
        assert(whole[n + 7 + k] == '=');
        assert(whole.contains('='));
    }
}

/// A manifest that sets `enabled` nowhere gets a remark and the switch at the
/// end, each on a line of its own.
pub proof fn law_the_switch_is_added_at_the_end(all: Seq<Seq<char>>)
    requires
        forall|i: int| 0 <= i < all.len() ==> !(#[trigger] all[i]).contains('='),
    ensures
        disabled_lines(all) == all + seq![
            "# Installed from a selection; review it, then enable it."@,
            "enabled = false"@,
        ],
{
    assert forall|i: int| 0 <= i < all.len() implies disabled_line(#[trigger] all[i]) == all[i] by {}
    assert(disabled_lines(all) =~= all + seq![
        "# Installed from a selection; review it, then enable it."@,
        "enabled = false"@,
    ]);
}

/// Switching an action off changes nothing else about it.
pub proof fn law_switching_off_changes_enabled_alone(action: ActionView)
    ensures
        !switched_off(action).spec.enabled,
        switched_off(action).spec.id == action.spec.id,
        switched_off(action).spec.title == action.spec.title,
        switched_off(action).spec.icon == action.spec.icon,
        switched_off(action).spec.label == action.spec.label,
        switched_off(action).spec.order == action.spec.order,
        switched_off(action).spec.match_re == action.spec.match_re,
        switched_off(action).spec.not_match == action.spec.not_match,
        switched_off(action).spec.detects == action.spec.detects,
        switched_off(action).spec.builtin == action.spec.builtin,
        switched_off(action).spec.options == action.spec.options,
        switched_off(action).spec.url == action.spec.url,
        switched_off(action).spec.command == action.spec.command,
        switched_off(action).spec.stdin == action.spec.stdin,
        switched_off(action).spec.after == action.spec.after,
        switched_off(action).match_re == action.match_re,
        switched_off(action).not_match == action.not_match,
        switched_off(action).origin == action.origin,
{
}

/// A refusal to install says why: what is wrong with the manifest, that the id is
/// taken, or which id is no safe file name.
pub proof fn law_refusals_to_install_say_why(error: InstallError)
    ensures
        error matches InstallError::Manifest(cause) ==> install_error_text(error)
            == "the selection stopped parsing: "@ + crate::manifest::refusal_text(cause@),
        error is Reserved ==> install_error_text(error) == "`grabit.install` is reserved"@,
        error matches InstallError::UnsafeName(id) ==> install_error_text(error) == "action id `"@
            + id@ + "` is not a safe file name"@,
{
}

/// Disabling goes line by line where that does it, and for what is no manifest.
/// A manifest that is off already stays as it is. Any other that the editor reads
/// keeps every comment but the one behind `enabled`, and so does one without an
/// option that is written as an array with items to spare.
pub proof fn law_disabling_keeps_what_it_can(
    manifest: Seq<char>,
    text: Seq<char>,
    action: ActionView,
    place: Seq<Seq<char>>,
)
    requires
        is_disabled_form(manifest, text),
    ensures
        manifest_outcome(manifest) is Err ==> text == disabled_text(manifest),
        declares(manifest, action) ==> {
            let off = ActionView { spec: SpecView { enabled: false, ..action.spec }, ..action };
            let done = manifest_outcome(disabled_text(manifest)) == Ok::<ActionView, RefusalView>(
                off,
            );
            &&& manifest_outcome(text) == Ok::<ActionView, RefusalView>(off)
            &&& done ==> text == disabled_text(manifest)
            &&& !done && !action.spec.enabled ==> text == manifest
            &&& !done && action.spec.enabled && (editable_document(manifest) is Ok
                || without_surplus(toml_document(manifest)->Ok_0)) ==> {
                &&& notes_in(text) == notes_in(manifest)
                &&& place != seq!["enabled"@] ==> (remarks_in(text).contains_key(place)
                    <==> remarks_in(manifest).contains_key(place)) && (remarks_in(
                    manifest,
                ).contains_key(place) ==> remarks_in(text)[place] == remarks_in(manifest)[place])
            }
        },
{
}

} // verus!
