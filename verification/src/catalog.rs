//! Everything loaded from disk: the settings and the actions to offer.
//!
//! Packaged actions and the user's own are merged, the user's winning where
//! both declare an id, and put into the order in which the bar shows them.

use vstd::prelude::*;

use crate::config::{parse_config, Config, ConfigError};
use crate::manifest::{parse_manifest, Action, ManifestError};
use crate::text::{ends_chars, same_text, text_sorts_before, to_chars};
#[allow(unused_imports)]
use crate::{
    config::{config_fits, config_from, config_misfit, default_config, ConfigView},
    document::toml_document,
    manifest::{manifest_outcome, ActionView, RefusalView},
    sorted::{
        ascending, holds, lemma_holds, lemma_put_ascends, lemma_slot_from, lemma_sorts_irreflexive,
        lemma_sorts_total, lemma_sorts_transitive, put, slot, slot_from,
    },
    text::{ends, law_prefixes_and_suffixes_are_the_ends, sorts_before},
};

verus! {

/// The settings and the actions, ready to use.
#[derive(Debug)]
pub struct Loaded {
    pub config: Config,
    pub actions: Vec<Action>,
}

/// A list of actions in specifications.
pub open spec fn action_views(actions: Seq<Action>) -> Seq<ActionView> {
    actions.map_values(|action: Action| action@)
}

/// What was loaded, in specifications.
pub struct LoadedView {
    pub config: ConfigView,
    pub actions: Seq<ActionView>,
}

impl View for Loaded {
    type V = LoadedView;

    open spec fn view(&self) -> LoadedView {
        LoadedView { config: self.config@, actions: action_views(self.actions@) }
    }
}

/// A copy of a list of actions.
pub fn copy_actions(actions: &Vec<Action>) -> (r: Vec<Action>)
    ensures
        action_views(r@) == action_views(actions@),
{
    let mut out: Vec<Action> = Vec::new();
    for i in 0..actions.len()
        invariant
            out@.len() == i,
            forall|k: int| 0 <= k < i ==> (#[trigger] out@[k])@ == actions@[k]@,
    {
        out.push(actions[i].clone());
    }
    assert(action_views(out@) =~= action_views(actions@));
    out
}

impl Clone for Loaded {
    fn clone(&self) -> (r: Self)
        ensures
            r@ == self@,
    {
        Loaded { config: self.config.clone(), actions: copy_actions(&self.actions) }
    }
}

// ---------------------------------------------------------------------------
// Reading a directory of manifests
// ---------------------------------------------------------------------------

/// Whether a file of this name in an actions directory is a manifest: its
/// extension is `toml`.
pub open spec fn names_manifest(file_name: Seq<char>) -> bool {
    file_name.len() > 5 && ends(file_name, ".toml"@)
}

/// Whether a file of this name in an actions directory is a manifest.
pub fn is_manifest_file(file_name: &str) -> (r: bool)
    ensures
        r == names_manifest(file_name@),
{
    let name = to_chars(file_name);
    let suffix = to_chars(".toml");
    name.len() > 5 && ends_chars(name.as_slice(), suffix.as_slice())
}

/// A manifest as it was read from disk.
#[derive(Debug, PartialEq, Eq)]
pub struct ManifestFile {
    pub path: String,
    pub text: String,
}

/// A manifest that was refused, and why.
#[derive(Debug, PartialEq, Eq)]
pub struct Refused {
    pub path: String,
    pub error: ManifestError,
}

/// The path and the text of each file.
pub open spec fn file_views(files: Seq<ManifestFile>) -> Seq<(Seq<char>, Seq<char>)> {
    files.map_values(|file: ManifestFile| (file.path@, file.text@))
}

/// The path and the fault of each refused file.
pub open spec fn refused_views(refused: Seq<Refused>) -> Seq<(Seq<char>, RefusalView)> {
    refused.map_values(|file: Refused| (file.path@, file.error@))
}

/// An action together with the file it came from.
pub open spec fn placed(action: ActionView, path: Seq<char>) -> ActionView {
    ActionView { origin: path, ..action }
}

/// The actions that the files declare, in the order of the files. A file that
/// is refused takes down no other.
pub open spec fn declared(files: Seq<(Seq<char>, Seq<char>)>) -> Seq<ActionView>
    decreases files.len(),
{
    if files.len() == 0 {
        Seq::empty()
    } else {
        let rest = declared(files.drop_last());
        match manifest_outcome(files.last().1) {
            Ok(action) => rest.push(placed(action, files.last().0)),
            Err(_) => rest,
        }
    }
}

/// The files that are refused, in order.
pub open spec fn refusals(files: Seq<(Seq<char>, Seq<char>)>) -> Seq<(Seq<char>, RefusalView)>
    decreases files.len(),
{
    if files.len() == 0 {
        Seq::empty()
    } else {
        let rest = refusals(files.drop_last());
        match manifest_outcome(files.last().1) {
            Ok(_) => rest,
            Err(refusal) => rest.push((files.last().0, refusal)),
        }
    }
}

/// Reads the manifests of a directory.
pub fn read_manifests(files: &Vec<ManifestFile>) -> (r: (Vec<Action>, Vec<Refused>))
    ensures
        action_views(r.0@) == declared(file_views(files@)),
        refused_views(r.1@) == refusals(file_views(files@)),
{
    let ghost views = file_views(files@);
    let mut actions: Vec<Action> = Vec::new();
    let mut refused: Vec<Refused> = Vec::new();
    assert(action_views(actions@) =~= declared(views.take(0)));
    assert(refused_views(refused@) =~= refusals(views.take(0)));
    for i in 0..files.len()
        invariant
            views == file_views(files@),
            action_views(actions@) == declared(views.take(i as int)),
            refused_views(refused@) == refusals(views.take(i as int)),
    {
        let ghost actions_before = actions@;
        let ghost refused_before = refused@;
        let path = files[i].path.clone();
        proof {
            assert(views.take(i + 1).drop_last() =~= views.take(i as int));
            assert(views.take(i + 1).last() == (files@[i as int].path@, files@[i as int].text@));
        }
        match parse_manifest(files[i].text.as_str()) {
            Ok(action) => {
                let action = Action { origin: path, ..action };
                actions.push(action);
                assert(action_views(actions@) =~= action_views(actions_before).push(action@));
            },
            Err(error) => {
                let file = Refused { path, error };
                refused.push(file);
                assert(refused_views(refused@) =~= refused_views(refused_before).push(
                    (file.path@, file.error@),
                ));
            },
        }
    }
    assert(views.take(views.len() as int) =~= views);
    (actions, refused)
}

// ---------------------------------------------------------------------------
// Merging
// ---------------------------------------------------------------------------

/// The ids of a list of actions.
pub open spec fn ids(actions: Seq<ActionView>) -> Seq<Seq<char>> {
    actions.map_values(|action: ActionView| action.spec.id)
}

/// The actions by id, in the order of their ids; one that comes later takes
/// the place of an earlier one with its id.
pub open spec fn by_id(actions: Seq<ActionView>) -> Seq<ActionView>
    decreases actions.len(),
{
    if actions.len() == 0 {
        Seq::empty()
    } else {
        let rest = by_id(actions.drop_last());
        put(ids(rest), rest, actions.last().spec.id, actions.last())
    }
}

/// Whether `a` is shown before `b`: by `order`, and among equals by id.
pub open spec fn ranks_before(a: ActionView, b: ActionView) -> bool {
    a.spec.order < b.spec.order || (a.spec.order == b.spec.order && sorts_before(
        a.spec.id,
        b.spec.id,
    ))
}

/// Whether each action ranks before all that follow it.
pub open spec fn ranked(actions: Seq<ActionView>) -> bool {
    forall|i: int, j: int|
        0 <= i < j < actions.len() ==> ranks_before(#[trigger] actions[i], #[trigger] actions[j])
}

/// Whether `out` holds the actions of a merge, no more and no fewer, in rank
/// order.
pub open spec fn arranged(all: Seq<ActionView>, out: Seq<ActionView>) -> bool {
    ranked(out) && out.to_multiset() == by_id(all).to_multiset()
}

/// The last of the actions with an id.
pub open spec fn last_with(actions: Seq<ActionView>, id: Seq<char>) -> Option<ActionView>
    decreases actions.len(),
{
    if actions.len() == 0 {
        None
    } else if actions.last().spec.id == id {
        Some(actions.last())
    } else {
        last_with(actions.drop_last(), id)
    }
}

/// A merge keeps ids ascending, and holds for each id the last action that
/// declares it.
pub proof fn lemma_by_id(actions: Seq<ActionView>)
    ensures
        ascending(ids(by_id(actions))),
        forall|action: ActionView|
            #[trigger] by_id(actions).contains(action) <==> last_with(actions, action.spec.id)
                == Some(action),
    decreases actions.len(),
{
    if actions.len() == 0 {
    } else {
        let rest = by_id(actions.drop_last());
        let names = ids(rest);
        let last = actions.last();
        let id = last.spec.id;
        let out = by_id(actions);
        lemma_by_id(actions.drop_last());
        lemma_put_ascends(names, id);
        lemma_holds(names, id);
        lemma_slot_from(names, id, 0);
        let p = slot(names, id);
        assert(ids(out) =~= put(names, names, id, id));
        assert(out[p] == last);
        assert forall|action: ActionView|
            #[trigger] out.contains(action) <==> last_with(actions, action.spec.id) == Some(
                action,
            ) by {
            if action.spec.id == id {
                if out.contains(action) {
                    let i = choose|i: int| 0 <= i < out.len() && out[i] == action;
                    assert(ids(out)[i] == id && ids(out)[p] == id);
                    lemma_sorts_irreflexive(id);
                    assert(i == p) by {
                        if i < p {
                            assert(sorts_before(ids(out)[i], ids(out)[p]));
                        } else if p < i {
                            assert(sorts_before(ids(out)[p], ids(out)[i]));
                        }
                    }
                }
            } else {
                assert(rest.contains(action) <==> last_with(actions.drop_last(), action.spec.id)
                    == Some(action));
                if rest.contains(action) {
                    let i = choose|i: int| 0 <= i < rest.len() && rest[i] == action;
                    assert(names[i] == action.spec.id);
                    if holds(names, id) || i < p {
                        assert(out[i] == action);
                    } else {
                        assert(out[i + 1] == action);
                    }
                }
                if out.contains(action) {
                    let i = choose|i: int| 0 <= i < out.len() && out[i] == action;
                    assert(i != p);
                    if holds(names, id) || i < p {
                        assert(rest[i] == action);
                    } else {
                        assert(rest[i - 1] == action);
                    }
                }
            }
        }
    }
}

/// Puts an action into a list kept ascending by id.
fn put_action(actions: &mut Vec<Action>, action: Action)
    ensures
        action_views(final(actions)@) == put(
            ids(action_views(old(actions)@)),
            action_views(old(actions)@),
            action@.spec.id,
            action@,
        ),
{
    let ghost views = action_views(actions@);
    let ghost names = ids(views);
    let ghost id = action@.spec.id;
    let mut i: usize = 0;
    while i < actions.len() && text_sorts_before(
        actions[i].spec.id.as_str(),
        action.spec.id.as_str(),
    )
        invariant
            views == action_views(actions@),
            names == ids(views),
            id == action@.spec.id,
            i <= actions.len(),
            slot(names, id) == slot_from(names, id, i as int),
        decreases actions.len() - i,
    {
        assert(names[i as int] == actions@[i as int].spec.id@);
        i = i + 1;
    }
    assert(i < actions.len() ==> names[i as int] == actions@[i as int].spec.id@);
    assert(slot(names, id) == i);
    let ghost entry = action@;
    if i < actions.len() && same_text(actions[i].spec.id.as_str(), action.spec.id.as_str()) {
        actions.set(i, action);
        assert(action_views(actions@) =~= views.update(i as int, entry));
    } else {
        actions.insert(i, action);
        assert(action_views(actions@) =~= views.insert(i as int, entry));
    }
}

/// Whether `a` is shown before `b`.
fn comes_before(a: &Action, b: &Action) -> (r: bool)
    ensures
        r == ranks_before(a@, b@),
{
    a.spec.order < b.spec.order || (a.spec.order == b.spec.order && text_sorts_before(
        a.spec.id.as_str(),
        b.spec.id.as_str(),
    ))
}

/// Rank order is transitive.
proof fn lemma_ranks_transitive(a: ActionView, b: ActionView, c: ActionView)
    requires
        ranks_before(a, b),
        ranks_before(b, c),
    ensures
        ranks_before(a, c),
{
    if a.spec.order == b.spec.order && b.spec.order == c.spec.order {
        lemma_sorts_transitive(a.spec.id, b.spec.id, c.spec.id);
    }
}

/// Of two actions with different ids, one ranks before the other.
proof fn lemma_ranks_total(a: ActionView, b: ActionView)
    requires
        a.spec.id != b.spec.id,
    ensures
        ranks_before(a, b) || ranks_before(b, a),
{
    lemma_sorts_total(a.spec.id, b.spec.id);
}

/// Inserting into a list removes nothing.
proof fn lemma_insert_multiset<T>(s: Seq<T>, i: int, x: T)
    requires
        0 <= i <= s.len(),
    ensures
        s.insert(i, x).to_multiset() == s.to_multiset().insert(x),
{
    s.to_multiset_ensures();
    s.insert(i, x).to_multiset_ensures();
    broadcast use vstd::seq_lib::group_to_multiset_ensures;

    assert(s.insert(i, x).remove(i) =~= s);
    assert(s.insert(i, x)[i] == x);
    s.insert(i, x).to_multiset_ensures();
    assert(s.insert(i, x).to_multiset() =~= s.to_multiset().insert(x));
}

/// Inserts an action into a list in rank order, and says where.
fn insert_ranked(actions: &mut Vec<Action>, action: Action) -> (r: usize)
    requires
        ranked(action_views(old(actions)@)),
        forall|i: int|
            0 <= i < old(actions)@.len() ==> (#[trigger] action_views(old(actions)@)[i]).spec.id
                != action@.spec.id,
    ensures
        ranked(action_views(final(actions)@)),
        r <= old(actions)@.len(),
        action_views(final(actions)@) == action_views(old(actions)@).insert(r as int, action@),
{
    let ghost views = action_views(actions@);
    let ghost entry = action@;
    let mut i: usize = 0;
    while i < actions.len() && comes_before(&actions[i], &action)
        invariant
            views == action_views(actions@),
            entry == action@,
            i <= actions.len(),
            forall|k: int| 0 <= k < i ==> ranks_before(#[trigger] views[k], entry),
        decreases actions.len() - i,
    {
        assert(views[i as int] == actions@[i as int]@);
        i = i + 1;
    }
    proof {
        let out = views.insert(i as int, entry);
        if i < views.len() {
            assert(views[i as int] == actions@[i as int]@);
            lemma_ranks_total(views[i as int], entry);
        }
        assert forall|a: int, b: int| 0 <= a < b < out.len() implies ranks_before(
            #[trigger] out[a],
            #[trigger] out[b],
        ) by {
            if b < i {
                assert(out[a] == views[a] && out[b] == views[b]);
            } else if b == i {
                assert(out[a] == views[a]);
            } else {
                assert(out[b] == views[b - 1]);
                if b - 1 > i {
                    lemma_ranks_transitive(entry, views[i as int], views[b - 1]);
                }
                if a < i {
                    assert(out[a] == views[a]);
                    lemma_ranks_transitive(views[a], entry, views[b - 1]);
                } else if a > i {
                    assert(out[a] == views[a - 1]);
                }
            }
        }
    }
    actions.insert(i, action);
    assert(action_views(actions@) =~= views.insert(i as int, entry));
    i
}

/// Puts actions with distinct ids into rank order.
fn rank(actions: Vec<Action>) -> (r: Vec<Action>)
    requires
        ascending(ids(action_views(actions@))),
    ensures
        ranked(action_views(r@)),
        action_views(r@).to_multiset() == action_views(actions@).to_multiset(),
{
    let ghost all = action_views(actions@);
    let mut rest = actions;
    let mut out: Vec<Action> = Vec::new();
    proof {
        all.to_multiset_ensures();
        assert(action_views(out@) =~= Seq::<ActionView>::empty());
        action_views(out@).to_multiset_ensures();
        assert(action_views(out@).to_multiset().add(all.to_multiset()) =~= all.to_multiset());
    }
    while rest.len() > 0
        invariant
            ascending(ids(action_views(rest@))),
            ranked(action_views(out@)),
            action_views(out@).to_multiset().add(action_views(rest@).to_multiset())
                == all.to_multiset(),
            forall|i: int, j: int|
                0 <= i < out@.len() && 0 <= j < rest@.len() ==> (#[trigger] action_views(
                    out@,
                )[i]).spec.id != (#[trigger] action_views(rest@)[j]).spec.id,
        decreases rest.len(),
    {
        let ghost out_before = action_views(out@);
        let ghost rest_before = action_views(rest@);
        let ghost names = ids(rest_before);
        match rest.pop() {
            None => {},
            Some(action) => {
                let ghost entry = action@;
                let ghost rest_after = action_views(rest@);
                proof {
                    assert(rest_after =~= rest_before.drop_last());
                    assert(rest_before =~= rest_after.push(entry));
                    assert(rest_before[rest_after.len() as int] == entry);
                    assert forall|i: int| 0 <= i < out@.len() implies (#[trigger] action_views(
                        out@,
                    )[i]).spec.id != entry.spec.id by {
                        assert(rest_before[rest_after.len() as int] == entry);
                    }
                    assert forall|i: int, j: int|
                        0 <= i < j < ids(rest_after).len() implies sorts_before(
                        #[trigger] ids(rest_after)[i],
                        #[trigger] ids(rest_after)[j],
                    ) by {
                        assert(names[i] == ids(rest_after)[i]);
                        assert(names[j] == ids(rest_after)[j]);
                    }
                    assert forall|j: int| 0 <= j < rest_after.len() implies (
                    #[trigger] rest_after[j]).spec.id != entry.spec.id by {
                        assert(names[j] == rest_after[j].spec.id);
                        assert(names[rest_after.len() as int] == entry.spec.id);
                        assert(sorts_before(names[j], names[rest_after.len() as int]));
                        lemma_sorts_irreflexive(entry.spec.id);
                    }
                }
                let position: usize = insert_ranked(&mut out, action);
                proof {
                    let out_after = action_views(out@);
                    let p = position as int;
                    assert(out@.len() == out_after.len());
                    assert(out_after.len() == out_before.len() + 1);
                    lemma_insert_multiset(out_before, p, entry);
                    rest_after.to_multiset_ensures();
                    broadcast use vstd::seq_lib::group_to_multiset_ensures;

                    assert(rest_before.to_multiset() == rest_after.to_multiset().insert(entry));
                    assert(out_after.to_multiset().add(rest_after.to_multiset())
                        =~= out_before.to_multiset().add(rest_before.to_multiset()));
                    assert forall|i: int, j: int|
                        0 <= i < out@.len() && 0 <= j < rest@.len() implies (
                    #[trigger] action_views(out@)[i]).spec.id != (#[trigger] action_views(
                        rest@,
                    )[j]).spec.id by {
                        assert(rest_after[j] == rest_before[j]);
                        if i < p {
                            assert(out_after[i] == out_before[i]);
                        } else if i > p {
                            assert(out_after[i] == out_before[i - 1]);
                        } else {
                            assert(out_after[i] == entry);
                        }
                    }
                }
            },
        }
    }
    proof {
        assert(action_views(rest@) =~= Seq::<ActionView>::empty());
        action_views(rest@).to_multiset_ensures();
        assert(action_views(out@).to_multiset().add(action_views(rest@).to_multiset())
            =~= action_views(out@).to_multiset());
    }
    out
}

/// Merges the packaged actions and the user's own.
pub fn arrange(system: &Vec<Action>, user: &Vec<Action>) -> (r: Vec<Action>)
    ensures
        arranged(action_views(system@) + action_views(user@), action_views(r@)),
{
    let ghost first = action_views(system@);
    let ghost second = action_views(user@);
    let ghost all = first + second;
    let mut merged: Vec<Action> = Vec::new();
    assert(action_views(merged@) =~= by_id(all.take(0)));
    for i in 0..system.len()
        invariant
            first == action_views(system@),
            all == first + second,
            action_views(merged@) == by_id(all.take(i as int)),
    {
        put_action(&mut merged, system[i].clone());
        proof {
            assert(all.take(i + 1).drop_last() =~= all.take(i as int));
            assert(all.take(i + 1).last() == system@[i as int]@);
        }
    }
    for i in 0..user.len()
        invariant
            first == action_views(system@),
            second == action_views(user@),
            all == first + second,
            action_views(merged@) == by_id(all.take(first.len() + i)),
    {
        put_action(&mut merged, user[i].clone());
        proof {
            assert(all.take(first.len() + i + 1).drop_last() =~= all.take(first.len() + i));
            assert(all.take(first.len() + i + 1).last() == user@[i as int]@);
        }
    }
    proof {
        assert(all.take((first.len() + second.len()) as int) =~= all);
        lemma_by_id(all);
    }
    rank(merged)
}

/// The settings that a text of `config.toml` holds; without the file, those of
/// a fresh install.
pub open spec fn settings(text: Option<Seq<char>>) -> Option<ConfigView> {
    match text {
        None => Some(default_config()),
        Some(text) => match toml_document(text) {
            Ok(doc) => if config_fits(doc) {
                Some(config_from(doc))
            } else {
                None
            },
            Err(_) => None,
        },
    }
}

/// Whether a result is what loading comes to, from the text of `config.toml` and
/// the packaged and the user's manifests, each with its path.
pub open spec fn is_load_outcome(
    r: Result<(Loaded, Vec<Refused>), ConfigError>,
    config: Option<Seq<char>>,
    system: Seq<(Seq<char>, Seq<char>)>,
    user: Seq<(Seq<char>, Seq<char>)>,
) -> bool {
    match r {
        Ok(loaded) => {
            &&& settings(config) == Some(loaded.0@.config)
            &&& arranged(declared(system) + declared(user), loaded.0@.actions)
            &&& refused_views(loaded.1@) == refusals(system) + refusals(user)
        },
        Err(_) => settings(config) is None,
    }
}

/// Loads the settings and the actions from what was read from disk: the text
/// of `config.toml`, if there is one, and the manifests of the packaged and of
/// the user's actions directory. A faulty manifest is refused and reported;
/// a faulty `config.toml` is an error.
pub fn load(
    config: Option<&str>,
    system: &Vec<ManifestFile>,
    user: &Vec<ManifestFile>,
) -> (r: Result<(Loaded, Vec<Refused>), ConfigError>)
    ensures
        is_load_outcome(
            r,
            match config {
                Some(text) => Some(text@),
                None => None,
            },
            file_views(system@),
            file_views(user@),
        ),
        match config {
            None => r is Ok,
            Some(text) => match toml_document(text@) {
                Ok(doc) => if config_fits(doc) {
                    r is Ok
                } else {
                    r matches Err(ConfigError::Schema(misfit)) && misfit@ == config_misfit(doc)
                },
                Err(message) => r matches Err(ConfigError::Syntax(m)) && m@ == message,
            },
        },
        r matches Ok(loaded) ==> {
            &&& settings(
                match config {
                    Some(text) => Some(text@),
                    None => None,
                },
            ) == Some(loaded.0@.config)
            &&& arranged(
                declared(file_views(system@)) + declared(file_views(user@)),
                loaded.0@.actions,
            )
            &&& refused_views(loaded.1@) == refusals(file_views(system@)) + refusals(
                file_views(user@),
            )
        },
{
    let config = match config {
        None => Config::default(),
        Some(text) => match parse_config(text) {
            Ok(config) => config,
            Err(error) => return Err(error),
        },
    };
    let (packaged, mut refused) = read_manifests(system);
    let (own, mut more) = read_manifests(user);
    let actions = arrange(&packaged, &own);
    let ghost first = refused@;
    let ghost second = more@;
    refused.append(&mut more);
    assert(refused_views(refused@) =~= refused_views(first) + refused_views(second));
    Ok((Loaded { config, actions }, refused))
}

// ---------------------------------------------------------------------------
// What merging promises
// ---------------------------------------------------------------------------

/// Where two lists are merged, the last action with an id is the second
/// list's if it has one.
proof fn lemma_last_of_two(system: Seq<ActionView>, user: Seq<ActionView>, id: Seq<char>)
    ensures
        last_with(system + user, id) == (match last_with(user, id) {
            Some(action) => Some(action),
            None => last_with(system, id),
        }),
    decreases user.len(),
{
    let all = system + user;
    if user.len() == 0 {
        assert(all =~= system);
    } else {
        assert(all.last() == user.last());
        assert(all.drop_last() =~= system + user.drop_last());
        lemma_last_of_two(system, user.drop_last(), id);
    }
}

/// A user's action replaces the packaged one with its id: an action is offered
/// exactly if it is the last of the user's with its id, or the last of the
/// packaged with its id while the user has none.
pub proof fn law_user_actions_win(
    system: Seq<ActionView>,
    user: Seq<ActionView>,
    out: Seq<ActionView>,
    action: ActionView,
)
    requires
        arranged(system + user, out),
    ensures
        out.contains(action) <==> (match last_with(user, action.spec.id) {
            Some(winner) => winner == action,
            None => last_with(system, action.spec.id) == Some(action),
        }),
{
    let all = system + user;
    lemma_by_id(all);
    lemma_last_of_two(system, user, action.spec.id);
    out.to_multiset_ensures();
    by_id(all).to_multiset_ensures();
    assert(out.contains(action) <==> out.to_multiset().count(action) > 0);
    assert(by_id(all).contains(action) <==> by_id(all).to_multiset().count(action) > 0);
    assert(by_id(all).contains(action) <==> last_with(all, action.spec.id) == Some(action));
}

/// No two actions that are offered share an id.
pub proof fn law_ids_are_unique(all: Seq<ActionView>, out: Seq<ActionView>, i: int, j: int)
    requires
        arranged(all, out),
        0 <= i < j < out.len(),
    ensures
        out[i].spec.id != out[j].spec.id,
{
    lemma_by_id(all);
    let merged = by_id(all);
    out.to_multiset_ensures();
    merged.to_multiset_ensures();
    assert(out.contains(out[i]) && out.contains(out[j]));
    assert(out.to_multiset().count(out[i]) > 0 && out.to_multiset().count(out[j]) > 0);
    assert(merged.contains(out[i]) && merged.contains(out[j]));
    if out[i].spec.id == out[j].spec.id {
        assert(last_with(all, out[i].spec.id) == Some(out[i]));
        assert(last_with(all, out[j].spec.id) == Some(out[j]));
        assert(ranks_before(out[i], out[j]));
        lemma_sorts_irreflexive(out[i].spec.id);
    }
}

/// The outcome of a merge is fixed: two arrangements of the same actions are
/// the same.
pub proof fn law_arrangement_is_unique(
    all: Seq<ActionView>,
    a: Seq<ActionView>,
    b: Seq<ActionView>,
)
    requires
        arranged(all, a),
        arranged(all, b),
    ensures
        a == b,
{
    lemma_ranked_unique(a, b);
}

/// Nothing ranks before itself, nor two actions before each other.
proof fn lemma_ranks_asymmetric(a: ActionView, b: ActionView)
    requires
        ranks_before(a, b),
    ensures
        !ranks_before(b, a),
{
    if ranks_before(b, a) {
        lemma_ranks_transitive(a, b, a);
        lemma_sorts_irreflexive(a.spec.id);
    }
}

/// Two lists in rank order with the same actions are the same.
proof fn lemma_ranked_unique(a: Seq<ActionView>, b: Seq<ActionView>)
    requires
        ranked(a),
        ranked(b),
        a.to_multiset() == b.to_multiset(),
    ensures
        a == b,
    decreases a.len(),
{
    a.to_multiset_ensures();
    b.to_multiset_ensures();
    assert(a.len() == b.len());
    if a.len() > 0 {
        let x = a.last();
        let y = b.last();
        assert(a.contains(x) && b.contains(y));
        assert(a.to_multiset().count(x) > 0 && b.to_multiset().count(y) > 0);
        assert(b.contains(x) && a.contains(y));
        let i = choose|i: int| 0 <= i < b.len() && b[i] == x;
        let j = choose|j: int| 0 <= j < a.len() && a[j] == y;
        if i < b.len() - 1 && j < a.len() - 1 {
            assert(ranks_before(b[i], b[b.len() - 1]));
            assert(ranks_before(a[j], a[a.len() - 1]));
            lemma_ranks_asymmetric(x, y);
        }
        assert(x == y);
        broadcast use vstd::seq_lib::group_to_multiset_ensures;

        assert(a =~= a.drop_last().push(x));
        assert(b =~= b.drop_last().push(y));
        assert(a.to_multiset() == a.drop_last().to_multiset().insert(x));
        assert(b.to_multiset() == b.drop_last().to_multiset().insert(x));
        assert(a.to_multiset().remove(x) =~= a.drop_last().to_multiset());
        assert(b.to_multiset().remove(x) =~= b.drop_last().to_multiset());
        lemma_ranked_unique(a.drop_last(), b.drop_last());
    } else {
        assert(a =~= b);
    }
}

/// A file is a manifest exactly if its name is something and `.toml`.
pub proof fn law_manifests_end_in_toml(stem: Seq<char>, name: Seq<char>)
    ensures
        names_manifest(stem + ".toml"@) <==> stem.len() > 0,
        names_manifest(name) ==> exists|stem: Seq<char>| stem.len() > 0 && name == stem + ".toml"@,
{
    reveal_strlit(".toml");
    law_prefixes_and_suffixes_are_the_ends(name, stem, ".toml"@);
    if names_manifest(name) {
        let stem = name.take(name.len() - 5);
        assert(name =~= stem + ".toml"@);
    }
}

/// A file that declares an action adds it, with the path it came from and nothing
/// else changed. One that does not is reported, under its path, and adds none.
pub proof fn law_a_file_adds_an_action_or_a_refusal(
    files: Seq<(Seq<char>, Seq<char>)>,
    path: Seq<char>,
    text: Seq<char>,
)
    ensures
        declared(Seq::empty()).len() == 0 && refusals(Seq::empty()).len() == 0,
        match manifest_outcome(text) {
            Ok(action) => {
                &&& declared(files.push((path, text))) == declared(files).push(
                    ActionView {
                        spec: action.spec,
                        match_re: action.match_re,
                        not_match: action.not_match,
                        origin: path,
                    },
                )
                &&& refusals(files.push((path, text))) == refusals(files)
            },
            Err(refusal) => {
                &&& declared(files.push((path, text))) == declared(files)
                &&& refusals(files.push((path, text))) == refusals(files).push((path, refusal))
            },
        },
{
    assert(files.push((path, text)).drop_last() =~= files);
}

/// Actions are shown by their `order`, the smaller first, and among equals by
/// their id.
pub proof fn law_actions_are_shown_by_order_and_id(
    all: Seq<ActionView>,
    out: Seq<ActionView>,
    i: int,
    j: int,
)
    requires
        arranged(all, out),
        0 <= i < j < out.len(),
    ensures
        out[i].spec.order <= out[j].spec.order,
        out[i].spec.order == out[j].spec.order ==> sorts_before(out[i].spec.id, out[j].spec.id),
{
    assert(ranks_before(out[i], out[j]));
}

/// The last action with an id is found.
proof fn lemma_last_with(actions: Seq<ActionView>, k: int)
    requires
        0 <= k < actions.len(),
        forall|j: int|
            k < j < actions.len() ==> (#[trigger] actions[j]).spec.id != actions[k].spec.id,
    ensures
        last_with(actions, actions[k].spec.id) == Some(actions[k]),
    decreases actions.len(),
{
    if k < actions.len() - 1 {
        let fewer = actions.drop_last();
        assert(actions[actions.len() - 1].spec.id != actions[k].spec.id);
        assert forall|j: int| k < j < fewer.len() implies (#[trigger] fewer[j]).spec.id
            != fewer[k].spec.id by {
            assert(fewer[j] == actions[j]);
        }
        lemma_last_with(fewer, k);
    }
}

/// What is found as the last action with an id has that id and is one of them.
proof fn lemma_last_with_is_one(actions: Seq<ActionView>, id: Seq<char>) -> (k: int)
    requires
        last_with(actions, id) is Some,
    ensures
        0 <= k < actions.len(),
        actions[k].spec.id == id,
        last_with(actions, id) == Some(actions[k]),
        forall|j: int| k < j < actions.len() ==> (#[trigger] actions[j]).spec.id != id,
    decreases actions.len(),
{
    if actions.last().spec.id == id {
        actions.len() - 1
    } else {
        let k = lemma_last_with_is_one(actions.drop_last(), id);
        assert forall|j: int| k < j < actions.len() implies (#[trigger] actions[j]).spec.id
            != id by {
            if j < actions.len() - 1 {
                assert(actions.drop_last()[j] == actions[j]);
            }
        }
        k
    }
}

/// What is loaded: of the packaged manifests and then the user's, the last action
/// of each id, and nothing else. So a user's action takes the place of a packaged
/// one, and of two in one directory the later one stays.
pub proof fn law_the_last_declaration_of_an_id_is_loaded(
    r: Result<(Loaded, Vec<Refused>), ConfigError>,
    config: Option<Seq<char>>,
    system: Seq<(Seq<char>, Seq<char>)>,
    user: Seq<(Seq<char>, Seq<char>)>,
    k: int,
    action: ActionView,
)
    requires
        is_load_outcome(r, config, system, user),
        r is Ok,
        0 <= k < declared(system).len() + declared(user).len(),
    ensures
        ({
            let all = declared(system) + declared(user);
            let out = r->Ok_0.0@.actions;
            &&& (forall|j: int|
                k < j < all.len() ==> (#[trigger] all[j]).spec.id != all[k].spec.id)
                ==> out.contains(all[k])
            &&& out.contains(action) ==> exists|i: int|
                0 <= i < all.len() && #[trigger] all[i] == action && forall|j: int|
                    i < j < all.len() ==> (#[trigger] all[j]).spec.id != action.spec.id
        }),
{
    let all = declared(system) + declared(user);
    let out = r->Ok_0.0@.actions;
    lemma_by_id(all);
    out.to_multiset_ensures();
    by_id(all).to_multiset_ensures();
    assert forall|x: ActionView| #[trigger] out.contains(x) <==> last_with(all, x.spec.id)
        == Some(x) by {
        assert(out.contains(x) <==> out.to_multiset().count(x) > 0);
        assert(by_id(all).contains(x) <==> by_id(all).to_multiset().count(x) > 0);
        assert(by_id(all).contains(x) <==> last_with(all, x.spec.id) == Some(x));
    }
    if forall|j: int| k < j < all.len() ==> (#[trigger] all[j]).spec.id != all[k].spec.id {
        lemma_last_with(all, k);
        assert(out.contains(all[k]));
    }
    if out.contains(action) {
        let i = lemma_last_with_is_one(all, action.spec.id);
        assert(all[i] == action);
    }
}

/// Without a `config.toml` the settings are those of a fresh install; one that is
/// not TOML or holds something strange fails the loading. A refused manifest does
/// not: each is reported, those of the user behind the packaged ones.
pub proof fn law_loading_fails_for_the_settings_alone(
    r: Result<(Loaded, Vec<Refused>), ConfigError>,
    text: Seq<char>,
    system: Seq<(Seq<char>, Seq<char>)>,
    user: Seq<(Seq<char>, Seq<char>)>,
)
    ensures
        is_load_outcome(r, None, system, user) ==> r is Ok && r->Ok_0.0@.config == default_config(),
        is_load_outcome(r, Some(text), system, user) ==> match toml_document(text) {
            Err(_) => r is Err,
            Ok(doc) => {
                &&& r is Ok <==> config_fits(doc)
                &&& r is Ok ==> r->Ok_0.0@.config == config_from(doc)
            },
        },
        is_load_outcome(r, Some(text), system, user) && r is Ok ==> refused_views(r->Ok_0.1@)
            == refusals(system) + refusals(user),
{
}

} // verus!
