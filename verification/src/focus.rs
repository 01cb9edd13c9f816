//! Tracking which application is focused, for the per-app rules.
//!
//! A compositor names each toplevel and says which one is activated, in
//! separate events in unspecified order; both halves are remembered.

use std::collections::HashMap;
use vstd::prelude::*;

use crate::config::copy_maybe;
use crate::text::same_text;
#[allow(unused_imports)]
use crate::text::maybe_text;

verus! {

broadcast use vstd::std_specs::hash::group_hash_axioms;

/// The flag that marks an activated toplevel.
pub const ACTIVATED: u32 = 2;

/// The app id of the focused application, as far as it is known.
#[derive(Debug)]
pub struct Handle {
    current: Option<String>,
}

impl View for Handle {
    type V = Option<Seq<char>>;

    closed spec fn view(&self) -> Option<Seq<char>> {
        maybe_text(self.current)
    }
}

impl Handle {
    /// Nothing is known.
    pub fn new() -> (r: Self)
        ensures
            r@ is None,
    {
        Handle { current: None }
    }

    /// The app id of the currently activated toplevel, if one is known.
    pub fn current(&self) -> (r: Option<String>)
        ensures
            maybe_text(r) == self@,
    {
        copy_maybe(&self.current)
    }
}

/// The number that four bytes stand for.
pub open spec fn word(bytes: Seq<u8>, at: int, big_endian: bool) -> int {
    if big_endian {
        bytes[at] * 0x1000000 + bytes[at + 1] * 0x10000 + bytes[at + 2] * 0x100 + bytes[at + 3]
    } else {
        bytes[at + 3] * 0x1000000 + bytes[at + 2] * 0x10000 + bytes[at + 1] * 0x100 + bytes[at]
    }
}

/// Whether one of the flags at or after `at` is that of an activated toplevel.
/// Bytes that do not make up a whole flag do not count.
pub open spec fn activated_from(bytes: Seq<u8>, at: int, big_endian: bool) -> bool
    decreases bytes.len() - at,
{
    if at < 0 || at + 4 > bytes.len() {
        false
    } else {
        word(bytes, at, big_endian) == ACTIVATED || activated_from(bytes, at + 4, big_endian)
    }
}

/// Whether the flags on the wire say that a toplevel is activated. They are
/// numbers of four bytes in the byte order of the machine.
pub fn is_activated(bytes: &[u8], big_endian: bool) -> (r: bool)
    ensures
        r == activated_from(bytes@, 0, big_endian),
{
    let mut at: usize = 0;
    while bytes.len() - at >= 4
        invariant
            at <= bytes.len(),
            activated_from(bytes@, 0, big_endian) == activated_from(
                bytes@,
                at as int,
                big_endian,
            ),
        decreases bytes.len() - at,
    {
        let flag: u64 = if big_endian {
            bytes[at] as u64 * 0x1000000 + bytes[at + 1] as u64 * 0x10000 + bytes[at + 2] as u64
                * 0x100 + bytes[at + 3] as u64
        } else {
            bytes[at + 3] as u64 * 0x1000000 + bytes[at + 2] as u64 * 0x10000 + bytes[at
                + 1] as u64 * 0x100 + bytes[at] as u64
        };
        if flag == ACTIVATED as u64 {
            return true;
        }
        at = at + 4;
    }
    false
}

/// The version to bind a global at: the manager of toplevels, once, at no more
/// than the third version.
pub open spec fn manager_version(interface: Seq<char>, version: u32, bound: bool) -> Option<u32> {
    if interface != "zwlr_foreign_toplevel_manager_v1"@ || bound {
        None
    } else if version <= 3 {
        Some(version)
    } else {
        Some(3)
    }
}

/// Decides whether, and at which version, to bind a global.
pub fn bind_version(interface: &str, version: u32, bound: bool) -> (r: Option<u32>)
    ensures
        r == manager_version(interface@, version, bound),
{
    if !same_text(interface, "zwlr_foreign_toplevel_manager_v1") || bound {
        None
    } else if version <= 3 {
        Some(version)
    } else {
        Some(3)
    }
}

/// What one toplevel has told so far.
#[derive(Debug)]
pub struct Toplevel {
    pub app_id: String,
    pub activated: bool,
}

/// A toplevel in specifications.
pub struct ToplevelView {
    pub app_id: Seq<char>,
    pub activated: bool,
}

impl View for Toplevel {
    type V = ToplevelView;

    open spec fn view(&self) -> ToplevelView {
        ToplevelView { app_id: self.app_id@, activated: self.activated }
    }
}

/// The toplevels and which application has the focus.
#[derive(Debug)]
pub struct Tracker {
    handle: Handle,
    toplevels: HashMap<u64, Toplevel>,
}

/// The tracker in specifications.
#[verifier::ext_equal]
pub struct TrackerView {
    pub current: Option<Seq<char>>,
    pub toplevels: Map<u64, ToplevelView>,
}

impl View for Tracker {
    type V = TrackerView;

    closed spec fn view(&self) -> TrackerView {
        TrackerView {
            current: self.handle@,
            toplevels: self.toplevels@.map_values(|toplevel: Toplevel| toplevel@),
        }
    }
}

/// A toplevel told its name.
pub open spec fn named_step(state: TrackerView, id: u64, app_id: Seq<char>) -> TrackerView {
    if state.toplevels.contains_key(id) {
        let known = state.toplevels[id];
        TrackerView {
            current: if known.activated {
                Some(app_id)
            } else {
                state.current
            },
            toplevels: state.toplevels.insert(id, ToplevelView { app_id, ..known }),
        }
    } else {
        state
    }
}

/// A toplevel told whether it is activated.
pub open spec fn activation_step(state: TrackerView, id: u64, activated: bool) -> TrackerView {
    if state.toplevels.contains_key(id) {
        let known = state.toplevels[id];
        TrackerView {
            current: if activated && known.app_id.len() > 0 {
                Some(known.app_id)
            } else {
                state.current
            },
            toplevels: state.toplevels.insert(id, ToplevelView { activated, ..known }),
        }
    } else {
        state
    }
}

/// A toplevel is gone. If it had the focus, nothing has until something else
/// is activated.
pub open spec fn closed_step(state: TrackerView, id: u64) -> TrackerView {
    if state.toplevels.contains_key(id) {
        let known = state.toplevels[id];
        TrackerView {
            current: if known.activated && known.app_id.len() > 0 {
                None
            } else {
                state.current
            },
            toplevels: state.toplevels.remove(id),
        }
    } else {
        state
    }
}

/// A toplevel appeared.
pub open spec fn opened_step(state: TrackerView, id: u64) -> TrackerView {
    TrackerView {
        toplevels: state.toplevels.insert(
            id,
            ToplevelView { app_id: Seq::empty(), activated: false },
        ),
        ..state
    }
}

impl Tracker {
    /// Nothing is known.
    pub fn new() -> (r: Self)
        ensures
            r@ == (TrackerView { current: None, toplevels: Map::empty() }),
    {
        let r = Tracker { handle: Handle::new(), toplevels: HashMap::new() };
        assert(r@.toplevels =~= Map::<u64, ToplevelView>::empty());
        r
    }

    /// The application that has the focus.
    pub fn handle(&self) -> (r: &Handle)
        ensures
            r@ == self@.current,
    {
        &self.handle
    }

    /// A toplevel appeared.
    pub fn opened(&mut self, id: u64)
        ensures
            final(self)@ == opened_step(old(self)@, id),
            final(self)@ == (TrackerView {
                toplevels: old(self)@.toplevels.insert(
                    id,
                    ToplevelView { app_id: Seq::empty(), activated: false },
                ),
                ..old(self)@
            }),
    {
        let ghost before = self@;
        let fresh = Toplevel { app_id: String::new(), activated: false };
        assert(fresh@.app_id =~= Seq::<char>::empty());
        self.toplevels.insert(id, fresh);
        assert(self@.toplevels =~= before.toplevels.insert(
            id,
            ToplevelView { app_id: Seq::empty(), activated: false },
        ));
    }

    /// A toplevel told its name.
    pub fn named(&mut self, id: u64, app_id: String)
        ensures
            final(self)@ == named_step(old(self)@, id, app_id@),
    {
        let ghost before = self@;
        match self.toplevels.remove(&id) {
            Some(known) => {
                assert(known@ == before.toplevels[id]);
                if known.activated {
                    self.handle = Handle { current: Some(app_id.clone()) };
                }
                let ghost name = app_id@;
                self.toplevels.insert(id, Toplevel { app_id, activated: known.activated });
                assert(self@.toplevels =~= named_step(before, id, name).toplevels);
            },
            None => {
                assert(self@.toplevels =~= before.toplevels);
            },
        }
    }

    /// A toplevel told whether it is activated.
    pub fn activation(&mut self, id: u64, activated: bool)
        ensures
            final(self)@ == activation_step(old(self)@, id, activated),
    {
        let ghost before = self@;
        match self.toplevels.remove(&id) {
            Some(known) => {
                assert(known@ == before.toplevels[id]);
                if activated && !known.app_id.as_str().is_empty() {
                    self.handle = Handle { current: Some(known.app_id.clone()) };
                }
                self.toplevels.insert(id, Toplevel { app_id: known.app_id, activated });
                assert(self@.toplevels =~= activation_step(before, id, activated).toplevels);
            },
            None => {
                assert(self@.toplevels =~= before.toplevels);
            },
        }
    }

    /// A toplevel is gone.
    pub fn closed(&mut self, id: u64)
        ensures
            final(self)@ == closed_step(old(self)@, id),
    {
        let ghost before = self@;
        match self.toplevels.remove(&id) {
            Some(known) => {
                assert(known@ == before.toplevels[id]);
                if known.activated && !known.app_id.as_str().is_empty() {
                    self.handle = Handle { current: None };
                }
                assert(self@.toplevels =~= closed_step(before, id).toplevels);
            },
            None => {
                assert(self@.toplevels =~= before.toplevels);
            },
        }
    }
}

/// It makes no difference whether a toplevel first tells its name or first that
/// it is activated: either way it has the focus then.
pub proof fn law_the_order_of_name_and_activation_does_not_matter(
    state: TrackerView,
    id: u64,
    app_id: Seq<char>,
)
    requires
        state.toplevels.contains_key(id),
        app_id.len() > 0,
    ensures
        activation_step(named_step(state, id, app_id), id, true) == named_step(
            activation_step(state, id, true),
            id,
            app_id,
        ),
        activation_step(named_step(state, id, app_id), id, true).current == Some(app_id),
{
    let first = activation_step(named_step(state, id, app_id), id, true);
    let second = named_step(activation_step(state, id, true), id, app_id);
    assert(first.toplevels =~= second.toplevels);
}

/// Once the focused toplevel is gone, no application has the focus.
pub proof fn law_a_closed_toplevel_has_no_focus(state: TrackerView, id: u64)
    requires
        state.toplevels.contains_key(id),
        state.toplevels[id].activated,
        state.toplevels[id].app_id.len() > 0,
    ensures
        closed_step(state, id).current is None,
        !closed_step(state, id).toplevels.contains_key(id),
{
}

/// A toplevel that tells its name has the focus under that name if it is
/// activated, and is remembered under it. One that is not known changes nothing,
/// and no other toplevel is touched.
pub proof fn law_a_name_is_remembered(state: TrackerView, id: u64, app_id: Seq<char>, other: u64)
    ensures
        ({
            let after = named_step(state, id, app_id);
            &&& !state.toplevels.contains_key(id) ==> after == state
            &&& state.toplevels.contains_key(id) ==> {
                &&& after.toplevels.contains_key(id)
                &&& after.toplevels[id].app_id == app_id
                &&& after.toplevels[id].activated == state.toplevels[id].activated
                &&& state.toplevels[id].activated ==> after.current == Some(app_id)
                &&& !state.toplevels[id].activated ==> after.current == state.current
            }
            &&& other != id ==> (after.toplevels.contains_key(other)
                <==> state.toplevels.contains_key(other)) && after.toplevels[other]
                == state.toplevels[other]
        }),
{
}

/// A toplevel that is activated has the focus if it told its name. One that is
/// deactivated keeps it until another one is activated.
pub proof fn law_activation_gives_the_focus(state: TrackerView, id: u64, other: u64)
    ensures
        ({
            let on = activation_step(state, id, true);
            let off = activation_step(state, id, false);
            &&& !state.toplevels.contains_key(id) ==> on == state && off == state
            &&& state.toplevels.contains_key(id) ==> {
                let name = state.toplevels[id].app_id;
                &&& on.toplevels[id] == (ToplevelView { app_id: name, activated: true })
                &&& off.toplevels[id] == (ToplevelView { app_id: name, activated: false })
                &&& name.len() > 0 ==> on.current == Some(name)
                &&& name.len() == 0 ==> on.current == state.current
                &&& off.current == state.current
            }
            &&& other != id ==> on.toplevels[other] == state.toplevels[other]
                && off.toplevels[other] == state.toplevels[other]
        }),
{
}

/// A toplevel that is gone takes the focus along only if it was activated and had
/// a name, and no other toplevel.
pub proof fn law_closing_takes_its_own_focus_along(state: TrackerView, id: u64, other: u64)
    ensures
        ({
            let after = closed_step(state, id);
            &&& !state.toplevels.contains_key(id) ==> after == state
            &&& state.toplevels.contains_key(id) && (!state.toplevels[id].activated
                || state.toplevels[id].app_id.len() == 0) ==> after.current == state.current
            &&& !after.toplevels.contains_key(id)
            &&& other != id ==> (after.toplevels.contains_key(other)
                <==> state.toplevels.contains_key(other)) && (state.toplevels.contains_key(other)
                ==> after.toplevels[other] == state.toplevels[other])
        }),
{
}

/// A toplevel is activated exactly if one of its flags of four bytes is two, in
/// the byte order of the machine.
pub proof fn law_the_second_flag_is_activation(
    bytes: Seq<u8>,
    at: int,
    big_endian: bool,
)
    requires
        0 <= at,
    ensures
        activated_from(bytes, at, big_endian) <==> exists|k: int|
            0 <= k && at + 4 * k + 4 <= bytes.len() && #[trigger] is_two(
                bytes,
                at + 4 * k,
                big_endian,
            ),
    decreases bytes.len() - at,
{
    if at + 4 <= bytes.len() {
        law_the_second_flag_is_activation(bytes, at + 4, big_endian);
        lemma_words_of_two(bytes, at, big_endian);
        if is_two(bytes, at, big_endian) {
            assert(is_two(bytes, at + 4 * 0, big_endian));
        }
        if activated_from(bytes, at + 4, big_endian) {
            let k = choose|k: int|
                0 <= k && at + 4 + 4 * k + 4 <= bytes.len() && #[trigger] is_two(
                    bytes,
                    at + 4 + 4 * k,
                    big_endian,
                );
            assert(is_two(bytes, at + 4 * (k + 1), big_endian));
        }
        if exists|k: int|
            0 <= k && at + 4 * k + 4 <= bytes.len() && #[trigger] is_two(
                bytes,
                at + 4 * k,
                big_endian,
            ) {
            let k = choose|k: int|
                0 <= k && at + 4 * k + 4 <= bytes.len() && #[trigger] is_two(
                    bytes,
                    at + 4 * k,
                    big_endian,
                );
            if k > 0 {
                assert(is_two(bytes, at + 4 + 4 * (k - 1), big_endian));
            }
        }
    }
}

/// Whether the four bytes at a position are the number two.
pub open spec fn is_two(bytes: Seq<u8>, at: int, big_endian: bool) -> bool {
    if big_endian {
        bytes[at] == 0 && bytes[at + 1] == 0 && bytes[at + 2] == 0 && bytes[at + 3] == 2
    } else {
        bytes[at] == 2 && bytes[at + 1] == 0 && bytes[at + 2] == 0 && bytes[at + 3] == 0
    }
}

/// Four bytes are the flag of activation exactly if they are the number two.
proof fn lemma_words_of_two(bytes: Seq<u8>, at: int, big_endian: bool)
    ensures
        word(bytes, at, big_endian) == ACTIVATED <==> is_two(bytes, at, big_endian),
{
}

/// The manager of toplevels is bound once, at no more than the third version, and
/// nothing else is.
pub proof fn law_the_manager_is_bound_once(name: Seq<char>, version: u32)
    ensures
        manager_version(name, version, true) is None,
        name == "zwlr_foreign_toplevel_manager_v1"@ && version <= 3 ==> manager_version(
            name,
            version,
            false,
        ) == Some(version),
        name == "zwlr_foreign_toplevel_manager_v1"@ && version > 3 ==> manager_version(
            name,
            version,
            false,
        ) == Some(3u32),
        name != "zwlr_foreign_toplevel_manager_v1"@ ==> manager_version(name, version, false)
            is None,
{
}

/// A toplevel that appears has no name and not the focus, and takes it from no
/// other.
pub proof fn law_a_new_toplevel_has_no_focus(state: TrackerView, id: u64, other: u64)
    ensures
        ({
            let after = opened_step(state, id);
            &&& after.current == state.current
            &&& after.toplevels.contains_key(id)
            &&& after.toplevels[id].app_id.len() == 0
            &&& !after.toplevels[id].activated
            &&& other != id ==> (after.toplevels.contains_key(other)
                <==> state.toplevels.contains_key(other)) && (state.toplevels.contains_key(other)
                ==> after.toplevels[other] == state.toplevels[other])
        }),
{
}

} // verus!
