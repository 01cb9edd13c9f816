//! What the running compositor can do.
//!
//! grabit needs separate capabilities and no compositor is guaranteed to have
//! all of them, so they are detected independently rather than inferred from a
//! desktop-environment name.

use vstd::prelude::*;

use crate::text::same_text;

verus! {

/// What the session supports.
#[derive(Debug, Clone, Copy, PartialEq, Eq, Structural)]
pub struct Capabilities {
    /// The primary selection can be observed without holding focus.
    pub data_control: bool,
    /// A surface can be placed on the overlay layer, covering the whole output.
    pub layer_shell: bool,
    /// Keystrokes can be synthesised, which `after = "replace"` needs.
    pub virtual_keyboard: bool,
    /// The focused application can be identified, which per-app rules need.
    pub foreign_toplevel: bool,
}

impl Capabilities {
    /// Whether the native Wayland front-end can run here.
    pub fn supports_layer_frontend(&self) -> (r: bool)
        ensures
            r == (self.data_control && self.layer_shell),
    {
        self.data_control && self.layer_shell
    }
}

/// The globals that a compositor advertised, each with its version.
#[derive(Debug)]
pub struct Globals {
    interfaces: Vec<(String, u32)>,
}

impl View for Globals {
    type V = Seq<(Seq<char>, u32)>;

    closed spec fn view(&self) -> Seq<(Seq<char>, u32)> {
        self.interfaces@.map_values(|global: (String, u32)| (global.0@, global.1))
    }
}

/// Whether a global of at least a version is advertised.
pub open spec fn advertises(
    globals: Seq<(Seq<char>, u32)>,
    interface: Seq<char>,
    min_version: u32,
) -> bool {
    exists|i: int|
        0 <= i < globals.len() && (#[trigger] globals[i]).0 == interface && globals[i].1
            >= min_version
}

/// What globals amount to. The wlroots data-control protocol gained the primary
/// selection in version 2, so version 1 is no more useful than none.
pub open spec fn capabilities_of(globals: Seq<(Seq<char>, u32)>) -> Capabilities {
    Capabilities {
        data_control: advertises(globals, "ext_data_control_manager_v1"@, 1) || advertises(
            globals,
            "zwlr_data_control_manager_v1"@,
            2,
        ),
        layer_shell: advertises(globals, "zwlr_layer_shell_v1"@, 1),
        virtual_keyboard: advertises(globals, "zwp_virtual_keyboard_manager_v1"@, 1),
        foreign_toplevel: advertises(globals, "zwlr_foreign_toplevel_manager_v1"@, 1),
    }
}

impl Globals {
    /// None yet.
    pub fn new() -> (r: Self)
        ensures
            r@ == Seq::<(Seq<char>, u32)>::empty(),
    {
        let r = Globals { interfaces: Vec::new() };
        assert(r@ =~= Seq::<(Seq<char>, u32)>::empty());
        r
    }

    /// One was advertised.
    pub fn advertised(&mut self, interface: String, version: u32)
        ensures
            final(self)@ == old(self)@.push((interface@, version)),
    {
        let ghost before = self@;
        let ghost name = interface@;
        self.interfaces.push((interface, version));
        assert(self@ =~= before.push((name, version)));
    }

    /// Whether a global of at least a version is advertised.
    pub fn has(&self, interface: &str, min_version: u32) -> (r: bool)
        ensures
            r == advertises(self@, interface@, min_version),
    {
        for i in 0..self.interfaces.len()
            invariant
                self@.len() == self.interfaces@.len(),
                forall|k: int|
                    0 <= k < i ==> !((#[trigger] self@[k]).0 == interface@ && self@[k].1
                        >= min_version),
        {
            assert(self@[i as int] == (
                self.interfaces@[i as int].0@,
                self.interfaces@[i as int].1,
            ));
            if same_text(self.interfaces[i].0.as_str(), interface) && self.interfaces[i].1
                >= min_version {
                return true;
            }
        }
        false
    }

    /// What the globals amount to.
    pub fn capabilities(&self) -> (r: Capabilities)
        ensures
            r == capabilities_of(self@),
    {
        Capabilities {
            data_control: self.has("ext_data_control_manager_v1", 1) || self.has(
                "zwlr_data_control_manager_v1",
                2,
            ),
            layer_shell: self.has("zwlr_layer_shell_v1", 1),
            virtual_keyboard: self.has("zwp_virtual_keyboard_manager_v1", 1),
            foreign_toplevel: self.has("zwlr_foreign_toplevel_manager_v1", 1),
        }
    }
}

/// Which front-end a session gets.
#[derive(Debug, Clone, Copy, PartialEq, Eq, Structural)]
pub enum Frontend {
    /// The native one.
    Layer,
    /// The GNOME Shell extension.
    Gnome,
    /// None can run here.
    Unsupported,
}

/// Which front-end a session gets. The native one is preferred.
pub open spec fn frontend_of(capabilities: Capabilities, gnome: bool) -> Frontend {
    if capabilities.data_control && capabilities.layer_shell {
        Frontend::Layer
    } else if gnome {
        Frontend::Gnome
    } else {
        Frontend::Unsupported
    }
}

/// Decides which front-end a session gets.
pub fn choose_frontend(capabilities: &Capabilities, gnome: bool) -> (r: Frontend)
    ensures
        r == frontend_of(*capabilities, gnome),
{
    if capabilities.supports_layer_frontend() {
        Frontend::Layer
    } else if gnome {
        Frontend::Gnome
    } else {
        Frontend::Unsupported
    }
}

/// Version 1 of the wlroots protocol alone is reported as no selection
/// monitoring.
pub proof fn law_version_one_does_not_watch(globals: Seq<(Seq<char>, u32)>)
    requires
        forall|i: int|
            0 <= i < globals.len() ==> (#[trigger] globals[i]).0 != "ext_data_control_manager_v1"@,
        forall|i: int|
            0 <= i < globals.len() && (#[trigger] globals[i]).0
                == "zwlr_data_control_manager_v1"@ ==> globals[i].1 <= 1,
    ensures
        !capabilities_of(globals).data_control,
{
}

/// More globals never take a capability away.
pub proof fn law_capabilities_only_grow(
    globals: Seq<(Seq<char>, u32)>,
    more: (Seq<char>, u32),
)
    ensures
        ({
            let before = capabilities_of(globals);
            let after = capabilities_of(globals.push(more));
            &&& before.data_control ==> after.data_control
            &&& before.layer_shell ==> after.layer_shell
            &&& before.virtual_keyboard ==> after.virtual_keyboard
            &&& before.foreign_toplevel ==> after.foreign_toplevel
        }),
{
    let grown = globals.push(more);
    assert forall|interface: Seq<char>, version: u32| #[trigger]
        advertises(globals, interface, version) implies advertises(
        grown,
        interface,
        version,
    ) by {
        let i = choose|i: int|
            0 <= i < globals.len() && (#[trigger] globals[i]).0 == interface && globals[i].1
                >= version;
        assert(grown[i] == globals[i]);
    }
}

/// A global gives the capability that it is for: either data-control protocol the
/// selection, the layer shell the overlay, the virtual keyboard the keystrokes,
/// and the foreign toplevels the focused application. Without such a global there
/// is no such capability.
pub proof fn law_globals_give_what_they_are_for(globals: Seq<(Seq<char>, u32)>, i: int)
    requires
        0 <= i < globals.len(),
    ensures
        ({
            let has = capabilities_of(globals);
            let name = globals[i].0;
            let version = globals[i].1;
            &&& name == "ext_data_control_manager_v1"@ && version >= 1 ==> has.data_control
            &&& name == "zwlr_data_control_manager_v1"@ && version >= 2 ==> has.data_control
            &&& name == "zwlr_layer_shell_v1"@ && version >= 1 ==> has.layer_shell
            &&& name == "zwp_virtual_keyboard_manager_v1"@ && version >= 1 ==> has.virtual_keyboard
            &&& name == "zwlr_foreign_toplevel_manager_v1"@ && version >= 1 ==> has.foreign_toplevel
        }),
        (forall|k: int|
            0 <= k < globals.len() ==> (#[trigger] globals[k]).0 != "zwlr_layer_shell_v1"@)
            ==> !capabilities_of(globals).layer_shell,
        (forall|k: int|
            0 <= k < globals.len() ==> (#[trigger] globals[k]).0
                != "zwp_virtual_keyboard_manager_v1"@) ==> !capabilities_of(globals).virtual_keyboard,
        (forall|k: int|
            0 <= k < globals.len() ==> (#[trigger] globals[k]).0
                != "zwlr_foreign_toplevel_manager_v1"@) ==> !capabilities_of(
            globals,
        ).foreign_toplevel,
        capabilities_of(Seq::empty()) == (Capabilities {
            data_control: false,
            layer_shell: false,
            virtual_keyboard: false,
            foreign_toplevel: false,
        }),
{
}

/// The native front-end runs exactly where the selection can be watched and a
/// surface can be placed; elsewhere the shell extension does, if it is there.
pub proof fn law_the_native_frontend_is_preferred(capabilities: Capabilities, gnome: bool)
    ensures
        frontend_of(capabilities, gnome) == Frontend::Layer <==> capabilities.data_control
            && capabilities.layer_shell,
        frontend_of(capabilities, gnome) == Frontend::Gnome <==> gnome && !(
        capabilities.data_control && capabilities.layer_shell),
        frontend_of(capabilities, gnome) == Frontend::Unsupported <==> !gnome && !(
        capabilities.data_control && capabilities.layer_shell),
{
}

} // verus!
