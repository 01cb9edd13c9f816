use grabit::control::{command_of, method_of, Command};
use grabit::detect::{choose_frontend, Capabilities, Frontend, Globals};
use grabit::focus::{bind_version, is_activated, Handle, Tracker};
use grabit::inject::{bind_as, Binding, Injector, KeyEvent, VirtualKeyboard};

#[test]
fn methods_and_commands_go_together() {
    for command in [Command::Show, Command::Hide, Command::Reload, Command::Quit] {
        assert_eq!(command_of(method_of(command)), Some(command));
    }
    assert_eq!(method_of(Command::Reload), "Reload");
    assert_eq!(command_of("show"), None);
}

fn globals(list: &[(&str, u32)]) -> Globals {
    let mut globals = Globals::new();
    for (interface, version) in list {
        globals.advertised(interface.to_string(), *version);
    }
    globals
}

#[test]
fn capabilities_are_detected_one_by_one() {
    let none = globals(&[("wl_seat", 7)]).capabilities();
    assert_eq!(
        none,
        Capabilities {
            data_control: false,
            layer_shell: false,
            virtual_keyboard: false,
            foreign_toplevel: false,
        }
    );
    let all = globals(&[
        ("zwlr_layer_shell_v1", 4),
        ("zwp_virtual_keyboard_manager_v1", 1),
        ("zwlr_foreign_toplevel_manager_v1", 3),
        ("ext_data_control_manager_v1", 1),
    ]);
    let capabilities = all.capabilities();
    assert!(capabilities.data_control && capabilities.layer_shell);
    assert!(capabilities.virtual_keyboard && capabilities.foreign_toplevel);
    assert!(capabilities.supports_layer_frontend());
    assert!(all.has("zwlr_layer_shell_v1", 4));
    assert!(!all.has("zwlr_layer_shell_v1", 5));
}

#[test]
fn version_one_of_wlr_data_control_does_not_watch() {
    assert!(!globals(&[("zwlr_data_control_manager_v1", 1)]).capabilities().data_control);
    assert!(globals(&[("zwlr_data_control_manager_v1", 2)]).capabilities().data_control);
    assert!(globals(&[("zwlr_data_control_manager_v1", 1), ("zwlr_data_control_manager_v1", 2)])
        .capabilities()
        .data_control);
}

#[test]
fn the_native_front_end_is_preferred() {
    let full = globals(&[("ext_data_control_manager_v1", 1), ("zwlr_layer_shell_v1", 1)])
        .capabilities();
    let half = globals(&[("ext_data_control_manager_v1", 1)]).capabilities();
    assert_eq!(choose_frontend(&full, true), Frontend::Layer);
    assert_eq!(choose_frontend(&full, false), Frontend::Layer);
    assert_eq!(choose_frontend(&half, true), Frontend::Gnome);
    assert_eq!(choose_frontend(&half, false), Frontend::Unsupported);
}

#[test]
fn the_activated_flag_is_found_in_either_byte_order() {
    assert!(is_activated(&[0, 0, 0, 0, 2, 0, 0, 0], false));
    assert!(!is_activated(&[0, 0, 0, 0, 2, 0, 0, 0], true));
    assert!(is_activated(&[0, 0, 0, 2], true));
    assert!(!is_activated(&[2, 0, 0], false));
    assert!(!is_activated(&[2, 1, 0, 0], false));
    assert!(!is_activated(&[1, 0, 0, 0, 2, 0], false));
    assert!(!is_activated(&[], false));
}

#[test]
fn name_and_activation_may_come_in_any_order() {
    assert_eq!(Handle::new().current(), None);
    for named_first in [true, false] {
        let mut tracker = Tracker::new();
        tracker.opened(1);
        if named_first {
            tracker.named(1, "editor".to_owned());
            assert_eq!(tracker.handle().current(), None);
            tracker.activation(1, true);
        } else {
            tracker.activation(1, true);
            assert_eq!(tracker.handle().current(), None);
            tracker.named(1, "editor".to_owned());
        }
        assert_eq!(tracker.handle().current(), Some("editor".to_owned()));
        tracker.activation(1, false);
        assert_eq!(tracker.handle().current(), Some("editor".to_owned()));
        tracker.activation(1, true);
        tracker.closed(1);
        assert_eq!(tracker.handle().current(), None);
    }
}

#[test]
fn an_unknown_toplevel_tells_nothing() {
    let mut tracker = Tracker::new();
    tracker.named(5, "x".to_owned());
    tracker.activation(5, true);
    tracker.closed(5);
    assert_eq!(tracker.handle().current(), None);
    tracker.opened(1);
    tracker.named(1, "a".to_owned());
    tracker.activation(1, true);
    tracker.opened(2);
    tracker.named(2, "b".to_owned());
    tracker.closed(2);
    assert_eq!(tracker.handle().current(), Some("a".to_owned()));
}

#[test]
fn globals_are_bound_once() {
    assert_eq!(bind_version("zwlr_foreign_toplevel_manager_v1", 2, false), Some(2));
    assert_eq!(bind_version("zwlr_foreign_toplevel_manager_v1", 5, false), Some(3));
    assert_eq!(bind_version("zwlr_foreign_toplevel_manager_v1", 2, true), None);
    assert_eq!(bind_version("wl_seat", 2, false), None);
    assert_eq!(bind_as("wl_seat", 9, false, false), Some(Binding::Seat(7)));
    assert_eq!(bind_as("wl_seat", 5, false, true), Some(Binding::Seat(5)));
    assert_eq!(bind_as("wl_seat", 5, true, false), None);
    assert_eq!(
        bind_as("zwp_virtual_keyboard_manager_v1", 1, true, false),
        Some(Binding::Manager(1))
    );
    assert_eq!(bind_as("zwp_virtual_keyboard_manager_v1", 1, true, true), None);
}

#[test]
fn pasting_is_control_and_v() {
    let mut keyboard = VirtualKeyboard::new();
    assert_eq!(
        keyboard.paste(),
        vec![
            KeyEvent::Key { time: 11, key: 1, pressed: true },
            KeyEvent::Modifiers(4),
            KeyEvent::Key { time: 21, key: 2, pressed: true },
            KeyEvent::Key { time: 31, key: 2, pressed: false },
            KeyEvent::Modifiers(0),
            KeyEvent::Key { time: 41, key: 1, pressed: false },
        ]
    );
    assert_eq!(
        keyboard.delete(),
        vec![
            KeyEvent::Key { time: 51, key: 3, pressed: true },
            KeyEvent::Key { time: 61, key: 3, pressed: false },
        ]
    );
}

/// An injector that counts.
struct Counting {
    pastes: u32,
    deletes: u32,
}

impl Injector for Counting {
    fn paste(&mut self) -> Result<(), String> {
        self.pastes += 1;
        Ok(())
    }

    fn delete(&mut self) -> Result<(), String> {
        self.deletes += 1;
        Err("no".to_owned())
    }
}

#[test]
fn anything_can_inject() {
    let mut counting = Counting { pastes: 0, deletes: 0 };
    let injector: &mut dyn Injector = &mut counting;
    assert_eq!(injector.paste(), Ok(()));
    assert_eq!(injector.delete(), Err("no".to_owned()));
    assert_eq!((counting.pastes, counting.deletes), (1, 1));
}
