//! Synthesising keystrokes.
//!
//! Replacing the selection means putting the new text on the clipboard and then
//! sending Ctrl+V to whatever still has keyboard focus. That needs exactly one
//! key; typing the text out would need a keymap entry per character.

use vstd::prelude::*;

use crate::text::same_text;

verus! {

/// Something that can synthesise keystrokes into the focused application. A
/// failure says why.
pub trait Injector: Send {
    /// Send Ctrl+V, pasting the clipboard.
    fn paste(&mut self) -> Result<(), String>;

    /// Send Delete, removing the selection.
    fn delete(&mut self) -> Result<(), String>;
}

/// The Control key of the virtual keyboard. The wire protocol counts keys from
/// eight below the number in the keymap.
pub const KEY_CONTROL: u32 = 1;

/// The `v` key of the virtual keyboard.
pub const KEY_V: u32 = 2;

/// The Delete key of the virtual keyboard.
pub const KEY_DELETE: u32 = 3;

/// The `Control` bit in a modifier mask.
pub const MOD_CONTROL: u32 = 4;

/// What to bind a global as, and at which version.
#[derive(Debug, Clone, Copy, PartialEq, Eq, Structural)]
pub enum Binding {
    /// The seat to type at.
    Seat(u32),
    /// The manager of virtual keyboards.
    Manager(u32),
}

/// What to bind a global as: the first seat, at no more than the seventh
/// version, and the first manager.
pub open spec fn binding(
    interface: Seq<char>,
    version: u32,
    has_seat: bool,
    has_manager: bool,
) -> Option<Binding> {
    if interface == "wl_seat"@ && !has_seat {
        Some(
            Binding::Seat(
                if version <= 7 {
                    version
                } else {
                    7
                },
            ),
        )
    } else if interface == "zwp_virtual_keyboard_manager_v1"@ && !has_manager {
        Some(Binding::Manager(1))
    } else {
        None
    }
}

/// Decides whether to bind a global, as what, and at which version.
pub fn bind_as(interface: &str, version: u32, has_seat: bool, has_manager: bool) -> (r: Option<
    Binding,
>)
    ensures
        r == binding(interface@, version, has_seat, has_manager),
{
    if same_text(interface, "wl_seat") && !has_seat {
        Some(
            Binding::Seat(
                if version <= 7 {
                    version
                } else {
                    7
                },
            ),
        )
    } else if same_text(interface, "zwp_virtual_keyboard_manager_v1") && !has_manager {
        Some(Binding::Manager(1))
    } else {
        None
    }
}

/// An event to send to the virtual keyboard.
#[derive(Debug, Clone, Copy, PartialEq, Eq, Structural)]
pub enum KeyEvent {
    /// A key goes down or comes up.
    Key { time: u32, key: u32, pressed: bool },
    /// The modifiers that are held.
    Modifiers(u32),
}

/// A virtual keyboard's clock. Timestamps must increase or compositors drop
/// keys.
#[derive(Debug)]
pub struct VirtualKeyboard {
    time: u32,
}

impl View for VirtualKeyboard {
    type V = u32;

    closed spec fn view(&self) -> u32 {
        self.time
    }
}

/// The next timestamp, which is never zero.
pub open spec fn ticked(time: u32) -> u32 {
    if time + 10 > u32::MAX {
        if time + 10 - u32::MAX - 1 == 0 {
            1
        } else {
            (time + 10 - u32::MAX - 1) as u32
        }
    } else {
        (time + 10) as u32
    }
}

/// What pasting sends. Control is pressed both as a key and as a modifier
/// mask: compositors differ on which one they derive their state from.
pub open spec fn paste_events(time: u32) -> Seq<KeyEvent> {
    let first = ticked(time);
    let second = ticked(first);
    let third = ticked(second);
    let fourth = ticked(third);
    seq![
        KeyEvent::Key { time: first, key: KEY_CONTROL, pressed: true },
        KeyEvent::Modifiers(MOD_CONTROL),
        KeyEvent::Key { time: second, key: KEY_V, pressed: true },
        KeyEvent::Key { time: third, key: KEY_V, pressed: false },
        KeyEvent::Modifiers(0),
        KeyEvent::Key { time: fourth, key: KEY_CONTROL, pressed: false },
    ]
}

/// What deleting sends.
pub open spec fn delete_events(time: u32) -> Seq<KeyEvent> {
    let first = ticked(time);
    let second = ticked(first);
    seq![
        KeyEvent::Key { time: first, key: KEY_DELETE, pressed: true },
        KeyEvent::Key { time: second, key: KEY_DELETE, pressed: false },
    ]
}

impl VirtualKeyboard {
    /// A keyboard that sent nothing yet.
    pub fn new() -> (r: Self)
        ensures
            r@ == 1,
    {
        VirtualKeyboard { time: 1 }
    }

    /// The next timestamp.
    fn tick(&mut self) -> (r: u32)
        ensures
            r == ticked(old(self)@),
            final(self)@ == r,
    {
        let next: u64 = self.time as u64 + 10;
        let limit: u64 = u32::MAX as u64;
        self.time = if next > limit {
            let wrapped: u64 = next - limit - 1;
            if wrapped == 0 {
                1
            } else {
                wrapped as u32
            }
        } else {
            next as u32
        };
        self.time
    }

    /// What to send to paste the clipboard.
    pub fn paste(&mut self) -> (r: Vec<KeyEvent>)
        ensures
            r@ == paste_events(old(self)@),
            final(self)@ == ticked(ticked(ticked(ticked(old(self)@)))),
    {
        let ghost start = self@;
        let first: u32 = self.tick();
        let second: u32 = self.tick();
        let third: u32 = self.tick();
        let fourth: u32 = self.tick();
        let events: Vec<KeyEvent> = vec![
            KeyEvent::Key { time: first, key: KEY_CONTROL, pressed: true },
            KeyEvent::Modifiers(MOD_CONTROL),
            KeyEvent::Key { time: second, key: KEY_V, pressed: true },
            KeyEvent::Key { time: third, key: KEY_V, pressed: false },
            KeyEvent::Modifiers(0),
            KeyEvent::Key { time: fourth, key: KEY_CONTROL, pressed: false },
        ];
        assert(events@ =~= paste_events(start));
        events
    }

    /// What to send to delete the selection.
    pub fn delete(&mut self) -> (r: Vec<KeyEvent>)
        ensures
            r@ == delete_events(old(self)@),
            final(self)@ == ticked(ticked(old(self)@)),
    {
        let ghost start = self@;
        let first: u32 = self.tick();
        let second: u32 = self.tick();
        let events: Vec<KeyEvent> = vec![
            KeyEvent::Key { time: first, key: KEY_DELETE, pressed: true },
            KeyEvent::Key { time: second, key: KEY_DELETE, pressed: false },
        ];
        assert(events@ =~= delete_events(start));
        events
    }
}

// ---------------------------------------------------------------------------
// What the keyboard promises
// ---------------------------------------------------------------------------

/// The keys that are down after events.
pub open spec fn held(events: Seq<KeyEvent>) -> Set<u32>
    decreases events.len(),
{
    if events.len() == 0 {
        Set::empty()
    } else {
        let before = held(events.drop_last());
        match events.last() {
            KeyEvent::Key { time, key, pressed } => if pressed {
                before.insert(key)
            } else {
                before.remove(key)
            },
            KeyEvent::Modifiers(_) => before,
        }
    }
}

/// The modifiers that are held after events.
pub open spec fn modifiers(events: Seq<KeyEvent>) -> u32
    decreases events.len(),
{
    if events.len() == 0 {
        0
    } else {
        match events.last() {
            KeyEvent::Modifiers(mask) => mask,
            KeyEvent::Key { .. } => modifiers(events.drop_last()),
        }
    }
}

/// A keystroke leaves nothing behind: every key that went down came up, and no
/// modifier is held.
pub proof fn law_every_key_comes_up(time: u32)
    ensures
        held(paste_events(time)) == Set::<u32>::empty(),
        modifiers(paste_events(time)) == 0,
        held(delete_events(time)) == Set::<u32>::empty(),
        modifiers(delete_events(time)) == 0,
{
    reveal_with_fuel(held, 7);
    reveal_with_fuel(modifiers, 7);
    let paste = paste_events(time);
    let p5 = paste.drop_last();
    let p4 = p5.drop_last();
    let p3 = p4.drop_last();
    let p2 = p3.drop_last();
    let p1 = p2.drop_last();
    assert(held(p1) =~= set![KEY_CONTROL]);
    assert(held(p2) =~= set![KEY_CONTROL]);
    assert(held(p3) =~= set![KEY_CONTROL, KEY_V]);
    assert(held(p4) =~= set![KEY_CONTROL]);
    assert(held(p5) =~= set![KEY_CONTROL]);
    assert(held(paste) =~= Set::<u32>::empty());
    assert(modifiers(p5) == 0);
    let delete = delete_events(time);
    let d1 = delete.drop_last();
    assert(held(d1) =~= set![KEY_DELETE]);
    assert(held(delete) =~= Set::<u32>::empty());
}

/// The timestamps of a list of key events, in order.
pub open spec fn times(events: Seq<KeyEvent>) -> Seq<u32>
    decreases events.len(),
{
    if events.len() == 0 {
        Seq::empty()
    } else {
        match events.last() {
            KeyEvent::Key { time, key, pressed } => times(events.drop_last()).push(time),
            KeyEvent::Modifiers(_) => times(events.drop_last()),
        }
    }
}

/// Timestamps increase from one keystroke to the next, as long as the clock
/// does not run over.
pub proof fn law_time_moves_on(time: u32)
    requires
        time + 40 <= u32::MAX,
    ensures
        times(paste_events(time)) == seq![
            (time + 10) as u32,
            (time + 20) as u32,
            (time + 30) as u32,
            (time + 40) as u32,
        ],
        times(delete_events(time)) == seq![(time + 10) as u32, (time + 20) as u32],
        ticked(ticked(ticked(ticked(time)))) == time + 40,
        ticked(ticked(time)) == time + 20,
{
    reveal_with_fuel(times, 7);
    let paste = paste_events(time);
    let p5 = paste.drop_last();
    let p4 = p5.drop_last();
    let p3 = p4.drop_last();
    let p2 = p3.drop_last();
    let p1 = p2.drop_last();
    assert(times(p1) =~= seq![(time + 10) as u32]);
    assert(times(p2) =~= seq![(time + 10) as u32]);
    assert(times(p3) =~= seq![(time + 10) as u32, (time + 20) as u32]);
    assert(times(p4) =~= seq![(time + 10) as u32, (time + 20) as u32, (time + 30) as u32]);
    assert(times(p5) =~= seq![(time + 10) as u32, (time + 20) as u32, (time + 30) as u32]);
    let delete = delete_events(time);
    let d1 = delete.drop_last();
    assert(times(d1) =~= seq![(time + 10) as u32]);
}

/// The keys are those of the keymap, and a keystroke is made of nothing else:
/// pasting holds Control, both as a key and as a modifier, while `v` goes down
/// and up; deleting presses Delete alone.
pub proof fn law_keystrokes_are_spelled_out(time: u32)
    ensures
        KEY_CONTROL == 1,
        KEY_V == 2,
        KEY_DELETE == 3,
        MOD_CONTROL == 4,
        ({
            let events = paste_events(time);
            &&& events.len() == 6
            &&& (events[0] matches KeyEvent::Key { key, pressed, .. } && key == 1 && pressed)
            &&& events[1] == KeyEvent::Modifiers(4)
            &&& (events[2] matches KeyEvent::Key { key, pressed, .. } && key == 2 && pressed)
            &&& (events[3] matches KeyEvent::Key { key, pressed, .. } && key == 2 && !pressed)
            &&& events[4] == KeyEvent::Modifiers(0)
            &&& (events[5] matches KeyEvent::Key { key, pressed, .. } && key == 1 && !pressed)
        }),
        ({
            let events = delete_events(time);
            &&& events.len() == 2
            &&& (events[0] matches KeyEvent::Key { key, pressed, .. } && key == 3 && pressed)
            &&& (events[1] matches KeyEvent::Key { key, pressed, .. } && key == 3 && !pressed)
        }),
{
}

/// The clock goes on by ten, over its end too, and is never at zero.
pub proof fn law_the_clock_goes_on_by_ten(time: u32)
    ensures
        ticked(time) != 0,
        time <= 4294967285 ==> ticked(time) == time + 10,
        time == 4294967286 ==> ticked(time) == 1,
        time >= 4294967287 ==> ticked(time) == time + 10 - 4294967296,
{
}

/// The first seat is bound at its own version, up to the seventh, and the first
/// manager at the first. A second of either is left alone, and so is anything
/// else.
pub proof fn law_the_first_seat_and_manager_are_bound(
    interface: Seq<char>,
    version: u32,
    has_seat: bool,
    has_manager: bool,
)
    ensures
        binding("wl_seat"@, version, true, has_manager) is None,
        version <= 7 ==> binding("wl_seat"@, version, false, has_manager) == Some(
            Binding::Seat(version),
        ),
        version > 7 ==> binding("wl_seat"@, version, false, has_manager) == Some(
            Binding::Seat(7),
        ),
        binding("zwp_virtual_keyboard_manager_v1"@, version, has_seat, true) is None,
        binding("zwp_virtual_keyboard_manager_v1"@, version, has_seat, false) == Some(
            Binding::Manager(1),
        ),
        interface != "wl_seat"@ && interface != "zwp_virtual_keyboard_manager_v1"@ ==> binding(
            interface,
            version,
            has_seat,
            has_manager,
        ) is None,
{
    reveal_strlit("wl_seat");
    reveal_strlit("zwp_virtual_keyboard_manager_v1");
    assert("wl_seat"@.len() != "zwp_virtual_keyboard_manager_v1"@.len());
}

} // verus!
