//! The control surface: what a user can ask of a running daemon.

use vstd::prelude::*;

use crate::text::same_text;

verus! {

/// The name of the daemon on the session bus.
pub const BUS_NAME: &'static str = "org.grabit.Daemon";

/// The path of the control object.
pub const OBJECT_PATH: &'static str = "/org/grabit/Daemon";

/// The control interface.
pub const INTERFACE: &'static str = "org.grabit.Daemon1";

/// A request from outside the process.
#[derive(Debug, Clone, Copy, PartialEq, Eq, Structural)]
pub enum Command {
    /// Pop the bar up for whatever is currently selected.
    Show,
    /// Take the bar down.
    Hide,
    /// Re-read the configuration.
    Reload,
    /// Stop.
    Quit,
}

/// The bus method that carries a request.
pub open spec fn method_name(command: Command) -> Seq<char> {
    match command {
        Command::Show => "Show"@,
        Command::Hide => "Hide"@,
        Command::Reload => "Reload"@,
        Command::Quit => "Quit"@,
    }
}

/// The bus method that carries a request.
pub fn method_of(command: Command) -> (r: &'static str)
    ensures
        r@ == method_name(command),
{
    match command {
        Command::Show => "Show",
        Command::Hide => "Hide",
        Command::Reload => "Reload",
        Command::Quit => "Quit",
    }
}

/// The request that a bus method carries.
pub fn command_of(method: &str) -> (r: Option<Command>)
    ensures
        match r {
            Some(command) => method@ == method_name(command),
            None => forall|command: Command| method@ != #[trigger] method_name(command),
        },
{
    if same_text(method, "Show") {
        Some(Command::Show)
    } else if same_text(method, "Hide") {
        Some(Command::Hide)
    } else if same_text(method, "Reload") {
        Some(Command::Reload)
    } else if same_text(method, "Quit") {
        Some(Command::Quit)
    } else {
        None
    }
}

/// No two requests share a method, so every request comes through as itself.
pub proof fn law_methods_tell_commands_apart(a: Command, b: Command)
    requires
        method_name(a) == method_name(b),
    ensures
        a == b,
{
    reveal_strlit("Show");
    reveal_strlit("Hide");
    reveal_strlit("Reload");
    reveal_strlit("Quit");
    assert("Show"@[0] == 'S' && "Hide"@[0] == 'H' && "Reload"@[0] == 'R' && "Quit"@[0] == 'Q');
}

/// Each request travels under its own name, to the object and the interface that
/// the daemon has on the bus.
pub proof fn law_requests_travel_under_their_own_names()
    ensures
        method_name(Command::Show) == "Show"@,
        method_name(Command::Hide) == "Hide"@,
        method_name(Command::Reload) == "Reload"@,
        method_name(Command::Quit) == "Quit"@,
        BUS_NAME@ == "org.grabit.Daemon"@,
        OBJECT_PATH@ == "/org/grabit/Daemon"@,
        INTERFACE@ == "org.grabit.Daemon1"@,
{
}

} // verus!
