//! What a user can do, and what the application can ask the world for.

use vstd::prelude::*;

verus! {

/// Every user action, as one enum: the shell can move the sidebar, open a
/// collection, come back and quit.
#[derive(Clone, Copy, Debug, PartialEq, Eq, Structural)]
pub enum Command {
    MoveUp,
    MoveDown,
    Select,
    Back,
    Quit,
}

/// What the application asks of the world. The shell asks for nothing but
/// the terminal, so no effect can be built yet: its only field is private and
/// nothing in this module makes one, so a `Vec<Effect>` is always empty.
#[derive(Debug)]
pub struct Effect {
    nothing: (),
}

} // verus!
