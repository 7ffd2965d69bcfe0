//! The Kitty keyboard protocol switch (sending it to the terminal is left to the caller).
use vstd::prelude::*;

verus! {

/// The Kitty keyboard protocol, which tells Escape from Alt+key and reports modifiers on
/// special keys.
#[derive(Debug)]
pub struct KittyKeyboard;

} // verus!
