//! From keys and clock ticks to commands.

use crate::game::KeyOrder;
use vstd::prelude::*;

verus! {

/// The time between two ticks of the clock that makes the piece fall, in
/// milliseconds.
pub const FALL_PERIOD_MILLIS: u64 = 500;

/// The keys that the game tells apart.
#[derive(Clone, Copy, Debug, PartialEq, Eq, Structural)]
pub enum Key {
    Down,
    Up,
    Left,
    Right,
    Char(char),
    Other,
}

/// A key event from the terminal. `plain` says that the key was pressed,
/// not repeated or released, with no modifier held and no state flag set.
#[derive(Clone, Copy, Debug, PartialEq, Eq, Structural)]
pub struct KeyPress {
    pub key: Key,
    pub plain: bool,
}

/// The command that a key event stands for, if it stands for one: the down
/// arrow a soft drop, the up arrow a hard drop, the left and right arrows a
/// step to that side, `z` a turn and `q` the end. Events that are not plain,
/// and all other keys, stand for nothing.
pub open spec fn order_of(press: KeyPress) -> Option<KeyOrder> {
    if !press.plain {
        None
    } else {
        match press.key {
            Key::Down => Some(KeyOrder::SoftDrop),
            Key::Up => Some(KeyOrder::HardDrop),
            Key::Left => Some(KeyOrder::Left),
            Key::Right => Some(KeyOrder::Right),
            Key::Char(c) => if c == 'q' {
                Some(KeyOrder::Exit)
            } else if c == 'z' {
                Some(KeyOrder::Rotate)
            } else {
                None
            },
            Key::Other => None,
        }
    }
}

/// The command that a key event stands for, if any.
pub fn key_order(press: KeyPress) -> (order: Option<KeyOrder>)
    ensures
        order == order_of(press),
{
    if !press.plain {
        return None;
    }
    match press.key {
        Key::Down => Some(KeyOrder::SoftDrop),
        Key::Up => Some(KeyOrder::HardDrop),
        Key::Left => Some(KeyOrder::Left),
        Key::Right => Some(KeyOrder::Right),
        Key::Char(c) => {
            if c == 'q' {
                Some(KeyOrder::Exit)
            } else if c == 'z' {
                Some(KeyOrder::Rotate)
            } else {
                None
            }
        },
        Key::Other => None,
    }
}

/// Whether the keyboard source stops after it has sent `order`: it does
/// after `Exit`, and only then.
pub fn ends_input(order: KeyOrder) -> (stop: bool)
    ensures
        stop == (order == KeyOrder::Exit),
{
    order == KeyOrder::Exit
}

} // verus!
