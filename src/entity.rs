use vstd::prelude::*;

use crate::object::Color;

verus! {

/// The common part of every game object: where it is, how it looks, and its flags.
pub struct Entity {
    pub pos: (i32, i32),
    pub ch: char,
    pub color: Color,
    pub name: String,
    pub level: i32,
    pub solid: bool,
    pub always_visible: bool,
    pub alive: bool,
}

impl Entity {
    /// A new entity at `(x, y)` with the given glyph, colour and name, at level 1,
    /// not alive and not always drawn.
    pub fn new(x: i32, y: i32, ch: char, color: Color, name: &str, solid: bool) -> (e: Entity)
        ensures
            e.pos == (x, y),
            e.ch == ch,
            e.color == color,
            e.name@ == name@,
            e.level == 1,
            e.solid == solid,
            !e.always_visible,
            !e.alive,
    {
        Entity {
            pos: (x, y),
            ch: ch,
            color: color,
            name: String::from_str(name),
            level: 1,
            solid: solid,
            always_visible: false,
            alive: false,
        }
    }

    /// Moves the entity to `(x, y)`.
    pub fn set_pos(&mut self, x: i32, y: i32)
        ensures
            *final(self) == (Entity { pos: (x, y), ..*old(self) }),
    {
        self.pos = (x, y);
    }
}

} // verus!
