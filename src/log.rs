use vstd::prelude::*;

use crate::item::EquipmentSlot;

verus! {

/// One entry of the game's message log, in structured form.
/// Turning an event into text and colour is left to the presentation layer.
#[derive(Debug, PartialEq, Eq)]
pub enum Event {
    /// The opening line of a new game.
    Awaken,
    /// `attacker` hit `target` for `damage` hit points.
    Attack { attacker: String, target: String, damage: i32 },
    /// `attacker` swung at `target` without effect.
    NoEffect { attacker: String, target: String },
    /// The player character died.
    PlayerDied { name: String },
    /// A monster died, granting `xp` experience points.
    MonsterDied { name: String, xp: i32 },
    /// The player reached `level`.
    LevelUp { level: i32 },
    /// An item was put on in `slot`.
    Equipped { name: String, slot: EquipmentSlot },
    /// An item was taken off from `slot`.
    Unequipped { name: String, slot: EquipmentSlot },
    /// The actor cannot be equipped: it is not an equippable item.
    CannotEquip { name: String },
    /// The actor cannot be unequipped: it is not an equippable item.
    CannotUnequip { name: String },
    /// The inventory has no room left for `name`.
    InventoryFull { name: String },
    /// The player picked `name` up.
    PickedUp { name: String },
    /// The player dropped `name`.
    Dropped { name: String },
    /// `name` has no use.
    CannotUse { name: String },
    /// Using an item was called off.
    Cancelled,
    /// A potion was refused: hit points are already full.
    AlreadyFullHealth,
    /// A health potion took effect.
    Healed,
    /// The player rested before going down the stairs.
    Rested,
    /// The player went one level deeper.
    Descended,
}

/// The message log: every event in the order it happened.
pub type Messages = Vec<Event>;

/// A sink that records events in order.
pub trait MessageLog: Sized {
    /// The events recorded so far, oldest first.
    spec fn events(&self) -> Seq<Event>;

    /// Records `event` after all earlier ones.
    fn add(&mut self, event: Event)
        ensures
            final(self).events() == old(self).events().push(event),
    ;
}

impl MessageLog for Vec<Event> {
    open spec fn events(&self) -> Seq<Event> {
        self@
    }

    fn add(&mut self, event: Event) {
        self.push(event);
    }
}

} // verus!
