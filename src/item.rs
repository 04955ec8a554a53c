use vstd::prelude::*;

use crate::game::{slots_exclusive, Game, INVENTORY_CAPACITY, PLAYER_ID};
use crate::log::{Event, MessageLog};
use crate::object::{healed, with_worn, Object};

verus! {

/// The kinds of item an actor can carry.
#[derive(Debug, Clone, Copy, PartialEq, Eq, Structural)]
pub enum Item {
    HealthPotion,
    Sword,
    Shield,
    PlateArmor,
}

/// Body locations that hold equipment.
#[derive(Debug, Clone, Copy, PartialEq, Eq, Structural)]
pub enum EquipmentSlot {
    Head,
    Torso,
    Legs,
    Feet,
    LeftHand,
    RightHand,
}

/// The equipment component: where it is worn, whether it is worn, and its bonuses.
#[derive(Debug, Clone, Copy, PartialEq, Eq, Structural)]
pub struct Equipment {
    pub slot: EquipmentSlot,
    pub equipped: bool,
    pub vit_bonus: i32,
    pub atk_bonus: i32,
    pub str_bonus: i32,
    pub def_bonus: i32,
    pub dex_bonus: i32,
    pub int_bonus: i32,
    pub lck_bonus: i32,
}

/// Why an item operation was refused.
#[derive(Debug, Clone, Copy, PartialEq, Eq, Structural)]
pub enum ItemError {
    /// The inventory already holds its full capacity.
    InventoryFull,
    /// Equipping an actor that is not an equippable item.
    NotEquipment,
    /// Unequipping an actor that is not an equippable item.
    NotEquipped,
}

/// Whether `o` is an item worn in `slot`.
pub open spec fn worn_in(o: Object, slot: EquipmentSlot) -> bool {
    match o.equipment {
        Some(e) => e.equipped && e.slot == slot,
        None => false,
    }
}

/// The first inventory position whose item is worn in `slot`, if any.
pub open spec fn first_worn_in(inv: Seq<Object>, slot: EquipmentSlot) -> Option<int>
    decreases inv.len(),
{
    if inv.len() == 0 {
        None
    } else if worn_in(inv[0], slot) {
        Some(0)
    } else {
        match first_worn_in(inv.drop_first(), slot) {
            Some(i) => Some(i + 1),
            None => None,
        }
    }
}

impl EquipmentSlot {
    /// The slot's name as shown to the player.
    pub fn label(&self) -> (s: &'static str)
        ensures
            s@ == slot_label(*self)@,
    {
        match self {
            EquipmentSlot::Head => "Head",
            EquipmentSlot::Torso => "Torso",
            EquipmentSlot::Legs => "Legs",
            EquipmentSlot::Feet => "Feet",
            EquipmentSlot::LeftHand => "Left Hand",
            EquipmentSlot::RightHand => "Right Hand",
        }
    }
}

/// The slot's name as shown to the player.
pub open spec fn slot_label(s: EquipmentSlot) -> &'static str {
    match s {
        EquipmentSlot::Head => "Head",
        EquipmentSlot::Torso => "Torso",
        EquipmentSlot::Legs => "Legs",
        EquipmentSlot::Feet => "Feet",
        EquipmentSlot::LeftHand => "Left Hand",
        EquipmentSlot::RightHand => "Right Hand",
    }
}

/// The position of the first item of `inventory` worn in `slot`.
pub fn get_equipped_in_slot(slot: EquipmentSlot, inventory: &Vec<Object>) -> (r: Option<usize>)
    ensures
        match first_worn_in(inventory@, slot) {
            Some(i) => r == Some(i as usize),
            None => r is None,
        },
{
    let mut i: usize = 0;
    while i < inventory.len()
        invariant
            i <= inventory@.len(),
            forall|j: int| 0 <= j < i ==> !worn_in(#[trigger] inventory@[j], slot),
        decreases inventory@.len() - i,
    {
        let worn = match &inventory[i].equipment {
            Some(e) => e.equipped && e.slot == slot,
            None => false,
        };
        if worn {
            proof {
                lemma_first_worn_in(inventory@, slot, i as int);
            }
            return Some(i);
        }
        i += 1;
    }
    proof {
        lemma_first_worn_in(inventory@, slot, inventory@.len() as int);
    }
    None
}

/// `first_worn_in` finds position `k` when nothing before `k` is worn in the slot
/// and `k` is, and finds nothing when no position is.
proof fn lemma_first_worn_in(inv: Seq<Object>, slot: EquipmentSlot, k: int)
    requires
        0 <= k <= inv.len(),
        forall|j: int| 0 <= j < k ==> !worn_in(#[trigger] inv[j], slot),
        k < inv.len() ==> worn_in(inv[k], slot),
    ensures
        k < inv.len() ==> first_worn_in(inv, slot) == Some(k),
        k == inv.len() ==> first_worn_in(inv, slot) is None,
    decreases inv.len(),
{
    if inv.len() > 0 && k > 0 {
        assert forall|j: int| 0 <= j < k - 1 implies !worn_in(#[trigger] inv.drop_first()[j], slot) by {
            assert(inv.drop_first()[j] == inv[j + 1]);
        }
        if k < inv.len() {
            assert(inv.drop_first()[k - 1] == inv[k]);
        }
        lemma_first_worn_in(inv.drop_first(), slot, k - 1);
    }
}

/// How much a health potion heals.
pub const HEALTH_POTION_HEAL_AMT: i32 = 5;

/// What using an item came to.
#[derive(Debug, Clone, Copy, PartialEq, Eq, Structural)]
pub enum ItemUseResult {
    /// The item was used up.
    Used,
    /// The item was used and stays in the inventory.
    UsedAndKept,
    /// Nothing happened.
    Cancelled,
}

/// `o` as it lands in the inventory `inv`: not worn, then put on if it is
/// equipment and nothing of `inv` is worn in its slot.
pub open spec fn as_picked(o: Object, inv: Seq<Object>) -> Object {
    match o.equipment {
        Some(e) => if first_worn_in(inv, e.slot) is None {
            with_worn(o, true)
        } else {
            with_worn(o, false)
        },
        None => o,
    }
}

/// The log entries of picking `o` up into `inv`.
pub open spec fn pickup_events(o: Object, inv: Seq<Object>) -> Seq<Event> {
    let picked = seq![Event::PickedUp { name: o.name }];
    match o.equipment {
        Some(e) => if first_worn_in(inv, e.slot) is None {
            picked.push(Event::Equipped { name: o.name, slot: e.slot })
        } else {
            picked
        },
        None => picked,
    }
}

/// The outcome of picking up actor `id`.
pub open spec fn pickup_outcome(before: Game, after: Game, id: int, r: Result<(), ItemError>) -> bool {
    let o = before.objects@[id];
    &&& after.map == before.map
    &&& after.dungeon_level == before.dungeon_level
    &&& if before.inventory@.len() >= INVENTORY_CAPACITY {
        &&& r == Err::<(), ItemError>(ItemError::InventoryFull)
        &&& after.objects == before.objects
        &&& after.inventory == before.inventory
        &&& after.log@ == before.log@.push(Event::InventoryFull { name: o.name })
    } else {
        &&& r is Ok
        &&& after.objects@ == before.objects@.update(id, before.objects@.last()).drop_last()
        &&& after.inventory@ == before.inventory@.push(as_picked(o, before.inventory@))
        &&& after.log@ == before.log@ + pickup_events(o, before.inventory@)
    }
}

/// Putting on a fresh item whose slot is free keeps one worn item per slot.
proof fn lemma_exclusive_push(inv: Seq<Object>, o: Object)
    requires
        slots_exclusive(inv),
        match o.equipment {
            Some(e) => !e.equipped || first_worn_in(inv, e.slot) is None,
            None => true,
        },
    ensures
        slots_exclusive(inv.push(o)),
{
    let n = inv.len() as int;
    let inv2 = inv.push(o);
    assert forall|i: int, j: int, s: EquipmentSlot|
        0 <= i < inv2.len() && 0 <= j < inv2.len() && #[trigger] worn_in(inv2[i], s) && #[trigger] worn_in(inv2[j], s)
        implies i == j by {
        if i == n || j == n {
            let k = if i == n { j } else { i };
            if k < n {
                assert(inv2[k] == inv[k]);
                lemma_none_worn(inv, s, k);
            }
        } else {
            assert(inv2[i] == inv[i] && inv2[j] == inv[j]);
        }
    }
}

/// Appending an item not worn in `slot` does not change whether some item is.
proof fn lemma_first_worn_push(inv: Seq<Object>, o: Object, slot: EquipmentSlot)
    requires
        !worn_in(o, slot),
    ensures
        (first_worn_in(inv.push(o), slot) is None) == (first_worn_in(inv, slot) is None),
    decreases inv.len(),
{
    if inv.len() > 0 {
        assert(inv.push(o)[0] == inv[0]);
        assert(inv.push(o).drop_first() == inv.drop_first().push(o));
        lemma_first_worn_push(inv.drop_first(), o, slot);
    } else {
        assert(inv.push(o)[0] == o);
        assert(inv.push(o).drop_first() == Seq::<Object>::empty());
        assert(first_worn_in(Seq::<Object>::empty(), slot) is None);
    }
}

/// When no position is found for a slot, no item is worn there.
pub(crate) proof fn lemma_none_worn(inv: Seq<Object>, slot: EquipmentSlot, k: int)
    requires
        first_worn_in(inv, slot) is None,
        0 <= k < inv.len(),
    ensures
        !worn_in(inv[k], slot),
    decreases inv.len(),
{
    if k > 0 {
        assert(inv.drop_first()[k - 1] == inv[k]);
        lemma_none_worn(inv.drop_first(), slot, k - 1);
    }
}

/// The position `first_worn_in` finds holds an item worn in that slot.
pub(crate) proof fn lemma_found_worn(inv: Seq<Object>, slot: EquipmentSlot)
    requires
        first_worn_in(inv, slot) is Some,
    ensures
        0 <= first_worn_in(inv, slot).unwrap() < inv.len(),
        worn_in(inv[first_worn_in(inv, slot).unwrap()], slot),
    decreases inv.len(),
{
    if !worn_in(inv[0], slot) {
        lemma_found_worn(inv.drop_first(), slot);
        let i = first_worn_in(inv.drop_first(), slot).unwrap();
        assert(inv.drop_first()[i] == inv[i + 1]);
    }
}

/// Picks actor `id` up from the ground into the inventory. With a full inventory
/// this fails with `InventoryFull` and changes nothing but the log. Otherwise the
/// actor leaves the level (the last actor takes its place) and joins the inventory,
/// put on if it is equipment and its slot is free.
pub fn pick_item_up(id: usize, game: &mut Game) -> (r: Result<(), ItemError>)
    requires
        old(game).wf(),
        id != PLAYER_ID,
        id < old(game).objects@.len(),
        old(game).objects@[id as int].item is Some,
    ensures
        final(game).wf(),
        pickup_outcome(*old(game), *final(game), id as int, r),
{
    if game.inventory.len() >= INVENTORY_CAPACITY {
        game.log.add(Event::InventoryFull { name: game.objects[id].name.clone() });
        return Err(ItemError::InventoryFull);
    }
    let mut item = game.objects.swap_remove(id);
    game.log.add(Event::PickedUp { name: item.name.clone() });
    if let Some(e) = item.equipment {
        item.equipment = Some(Equipment { equipped: false, ..e });
    }
    let ghost inv0 = game.inventory@;
    let index = game.inventory.len();
    let slot = match item.equipment {
        Some(e) => Some(e.slot),
        None => None,
    };
    game.inventory.push(item);
    if let Some(slot) = slot {
        if get_equipped_in_slot(slot, &game.inventory).is_none() {
            let _ = game.inventory[index].equip(&mut game.log);
        }
    }
    proof {
        let o = old(game).objects@[id as int];
        if let Some(e) = o.equipment {
            lemma_first_worn_push(inv0, with_worn(o, false), e.slot);
        }
        assert(game.log@ =~= old(game).log@ + pickup_events(o, old(game).inventory@));
        assert(game.inventory@ =~= inv0.push(as_picked(o, inv0)));
        lemma_exclusive_push(inv0, as_picked(o, inv0));
    }
    Ok(())
}

/// Removing an item keeps one worn item per slot.
proof fn lemma_exclusive_remove(inv: Seq<Object>, k: int)
    requires
        slots_exclusive(inv),
        0 <= k < inv.len(),
    ensures
        slots_exclusive(inv.remove(k)),
{
    let inv2 = inv.remove(k);
    assert forall|i: int, j: int, s: EquipmentSlot|
        0 <= i < inv2.len() && 0 <= j < inv2.len() && #[trigger] worn_in(inv2[i], s) && #[trigger] worn_in(inv2[j], s)
        implies i == j by {
        let i0 = if i < k { i } else { i + 1 };
        let j0 = if j < k { j } else { j + 1 };
        assert(inv2[i] == inv[i0] && inv2[j] == inv[j0]);
        assert(worn_in(inv[i0], s) && worn_in(inv[j0], s));
    }
}

/// The log entries of dropping `o`.
pub open spec fn drop_events(o: Object) -> Seq<Event> {
    let dropped = seq![Event::Dropped { name: o.name }];
    match o.equipment {
        Some(e) => if e.equipped {
            seq![Event::Unequipped { name: o.name, slot: e.slot }] + dropped
        } else {
            dropped
        },
        None => dropped,
    }
}

/// The outcome of dropping inventory item `i`: it leaves the inventory, taken off,
/// and lies at the player's position as the last actor.
pub open spec fn drop_outcome(before: Game, after: Game, i: int) -> bool {
    let o = before.inventory@[i];
    let p = before.objects@[PLAYER_ID as int].pos;
    &&& after.map == before.map
    &&& after.dungeon_level == before.dungeon_level
    &&& after.inventory@ == before.inventory@.remove(i)
    &&& after.objects@ == before.objects@.push(Object { pos: p, ..with_worn(o, false) })
    &&& after.log@ == before.log@ + drop_events(o)
}

/// Drops inventory item `inv_id` at the player's feet, taking it off first if worn.
pub fn drop_item(inv_id: usize, game: &mut Game)
    requires
        old(game).wf(),
        inv_id < old(game).inventory@.len(),
    ensures
        final(game).wf(),
        drop_outcome(*old(game), *final(game), inv_id as int),
{
    let mut item = game.inventory.remove(inv_id);
    if item.equipment.is_some() {
        let _ = item.unequip(&mut game.log);
    }
    let (px, py) = game.objects[PLAYER_ID].pos;
    item.set_pos(px, py);
    game.log.add(Event::Dropped { name: item.name.clone() });
    game.objects.push(item);
    proof {
        let o = old(game).inventory@[inv_id as int];
        assert(game.log@ =~= old(game).log@ + drop_events(o));
        lemma_exclusive_remove(old(game).inventory@, inv_id as int);
        assert forall|i: int| 0 <= i < game.inventory@.len() implies (#[trigger] game.inventory@[i]).item is Some by {
            let i0 = if i < inv_id { i } else { i + 1 };
            assert(game.inventory@[i] == old(game).inventory@[i0]);
        }
    }
}

/// What drinking a health potion does to the player: nothing without a fighter;
/// refused at full health; otherwise heals.
pub open spec fn potion_result(g: Game) -> ItemUseResult {
    match g.objects@[PLAYER_ID as int].fighter {
        None => ItemUseResult::Cancelled,
        Some(f) => if f.hp == f.max_hp {
            ItemUseResult::Cancelled
        } else {
            ItemUseResult::Used
        },
    }
}

/// The actors after drinking a health potion.
pub open spec fn potion_objects(g: Game) -> Seq<Object> {
    let p = g.objects@[PLAYER_ID as int];
    match p.fighter {
        Some(f) => if f.hp == f.max_hp {
            g.objects@
        } else {
            g.objects@.update(
                PLAYER_ID as int,
                Object { fighter: Some(healed(f, HEALTH_POTION_HEAL_AMT as int)), ..p },
            )
        },
        None => g.objects@,
    }
}

/// The log after drinking a health potion.
pub open spec fn potion_log(g: Game) -> Seq<Event> {
    match g.objects@[PLAYER_ID as int].fighter {
        Some(f) => if f.hp == f.max_hp {
            g.log@.push(Event::AlreadyFullHealth)
        } else {
            g.log@.push(Event::Healed)
        },
        None => g.log@,
    }
}

/// The player drinks a health potion.
pub fn use_health_potion(game: &mut Game) -> (r: ItemUseResult)
    requires
        old(game).wf(),
    ensures
        final(game).wf(),
        r == potion_result(*old(game)),
        final(game).objects@ == potion_objects(*old(game)),
        final(game).log@ == potion_log(*old(game)),
        final(game).inventory == old(game).inventory,
        final(game).map == old(game).map,
        final(game).dungeon_level == old(game).dungeon_level,
{
    if let Some(f) = game.objects[PLAYER_ID].fighter {
        if f.hp == f.max_hp {
            game.log.add(Event::AlreadyFullHealth);
            return ItemUseResult::Cancelled;
        }
        game.log.add(Event::Healed);
        game.objects[PLAYER_ID].heal(HEALTH_POTION_HEAL_AMT);
        return ItemUseResult::Used;
    }
    ItemUseResult::Cancelled
}

/// The inventory after toggling item `i`: a worn item is taken off; otherwise any
/// item worn in its slot is taken off and it is put on.
pub open spec fn toggle_inventory(g: Game, i: int) -> Seq<Object> {
    let inv = g.inventory@;
    let o = inv[i];
    match o.equipment {
        None => inv,
        Some(e) => if e.equipped {
            inv.update(i, with_worn(o, false))
        } else {
            match first_worn_in(inv, e.slot) {
                Some(j) => inv.update(j, with_worn(inv[j], false)).update(i, with_worn(o, true)),
                None => inv.update(i, with_worn(o, true)),
            }
        },
    }
}

/// The log after toggling item `i`.
pub open spec fn toggle_log(g: Game, i: int) -> Seq<Event> {
    let inv = g.inventory@;
    let o = inv[i];
    match o.equipment {
        None => g.log@,
        Some(e) => if e.equipped {
            g.log@.push(Event::Unequipped { name: o.name, slot: e.slot })
        } else {
            match first_worn_in(inv, e.slot) {
                Some(j) => g.log@.push(Event::Unequipped { name: inv[j].name, slot: e.slot }).push(
                    Event::Equipped { name: o.name, slot: e.slot },
                ),
                None => g.log@.push(Event::Equipped { name: o.name, slot: e.slot }),
            }
        },
    }
}

/// Puts inventory item `inv_id` on, or takes it off if worn. Putting it on first
/// takes off whatever is worn in the same slot, so a slot never holds two items.
/// An item without an equipment component is left alone (`Cancelled`).
pub fn toggle_equipment(inv_id: usize, game: &mut Game) -> (r: ItemUseResult)
    requires
        old(game).wf(),
        inv_id < old(game).inventory@.len(),
    ensures
        final(game).wf(),
        r == if old(game).inventory@[inv_id as int].equipment is Some {
            ItemUseResult::UsedAndKept
        } else {
            ItemUseResult::Cancelled
        },
        final(game).inventory@ == toggle_inventory(*old(game), inv_id as int),
        final(game).log@ == toggle_log(*old(game), inv_id as int),
        final(game).objects == old(game).objects,
        final(game).map == old(game).map,
        final(game).dungeon_level == old(game).dungeon_level,
{
    let equipment = match game.inventory[inv_id].equipment {
        Some(equipment) => equipment,
        None => return ItemUseResult::Cancelled,
    };
    let ghost inv = game.inventory@;
    proof {
        if equipment.equipped {
            assert(worn_in(inv[inv_id as int], equipment.slot));
            if first_worn_in(inv, equipment.slot) is None {
                lemma_none_worn(inv, equipment.slot, inv_id as int);
            }
            lemma_found_worn(inv, equipment.slot);
        } else if first_worn_in(inv, equipment.slot) is Some {
            lemma_found_worn(inv, equipment.slot);
        }
    }
    if let Some(old_id) = get_equipped_in_slot(equipment.slot, &game.inventory) {
        let _ = game.inventory[old_id].unequip(&mut game.log);
    }
    if equipment.equipped {
        let _ = game.inventory[inv_id].unequip(&mut game.log);
    } else {
        let _ = game.inventory[inv_id].equip(&mut game.log);
    }
    proof {
        let after = game.inventory@;
        assert(after =~= toggle_inventory(*old(game), inv_id as int));
        assert forall|i: int| 0 <= i < after.len() implies (#[trigger] after[i]).item is Some by {
            assert(inv[i].item is Some);
        }
        assert forall|i: int, j: int, s: EquipmentSlot|
            0 <= i < after.len() && 0 <= j < after.len() && #[trigger] worn_in(after[i], s) && #[trigger] worn_in(after[j], s)
            implies i == j by {
            if i != inv_id && j != inv_id {
                assert(worn_in(inv[i], s) && worn_in(inv[j], s));
            } else if !equipment.equipped {
                let k = if i == inv_id { j } else { i };
                if k != inv_id {
                    assert(worn_in(inv[k], s));
                    assert(s == equipment.slot);
                    match first_worn_in(inv, equipment.slot) {
                        Some(j0) => {
                            assert(worn_in(inv[j0], equipment.slot));
                        },
                        None => {
                            lemma_none_worn(inv, equipment.slot, k);
                        },
                    }
                }
            }
        }
    }
    ItemUseResult::UsedAndKept
}

/// The outcome of using inventory item `i`.
pub open spec fn use_outcome(before: Game, after: Game, i: int) -> bool {
    &&& after.map == before.map
    &&& after.dungeon_level == before.dungeon_level
    &&& match before.inventory@[i].item {
        Some(Item::HealthPotion) => {
            let r = potion_result(before);
            &&& after.objects@ == potion_objects(before)
            &&& after.inventory@ == if r == ItemUseResult::Used {
                before.inventory@.remove(i)
            } else {
                before.inventory@
            }
            &&& after.log@ == if r == ItemUseResult::Cancelled {
                potion_log(before).push(Event::Cancelled)
            } else {
                potion_log(before)
            }
        },
        Some(_) => {
            let kept = before.inventory@[i].equipment is Some;
            &&& after.objects == before.objects
            &&& after.inventory@ == toggle_inventory(before, i)
            &&& after.log@ == if kept {
                toggle_log(before, i)
            } else {
                toggle_log(before, i).push(Event::Cancelled)
            }
        },
        None => {
            &&& after.objects == before.objects
            &&& after.inventory == before.inventory
            &&& after.log@ == before.log@.push(
                Event::CannotUse { name: before.inventory@[i].name },
            )
        },
    }
}

/// Uses inventory item `inv_id`: a health potion is drunk and used up; equipment
/// is put on or taken off; a cancelled use is logged.
pub fn use_item(inv_id: usize, game: &mut Game)
    requires
        old(game).wf(),
        inv_id < old(game).inventory@.len(),
    ensures
        final(game).wf(),
        use_outcome(*old(game), *final(game), inv_id as int),
{
    if let Some(item) = game.inventory[inv_id].item {
        let result = match item {
            Item::HealthPotion => use_health_potion(game),
            Item::Sword => toggle_equipment(inv_id, game),
            Item::Shield => toggle_equipment(inv_id, game),
            Item::PlateArmor => toggle_equipment(inv_id, game),
        };
        match result {
            ItemUseResult::Used => {
                let _ = game.inventory.remove(inv_id);
                proof {
                    lemma_exclusive_remove(old(game).inventory@, inv_id as int);
                    assert forall|i: int| 0 <= i < game.inventory@.len() implies (#[trigger] game.inventory@[i]).item is Some by {
                        let i0 = if i < inv_id { i } else { i + 1 };
                        assert(game.inventory@[i] == old(game).inventory@[i0]);
                    }
                }
            },
            ItemUseResult::UsedAndKept => {},
            ItemUseResult::Cancelled => {
                game.log.add(Event::Cancelled);
            },
        }
    } else {
        game.log.add(Event::CannotUse { name: game.inventory[inv_id].name.clone() });
    }
}

} // verus!
