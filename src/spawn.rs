use vstd::prelude::*;

use crate::ai::Ai;
use crate::fighter::{DeathCallback, Fighter};
use crate::item::{Equipment, EquipmentSlot, Item};
use crate::object::{Color, Object};
use crate::random::{choose_weighted, weight_total};

verus! {

/// A step of a depth table: from dungeon level `level` on, the value is `value`.
#[derive(Debug, Clone, Copy, PartialEq, Eq, Structural)]
pub struct Transition {
    pub level: i32,
    pub value: i32,
}

/// The value of the last step of `table` whose level is at most `level`, or 0.
pub open spec fn table_value(table: Seq<Transition>, level: int) -> int
    decreases table.len(),
{
    if table.len() == 0 {
        0
    } else if level >= table.last().level {
        table.last().value as int
    } else {
        table_value(table.drop_last(), level)
    }
}

/// Looks `level` up in a step table: the value of the last step whose level is at
/// most `level`, or 0 when there is none.
pub fn from_dungeon_level(table: &[Transition], level: i32) -> (r: i32)
    ensures
        r == table_value(table@, level as int),
{
    let mut i: usize = table.len();
    assert(table@.subrange(0, i as int) == table@);
    while i > 0
        invariant
            i <= table@.len(),
            table_value(table@, level as int) == table_value(table@.subrange(0, i as int), level as int),
        decreases i,
    {
        let t = table[i - 1];
        proof {
            let pre = table@.subrange(0, i as int);
            assert(pre.last() == t);
            assert(pre.drop_last() == table@.subrange(0, i - 1));
        }
        if level >= t.level {
            return t.value;
        }
        i -= 1;
    }
    0
}

/// Most monsters a room can hold at a depth.
pub open spec fn max_monsters_at(depth: int) -> int {
    if depth >= 8 {
        5
    } else if depth >= 4 {
        4
    } else if depth >= 1 {
        2
    } else {
        0
    }
}

/// Most items a room can hold at a depth.
pub open spec fn max_items_at(depth: int) -> int {
    if depth >= 5 {
        2
    } else if depth >= 1 {
        1
    } else {
        0
    }
}

/// The monster kinds.
#[derive(Debug, Clone, Copy, PartialEq, Eq, Structural)]
pub enum MonsterKind {
    Orc,
    Troll,
}

/// How likely a monster kind is at a depth, relative to the others.
pub open spec fn monster_weight(kind: MonsterKind, depth: int) -> int {
    match kind {
        MonsterKind::Orc => 80,
        MonsterKind::Troll => if depth >= 8 {
            50
        } else if depth >= 5 {
            30
        } else if depth >= 3 {
            15
        } else {
            0
        },
    }
}

/// How likely an item kind is at a depth, relative to the others.
pub open spec fn item_weight(kind: Item, depth: int) -> int {
    match kind {
        Item::HealthPotion => 35,
        Item::Sword => if depth >= 4 {
            25
        } else {
            0
        },
        Item::Shield => if depth >= 5 {
            20
        } else {
            0
        },
        Item::PlateArmor => if depth >= 3 {
            15
        } else {
            0
        },
    }
}

/// Most monsters a room can hold at `depth`: 2 on levels 1-3, 4 on 4-7, 5 from 8 on.
pub fn max_monsters(depth: i32) -> (r: i32)
    ensures
        r == max_monsters_at(depth as int),
{
    let table = [
        Transition { level: 1, value: 2 },
        Transition { level: 4, value: 4 },
        Transition { level: 8, value: 5 },
    ];
    let r = from_dungeon_level(&table, depth);
    proof {
        reveal_with_fuel(table_value, 4);
    }
    r
}

/// Most items a room can hold at `depth`: 1 on levels 1-4, 2 from 5 on.
pub fn max_items(depth: i32) -> (r: i32)
    ensures
        r == max_items_at(depth as int),
{
    let table = [Transition { level: 1, value: 1 }, Transition { level: 5, value: 2 }];
    let r = from_dungeon_level(&table, depth);
    proof {
        reveal_with_fuel(table_value, 3);
    }
    r
}

/// The monster weights at `depth`, orcs first, then trolls.
pub fn monster_weights(depth: i32) -> (w: Vec<u32>)
    ensures
        w@ == seq![
            monster_weight(MonsterKind::Orc, depth as int) as u32,
            monster_weight(MonsterKind::Troll, depth as int) as u32,
        ],
{
    let table = [
        Transition { level: 3, value: 15 },
        Transition { level: 5, value: 30 },
        Transition { level: 8, value: 50 },
    ];
    let troll = from_dungeon_level(&table, depth);
    proof {
        reveal_with_fuel(table_value, 4);
    }
    let mut w: Vec<u32> = Vec::new();
    w.push(80);
    w.push(troll as u32);
    w
}

/// The item weights at `depth`: health potion, sword, shield, plate armour.
pub fn item_weights(depth: i32) -> (w: Vec<u32>)
    ensures
        w@ == seq![
            item_weight(Item::HealthPotion, depth as int) as u32,
            item_weight(Item::Sword, depth as int) as u32,
            item_weight(Item::Shield, depth as int) as u32,
            item_weight(Item::PlateArmor, depth as int) as u32,
        ],
{
    let sword = from_dungeon_level(&[Transition { level: 4, value: 25 }], depth);
    let shield = from_dungeon_level(&[Transition { level: 5, value: 20 }], depth);
    let plate = from_dungeon_level(&[Transition { level: 3, value: 15 }], depth);
    proof {
        reveal_with_fuel(table_value, 2);
    }
    let mut w: Vec<u32> = Vec::new();
    w.push(35);
    w.push(sword as u32);
    w.push(shield as u32);
    w.push(plate as u32);
    w
}

/// The monster kind at position `i` of the weight list: orcs first, then trolls.
pub open spec fn monster_at_index(i: int) -> MonsterKind {
    if i == 0 {
        MonsterKind::Orc
    } else {
        MonsterKind::Troll
    }
}

/// The item kind at position `i` of the weight list: health potion, sword, shield,
/// plate armour.
pub open spec fn item_at_index(i: int) -> Item {
    if i == 0 {
        Item::HealthPotion
    } else if i == 1 {
        Item::Sword
    } else if i == 2 {
        Item::Shield
    } else {
        Item::PlateArmor
    }
}

/// The monster kind a drawn index of `monster_weights` stands for.
pub fn monster_kind_for(i: usize) -> (k: MonsterKind)
    requires
        i < 2,
    ensures
        k == monster_at_index(i as int),
{
    if i == 0 {
        MonsterKind::Orc
    } else {
        MonsterKind::Troll
    }
}

/// The item kind a drawn index of `item_weights` stands for.
pub fn item_kind_for(i: usize) -> (k: Item)
    requires
        i < 4,
    ensures
        k == item_at_index(i as int),
{
    if i == 0 {
        Item::HealthPotion
    } else if i == 1 {
        Item::Sword
    } else if i == 2 {
        Item::Shield
    } else {
        Item::PlateArmor
    }
}

/// Picks a monster kind for `depth` at random, in proportion to the weights.
/// A kind of weight zero at that depth is never picked.
pub fn choose_monster(depth: i32) -> (k: MonsterKind)
    ensures
        monster_weight(k, depth as int) > 0,
{
    let w = monster_weights(depth);
    proof {
        reveal_with_fuel(weight_total, 3);
    }
    let i = choose_weighted(&w);
    monster_kind_for(i)
}

/// Picks an item kind for `depth` at random, in proportion to the weights.
/// A kind of weight zero at that depth is never picked.
pub fn choose_item(depth: i32) -> (k: Item)
    ensures
        item_weight(k, depth as int) > 0,
{
    let w = item_weights(depth);
    proof {
        reveal_with_fuel(weight_total, 5);
    }
    let i = choose_weighted(&w);
    item_kind_for(i)
}

/// The fighter a freshly spawned monster of a kind carries.
pub open spec fn monster_fighter(kind: MonsterKind) -> Fighter {
    match kind {
        MonsterKind::Orc => Fighter {
            base_vit: 2,
            base_atk: 3,
            base_str: 2,
            base_def: 3,
            base_dex: 2,
            base_int: 0,
            base_lck: 0,
            max_hp: 20,
            hp: 20,
            xp: 50,
            on_death: DeathCallback::MonsterDeath,
        },
        MonsterKind::Troll => Fighter {
            base_vit: 5,
            base_atk: 5,
            base_str: 5,
            base_def: 3,
            base_dex: 3,
            base_int: 0,
            base_lck: 0,
            max_hp: 35,
            hp: 35,
            xp: 100,
            on_death: DeathCallback::MonsterDeath,
        },
    }
}

/// The name of a monster kind.
pub open spec fn monster_name(kind: MonsterKind) -> Seq<char> {
    match kind {
        MonsterKind::Orc => "Orc"@,
        MonsterKind::Troll => "Troll"@,
    }
}

/// `o` is a freshly spawned monster of `kind` at `(x, y)`.
pub open spec fn is_monster(o: Object, kind: MonsterKind, x: int, y: int) -> bool {
    &&& o.pos.0 == x && o.pos.1 == y
    &&& o.c == (match kind {
        MonsterKind::Orc => 'O',
        MonsterKind::Troll => 'T',
    })
    &&& o.color == (match kind {
        MonsterKind::Orc => Color::DesaturatedGreen,
        MonsterKind::Troll => Color::DarkerGreen,
    })
    &&& o.name@ == monster_name(kind)
    &&& o.alive && o.solid && !o.always_visible && o.level == 1
    &&& o.fighter == Some(monster_fighter(kind))
    &&& o.ai == Some(Ai::BasicMonster)
    &&& o.item is None && o.equipment is None
}

/// The equipment component of a freshly spawned item of a kind.
pub open spec fn item_equipment(kind: Item) -> Option<Equipment> {
    match kind {
        Item::HealthPotion => None,
        Item::Sword => Some(
            Equipment {
                slot: EquipmentSlot::RightHand,
                equipped: false,
                vit_bonus: 0,
                atk_bonus: 2,
                str_bonus: 2,
                def_bonus: 0,
                dex_bonus: 0,
                int_bonus: 0,
                lck_bonus: 0,
            },
        ),
        Item::Shield => Some(
            Equipment {
                slot: EquipmentSlot::RightHand,
                equipped: false,
                vit_bonus: 3,
                atk_bonus: 0,
                str_bonus: 0,
                def_bonus: 6,
                dex_bonus: 6,
                int_bonus: 0,
                lck_bonus: 0,
            },
        ),
        Item::PlateArmor => Some(
            Equipment {
                slot: EquipmentSlot::RightHand,
                equipped: false,
                vit_bonus: 5,
                atk_bonus: 2,
                str_bonus: 2,
                def_bonus: 2,
                dex_bonus: 2,
                int_bonus: 0,
                lck_bonus: 5,
            },
        ),
    }
}

/// The name of an item kind.
pub open spec fn item_name(kind: Item) -> Seq<char> {
    match kind {
        Item::HealthPotion => "Health Potion"@,
        Item::Sword => "Sword"@,
        Item::Shield => "Shield"@,
        Item::PlateArmor => "Plate Armor"@,
    }
}

/// `o` is a freshly spawned item of `kind` lying at `(x, y)`.
pub open spec fn is_item_drop(o: Object, kind: Item, x: int, y: int) -> bool {
    &&& o.pos.0 == x && o.pos.1 == y
    &&& o.c == (match kind {
        Item::HealthPotion => '!',
        Item::Sword => '/',
        Item::Shield => '0',
        Item::PlateArmor => '#',
    })
    &&& o.color == (match kind {
        Item::HealthPotion => Color::LightViolet,
        _ => Color::Brass,
    })
    &&& o.name@ == item_name(kind)
    &&& !o.alive && !o.solid && o.always_visible && o.level == 1
    &&& o.fighter is None && o.ai is None
    &&& o.item == Some(kind)
    &&& o.equipment == item_equipment(kind)
}

/// `o` is a monster that can spawn at `depth`, at its own position.
pub open spec fn spawned_monster(o: Object, depth: int) -> bool {
    ||| monster_weight(MonsterKind::Orc, depth) > 0 && is_monster(o, MonsterKind::Orc, o.pos.0 as int, o.pos.1 as int)
    ||| monster_weight(MonsterKind::Troll, depth) > 0 && is_monster(o, MonsterKind::Troll, o.pos.0 as int, o.pos.1 as int)
}

/// `o` is an item that can spawn at `depth`, at its own position.
pub open spec fn spawned_item(o: Object, depth: int) -> bool {
    ||| item_weight(Item::HealthPotion, depth) > 0 && is_item_drop(o, Item::HealthPotion, o.pos.0 as int, o.pos.1 as int)
    ||| item_weight(Item::Sword, depth) > 0 && is_item_drop(o, Item::Sword, o.pos.0 as int, o.pos.1 as int)
    ||| item_weight(Item::Shield, depth) > 0 && is_item_drop(o, Item::Shield, o.pos.0 as int, o.pos.1 as int)
    ||| item_weight(Item::PlateArmor, depth) > 0 && is_item_drop(o, Item::PlateArmor, o.pos.0 as int, o.pos.1 as int)
}

/// A live monster of `kind` at `(x, y)`.
pub fn make_monster(kind: MonsterKind, x: i32, y: i32) -> (o: Object)
    ensures
        is_monster(o, kind, x as int, y as int),
{
    let mut monster = match kind {
        MonsterKind::Orc => {
            let mut orc = Object::new(x, y, 'O', Color::DesaturatedGreen, "Orc", true);
            orc.fighter = Some(Fighter::new(2, 3, 2, 3, 2, 0, 0, 50, DeathCallback::MonsterDeath));
            orc.ai = Some(Ai::BasicMonster);
            orc
        },
        MonsterKind::Troll => {
            let mut troll = Object::new(x, y, 'T', Color::DarkerGreen, "Troll", true);
            troll.fighter = Some(
                Fighter::new(5, 5, 5, 3, 3, 0, 0, 100, DeathCallback::MonsterDeath),
            );
            troll.ai = Some(Ai::BasicMonster);
            troll
        },
    };
    monster.alive = true;
    monster
}

/// An item of `kind` lying at `(x, y)`, always drawn once its tile is explored.
pub fn make_item(kind: Item, x: i32, y: i32) -> (o: Object)
    ensures
        is_item_drop(o, kind, x as int, y as int),
{
    let mut item = match kind {
        Item::HealthPotion => Object::new(x, y, '!', Color::LightViolet, "Health Potion", false),
        Item::Sword => Object::new(x, y, '/', Color::Brass, "Sword", false),
        Item::Shield => Object::new(x, y, '0', Color::Brass, "Shield", false),
        Item::PlateArmor => Object::new(x, y, '#', Color::Brass, "Plate Armor", false),
    };
    item.item = Some(kind);
    item.equipment = match kind {
        Item::HealthPotion => None,
        Item::Sword => Some(
            Equipment {
                slot: EquipmentSlot::RightHand,
                equipped: false,
                vit_bonus: 0,
                atk_bonus: 2,
                str_bonus: 2,
                def_bonus: 0,
                dex_bonus: 0,
                int_bonus: 0,
                lck_bonus: 0,
            },
        ),
        Item::Shield => Some(
            Equipment {
                slot: EquipmentSlot::RightHand,
                equipped: false,
                vit_bonus: 3,
                atk_bonus: 0,
                str_bonus: 0,
                def_bonus: 6,
                dex_bonus: 6,
                int_bonus: 0,
                lck_bonus: 0,
            },
        ),
        Item::PlateArmor => Some(
            Equipment {
                slot: EquipmentSlot::RightHand,
                equipped: false,
                vit_bonus: 5,
                atk_bonus: 2,
                str_bonus: 2,
                def_bonus: 2,
                dex_bonus: 2,
                int_bonus: 0,
                lck_bonus: 5,
            },
        ),
    };
    item.always_visible = true;
    item
}

} // verus!
