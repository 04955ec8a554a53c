use vstd::prelude::*;

use crate::ai::Ai;
use crate::game::Game;
use crate::fighter::{clamp_i32, death_effect, Fighter};
use crate::item::{Equipment, Item, ItemError};
use crate::log::{Event, MessageLog, Messages};

verus! {

/// The colours an actor can be drawn in.
#[derive(Debug, Clone, Copy, PartialEq, Eq, Structural)]
pub enum Color {
    White,
    DarkRed,
    DesaturatedGreen,
    DarkerGreen,
    LightViolet,
    Brass,
}

/// Any actor of the world: the player, monsters, items, stairs, remains.
/// What an actor is and does follows from which components it carries.
pub struct Object {
    pub pos: (i32, i32),
    pub c: char,
    pub color: Color,
    pub name: String,
    pub alive: bool,
    pub solid: bool,
    pub always_visible: bool,
    pub level: i32,
    pub fighter: Option<Fighter>,
    pub ai: Option<Ai>,
    pub item: Option<Item>,
    pub equipment: Option<Equipment>,
}

/// The attributes a fighter has and equipment can raise.
#[derive(Debug, Clone, Copy, PartialEq, Eq, Structural)]
pub enum Attribute {
    Vitality,
    Attack,
    Strength,
    Defense,
    Dexterity,
    Intelligence,
    Luck,
}

/// A fighter's base value of an attribute.
pub open spec fn base_of(f: Fighter, a: Attribute) -> int {
    match a {
        Attribute::Vitality => f.base_vit as int,
        Attribute::Attack => f.base_atk as int,
        Attribute::Strength => f.base_str as int,
        Attribute::Defense => f.base_def as int,
        Attribute::Dexterity => f.base_dex as int,
        Attribute::Intelligence => f.base_int as int,
        Attribute::Luck => f.base_lck as int,
    }
}

/// The bonus a piece of equipment gives to an attribute.
pub open spec fn bonus_of(e: Equipment, a: Attribute) -> int {
    match a {
        Attribute::Vitality => e.vit_bonus as int,
        Attribute::Attack => e.atk_bonus as int,
        Attribute::Strength => e.str_bonus as int,
        Attribute::Defense => e.def_bonus as int,
        Attribute::Dexterity => e.dex_bonus as int,
        Attribute::Intelligence => e.int_bonus as int,
        Attribute::Luck => e.lck_bonus as int,
    }
}

/// The equipment of the worn items of `inv`, in inventory order.
pub open spec fn equipped_of(inv: Seq<Object>) -> Seq<Equipment>
    decreases inv.len(),
{
    if inv.len() == 0 {
        Seq::empty()
    } else {
        let rest = equipped_of(inv.drop_last());
        match inv.last().equipment {
            Some(e) => if e.equipped {
                rest.push(e)
            } else {
                rest
            },
            None => rest,
        }
    }
}

/// The sum of the bonuses to `a` over `es`.
pub open spec fn bonus_sum(es: Seq<Equipment>, a: Attribute) -> int
    decreases es.len(),
{
    if es.len() == 0 {
        0
    } else {
        bonus_sum(es.drop_last(), a) + bonus_of(es.last(), a)
    }
}

/// An actor's effective attribute: its base value (0 without a fighter) plus the
/// bonuses of every worn item of `inv`.
pub open spec fn effective_stat(o: Object, inv: Seq<Object>, a: Attribute) -> int {
    let base = match o.fighter {
        Some(f) => base_of(f, a),
        None => 0,
    };
    base + bonus_sum(equipped_of(inv), a)
}

/// Hit points after healing `amount`, capped at the maximum.
pub open spec fn healed(f: Fighter, amount: int) -> Fighter {
    let hp = if f.hp + amount > f.max_hp {
        f.max_hp as int
    } else {
        f.hp + amount
    };
    Fighter { hp: clamp_i32(hp) as i32, ..f }
}

/// Hit points after a hit of `amount`; hits of zero or less change nothing.
pub open spec fn damaged(f: Fighter, amount: int) -> Fighter {
    if amount > 0 {
        Fighter { hp: clamp_i32(f.hp - amount) as i32, ..f }
    } else {
        f
    }
}

/// Whether an actor is an item with an equipment component.
pub open spec fn is_equippable(o: Object) -> bool {
    o.item is Some && o.equipment is Some
}

/// `o` with its equipment's worn flag set to `worn`.
pub open spec fn with_worn(o: Object, worn: bool) -> Object {
    match o.equipment {
        Some(e) => Object { equipment: Some(Equipment { equipped: worn, ..e }), ..o },
        None => o,
    }
}

/// The experience an actor hands over when a hit of `amount` kills it.
pub open spec fn xp_reward(o: Object, amount: int) -> Option<i32> {
    match o.fighter {
        Some(f) => if damaged(f, amount).hp <= 0 {
            Some(f.xp)
        } else {
            None
        },
        None => None,
    }
}

/// The effect of a hit of `amount` on an actor and on the log: hit points drop, and
/// an actor left with none dies (marked not alive, then its death variant applied).
pub open spec fn damage_outcome(
    before: Object,
    amount: int,
    after: Object,
    log_before: Seq<Event>,
    log_after: Seq<Event>,
) -> bool {
    match before.fighter {
        None => after == before && log_after == log_before,
        Some(f) => {
            let hit = damaged(f, amount);
            let wounded = Object { fighter: Some(hit), ..before };
            if hit.hp <= 0 {
                death_effect(f.on_death, Object { alive: false, ..wounded }, after, log_before, log_after)
            } else {
                after == wounded && log_after == log_before
            }
        },
    }
}

/// Damage of a blow: how far attack exceeds defense, or 0 when it does not.
pub open spec fn damage_of(attack: int, defense: int) -> int {
    if attack > defense {
        attack - defense
    } else {
        0
    }
}

/// A damage value held to `i32`.
pub open spec fn capped_hit(d: int) -> int {
    if d > i32::MAX {
        i32::MAX as int
    } else {
        d
    }
}

/// `o` credited with the experience of a kill, if any.
pub open spec fn credited(o: Object, reward: Option<i32>) -> Object {
    match (reward, o.fighter) {
        (Some(xp), Some(f)) => Object { fighter: Some(Fighter { xp: clamp_i32(f.xp + xp) as i32, ..f }), ..o },
        _ => o,
    }
}

/// The effect of a blow by `att` (effective attack `atk`) on `tgt` (effective defense
/// `def`): a blow of positive damage is logged, wounds the target and credits the
/// attacker with the experience of a kill; otherwise "no effect" is logged and
/// neither actor changes.
pub open spec fn attack_outcome(
    att: Object,
    tgt: Object,
    atk: int,
    def: int,
    att_after: Object,
    tgt_after: Object,
    log_before: Seq<Event>,
    log_after: Seq<Event>,
) -> bool {
    let d = damage_of(atk, def);
    if d > 0 {
        let hit = capped_hit(d);
        let logged = log_before.push(Event::Attack { attacker: att.name, target: tgt.name, damage: hit as i32 });
        &&& damage_outcome(tgt, hit, tgt_after, logged, log_after)
        &&& att_after == credited(att, xp_reward(tgt, hit))
    } else {
        &&& att_after == att
        &&& tgt_after == tgt
        &&& log_after == log_before.push(Event::NoEffect { attacker: att.name, target: tgt.name })
    }
}

impl Object {
    /// A new actor with no components, not alive, at level 1.
    pub fn new(x: i32, y: i32, c: char, color: Color, name: &str, solid: bool) -> (o: Object)
        ensures
            o.pos == (x, y),
            o.c == c,
            o.color == color,
            o.name@ == name@,
            !o.alive,
            o.solid == solid,
            !o.always_visible,
            o.level == 1,
            o.fighter is None,
            o.ai is None,
            o.item is None,
            o.equipment is None,
    {
        Object {
            pos: (x, y),
            c: c,
            color: color,
            name: String::from_str(name),
            alive: false,
            solid: solid,
            always_visible: false,
            level: 1,
            fighter: None,
            ai: None,
            item: None,
            equipment: None,
        }
    }

    /// Moves the actor to `(x, y)`.
    pub fn set_pos(&mut self, x: i32, y: i32)
        ensures
            *final(self) == (Object { pos: (x, y), ..*old(self) }),
    {
        self.pos = (x, y);
    }

    /// Heals the actor's fighter by `amount`, never above its maximum.
    pub fn heal(&mut self, amount: i32)
        ensures
            *final(self) == (Object {
                fighter: match old(self).fighter {
                    Some(f) => Some(healed(f, amount as int)),
                    None => None,
                },
                ..*old(self)
            }),
    {
        if let Some(f) = self.fighter {
            let sum = f.hp as i64 + amount as i64;
            let hp = if sum > f.max_hp as i64 {
                f.max_hp
            } else if sum < i32::MIN as i64 {
                i32::MIN
            } else {
                sum as i32
            };
            self.fighter = Some(Fighter { hp: hp, ..f });
        }
    }

    /// Takes `amount` damage. An actor whose hit points fall to zero or below dies:
    /// it is marked not alive, its death variant is applied, and the experience it
    /// carried is returned for the attacker.
    pub fn take_damage(&mut self, amount: i32, log: &mut Messages) -> (r: Option<i32>)
        ensures
            damage_outcome(*old(self), amount as int, *final(self), old(log)@, final(log)@),
            r == xp_reward(*old(self), amount as int),
    {
        if let Some(f) = self.fighter {
            let mut hit = f;
            if amount > 0 {
                let v = f.hp as i64 - amount as i64;
                hit.hp = if v < i32::MIN as i64 {
                    i32::MIN
                } else {
                    v as i32
                };
            }
            self.fighter = Some(hit);
            if hit.hp <= 0 {
                self.alive = false;
                f.on_death.callback(self, log);
                return Some(f.xp);
            }
        }
        None
    }

    /// Puts this item on. Refused for an actor that is not an equippable item;
    /// an item already worn stays as it is.
    pub fn equip(&mut self, log: &mut Messages) -> (r: Result<(), ItemError>)
        ensures
            is_equippable(*old(self)) ==> {
                &&& r is Ok
                &&& *final(self) == with_worn(*old(self), true)
                &&& final(log)@ == if old(self).equipment.unwrap().equipped {
                    old(log)@
                } else {
                    old(log)@.push(
                        Event::Equipped {
                            name: old(self).name,
                            slot: old(self).equipment.unwrap().slot,
                        },
                    )
                }
            },
            !is_equippable(*old(self)) ==> {
                &&& r == Err::<(), ItemError>(ItemError::NotEquipment)
                &&& *final(self) == *old(self)
                &&& final(log)@ == old(log)@.push(Event::CannotEquip { name: old(self).name })
            },
    {
        if self.item.is_none() || self.equipment.is_none() {
            log.add(Event::CannotEquip { name: self.name.clone() });
            return Err(ItemError::NotEquipment);
        }
        let e = self.equipment.unwrap();
        if !e.equipped {
            self.equipment = Some(Equipment { equipped: true, ..e });
            log.add(Event::Equipped { name: self.name.clone(), slot: e.slot });
        }
        Ok(())
    }

    /// Takes this item off. Refused for an actor that is not an equippable item;
    /// an item not worn stays as it is.
    pub fn unequip(&mut self, log: &mut Messages) -> (r: Result<(), ItemError>)
        ensures
            is_equippable(*old(self)) ==> {
                &&& r is Ok
                &&& *final(self) == with_worn(*old(self), false)
                &&& final(log)@ == if old(self).equipment.unwrap().equipped {
                    old(log)@.push(
                        Event::Unequipped {
                            name: old(self).name,
                            slot: old(self).equipment.unwrap().slot,
                        },
                    )
                } else {
                    old(log)@
                }
            },
            !is_equippable(*old(self)) ==> {
                &&& r == Err::<(), ItemError>(ItemError::NotEquipped)
                &&& *final(self) == *old(self)
                &&& final(log)@ == old(log)@.push(Event::CannotUnequip { name: old(self).name })
            },
    {
        if self.item.is_none() || self.equipment.is_none() {
            log.add(Event::CannotUnequip { name: self.name.clone() });
            return Err(ItemError::NotEquipped);
        }
        let e = self.equipment.unwrap();
        if e.equipped {
            self.equipment = Some(Equipment { equipped: false, ..e });
            log.add(Event::Unequipped { name: self.name.clone(), slot: e.slot });
        }
        Ok(())
    }
}


/// Every sum of `n` bonuses lies within `n` times the range of `i32`.
proof fn lemma_bonus_sum_bounds(es: Seq<Equipment>, a: Attribute)
    ensures
        -(es.len() * 0x8000_0000) <= bonus_sum(es, a) <= es.len() * 0x8000_0000,
    decreases es.len(),
{
    if es.len() > 0 {
        lemma_bonus_sum_bounds(es.drop_last(), a);
    }
}

/// The worn equipment of an inventory is never longer than the inventory.
proof fn lemma_equipped_of_len(inv: Seq<Object>)
    ensures
        equipped_of(inv).len() <= inv.len(),
    decreases inv.len(),
{
    if inv.len() > 0 {
        lemma_equipped_of_len(inv.drop_last());
    }
}

impl Object {
    /// The equipment of every worn item of `inventory`, in inventory order.
    pub fn get_all_equipped(&self, inventory: &Vec<Object>) -> (r: Vec<Equipment>)
        ensures
            r@ == equipped_of(inventory@),
    {
        let mut r: Vec<Equipment> = Vec::new();
        let mut i: usize = 0;
        while i < inventory.len()
            invariant
                i <= inventory@.len(),
                r@ == equipped_of(inventory@.subrange(0, i as int)),
            decreases inventory@.len() - i,
        {
            proof {
                let next = inventory@.subrange(0, i + 1);
                assert(next.drop_last() == inventory@.subrange(0, i as int));
                assert(next.last() == inventory@[i as int]);
            }
            if let Some(e) = inventory[i].equipment {
                if e.equipped {
                    r.push(e);
                }
            }
            i += 1;
        }
        assert(inventory@.subrange(0, inventory@.len() as int) == inventory@);
        r
    }

    /// The actor's effective value of `attr`: its base value plus the bonuses of
    /// every worn item of `inventory`.
    pub fn stat_value(&self, inventory: &Vec<Object>, attr: Attribute) -> (v: i64)
        requires
            inventory@.len() <= i32::MAX,
        ensures
            v == effective_stat(*self, inventory@, attr),
    {
        let base: i64 = match self.fighter {
            Some(f) => match attr {
                Attribute::Vitality => f.base_vit as i64,
                Attribute::Attack => f.base_atk as i64,
                Attribute::Strength => f.base_str as i64,
                Attribute::Defense => f.base_def as i64,
                Attribute::Dexterity => f.base_dex as i64,
                Attribute::Intelligence => f.base_int as i64,
                Attribute::Luck => f.base_lck as i64,
            },
            None => 0,
        };
        let worn = self.get_all_equipped(inventory);
        proof {
            lemma_equipped_of_len(inventory@);
        }
        let mut bonus: i64 = 0;
        let mut i: usize = 0;
        while i < worn.len()
            invariant
                i <= worn@.len(),
                worn@.len() <= i32::MAX,
                bonus == bonus_sum(worn@.subrange(0, i as int), attr),
            decreases worn@.len() - i,
        {
            let e = worn[i];
            proof {
                let next = worn@.subrange(0, i + 1);
                assert(next.drop_last() == worn@.subrange(0, i as int));
                assert(next.last() == e);
                lemma_bonus_sum_bounds(worn@.subrange(0, i as int), attr);
            }
            let b: i64 = match attr {
                Attribute::Vitality => e.vit_bonus as i64,
                Attribute::Attack => e.atk_bonus as i64,
                Attribute::Strength => e.str_bonus as i64,
                Attribute::Defense => e.def_bonus as i64,
                Attribute::Dexterity => e.dex_bonus as i64,
                Attribute::Intelligence => e.int_bonus as i64,
                Attribute::Luck => e.lck_bonus as i64,
            };
            bonus = bonus + b;
            i += 1;
        }
        assert(worn@.subrange(0, worn@.len() as int) == worn@);
        proof {
            lemma_bonus_sum_bounds(worn@, attr);
        }
        base + bonus
    }

    /// Effective vitality.
    pub fn vitality_value(&self, inventory: &Vec<Object>) -> (v: i64)
        requires
            inventory@.len() <= i32::MAX,
        ensures
            v == effective_stat(*self, inventory@, Attribute::Vitality),
    {
        self.stat_value(inventory, Attribute::Vitality)
    }

    /// Effective attack.
    pub fn attack_value(&self, inventory: &Vec<Object>) -> (v: i64)
        requires
            inventory@.len() <= i32::MAX,
        ensures
            v == effective_stat(*self, inventory@, Attribute::Attack),
    {
        self.stat_value(inventory, Attribute::Attack)
    }

    /// Effective strength.
    pub fn strength_value(&self, inventory: &Vec<Object>) -> (v: i64)
        requires
            inventory@.len() <= i32::MAX,
        ensures
            v == effective_stat(*self, inventory@, Attribute::Strength),
    {
        self.stat_value(inventory, Attribute::Strength)
    }

    /// Effective defense.
    pub fn defense_value(&self, inventory: &Vec<Object>) -> (v: i64)
        requires
            inventory@.len() <= i32::MAX,
        ensures
            v == effective_stat(*self, inventory@, Attribute::Defense),
    {
        self.stat_value(inventory, Attribute::Defense)
    }

    /// Effective dexterity.
    pub fn dexterity_value(&self, inventory: &Vec<Object>) -> (v: i64)
        requires
            inventory@.len() <= i32::MAX,
        ensures
            v == effective_stat(*self, inventory@, Attribute::Dexterity),
    {
        self.stat_value(inventory, Attribute::Dexterity)
    }

    /// Effective intelligence.
    pub fn intelligence_value(&self, inventory: &Vec<Object>) -> (v: i64)
        requires
            inventory@.len() <= i32::MAX,
        ensures
            v == effective_stat(*self, inventory@, Attribute::Intelligence),
    {
        self.stat_value(inventory, Attribute::Intelligence)
    }

    /// Effective luck.
    pub fn luck_value(&self, inventory: &Vec<Object>) -> (v: i64)
        requires
            inventory@.len() <= i32::MAX,
        ensures
            v == effective_stat(*self, inventory@, Attribute::Luck),
    {
        self.stat_value(inventory, Attribute::Luck)
    }
}

impl Object {
    /// Strikes `target`. Damage is how far this actor's effective attack (over
    /// `own_gear`) exceeds the target's effective defense (over `target_gear`); a blow
    /// of no damage has no effect. A kill credits this actor with the target's experience.
    pub fn attack(
        &mut self,
        target: &mut Object,
        own_gear: &Vec<Object>,
        target_gear: &Vec<Object>,
        log: &mut Messages,
    )
        requires
            own_gear@.len() <= i32::MAX,
            target_gear@.len() <= i32::MAX,
        ensures
            attack_outcome(
                *old(self),
                *old(target),
                effective_stat(*old(self), own_gear@, Attribute::Attack),
                effective_stat(*old(target), target_gear@, Attribute::Defense),
                *final(self),
                *final(target),
                old(log)@,
                final(log)@,
            ),
    {
        let atk = self.attack_value(own_gear);
        let def = target.defense_value(target_gear);
        proof {
            lemma_bonus_sum_bounds(equipped_of(own_gear@), Attribute::Attack);
            lemma_bonus_sum_bounds(equipped_of(target_gear@), Attribute::Defense);
            lemma_equipped_of_len(own_gear@);
            lemma_equipped_of_len(target_gear@);
        }
        if atk > def {
            let d = atk - def;
            let hit: i32 = if d > i32::MAX as i64 {
                i32::MAX
            } else {
                d as i32
            };
            log.add(
                Event::Attack { attacker: self.name.clone(), target: target.name.clone(), damage: hit },
            );
            let reward = target.take_damage(hit, log);
            if let Some(xp) = reward {
                if let Some(f) = self.fighter {
                    let sum = f.xp as i64 + xp as i64;
                    let new_xp = if sum > i32::MAX as i64 {
                        i32::MAX
                    } else if sum < i32::MIN as i64 {
                        i32::MIN
                    } else {
                        sum as i32
                    };
                    self.fighter = Some(Fighter { xp: new_xp, ..f });
                }
            }
        } else {
            log.add(Event::NoEffect { attacker: self.name.clone(), target: target.name.clone() });
        }
    }
}

/// Mutably borrows two different elements of `items`.
pub fn mut_two<T>(first_index: usize, second_index: usize, items: &mut [T]) -> (r: (&mut T, &mut T))
    requires
        first_index != second_index,
        first_index < old(items)@.len(),
        second_index < old(items)@.len(),
    ensures
        *r.0 == old(items)@[first_index as int],
        *r.1 == old(items)@[second_index as int],
        final(items)@ == old(items)@.update(first_index as int, *final(r.0)).update(
            second_index as int,
            *final(r.1),
        ),
{
    let split_at_index = if first_index > second_index {
        first_index
    } else {
        second_index
    };
    let (first_slice, second_slice) = items.split_at_mut(split_at_index);
    if first_index < second_index {
        (&mut first_slice[first_index], &mut second_slice[0])
    } else {
        (&mut second_slice[0], &mut first_slice[second_index])
    }
}

/// `after` is `before` once actor `id` tried to step by `(dx, dy)`: it moves unless
/// the destination is blocked, and nothing else changes.
pub open spec fn moved_by(before: Game, after: Game, id: int, dx: int, dy: int) -> bool {
    let o = before.objects@[id];
    let nx = o.pos.0 + dx;
    let ny = o.pos.1 + dy;
    &&& after.map == before.map
    &&& after.inventory == before.inventory
    &&& after.log == before.log
    &&& after.dungeon_level == before.dungeon_level
    &&& after.objects@ == if before.map.blocked_at(before.objects@, nx, ny) {
        before.objects@
    } else {
        before.objects@.update(id, Object { pos: (nx as i32, ny as i32), ..o })
    }
}

/// One axis of a step toward a target `d` away on this axis and `other` away on the
/// other: `d` divided by the Euclidean distance, rounded to the nearest integer
/// (halves away from zero). The quotient has magnitude at least one half exactly
/// when `3 * (d * d) >= other * other`.
pub open spec fn axis_step(d: int, other: int) -> int {
    if d > 0 && 3 * (d * d) >= other * other {
        1
    } else if d < 0 && 3 * (d * d) >= other * other {
        -1
    } else {
        0
    }
}

/// Squared Euclidean distance between two positions.
pub open spec fn dist2(a: (i32, i32), b: (i32, i32)) -> int {
    (b.0 - a.0) * (b.0 - a.0) + (b.1 - a.1) * (b.1 - a.1)
}

/// `v * v` for `|v| <= 2^32`, which fits in 65 bits.
proof fn lemma_square_bound(v: int)
    requires
        -0x1_0000_0000 <= v <= 0x1_0000_0000,
    ensures
        0 <= v * v <= 0x1_0000_0000_0000_0000,
{
    assert(0 <= v * v <= 0x1_0000_0000_0000_0000) by (nonlinear_arith)
        requires
            -0x1_0000_0000 <= v <= 0x1_0000_0000,
    ;
}

/// One axis of a step toward a target, as `axis_step` defines it.
fn step_toward(d: i64, other: i64) -> (s: i32)
    requires
        -0x1_0000_0000 <= d <= 0x1_0000_0000,
        -0x1_0000_0000 <= other <= 0x1_0000_0000,
    ensures
        s == axis_step(d as int, other as int),
{
    proof {
        lemma_square_bound(d as int);
        lemma_square_bound(other as int);
    }
    let d2 = (d as i128) * (d as i128);
    let o2 = (other as i128) * (other as i128);
    if d > 0 && 3 * d2 >= o2 {
        1
    } else if d < 0 && 3 * d2 >= o2 {
        -1
    } else {
        0
    }
}

/// Squared distance between two positions.
pub fn distance_squared(a: (i32, i32), b: (i32, i32)) -> (r: i128)
    ensures
        r == dist2(a, b),
{
    let dx = b.0 as i64 - a.0 as i64;
    let dy = b.1 as i64 - a.1 as i64;
    proof {
        lemma_square_bound(dx as int);
        lemma_square_bound(dy as int);
    }
    (dx as i128) * (dx as i128) + (dy as i128) * (dy as i128)
}

/// Moves actor `id` by `(dx, dy)` unless the destination is off the grid, a wall,
/// or taken by a solid actor.
pub fn move_by(id: usize, dx: i32, dy: i32, game: &mut Game)
    requires
        id < old(game).objects@.len(),
        old(game).map.wf(),
    ensures
        moved_by(*old(game), *final(game), id as int, dx as int, dy as int),
{
    let (x, y) = game.objects[id].pos;
    let nx = x as i64 + dx as i64;
    let ny = y as i64 + dy as i64;
    if nx < 0 || ny < 0 || nx >= game.map.width as i64 || ny >= game.map.height as i64 {
        return;
    }
    if !game.map.is_blocked(nx as i32, ny as i32, &game.objects) {
        game.objects[id].set_pos(nx as i32, ny as i32);
    }
}

/// Moves actor `id` one step toward `(target_x, target_y)`. Each axis of the step is
/// that axis's distance divided by the Euclidean distance, rounded to the nearest
/// integer, independently of the other axis; so near some distances an axis, or the
/// whole step, comes out zero.
pub fn move_towards(id: usize, target_x: i32, target_y: i32, game: &mut Game)
    requires
        id < old(game).objects@.len(),
        old(game).map.wf(),
    ensures
        ({
            let p = old(game).objects@[id as int].pos;
            let dx = target_x - p.0;
            let dy = target_y - p.1;
            moved_by(*old(game), *final(game), id as int, axis_step(dx, dy), axis_step(dy, dx))
        }),
{
    let dx = target_x as i64 - game.objects[id].pos.0 as i64;
    let dy = target_y as i64 - game.objects[id].pos.1 as i64;
    let sx = step_toward(dx, dy);
    let sy = step_toward(dy, dx);
    move_by(id, sx, sy, game);
}

} // verus!
