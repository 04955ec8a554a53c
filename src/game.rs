use vstd::prelude::*;

use crate::ai::{ai_basic_monster, basic_monster_turn, Ai};
use crate::fighter::{clamp_i32, DeathCallback, Fighter};
use crate::log::{Event, MessageLog};
use crate::item::{ItemError, drop_item, drop_outcome, pick_item_up, pickup_outcome, use_item, use_outcome};
use crate::object::{healed, move_by, moved_by};
use crate::rect::half;
use crate::item::{worn_in, EquipmentSlot};
use crate::log::Messages;
use crate::map::{level_actors, level_layout, DungeonMap, ROOM_MAX_SIZE};
use crate::rect::Rect;
use crate::object::{attack_outcome, effective_stat, mut_two, Attribute, Color, Object};

verus! {

/// The player is always the first actor.
pub const PLAYER_ID: usize = 0;

/// Experience needed to leave level 0.
pub const LEVEL_UP_BASE: i32 = 200;

/// Extra experience needed per level.
pub const LEVEL_UP_FACTOR: i32 = 150;

/// How many items the inventory holds at most (one per letter a-z).
pub const INVENTORY_CAPACITY: usize = 26;

/// The whole world state of a game in progress.
pub struct Game {
    pub map: DungeonMap,
    /// Every actor on the level; the player is at `PLAYER_ID`.
    pub objects: Vec<Object>,
    /// The player's items.
    pub inventory: Vec<Object>,
    pub log: Messages,
    pub dungeon_level: i32,
}

/// At most one item of `inv` is worn in each slot.
pub open spec fn slots_exclusive(inv: Seq<Object>) -> bool {
    forall|i: int, j: int, s: EquipmentSlot|
        0 <= i < inv.len() && 0 <= j < inv.len() && #[trigger] worn_in(inv[i], s) && #[trigger] worn_in(inv[j], s) ==> i == j
}

/// The gear whose bonuses count for actor `id`: the inventory for the player, none otherwise.
pub open spec fn gear_of(g: Game, id: int) -> Seq<Object> {
    if id == PLAYER_ID {
        g.inventory@
    } else {
        Seq::empty()
    }
}

/// The outcome of a melee blow from actor `a` on actor `t`: both actors change as
/// `attack_outcome` says, every other actor and the actor count stay as they were.
pub open spec fn melee_outcome(before: Game, after: Game, a: int, t: int) -> bool {
    &&& after.objects@.len() == before.objects@.len()
    &&& after.map == before.map
    &&& after.inventory == before.inventory
    &&& after.dungeon_level == before.dungeon_level
    &&& forall|k: int| 0 <= k < before.objects@.len() && k != a && k != t ==> after.objects@[k] == before.objects@[k]
    &&& attack_outcome(
        before.objects@[a],
        before.objects@[t],
        effective_stat(before.objects@[a], gear_of(before, a), Attribute::Attack),
        effective_stat(before.objects@[t], gear_of(before, t), Attribute::Defense),
        after.objects@[a],
        after.objects@[t],
        before.log@,
        after.log@,
    )
}

/// The player as a new game creates it, before it is placed.
pub open spec fn is_new_player(o: Object) -> bool {
    &&& o.name@ == "Player"@
    &&& o.c == '@' && o.color == Color::White
    &&& o.alive && o.solid && !o.always_visible && o.level == 1
    &&& o.fighter == Some(Fighter {
        base_vit: 1,
        base_atk: 1,
        base_str: 1,
        base_def: 1,
        base_dex: 1,
        base_int: 1,
        base_lck: 1,
        max_hp: 15,
        hp: 15,
        xp: 0,
        on_death: DeathCallback::PlayerDeath,
    })
    &&& o.ai is None && o.item is None && o.equipment is None
}

impl Game {
    /// The invariant of a game: a valid grid large enough to generate levels on, the
    /// player present at `PLAYER_ID`, an inventory of items within capacity with at
    /// most one worn item per slot.
    pub open spec fn wf(&self) -> bool {
        &&& self.map.wf()
        &&& self.map.width > ROOM_MAX_SIZE
        &&& self.map.height > ROOM_MAX_SIZE
        &&& self.objects@.len() >= 1
        &&& self.inventory@.len() <= INVENTORY_CAPACITY
        &&& forall|i: int| 0 <= i < self.inventory@.len() ==> (#[trigger] self.inventory@[i]).item is Some
        &&& slots_exclusive(self.inventory@)
    }

    /// A new game: a fresh player on a generated first level, an empty inventory and log.
    pub fn new() -> (g: Game)
        ensures
            g.wf(),
            g.dungeon_level == 1,
            g.inventory@.len() == 0,
            g.log@.len() == 0,
            exists|rooms: Seq<Rect>| #[trigger] level_layout(g.map, rooms) && level_actors(g.objects@[0], g.objects@, rooms, 1),
            is_new_player(g.objects@[0]),
    {
        let mut player = Object::new(0, 0, '@', Color::White, "Player", true);
        player.alive = true;
        player.fighter = Some(Fighter::new(1, 1, 1, 1, 1, 1, 1, 0, DeathCallback::PlayerDeath));
        let mut objects: Vec<Object> = Vec::new();
        objects.push(player);
        let mut map = DungeonMap::new();
        let rooms = map.generate(&mut objects, 1);
        let inventory: Vec<Object> = Vec::new();
        let log: Messages = Vec::new();
        let g = Game { map: map, objects: objects, inventory: inventory, log: log, dungeon_level: 1 };
        assert(level_layout(g.map, rooms@) && level_actors(g.objects@[0], g.objects@, rooms@, 1));
        g
    }

    /// Actor `attacker_id` strikes actor `target_id`. The player's blows and defense
    /// count the inventory's worn items. No actor is added or removed: one that dies
    /// stays in place, as remains or as a defeated player.
    pub fn melee(&mut self, attacker_id: usize, target_id: usize)
        requires
            old(self).wf(),
            attacker_id != target_id,
            attacker_id < old(self).objects@.len(),
            target_id < old(self).objects@.len(),
        ensures
            final(self).wf(),
            melee_outcome(*old(self), *final(self), attacker_id as int, target_id as int),
    {
        let no_gear: Vec<Object> = Vec::new();
        let (attacker, target) = mut_two(attacker_id, target_id, self.objects.as_mut_slice());
        let own_gear = if attacker_id == PLAYER_ID {
            &self.inventory
        } else {
            &no_gear
        };
        let target_gear = if target_id == PLAYER_ID {
            &self.inventory
        } else {
            &no_gear
        };
        attacker.attack(target, own_gear, target_gear, &mut self.log);
    }
}

/// One actor's turn: an actor without behaviour does nothing.
pub open spec fn ai_turn(before: Game, after: Game, id: int) -> bool {
    match before.objects@[id].ai {
        None => after == before,
        Some(Ai::BasicMonster) => basic_monster_turn(before, after, id),
    }
}

/// `states` runs through the turns of every actor in collection order, starting at
/// `states[0]`: actor `k` acts on `states[k]`, giving `states[k + 1]`.
pub open spec fn ai_round(states: Seq<Game>) -> bool {
    forall|k: int| 0 <= k < states.len() - 1 ==> #[trigger] ai_turn(states[k], states[k + 1], k)
}

/// Experience needed to leave `level`.
pub open spec fn threshold(level: int) -> int {
    LEVEL_UP_BASE + level * LEVEL_UP_FACTOR
}

/// Whether actor `p` has the experience to go up a level.
pub open spec fn level_up_ready(p: Object) -> bool {
    match p.fighter {
        Some(f) => f.xp >= threshold(p.level as int),
        None => false,
    }
}

/// `f` with one point added to `stat` (saturating); raising vitality recomputes
/// the maximum hit points.
pub open spec fn raised(f: Fighter, stat: Attribute) -> Fighter {
    match stat {
        Attribute::Vitality => {
            let vit = clamp_i32(f.base_vit + 1);
            Fighter { base_vit: vit as i32, max_hp: clamp_i32(10 + 5 * vit) as i32, ..f }
        },
        Attribute::Attack => Fighter { base_atk: clamp_i32(f.base_atk + 1) as i32, ..f },
        Attribute::Strength => Fighter { base_str: clamp_i32(f.base_str + 1) as i32, ..f },
        Attribute::Defense => Fighter { base_def: clamp_i32(f.base_def + 1) as i32, ..f },
        Attribute::Dexterity => Fighter { base_dex: clamp_i32(f.base_dex + 1) as i32, ..f },
        Attribute::Intelligence => Fighter { base_int: clamp_i32(f.base_int + 1) as i32, ..f },
        Attribute::Luck => Fighter { base_lck: clamp_i32(f.base_lck + 1) as i32, ..f },
    }
}

/// Actor `p` one level up: `stat` raised, healed to full, and the threshold taken
/// off its experience, the remainder kept.
pub open spec fn leveled_up(p: Object, stat: Attribute) -> Object {
    let f = p.fighter.unwrap();
    let r = raised(f, stat);
    Object {
        level: (p.level + 1) as i32,
        fighter: Some(
            Fighter { hp: r.max_hp, xp: clamp_i32(f.xp - threshold(p.level as int)) as i32, ..r },
        ),
        ..p
    }
}

/// The outcome of a level-up check with `stat` chosen: a player with enough
/// experience is `leveled_up` and the new level logged; otherwise nothing changes.
pub open spec fn level_up_outcome(before: Game, after: Game, stat: Attribute) -> bool {
    &&& after.map == before.map
    &&& after.inventory == before.inventory
    &&& after.dungeon_level == before.dungeon_level
    &&& if level_up_ready(before.objects@[PLAYER_ID as int]) {
        let p = leveled_up(before.objects@[PLAYER_ID as int], stat);
        &&& after.objects@ == before.objects@.update(PLAYER_ID as int, p)
        &&& after.log@ == before.log@.push(Event::LevelUp { level: p.level })
    } else {
        after == before
    }
}

/// The experience needed to leave `level`: `200 + level * 150`.
pub fn level_up_threshold(level: i32) -> (t: i64)
    ensures
        t == threshold(level as int),
{
    LEVEL_UP_BASE as i64 + level as i64 * LEVEL_UP_FACTOR as i64
}

fn raise(f: Fighter, stat: Attribute) -> (r: Fighter)
    ensures
        r == raised(f, stat),
{
    match stat {
        Attribute::Vitality => {
            let vit = if f.base_vit < i32::MAX {
                f.base_vit + 1
            } else {
                i32::MAX
            };
            let hp = 10 + 5 * (vit as i64);
            let max_hp = if hp > i32::MAX as i64 {
                i32::MAX
            } else if hp < i32::MIN as i64 {
                i32::MIN
            } else {
                hp as i32
            };
            Fighter { base_vit: vit, max_hp: max_hp, ..f }
        },
        Attribute::Attack => Fighter { base_atk: if f.base_atk < i32::MAX { f.base_atk + 1 } else { i32::MAX }, ..f },
        Attribute::Strength => Fighter { base_str: if f.base_str < i32::MAX { f.base_str + 1 } else { i32::MAX }, ..f },
        Attribute::Defense => Fighter { base_def: if f.base_def < i32::MAX { f.base_def + 1 } else { i32::MAX }, ..f },
        Attribute::Dexterity => Fighter { base_dex: if f.base_dex < i32::MAX { f.base_dex + 1 } else { i32::MAX }, ..f },
        Attribute::Intelligence => Fighter { base_int: if f.base_int < i32::MAX { f.base_int + 1 } else { i32::MAX }, ..f },
        Attribute::Luck => Fighter { base_lck: if f.base_lck < i32::MAX { f.base_lck + 1 } else { i32::MAX }, ..f },
    }
}

impl Game {
    /// Whether the player has the experience to go up a level.
    pub fn level_up_due(&self) -> (b: bool)
        requires
            self.objects@.len() >= 1,
        ensures
            b == level_up_ready(self.objects@[PLAYER_ID as int]),
    {
        let p = &self.objects[PLAYER_ID];
        match p.fighter {
            Some(f) => f.xp as i64 >= level_up_threshold(p.level),
            None => false,
        }
    }

    /// Runs the turn of every actor that has a behaviour, in collection order.
    pub fn run_ai(&mut self)
        requires
            old(self).wf(),
        ensures
            final(self).wf(),
            final(self).objects@.len() == old(self).objects@.len(),
            exists|states: Seq<Game>|
                states.len() == old(self).objects@.len() + 1 && states[0] == *old(self)
                    && states.last() == *final(self) && #[trigger] ai_round(states),
    {
        let ghost mut states: Seq<Game> = seq![*self];
        let n = self.objects.len();
        let mut id: usize = 0;
        while id < n
            invariant
                self.wf(),
                id <= n,
                n == self.objects@.len(),
                n == old(self).objects@.len(),
                states.len() == id + 1,
                states[0] == *old(self),
                states.last() == *self,
                ai_round(states),
            decreases n - id,
        {
            let ghost prev = states;
            ai_take_turn(id, self);
            proof {
                states = states.push(*self);
                assert forall|k: int| 0 <= k < states.len() - 1 implies #[trigger] ai_turn(states[k], states[k + 1], k) by {
                    if k < id {
                        assert(states[k] == prev[k] && states[k + 1] == prev[k + 1]);
                    }
                }
            }
            id += 1;
        }
    }
}

/// Runs the turn of actor `id`, if it has a behaviour.
fn ai_take_turn(id: usize, game: &mut Game)
    requires
        old(game).wf(),
        id < old(game).objects@.len(),
    ensures
        final(game).wf(),
        final(game).objects@.len() == old(game).objects@.len(),
        ai_turn(*old(game), *final(game), id as int),
{
    if let Some(ai) = game.objects[id].ai {
        let new_ai = match ai {
            Ai::BasicMonster => ai_basic_monster(id, game),
        };
        let changed = match game.objects[id].ai {
            Some(current) => current != new_ai,
            None => true,
        };
        if changed {
            game.objects[id].ai = Some(new_ai);
        }
    }
}

/// Raises the player one level if the experience suffices: `stat` goes up by one,
/// the level by one, hit points are restored to the maximum, and the threshold is
/// taken off the experience, the remainder carried forward. Otherwise nothing changes.
pub fn player_level_up(game: &mut Game, stat: Attribute)
    requires
        old(game).wf(),
    ensures
        final(game).wf(),
        level_up_outcome(*old(game), *final(game), stat),
{
    if !game.level_up_due() {
        return;
    }
    let level = game.objects[PLAYER_ID].level;
    let level_xp = level_up_threshold(level);
    let f = game.objects[PLAYER_ID].fighter.unwrap();
    let r = raise(f, stat);
    let remaining = f.xp as i64 - level_xp;
    let xp = if remaining > i32::MAX as i64 {
        i32::MAX
    } else {
        remaining as i32
    };
    let new_level = level + 1;
    game.objects[PLAYER_ID].level = new_level;
    game.objects[PLAYER_ID].fighter = Some(Fighter { hp: r.max_hp, xp: xp, ..r });
    game.log.add(Event::LevelUp { level: new_level });
    assert(game.objects@ =~= old(game).objects@.update(
        PLAYER_ID as int,
        leveled_up(old(game).objects@[PLAYER_ID as int], stat),
    ));
    assert(game.log@ =~= old(game).log@.push(Event::LevelUp { level: new_level }));
}

/// The player `p` after resting: healed by half its maximum hit points.
pub open spec fn rested(p: Object) -> Object {
    Object {
        fighter: match p.fighter {
            Some(f) => Some(healed(f, half(f.max_hp as int))),
            None => None,
        },
        ..p
    }
}

/// The outcome of going down the stairs: the depth goes up by one, the player has
/// rested, and a new level has been generated for the new depth around it.
pub open spec fn descent_outcome(before: Game, after: Game) -> bool {
    &&& after.dungeon_level == before.dungeon_level + 1
    &&& after.inventory == before.inventory
    &&& after.log@ == before.log@.push(Event::Rested).push(Event::Descended)
    &&& after.map.width == before.map.width
    &&& after.map.height == before.map.height
    &&& exists|rooms: Seq<Rect>|
        #[trigger] level_layout(after.map, rooms) && level_actors(
            rested(before.objects@[PLAYER_ID as int]),
            after.objects@,
            rooms,
            after.dungeon_level as int,
        )
}

/// Takes the player one level deeper: the player rests (healing half the maximum
/// hit points), the depth goes up by one and a new level is generated for it.
pub fn advance_dungeon_level(game: &mut Game)
    requires
        old(game).wf(),
        old(game).dungeon_level < i32::MAX,
    ensures
        final(game).wf(),
        descent_outcome(*old(game), *final(game)),
{
    game.log.add(Event::Rested);
    let heal_amt = match game.objects[PLAYER_ID].fighter {
        Some(f) => f.max_hp / 2,
        None => 0,
    };
    game.objects[PLAYER_ID].heal(heal_amt);
    game.log.add(Event::Descended);
    game.dungeon_level = game.dungeon_level + 1;
    let ghost player = game.objects@[0];
    let rooms = game.map.generate(&mut game.objects, game.dungeon_level);
    assert(player == rested(old(game).objects@[PLAYER_ID as int]));
    assert(level_layout(game.map, rooms@) && level_actors(player, game.objects@, rooms@, game.dungeon_level as int));
}

/// One decoded player input.
#[derive(Debug, Clone, Copy, PartialEq, Eq, Structural)]
pub enum Command {
    /// Leave the game.
    Exit,
    /// Step by `(dx, dy)`.
    Move { dx: i32, dy: i32 },
    /// Let a turn pass.
    Wait,
    /// Pick up what lies here, or take the stairs down.
    Interact,
    /// Strike actor `target`.
    Attack { target: usize },
    /// Use inventory item `index`.
    UseItem { index: usize },
    /// Drop inventory item `index`.
    DropItem { index: usize },
    /// No input, or one that only opens a menu.
    Idle,
}

/// What a player input amounted to.
#[derive(Debug, Clone, Copy, PartialEq, Eq, Structural)]
pub enum PlayerAction {
    /// The player leaves the game.
    Exit,
    /// The player acted: the monsters get their turn.
    Action,
    /// Nothing that gives the monsters a turn.
    NoAction,
}

/// The first actor other than the player that is an item lying at `pos`.
pub open spec fn first_item_at(objs: Seq<Object>, pos: (i32, i32)) -> Option<int>
    decreases objs.len(),
{
    if objs.len() <= 1 {
        None
    } else {
        match first_item_at(objs.drop_last(), pos) {
            Some(k) => Some(k),
            None => if objs.last().pos == pos && objs.last().item is Some {
                Some(objs.len() - 1)
            } else {
                None
            },
        }
    }
}

/// Whether a staircase lies at `pos`.
pub open spec fn stairs_at(objs: Seq<Object>, pos: (i32, i32)) -> bool {
    exists|k: int| 0 <= k < objs.len() && #[trigger] objs[k].pos == pos && objs[k].name@ == "Stairs"@
}

/// The outcome of interacting: pick up the first item here; else, on stairs, go
/// down (unless already at the deepest depth there is); else nothing.
pub open spec fn interact_outcome(before: Game, after: Game) -> bool {
    let pos = before.objects@[PLAYER_ID as int].pos;
    match first_item_at(before.objects@, pos) {
        Some(k) => exists|r: Result<(), ItemError>| #[trigger] pickup_outcome(before, after, k, r),
        None => if stairs_at(before.objects@, pos) && before.dungeon_level < i32::MAX {
            descent_outcome(before, after)
        } else {
            after == before
        },
    }
}

/// The outcome of a player input: what it does to the game and what it amounts to.
/// A dead player can only leave.
pub open spec fn command_outcome(before: Game, after: Game, cmd: Command, a: PlayerAction) -> bool {
    let alive = before.objects@[PLAYER_ID as int].alive;
    match cmd {
        Command::Exit => a == PlayerAction::Exit && after == before,
        Command::Move { dx, dy } => if alive {
            a == PlayerAction::Action && moved_by(before, after, PLAYER_ID as int, dx as int, dy as int)
        } else {
            a == PlayerAction::NoAction && after == before
        },
        Command::Wait => after == before && a == if alive {
            PlayerAction::Action
        } else {
            PlayerAction::NoAction
        },
        Command::Interact => a == PlayerAction::NoAction && if alive {
            interact_outcome(before, after)
        } else {
            after == before
        },
        Command::Attack { target } => if alive && PLAYER_ID < target < before.objects@.len() {
            a == PlayerAction::Action && melee_outcome(before, after, PLAYER_ID as int, target as int)
        } else {
            a == PlayerAction::NoAction && after == before
        },
        Command::UseItem { index } => a == PlayerAction::NoAction && if alive && index < before.inventory@.len() {
            use_outcome(before, after, index as int)
        } else {
            after == before
        },
        Command::DropItem { index } => a == PlayerAction::NoAction && if alive && index < before.inventory@.len() {
            drop_outcome(before, after, index as int)
        } else {
            after == before
        },
        Command::Idle => a == PlayerAction::NoAction && after == before,
    }
}

/// The monsters' part of a tick: they all act if the player acted and is alive.
pub open spec fn ai_phase(mid: Game, after: Game, a: PlayerAction) -> bool {
    if a == PlayerAction::Action && mid.objects@[PLAYER_ID as int].alive {
        exists|states: Seq<Game>|
            states.len() == mid.objects@.len() + 1 && states[0] == mid && states.last() == after
                && #[trigger] ai_round(states)
    } else {
        after == mid
    }
}

/// A whole tick: the player's input, then the monsters' turns.
pub open spec fn turn_outcome(before: Game, after: Game, cmd: Command, a: PlayerAction) -> bool {
    exists|mid: Game| #[trigger] command_outcome(before, mid, cmd, a) && ai_phase(mid, after, a)
}

impl Game {
    /// The position of the first item lying at `pos`, the player excepted.
    fn find_item_at(&self, pos: (i32, i32)) -> (r: Option<usize>)
        ensures
            r is None <==> first_item_at(self.objects@, pos) is None,
            r is Some ==> first_item_at(self.objects@, pos) == Some(r.unwrap() as int),
    {
        let mut i: usize = 1;
        if self.objects.len() <= 1 {
            return None;
        }
        while i < self.objects.len()
            invariant
                1 <= i <= self.objects@.len(),
                first_item_at(self.objects@.subrange(0, i as int), pos) is None,
            decreases self.objects@.len() - i,
        {
            let ghost pre = self.objects@.subrange(0, i + 1);
            assert(pre.drop_last() == self.objects@.subrange(0, i as int));
            assert(pre.last() == self.objects@[i as int]);
            let o = &self.objects[i];
            if o.pos.0 == pos.0 && o.pos.1 == pos.1 && o.item.is_some() {
                proof {
                    lemma_first_item_prefix(self.objects@, pos, i + 1);
                }
                return Some(i);
            }
            i += 1;
        }
        assert(self.objects@.subrange(0, self.objects@.len() as int) == self.objects@);
        None
    }

    /// Whether a staircase lies at `pos`.
    fn stairs_here(&self, pos: (i32, i32)) -> (b: bool)
        ensures
            b == stairs_at(self.objects@, pos),
    {
        let stairs = String::from_str("Stairs");
        let mut i: usize = 0;
        while i < self.objects.len()
            invariant
                i <= self.objects@.len(),
                stairs@ == "Stairs"@,
                forall|k: int| 0 <= k < i ==> !(#[trigger] self.objects@[k].pos == pos && self.objects@[k].name@ == "Stairs"@),
            decreases self.objects@.len() - i,
        {
            let o = &self.objects[i];
            if o.pos.0 == pos.0 && o.pos.1 == pos.1 && o.name == stairs {
                return true;
            }
            i += 1;
        }
        false
    }

    /// Carries out one player input (the turn engine's player half).
    pub fn handle_command(&mut self, cmd: Command) -> (a: PlayerAction)
        requires
            old(self).wf(),
        ensures
            final(self).wf(),
            command_outcome(*old(self), *final(self), cmd, a),
    {
        let alive = self.objects[PLAYER_ID].alive;
        match cmd {
            Command::Exit => PlayerAction::Exit,
            Command::Move { dx, dy } => {
                if !alive {
                    return PlayerAction::NoAction;
                }
                move_by(PLAYER_ID, dx, dy, self);
                PlayerAction::Action
            },
            Command::Wait => if alive {
                PlayerAction::Action
            } else {
                PlayerAction::NoAction
            },
            Command::Interact => {
                if !alive {
                    return PlayerAction::NoAction;
                }
                let pos = self.objects[PLAYER_ID].pos;
                let found = self.find_item_at(pos);
                if let Some(item_id) = found {
                    proof {
                        assert(first_item_at(self.objects@, pos) is Some);
                        lemma_first_item_valid(self.objects@, pos);
                        assert(first_item_at(self.objects@, pos) == Some(item_id as int));
                    }
                    let r = pick_item_up(item_id, self);
                    assert(pickup_outcome(*old(self), *self, item_id as int, r));
                    return PlayerAction::NoAction;
                }
                if self.stairs_here(pos) && self.dungeon_level < i32::MAX {
                    advance_dungeon_level(self);
                }
                PlayerAction::NoAction
            },
            Command::Attack { target } => {
                if alive && PLAYER_ID < target && target < self.objects.len() {
                    self.melee(PLAYER_ID, target);
                    PlayerAction::Action
                } else {
                    PlayerAction::NoAction
                }
            },
            Command::UseItem { index } => {
                if alive && index < self.inventory.len() {
                    use_item(index, self);
                }
                PlayerAction::NoAction
            },
            Command::DropItem { index } => {
                if alive && index < self.inventory.len() {
                    drop_item(index, self);
                }
                PlayerAction::NoAction
            },
            Command::Idle => PlayerAction::NoAction,
        }
    }

    /// One tick of the turn engine: the player's input, then, if the player acted
    /// and is alive, the turn of every actor with a behaviour, in collection order.
    pub fn take_turn(&mut self, cmd: Command) -> (a: PlayerAction)
        requires
            old(self).wf(),
        ensures
            final(self).wf(),
            turn_outcome(*old(self), *final(self), cmd, a),
    {
        let a = self.handle_command(cmd);
        let ghost mid = *self;
        if a == PlayerAction::Action && self.objects[PLAYER_ID].alive {
            self.run_ai();
        }
        assert(command_outcome(*old(self), mid, cmd, a) && ai_phase(mid, *self, a));
        a
    }
}

/// What `first_item_at` finds in a prefix it also finds in the whole.
proof fn lemma_first_item_prefix(objs: Seq<Object>, pos: (i32, i32), n: int)
    requires
        2 <= n <= objs.len(),
        first_item_at(objs.subrange(0, n - 1), pos) is None,
        objs[n - 1].pos == pos,
        objs[n - 1].item is Some,
    ensures
        first_item_at(objs, pos) == Some(n - 1),
    decreases objs.len(),
{
    let pre = objs.subrange(0, n);
    assert(pre.drop_last() == objs.subrange(0, n - 1));
    assert(pre.last() == objs[n - 1]);
    if n < objs.len() {
        assert(objs.drop_last().subrange(0, n - 1) == objs.subrange(0, n - 1));
        assert(objs.drop_last()[n - 1] == objs[n - 1]);
        lemma_first_item_prefix(objs.drop_last(), pos, n);
    } else {
        assert(objs.subrange(0, n) == objs);
    }
}

/// What `first_item_at` finds is an item at that position, not the player.
proof fn lemma_first_item_valid(objs: Seq<Object>, pos: (i32, i32))
    requires
        first_item_at(objs, pos) is Some,
    ensures
        1 <= first_item_at(objs, pos).unwrap() < objs.len(),
        objs[first_item_at(objs, pos).unwrap()].item is Some,
    decreases objs.len(),
{
    if first_item_at(objs.drop_last(), pos) is Some {
        lemma_first_item_valid(objs.drop_last(), pos);
    }
}

/// Whether actor `k` is drawn: it stands in view, or it is always drawn and its tile
/// has been explored.
pub open spec fn drawable(g: Game, k: int) -> bool {
    let p = g.objects@[k].pos;
    let on_grid = g.map.in_bounds(p.0 as int, p.1 as int);
    (on_grid && g.map.visible(p.0 as int, p.1 as int)) || (g.objects@[k].always_visible && on_grid
        && g.map.tile(p.0 as int, p.1 as int).explored)
}

/// The actors among the first `n` that are drawn and whose solidity is `solid`, in order.
pub open spec fn drawable_with(g: Game, n: int, solid: bool) -> Seq<usize>
    decreases n,
{
    if n <= 0 {
        Seq::empty()
    } else {
        let rest = drawable_with(g, n - 1, solid);
        if drawable(g, n - 1) && g.objects@[n - 1].solid == solid {
            rest.push((n - 1) as usize)
        } else {
            rest
        }
    }
}

/// The actors among the first `n` that stand at `(x, y)` in view, in order.
pub open spec fn seen_at(g: Game, n: int, x: i32, y: i32) -> Seq<usize>
    decreases n,
{
    if n <= 0 {
        Seq::empty()
    } else {
        let rest = seen_at(g, n - 1, x, y);
        let p = g.objects@[n - 1].pos;
        if p.0 == x && p.1 == y && g.map.in_bounds(x as int, y as int) && g.map.visible(x as int, y as int) {
            rest.push((n - 1) as usize)
        } else {
            rest
        }
    }
}

impl Game {
    /// The actors drawn with this solidity, in collection order.
    fn drawable_of(&self, solid: bool) -> (ids: Vec<usize>)
        requires
            self.map.wf(),
        ensures
            ids@ == drawable_with(*self, self.objects@.len() as int, solid),
    {
        let mut ids: Vec<usize> = Vec::new();
        let mut k: usize = 0;
        while k < self.objects.len()
            invariant
                self.map.wf(),
                k <= self.objects@.len(),
                ids@ == drawable_with(*self, k as int, solid),
            decreases self.objects@.len() - k,
        {
            let o = &self.objects[k];
            let shown = self.map.is_in_fov(o.pos) || (o.always_visible && self.map.is_explored(o.pos));
            if shown && o.solid == solid {
                ids.push(k);
            }
            k += 1;
        }
        ids
    }

    /// The actors to draw this tick, as positions in the actor list: those in view,
    /// and those always drawn whose tile is explored. Non-solid ones come first, so
    /// solid actors are drawn over them; each group keeps collection order.
    pub fn drawable_ids(&self) -> (ids: Vec<usize>)
        requires
            self.map.wf(),
        ensures
            ids@ == drawable_with(*self, self.objects@.len() as int, false) + drawable_with(
                *self,
                self.objects@.len() as int,
                true,
            ),
    {
        let mut ids = self.drawable_of(false);
        let mut solid = self.drawable_of(true);
        ids.append(&mut solid);
        ids
    }

    /// The actors standing at `(x, y)` while it is in view, in collection order.
    pub fn ids_at(&self, x: i32, y: i32) -> (ids: Vec<usize>)
        requires
            self.map.wf(),
        ensures
            ids@ == seen_at(*self, self.objects@.len() as int, x, y),
    {
        let mut ids: Vec<usize> = Vec::new();
        let seen = self.map.is_in_fov((x, y));
        let mut k: usize = 0;
        while k < self.objects.len()
            invariant
                self.map.wf(),
                k <= self.objects@.len(),
                seen == (self.map.in_bounds(x as int, y as int) && self.map.visible(x as int, y as int)),
                ids@ == seen_at(*self, k as int, x, y),
            decreases self.objects@.len() - k,
        {
            let p = self.objects[k].pos;
            if p.0 == x && p.1 == y && seen {
                ids.push(k);
            }
            k += 1;
        }
        ids
    }
}

/// The option a menu key selects: letters pick options `a`, `b`, ... (either case);
/// any other key, or a letter past the last option, selects nothing.
pub open spec fn menu_pick(key: char, count: int) -> Option<int> {
    let index = if 'a' <= key <= 'z' {
        key as int - 'a' as int
    } else if 'A' <= key <= 'Z' {
        key as int - 'A' as int
    } else {
        -1
    };
    if 0 <= index < count {
        Some(index)
    } else {
        None
    }
}

/// The option of a `count`-option menu that `key` selects.
pub fn menu_choice(key: char, count: usize) -> (r: Option<usize>)
    ensures
        match menu_pick(key, count as int) {
            Some(i) => r == Some(i as usize),
            None => r is None,
        },
{
    let index: u32 = if 'a' <= key && key <= 'z' {
        key as u32 - 'a' as u32
    } else if 'A' <= key && key <= 'Z' {
        key as u32 - 'A' as u32
    } else {
        return None;
    };
    if (index as usize) < count {
        Some(index as usize)
    } else {
        None
    }
}

/// Inventory items `a` and `b` are both worn, in the same slot.
pub open spec fn clash(inv: Seq<Object>, a: int, b: int) -> bool {
    match (inv[a].equipment, inv[b].equipment) {
        (Some(e), Some(f)) => e.equipped && f.equipped && e.slot == f.slot,
        _ => false,
    }
}

impl Game {
    /// Whether the game satisfies its invariant `wf`, for a game built from outside
    /// data (a loaded save).
    pub fn is_valid(&self) -> (b: bool)
        ensures
            b == self.wf(),
    {
        if !self.map.is_valid() || self.map.width <= ROOM_MAX_SIZE || self.map.height <= ROOM_MAX_SIZE {
            return false;
        }
        if self.objects.len() < 1 || self.inventory.len() > INVENTORY_CAPACITY {
            return false;
        }
        let n = self.inventory.len();
        let mut i: usize = 0;
        while i < n
            invariant
                n == self.inventory@.len(),
                i <= n,
                forall|k: int| 0 <= k < i ==> (#[trigger] self.inventory@[k]).item is Some,
                forall|a: int, b: int| 0 <= a < i && a < b < n ==> !#[trigger] clash(self.inventory@, a, b),
            decreases n - i,
        {
            if self.inventory[i].item.is_none() {
                assert(!(self.inventory@[i as int].item is Some));
                return false;
            }
            let mut j: usize = i + 1;
            while j < n
                invariant
                    n == self.inventory@.len(),
                    i < n,
                    i + 1 <= j <= n,
                    forall|a: int, b: int| 0 <= a < i && a < b < n ==> !#[trigger] clash(self.inventory@, a, b),
                    forall|b: int| i < b < j ==> !#[trigger] clash(self.inventory@, i as int, b),
                decreases n - j,
            {
                let both = match (&self.inventory[i].equipment, &self.inventory[j].equipment) {
                    (Some(e), Some(f)) => e.equipped && f.equipped && e.slot == f.slot,
                    _ => false,
                };
                if both {
                    proof {
                        let s = self.inventory@[i as int].equipment.unwrap().slot;
                        assert(worn_in(self.inventory@[i as int], s) && worn_in(self.inventory@[j as int], s));
                        assert(!slots_exclusive(self.inventory@));
                    }
                    return false;
                }
                j += 1;
            }
            i += 1;
        }
        proof {
            assert forall|a: int, b: int, s: EquipmentSlot|
                0 <= a < self.inventory@.len() && 0 <= b < self.inventory@.len() && #[trigger] worn_in(self.inventory@[a], s) && #[trigger] worn_in(self.inventory@[b], s)
                implies a == b by {
                if a < b {
                    assert(clash(self.inventory@, a, b));
                } else if b < a {
                    assert(clash(self.inventory@, b, a));
                }
            }
        }
        true
    }
}

} // verus!
