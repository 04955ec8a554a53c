use vstd::prelude::*;

use crate::log::{Event, MessageLog, Messages};
use crate::object::{Color, Object};

verus! {

/// `v` held to the range of `i32`: hit points, experience and stats saturate there.
pub open spec fn clamp_i32(v: int) -> int {
    if v < i32::MIN {
        i32::MIN as int
    } else if v > i32::MAX {
        i32::MAX as int
    } else {
        v
    }
}

/// Maximum hit points for a vitality value.
pub open spec fn max_hp_for(vit: int) -> int {
    10 + 5 * vit
}

/// The combat component: base attributes, hit points, experience and what happens on death.
#[derive(Debug, Clone, Copy, PartialEq, Eq, Structural)]
pub struct Fighter {
    /// Vitality: determines maximum hit points.
    pub base_vit: i32,
    /// Attack: accuracy of blows.
    pub base_atk: i32,
    /// Strength: weight of blows.
    pub base_str: i32,
    /// Defense: reduces damage taken.
    pub base_def: i32,
    /// Dexterity: dodging.
    pub base_dex: i32,
    /// Intelligence: magic.
    pub base_int: i32,
    /// Luck: drops and chance.
    pub base_lck: i32,
    pub max_hp: i32,
    pub hp: i32,
    pub xp: i32,
    pub on_death: DeathCallback,
}

impl Fighter {
    /// A fighter at full health, with `max_hp = 10 + 5 * vit`.
    pub fn new(
        vit: i32,
        atk: i32,
        strn: i32,
        def: i32,
        dex: i32,
        intl: i32,
        lck: i32,
        xp: i32,
        on_death: DeathCallback,
    ) -> (f: Fighter)
        requires
            i32::MIN <= max_hp_for(vit as int) <= i32::MAX,
        ensures
            f == (Fighter {
                base_vit: vit,
                base_atk: atk,
                base_str: strn,
                base_def: def,
                base_dex: dex,
                base_int: intl,
                base_lck: lck,
                max_hp: max_hp_for(vit as int) as i32,
                hp: max_hp_for(vit as int) as i32,
                xp: xp,
                on_death: on_death,
            }),
    {
        let max_hp = (10 + 5 * (vit as i64)) as i32;
        Fighter {
            base_vit: vit,
            base_atk: atk,
            base_str: strn,
            base_def: def,
            base_dex: dex,
            base_int: intl,
            base_lck: lck,
            max_hp: max_hp,
            hp: max_hp,
            xp: xp,
            on_death: on_death,
        }
    }
}

/// What happens to an actor whose hit points run out.
#[derive(Debug, Clone, Copy, PartialEq, Eq, Structural)]
pub enum DeathCallback {
    PlayerDeath,
    MonsterDeath,
}

/// Experience carried by an actor's fighter, or 0 without one.
pub open spec fn xp_of(o: Object) -> int {
    match o.fighter {
        Some(f) => f.xp as int,
        None => 0,
    }
}

/// `after` is the player `before` shown as defeated: only glyph and colour change.
pub open spec fn defeated_player(before: Object, after: Object) -> bool {
    after == (Object { c: '%', color: Color::DarkRed, ..before })
}

/// `after` is the remains of the monster `before`: renamed, recoloured, no longer
/// solid, without combat or behaviour, everything else (position included) kept.
pub open spec fn remains_of(before: Object, after: Object) -> bool {
    &&& after.name@ == "Remains of "@ + before.name@
    &&& after.c == '%'
    &&& after.color == Color::DarkRed
    &&& !after.solid
    &&& after.fighter is None
    &&& after.ai is None
    &&& after.pos == before.pos
    &&& after.alive == before.alive
    &&& after.always_visible == before.always_visible
    &&& after.level == before.level
    &&& after.item == before.item
    &&& after.equipment == before.equipment
}

/// The effect of a death variant on an actor and on the log.
pub open spec fn death_effect(
    d: DeathCallback,
    before: Object,
    after: Object,
    log_before: Seq<Event>,
    log_after: Seq<Event>,
) -> bool {
    match d {
        DeathCallback::PlayerDeath => {
            &&& defeated_player(before, after)
            &&& log_after == log_before.push(Event::PlayerDied { name: before.name })
        },
        DeathCallback::MonsterDeath => {
            &&& remains_of(before, after)
            &&& log_after == log_before.push(
                Event::MonsterDied { name: before.name, xp: xp_of(before) as i32 },
            )
        },
    }
}

impl DeathCallback {
    /// Applies this death variant to `object`, logging it.
    pub fn callback(self, object: &mut Object, log: &mut Messages)
        ensures
            death_effect(self, *old(object), *final(object), old(log)@, final(log)@),
    {
        match self {
            DeathCallback::PlayerDeath => player_death_callback(object, log),
            DeathCallback::MonsterDeath => monster_death_callback(object, log),
        }
    }
}

fn player_death_callback(player: &mut Object, log: &mut Messages)
    ensures
        defeated_player(*old(player), *final(player)),
        final(log)@ == old(log)@.push(Event::PlayerDied { name: old(player).name }),
{
    log.add(Event::PlayerDied { name: player.name.clone() });
    player.c = '%';
    player.color = Color::DarkRed;
}

fn monster_death_callback(monster: &mut Object, log: &mut Messages)
    ensures
        remains_of(*old(monster), *final(monster)),
        final(log)@ == old(log)@.push(
            Event::MonsterDied { name: old(monster).name, xp: xp_of(*old(monster)) as i32 },
        ),
{
    let xp = match monster.fighter {
        Some(f) => f.xp,
        None => 0,
    };
    log.add(Event::MonsterDied { name: monster.name.clone(), xp: xp });
    monster.c = '%';
    monster.color = Color::DarkRed;
    let remains = String::from_str("Remains of ");
    monster.name = remains.concat(monster.name.as_str());
    monster.solid = false;
    monster.fighter = None;
    monster.ai = None;
}

} // verus!
