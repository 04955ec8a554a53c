use vstd::prelude::*;

use crate::game::{melee_outcome, Game, PLAYER_ID};
use crate::object::{axis_step, dist2, distance_squared, move_towards, moved_by};

verus! {

/// Monster behaviours.
#[derive(Debug, Clone, Copy, PartialEq, Eq, Structural)]
pub enum Ai {
    BasicMonster,
}

/// The player counts as alive for monsters while it has hit points left.
pub open spec fn player_has_hp(g: Game) -> bool {
    match g.objects@[PLAYER_ID as int].fighter {
        Some(f) => f.hp > 0,
        None => false,
    }
}

/// One turn of a basic monster `id`. Out of the player's field of view it does
/// nothing. In view, at distance 2 or more it steps toward the player; closer, it
/// strikes the player if the player has hit points left.
pub open spec fn basic_monster_turn(before: Game, after: Game, id: int) -> bool {
    let m = before.objects@[id].pos;
    let p = before.objects@[PLAYER_ID as int].pos;
    if !(before.map.in_bounds(m.0 as int, m.1 as int) && before.map.visible(m.0 as int, m.1 as int)) {
        after == before
    } else if dist2(m, p) >= 4 {
        moved_by(
            before,
            after,
            id,
            axis_step(p.0 - m.0, p.1 - m.1),
            axis_step(p.1 - m.1, p.0 - m.0),
        )
    } else if player_has_hp(before) && id != PLAYER_ID {
        melee_outcome(before, after, id, PLAYER_ID as int)
    } else {
        after == before
    }
}

/// Runs one turn of the basic monster `id` and returns its next behaviour.
pub fn ai_basic_monster(id: usize, game: &mut Game) -> (next: Ai)
    requires
        old(game).wf(),
        id < old(game).objects@.len(),
    ensures
        final(game).wf(),
        next == Ai::BasicMonster,
        basic_monster_turn(*old(game), *final(game), id as int),
        final(game).objects@.len() == old(game).objects@.len(),
        final(game).objects@[id as int].ai == old(game).objects@[id as int].ai,
{
    let (mx, my) = game.objects[id].pos;
    if game.map.is_in_fov((mx, my)) {
        let player_pos = game.objects[PLAYER_ID].pos;
        if distance_squared((mx, my), player_pos) >= 4 {
            move_towards(id, player_pos.0, player_pos.1, game);
        } else {
            let player_alive = match game.objects[PLAYER_ID].fighter {
                Some(f) => f.hp > 0,
                None => false,
            };
            if player_alive && id != PLAYER_ID {
                game.melee(id, PLAYER_ID);
            }
        }
    }
    Ai::BasicMonster
}

} // verus!
