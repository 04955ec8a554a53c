//! Properties that relate several operations, or hold across sequences of them.

use vstd::prelude::*;

use crate::fighter::DeathCallback;
use crate::game::{
    gear_of, level_up_outcome, level_up_ready, melee_outcome, threshold, Game, INVENTORY_CAPACITY,
};
use crate::log::Event;
use crate::spawn::{is_monster, monster_fighter, spawned_monster, MonsterKind};
use crate::item::{
    first_worn_in, lemma_found_worn, lemma_none_worn, pickup_outcome, toggle_inventory, worn_in,
    ItemError,
};
use crate::map::{fov_updated, level_layout, max_int, min_int, DungeonMap};
use crate::object::{
    capped_hit, damage_of, effective_stat, with_worn, xp_reward, Attribute, Object,
};
use crate::rect::{center_of, Rect};

verus! {

/// Two positions are next to each other horizontally or vertically.
pub open spec fn adjacent(a: (int, int), b: (int, int)) -> bool {
    (a.0 == b.0 && (a.1 - b.1 == 1 || b.1 - a.1 == 1)) || (a.1 == b.1 && (a.0 - b.0 == 1 || b.0
        - a.0 == 1))
}

/// `w` is a walk over open tiles of `m`: a non-empty path of adjacent open tiles.
pub open spec fn is_walk(m: DungeonMap, w: Seq<(int, int)>) -> bool {
    &&& w.len() >= 1
    &&& forall|k: int| 0 <= k < w.len() ==> m.open(#[trigger] w[k].0, w[k].1)
    &&& forall|k: int| 0 <= k < w.len() - 1 ==> adjacent(#[trigger] w[k], w[k + 1])
}

/// The straight horizontal path from `(x1, y)` to `(x2, y)`.
pub open spec fn h_path(x1: int, x2: int, y: int) -> Seq<(int, int)> {
    if x1 <= x2 {
        Seq::new((x2 - x1 + 1) as nat, |k: int| (x1 + k, y))
    } else {
        Seq::new((x1 - x2 + 1) as nat, |k: int| (x1 - k, y))
    }
}

/// The straight vertical path from `(x, y1)` to `(x, y2)`.
pub open spec fn v_path(y1: int, y2: int, x: int) -> Seq<(int, int)> {
    if y1 <= y2 {
        Seq::new((y2 - y1 + 1) as nat, |k: int| (x, y1 + k))
    } else {
        Seq::new((y1 - y2 + 1) as nat, |k: int| (x, y1 - k))
    }
}

/// An open horizontal segment is a walk from one end to the other.
proof fn lemma_h_path_walk(m: DungeonMap, x1: int, x2: int, y: int)
    requires
        m.h_open(x1, x2, y),
    ensures
        is_walk(m, h_path(x1, x2, y)),
        h_path(x1, x2, y)[0] == (x1, y),
        h_path(x1, x2, y).last() == (x2, y),
{
    let w = h_path(x1, x2, y);
    assert forall|k: int| 0 <= k < w.len() implies m.open(#[trigger] w[k].0, w[k].1) by {
        assert(min_int(x1, x2) <= w[k].0 <= max_int(x1, x2));
    }
}

/// An open vertical segment is a walk from one end to the other.
proof fn lemma_v_path_walk(m: DungeonMap, y1: int, y2: int, x: int)
    requires
        m.v_open(y1, y2, x),
    ensures
        is_walk(m, v_path(y1, y2, x)),
        v_path(y1, y2, x)[0] == (x, y1),
        v_path(y1, y2, x).last() == (x, y2),
{
    let w = v_path(y1, y2, x);
    assert forall|k: int| 0 <= k < w.len() implies m.open(#[trigger] w[k].0, w[k].1) by {
        assert(min_int(y1, y2) <= w[k].1 <= max_int(y1, y2));
    }
}

/// Two walks that meet join into one.
proof fn lemma_join(m: DungeonMap, w1: Seq<(int, int)>, w2: Seq<(int, int)>)
    requires
        is_walk(m, w1),
        is_walk(m, w2),
        w1.last() == w2[0],
    ensures
        is_walk(m, w1 + w2.drop_first()),
        (w1 + w2.drop_first())[0] == w1[0],
        (w1 + w2.drop_first()).last() == w2.last(),
{
    let w = w1 + w2.drop_first();
    let n = w1.len() as int;
    assert forall|k: int| 0 <= k < w.len() implies m.open(#[trigger] w[k].0, w[k].1) by {
        if k < n {
            assert(w[k] == w1[k]);
        } else {
            assert(w[k] == w2[k - n + 1]);
        }
    }
    assert forall|k: int| 0 <= k < w.len() - 1 implies adjacent(#[trigger] w[k], w[k + 1]) by {
        if k < n - 1 {
            assert(w[k] == w1[k] && w[k + 1] == w1[k + 1]);
        } else if k == n - 1 {
            assert(w[k] == w2[0] && w[k + 1] == w2[1]);
        } else {
            assert(w[k] == w2[k - n + 1] && w[k + 1] == w2[k - n + 2]);
        }
    }
    if w2.len() == 1 {
        assert(w.last() == w1.last());
    } else {
        assert(w.last() == w2.last());
    }
}

/// An open L-shaped tunnel from `a` to `b` can be walked from `b` back to `a`.
proof fn lemma_tunnel_walk(m: DungeonMap, a: (int, int), b: (int, int)) -> (w: Seq<(int, int)>)
    requires
        m.tunnel_open(a, b),
    ensures
        is_walk(m, w),
        w[0] == b,
        w.last() == a,
{
    if m.h_open(a.0, b.0, a.1) && m.v_open(a.1, b.1, b.0) {
        lemma_v_path_walk(m, b.1, a.1, b.0);
        lemma_h_path_walk(m, b.0, a.0, a.1);
        lemma_join(m, v_path(b.1, a.1, b.0), h_path(b.0, a.0, a.1));
        v_path(b.1, a.1, b.0) + h_path(b.0, a.0, a.1).drop_first()
    } else {
        lemma_h_path_walk(m, b.0, a.0, b.1);
        lemma_v_path_walk(m, b.1, a.1, a.0);
        lemma_join(m, h_path(b.0, a.0, b.1), v_path(b.1, a.1, a.0));
        h_path(b.0, a.0, b.1) + v_path(b.1, a.1, a.0).drop_first()
    }
}

/// In a generated level, the player's starting room can be reached from every room:
/// from the center of room `i` there is a walk over open tiles to the center of the
/// first room.
pub proof fn lemma_start_room_reachable(m: DungeonMap, rooms: Seq<Rect>, i: int) -> (w: Seq<(int, int)>)
    requires
        level_layout(m, rooms),
        0 <= i < rooms.len(),
    ensures
        is_walk(m, w),
        w[0] == center_of(rooms[i]),
        w.last() == center_of(rooms[0]),
    decreases i,
{
    if i == 0 {
        let c = center_of(rooms[0]);
        let r = rooms[0];
        assert(crate::rect::interior_contains(r, c.0, c.1));
        seq![c]
    } else {
        let back = lemma_tunnel_walk(m, center_of(rooms[i - 1]), center_of(rooms[i]));
        let rest = lemma_start_room_reachable(m, rooms, i - 1);
        lemma_join(m, back, rest);
        back + rest.drop_first()
    }
}

/// Explored flags never go away: along any sequence of visibility updates, a tile
/// explored in one map is explored in every later one.
pub proof fn lemma_explored_monotonic(
    maps: Seq<DungeonMap>,
    views: Seq<Seq<Seq<bool>>>,
    i: int,
    j: int,
    x: int,
    y: int,
)
    requires
        maps.len() == views.len() + 1,
        forall|k: int| 0 <= k < views.len() ==> #[trigger] fov_updated(maps[k], maps[k + 1], views[k]),
        0 <= i <= j < maps.len(),
        maps[i].in_bounds(x, y),
        maps[i].tile(x, y).explored,
    ensures
        maps[j].in_bounds(x, y),
        maps[j].tile(x, y).explored,
    decreases j - i,
{
    if j > i {
        lemma_explored_monotonic(maps, views, i, j - 1, x, y);
        let k = j - 1;
        assert(fov_updated(maps[k], maps[k + 1], views[k]));
    }
}

/// Putting on an item whose slot is taken takes the other item off: after toggling
/// an item that is not worn, it is worn and the item that was worn in its slot is not.
pub proof fn lemma_equip_replaces(g: Game, i: int, j: int)
    requires
        g.wf(),
        0 <= i < g.inventory@.len(),
        0 <= j < g.inventory@.len(),
        i != j,
        g.inventory@[i].equipment matches Some(e) && !e.equipped && worn_in(g.inventory@[j], e.slot),
    ensures
        worn_in(toggle_inventory(g, i)[i], g.inventory@[i].equipment.unwrap().slot),
        toggle_inventory(g, i)[j] == with_worn(g.inventory@[j], false),
{
    let inv = g.inventory@;
    let e = inv[i].equipment.unwrap();
    if first_worn_in(inv, e.slot) is None {
        lemma_none_worn(inv, e.slot, j);
    }
    lemma_found_worn(inv, e.slot);
    let k = first_worn_in(inv, e.slot).unwrap();
    assert(worn_in(inv[k], e.slot));
    assert(k == j);
}

/// Whether the blow of `a` on `t` kills `t`.
pub open spec fn kills(g: Game, a: int, t: int) -> bool {
    let d = damage_of(
        effective_stat(g.objects@[a], gear_of(g, a), Attribute::Attack),
        effective_stat(g.objects@[t], gear_of(g, t), Attribute::Defense),
    );
    d > 0 && xp_reward(g.objects@[t], capped_hit(d)) is Some
}

/// A monster killed in melee stays in the actor list, at the same position, as
/// remains: renamed, no longer solid, without combat or behaviour.
pub proof fn lemma_death_leaves_remains(before: Game, after: Game, a: int, t: int)
    requires
        melee_outcome(before, after, a, t),
        0 <= a < before.objects@.len(),
        0 <= t < before.objects@.len(),
        a != t,
        before.objects@[t].fighter matches Some(f) && f.on_death == DeathCallback::MonsterDeath,
        kills(before, a, t),
    ensures
        after.objects@.len() == before.objects@.len(),
        after.objects@[t].pos == before.objects@[t].pos,
        !after.objects@[t].solid,
        after.objects@[t].fighter is None,
        after.objects@[t].ai is None,
        after.objects@[t].name@ == "Remains of "@ + before.objects@[t].name@,
{
}

/// Levelling up happens at most once per check. When the player's experience reaches
/// the threshold `200 + 150 * level`, the level goes up by exactly one, hit points are
/// full, the threshold is taken off the experience and the remainder carried forward,
/// even when it reaches the next threshold too; no other actor changes. Otherwise the
/// check changes nothing. (The remainder must fit in `i32`, which can fail only at a
/// negative level.)
pub proof fn lemma_level_up_once(before: Game, after: Game, stat: Attribute)
    requires
        level_up_outcome(before, after, stat),
        before.objects@.len() >= 1,
        level_up_ready(before.objects@[0]) ==> before.objects@[0].fighter.unwrap().xp - threshold(
            before.objects@[0].level as int,
        ) <= i32::MAX,
    ensures
        ({
            let p = before.objects@[0];
            let q = after.objects@[0];
            if level_up_ready(p) {
                &&& q.level == p.level + 1
                &&& q.fighter.unwrap().xp == p.fighter.unwrap().xp - threshold(p.level as int)
                &&& q.fighter.unwrap().hp == q.fighter.unwrap().max_hp
                &&& after.objects@.len() == before.objects@.len()
                &&& forall|k: int| 1 <= k < before.objects@.len() ==> after.objects@[k] == before.objects@[k]
                &&& after.log@ == before.log@.push(Event::LevelUp { level: q.level })
            } else {
                after == before
            }
        }),
        threshold(before.objects@[0].level as int) == 200 + before.objects@[0].level * 150,
{
}

/// Picking up with a full inventory fails with `InventoryFull`: the actors (the item
/// on the ground among them), the inventory, the map and the depth stay as they were,
/// and the log gains one entry naming the item.
pub proof fn lemma_full_inventory_refuses(before: Game, after: Game, id: int, r: Result<(), ItemError>)
    requires
        pickup_outcome(before, after, id, r),
        before.inventory@.len() >= INVENTORY_CAPACITY,
    ensures
        r == Err::<(), ItemError>(ItemError::InventoryFull),
        after.objects == before.objects,
        after.inventory == before.inventory,
        after.map == before.map,
        after.dungeon_level == before.dungeon_level,
        after.log@ == before.log@.push(Event::InventoryFull { name: before.objects@[id].name }),
{
}

/// Down to depth 2, trolls have weight zero, so every monster that can spawn is an
/// orc with the orc's stats.
pub proof fn lemma_shallow_monsters_are_orcs(o: Object, depth: int)
    requires
        depth < 3,
        spawned_monster(o, depth),
    ensures
        is_monster(o, MonsterKind::Orc, o.pos.0 as int, o.pos.1 as int),
        o.name@ == "Orc"@,
        o.fighter == Some(monster_fighter(MonsterKind::Orc)),
{
}

} // verus!
