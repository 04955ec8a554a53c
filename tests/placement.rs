use roguelike::fighter::{DeathCallback, Fighter};
use roguelike::game::{player_level_up, Game};
use roguelike::item::Item;
use roguelike::map::{DungeonMap, Tile, MAX_ROOM_COUNT};
use roguelike::object::{Attribute, Color, Object};
use roguelike::rect::Rect;
use roguelike::spawn::{item_kind_for, make_item, make_monster, monster_kind_for, MonsterKind};

fn walled_map() -> DungeonMap {
    let mut map = DungeonMap::new();
    for col in map.tiles.iter_mut() {
        for t in col.iter_mut() {
            *t = Tile::wall();
        }
    }
    map
}

fn hero() -> Object {
    let mut p = Object::new(0, 0, '@', Color::White, "Player", true);
    p.alive = true;
    p.fighter = Some(Fighter::new(1, 1, 1, 1, 1, 1, 1, 0, DeathCallback::PlayerDeath));
    p
}

#[test]
fn drawn_indices_map_to_kinds() {
    assert_eq!(monster_kind_for(0), MonsterKind::Orc);
    assert_eq!(monster_kind_for(1), MonsterKind::Troll);
    assert_eq!(item_kind_for(0), Item::HealthPotion);
    assert_eq!(item_kind_for(1), Item::Sword);
    assert_eq!(item_kind_for(2), Item::Shield);
    assert_eq!(item_kind_for(3), Item::PlateArmor);
}

#[test]
fn spawns_on_blocked_tiles_are_skipped() {
    let mut map = walled_map();
    map.tiles[5][5] = Tile::empty();
    map.tiles[6][5] = Tile::empty();
    let mut objects = vec![hero(), make_monster(MonsterKind::Orc, 6, 5)];
    map.place_spawn(&mut objects, make_monster(MonsterKind::Troll, 4, 4));
    assert_eq!(objects.len(), 2);
    map.place_spawn(&mut objects, make_monster(MonsterKind::Troll, 6, 5));
    assert_eq!(objects.len(), 2);
    map.place_spawn(&mut objects, make_item(Item::Sword, 5, 5));
    assert_eq!(objects.len(), 3);
    map.place_spawn(&mut objects, make_monster(MonsterKind::Troll, 5, 5));
    assert_eq!(objects.len(), 4);
    assert_eq!(objects[3].name, "Troll");
    map.place_spawn(&mut objects, make_monster(MonsterKind::Orc, -1, 5));
    assert_eq!(objects.len(), 4);
}

#[test]
fn overlapping_candidate_is_rejected_without_a_trace() {
    let mut map = walled_map();
    let mut rooms: Vec<Rect> = Vec::new();
    let mut objects = vec![hero()];
    assert!(map.try_place_room(&mut rooms, &mut objects, Rect::new(10, 10, 6, 6), true, 1));
    assert_eq!(objects[0].pos, (13, 13));
    assert!(!map.tiles[13][13].blocked);
    assert!(map.tiles[10][13].blocked);
    let tiles = map.tiles.clone();
    let count = objects.len();
    assert!(!map.try_place_room(&mut rooms, &mut objects, Rect::new(15, 10, 6, 6), false, 1));
    assert_eq!(rooms, vec![Rect::new(10, 10, 6, 6)]);
    assert_eq!(map.tiles, tiles);
    assert_eq!(objects.len(), count);
    assert_eq!(objects[0].pos, (13, 13));
}

#[test]
fn accepted_candidate_is_joined_by_the_chosen_tunnel() {
    let mut map = walled_map();
    let mut rooms: Vec<Rect> = Vec::new();
    let mut objects = vec![hero()];
    map.try_place_room(&mut rooms, &mut objects, Rect::new(2, 2, 6, 6), true, 1);
    assert!(map.try_place_room(&mut rooms, &mut objects, Rect::new(30, 20, 6, 6), true, 1));
    assert_eq!(rooms.len(), 2);
    // horizontal first: along row 5 from x = 5 to 33, then column 33 from y = 5 to 23
    assert!(!map.tiles[20][5].blocked);
    assert!(!map.tiles[33][12].blocked);
    assert!(map.tiles[5][12].blocked);
    assert!(map.tiles[20][23].blocked);
}

#[test]
fn populated_shallow_room_holds_only_orcs_and_potions() {
    let mut map = walled_map();
    let room = Rect::new(10, 10, 10, 10);
    for x in 11..20 {
        for y in 11..20 {
            map.tiles[x][y] = Tile::empty();
        }
    }
    for _ in 0..200 {
        let mut objects = vec![hero()];
        map.populate_room(&room, &mut objects, 1);
        let new = &objects[1..];
        let monsters = new.iter().filter(|o| o.fighter.is_some()).count();
        let items = new.iter().filter(|o| o.item.is_some()).count();
        assert!(monsters <= 2 && items <= 1);
        for (k, o) in new.iter().enumerate() {
            assert!(o.name == "Orc" || o.name == "Health Potion");
            if o.fighter.is_some() {
                assert_eq!(o.fighter, Some(Fighter::new(2, 3, 2, 3, 2, 0, 0, 50, DeathCallback::MonsterDeath)));
            }
            let (x, y) = o.pos;
            assert!(room.x1 < x && x < room.x2 && room.y1 < y && y < room.y2);
            let earlier = &objects[..k + 1];
            assert!(!earlier.iter().any(|e| e.solid && e.pos == o.pos));
        }
    }
}

#[test]
fn generated_levels_keep_walls_outside_rooms_and_tunnels() {
    for depth in 1..6 {
        let mut map = DungeonMap::new();
        let mut objects = vec![hero()];
        let rooms = map.generate(&mut objects, depth);
        assert!(rooms.len() as i32 <= MAX_ROOM_COUNT);
        for x in 0..map.width {
            for y in 0..map.height {
                let t = map.tiles[x as usize][y as usize];
                assert_eq!(t.blocks_sight, t.blocked);
                assert!(!t.explored);
                if x == 0 || y == 0 || x == map.width - 1 || y == map.height - 1 {
                    assert!(t.blocked);
                }
            }
        }
    }
}

#[test]
fn saved_state_validity() {
    let g = Game::new();
    assert!(g.is_valid());
    let mut bad = Game::new();
    bad.objects.clear();
    assert!(!bad.is_valid());
    let mut two_worn = Game::new();
    for kind in [Item::Sword, Item::Shield] {
        let mut item = make_item(kind, 0, 0);
        let mut e = item.equipment.unwrap();
        e.equipped = true;
        item.equipment = Some(e);
        two_worn.inventory.push(item);
    }
    assert!(!two_worn.is_valid());
    two_worn.inventory.pop();
    assert!(two_worn.is_valid());
    let mut small = Game::new();
    small.map = DungeonMap::new();
    small.map.width = 5;
    assert!(!small.is_valid());
}

#[test]
fn level_up_takes_one_step_even_past_two_thresholds() {
    let mut g = Game::new();
    g.objects[0].fighter = Some(Fighter::new(1, 1, 1, 1, 1, 1, 0, 900, DeathCallback::PlayerDeath));
    player_level_up(&mut g, Attribute::Attack);
    let f = g.objects[0].fighter.unwrap();
    assert_eq!(g.objects[0].level, 2);
    assert_eq!(f.xp, 550);
    assert_eq!(f.base_atk, 2);
    assert_eq!((f.max_hp, f.hp), (15, 15));
}
