use roguelike::ai::{ai_basic_monster, Ai};
use roguelike::fighter::{DeathCallback, Fighter};
use roguelike::game::{
    level_up_threshold, menu_choice, player_level_up, Command, Game, PlayerAction, PLAYER_ID,
};
use roguelike::log::Event;
use roguelike::map::{DungeonMap, Tile, MAP_HEIGHT, MAP_WIDTH};
use roguelike::object::{distance_squared, move_by, move_towards, Attribute, Color, Object};
use roguelike::spawn::{make_item, make_monster, MonsterKind};
use roguelike::item::Item;

fn player_at(x: i32, y: i32) -> Object {
    let mut p = Object::new(x, y, '@', Color::White, "Player", true);
    p.alive = true;
    p.fighter = Some(Fighter::new(1, 1, 1, 1, 1, 1, 1, 0, DeathCallback::PlayerDeath));
    p
}

fn open_game(objects: Vec<Object>) -> Game {
    Game { map: DungeonMap::new(), objects, inventory: Vec::new(), log: Vec::new(), dungeon_level: 1 }
}

fn all_visible(map: &DungeonMap) -> Vec<Vec<bool>> {
    vec![vec![true; map.height as usize]; map.width as usize]
}

#[test]
fn level_threshold_formula() {
    assert_eq!(level_up_threshold(1), 350);
    assert_eq!(level_up_threshold(2), 500);
    assert_eq!(level_up_threshold(0), 200);
}

#[test]
fn level_up_once_and_keep_remainder() {
    let mut g = open_game(vec![player_at(5, 5)]);
    let mut f = g.objects[0].fighter.unwrap();
    f.xp = 1000;
    f.hp = 3;
    g.objects[0].fighter = Some(f);
    assert!(g.level_up_due());
    player_level_up(&mut g, Attribute::Vitality);
    let p = &g.objects[0];
    let f = p.fighter.unwrap();
    assert_eq!(p.level, 2);
    assert_eq!(f.xp, 650);
    assert_eq!(f.base_vit, 2);
    assert_eq!(f.max_hp, 20);
    assert_eq!(f.hp, 20);
    assert_eq!(g.log, vec![Event::LevelUp { level: 2 }]);
}

#[test]
fn no_level_up_below_threshold() {
    let mut g = open_game(vec![player_at(5, 5)]);
    let mut f = g.objects[0].fighter.unwrap();
    f.xp = 349;
    g.objects[0].fighter = Some(f);
    assert!(!g.level_up_due());
    player_level_up(&mut g, Attribute::Luck);
    assert_eq!(g.objects[0].level, 1);
    assert_eq!(g.objects[0].fighter.unwrap().xp, 349);
    assert!(g.log.is_empty());
}

#[test]
fn raising_a_stat_other_than_vitality() {
    let mut g = open_game(vec![player_at(5, 5)]);
    let mut f = g.objects[0].fighter.unwrap();
    f.xp = 350;
    g.objects[0].fighter = Some(f);
    player_level_up(&mut g, Attribute::Dexterity);
    let f = g.objects[0].fighter.unwrap();
    assert_eq!(f.base_dex, 2);
    assert_eq!(f.max_hp, 15);
    assert_eq!(f.xp, 0);
}

#[test]
fn moves_are_blocked_by_walls_edges_and_solid_actors() {
    let mut g = open_game(vec![player_at(0, 0), make_monster(MonsterKind::Orc, 1, 0)]);
    move_by(0, -1, 0, &mut g);
    assert_eq!(g.objects[0].pos, (0, 0));
    move_by(0, 1, 0, &mut g);
    assert_eq!(g.objects[0].pos, (0, 0));
    move_by(0, 0, 1, &mut g);
    assert_eq!(g.objects[0].pos, (0, 1));
    let t = g.map.tiles[0][2];
    g.map.tiles[0][2] = Tile { blocked: true, ..t };
    move_by(0, 0, 1, &mut g);
    assert_eq!(g.objects[0].pos, (0, 1));
}

#[test]
fn steps_round_each_axis_separately() {
    let mut g = open_game(vec![player_at(0, 0), make_monster(MonsterKind::Orc, 10, 10)]);
    move_towards(1, 20, 10, &mut g);
    assert_eq!(g.objects[1].pos, (11, 10));
    move_towards(1, 12, 14, &mut g);
    assert_eq!(g.objects[1].pos, (11, 11));
    move_towards(1, 14, 12, &mut g);
    assert_eq!(g.objects[1].pos, (12, 11));
    move_towards(1, 12, 12, &mut g);
    assert_eq!(g.objects[1].pos, (12, 12));
    move_towards(1, 12, 12, &mut g);
    assert_eq!(g.objects[1].pos, (12, 12));
    assert_eq!(distance_squared((0, 0), (3, 4)), 25);
}

#[test]
fn monster_out_of_view_does_nothing() {
    let mut g = open_game(vec![player_at(5, 5), make_monster(MonsterKind::Orc, 10, 5)]);
    assert_eq!(ai_basic_monster(1, &mut g), Ai::BasicMonster);
    assert_eq!(g.objects[1].pos, (10, 5));
}

#[test]
fn monster_in_view_approaches_then_attacks() {
    let mut g = open_game(vec![player_at(5, 5), make_monster(MonsterKind::Troll, 10, 5)]);
    let vis = all_visible(&g.map);
    g.map.recompute_fov(vis);
    ai_basic_monster(1, &mut g);
    assert_eq!(g.objects[1].pos, (9, 5));
    g.objects[1].pos = (6, 5);
    ai_basic_monster(1, &mut g);
    assert_eq!(g.objects[1].pos, (6, 5));
    assert_eq!(g.objects[0].fighter.unwrap().hp, 11);
    assert_eq!(
        g.log,
        vec![Event::Attack { attacker: "Troll".to_string(), target: "Player".to_string(), damage: 4 }]
    );
}

#[test]
fn visibility_marks_explored_for_good() {
    let mut map = DungeonMap::new();
    assert!(!map.is_explored((3, 4)));
    let mut vis = vec![vec![false; MAP_HEIGHT as usize]; MAP_WIDTH as usize];
    vis[3][4] = true;
    map.recompute_fov(vis);
    assert!(map.is_in_fov((3, 4)));
    assert!(map.is_explored((3, 4)));
    assert!(!map.is_explored((4, 4)));
    map.recompute_fov(vec![vec![false; MAP_HEIGHT as usize]; MAP_WIDTH as usize]);
    assert!(!map.is_in_fov((3, 4)));
    assert!(map.is_explored((3, 4)));
    assert!(!map.is_in_fov((-1, 0)));
    assert!(!map.is_explored((MAP_WIDTH, 0)));
}

#[test]
fn commands_of_a_dead_player_do_nothing() {
    let mut g = open_game(vec![player_at(5, 5)]);
    g.objects[0].alive = false;
    assert_eq!(g.take_turn(Command::Move { dx: 1, dy: 0 }), PlayerAction::NoAction);
    assert_eq!(g.objects[0].pos, (5, 5));
    assert_eq!(g.take_turn(Command::Wait), PlayerAction::NoAction);
    assert_eq!(g.take_turn(Command::Exit), PlayerAction::Exit);
}

#[test]
fn a_move_gives_monsters_their_turn() {
    let mut g = open_game(vec![player_at(5, 5), make_monster(MonsterKind::Orc, 10, 5)]);
    let vis = all_visible(&g.map);
    g.map.recompute_fov(vis);
    assert_eq!(g.take_turn(Command::Move { dx: 0, dy: 1 }), PlayerAction::Action);
    assert_eq!(g.objects[0].pos, (5, 6));
    assert_eq!(g.objects[1].pos, (9, 5));
    assert_eq!(g.take_turn(Command::Idle), PlayerAction::NoAction);
    assert_eq!(g.objects[1].pos, (9, 5));
}

#[test]
fn interact_picks_up_item_underfoot() {
    let mut g = open_game(vec![player_at(5, 5), make_item(Item::Sword, 5, 5)]);
    assert_eq!(g.take_turn(Command::Interact), PlayerAction::NoAction);
    assert_eq!(g.objects.len(), 1);
    assert_eq!(g.inventory.len(), 1);
    assert!(g.inventory[0].equipment.unwrap().equipped);
    assert_eq!(g.take_turn(Command::DropItem { index: 0 }), PlayerAction::NoAction);
    assert_eq!(g.objects.len(), 2);
    assert!(g.inventory.is_empty());
}

#[test]
fn interact_on_stairs_descends() {
    let mut stairs = Object::new(5, 5, 'H', Color::White, "Stairs", false);
    stairs.always_visible = true;
    let mut g = open_game(vec![player_at(5, 5), stairs]);
    let mut f = g.objects[0].fighter.unwrap();
    f.hp = 1;
    g.objects[0].fighter = Some(f);
    g.take_turn(Command::Interact);
    assert_eq!(g.dungeon_level, 2);
    assert_eq!(g.objects[0].fighter.unwrap().hp, 8);
    assert_eq!(g.objects.last().unwrap().name, "Stairs");
    assert_eq!(g.log, vec![Event::Rested, Event::Descended]);
}

#[test]
fn drawable_ids_put_solid_actors_last() {
    let mut g = open_game(vec![
        player_at(5, 5),
        make_item(Item::HealthPotion, 6, 5),
        make_monster(MonsterKind::Orc, 7, 5),
        make_item(Item::Sword, 30, 30),
    ]);
    assert!(g.drawable_ids().is_empty());
    let mut vis = vec![vec![false; MAP_HEIGHT as usize]; MAP_WIDTH as usize];
    for x in 0..10 {
        vis[x][5] = true;
    }
    g.map.recompute_fov(vis);
    assert_eq!(g.drawable_ids(), vec![1, 0, 2]);
    assert_eq!(g.ids_at(7, 5), vec![2]);
    assert!(g.ids_at(30, 30).is_empty());
}

#[test]
fn menu_keys_select_options() {
    assert_eq!(menu_choice('a', 3), Some(0));
    assert_eq!(menu_choice('C', 3), Some(2));
    assert_eq!(menu_choice('d', 3), None);
    assert_eq!(menu_choice('1', 3), None);
    assert_eq!(menu_choice('z', 26), Some(25));
    assert_eq!(menu_choice('a', 0), None);
}

#[test]
fn new_game_places_player_and_stairs() {
    let g = Game::new();
    assert_eq!(g.dungeon_level, 1);
    assert_eq!(g.objects[PLAYER_ID].name, "Player");
    assert_eq!(g.objects[PLAYER_ID].fighter.unwrap().max_hp, 15);
    assert_eq!(g.objects.last().unwrap().name, "Stairs");
    assert!(g.objects.len() >= 2);
}

#[test]
fn player_kill_leaves_remains_in_the_actor_list() {
    let mut hero = player_at(5, 5);
    let mut f = hero.fighter.unwrap();
    f.base_atk = 100;
    hero.fighter = Some(f);
    let mut g = open_game(vec![hero, make_monster(MonsterKind::Orc, 6, 5), make_item(Item::Sword, 9, 9)]);
    assert_eq!(g.take_turn(Command::Attack { target: 1 }), PlayerAction::Action);
    assert_eq!(g.objects.len(), 3);
    let remains = &g.objects[1];
    assert_eq!(remains.name, "Remains of Orc");
    assert_eq!(remains.pos, (6, 5));
    assert!(!remains.solid && remains.fighter.is_none() && remains.ai.is_none());
    assert_eq!(g.objects[0].fighter.unwrap().xp, 50);
    assert_eq!(g.take_turn(Command::Attack { target: 0 }), PlayerAction::NoAction);
    assert_eq!(g.take_turn(Command::Attack { target: 7 }), PlayerAction::NoAction);
}
