use roguelike::item::Item;
use roguelike::spawn::{
    choose_item, choose_monster, from_dungeon_level, item_weights, make_item, make_monster,
    max_items, max_monsters, monster_weights, MonsterKind, Transition,
};

#[test]
fn step_table_takes_last_matching_entry() {
    let table = [
        Transition { level: 1, value: 2 },
        Transition { level: 4, value: 4 },
        Transition { level: 8, value: 5 },
    ];
    assert_eq!(from_dungeon_level(&table, 0), 0);
    assert_eq!(from_dungeon_level(&table, 1), 2);
    assert_eq!(from_dungeon_level(&table, 3), 2);
    assert_eq!(from_dungeon_level(&table, 4), 4);
    assert_eq!(from_dungeon_level(&table, 7), 4);
    assert_eq!(from_dungeon_level(&table, 8), 5);
    assert_eq!(from_dungeon_level(&table, 100), 5);
    assert_eq!(from_dungeon_level(&[], 5), 0);
}

#[test]
fn maximum_counts_per_depth() {
    let monsters: Vec<i32> = (0..10).map(max_monsters).collect();
    assert_eq!(monsters, vec![0, 2, 2, 2, 4, 4, 4, 4, 5, 5]);
    let items: Vec<i32> = (0..7).map(max_items).collect();
    assert_eq!(items, vec![0, 1, 1, 1, 1, 2, 2]);
}

#[test]
fn kind_weights_per_depth() {
    assert_eq!(monster_weights(1), vec![80, 0]);
    assert_eq!(monster_weights(2), vec![80, 0]);
    assert_eq!(monster_weights(3), vec![80, 15]);
    assert_eq!(monster_weights(5), vec![80, 30]);
    assert_eq!(monster_weights(8), vec![80, 50]);
    assert_eq!(item_weights(1), vec![35, 0, 0, 0]);
    assert_eq!(item_weights(3), vec![35, 0, 0, 15]);
    assert_eq!(item_weights(4), vec![35, 25, 0, 15]);
    assert_eq!(item_weights(5), vec![35, 25, 20, 15]);
}

#[test]
fn depth_one_always_spawns_orcs() {
    for _ in 0..2000 {
        assert_eq!(choose_monster(1), MonsterKind::Orc);
    }
}

#[test]
fn depth_one_always_spawns_potions() {
    for _ in 0..2000 {
        assert_eq!(choose_item(1), Item::HealthPotion);
    }
}

#[test]
fn deep_levels_draw_both_monster_kinds() {
    let mut orcs = 0;
    let mut trolls = 0;
    for _ in 0..2000 {
        match choose_monster(8) {
            MonsterKind::Orc => orcs += 1,
            MonsterKind::Troll => trolls += 1,
        }
    }
    assert!(orcs > 0 && trolls > 0);
}

#[test]
fn monster_templates() {
    let orc = make_monster(MonsterKind::Orc, 3, 4);
    assert_eq!(orc.pos, (3, 4));
    assert_eq!(orc.name, "Orc");
    assert!(orc.alive && orc.solid);
    let f = orc.fighter.unwrap();
    assert_eq!((f.max_hp, f.hp, f.xp), (20, 20, 50));
    let troll = make_monster(MonsterKind::Troll, 0, 0);
    let t = troll.fighter.unwrap();
    assert_eq!(troll.name, "Troll");
    assert_eq!((t.max_hp, t.hp, t.xp), (35, 35, 100));
}

#[test]
fn item_templates() {
    let potion = make_item(Item::HealthPotion, 1, 2);
    assert_eq!(potion.name, "Health Potion");
    assert!(potion.always_visible && !potion.solid);
    assert!(potion.equipment.is_none());
    let sword = make_item(Item::Sword, 1, 2);
    let e = sword.equipment.unwrap();
    assert_eq!((e.atk_bonus, e.str_bonus), (2, 2));
    assert!(!e.equipped);
    assert_eq!(sword.item, Some(Item::Sword));
}
