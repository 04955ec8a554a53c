use roguelike::fighter::{DeathCallback, Fighter};
use roguelike::game::{Game, INVENTORY_CAPACITY};
use roguelike::item::{
    drop_item, get_equipped_in_slot, pick_item_up, toggle_equipment, use_health_potion,
    EquipmentSlot, Item, ItemError, ItemUseResult,
};
use roguelike::log::Event;
use roguelike::map::DungeonMap;
use roguelike::object::{Attribute, Color, Object};
use roguelike::spawn::make_item;

fn player() -> Object {
    let mut p = Object::new(20, 20, '@', Color::White, "Player", true);
    p.alive = true;
    p.fighter = Some(Fighter::new(3, 4, 5, 6, 7, 8, 9, 0, DeathCallback::PlayerDeath));
    p
}

fn game_with(objects: Vec<Object>, inventory: Vec<Object>) -> Game {
    Game { map: DungeonMap::new(), objects, inventory, log: Vec::new(), dungeon_level: 1 }
}

fn worn(kind: Item) -> Object {
    let mut item = make_item(kind, 0, 0);
    let mut e = item.equipment.unwrap();
    e.equipped = true;
    item.equipment = Some(e);
    item
}

#[test]
fn effective_stats_add_worn_bonuses_only() {
    let p = player();
    let inventory = vec![worn(Item::Sword), make_item(Item::Shield, 0, 0), worn(Item::PlateArmor)];
    assert_eq!(p.attack_value(&inventory), 4 + 2 + 2);
    assert_eq!(p.strength_value(&inventory), 5 + 2 + 2);
    assert_eq!(p.defense_value(&inventory), 6 + 2);
    assert_eq!(p.dexterity_value(&inventory), 7 + 2);
    assert_eq!(p.vitality_value(&inventory), 3 + 5);
    assert_eq!(p.intelligence_value(&inventory), 8);
    assert_eq!(p.luck_value(&inventory), 9 + 5);
    assert_eq!(p.stat_value(&Vec::new(), Attribute::Luck), 9);
    assert_eq!(p.get_all_equipped(&inventory).len(), 2);
}

#[test]
fn stats_without_fighter_are_bonuses() {
    let o = Object::new(0, 0, '?', Color::White, "Statue", true);
    assert_eq!(o.attack_value(&vec![worn(Item::Sword)]), 2);
    assert_eq!(o.attack_value(&Vec::new()), 0);
}

#[test]
fn equipping_into_an_occupied_slot_unequips_the_first() {
    let mut g = game_with(vec![player()], vec![worn(Item::Sword), make_item(Item::Shield, 0, 0)]);
    assert_eq!(toggle_equipment(1, &mut g), ItemUseResult::UsedAndKept);
    assert!(!g.inventory[0].equipment.unwrap().equipped);
    assert!(g.inventory[1].equipment.unwrap().equipped);
    assert_eq!(get_equipped_in_slot(EquipmentSlot::RightHand, &g.inventory), Some(1));
    assert_eq!(
        g.log,
        vec![
            Event::Unequipped { name: "Sword".to_string(), slot: EquipmentSlot::RightHand },
            Event::Equipped { name: "Shield".to_string(), slot: EquipmentSlot::RightHand },
        ]
    );
    assert_eq!(toggle_equipment(1, &mut g), ItemUseResult::UsedAndKept);
    assert_eq!(get_equipped_in_slot(EquipmentSlot::RightHand, &g.inventory), None);
}

#[test]
fn equip_refuses_non_equipment() {
    let mut potion = make_item(Item::HealthPotion, 0, 0);
    let mut log = Vec::new();
    assert_eq!(potion.equip(&mut log), Err(ItemError::NotEquipment));
    assert_eq!(potion.unequip(&mut log), Err(ItemError::NotEquipped));
    assert_eq!(
        log,
        vec![
            Event::CannotEquip { name: "Health Potion".to_string() },
            Event::CannotUnequip { name: "Health Potion".to_string() },
        ]
    );
    let mut g = game_with(vec![player()], vec![make_item(Item::HealthPotion, 0, 0)]);
    assert_eq!(toggle_equipment(0, &mut g), ItemUseResult::Cancelled);
}

#[test]
fn pickup_with_full_inventory_fails() {
    let inventory: Vec<Object> = (0..INVENTORY_CAPACITY).map(|_| make_item(Item::HealthPotion, 0, 0)).collect();
    let mut g = game_with(vec![player(), make_item(Item::Sword, 20, 20)], inventory);
    assert_eq!(pick_item_up(1, &mut g), Err(ItemError::InventoryFull));
    assert_eq!(g.objects.len(), 2);
    assert_eq!(g.objects[1].name, "Sword");
    assert_eq!(g.objects[1].pos, (20, 20));
    assert_eq!(g.inventory.len(), 26);
    assert_eq!(g.log, vec![Event::InventoryFull { name: "Sword".to_string() }]);
}

#[test]
fn pickup_moves_item_and_equips_free_slot() {
    let mut g = game_with(
        vec![player(), make_item(Item::Sword, 20, 20), make_item(Item::Shield, 20, 20)],
        Vec::new(),
    );
    assert_eq!(pick_item_up(1, &mut g), Ok(()));
    assert_eq!(g.objects.len(), 2);
    assert_eq!(g.objects[1].name, "Shield");
    assert_eq!(g.inventory.len(), 1);
    assert!(g.inventory[0].equipment.unwrap().equipped);
    assert_eq!(pick_item_up(1, &mut g), Ok(()));
    assert!(!g.inventory[1].equipment.unwrap().equipped);
    assert_eq!(g.objects.len(), 1);
}

#[test]
fn dropping_unequips_and_places_at_player() {
    let mut g = game_with(vec![player()], vec![worn(Item::Sword)]);
    drop_item(0, &mut g);
    assert!(g.inventory.is_empty());
    assert_eq!(g.objects.len(), 2);
    assert_eq!(g.objects[1].pos, (20, 20));
    assert!(!g.objects[1].equipment.unwrap().equipped);
    assert_eq!(
        g.log,
        vec![
            Event::Unequipped { name: "Sword".to_string(), slot: EquipmentSlot::RightHand },
            Event::Dropped { name: "Sword".to_string() },
        ]
    );
}

#[test]
fn potion_heals_only_when_wounded() {
    let mut g = game_with(vec![player()], Vec::new());
    assert_eq!(use_health_potion(&mut g), ItemUseResult::Cancelled);
    assert_eq!(g.log, vec![Event::AlreadyFullHealth]);
    let mut f = g.objects[0].fighter.unwrap();
    f.hp = 10;
    g.objects[0].fighter = Some(f);
    assert_eq!(use_health_potion(&mut g), ItemUseResult::Used);
    assert_eq!(g.objects[0].fighter.unwrap().hp, 15);
}
