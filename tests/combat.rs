use roguelike::ai::Ai;
use roguelike::fighter::{DeathCallback, Fighter};
use roguelike::log::Event;
use roguelike::object::{Color, Object};

fn fighter(atk: i32, def: i32, on_death: DeathCallback) -> Fighter {
    Fighter::new(2, atk, 1, def, 1, 0, 0, 40, on_death)
}

fn actor(name: &str, f: Fighter) -> Object {
    let mut o = Object::new(5, 6, 'x', Color::White, name, true);
    o.alive = true;
    o.fighter = Some(f);
    o.ai = Some(Ai::BasicMonster);
    o
}

#[test]
fn max_hp_follows_vitality() {
    let f = Fighter::new(4, 1, 1, 1, 1, 1, 1, 0, DeathCallback::PlayerDeath);
    assert_eq!(f.max_hp, 30);
    assert_eq!(f.hp, 30);
    assert_eq!(Fighter::new(0, 0, 0, 0, 0, 0, 0, 0, DeathCallback::MonsterDeath).max_hp, 10);
}

#[test]
fn equal_attack_and_defense_has_no_effect() {
    let mut attacker = actor("Orc", fighter(12, 0, DeathCallback::MonsterDeath));
    let mut defender = actor("Player", fighter(0, 12, DeathCallback::PlayerDeath));
    let mut log = Vec::new();
    attacker.attack(&mut defender, &Vec::new(), &Vec::new(), &mut log);
    assert_eq!(defender.fighter.unwrap().hp, 20);
    assert_eq!(
        log,
        vec![Event::NoEffect { attacker: "Orc".to_string(), target: "Player".to_string() }]
    );
}

#[test]
fn attack_above_defense_deals_the_difference() {
    let mut attacker = actor("Troll", fighter(15, 0, DeathCallback::MonsterDeath));
    let mut defender = actor("Player", fighter(0, 12, DeathCallback::PlayerDeath));
    let mut log = Vec::new();
    attacker.attack(&mut defender, &Vec::new(), &Vec::new(), &mut log);
    assert_eq!(defender.fighter.unwrap().hp, 17);
    assert_eq!(
        log,
        vec![Event::Attack { attacker: "Troll".to_string(), target: "Player".to_string(), damage: 3 }]
    );
}

#[test]
fn killing_blow_leaves_remains_and_credits_xp() {
    let mut attacker = actor("Player", fighter(100, 0, DeathCallback::PlayerDeath));
    let mut defender = actor("Orc", fighter(0, 0, DeathCallback::MonsterDeath));
    let mut log = Vec::new();
    attacker.attack(&mut defender, &Vec::new(), &Vec::new(), &mut log);
    assert_eq!(defender.name, "Remains of Orc");
    assert_eq!(defender.pos, (5, 6));
    assert!(!defender.solid && !defender.alive);
    assert!(defender.fighter.is_none() && defender.ai.is_none());
    assert_eq!(defender.c, '%');
    assert_eq!(attacker.fighter.unwrap().xp, 80);
    assert_eq!(log.len(), 2);
    assert_eq!(log[1], Event::MonsterDied { name: "Orc".to_string(), xp: 40 });
}

#[test]
fn take_damage_ignores_non_positive_amounts() {
    let mut o = actor("Orc", fighter(1, 1, DeathCallback::MonsterDeath));
    let mut log = Vec::new();
    assert_eq!(o.take_damage(0, &mut log), None);
    assert_eq!(o.take_damage(-5, &mut log), None);
    assert_eq!(o.fighter.unwrap().hp, 20);
    assert!(log.is_empty());
}

#[test]
fn player_death_keeps_components() {
    let mut p = actor("Player", fighter(1, 1, DeathCallback::PlayerDeath));
    let mut log = Vec::new();
    assert_eq!(p.take_damage(25, &mut log), Some(40));
    assert!(!p.alive);
    assert_eq!(p.c, '%');
    assert_eq!(p.color, Color::DarkRed);
    assert_eq!(p.fighter.unwrap().hp, -5);
    assert!(p.solid);
    assert_eq!(log, vec![Event::PlayerDied { name: "Player".to_string() }]);
}

#[test]
fn heal_stops_at_maximum() {
    let mut o = actor("Player", fighter(1, 1, DeathCallback::PlayerDeath));
    let mut log = Vec::new();
    o.take_damage(7, &mut log);
    o.heal(5);
    assert_eq!(o.fighter.unwrap().hp, 18);
    o.heal(5);
    assert_eq!(o.fighter.unwrap().hp, 20);
}
