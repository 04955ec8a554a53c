use std::collections::VecDeque;

use roguelike::map::{DungeonMap, ROOM_MAX_SIZE, ROOM_MIN_SIZE};
use roguelike::object::{Color, Object};
use roguelike::rect::Rect;

fn fresh_player() -> Object {
    Object::new(0, 0, '@', Color::White, "Player", true)
}

fn reachable(map: &DungeonMap, from: (i32, i32)) -> Vec<Vec<bool>> {
    let w = map.width as usize;
    let h = map.height as usize;
    let mut seen = vec![vec![false; h]; w];
    let mut queue = VecDeque::new();
    seen[from.0 as usize][from.1 as usize] = true;
    queue.push_back(from);
    while let Some((x, y)) = queue.pop_front() {
        for (dx, dy) in [(1, 0), (-1, 0), (0, 1), (0, -1)] {
            let (nx, ny) = (x + dx, y + dy);
            if nx < 0 || ny < 0 || nx >= map.width || ny >= map.height {
                continue;
            }
            if map.tiles[nx as usize][ny as usize].blocked || seen[nx as usize][ny as usize] {
                continue;
            }
            seen[nx as usize][ny as usize] = true;
            queue.push_back((nx, ny));
        }
    }
    seen
}

#[test]
fn generated_rooms_never_overlap_and_fit() {
    for depth in 1..12 {
        let mut map = DungeonMap::new();
        let mut objects = vec![fresh_player()];
        let rooms: Vec<Rect> = map.generate(&mut objects, depth);
        assert!(!rooms.is_empty());
        for (i, a) in rooms.iter().enumerate() {
            assert!(a.x1 >= 0 && a.y1 >= 0 && a.x2 < map.width && a.y2 < map.height);
            assert!(a.x2 - a.x1 >= ROOM_MIN_SIZE && a.x2 - a.x1 <= ROOM_MAX_SIZE);
            for b in rooms.iter().skip(i + 1) {
                assert!(!a.intersects_with(b));
            }
        }
    }
}

#[test]
fn every_room_reaches_the_start_room() {
    for depth in 1..8 {
        let mut map = DungeonMap::new();
        let mut objects = vec![fresh_player()];
        let rooms = map.generate(&mut objects, depth);
        let start = rooms[0].get_center();
        assert_eq!(objects[0].pos, start);
        let seen = reachable(&map, start);
        for r in &rooms {
            let (cx, cy) = r.get_center();
            assert!(seen[cx as usize][cy as usize]);
        }
        let stairs = objects.last().unwrap();
        assert_eq!(stairs.name, "Stairs");
        assert_eq!(stairs.pos, rooms[rooms.len() - 1].get_center());
        assert!(stairs.always_visible && !stairs.solid);
    }
}

#[test]
fn spawns_stay_inside_later_rooms() {
    for _ in 0..5 {
        let mut map = DungeonMap::new();
        let mut objects = vec![fresh_player()];
        let rooms = map.generate(&mut objects, 9);
        for o in &objects[1..objects.len() - 1] {
            let (x, y) = o.pos;
            assert!(rooms[1..].iter().any(|r| r.x1 < x && x < r.x2 && r.y1 < y && y < r.y2));
            assert!(o.fighter.is_some() || o.item.is_some());
        }
    }
}

#[test]
fn room_sizes_vary() {
    let mut widths = std::collections::HashSet::new();
    for _ in 0..10 {
        let mut map = DungeonMap::new();
        let mut objects = vec![fresh_player()];
        for r in map.generate(&mut objects, 1) {
            widths.insert(r.x2 - r.x1);
        }
    }
    assert!(widths.len() > 1);
}

#[test]
fn generation_keeps_only_the_player() {
    let mut map = DungeonMap::new();
    let mut objects = vec![fresh_player(), Object::new(1, 1, 'x', Color::White, "Old", true)];
    map.generate(&mut objects, 1);
    assert_eq!(objects[0].name, "Player");
    assert!(objects.iter().all(|o| o.name != "Old"));
    for col in &map.tiles {
        for t in col {
            assert!(!t.explored);
        }
    }
}
