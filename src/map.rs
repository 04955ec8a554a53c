use vstd::prelude::*;

use crate::object::{Color, Object};
use crate::rect::{center_of, interior_contains, rects_overlap, Rect};
use crate::spawn::{
    choose_item, choose_monster, make_item, make_monster, max_items, max_items_at, max_monsters,
    max_monsters_at, spawned_item, spawned_monster,
};
use crate::random::{coin_flip, random_in};

verus! {

/// Width of a level, in tiles.
pub const MAP_WIDTH: i32 = 80;

/// Height of a level, in tiles.
pub const MAP_HEIGHT: i32 = 40;

/// Smallest room side, wall border included.
pub const ROOM_MIN_SIZE: i32 = 6;

/// Largest room side, wall border included.
pub const ROOM_MAX_SIZE: i32 = 10;

/// How many room placements a level generation tries.
pub const MAX_ROOM_COUNT: i32 = 30;

/// One cell of the grid.
#[derive(Debug, Clone, Copy, PartialEq, Eq, Structural)]
pub struct Tile {
    /// The tile cannot be walked through.
    pub blocked: bool,
    /// The tile blocks line of sight.
    pub blocks_sight: bool,
    /// The tile has been seen at least once.
    pub explored: bool,
}

/// Open floor, not yet explored.
pub open spec fn floor_tile() -> Tile {
    Tile { blocked: false, blocks_sight: false, explored: false }
}

/// Wall, not yet explored.
pub open spec fn wall_tile() -> Tile {
    Tile { blocked: true, blocks_sight: true, explored: false }
}

/// `t` made open floor, its explored flag kept.
pub open spec fn opened(t: Tile) -> Tile {
    Tile { blocked: false, blocks_sight: false, ..t }
}

impl Tile {
    /// An open floor tile, not yet explored.
    pub fn empty() -> (t: Tile)
        ensures
            t == floor_tile(),
    {
        Tile { blocked: false, blocks_sight: false, explored: false }
    }

    /// A wall tile, not yet explored.
    pub fn wall() -> (t: Tile)
        ensures
            t == wall_tile(),
    {
        Tile { blocked: true, blocks_sight: true, explored: false }
    }
}

/// The level grid, column by column (`tiles[x][y]`), with the visibility computed
/// last (`fov[x][y]`).
pub struct DungeonMap {
    pub tiles: Vec<Vec<Tile>>,
    pub width: i32,
    pub height: i32,
    pub fov: Vec<Vec<bool>>,
}

/// Whether `r` is a room that fits in a `width` x `height` grid with its sizes in range.
pub open spec fn room_fits(r: Rect, width: int, height: int) -> bool {
    &&& 0 <= r.x1 && r.x2 < width && 0 <= r.y1 && r.y2 < height
    &&& ROOM_MIN_SIZE <= r.x2 - r.x1 <= ROOM_MAX_SIZE
    &&& ROOM_MIN_SIZE <= r.y2 - r.y1 <= ROOM_MAX_SIZE
}

/// No two rooms of `rooms` overlap, edges included.
pub open spec fn pairwise_disjoint(rooms: Seq<Rect>) -> bool {
    forall|i: int, j: int|
        0 <= i < j < rooms.len() ==> !rects_overlap(#[trigger] rooms[i], #[trigger] rooms[j])
}

/// The smaller of two integers.
pub open spec fn min_int(a: int, b: int) -> int {
    if a <= b {
        a
    } else {
        b
    }
}

/// The larger of two integers.
pub open spec fn max_int(a: int, b: int) -> int {
    if a <= b {
        b
    } else {
        a
    }
}

/// Whether `(x, y)` lies on the horizontal segment from `x1` to `x2` at row `y0`.
pub open spec fn on_h_segment(x1: int, x2: int, y0: int, x: int, y: int) -> bool {
    y == y0 && min_int(x1, x2) <= x <= max_int(x1, x2)
}

/// Whether `(x, y)` lies on the vertical segment from `y1` to `y2` at column `x0`.
pub open spec fn on_v_segment(y1: int, y2: int, x0: int, x: int, y: int) -> bool {
    x == x0 && min_int(y1, y2) <= y <= max_int(y1, y2)
}

impl DungeonMap {
    /// The grid has `width` columns of `height` tiles, and the visibility grid matches.
    pub open spec fn wf(&self) -> bool {
        &&& self.width >= 1
        &&& self.height >= 1
        &&& self.tiles@.len() == self.width
        &&& self.fov@.len() == self.width
        &&& forall|x: int| 0 <= x < self.width ==> (#[trigger] self.tiles@[x])@.len() == self.height
        &&& forall|x: int| 0 <= x < self.width ==> (#[trigger] self.fov@[x])@.len() == self.height
    }

    /// Whether `(x, y)` lies on the grid.
    pub open spec fn in_bounds(&self, x: int, y: int) -> bool {
        0 <= x < self.width && 0 <= y < self.height
    }

    /// The tile at `(x, y)`.
    pub open spec fn tile(&self, x: int, y: int) -> Tile {
        self.tiles@[x]@[y]
    }

    /// Whether `(x, y)` was visible at the last visibility update.
    pub open spec fn visible(&self, x: int, y: int) -> bool {
        self.fov@[x]@[y]
    }

    /// Whether `(x, y)` is on the grid and can be walked through.
    pub open spec fn open(&self, x: int, y: int) -> bool {
        self.in_bounds(x, y) && !self.tile(x, y).blocked
    }

    /// Every tile inside `r`'s wall border can be walked through.
    pub open spec fn room_open(&self, r: Rect) -> bool {
        forall|x: int, y: int| #[trigger] interior_contains(r, x, y) ==> self.open(x, y)
    }

    /// Every tile of the horizontal segment from `x1` to `x2` at row `y` is open.
    pub open spec fn h_open(&self, x1: int, x2: int, y: int) -> bool {
        forall|x: int| min_int(x1, x2) <= x <= max_int(x1, x2) ==> #[trigger] self.open(x, y)
    }

    /// Every tile of the vertical segment from `y1` to `y2` at column `x` is open.
    pub open spec fn v_open(&self, y1: int, y2: int, x: int) -> bool {
        forall|y: int| min_int(y1, y2) <= y <= max_int(y1, y2) ==> #[trigger] self.open(x, y)
    }

    /// An L-shaped tunnel from `a` to `b` is open: horizontal then vertical, or
    /// vertical then horizontal.
    pub open spec fn tunnel_open(&self, a: (int, int), b: (int, int)) -> bool {
        ||| self.h_open(a.0, b.0, a.1) && self.v_open(a.1, b.1, b.0)
        ||| self.v_open(a.1, b.1, a.0) && self.h_open(a.0, b.0, b.1)
    }

    /// `other` has the same shape, visibility and explored flags as `self`.
    pub open spec fn same_but_walls(&self, other: &DungeonMap) -> bool {
        &&& other.wf()
        &&& other.width == self.width
        &&& other.height == self.height
        &&& other.fov == self.fov
        &&& forall|a: int, b: int|
            self.in_bounds(a, b) ==> (#[trigger] other.tile(a, b)).explored == self.tile(a, b).explored
    }

    /// Every tile open in `self` is open in `other`.
    pub open spec fn opens_within(&self, other: &DungeonMap) -> bool {
        forall|x: int, y: int| #[trigger] self.open(x, y) ==> other.open(x, y)
    }

    /// Whether `(x, y)` is off the grid, a blocked tile, or under a solid actor.
    pub open spec fn blocked_at(&self, objects: Seq<Object>, x: int, y: int) -> bool {
        ||| !self.in_bounds(x, y)
        ||| self.tile(x, y).blocked
        ||| exists|i: int|
            0 <= i < objects.len() && #[trigger] objects[i].solid && objects[i].pos.0 == x
                && objects[i].pos.1 == y
    }
}

/// A `w` x `h` grid of copies of `t`.
fn filled_tiles(w: i32, h: i32, t: Tile) -> (g: Vec<Vec<Tile>>)
    requires
        w >= 1,
        h >= 1,
    ensures
        g@.len() == w,
        forall|x: int| 0 <= x < w ==> (#[trigger] g@[x])@.len() == h,
        forall|x: int, y: int| 0 <= x < w && 0 <= y < h ==> #[trigger] g@[x]@[y] == t,
{
    let mut g: Vec<Vec<Tile>> = Vec::new();
    let mut i: i32 = 0;
    while i < w
        invariant
            0 <= i <= w,
            h >= 1,
            g@.len() == i,
            forall|x: int| 0 <= x < i ==> (#[trigger] g@[x])@.len() == h,
            forall|x: int, y: int| 0 <= x < i && 0 <= y < h ==> #[trigger] g@[x]@[y] == t,
        decreases w - i,
    {
        let mut col: Vec<Tile> = Vec::new();
        let mut j: i32 = 0;
        while j < h
            invariant
                0 <= j <= h,
                col@.len() == j,
                forall|y: int| 0 <= y < j ==> col@[y] == t,
            decreases h - j,
        {
            col.push(t);
            j += 1;
        }
        g.push(col);
        i += 1;
    }
    g
}

/// A `w` x `h` grid of `false`.
fn blank_fov(w: i32, h: i32) -> (g: Vec<Vec<bool>>)
    requires
        w >= 1,
        h >= 1,
    ensures
        g@.len() == w,
        forall|x: int| 0 <= x < w ==> (#[trigger] g@[x])@.len() == h,
        forall|x: int, y: int| 0 <= x < w && 0 <= y < h ==> !#[trigger] g@[x]@[y],
{
    let mut g: Vec<Vec<bool>> = Vec::new();
    let mut i: i32 = 0;
    while i < w
        invariant
            0 <= i <= w,
            h >= 1,
            g@.len() == i,
            forall|x: int| 0 <= x < i ==> (#[trigger] g@[x])@.len() == h,
            forall|x: int, y: int| 0 <= x < i && 0 <= y < h ==> !#[trigger] g@[x]@[y],
        decreases w - i,
    {
        let mut col: Vec<bool> = Vec::new();
        let mut j: i32 = 0;
        while j < h
            invariant
                0 <= j <= h,
                col@.len() == j,
                forall|y: int| 0 <= y < j ==> !col@[y],
            decreases h - j,
        {
            col.push(false);
            j += 1;
        }
        g.push(col);
        i += 1;
    }
    g
}

impl DungeonMap {
    /// An `MAP_WIDTH` x `MAP_HEIGHT` grid of open, unexplored floor with nothing visible.
    /// It is not generated yet.
    pub fn new() -> (m: DungeonMap)
        ensures
            m.wf(),
            m.width == MAP_WIDTH,
            m.height == MAP_HEIGHT,
            forall|x: int, y: int| #[trigger]
                m.in_bounds(x, y) ==> m.tile(x, y) == floor_tile() && !m.visible(x, y),
    {
        let t = Tile::empty();
        DungeonMap {
            tiles: filled_tiles(MAP_WIDTH, MAP_HEIGHT, t),
            width: MAP_WIDTH,
            height: MAP_HEIGHT,
            fov: blank_fov(MAP_WIDTH, MAP_HEIGHT),
        }
    }

    /// Whether `(x, y)` is off the grid, a blocked tile, or under a solid actor.
    pub fn is_blocked(&self, x: i32, y: i32, objects: &Vec<Object>) -> (b: bool)
        requires
            self.wf(),
        ensures
            b == self.blocked_at(objects@, x as int, y as int),
    {
        if x < 0 || y < 0 || x >= self.width || y >= self.height {
            return true;
        }
        if self.tiles[x as usize][y as usize].blocked {
            return true;
        }
        let mut i: usize = 0;
        while i < objects.len()
            invariant
                i <= objects@.len(),
                forall|k: int|
                    0 <= k < i ==> !(#[trigger] objects@[k].solid && objects@[k].pos.0 == x
                        && objects@[k].pos.1 == y),
            decreases objects@.len() - i,
        {
            let o = &objects[i];
            if o.solid && o.pos.0 == x && o.pos.1 == y {
                return true;
            }
            i += 1;
        }
        false
    }

    /// Whether the tile at `pos` has ever been seen; off the grid nothing has.
    pub fn is_explored(&self, pos: (i32, i32)) -> (b: bool)
        requires
            self.wf(),
        ensures
            b == (self.in_bounds(pos.0 as int, pos.1 as int) && self.tile(
                pos.0 as int,
                pos.1 as int,
            ).explored),
    {
        if pos.0 < 0 || pos.1 < 0 || pos.0 >= self.width || pos.1 >= self.height {
            return false;
        }
        self.tiles[pos.0 as usize][pos.1 as usize].explored
    }

    /// Whether `pos` was visible at the last visibility update; off the grid nothing is.
    pub fn is_in_fov(&self, pos: (i32, i32)) -> (b: bool)
        requires
            self.wf(),
        ensures
            b == (self.in_bounds(pos.0 as int, pos.1 as int) && self.visible(
                pos.0 as int,
                pos.1 as int,
            )),
    {
        if pos.0 < 0 || pos.1 < 0 || pos.0 >= self.width || pos.1 >= self.height {
            return false;
        }
        self.fov[pos.0 as usize][pos.1 as usize]
    }

    /// Makes the tile at `(x, y)` open floor, keeping whether it was explored.
    fn carve(&mut self, x: i32, y: i32)
        requires
            old(self).wf(),
            old(self).in_bounds(x as int, y as int),
        ensures
            final(self).wf(),
            final(self).width == old(self).width,
            final(self).height == old(self).height,
            final(self).fov == old(self).fov,
            forall|a: int, b: int|
                old(self).in_bounds(a, b) ==> #[trigger] final(self).tile(a, b) == if a == x && b == y {
                    opened(old(self).tile(a, b))
                } else {
                    old(self).tile(a, b)
                },
    {
        let t = self.tiles[x as usize][y as usize];
        self.tiles[x as usize].set(y as usize, Tile { blocked: false, blocks_sight: false, ..t });
    }
}

impl DungeonMap {
    /// Carves out the inside of `room`, leaving its one-tile border as it was.
    fn generate_room(&mut self, room: &Rect)
        requires
            old(self).wf(),
            0 <= room.x1 < room.x2 < old(self).width,
            0 <= room.y1 < room.y2 < old(self).height,
        ensures
            old(self).same_but_walls(final(self)),
            forall|a: int, b: int|
                old(self).in_bounds(a, b) ==> #[trigger] final(self).tile(a, b) == if interior_contains(*room, a, b) {
                    opened(old(self).tile(a, b))
                } else {
                    old(self).tile(a, b)
                },
            old(self).opens_within(final(self)),
            final(self).room_open(*room),
    {
        let mut x = room.x1 + 1;
        while x < room.x2
            invariant
                old(self).wf(),
                room.x1 < x <= room.x2,
                0 <= room.x1 < room.x2 < old(self).width,
                0 <= room.y1 < room.y2 < old(self).height,
                old(self).same_but_walls(self),
                forall|a: int, b: int|
                    old(self).in_bounds(a, b) ==> #[trigger] self.tile(a, b) == if room.x1 < a < x
                        && room.y1 < b < room.y2 {
                        opened(old(self).tile(a, b))
                    } else {
                        old(self).tile(a, b)
                    },
            decreases room.x2 - x,
        {
            let mut y = room.y1 + 1;
            while y < room.y2
                invariant
                    old(self).wf(),
                    room.x1 < x < room.x2,
                    room.y1 < y <= room.y2,
                    0 <= room.x1 < room.x2 < old(self).width,
                    0 <= room.y1 < room.y2 < old(self).height,
                    old(self).same_but_walls(self),
                    forall|a: int, b: int|
                        old(self).in_bounds(a, b) ==> #[trigger] self.tile(a, b) == if (room.x1 < a < x
                            && room.y1 < b < room.y2) || (a == x && room.y1 < b < y) {
                            opened(old(self).tile(a, b))
                        } else {
                            old(self).tile(a, b)
                        },
                decreases room.y2 - y,
            {
                self.carve(x, y);
                y += 1;
            }
            x += 1;
        }
    }

    /// Carves a horizontal tunnel along row `y`, from `x1` to `x2` inclusive.
    fn generate_horizontal_tunnel(&mut self, x1: i32, x2: i32, y: i32)
        requires
            old(self).wf(),
            0 <= x1 < old(self).width,
            0 <= x2 < old(self).width,
            0 <= y < old(self).height,
        ensures
            old(self).same_but_walls(final(self)),
            forall|a: int, b: int|
                old(self).in_bounds(a, b) ==> #[trigger] final(self).tile(a, b) == if on_h_segment(
                    x1 as int,
                    x2 as int,
                    y as int,
                    a,
                    b,
                ) {
                    opened(old(self).tile(a, b))
                } else {
                    old(self).tile(a, b)
                },
            old(self).opens_within(final(self)),
            final(self).h_open(x1 as int, x2 as int, y as int),
    {
        let lo = if x1 <= x2 { x1 } else { x2 };
        let hi = if x1 <= x2 { x2 } else { x1 };
        let mut x = lo;
        while x <= hi
            invariant
                old(self).wf(),
                lo <= x <= hi + 1,
                lo == min_int(x1 as int, x2 as int),
                hi == max_int(x1 as int, x2 as int),
                0 <= lo,
                hi < old(self).width,
                0 <= y < old(self).height,
                old(self).same_but_walls(self),
                forall|a: int, b: int|
                    old(self).in_bounds(a, b) ==> #[trigger] self.tile(a, b) == if b == y && lo <= a < x {
                        opened(old(self).tile(a, b))
                    } else {
                        old(self).tile(a, b)
                    },
            decreases hi + 1 - x,
        {
            self.carve(x, y);
            x += 1;
        }
    }

    /// Carves a vertical tunnel along column `x`, from `y1` to `y2` inclusive.
    fn generate_vertical_tunnel(&mut self, y1: i32, y2: i32, x: i32)
        requires
            old(self).wf(),
            0 <= y1 < old(self).height,
            0 <= y2 < old(self).height,
            0 <= x < old(self).width,
        ensures
            old(self).same_but_walls(final(self)),
            forall|a: int, b: int|
                old(self).in_bounds(a, b) ==> #[trigger] final(self).tile(a, b) == if on_v_segment(
                    y1 as int,
                    y2 as int,
                    x as int,
                    a,
                    b,
                ) {
                    opened(old(self).tile(a, b))
                } else {
                    old(self).tile(a, b)
                },
            old(self).opens_within(final(self)),
            final(self).v_open(y1 as int, y2 as int, x as int),
    {
        let lo = if y1 <= y2 { y1 } else { y2 };
        let hi = if y1 <= y2 { y2 } else { y1 };
        let mut y = lo;
        while y <= hi
            invariant
                old(self).wf(),
                lo <= y <= hi + 1,
                lo == min_int(y1 as int, y2 as int),
                hi == max_int(y1 as int, y2 as int),
                0 <= lo,
                hi < old(self).height,
                0 <= x < old(self).width,
                old(self).same_but_walls(self),
                forall|a: int, b: int|
                    old(self).in_bounds(a, b) ==> #[trigger] self.tile(a, b) == if a == x && lo <= b < y {
                        opened(old(self).tile(a, b))
                    } else {
                        old(self).tile(a, b)
                    },
            decreases hi + 1 - y,
        {
            self.carve(x, y);
            y += 1;
        }
    }
}

/// `o` is a monster or item that can spawn at `depth`, inside `room`.
pub open spec fn spawned_in(o: Object, room: Rect, depth: int) -> bool {
    &&& interior_contains(room, o.pos.0 as int, o.pos.1 as int)
    &&& spawned_monster(o, depth) || spawned_item(o, depth)
}

/// `o` is a spawn of `depth` inside one of the rooms after the first.
pub open spec fn spawned_in_later_room(o: Object, rooms: Seq<Rect>, depth: int) -> bool {
    exists|i: int| 1 <= i < rooms.len() && #[trigger] spawned_in(o, rooms[i], depth)
}

/// `c` is the center of `r`, as grid coordinates.
pub open spec fn at_center(c: (i32, i32), r: Rect) -> bool {
    c.0 == center_of(r).0 && c.1 == center_of(r).1
}

/// The shape of a generated level: between one and `MAX_ROOM_COUNT` rooms that fit in
/// the grid and do not overlap, every room carved, each room after the first joined
/// to the one before it by an L-shaped tunnel between their centers, every other tile
/// a wall, nothing explored and nothing visible.
pub open spec fn level_layout(m: DungeonMap, rooms: Seq<Rect>) -> bool {
    &&& 1 <= rooms.len() <= MAX_ROOM_COUNT
    &&& rooms_carved(m, rooms)
    &&& grid_shape(m, rooms)
    &&& forall|x: int, y: int| #[trigger] m.in_bounds(x, y) ==> !m.tile(x, y).explored && !m.visible(x, y)
}

/// Every room fits, no two overlap, each is carved, and consecutive ones are joined.
pub open spec fn rooms_carved(m: DungeonMap, rooms: Seq<Rect>) -> bool {
    &&& forall|i: int| 0 <= i < rooms.len() ==> room_fits(#[trigger] rooms[i], m.width as int, m.height as int)
    &&& pairwise_disjoint(rooms)
    &&& forall|i: int| 0 <= i < rooms.len() ==> m.room_open(#[trigger] rooms[i])
    &&& forall|i: int|
        1 <= i < rooms.len() ==> m.tunnel_open(center_of(rooms[i - 1]), center_of(#[trigger] rooms[i]))
}

/// The actors of a generated level: the player first, moved to the center of the
/// first room; then the spawns of the later rooms; last the stairs, at the center of
/// the last room, never solid and always drawn once seen.
pub open spec fn level_actors(player: Object, objects: Seq<Object>, rooms: Seq<Rect>, depth: int) -> bool {
    &&& objects.len() >= 2
    &&& rooms.len() >= 1
    &&& objects[0] == (Object { pos: objects[0].pos, ..player })
    &&& at_center(objects[0].pos, rooms[0])
    &&& forall|k: int| 1 <= k < objects.len() - 1 ==> spawned_in_later_room(#[trigger] objects[k], rooms, depth)
    &&& is_stairs(objects.last())
    &&& at_center(objects.last().pos, rooms.last())
}

/// `o` is a staircase: named "Stairs", drawn as 'H', not solid, always drawn once seen.
pub open spec fn is_stairs(o: Object) -> bool {
    &&& o.name@ == "Stairs"@
    &&& o.c == 'H'
    &&& o.color == Color::White
    &&& !o.solid && o.always_visible && !o.alive && o.level == 1
    &&& o.fighter is None && o.ai is None && o.item is None && o.equipment is None
}

/// Opening more tiles keeps a tunnel open.
proof fn lemma_tunnel_kept(m1: DungeonMap, m2: DungeonMap, a: (int, int), b: (int, int))
    requires
        m1.tunnel_open(a, b),
        m1.opens_within(&m2),
    ensures
        m2.tunnel_open(a, b),
{
    if m1.h_open(a.0, b.0, a.1) && m1.v_open(a.1, b.1, b.0) {
        assert forall|x: int| min_int(a.0, b.0) <= x <= max_int(a.0, b.0) implies #[trigger] m2.open(x, a.1) by {
            assert(m1.open(x, a.1));
        }
        assert forall|y: int| min_int(a.1, b.1) <= y <= max_int(a.1, b.1) implies #[trigger] m2.open(b.0, y) by {
            assert(m1.open(b.0, y));
        }
    } else {
        assert forall|y: int| min_int(a.1, b.1) <= y <= max_int(a.1, b.1) implies #[trigger] m2.open(a.0, y) by {
            assert(m1.open(a.0, y));
        }
        assert forall|x: int| min_int(a.0, b.0) <= x <= max_int(a.0, b.0) implies #[trigger] m2.open(x, b.1) by {
            assert(m1.open(x, b.1));
        }
    }
}

/// Opening more tiles keeps rooms carved and tunnels open.
proof fn lemma_rooms_carved_kept(m1: DungeonMap, m2: DungeonMap, rooms: Seq<Rect>)
    requires
        rooms_carved(m1, rooms),
        m1.opens_within(&m2),
        m2.width == m1.width,
        m2.height == m1.height,
    ensures
        rooms_carved(m2, rooms),
{
    assert forall|i: int| 0 <= i < rooms.len() implies m2.room_open(#[trigger] rooms[i]) by {
        assert forall|x: int, y: int| #[trigger] interior_contains(rooms[i], x, y) implies m2.open(x, y) by {
            assert(m1.open(x, y));
        }
    }
    assert forall|i: int| 1 <= i < rooms.len() implies m2.tunnel_open(
        center_of(rooms[i - 1]),
        center_of(#[trigger] rooms[i]),
    ) by {
        let a = center_of(rooms[i - 1]);
        let b = center_of(rooms[i]);
        lemma_tunnel_kept(m1, m2, a, b);
    }
}

/// How many actors of `s` carry a fighter.
pub open spec fn count_fighters(s: Seq<Object>) -> int
    decreases s.len(),
{
    if s.len() == 0 {
        0
    } else {
        count_fighters(s.drop_last()) + if s.last().fighter is Some {
            1int
        } else {
            0int
        }
    }
}

/// How many actors of `s` are items.
pub open spec fn count_items(s: Seq<Object>) -> int
    decreases s.len(),
{
    if s.len() == 0 {
        0
    } else {
        count_items(s.drop_last()) + if s.last().item is Some {
            1int
        } else {
            0int
        }
    }
}

/// The spawns of a room, as `populate_room` leaves them after the actors `before`:
/// every new actor is a monster or item of `depth` inside `room`, stood on a tile that
/// the actors before it did not block, and there are at most `monsters` actors with a
/// fighter and at most `items` items among them.
pub open spec fn spawns_placed(
    m: DungeonMap,
    before: Seq<Object>,
    after: Seq<Object>,
    room: Rect,
    depth: int,
    monsters: int,
    items: int,
) -> bool {
    &&& after.len() >= before.len()
    &&& after.subrange(0, before.len() as int) == before
    &&& count_fighters(after.subrange(before.len() as int, after.len() as int)) <= monsters
    &&& count_items(after.subrange(before.len() as int, after.len() as int)) <= items
    &&& forall|k: int|
        before.len() <= k < after.len() ==> spawned_in(#[trigger] after[k], room, depth) && !m.blocked_at(
            after.subrange(0, k),
            after[k].pos.0 as int,
            after[k].pos.1 as int,
        )
}

/// Placing one more spawn that passes the tile check keeps `spawns_placed`, with one
/// more monster or item allowed.
proof fn lemma_spawn_pushed(
    m: DungeonMap,
    before: Seq<Object>,
    mid: Seq<Object>,
    o: Object,
    room: Rect,
    depth: int,
    monsters: int,
    items: int,
)
    requires
        spawns_placed(m, before, mid, room, depth, monsters, items),
        spawned_in(o, room, depth),
        !m.blocked_at(mid, o.pos.0 as int, o.pos.1 as int),
    ensures
        spawns_placed(
            m,
            before,
            mid.push(o),
            room,
            depth,
            monsters + if o.fighter is Some { 1int } else { 0int },
            items + if o.item is Some { 1int } else { 0int },
        ),
{
    let after = mid.push(o);
    let n = before.len() as int;
    assert(after.subrange(0, n) == mid.subrange(0, n));
    assert(after.subrange(n, after.len() as int).drop_last() == mid.subrange(n, mid.len() as int));
    assert(after.subrange(n, after.len() as int).last() == o);
    assert forall|k: int| n <= k < after.len() implies spawned_in(#[trigger] after[k], room, depth) && !m.blocked_at(
        after.subrange(0, k),
        after[k].pos.0 as int,
        after[k].pos.1 as int,
    ) by {
        if k < mid.len() {
            assert(after.subrange(0, k) == mid.subrange(0, k));
            assert(after[k] == mid[k]);
        } else {
            assert(after.subrange(0, k) == mid);
        }
    }
}

impl DungeonMap {
    /// Puts `spawn` among the actors unless its tile is blocked: off the grid, a wall,
    /// or under a solid actor. A blocked spawn is skipped, not moved.
    pub fn place_spawn(&self, objects: &mut Vec<Object>, spawn: Object)
        requires
            self.wf(),
        ensures
            final(objects)@ == if self.blocked_at(old(objects)@, spawn.pos.0 as int, spawn.pos.1 as int) {
                old(objects)@
            } else {
                old(objects)@.push(spawn)
            },
    {
        if !self.is_blocked(spawn.pos.0, spawn.pos.1, objects) {
            objects.push(spawn);
        }
    }

    /// Spawns monsters and items in `room`. The counts are drawn up to the depth's
    /// maxima, each spawn on a random tile of the room's inside; a spawn whose tile is
    /// blocked is skipped.
    pub fn populate_room(&self, room: &Rect, objects: &mut Vec<Object>, dungeon_level: i32)
        requires
            self.wf(),
            room_fits(*room, self.width as int, self.height as int),
        ensures
            spawns_placed(
                *self,
                old(objects)@,
                final(objects)@,
                *room,
                dungeon_level as int,
                max_monsters_at(dungeon_level as int),
                max_items_at(dungeon_level as int),
            ),
    {
        let ghost depth = dungeon_level as int;
        assert(objects@.subrange(0, objects@.len() as int) == objects@);
        assert(objects@.subrange(objects@.len() as int, objects@.len() as int) =~= Seq::<Object>::empty());
        let max_monsters = max_monsters(dungeon_level);
        let num_monsters = random_in(0, max_monsters + 1);
        let mut i: i32 = 0;
        while i < num_monsters
            invariant
                self.wf(),
                room_fits(*room, self.width as int, self.height as int),
                0 <= i <= num_monsters <= max_monsters_at(depth),
                depth == dungeon_level,
                spawns_placed(*self, old(objects)@, objects@, *room, depth, i as int, 0),
            decreases num_monsters - i,
        {
            let x = random_in(room.x1 + 1, room.x2);
            let y = random_in(room.y1 + 1, room.y2);
            let kind = choose_monster(dungeon_level);
            let monster = make_monster(kind, x, y);
            let ghost mid = objects@;
            proof {
                if !self.blocked_at(mid, x as int, y as int) {
                    lemma_spawn_pushed(*self, old(objects)@, mid, monster, *room, depth, i as int, 0);
                }
            }
            self.place_spawn(objects, monster);
            i += 1;
        }
        let max_items = max_items(dungeon_level);
        let num_items = random_in(0, max_items + 1);
        let mut j: i32 = 0;
        while j < num_items
            invariant
                self.wf(),
                room_fits(*room, self.width as int, self.height as int),
                0 <= j <= num_items <= max_items_at(depth),
                depth == dungeon_level,
                spawns_placed(*self, old(objects)@, objects@, *room, depth, max_monsters_at(depth), j as int),
            decreases num_items - j,
        {
            let x = random_in(room.x1 + 1, room.x2);
            let y = random_in(room.y1 + 1, room.y2);
            let kind = choose_item(dungeon_level);
            let item = make_item(kind, x, y);
            let ghost mid = objects@;
            proof {
                if !self.blocked_at(mid, x as int, y as int) {
                    lemma_spawn_pushed(*self, old(objects)@, mid, item, *room, depth, max_monsters_at(depth), j as int);
                }
            }
            self.place_spawn(objects, item);
            j += 1;
        }
    }
}

/// Whether `(x, y)` lies on the L-shaped route from `a` to `b`: horizontal first
/// (along `a`'s row, then `b`'s column) or vertical first (along `a`'s column, then
/// `b`'s row).
pub open spec fn on_l_path(a: (int, int), b: (int, int), horizontal_first: bool, x: int, y: int) -> bool {
    if horizontal_first {
        on_h_segment(a.0, b.0, a.1, x, y) || on_v_segment(a.1, b.1, b.0, x, y)
    } else {
        on_v_segment(a.1, b.1, a.0, x, y) || on_h_segment(a.0, b.0, b.1, x, y)
    }
}

/// Whether generation digs `(x, y)` for room `i`: inside it, or (after the first
/// room) on one of the two L-shaped routes from the previous room's center to its own.
pub open spec fn dug_by(rooms: Seq<Rect>, i: int, x: int, y: int) -> bool {
    ||| interior_contains(rooms[i], x, y)
    ||| i >= 1 && on_l_path(center_of(rooms[i - 1]), center_of(rooms[i]), true, x, y)
    ||| i >= 1 && on_l_path(center_of(rooms[i - 1]), center_of(rooms[i]), false, x, y)
}

/// Every tile is fresh floor or fresh wall (so it blocks sight exactly when it blocks
/// movement, and is unexplored), and every floor tile was dug for one of `rooms`.
pub open spec fn grid_shape(m: DungeonMap, rooms: Seq<Rect>) -> bool {
    forall|x: int, y: int| #[trigger]
        m.in_bounds(x, y) ==> (m.tile(x, y) == floor_tile() || m.tile(x, y) == wall_tile()) && (!m.tile(
            x,
            y,
        ).blocked ==> exists|i: int| 0 <= i < rooms.len() && #[trigger] dug_by(rooms, i, x, y))
}

/// A level under construction: the rooms placed so far are carved and joined, every
/// floor tile was dug for them, nothing is visible, and the actors are the first one
/// (at the center of the first room once there is one) followed by spawns of later rooms.
pub open spec fn layout_in_progress(m: DungeonMap, rooms: Seq<Rect>, objects: Seq<Object>, depth: int) -> bool {
    &&& m.wf()
    &&& rooms_carved(m, rooms)
    &&& grid_shape(m, rooms)
    &&& forall|x: int, y: int| #[trigger] m.in_bounds(x, y) ==> !m.visible(x, y)
    &&& objects.len() >= 1
    &&& rooms.len() == 0 ==> objects.len() == 1
    &&& rooms.len() > 0 ==> at_center(objects[0].pos, rooms[0])
    &&& forall|k: int| 1 <= k < objects.len() ==> spawned_in_later_room(#[trigger] objects[k], rooms, depth)
}

/// Digging a new room, and the route to it, keeps every floor tile accounted for.
proof fn lemma_grid_shape_step(before: DungeonMap, after: DungeonMap, rooms: Seq<Rect>, cand: Rect, h: bool)
    requires
        grid_shape(before, rooms),
        after.width == before.width,
        after.height == before.height,
        forall|a: int, b: int|
            before.in_bounds(a, b) ==> #[trigger] after.tile(a, b) == if interior_contains(cand, a, b) || (rooms.len() > 0
                && on_l_path(center_of(rooms.last()), center_of(cand), h, a, b)) {
                opened(before.tile(a, b))
            } else {
                before.tile(a, b)
            },
    ensures
        grid_shape(after, rooms.push(cand)),
{
    let r2 = rooms.push(cand);
    let n = rooms.len() as int;
    assert forall|x: int, y: int| #[trigger] after.in_bounds(x, y) implies (after.tile(x, y) == floor_tile()
        || after.tile(x, y) == wall_tile()) && (!after.tile(x, y).blocked ==> exists|i: int|
        0 <= i < r2.len() && #[trigger] dug_by(r2, i, x, y)) by {
        assert(before.in_bounds(x, y));
        if !after.tile(x, y).blocked {
            if !before.tile(x, y).blocked {
                let i = choose|i: int| 0 <= i < rooms.len() && #[trigger] dug_by(rooms, i, x, y);
                assert(r2[i] == rooms[i]);
                if i >= 1 {
                    assert(r2[i - 1] == rooms[i - 1]);
                }
                assert(dug_by(r2, i, x, y));
            } else {
                assert(r2[n] == cand);
                if n >= 1 {
                    assert(r2[n - 1] == rooms.last());
                }
                assert(dug_by(r2, n, x, y));
            }
        }
    }
}

impl DungeonMap {
    /// Joins `prev` to `next` with one horizontal and one vertical tunnel, horizontal
    /// first when `horizontal_first` holds.
    fn connect(&mut self, prev: (i32, i32), next: (i32, i32), horizontal_first: bool)
        requires
            old(self).wf(),
            old(self).in_bounds(prev.0 as int, prev.1 as int),
            old(self).in_bounds(next.0 as int, next.1 as int),
        ensures
            old(self).same_but_walls(final(self)),
            old(self).opens_within(final(self)),
            final(self).tunnel_open((prev.0 as int, prev.1 as int), (next.0 as int, next.1 as int)),
            forall|a: int, b: int|
                old(self).in_bounds(a, b) ==> #[trigger] final(self).tile(a, b) == if on_l_path(
                    (prev.0 as int, prev.1 as int),
                    (next.0 as int, next.1 as int),
                    horizontal_first,
                    a,
                    b,
                ) {
                    opened(old(self).tile(a, b))
                } else {
                    old(self).tile(a, b)
                },
    {
        let ghost m0 = *self;
        if horizontal_first {
            self.generate_horizontal_tunnel(prev.0, next.0, prev.1);
            let ghost m1 = *self;
            self.generate_vertical_tunnel(prev.1, next.1, next.0);
            assert(self.h_open(prev.0 as int, next.0 as int, prev.1 as int)) by {
                assert forall|x: int| min_int(prev.0 as int, next.0 as int) <= x <= max_int(prev.0 as int, next.0 as int)
                    implies #[trigger] self.open(x, prev.1 as int) by {
                    assert(m1.open(x, prev.1 as int));
                }
            }
            assert forall|a: int, b: int| m0.in_bounds(a, b) implies #[trigger] self.tile(a, b) == if on_l_path(
                (prev.0 as int, prev.1 as int),
                (next.0 as int, next.1 as int),
                horizontal_first,
                a,
                b,
            ) {
                opened(m0.tile(a, b))
            } else {
                m0.tile(a, b)
            } by {
                assert(m1.tile(a, b) == m1.tile(a, b));
            }
        } else {
            self.generate_vertical_tunnel(prev.1, next.1, prev.0);
            let ghost m1 = *self;
            self.generate_horizontal_tunnel(prev.0, next.0, next.1);
            assert(self.v_open(prev.1 as int, next.1 as int, prev.0 as int)) by {
                assert forall|y: int| min_int(prev.1 as int, next.1 as int) <= y <= max_int(prev.1 as int, next.1 as int)
                    implies #[trigger] self.open(prev.0 as int, y) by {
                    assert(m1.open(prev.0 as int, y));
                }
            }
            assert forall|a: int, b: int| m0.in_bounds(a, b) implies #[trigger] self.tile(a, b) == if on_l_path(
                (prev.0 as int, prev.1 as int),
                (next.0 as int, next.1 as int),
                horizontal_first,
                a,
                b,
            ) {
                opened(m0.tile(a, b))
            } else {
                m0.tile(a, b)
            } by {
                assert(m1.tile(a, b) == m1.tile(a, b));
            }
        }
        assert(m0.opens_within(self)) by {
            assert forall|x: int, y: int| #[trigger] m0.open(x, y) implies self.open(x, y) by {}
        }
    }

    /// One placement attempt of level generation, for the drawn room `candidate` and
    /// the drawn coin flip `horizontal_first`. A candidate that overlaps a placed room
    /// (edges included) is rejected and changes nothing. Otherwise it is carved; the
    /// first room receives the first actor at its center; a later room is joined to
    /// the previous room's center by an L-shaped tunnel (horizontal first when
    /// `horizontal_first` holds) and populated; and the candidate joins the rooms.
    pub fn try_place_room(
        &mut self,
        rooms: &mut Vec<Rect>,
        objects: &mut Vec<Object>,
        candidate: Rect,
        horizontal_first: bool,
        dungeon_level: i32,
    ) -> (placed: bool)
        requires
            layout_in_progress(*old(self), old(rooms)@, old(objects)@, dungeon_level as int),
            room_fits(candidate, old(self).width as int, old(self).height as int),
        ensures
            layout_in_progress(*final(self), final(rooms)@, final(objects)@, dungeon_level as int),
            final(self).width == old(self).width,
            final(self).height == old(self).height,
            final(objects)@[0] == (Object { pos: final(objects)@[0].pos, ..old(objects)@[0] }),
            placed == !exists|k: int| 0 <= k < old(rooms)@.len() && #[trigger] rects_overlap(candidate, old(rooms)@[k]),
            !placed ==> *final(self) == *old(self) && final(rooms)@ == old(rooms)@ && final(objects)@ == old(objects)@,
            placed ==> final(rooms)@ == old(rooms)@.push(candidate),
            placed ==> forall|a: int, b: int|
                old(self).in_bounds(a, b) ==> #[trigger] final(self).tile(a, b) == if interior_contains(candidate, a, b) || (
                old(rooms)@.len() > 0 && on_l_path(center_of(old(rooms)@.last()), center_of(candidate), horizontal_first, a, b)) {
                    opened(old(self).tile(a, b))
                } else {
                    old(self).tile(a, b)
                },
            placed && old(rooms)@.len() == 0 ==> final(objects)@ == old(objects)@.update(
                0,
                Object { pos: (center_of(candidate).0 as i32, center_of(candidate).1 as i32), ..old(objects)@[0] },
            ),
            placed && old(rooms)@.len() > 0 ==> spawns_placed(
                *final(self),
                old(objects)@,
                final(objects)@,
                candidate,
                dungeon_level as int,
                max_monsters_at(dungeon_level as int),
                max_items_at(dungeon_level as int),
            ),
    {
        let mut failed = false;
        let mut j: usize = 0;
        while j < rooms.len()
            invariant
                j <= rooms@.len(),
                failed <==> exists|k: int| 0 <= k < j && #[trigger] rects_overlap(candidate, rooms@[k]),
            decreases rooms@.len() - j,
        {
            if candidate.intersects_with(&rooms[j]) {
                failed = true;
            }
            j += 1;
        }
        if failed {
            return false;
        }
        let ghost before = *self;
        let ghost old_rooms = rooms@;
        let ghost old_objects = objects@;
        self.generate_room(&candidate);
        let ghost carved = *self;
        let (new_x, new_y) = candidate.get_center();
        if rooms.len() == 0 {
            objects[0].pos = (new_x, new_y);
        } else {
            let (prev_x, prev_y) = rooms[rooms.len() - 1].get_center();
            self.connect((prev_x, prev_y), (new_x, new_y), horizontal_first);
            self.populate_room(&candidate, objects, dungeon_level);
        }
        rooms.push(candidate);
        proof {
            let n = old_rooms.len() as int;
            assert forall|a: int, b: int| before.in_bounds(a, b) implies #[trigger] self.tile(a, b) == if interior_contains(candidate, a, b) || (
                n > 0 && on_l_path(center_of(old_rooms.last()), center_of(candidate), horizontal_first, a, b)) {
                opened(before.tile(a, b))
            } else {
                before.tile(a, b)
            } by {
                assert(carved.tile(a, b) == carved.tile(a, b));
            }
            lemma_grid_shape_step(before, *self, old_rooms, candidate, horizontal_first);
            assert(before.opens_within(self)) by {
                assert forall|x: int, y: int| #[trigger] before.open(x, y) implies self.open(x, y) by {
                    assert(before.in_bounds(x, y));
                }
            }
            lemma_rooms_carved_kept(before, *self, old_rooms);
            assert(carved.opens_within(self)) by {
                assert forall|x: int, y: int| #[trigger] carved.open(x, y) implies self.open(x, y) by {
                    assert(before.in_bounds(x, y));
                }
            }
            assert(self.room_open(candidate)) by {
                assert forall|x: int, y: int| #[trigger] interior_contains(candidate, x, y) implies self.open(x, y) by {
                    assert(carved.open(x, y));
                }
            }
            assert forall|x: int, y: int| #[trigger] self.in_bounds(x, y) implies !self.visible(x, y) by {
                assert(before.in_bounds(x, y));
            }
            assert(rooms@[n] == candidate);
            assert forall|i: int, k: int| 0 <= i < k < rooms@.len() implies !rects_overlap(
                #[trigger] rooms@[i],
                #[trigger] rooms@[k],
            ) by {
                if k == n {
                    assert(!rects_overlap(candidate, old_rooms[i]));
                } else {
                    assert(rooms@[i] == old_rooms[i] && rooms@[k] == old_rooms[k]);
                }
            }
            assert forall|i: int| 0 <= i < rooms@.len() implies self.room_open(#[trigger] rooms@[i]) by {
                if i < n {
                    assert(rooms@[i] == old_rooms[i]);
                }
            }
            assert forall|i: int| 0 <= i < rooms@.len() implies room_fits(
                #[trigger] rooms@[i],
                self.width as int,
                self.height as int,
            ) by {
                if i < n {
                    assert(rooms@[i] == old_rooms[i]);
                }
            }
            assert forall|i: int| 1 <= i < rooms@.len() implies self.tunnel_open(
                center_of(rooms@[i - 1]),
                center_of(#[trigger] rooms@[i]),
            ) by {
                if i < n {
                    assert(rooms@[i] == old_rooms[i] && rooms@[i - 1] == old_rooms[i - 1]);
                } else {
                    assert(rooms@[i - 1] == old_rooms[n - 1]);
                }
            }
            assert(rooms@.drop_last() == old_rooms);
            if n > 0 {
                assert(objects@.subrange(0, old_objects.len() as int) == old_objects);
                assert(objects@[0] == old_objects[0]);
            }
            assert forall|k: int| 1 <= k < objects@.len() implies spawned_in_later_room(
                #[trigger] objects@[k],
                rooms@,
                dungeon_level as int,
            ) by {
                if k < old_objects.len() {
                    if n > 0 {
                        assert(objects@.subrange(0, old_objects.len() as int)[k] == objects@[k]);
                    }
                    assert(objects@[k] == old_objects[k]);
                    let i = choose|i: int| 1 <= i < old_rooms.len() && #[trigger] spawned_in(old_objects[k], old_rooms[i], dungeon_level as int);
                    assert(rooms@[i] == old_rooms[i]);
                } else {
                    assert(spawned_in(objects@[k], rooms@[n], dungeon_level as int));
                }
            }
        }
        true
    }

    /// Generates a new level for `dungeon_level`: the grid becomes walls, then
    /// `MAX_ROOM_COUNT` room placements are attempted, each with a random size and
    /// position and a coin flip for the tunnel's shape (see `try_place_room`). The
    /// first actor (the player, kept as the only earlier actor) ends at the center of
    /// the first room, and stairs are put at the center of the last room. The placed
    /// rooms are returned.
    ///
    /// The first placement is never rejected, so there is always a room for the stairs.
    pub fn generate(&mut self, objects: &mut Vec<Object>, dungeon_level: i32) -> (rooms: Vec<Rect>)
        requires
            old(self).wf(),
            old(self).width > ROOM_MAX_SIZE,
            old(self).height > ROOM_MAX_SIZE,
            old(objects)@.len() >= 1,
        ensures
            final(self).wf(),
            final(self).width == old(self).width,
            final(self).height == old(self).height,
            level_layout(*final(self), rooms@),
            level_actors(old(objects)@[0], final(objects)@, rooms@, dungeon_level as int),
    {
        let w = self.width;
        let h = self.height;
        self.tiles = filled_tiles(w, h, Tile::wall());
        self.fov = blank_fov(w, h);
        let mut rooms: Vec<Rect> = Vec::new();
        objects.truncate(1);
        let ghost player = old(objects)@[0];
        proof {
            assert forall|x: int, y: int| #[trigger] self.in_bounds(x, y) implies (self.tile(x, y) == floor_tile()
                || self.tile(x, y) == wall_tile()) && (!self.tile(x, y).blocked ==> exists|i: int|
                0 <= i < rooms@.len() && #[trigger] dug_by(rooms@, i, x, y)) by {}
        }
        let mut attempt: i32 = 0;
        while attempt < MAX_ROOM_COUNT
            invariant
                0 <= attempt <= MAX_ROOM_COUNT,
                self.width == w,
                self.height == h,
                w > ROOM_MAX_SIZE,
                h > ROOM_MAX_SIZE,
                rooms@.len() <= attempt,
                attempt > 0 ==> rooms@.len() > 0,
                layout_in_progress(*self, rooms@, objects@, dungeon_level as int),
                objects@[0] == (Object { pos: objects@[0].pos, ..player }),
            decreases MAX_ROOM_COUNT - attempt,
        {
            let room_w = random_in(ROOM_MIN_SIZE, ROOM_MAX_SIZE + 1);
            let room_h = random_in(ROOM_MIN_SIZE, ROOM_MAX_SIZE + 1);
            let room_x = random_in(0, w - room_w);
            let room_y = random_in(0, h - room_h);
            let candidate = Rect::new(room_x, room_y, room_w, room_h);
            let horizontal_first = coin_flip();
            self.try_place_room(&mut rooms, objects, candidate, horizontal_first, dungeon_level);
            attempt += 1;
        }
        let (stair_x, stair_y) = rooms[rooms.len() - 1].get_center();
        let mut stairs = Object::new(stair_x, stair_y, 'H', Color::White, "Stairs", false);
        stairs.always_visible = true;
        let ghost before_stairs = objects@;
        objects.push(stairs);
        proof {
            assert forall|k: int| 1 <= k < objects@.len() - 1 implies spawned_in_later_room(
                #[trigger] objects@[k],
                rooms@,
                dungeon_level as int,
            ) by {
                assert(objects@[k] == before_stairs[k]);
            }
            assert forall|x: int, y: int| #[trigger] self.in_bounds(x, y) implies !self.tile(x, y).explored by {}
        }
        rooms
    }
}

/// A visibility grid as nested sequences.
pub open spec fn grid_view(v: Vec<Vec<bool>>) -> Seq<Seq<bool>> {
    Seq::new(v@.len(), |x: int| v@[x]@)
}

/// `t` after a visibility update that saw it (`seen`) or not.
pub open spec fn revealed(t: Tile, seen: bool) -> Tile {
    Tile { explored: t.explored || seen, ..t }
}

/// `after` is `before` once `vis` became the visible set: visibility is replaced,
/// and every visible tile is marked explored; nothing else changes.
pub open spec fn fov_updated(before: DungeonMap, after: DungeonMap, vis: Seq<Seq<bool>>) -> bool {
    &&& after.wf()
    &&& after.width == before.width
    &&& after.height == before.height
    &&& forall|x: int, y: int| #[trigger]
        before.in_bounds(x, y) ==> after.visible(x, y) == vis[x][y] && after.tile(x, y) == revealed(
            before.tile(x, y),
            vis[x][y],
        )
}

impl DungeonMap {
    /// Takes `visible`, the field of view computed from the current grid, as the
    /// visible set, and marks every visible tile explored. Explored flags are never
    /// cleared.
    pub fn recompute_fov(&mut self, visible: Vec<Vec<bool>>)
        requires
            old(self).wf(),
            visible@.len() == old(self).width,
            forall|x: int| 0 <= x < old(self).width ==> (#[trigger] visible@[x])@.len() == old(self).height,
        ensures
            fov_updated(*old(self), *final(self), grid_view(visible)),
    {
        self.fov = visible;
        let mut x: i32 = 0;
        while x < self.width
            invariant
                old(self).wf(),
                0 <= x <= self.width,
                self.wf(),
                self.width == old(self).width,
                self.height == old(self).height,
                self.fov == visible,
                forall|a: int, b: int| #[trigger]
                    old(self).in_bounds(a, b) ==> self.tile(a, b) == if a < x {
                        revealed(old(self).tile(a, b), visible@[a]@[b])
                    } else {
                        old(self).tile(a, b)
                    },
            decreases self.width - x,
        {
            let mut y: i32 = 0;
            while y < self.height
                invariant
                    old(self).wf(),
                    0 <= x < self.width,
                    0 <= y <= self.height,
                    self.wf(),
                    self.width == old(self).width,
                    self.height == old(self).height,
                    self.fov == visible,
                    forall|a: int, b: int| #[trigger]
                        old(self).in_bounds(a, b) ==> self.tile(a, b) == if a < x || (a == x && b < y) {
                            revealed(old(self).tile(a, b), visible@[a]@[b])
                        } else {
                            old(self).tile(a, b)
                        },
                decreases self.height - y,
            {
                if self.fov[x as usize][y as usize] {
                    let t = self.tiles[x as usize][y as usize];
                    self.tiles[x as usize].set(y as usize, Tile { explored: true, ..t });
                }
                y += 1;
            }
            x += 1;
        }
    }
}

impl DungeonMap {
    /// Whether the grid has the shape `wf` asks for.
    pub fn is_valid(&self) -> (b: bool)
        ensures
            b == self.wf(),
    {
        if self.width < 1 || self.height < 1 {
            return false;
        }
        if self.tiles.len() != self.width as usize || self.fov.len() != self.width as usize {
            return false;
        }
        let mut x: usize = 0;
        while x < self.tiles.len()
            invariant
                self.width >= 1,
                self.height >= 1,
                self.tiles@.len() == self.width,
                self.fov@.len() == self.width,
                x <= self.tiles@.len(),
                forall|k: int| 0 <= k < x ==> (#[trigger] self.tiles@[k])@.len() == self.height,
                forall|k: int| 0 <= k < x ==> (#[trigger] self.fov@[k])@.len() == self.height,
            decreases self.tiles@.len() - x,
        {
            if self.tiles[x].len() != self.height as usize || self.fov[x].len() != self.height as usize {
                return false;
            }
            x += 1;
        }
        true
    }
}

} // verus!
