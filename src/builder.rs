//! Building maps from a generator's tile-kind grid.
use vstd::prelude::*;
use crate::ids::Vec2d;
use crate::map::{GameMap, OverlappedTile, SpecialTileKind, StairsKind, FLOOR_OUTSIDE, in_bounds, index_of};

verus! {

#[derive(Clone, Copy, Debug, PartialEq, Eq, Structural)]
pub enum TileKind {
    Floor,
    Wall,
}

/// What a map generator produces: a grid of tile kinds (row by row), an
/// entrance and perhaps an exit.
#[derive(Clone, Debug)]
pub struct GeneratedMap {
    pub w: u32,
    pub h: u32,
    pub tile: Vec<TileKind>,
    pub entrance: Vec2d,
    pub exit: Option<Vec2d>,
}

impl GeneratedMap {
    pub open spec fn wf(&self) -> bool {
        &&& self.tile@.len() == self.w * self.h
        &&& self.w * self.h <= usize::MAX
        &&& in_bounds(self.w, self.h, self.entrance)
        &&& self.exit matches Some(e) ==> in_bounds(self.w, self.h, e)
    }
}

/// Whether a down-stair is placed at the exit.
pub open spec fn has_down_stairs(gm: GeneratedMap, is_deepest_floor: bool) -> bool {
    !is_deepest_floor && gm.exit is Some
}

/// The stair marker that a generated map gets at tile index `i`.
pub open spec fn stairs_at(gm: GeneratedMap, floor: u32, is_deepest_floor: bool, i: int) -> SpecialTileKind {
    if has_down_stairs(gm, is_deepest_floor) && i == index_of(gm.w, gm.exit.unwrap()) {
        SpecialTileKind::Stairs { dest_floor: (floor + 1) as u32, kind: StairsKind::DownStairs }
    } else if i == index_of(gm.w, gm.entrance) {
        SpecialTileKind::Stairs {
            dest_floor: if floor == 0 { FLOOR_OUTSIDE } else { (floor - 1) as u32 },
            kind: StairsKind::UpStairs,
        }
    } else {
        SpecialTileKind::Plain
    }
}

/// Stamps terrain onto a map of the generator's size (`wall` where the
/// generator put a wall, `tile` everywhere), an up-stair at the entrance and,
/// unless this is the deepest floor, a down-stair at the exit.
pub fn generated_map_to_map(gm: &GeneratedMap, tile: u32, wall: u32, floor: u32, is_deepest_floor: bool) -> (r: GameMap)
    requires
        gm.wf(),
        has_down_stairs(*gm, is_deepest_floor) ==> floor < u32::MAX,
    ensures
        r.wf(),
        r.w == gm.w,
        r.h == gm.h,
        r.entrance == gm.entrance,
        r.charas matches Some(t) && t.len() == 0,
        forall|i: int| 0 <= i < r.tile@.len() ==> {
            let t = #[trigger] r.tile@[i];
            &&& t.tile.idx@ == seq![tile]
            &&& t.wall == (if gm.tile@[i] == TileKind::Wall { Some(wall) } else { None })
            &&& t.deco.is_none()
            &&& t.item_list.is_none()
            &&& t.chara.is_none()
            &&& t.special == stairs_at(*gm, floor, is_deepest_floor, i)
        },
{
    let mut map = GameMap::new(gm.w, gm.h);
    let n = map.tile.len();
    let mut i: usize = 0;
    while i < n
        invariant
            n == map.tile@.len(),
            n == gm.tile@.len(),
            i <= n,
            map.wf(),
            map.w == gm.w,
            map.h == gm.h,
            map.charas matches Some(t) && t.len() == 0,
            forall|j: int| 0 <= j < n ==> {
                let t = #[trigger] map.tile@[j];
                &&& j < i ==> t.tile.idx@ == seq![tile]
                &&& j < i ==> t.wall == (if gm.tile@[j] == TileKind::Wall { Some(wall) } else { None })
                &&& j >= i ==> t.wall.is_none()
                &&& t.deco.is_none()
                &&& t.item_list.is_none()
                &&& t.chara.is_none()
                &&& t.special == SpecialTileKind::Plain
            },
        decreases n - i,
    {
        map.tile[i].tile = OverlappedTile::single(tile);
        match gm.tile[i] {
            TileKind::Wall => {
                map.tile[i].wall = Some(wall);
            },
            TileKind::Floor => {},
        }
        i += 1;
    }
    let dest_floor = if floor == 0 { FLOOR_OUTSIDE } else { floor - 1 };
    map.entrance = gm.entrance;
    let e = map.tile_index(gm.entrance);
    map.tile[e].special = SpecialTileKind::Stairs { dest_floor, kind: StairsKind::UpStairs };
    if !is_deepest_floor && gm.exit.is_some() {
        let x = map.tile_index(gm.exit.unwrap());
        map.tile[x].special = SpecialTileKind::Stairs { dest_floor: floor + 1, kind: StairsKind::DownStairs };
    }
    proof {
        assert forall|j: int| 0 <= j < map.tile@.len() implies (#[trigger] map.tile@[j]).items_ok() by {}
    }
    map
}

/// Parameters of a procedurally generated floor.
#[derive(Clone, Copy, Debug, Default)]
pub struct MapBuilder {
    pub w: u32,
    pub h: u32,
    pub floor: u32,
    pub is_deepest_floor: bool,
    pub tile: u32,
    pub wall: u32,
}

impl MapBuilder {
    pub fn new(w: u32, h: u32) -> (r: MapBuilder)
        ensures
            r.w == w,
            r.h == h,
            r.floor == 0,
            !r.is_deepest_floor,
            r.tile == 0,
            r.wall == 0,
    {
        MapBuilder { w, h, floor: 0, is_deepest_floor: false, tile: 0, wall: 0 }
    }

    /// Builds the map from what the generator produced for this builder's size.
    pub fn build(self, gm: &GeneratedMap) -> (r: GameMap)
        requires
            gm.wf(),
            gm.w == self.w,
            gm.h == self.h,
            has_down_stairs(*gm, self.is_deepest_floor) ==> self.floor < u32::MAX,
        ensures
            r.wf(),
            r.w == self.w,
            r.h == self.h,
            r.entrance == gm.entrance,
            r.charas matches Some(t) && t.len() == 0,
            forall|i: int| 0 <= i < r.tile@.len() ==> {
                let t = #[trigger] r.tile@[i];
                &&& t.tile.idx@ == seq![self.tile]
                &&& t.wall == (if gm.tile@[i] == TileKind::Wall { Some(self.wall) } else { None })
                &&& t.deco.is_none()
                &&& t.item_list.is_none()
                &&& t.chara.is_none()
                &&& t.special == stairs_at(*gm, self.floor, self.is_deepest_floor, i)
            },
    {
        generated_map_to_map(gm, self.tile, self.wall, self.floor, self.is_deepest_floor)
    }

    pub fn floor(self, floor: u32) -> (r: MapBuilder)
        ensures
            r == (MapBuilder { floor, ..self }),
    {
        let mut b = self;
        b.floor = floor;
        b
    }

    pub fn tile(self, tile: u32) -> (r: MapBuilder)
        ensures
            r == (MapBuilder { tile, ..self }),
    {
        let mut b = self;
        b.tile = tile;
        b
    }

    pub fn wall(self, wall: u32) -> (r: MapBuilder)
        ensures
            r == (MapBuilder { wall, ..self }),
    {
        let mut b = self;
        b.wall = wall;
        b
    }

    pub fn deepest_floor(self, is_deepest_floor: bool) -> (r: MapBuilder)
        ensures
            r == (MapBuilder { is_deepest_floor, ..self }),
    {
        let mut b = self;
        b.is_deepest_floor = is_deepest_floor;
        b
    }
}

} // verus!
