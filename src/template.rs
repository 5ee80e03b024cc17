//! Building maps from a static template.
use vstd::prelude::*;
use crate::map::{BoundaryBehavior, GameMap, MapBoundary, OverlappedTile};

verus! {

/// One template tile: indices into the template's terrain table, and a blend pattern.
#[derive(Clone, Debug)]
pub struct TileTemplate {
    pub idx: Vec<u32>,
    pub i_pattern: u8,
}

/// What a template declares for crossing one edge.
#[derive(Clone, Copy, Debug, PartialEq, Eq, Structural)]
pub enum MapTemplateBoundaryBehavior {
    Closed,
    NextFloor,
    PrevFloor,
    RegionMap,
}

#[derive(Clone, Copy, Debug, PartialEq, Eq, Structural)]
pub struct MapTemplateBoundary {
    pub n: MapTemplateBoundaryBehavior,
    pub s: MapTemplateBoundaryBehavior,
    pub e: MapTemplateBoundaryBehavior,
    pub w: MapTemplateBoundaryBehavior,
}

/// A map template; its grids are row by row, and its tables give the global
/// terrain, wall and decoration ids that the grids' indices stand for.
#[derive(Clone, Debug)]
pub struct MapTemplateObject {
    pub w: u32,
    pub h: u32,
    pub tile: Vec<TileTemplate>,
    pub tile_table: Vec<u32>,
    pub wall: Vec<Option<u32>>,
    pub wall_table: Vec<u32>,
    pub deco: Vec<Option<u32>>,
    pub deco_table: Vec<u32>,
    pub boundary: MapTemplateBoundary,
}

/// The global id that a table index resolves to, if any.
pub open spec fn resolve_opt(i: Option<u32>, table: Seq<u32>) -> Option<u32> {
    match i {
        Some(k) => Some(table[k as int]),
        None => None,
    }
}

impl MapTemplateObject {
    pub open spec fn wf(&self) -> bool {
        &&& self.w * self.h <= usize::MAX
        &&& self.tile@.len() == self.w * self.h
        &&& self.wall@.len() == self.w * self.h
        &&& self.deco@.len() == self.w * self.h
        &&& forall|i: int, j: int| 0 <= i < self.tile@.len() && 0 <= j < self.tile@[i].idx@.len()
            ==> #[trigger] self.tile@[i].idx@[j] < self.tile_table@.len()
        &&& forall|i: int| 0 <= i < self.wall@.len() ==> (#[trigger] self.wall@[i] matches Some(k) ==> k < self.wall_table@.len())
        &&& forall|i: int| 0 <= i < self.deco@.len() ==> (#[trigger] self.deco@[i] matches Some(k) ==> k < self.deco_table@.len())
    }
}

fn resolve_idx(i: Option<u32>, table: &Vec<u32>) -> (r: Option<u32>)
    requires
        i matches Some(k) ==> k < table@.len(),
    ensures
        r == resolve_opt(i, table@),
{
    match i {
        Some(k) => Some(table[k as usize]),
        None => None,
    }
}

/// A map whose tiles, walls and decorations are the template's, resolved
/// through its tables.
pub fn create_terrain(t: &MapTemplateObject) -> (r: GameMap)
    requires
        t.wf(),
    ensures
        r.wf(),
        r.w == t.w,
        r.h == t.h,
        r.charas matches Some(c) && c.len() == 0,
        forall|i: int| 0 <= i < r.tile@.len() ==> {
            let x = #[trigger] r.tile@[i];
            &&& x.tile.idx@ == t.tile@[i].idx@.map_values(|k: u32| t.tile_table@[k as int])
            &&& x.tile.i_pattern == t.tile@[i].i_pattern
            &&& x.wall == resolve_opt(t.wall@[i], t.wall_table@)
            &&& x.deco == resolve_opt(t.deco@[i], t.deco_table@)
            &&& x.item_list.is_none()
            &&& x.chara.is_none()
        },
{
    let mut map = GameMap::new(t.w, t.h);
    let n = map.tile.len();
    let mut i: usize = 0;
    while i < n
        invariant
            n == map.tile@.len(),
            n == t.tile@.len(),
            t.wf(),
            i <= n,
            map.wf(),
            map.w == t.w,
            map.h == t.h,
            map.charas matches Some(c) && c.len() == 0,
            forall|j: int| 0 <= j < n ==> {
                let x = #[trigger] map.tile@[j];
                &&& j < i ==> x.tile.idx@ == t.tile@[j].idx@.map_values(|k: u32| t.tile_table@[k as int])
                &&& j < i ==> x.tile.i_pattern == t.tile@[j].i_pattern
                &&& j < i ==> x.wall == resolve_opt(t.wall@[j], t.wall_table@)
                &&& j < i ==> x.deco == resolve_opt(t.deco@[j], t.deco_table@)
                &&& x.item_list.is_none()
                &&& x.chara.is_none()
            },
        decreases n - i,
    {
        let c = &t.tile[i];
        let mut idx: Vec<u32> = Vec::new();
        let mut k: usize = 0;
        while k < c.idx.len()
            invariant
                t.wf(),
                i < t.tile@.len(),
                *c == t.tile@[i as int],
                k <= c.idx@.len(),
                idx@ == c.idx@.take(k as int).map_values(|q: u32| t.tile_table@[q as int]),
            decreases c.idx@.len() - k,
        {
            assert(c.idx@[k as int] < t.tile_table@.len());
            idx.push(t.tile_table[c.idx[k] as usize]);
            k += 1;
            assert(c.idx@.take(k as int).drop_last() =~= c.idx@.take(k - 1));
            assert(idx@ =~= c.idx@.take(k as int).map_values(|q: u32| t.tile_table@[q as int]));
        }
        assert(c.idx@.take(k as int) =~= c.idx@);
        map.tile[i].tile = OverlappedTile { idx, i_pattern: c.i_pattern };
        assert(t.wall@[i as int] matches Some(k) ==> k < t.wall_table@.len());
        assert(t.deco@[i as int] matches Some(k) ==> k < t.deco_table@.len());
        map.tile[i].wall = resolve_idx(t.wall[i], &t.wall_table);
        map.tile[i].deco = resolve_idx(t.deco[i], &t.deco_table);
        i += 1;
    }
    proof {
        assert forall|j: int| 0 <= j < map.tile@.len() implies (#[trigger] map.tile@[j]).items_ok() by {}
    }
    map
}

/// The behaviour of an edge declared `b` on floor `floor`.
pub open spec fn boundary_of(b: MapTemplateBoundaryBehavior, floor: u32) -> BoundaryBehavior {
    match b {
        MapTemplateBoundaryBehavior::Closed => BoundaryBehavior::Closed,
        MapTemplateBoundaryBehavior::NextFloor => BoundaryBehavior::Floor((floor + 1) as u32),
        MapTemplateBoundaryBehavior::PrevFloor => if floor == 0 {
            BoundaryBehavior::RegionMap
        } else {
            BoundaryBehavior::Floor((floor - 1) as u32)
        },
        MapTemplateBoundaryBehavior::RegionMap => BoundaryBehavior::RegionMap,
    }
}

fn boundary_for(b: MapTemplateBoundaryBehavior, next_floor: BoundaryBehavior, prev_floor: BoundaryBehavior) -> (r: BoundaryBehavior)
    ensures
        b == MapTemplateBoundaryBehavior::Closed ==> r == BoundaryBehavior::Closed,
        b == MapTemplateBoundaryBehavior::NextFloor ==> r == next_floor,
        b == MapTemplateBoundaryBehavior::PrevFloor ==> r == prev_floor,
        b == MapTemplateBoundaryBehavior::RegionMap ==> r == BoundaryBehavior::RegionMap,
{
    match b {
        MapTemplateBoundaryBehavior::Closed => BoundaryBehavior::Closed,
        MapTemplateBoundaryBehavior::NextFloor => next_floor,
        MapTemplateBoundaryBehavior::PrevFloor => prev_floor,
        MapTemplateBoundaryBehavior::RegionMap => BoundaryBehavior::RegionMap,
    }
}

/// Sets each edge of `map` from the template's declaration for floor `floor`.
pub fn set_boundary(map: &mut GameMap, t: &MapTemplateObject, floor: u32)
    requires
        floor < u32::MAX,
    ensures
        final(map).boundary == (MapBoundary {
            n: boundary_of(t.boundary.n, floor),
            s: boundary_of(t.boundary.s, floor),
            e: boundary_of(t.boundary.e, floor),
            w: boundary_of(t.boundary.w, floor),
        }),
        final(map).w == old(map).w,
        final(map).h == old(map).h,
        final(map).tile == old(map).tile,
        final(map).entrance == old(map).entrance,
        final(map).charas == old(map).charas,
{
    let next_floor = BoundaryBehavior::Floor(floor + 1);
    let prev_floor = if floor == 0 { BoundaryBehavior::RegionMap } else { BoundaryBehavior::Floor(floor - 1) };
    map.boundary.n = boundary_for(t.boundary.n, next_floor, prev_floor);
    map.boundary.s = boundary_for(t.boundary.s, next_floor, prev_floor);
    map.boundary.e = boundary_for(t.boundary.e, next_floor, prev_floor);
    map.boundary.w = boundary_for(t.boundary.w, next_floor, prev_floor);
}

/// The map that template `t` describes, as the ground floor.
pub fn from_template(t: &MapTemplateObject) -> (r: GameMap)
    requires
        t.wf(),
    ensures
        r.wf(),
        r.w == t.w,
        r.h == t.h,
        r.charas matches Some(c) && c.len() == 0,
        r.boundary == (MapBoundary {
            n: boundary_of(t.boundary.n, 0),
            s: boundary_of(t.boundary.s, 0),
            e: boundary_of(t.boundary.e, 0),
            w: boundary_of(t.boundary.w, 0),
        }),
        forall|i: int| 0 <= i < r.tile@.len() ==> {
            let x = #[trigger] r.tile@[i];
            &&& x.tile.idx@ == t.tile@[i].idx@.map_values(|k: u32| t.tile_table@[k as int])
            &&& x.tile.i_pattern == t.tile@[i].i_pattern
            &&& x.wall == resolve_opt(t.wall@[i], t.wall_table@)
            &&& x.deco == resolve_opt(t.deco@[i], t.deco_table@)
            &&& x.item_list.is_none()
            &&& x.chara.is_none()
        },
{
    let mut map = create_terrain(t);
    set_boundary(&mut map, t, 0);
    map
}

} // verus!
