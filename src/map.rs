//! Maps: a grid of tiles with terrain, items, occupants and boundary rules.
use vstd::prelude::*;
use crate::ids::{CharaId, Vec2d};
use crate::item::ItemList;
use crate::chara::CharaTable;

verus! {

/// Floor number that stands for "outside the dungeon".
pub const FLOOR_OUTSIDE: u32 = 0xFFFF_FFFF;

/// A stack of terrain ids drawn with a blend pattern.
#[derive(Clone, Debug)]
pub struct OverlappedTile {
    pub idx: Vec<u32>,
    pub i_pattern: u8,
}

impl OverlappedTile {
    /// A single terrain id with no overlap.
    pub fn single(t: u32) -> (r: OverlappedTile)
        ensures
            r.idx@ == seq![t],
            r.i_pattern == 0,
    {
        let mut idx: Vec<u32> = Vec::new();
        idx.push(t);
        OverlappedTile { idx, i_pattern: 0 }
    }
}

#[derive(Clone, Copy, Debug, PartialEq, Eq, Structural)]
pub enum StairsKind {
    UpStairs,
    DownStairs,
}

#[derive(Clone, Copy, Debug, PartialEq, Eq, Structural)]
pub enum SpecialTileKind {
    Plain,
    Stairs { dest_floor: u32, kind: StairsKind },
}

#[derive(Clone, Debug)]
pub struct Tile {
    pub tile: OverlappedTile,
    pub wall: Option<u32>,
    pub deco: Option<u32>,
    pub item_list: Option<ItemList>,
    pub chara: Option<CharaId>,
    pub special: SpecialTileKind,
}

impl Tile {
    /// A tile of terrain 0 with nothing on it.
    pub fn new() -> (r: Tile)
        ensures
            r.tile.idx@ == seq![0u32],
            r.wall.is_none(),
            r.deco.is_none(),
            r.item_list.is_none(),
            r.chara.is_none(),
            r.special == SpecialTileKind::Plain,
    {
        Tile {
            tile: OverlappedTile::single(0),
            wall: None,
            deco: None,
            item_list: None,
            chara: None,
            special: SpecialTileKind::Plain,
        }
    }

    /// An item list is present only while it holds something.
    pub open spec fn items_ok(&self) -> bool {
        match self.item_list {
            Some(l) => l.wf() && l@.len() > 0,
            None => true,
        }
    }
}

/// What crossing a map edge leads to.
#[derive(Clone, Copy, Debug, PartialEq, Eq, Structural)]
pub enum BoundaryBehavior {
    Closed,
    RegionMap,
    Floor(u32),
}

#[derive(Clone, Copy, Debug, PartialEq, Eq, Structural)]
pub struct MapBoundary {
    pub n: BoundaryBehavior,
    pub s: BoundaryBehavior,
    pub e: BoundaryBehavior,
    pub w: BoundaryBehavior,
}

pub struct GameMap {
    pub w: u32,
    pub h: u32,
    /// Tiles row by row: the tile at (x, y) is at `y * w + x`.
    pub tile: Vec<Tile>,
    pub entrance: Vec2d,
    pub boundary: MapBoundary,
    /// Dormant storage of the characters on this map; absent while the map is active.
    pub charas: Option<CharaTable>,
}

pub open spec fn in_bounds(w: u32, h: u32, p: Vec2d) -> bool {
    0 <= p.x < w && 0 <= p.y < h
}

pub open spec fn index_of(w: u32, p: Vec2d) -> int {
    p.y * w + p.x
}

impl GameMap {
    pub open spec fn wf(&self) -> bool {
        &&& self.tile@.len() == self.w * self.h
        &&& self.w * self.h <= usize::MAX
        &&& forall|i: int| 0 <= i < self.tile@.len() ==> (#[trigger] self.tile@[i]).items_ok()
        &&& match self.charas { Some(t) => t.wf(), None => true }
    }

    pub open spec fn contains_pos(&self, p: Vec2d) -> bool {
        in_bounds(self.w, self.h, p)
    }

    /// The tile at `p`.
    pub open spec fn at(&self, p: Vec2d) -> Tile {
        self.tile@[index_of(self.w, p)]
    }

    pub proof fn lemma_index(w: u32, h: u32, p: Vec2d)
        requires
            in_bounds(w, h, p),
        ensures
            0 <= index_of(w, p) < w * h,
    {
        assert(0 <= p.y * w) by (nonlinear_arith)
            requires 0 <= p.y, 0 <= w;
        assert(p.y * w + p.x < w * h) by (nonlinear_arith)
            requires 0 <= p.y < h, 0 <= p.x < w;
    }

    /// Distinct positions on the map have distinct tile indices.
    pub proof fn lemma_index_injective(w: u32, h: u32, p: Vec2d, q: Vec2d)
        requires
            in_bounds(w, h, p),
            in_bounds(w, h, q),
            index_of(w, p) == index_of(w, q),
        ensures
            p == q,
    {
        assert(p.y == q.y) by (nonlinear_arith)
            requires
                p.y * w + p.x == q.y * w + q.x,
                0 <= p.x < w, 0 <= q.x < w, 0 <= p.y, 0 <= q.y;
    }

    /// Index of the tile at `p` in `tile`.
    pub fn tile_index(&self, p: Vec2d) -> (r: usize)
        requires
            self.wf(),
            self.contains_pos(p),
        ensures
            r == index_of(self.w, p),
            r < self.tile@.len(),
    {
        proof {
            Self::lemma_index(self.w, self.h, p);
        }
        (p.y as usize) * (self.w as usize) + (p.x as usize)
    }

    /// A `w` x `h` map of plain tiles, with its own empty dormant storage.
    pub fn new(w: u32, h: u32) -> (r: GameMap)
        requires
            w * h <= usize::MAX,
        ensures
            r.wf(),
            r.w == w,
            r.h == h,
            r.charas matches Some(t) && t.len() == 0,
            forall|i: int| 0 <= i < r.tile@.len() ==> (#[trigger] r.tile@[i]).wall.is_none()
                && r.tile@[i].deco.is_none() && r.tile@[i].item_list.is_none()
                && r.tile@[i].chara.is_none() && r.tile@[i].special == SpecialTileKind::Plain,
    {
        let n: usize = (w as usize) * (h as usize);
        let mut tile: Vec<Tile> = Vec::new();
        while tile.len() < n
            invariant
                tile@.len() <= n,
                forall|i: int| 0 <= i < tile@.len() ==> (#[trigger] tile@[i]).wall.is_none()
                    && tile@[i].deco.is_none() && tile@[i].item_list.is_none()
                    && tile@[i].chara.is_none() && tile@[i].special == SpecialTileKind::Plain,
            decreases n - tile@.len(),
        {
            tile.push(Tile::new());
        }
        let b = BoundaryBehavior::Closed;
        GameMap {
            w,
            h,
            tile,
            entrance: Vec2d { x: 0, y: 0 },
            boundary: MapBoundary { n: b, s: b, e: b, w: b },
            charas: Some(CharaTable::new()),
        }
    }

    /// Clears `cid` from every tile it occupies.
    pub fn remove_chara(&mut self, cid: CharaId)
        requires
            old(self).wf(),
        ensures
            final(self).wf(),
            final(self).w == old(self).w,
            final(self).h == old(self).h,
            final(self).entrance == old(self).entrance,
            final(self).boundary == old(self).boundary,
            final(self).charas == old(self).charas,
            final(self).tile@.len() == old(self).tile@.len(),
            forall|i: int| 0 <= i < final(self).tile@.len() ==> {
                let (a, b) = (#[trigger] final(self).tile@[i], old(self).tile@[i]);
                &&& a.chara == (if b.chara == Some(cid) { None } else { b.chara })
                &&& a.item_list == b.item_list
                &&& a.wall == b.wall
                &&& a.deco == b.deco
                &&& a.special == b.special
            },
    {
        let mut i: usize = 0;
        while i < self.tile.len()
            invariant
                i <= self.tile@.len(),
                self.wf(),
                self.w == old(self).w,
                self.h == old(self).h,
                self.entrance == old(self).entrance,
                self.boundary == old(self).boundary,
                self.charas == old(self).charas,
                self.tile@.len() == old(self).tile@.len(),
                forall|j: int| i <= j < self.tile@.len() ==> #[trigger] self.tile@[j] == old(self).tile@[j],
                forall|j: int| 0 <= j < i ==> {
                    let (a, b) = (#[trigger] self.tile@[j], old(self).tile@[j]);
                    &&& a.chara == (if b.chara == Some(cid) { None } else { b.chara })
                    &&& a.item_list == b.item_list
                    &&& a.wall == b.wall
                    &&& a.deco == b.deco
                    &&& a.special == b.special
                },
            decreases self.tile@.len() - i,
        {
            if self.tile[i].chara == Some(cid) {
                self.tile[i].chara = None;
            }
            i += 1;
        }
    }
}

} // verus!
