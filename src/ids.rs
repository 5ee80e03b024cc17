//! Identifiers: every cross-entity reference in the world is a plain value.
use vstd::prelude::*;

verus! {

/// A position on a map grid.
#[derive(Clone, Copy, Debug, PartialEq, Eq, Structural, Hash)]
pub struct Vec2d {
    pub x: i32,
    pub y: i32,
}

impl Vec2d {
    pub fn new(x: i32, y: i32) -> (r: Vec2d)
        ensures
            r.x == x,
            r.y == y,
    {
        Vec2d { x, y }
    }
}

#[derive(Clone, Copy, Debug, PartialEq, Eq, Structural, Hash)]
pub struct RegionId(pub u32);

#[derive(Clone, Copy, Debug, PartialEq, Eq, Structural, Hash)]
pub struct SiteId {
    pub rid: RegionId,
    pub n: u32,
}

/// Either the overview map of a region, or one floor of a site.
#[derive(Clone, Copy, Debug, PartialEq, Eq, Structural, Hash)]
pub enum MapId {
    RegionMap { rid: RegionId },
    SiteMap { sid: SiteId, floor: u32 },
}

impl MapId {
    pub open spec fn spec_rid(self) -> RegionId {
        match self {
            MapId::RegionMap { rid } => rid,
            MapId::SiteMap { sid, .. } => sid.rid,
        }
    }

    /// The region this map belongs to.
    pub fn rid(self) -> (r: RegionId)
        ensures
            r == self.spec_rid(),
    {
        match self {
            MapId::RegionMap { rid } => rid,
            MapId::SiteMap { sid, .. } => sid.rid,
        }
    }
}

impl Default for MapId {
    fn default() -> (r: MapId)
        ensures
            r == (MapId::RegionMap { rid: RegionId(0) }),
    {
        MapId::RegionMap { rid: RegionId(0) }
    }
}

#[derive(Clone, Copy, Debug, PartialEq, Eq, Structural, Hash)]
pub enum CharaId {
    /// The protagonist.
    Player,
    /// A character bound to a site, such as a shopkeeper.
    OnSite { sid: SiteId, n: u32 },
    /// A character standing on a map.
    OnMap { mid: MapId, n: u32 },
}

impl CharaId {
    pub fn on_map(mid: MapId, n: u32) -> (r: CharaId)
        ensures
            r == (CharaId::OnMap { mid, n }),
    {
        CharaId::OnMap { mid, n }
    }
}

#[derive(Clone, Copy, Debug, PartialEq, Eq, Structural, Hash)]
pub enum CharaKind {
    Player,
    OnSite,
    OnMap,
}

} // verus!
