//! Regions, sites, shops and the flat table of all maps.
use vstd::prelude::*;
use crate::ids::{MapId, RegionId, SiteId, Vec2d};
use crate::item::ItemList;
use crate::map::GameMap;

verus! {

#[derive(Clone, Debug)]
pub struct Shop {
    pub items: ItemList,
}

#[derive(Clone, Debug)]
pub struct Town {
    pub shops: Vec<Shop>,
}

#[derive(Clone, Copy, Debug, PartialEq, Eq, Structural)]
pub enum SiteKind {
    Town,
    Dungeon,
    Other,
}

#[derive(Clone, Debug)]
pub enum SiteContent {
    Town { town: Town },
    Dungeon,
    Other,
}

pub struct Site {
    pub content: SiteContent,
    pub kind: SiteKind,
    pub pos: Vec2d,
    /// Number of floors added so far; floor `i` has map id `SiteMap { sid, floor: i }`.
    pub n_floors: u32,
    /// Seed that each floor was generated from, by floor.
    pub map_seeds: Vec<u64>,
}

impl Site {
    pub fn new(content: SiteContent) -> (r: Site)
        ensures
            r.n_floors == 0,
            r.content == content,
    {
        Site { content, kind: SiteKind::Other, pos: Vec2d { x: 0, y: 0 }, n_floors: 0, map_seeds: Vec::new() }
    }
}

pub struct Region {
    pub sites: Vec<Site>,
}

impl Region {
    /// Whether a site of this region stands at `pos`.
    pub fn has_site_at(&self, pos: Vec2d) -> (r: bool)
        ensures
            r <==> exists|i: int| 0 <= i < self.sites@.len() && (#[trigger] self.sites@[i]).pos == pos,
    {
        let mut i: usize = 0;
        while i < self.sites.len()
            invariant
                i <= self.sites@.len(),
                forall|j: int| 0 <= j < i ==> (#[trigger] self.sites@[j]).pos != pos,
            decreases self.sites@.len() - i,
        {
            if self.sites[i].pos == pos {
                assert(self.sites@[i as int].pos == pos);
                return true;
            }
            i += 1;
        }
        false
    }
}

/// All regions and sites, and every map of the world keyed by its id.
pub struct RegionHolder {
    pub regions: Vec<Region>,
    pub map_ids: Vec<MapId>,
    pub maps: Vec<GameMap>,
}

impl RegionHolder {
    /// `mid` names a region, or a site and one of its floors, that exists.
    pub open spec fn id_valid(&self, mid: MapId) -> bool {
        let rid = mid.spec_rid().0 as int;
        &&& 0 <= rid < self.regions@.len()
        &&& match mid {
            MapId::RegionMap { .. } => true,
            MapId::SiteMap { sid, floor } => self.site_valid(sid) && floor < self.spec_site(sid).n_floors,
        }
    }

    pub open spec fn site_valid(&self, sid: SiteId) -> bool {
        &&& sid.rid.0 < self.regions@.len()
        &&& sid.n < self.regions@[sid.rid.0 as int].sites@.len()
    }

    pub open spec fn spec_site(&self, sid: SiteId) -> Site {
        self.regions@[sid.rid.0 as int].sites@[sid.n as int]
    }

    pub open spec fn wf(&self) -> bool {
        &&& self.map_ids@.len() == self.maps@.len()
        &&& forall|i: int, j: int|
            0 <= i < j < self.map_ids@.len() ==> #[trigger] self.map_ids@[i] != #[trigger] self.map_ids@[j]
        &&& forall|i: int| 0 <= i < self.maps@.len() ==> (#[trigger] self.maps@[i]).wf()
        &&& forall|i: int| 0 <= i < self.map_ids@.len() ==> self.id_valid(#[trigger] self.map_ids@[i])
    }

    pub open spec fn has_map(&self, mid: MapId) -> bool {
        exists|i: int| 0 <= i < self.map_ids@.len() && #[trigger] self.map_ids@[i] == mid
    }

    pub open spec fn map_index(&self, mid: MapId) -> int {
        choose|i: int| 0 <= i < self.map_ids@.len() && #[trigger] self.map_ids@[i] == mid
    }

    /// The map with id `mid`.
    pub open spec fn spec_map(&self, mid: MapId) -> GameMap {
        self.maps@[self.map_index(mid)]
    }

    pub fn new() -> (r: RegionHolder)
        ensures
            r.wf(),
            r.regions@.len() == 0,
            r.maps@.len() == 0,
            forall|m: MapId| !r.has_map(m),
    {
        RegionHolder { regions: Vec::new(), map_ids: Vec::new(), maps: Vec::new() }
    }

    pub fn find_map(&self, mid: MapId) -> (r: Option<usize>)
        requires
            self.wf(),
        ensures
            r.is_none() <==> !self.has_map(mid),
            r matches Some(i) ==> i == self.map_index(mid) && i < self.maps@.len()
                && self.map_ids@[i as int] == mid,
    {
        let mut i: usize = 0;
        while i < self.map_ids.len()
            invariant
                self.wf(),
                i <= self.map_ids@.len(),
                forall|j: int| 0 <= j < i ==> #[trigger] self.map_ids@[j] != mid,
            decreases self.map_ids@.len() - i,
        {
            if self.map_ids[i] == mid {
                proof {
                    let k = self.map_index(mid);
                    assert(self.map_ids@[i as int] == mid);
                    assert(0 <= k < self.map_ids@.len() && self.map_ids@[k] == mid);
                    if k < i {
                        assert(self.map_ids@[k] != self.map_ids@[i as int]);
                    } else if k > i {
                        assert(self.map_ids@[i as int] != self.map_ids@[k]);
                    }
                }
                return Some(i);
            }
            i += 1;
        }
        None
    }

    pub fn get_map(&self, mid: MapId) -> (r: &GameMap)
        requires
            self.wf(),
            self.has_map(mid),
        ensures
            *r == self.spec_map(mid),
    {
        let i = self.find_map(mid).unwrap();
        &self.maps[i]
    }

    pub fn get_map_mut(&mut self, mid: MapId) -> (r: &mut GameMap)
        requires
            old(self).wf(),
            old(self).has_map(mid),
        ensures
            *r == old(self).spec_map(mid),
            final(self).maps@ == old(self).maps@.update(old(self).map_index(mid), *final(r)),
            final(self).map_ids == old(self).map_ids,
            final(self).regions == old(self).regions,
    {
        let i = self.find_map(mid).unwrap();
        &mut self.maps[i]
    }

    pub fn get(&self, rid: RegionId) -> (r: &Region)
        requires
            rid.0 < self.regions@.len(),
        ensures
            *r == self.regions@[rid.0 as int],
    {
        &self.regions[rid.0 as usize]
    }

    pub fn get_mut(&mut self, rid: RegionId) -> (r: &mut Region)
        requires
            rid.0 < old(self).regions@.len(),
        ensures
            *r == old(self).regions@[rid.0 as int],
            final(self).regions@ == old(self).regions@.update(rid.0 as int, *final(r)),
            final(self).map_ids == old(self).map_ids,
            final(self).maps == old(self).maps,
    {
        &mut self.regions[rid.0 as usize]
    }

    pub fn get_site(&self, sid: SiteId) -> (r: &Site)
        requires
            self.site_valid(sid),
        ensures
            *r == self.spec_site(sid),
    {
        &self.regions[sid.rid.0 as usize].sites[sid.n as usize]
    }
}

} // verus!
