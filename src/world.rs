//! The world aggregate: characters, regions and maps, with one active map.
use vstd::prelude::*;
use crate::ids::{CharaId, CharaKind, MapId, RegionId, SiteId, Vec2d};
use crate::chara::{Chara, CharaTable};
use crate::map::GameMap;
use crate::site::{Region, RegionHolder, Site, SiteKind};

verus! {

/// The character store that is always at hand: the player and site-bound
/// characters in `fixed`, the characters of the active map in `on_map`.
pub struct CharaHolder {
    pub fixed: CharaTable,
    pub on_map: CharaTable,
}

pub open spec fn is_on_map_of(c: CharaId, mid: MapId) -> bool {
    c matches CharaId::OnMap { mid: m, .. } && m == mid
}

impl CharaHolder {
    pub open spec fn wf(&self, current: MapId) -> bool {
        &&& self.fixed.wf()
        &&& self.on_map.wf()
        &&& forall|c: CharaId| #[trigger] self.fixed.contains(c) ==> !(c is OnMap)
        &&& forall|c: CharaId| #[trigger] self.on_map.contains(c) ==> is_on_map_of(c, current)
    }

    pub open spec fn contains(&self, cid: CharaId) -> bool {
        if cid is OnMap { self.on_map.contains(cid) } else { self.fixed.contains(cid) }
    }

    pub open spec fn spec_get(&self, cid: CharaId) -> Chara {
        if cid is OnMap { self.on_map.spec_get(cid) } else { self.fixed.spec_get(cid) }
    }

    pub fn get(&self, cid: CharaId) -> (r: &Chara)
        requires
            self.fixed.wf(),
            self.on_map.wf(),
            self.contains(cid),
        ensures
            *r == self.spec_get(cid),
    {
        match cid {
            CharaId::OnMap { .. } => self.on_map.get(cid),
            _ => self.fixed.get(cid),
        }
    }

    pub fn get_mut(&mut self, cid: CharaId) -> (r: &mut Chara)
        requires
            old(self).fixed.wf(),
            old(self).on_map.wf(),
            old(self).contains(cid),
        ensures
            *r == old(self).spec_get(cid),
            cid is OnMap ==> final(self).fixed == old(self).fixed && final(self).on_map.entries@
                == old(self).on_map.entries@.update(old(self).on_map.index_of(cid), (cid, *final(r))),
            !(cid is OnMap) ==> final(self).on_map == old(self).on_map && final(self).fixed.entries@
                == old(self).fixed.entries@.update(old(self).fixed.index_of(cid), (cid, *final(r))),
    {
        match cid {
            CharaId::OnMap { .. } => self.on_map.get_mut(cid),
            _ => self.fixed.get_mut(cid),
        }
    }
}

/// All data of one game world.
pub struct GameData {
    pub chara: CharaHolder,
    pub region: RegionHolder,
    pub current_mapid: MapId,
}

/// `a` and `b` agree on everything but their dormant character storage.
pub open spec fn same_but_charas(a: GameMap, b: GameMap) -> bool {
    &&& a.w == b.w
    &&& a.h == b.h
    &&& a.tile == b.tile
    &&& a.entrance == b.entrance
    &&& a.boundary == b.boundary
}

/// `after` is `before` with `mid` made the active map: the outgoing map gets
/// the active characters as its dormant storage, and `mid`'s dormant storage
/// becomes the active one.
pub open spec fn swapped(before: GameData, after: GameData, mid: MapId) -> bool {
    let prev = before.spec_current_mapid();
    &&& after.spec_current_mapid() == mid
    &&& after.chara.fixed == before.chara.fixed
    &&& Some(after.chara.on_map) == before.region.spec_map(mid).charas
    &&& after.region.map_ids == before.region.map_ids
    &&& after.region.regions == before.region.regions
    &&& after.region.maps@.len() == before.region.maps@.len()
    &&& forall|i: int| 0 <= i < after.region.maps@.len() ==> {
        let (a, b, id) = (#[trigger] after.region.maps@[i], before.region.maps@[i], before.region.map_ids@[i]);
        &&& same_but_charas(a, b)
        &&& a.charas == (if id == mid { None } else if id == prev { Some(before.chara.on_map) } else { b.charas })
    }
}

/// Switching to another map and back restores which characters are active
/// and which are held dormant by every map.
pub proof fn lemma_swap_round_trip(a: GameData, b: GameData, c: GameData, mid: MapId)
    requires
        a.wf(),
        a.is_active(),
        swapped(a, b, mid),
        swapped(b, c, a.spec_current_mapid()),
    ensures
        c.spec_current_mapid() == a.spec_current_mapid(),
        c.chara == a.chara,
        c.region.map_ids == a.region.map_ids,
        forall|m: MapId| c.region.has_map(m) ==> #[trigger] c.region.spec_map(m).charas == a.region.spec_map(m).charas,
{
    let am = a.spec_current_mapid();
    let ai = a.region.map_index(am);
    assert(c.region.map_index(am) == ai);
    assert(a.region.map_ids@[ai] == am);
    assert(c.chara.on_map == a.chara.on_map);
    assert forall|m: MapId| c.region.has_map(m) implies #[trigger] c.region.spec_map(m).charas == a.region.spec_map(m).charas by {
        let k = a.region.map_index(m);
        assert(b.region.map_index(m) == k);
        assert(c.region.map_index(m) == k);
        if m == mid && m != am {
            assert(b.region.maps@[k].charas is None);
        }
    }
}

/// Once a map is active, it is the only map without dormant storage.
pub proof fn lemma_single_active_map(g: GameData, m: MapId)
    requires
        g.wf(),
        g.is_active(),
        g.region.has_map(m),
    ensures
        g.region.spec_map(m).charas is None <==> m == g.spec_current_mapid(),
{
    let k = g.region.map_index(m);
    assert(g.region.map_ids@[k] == m);
    assert(g.region.maps@[k] == g.region.spec_map(m));
}

/// The characters standing on any one map hold distinct slots.
pub proof fn lemma_onmap_slots_distinct(g: GameData, mid: MapId, a: CharaId, b: CharaId)
    requires
        g.wf(),
        g.region.has_map(mid),
        g.onmap_table(mid).contains(a),
        g.onmap_table(mid).contains(b),
        g.onmap_table(mid).index_of(a) != g.onmap_table(mid).index_of(b),
    ensures
        a != b,
{
    let k = g.region.map_index(mid);
    assert(g.region.maps@[k].wf());
    let t = g.onmap_table(mid);
    let (i, j) = (t.index_of(a), t.index_of(b));
    assert(t.entries@[i].0 == a && t.entries@[j].0 == b);
    if i < j {
        assert(t.entries@[i].0 != t.entries@[j].0);
    } else {
        assert(t.entries@[j].0 != t.entries@[i].0);
    }
}

impl GameData {
    pub open spec fn spec_current_mapid(&self) -> MapId {
        self.current_mapid
    }

    /// The invariant of the world.
    pub open spec fn wf(&self) -> bool {
        let cur = self.spec_current_mapid();
        &&& self.region.wf()
        &&& self.chara.wf(cur)
        &&& forall|i: int| 0 <= i < self.region.maps@.len() ==>
            match (#[trigger] self.region.maps@[i]).charas {
                None => self.region.map_ids@[i] == cur,
                Some(t) => forall|c: CharaId| #[trigger] t.contains(c) ==> is_on_map_of(c, self.region.map_ids@[i]),
            }
    }

    /// The current map exists and its characters are the active ones.
    pub open spec fn is_active(&self) -> bool {
        &&& self.region.has_map(self.spec_current_mapid())
        &&& self.region.spec_map(self.spec_current_mapid()).charas is None
    }

    /// The table that holds the characters standing on `mid`.
    pub open spec fn onmap_table(&self, mid: MapId) -> CharaTable {
        if mid == self.spec_current_mapid() {
            self.chara.on_map
        } else {
            self.region.spec_map(mid).charas.unwrap()
        }
    }

    /// A world with no regions, maps or characters.
    pub fn empty() -> (r: GameData)
        ensures
            r.wf(),
            r.spec_current_mapid() == (MapId::RegionMap { rid: RegionId(0) }),
            forall|m: MapId| !r.region.has_map(m),
            r.region.maps@.len() == 0,
            r.region.regions@.len() == 0,
            r.chara.on_map.len() == 0,
            forall|c: CharaId| !r.chara.fixed.contains(c) && !r.chara.on_map.contains(c),
    {
        GameData {
            chara: CharaHolder { fixed: CharaTable::new(), on_map: CharaTable::new() },
            region: RegionHolder::new(),
            current_mapid: MapId::default(),
        }
    }

    pub fn get_current_mapid(&self) -> (r: MapId)
        ensures
            r == self.spec_current_mapid(),
    {
        self.current_mapid
    }

    pub fn get_current_map(&self) -> (r: &GameMap)
        requires
            self.wf(),
            self.region.has_map(self.spec_current_mapid()),
        ensures
            *r == self.region.spec_map(self.spec_current_mapid()),
    {
        self.region.get_map(self.current_mapid)
    }

    pub fn get_current_map_mut(&mut self) -> (r: &mut GameMap)
        requires
            old(self).wf(),
            old(self).region.has_map(old(self).spec_current_mapid()),
        ensures
            *r == old(self).region.spec_map(old(self).spec_current_mapid()),
            final(self).region.maps@ == old(self).region.maps@.update(
                old(self).region.map_index(old(self).spec_current_mapid()),
                *final(r),
            ),
            final(self).region.map_ids == old(self).region.map_ids,
            final(self).region.regions == old(self).region.regions,
            final(self).chara == old(self).chara,
            final(self).spec_current_mapid() == old(self).spec_current_mapid(),
    {
        self.region.get_map_mut(self.current_mapid)
    }

    pub fn get_current_region_id(&self) -> (r: RegionId)
        ensures
            r == self.spec_current_mapid().spec_rid(),
    {
        let mapid = self.get_current_mapid();
        mapid.rid()
    }

    pub fn get_current_region(&self) -> (r: &Region)
        requires
            self.spec_current_mapid().spec_rid().0 < self.region.regions@.len(),
        ensures
            *r == self.region.regions@[self.spec_current_mapid().spec_rid().0 as int],
    {
        self.region.get(self.current_mapid.rid())
    }

    pub fn get_current_region_mut(&mut self) -> (r: &mut Region)
        requires
            old(self).spec_current_mapid().spec_rid().0 < old(self).region.regions@.len(),
        ensures
            *r == old(self).region.regions@[old(self).spec_current_mapid().spec_rid().0 as int],
            final(self).region.regions@ == old(self).region.regions@.update(
                old(self).spec_current_mapid().spec_rid().0 as int,
                *final(r),
            ),
            final(self).region.maps == old(self).region.maps,
            final(self).region.map_ids == old(self).region.map_ids,
            final(self).chara == old(self).chara,
            final(self).spec_current_mapid() == old(self).spec_current_mapid(),
    {
        self.region.get_mut(self.current_mapid.rid())
    }

    /// Makes `mid` the active map (see `swapped`).
    pub fn set_current_mapid(&mut self, mid: MapId)
        requires
            old(self).wf(),
            old(self).is_active(),
            old(self).region.has_map(mid),
            mid != old(self).spec_current_mapid(),
        ensures
            final(self).wf(),
            final(self).is_active(),
            swapped(*old(self), *final(self), mid),
            forall|m: MapId| #[trigger] final(self).region.has_map(m) ==> (final(self).region.spec_map(m).charas is None <==> m == mid),
    {
        let ghost g0 = *self;
        let ghost prev = self.current_mapid;
        let ghost ni = self.region.map_index(mid);
        let ghost pi = self.region.map_index(prev);
        let next = self.region.get_map_mut(mid).charas.take().unwrap();
        let mut prev_charas = next;
        core::mem::swap(&mut self.chara.on_map, &mut prev_charas);
        let cur = self.current_mapid;
        self.region.get_map_mut(cur).charas = Some(prev_charas);
        self.current_mapid = mid;
        proof {
            assert(self.region.map_index(mid) == ni);
            assert(self.region.map_index(prev) == pi);
            assert(ni != pi);
            assert(self.region.map_ids@[ni] == mid);
            assert(swapped(g0, *self, mid));
            assert forall|c: CharaId| #[trigger] self.chara.on_map.contains(c) implies is_on_map_of(c, mid) by {
                assert(g0.region.maps@[ni].charas == Some(self.chara.on_map));
            }
            assert forall|i: int| 0 <= i < self.region.maps@.len() implies (#[trigger] self.region.maps@[i]).wf() by {
                assert(g0.region.maps@[i].wf());
            }
            assert(self.wf());
            assert forall|m: MapId| #[trigger] self.region.has_map(m) implies (self.region.spec_map(m).charas is None <==> m == mid) by {
                lemma_single_active_map(*self, m);
            }
        }
    }

    /// Makes `mid` the active map of a world that has none yet.
    pub fn set_initial_mapid(&mut self, mid: MapId)
        requires
            old(self).wf(),
            old(self).region.has_map(mid),
            old(self).chara.on_map.len() == 0,
            forall|i: int| 0 <= i < old(self).region.maps@.len() ==> (#[trigger] old(self).region.maps@[i]).charas is Some,
        ensures
            final(self).wf(),
            final(self).is_active(),
            final(self).spec_current_mapid() == mid,
            forall|m: MapId| #[trigger] final(self).region.has_map(m) ==> (final(self).region.spec_map(m).charas is None <==> m == mid),
            final(self).chara.fixed == old(self).chara.fixed,
            Some(final(self).chara.on_map) == old(self).region.spec_map(mid).charas,
            final(self).region.map_ids == old(self).region.map_ids,
            final(self).region.regions == old(self).region.regions,
            final(self).region.maps@ == old(self).region.maps@.update(
                old(self).region.map_index(mid),
                GameMap { charas: None, ..old(self).region.spec_map(mid) },
            ),
    {
        let ghost g0 = *self;
        let ghost ni = self.region.map_index(mid);
        let charas = self.region.get_map_mut(mid).charas.take().unwrap();
        self.chara.on_map = charas;
        self.current_mapid = mid;
        proof {
            assert(self.region.map_index(mid) == ni);
            assert forall|c: CharaId| #[trigger] self.chara.on_map.contains(c) implies is_on_map_of(c, mid) by {
                assert(g0.region.maps@[ni].charas == Some(self.chara.on_map));
            }
            assert forall|i: int| 0 <= i < self.region.maps@.len() implies (#[trigger] self.region.maps@[i]).wf() by {
                assert(g0.region.maps@[i].wf());
            }
            assert(self.region.maps@[ni] =~= GameMap { charas: None, ..g0.region.spec_map(mid) });
            assert(self.wf());
            assert forall|m: MapId| #[trigger] self.region.has_map(m) implies (self.region.spec_map(m).charas is None <==> m == mid) by {
                lemma_single_active_map(*self, m);
            }
        }
    }

    /// Adds a region whose overview map is `map`; the map starts dormant.
    pub fn add_region(&mut self, map: GameMap) -> (r: RegionId)
        requires
            old(self).wf(),
            old(self).region.regions@.len() < u32::MAX,
            map.wf(),
            map.charas matches Some(t) && t.len() == 0,
        ensures
            final(self).wf(),
            r.0 == old(self).region.regions@.len(),
            final(self).region.regions@.len() == old(self).region.regions@.len() + 1,
            final(self).region.regions@[r.0 as int].sites@.len() == 0,
            final(self).region.map_ids@ == old(self).region.map_ids@.push(MapId::RegionMap { rid: r }),
            final(self).region.maps@ == old(self).region.maps@.push(map),
            final(self).region.has_map(MapId::RegionMap { rid: r }),
            final(self).region.spec_map(MapId::RegionMap { rid: r }) == map,
            final(self).chara == old(self).chara,
            final(self).spec_current_mapid() == old(self).spec_current_mapid(),
            forall|m: MapId| #[trigger] old(self).region.has_map(m) ==> final(self).region.has_map(m)
                && final(self).region.spec_map(m) == old(self).region.spec_map(m),
    {
        let ghost g0 = *self;
        let rid = RegionId(self.region.regions.len() as u32);
        let mid = MapId::RegionMap { rid };
        proof {
            assert forall|i: int| 0 <= i < g0.region.map_ids@.len() implies #[trigger] g0.region.map_ids@[i] != mid by {
                assert(g0.region.id_valid(g0.region.map_ids@[i]));
            }
        }
        self.region.regions.push(Region { sites: Vec::new() });
        self.region.map_ids.push(mid);
        self.region.maps.push(map);
        proof {
            let n = self.region.map_ids@.len() - 1;
            assert(self.region.map_ids@[n] == mid);
            assert(self.region.map_index(mid) == n);
            assert forall|i: int| 0 <= i < self.region.map_ids@.len() implies self.region.id_valid(#[trigger] self.region.map_ids@[i]) by {
                if i < n {
                    assert(g0.region.id_valid(g0.region.map_ids@[i]));
                }
            }
            assert forall|m: MapId| #[trigger] g0.region.has_map(m) implies self.region.has_map(m)
                && self.region.spec_map(m) == g0.region.spec_map(m) by {
                let k = g0.region.map_index(m);
                assert(self.region.map_ids@[k] == m);
                assert(self.region.map_index(m) == k);
            }
        }
        rid
    }

    /// Adds `site` to region `rid` at `pos`; `None` when a site already stands there.
    pub fn add_site(&mut self, site: Site, kind: SiteKind, rid: RegionId, pos: Vec2d) -> (r: Option<SiteId>)
        requires
            old(self).wf(),
            rid.0 < old(self).region.regions@.len(),
            old(self).region.regions@[rid.0 as int].sites@.len() < u32::MAX,
            site.n_floors == 0,
        ensures
            final(self).wf(),
            final(self).chara == old(self).chara,
            final(self).spec_current_mapid() == old(self).spec_current_mapid(),
            final(self).region.map_ids == old(self).region.map_ids,
            final(self).region.maps == old(self).region.maps,
            r.is_none() <==> exists|i: int| 0 <= i < old(self).region.regions@[rid.0 as int].sites@.len()
                && (#[trigger] old(self).region.regions@[rid.0 as int].sites@[i]).pos == pos,
            r.is_none() ==> final(self).region.regions == old(self).region.regions,
            r matches Some(sid) ==> sid.rid == rid && sid.n == old(self).region.regions@[rid.0 as int].sites@.len()
                && final(self).region.site_valid(sid)
                && final(self).region.spec_site(sid) == (Site { kind, pos, ..site }),
    {
        let ghost g0 = *self;
        if self.region.get(rid).has_site_at(pos) {
            return None;
        }
        let region = self.region.get_mut(rid);
        let n = region.sites.len() as u32;
        region.sites.push(Site { kind, pos, ..site });
        proof {
            assert forall|k: int| 0 <= k < self.region.map_ids@.len() implies self.region.id_valid(#[trigger] self.region.map_ids@[k]) by {
                assert(g0.region.id_valid(g0.region.map_ids@[k]));
                let m = self.region.map_ids@[k];
                if let MapId::SiteMap { sid, floor } = m {
                    if sid.rid == rid {
                        assert(self.region.regions@[rid.0 as int].sites@[sid.n as int] == g0.region.regions@[rid.0 as int].sites@[sid.n as int]);
                    }
                }
            }
        }
        Some(SiteId { rid, n })
    }

    /// Appends `map` as the next floor of site `sid`; the map starts dormant.
    pub fn add_map(&mut self, map: GameMap, sid: SiteId, map_random_id: u64) -> (r: MapId)
        requires
            old(self).wf(),
            old(self).region.site_valid(sid),
            old(self).region.spec_site(sid).n_floors < u32::MAX,
            map.wf(),
            map.charas matches Some(t) && t.len() == 0,
        ensures
            final(self).wf(),
            r == (MapId::SiteMap { sid, floor: old(self).region.spec_site(sid).n_floors }),
            final(self).region.spec_site(sid).n_floors == old(self).region.spec_site(sid).n_floors + 1,
            final(self).region.map_ids@ == old(self).region.map_ids@.push(r),
            final(self).region.maps@ == old(self).region.maps@.push(map),
            final(self).region.has_map(r),
            final(self).region.spec_map(r) == map,
            final(self).chara == old(self).chara,
            final(self).spec_current_mapid() == old(self).spec_current_mapid(),
            forall|m: MapId| #[trigger] old(self).region.has_map(m) ==> final(self).region.has_map(m)
                && final(self).region.spec_map(m) == old(self).region.spec_map(m),
    {
        let ghost g0 = *self;
        let ri = sid.rid.0 as usize;
        let si = sid.n as usize;
        let floor = self.region.regions[ri].sites[si].n_floors;
        self.region.regions[ri].sites[si].n_floors = floor + 1;
        self.region.regions[ri].sites[si].map_seeds.push(map_random_id);
        let mid = MapId::SiteMap { sid, floor };
        proof {
            assert forall|i: int| 0 <= i < g0.region.map_ids@.len() implies #[trigger] g0.region.map_ids@[i] != mid by {
                assert(g0.region.id_valid(g0.region.map_ids@[i]));
            }
        }
        self.region.map_ids.push(mid);
        self.region.maps.push(map);
        proof {
            let n = self.region.map_ids@.len() - 1;
            assert(self.region.map_ids@[n] == mid);
            assert(self.region.map_index(mid) == n);
            assert forall|i: int| 0 <= i < self.region.map_ids@.len() implies self.region.id_valid(#[trigger] self.region.map_ids@[i]) by {
                if i < n {
                    assert(g0.region.id_valid(g0.region.map_ids@[i]));
                }
            }
            assert forall|m: MapId| #[trigger] g0.region.has_map(m) implies self.region.has_map(m)
                && self.region.spec_map(m) == g0.region.spec_map(m) by {
                let k = g0.region.map_index(m);
                assert(self.region.map_ids@[k] == m);
                assert(self.region.map_index(m) == k);
            }
        }
        mid
    }

    /// Adds the player; only `CharaKind::Player` may be added without a place.
    pub fn add_chara(&mut self, chara: Chara, kind: CharaKind) -> (r: CharaId)
        requires
            old(self).wf(),
            kind == CharaKind::Player,
            !old(self).chara.fixed.contains(CharaId::Player),
        ensures
            final(self).wf(),
            r == CharaId::Player,
            final(self).chara.fixed.entries@ == old(self).chara.fixed.entries@.push((r, chara)),
            final(self).chara.fixed.contains(r),
            final(self).chara.on_map == old(self).chara.on_map,
            final(self).region == old(self).region,
            final(self).spec_current_mapid() == old(self).spec_current_mapid(),
    {
        self.chara.fixed.add(CharaId::Player, chara);
        CharaId::Player
    }

    /// Adds a character bound to site `sid` under slot `n`.
    pub fn add_chara_to_site(&mut self, chara: Chara, sid: SiteId, n: u32) -> (r: CharaId)
        requires
            old(self).wf(),
            !old(self).chara.fixed.contains(CharaId::OnSite { sid, n }),
        ensures
            final(self).wf(),
            r == (CharaId::OnSite { sid, n }),
            final(self).chara.fixed.entries@ == old(self).chara.fixed.entries@.push((r, chara)),
            final(self).chara.fixed.contains(r),
            final(self).chara.on_map == old(self).chara.on_map,
            final(self).region == old(self).region,
            final(self).spec_current_mapid() == old(self).spec_current_mapid(),
    {
        let cid = CharaId::OnSite { sid, n };
        self.chara.fixed.add(cid, chara);
        cid
    }

    /// Adds a character to map `mid` under its smallest free slot, in the
    /// active store if `mid` is current, else in `mid`'s dormant storage.
    pub fn add_chara_to_map(&mut self, chara: Chara, mid: MapId) -> (r: CharaId)
        requires
            old(self).wf(),
            old(self).region.has_map(mid),
            old(self).onmap_table(mid).len() < u32::MAX,
        ensures
            final(self).wf(),
            r matches CharaId::OnMap { mid: m, n } && m == mid
                && !old(self).onmap_table(mid).contains(r)
                && forall|k: u32| k < n ==> #[trigger] old(self).onmap_table(mid).contains(CharaId::OnMap { mid, n: k }),
            final(self).onmap_table(mid).entries@ == old(self).onmap_table(mid).entries@.push((r, chara)),
            forall|m: MapId| m != mid && #[trigger] old(self).region.has_map(m) ==> final(self).onmap_table(m) == old(self).onmap_table(m),
            forall|m: MapId| #[trigger] final(self).region.has_map(m) <==> old(self).region.has_map(m),
            forall|m: MapId| old(self).region.has_map(m) ==> same_but_charas(#[trigger] final(self).region.spec_map(m), old(self).region.spec_map(m)),
            forall|m: MapId| old(self).region.has_map(m) ==> ((#[trigger] final(self).region.spec_map(m)).charas is None
                <==> old(self).region.spec_map(m).charas is None),
            old(self).is_active() ==> final(self).is_active(),
            final(self).chara.fixed == old(self).chara.fixed,
            final(self).region.map_ids == old(self).region.map_ids,
            final(self).region.regions == old(self).region.regions,
            final(self).spec_current_mapid() == old(self).spec_current_mapid(),
    {
        let ghost g0 = *self;
        let ghost k = self.region.map_index(mid);
        if mid == self.current_mapid {
            let n = self.chara.on_map.search_empty_onmap_charaid_n(mid);
            let cid = CharaId::OnMap { mid, n };
            self.chara.on_map.add(cid, chara);
            cid
        } else {
            proof {
                assert(self.region.map_ids@[k] == mid);
                assert(self.region.maps@[k].charas is Some);
            }
            let n = self.region.get_map(mid).charas.as_ref().unwrap().search_empty_onmap_charaid_n(mid);
            let cid = CharaId::OnMap { mid, n };
            let map = self.region.get_map_mut(mid);
            match &mut map.charas {
                Some(t) => t.add(cid, chara),
                None => {},
            }
            proof {
                assert(self.region.map_index(mid) == k);
                assert forall|m: MapId| m != mid && #[trigger] g0.region.has_map(m) implies self.onmap_table(m) == g0.onmap_table(m) by {
                    let j = g0.region.map_index(m);
                    assert(g0.region.map_ids@[j] == m);
                    assert(self.region.map_index(m) == j);
                }
                assert forall|m: MapId| g0.region.has_map(m) implies same_but_charas(#[trigger] self.region.spec_map(m), g0.region.spec_map(m))
                    && (self.region.spec_map(m).charas is None <==> g0.region.spec_map(m).charas is None) by {
                    let j = g0.region.map_index(m);
                    assert(g0.region.map_ids@[j] == m);
                    assert(self.region.map_index(m) == j);
                }
                if g0.is_active() {
                    let c = g0.spec_current_mapid();
                    assert(self.region.spec_map(c).charas is None <==> g0.region.spec_map(c).charas is None);
                }
                assert forall|i: int| 0 <= i < self.region.maps@.len() implies (#[trigger] self.region.maps@[i]).wf() by {
                    assert(g0.region.maps@[i].wf());
                }
            }
            cid
        }
    }

    /// Removes a character from the game, clearing its tile on its map.
    pub fn remove_chara(&mut self, cid: CharaId)
        requires
            old(self).wf(),
            cid != CharaId::Player,
            cid matches CharaId::OnMap { mid, .. } ==> old(self).region.has_map(mid)
                && old(self).onmap_table(mid).contains(cid),
            cid is OnSite ==> old(self).chara.fixed.contains(cid),
        ensures
            final(self).wf(),
            forall|m: MapId| #[trigger] final(self).region.has_map(m) <==> old(self).region.has_map(m),
            final(self).region.map_ids == old(self).region.map_ids,
            final(self).spec_current_mapid() == old(self).spec_current_mapid(),
            forall|m: MapId| old(self).region.has_map(m) ==> ((#[trigger] final(self).region.spec_map(m)).charas is None
                <==> old(self).region.spec_map(m).charas is None),
            old(self).is_active() ==> final(self).is_active(),
            cid matches CharaId::OnMap { mid, .. } ==> forall|m: MapId| m != mid && old(self).region.has_map(m) ==>
                #[trigger] final(self).region.spec_map(m) == old(self).region.spec_map(m)
                && final(self).onmap_table(m) == old(self).onmap_table(m),
            cid matches CharaId::OnMap { mid, .. } ==> {
                &&& final(self).onmap_table(mid).entries@ == old(self).onmap_table(mid).entries@.remove(
                    old(self).onmap_table(mid).index_of(cid))
                &&& !final(self).onmap_table(mid).contains(cid)
                &&& final(self).chara.fixed == old(self).chara.fixed
                &&& forall|i: int| 0 <= i < final(self).region.spec_map(mid).tile@.len() ==>
                    (#[trigger] final(self).region.spec_map(mid).tile@[i]).chara != Some(cid)
            },
            cid is OnSite ==> {
                &&& final(self).chara.fixed.entries@ == old(self).chara.fixed.entries@.remove(
                    old(self).chara.fixed.index_of(cid))
                &&& !final(self).chara.fixed.contains(cid)
                &&& final(self).chara.on_map == old(self).chara.on_map
            },
    {
        let ghost g0 = *self;
        match cid {
            CharaId::Player => {},
            CharaId::OnMap { mid, .. } => {
                let ghost k = self.region.map_index(mid);
                let map = self.region.get_map_mut(mid);
                map.remove_chara(cid);
                let ghost g1 = *self;
                proof {
                    assert(self.region.map_index(mid) == k);
                    assert(self.region.map_ids@[k] == mid);
                    assert forall|i: int| 0 <= i < self.region.maps@.len() implies (#[trigger] self.region.maps@[i]).wf() by {
                        assert(g0.region.maps@[i].wf());
                    }
                    assert forall|i: int| 0 <= i < self.region.spec_map(mid).tile@.len() implies
                        (#[trigger] self.region.spec_map(mid).tile@[i]).chara != Some(cid) by {
                        assert(g0.region.maps@[k].tile@[i] == g0.region.spec_map(mid).tile@[i]);
                    }
                }
                if mid == self.current_mapid {
                    self.chara.on_map.remove(cid);
                } else {
                    let map = self.region.get_map_mut(mid);
                    match &mut map.charas {
                        Some(t) => {
                            t.remove(cid);
                        },
                        None => {},
                    }
                    proof {
                        assert(self.region.map_index(mid) == k);
                        assert(g1.region.maps@[k].charas is Some);
                        assert forall|i: int| 0 <= i < self.region.maps@.len() implies (#[trigger] self.region.maps@[i]).wf() by {
                            assert(g1.region.maps@[i].wf());
                        }
                        assert(self.region.spec_map(mid).tile == g1.region.spec_map(mid).tile);
                    }
                }
            },
            CharaId::OnSite { .. } => {
                let cur = self.current_mapid;
                match self.region.find_map(cur) {
                    Some(_) => {
                        let ghost k = self.region.map_index(cur);
                        let map = self.region.get_map_mut(cur);
                        map.remove_chara(cid);
                        proof {
                            assert(self.region.map_index(cur) == k);
                            assert forall|i: int| 0 <= i < self.region.maps@.len() implies (#[trigger] self.region.maps@[i]).wf() by {
                                assert(g0.region.maps@[i].wf());
                            }
                        }
                    },
                    None => {},
                }
                self.chara.fixed.remove(cid);
            },
        }
        proof {
            assert forall|m: MapId| g0.region.has_map(m) implies ((#[trigger] self.region.spec_map(m)).charas is None
                <==> g0.region.spec_map(m).charas is None)
                && (cid matches CharaId::OnMap { mid, .. } && m != mid ==> self.region.spec_map(m) == g0.region.spec_map(m)
                    && self.onmap_table(m) == g0.onmap_table(m)) by {
                let j = g0.region.map_index(m);
                assert(g0.region.map_ids@[j] == m);
                assert(self.region.map_index(m) == j);
            }
            if g0.is_active() {
                let c = g0.spec_current_mapid();
                assert(self.region.spec_map(c).charas is None <==> g0.region.spec_map(c).charas is None);
            }
        }
    }
}

} // verus!
