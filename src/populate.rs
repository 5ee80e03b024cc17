//! Scattering non-player characters over the empty tiles of a map.
use vstd::prelude::*;
use crate::chara::Chara;
use crate::ids::{CharaId, MapId, Vec2d};
use crate::map::GameMap;
use crate::world::GameData;

verus! {

/// How many random tiles are tried for each character before giving up.
pub const MAX_TRY: usize = 100;

/// Relies on rand::Rng::gen_range over rand::thread_rng: a number drawn from `0..n`.
#[verifier::external_body]
fn random_below(n: u32) -> (r: u32)
    requires
        n > 0,
    ensures
        r < n,
{
    rand::Rng::gen_range(&mut rand::thread_rng(), 0..n)
}

/// A tile that is on the map, has no wall and no occupant.
pub open spec fn tile_free(map: GameMap, p: Vec2d) -> bool {
    &&& map.contains_pos(p)
    &&& map.at(p).wall is None
    &&& map.at(p).chara is None
}

pub fn is_empty_tile(map: &GameMap, p: Vec2d) -> (r: bool)
    requires
        map.wf(),
    ensures
        r == tile_free(*map, p),
{
    if p.x < 0 || p.y < 0 || p.x as u32 >= map.w || p.y as u32 >= map.h {
        return false;
    }
    let i = map.tile_index(p);
    map.tile[i].wall.is_none() && map.tile[i].chara.is_none()
}

/// The first of the first `MAX_TRY` candidates that is a free tile.
pub fn choose_empty_tile_from(map: &GameMap, candidates: &Vec<Vec2d>) -> (r: Option<Vec2d>)
    requires
        map.wf(),
    ensures
        r matches Some(p) ==> exists|i: int| 0 <= i < MAX_TRY && 0 <= i < candidates@.len()
            && candidates@[i] == p && tile_free(*map, p)
            && forall|j: int| 0 <= j < i ==> !tile_free(*map, #[trigger] candidates@[j]),
        r is None ==> forall|j: int| 0 <= j < MAX_TRY && 0 <= j < candidates@.len() ==> !tile_free(*map, #[trigger] candidates@[j]),
{
    let mut i: usize = 0;
    while i < candidates.len() && i < MAX_TRY
        invariant
            map.wf(),
            i <= candidates@.len(),
            i <= MAX_TRY,
            forall|j: int| 0 <= j < i ==> !tile_free(*map, #[trigger] candidates@[j]),
        decreases candidates@.len() - i,
    {
        let p = candidates[i];
        if is_empty_tile(map, p) {
            return Some(p);
        }
        i += 1;
    }
    None
}

/// Tries up to `MAX_TRY` tiles drawn at random; `None` when none was free.
pub fn choose_empty_tile(map: &GameMap) -> (r: Option<Vec2d>)
    requires
        map.wf(),
        map.w <= i32::MAX,
        map.h <= i32::MAX,
    ensures
        r matches Some(p) ==> tile_free(*map, p),
        map.w > 0 && map.h > 0 && (forall|p: Vec2d| map.contains_pos(p) ==> #[trigger] tile_free(*map, p)) ==> r is Some,
{
    if map.w == 0 || map.h == 0 {
        return None;
    }
    let mut candidates: Vec<Vec2d> = Vec::new();
    let mut k: usize = 0;
    while k < MAX_TRY
        invariant
            k <= MAX_TRY,
            candidates@.len() == k,
            forall|j: int| 0 <= j < k ==> #[trigger] map.contains_pos(candidates@[j]),
            map.w > 0,
            map.h > 0,
            map.w <= i32::MAX,
            map.h <= i32::MAX,
        decreases MAX_TRY - k,
    {
        let x = random_below(map.w);
        let y = random_below(map.h);
        candidates.push(Vec2d::new(x as i32, y as i32));
        k += 1;
    }
    assert(map.contains_pos(candidates@[0]));
    choose_empty_tile_from(map, &candidates)
}

impl GameData {
    /// Marks the tile at `p` of map `mid` as occupied by `cid`.
    pub fn place_chara(&mut self, mid: MapId, p: Vec2d, cid: CharaId)
        requires
            old(self).wf(),
            old(self).region.has_map(mid),
            old(self).region.spec_map(mid).contains_pos(p),
        ensures
            final(self).wf(),
            final(self).region.spec_map(mid).at(p).chara == Some(cid),
            final(self).region.spec_map(mid).at(p).wall == old(self).region.spec_map(mid).at(p).wall,
            final(self).region.spec_map(mid).w == old(self).region.spec_map(mid).w,
            final(self).region.spec_map(mid).h == old(self).region.spec_map(mid).h,
            forall|q: Vec2d| q != p && old(self).region.spec_map(mid).contains_pos(q) ==>
                #[trigger] final(self).region.spec_map(mid).at(q) == old(self).region.spec_map(mid).at(q),
            forall|m: MapId| m != mid && old(self).region.has_map(m) ==> #[trigger] final(self).region.spec_map(m) == old(self).region.spec_map(m),
            forall|m: MapId| old(self).region.has_map(m) ==> (#[trigger] final(self).region.spec_map(m)).charas == old(self).region.spec_map(m).charas,
            old(self).is_active() ==> final(self).is_active(),
            final(self).region.map_ids == old(self).region.map_ids,
            final(self).chara == old(self).chara,
            final(self).spec_current_mapid() == old(self).spec_current_mapid(),
            forall|m: MapId| old(self).region.has_map(m) ==> (#[trigger] final(self).onmap_table(m)) == old(self).onmap_table(m),
    {
        let ghost g0 = *self;
        let ghost k = self.region.map_index(mid);
        let m = self.region.get_map_mut(mid);
        let j = m.tile_index(p);
        m.tile[j].chara = Some(cid);
        proof {
            assert(self.region.map_index(mid) == k);
            assert(g0.region.maps@[k].wf());
            assert forall|i: int| 0 <= i < self.region.maps@[k].tile@.len() implies (#[trigger] self.region.maps@[k].tile@[i]).items_ok() by {
                assert(g0.region.maps@[k].tile@[i].items_ok());
            }
            assert forall|i: int| 0 <= i < self.region.maps@.len() implies (#[trigger] self.region.maps@[i]).wf() by {
                assert(g0.region.maps@[i].wf());
            }
            assert forall|m: MapId| g0.region.has_map(m) implies (#[trigger] self.onmap_table(m)) == g0.onmap_table(m)
                && self.region.spec_map(m).charas == g0.region.spec_map(m).charas
                && (m != mid ==> self.region.spec_map(m) == g0.region.spec_map(m)) by {
                let q = g0.region.map_index(m);
                assert(g0.region.map_ids@[q] == m);
                assert(self.region.map_index(m) == q);
            }
            let m0 = g0.region.spec_map(mid);
            assert forall|q: Vec2d| q != p && m0.contains_pos(q) implies
                #[trigger] self.region.spec_map(mid).at(q) == m0.at(q) by {
                GameMap::lemma_index(m0.w, m0.h, q);
                if crate::map::index_of(m0.w, q) == crate::map::index_of(m0.w, p) {
                    GameMap::lemma_index_injective(m0.w, m0.h, p, q);
                }
            }
            if g0.is_active() {
                let c = g0.spec_current_mapid();
                assert(self.region.spec_map(c).charas == g0.region.spec_map(c).charas);
            }
        }
    }

    /// Puts a new character of level `level` on tile `p` of map `mid` if `p`
    /// is given and free; returns its id, or `None` and changes nothing.
    pub fn gen_npc_at(&mut self, mid: MapId, p: Option<Vec2d>, level: u32) -> (r: Option<CharaId>)
        requires
            old(self).wf(),
            old(self).region.has_map(mid),
            old(self).onmap_table(mid).len() < u32::MAX,
        ensures
            final(self).wf(),
            r is Some <==> (p matches Some(q) && tile_free(old(self).region.spec_map(mid), q)),
            r is None ==> *final(self) == *old(self),
            r matches Some(cid) ==> {
                let q = p.unwrap();
                let t = final(self).onmap_table(mid).entries@;
                &&& t == old(self).onmap_table(mid).entries@.push(t.last())
                &&& t.last().0 == cid
                &&& t.last().1.level == level
                &&& cid matches CharaId::OnMap { mid: m2, .. } && m2 == mid
                &&& final(self).region.spec_map(mid).at(q).chara == Some(cid)
                &&& final(self).region.spec_map(mid).at(q).wall == old(self).region.spec_map(mid).at(q).wall
            },
            final(self).region.map_ids == old(self).region.map_ids,
            final(self).spec_current_mapid() == old(self).spec_current_mapid(),
            final(self).chara.fixed == old(self).chara.fixed,
            final(self).region.spec_map(mid).w == old(self).region.spec_map(mid).w,
            final(self).region.spec_map(mid).h == old(self).region.spec_map(mid).h,
            forall|q: Vec2d| p != Some(q) && old(self).region.spec_map(mid).contains_pos(q) ==>
                #[trigger] final(self).region.spec_map(mid).at(q) == old(self).region.spec_map(mid).at(q),
            forall|m: MapId| m != mid && old(self).region.has_map(m) ==> #[trigger] final(self).onmap_table(m) == old(self).onmap_table(m),
            forall|m: MapId| #[trigger] final(self).region.has_map(m) <==> old(self).region.has_map(m),
            old(self).is_active() ==> final(self).is_active(),
    {
        match p {
            Some(q) => {
                if !is_empty_tile(self.region.get_map(mid), q) {
                    return None;
                }
                let ghost g0 = *self;
                let cid = self.add_chara_to_map(Chara::new(level), mid);
                let ghost g1 = *self;
                proof {
                    assert(g1.region.spec_map(mid).tile == g0.region.spec_map(mid).tile);
                    assert(g1.region.spec_map(mid).contains_pos(q));
                }
                self.place_chara(mid, q, cid);
                proof {
                    assert forall|m: MapId| m != mid && g0.region.has_map(m) implies #[trigger] self.onmap_table(m) == g0.onmap_table(m) by {
                        assert(g1.onmap_table(m) == g0.onmap_table(m));
                    }
                    assert(self.onmap_table(mid) == g1.onmap_table(mid));
                    let t = self.onmap_table(mid).entries@;
                    assert(t == g0.onmap_table(mid).entries@.push(t.last()));
                }
                Some(cid)
            },
            None => None,
        }
    }
}

/// `after` differs from `before` on map `mid` by new characters of level
/// `level` appended to the map's table, each standing on a tile that was free;
/// walls stay, and so do the characters that stood on the map.
pub open spec fn npcs_added(before: GameData, after: GameData, mid: MapId, level: u32) -> bool {
    let (t0, t1, m0, m1) = (before.onmap_table(mid).entries@, after.onmap_table(mid).entries@,
        before.region.spec_map(mid), after.region.spec_map(mid));
    &&& t0.len() <= t1.len()
    &&& t1.subrange(0, t0.len() as int) == t0
    &&& forall|k: int| t0.len() <= k < t1.len() ==> (#[trigger] t1[k]).1.level == level
        && exists|p: Vec2d| tile_free(m0, p) && #[trigger] m1.at(p).chara == Some(t1[k].0)
    &&& m1.w == m0.w && m1.h == m0.h
    &&& forall|p: Vec2d| m0.contains_pos(p) ==> (#[trigger] m1.at(p)).wall == m0.at(p).wall
        && (m0.at(p).chara is Some ==> m1.at(p).chara == m0.at(p).chara)
        && (m1.at(p).chara is None ==> m0.at(p).chara is None)
}

/// Every tile of `map` is free.
pub open spec fn all_free(map: GameMap) -> bool {
    forall|p: Vec2d| map.contains_pos(p) ==> #[trigger] tile_free(map, p)
}

/// Places up to `n` new characters of level `floor_level` on free tiles of
/// map `mid`, stopping at the first one for which no free tile was found.
pub fn gen_npcs(gd: &mut GameData, mid: MapId, n: u32, floor_level: u32)
    requires
        old(gd).wf(),
        old(gd).region.has_map(mid),
        old(gd).onmap_table(mid).len() + n < u32::MAX,
        old(gd).region.spec_map(mid).w <= i32::MAX,
        old(gd).region.spec_map(mid).h <= i32::MAX,
    ensures
        final(gd).wf(),
        final(gd).region.map_ids == old(gd).region.map_ids,
        final(gd).spec_current_mapid() == old(gd).spec_current_mapid(),
        final(gd).chara.fixed == old(gd).chara.fixed,
        old(gd).is_active() ==> final(gd).is_active(),
        forall|m: MapId| m != mid && old(gd).region.has_map(m) ==> #[trigger] final(gd).onmap_table(m) == old(gd).onmap_table(m),
        old(gd).onmap_table(mid).len() <= final(gd).onmap_table(mid).len() <= old(gd).onmap_table(mid).len() + n,
        n > 0 && old(gd).region.spec_map(mid).w > 0 && old(gd).region.spec_map(mid).h > 0
            && all_free(old(gd).region.spec_map(mid)) ==> final(gd).onmap_table(mid).len() > old(gd).onmap_table(mid).len(),
        npcs_added(*old(gd), *final(gd), mid, floor_level),
{
    let ghost g0 = *gd;
    let ghost m0 = gd.region.spec_map(mid);
    let ghost t0 = gd.onmap_table(mid).entries@;
    let mut i: u32 = 0;
    let mut done = false;
    proof {
        assert(t0.subrange(0, t0.len() as int) =~= t0);
    }
    while i < n && !done
        invariant
            gd.wf(),
            gd.region.has_map(mid),
            gd.region.map_ids == g0.region.map_ids,
            forall|m: MapId| #[trigger] gd.region.has_map(m) <==> g0.region.has_map(m),
            gd.spec_current_mapid() == g0.spec_current_mapid(),
            gd.chara.fixed == g0.chara.fixed,
            g0.is_active() ==> gd.is_active(),
            forall|m: MapId| m != mid && g0.region.has_map(m) ==> #[trigger] gd.onmap_table(m) == g0.onmap_table(m),
            i <= n,
            g0 == *old(gd),
            i == 0 ==> *gd == g0,
            m0 == g0.region.spec_map(mid),
            t0 == g0.onmap_table(mid).entries@,
            t0.len() <= gd.onmap_table(mid).entries@.len() <= t0.len() + i,
            t0.len() + n < u32::MAX,
            i > 0 && m0.w > 0 && m0.h > 0 && all_free(m0) ==> gd.onmap_table(mid).entries@.len() > t0.len(),
            npcs_added(g0, *gd, mid, floor_level),
            done && m0.w > 0 && m0.h > 0 && all_free(m0) ==> i > 0,
            m0.w <= i32::MAX,
            m0.h <= i32::MAX,
        decreases n - i,
    {
        let ghost g1 = *gd;
        let ghost t1 = gd.onmap_table(mid).entries@;
        let ghost m1 = gd.region.spec_map(mid);
        let choice = choose_empty_tile(gd.region.get_map(mid));
        proof {
            if i == 0 && m0.w > 0 && m0.h > 0 && all_free(m0) {
                assert(m1 == m0);
            }
        }
        match gd.gen_npc_at(mid, choice, floor_level) {
            Some(cid) => {
                proof {
                    let q = choice.unwrap();
                    let t2 = gd.onmap_table(mid).entries@;
                    let m2 = gd.region.spec_map(mid);
                    assert(tile_free(m1, q));
                    assert(tile_free(m0, q));
                    assert(t2 == t1.push(t2.last()));
                    assert(t2.subrange(0, t0.len() as int) =~= t1.subrange(0, t0.len() as int));
                    assert forall|k: int| t0.len() <= k < t2.len() implies (#[trigger] t2[k]).1.level == floor_level
                        && exists|p: Vec2d| tile_free(m0, p) && #[trigger] m2.at(p).chara == Some(t2[k].0) by {
                        if k < t1.len() {
                            assert(t2[k] == t1[k]);
                            let p = choose|p: Vec2d| tile_free(m0, p) && #[trigger] m1.at(p).chara == Some(t1[k].0);
                            assert(p != q);
                            assert(m2.at(p) == m1.at(p));
                        } else {
                            assert(m2.at(q).chara == Some(t2[k].0));
                        }
                    }
                    assert forall|p: Vec2d| m0.contains_pos(p) implies (#[trigger] m2.at(p)).wall == m0.at(p).wall
                        && (m0.at(p).chara is Some ==> m2.at(p).chara == m0.at(p).chara)
                        && (m2.at(p).chara is None ==> m0.at(p).chara is None) by {
                        if p != q {
                            assert(m2.at(p) == m1.at(p));
                        }
                    }
                }
            },
            None => {
                done = true;
            },
        }
        i += 1;
    }
}

} // verus!
