//! Setting up the world of a new game.
use vstd::prelude::*;
use crate::builder::{GeneratedMap, MapBuilder};
use crate::chara::Chara;
use crate::ids::{CharaId, CharaKind, MapId, RegionId, SiteId};
use crate::map::GameMap;
use crate::populate::gen_npcs;
use crate::site::{Site, SiteContent, SiteKind};
use crate::world::GameData;

verus! {

/// A world with one region whose overview map is `region_map`, holding a
/// dungeon whose first floor is built from `gm` and made active; the player
/// stands on its entrance and some monsters are scattered around.
pub fn create_newgame(region_map: GameMap, gm: &GeneratedMap) -> (r: GameData)
    requires
        region_map.wf(),
        region_map.charas matches Some(t) && t.len() == 0,
        gm.wf(),
        gm.w <= i32::MAX,
        gm.h <= i32::MAX,
    ensures
        r.wf(),
        r.spec_current_mapid() == (MapId::SiteMap { sid: SiteId { rid: RegionId(0), n: 0 }, floor: 0 }),
        r.chara.fixed.contains(CharaId::Player),
        r.is_active(),
        r.region.spec_map(r.spec_current_mapid()).at(gm.entrance).chara == Some(CharaId::Player),
        r.chara.on_map.len() <= 10,
{
    let mut gd = GameData::empty();
    let rid = gd.add_region(region_map);
    let sid = gd.add_site(Site::new(SiteContent::Dungeon), SiteKind::Dungeon, rid, gm.entrance).unwrap();
    let floor_map = MapBuilder::new(gm.w, gm.h).build(gm);
    let start_pos = floor_map.entrance;
    let mid = gd.add_map(floor_map, sid, 0);
    gd.set_initial_mapid(mid);

    let chara = Chara::new(1);
    let player = gd.add_chara(chara, CharaKind::Player);
    gd.place_chara(mid, start_pos, player);

    proof {
        assert(gd.region.spec_map(mid).contains_pos(start_pos));
    }
    gen_npcs(&mut gd, mid, 10, 10);
    proof {
        assert(gd.region.spec_map(mid).at(start_pos).chara == Some(CharaId::Player));
    }
    gd
}

} // verus!
