use rusted_world::builder::{generated_map_to_map, GeneratedMap, MapBuilder, TileKind};
use rusted_world::chara::Chara;
use rusted_world::ids::{CharaId, CharaKind, MapId, RegionId, Vec2d};
use rusted_world::item::{Item, ItemList, ItemMoveNum};
use rusted_world::map::{BoundaryBehavior, GameMap, SpecialTileKind, StairsKind, FLOOR_OUTSIDE};
use rusted_world::populate::{choose_empty_tile, choose_empty_tile_from, gen_npcs};
use rusted_world::resolver::{ItemListLocation, ItemLocation};
use rusted_world::site::{Shop, Site, SiteContent, SiteKind, Town};
use rusted_world::template::{
    from_template, set_boundary, MapTemplateBoundary, MapTemplateBoundaryBehavior, MapTemplateObject,
    TileTemplate,
};
use rusted_world::world::GameData;

fn tile_at(map: &GameMap, x: i32, y: i32) -> &rusted_world::map::Tile {
    &map.tile[(y as usize) * (map.w as usize) + x as usize]
}

/// A world with one region (5x5 overview map) and a dungeon site with two
/// 4x4 floors; the overview map is active.
fn small_world() -> (GameData, MapId, MapId, MapId) {
    let mut gd = GameData::empty();
    let rid = gd.add_region(GameMap::new(5, 5));
    let sid = gd
        .add_site(Site::new(SiteContent::Dungeon), SiteKind::Dungeon, rid, Vec2d::new(1, 1))
        .unwrap();
    let f0 = gd.add_map(GameMap::new(4, 4), sid, 11);
    let f1 = gd.add_map(GameMap::new(4, 4), sid, 12);
    let region_map = MapId::RegionMap { rid };
    gd.set_initial_mapid(region_map);
    (gd, region_map, f0, f1)
}

fn generated(w: u32, h: u32, entrance: Vec2d, exit: Option<Vec2d>) -> GeneratedMap {
    let mut tile = vec![TileKind::Floor; (w * h) as usize];
    tile[0] = TileKind::Wall;
    GeneratedMap { w, h, tile, entrance, exit }
}

fn count_active(gd: &GameData) -> usize {
    gd.region.maps.iter().filter(|m| m.charas.is_none()).count()
}

#[test]
fn stairs_placement_on_middle_floor() {
    let gm = generated(10, 10, Vec2d::new(1, 1), Some(Vec2d::new(8, 8)));
    let map = generated_map_to_map(&gm, 3, 9, 2, false);
    assert_eq!(
        tile_at(&map, 1, 1).special,
        SpecialTileKind::Stairs { dest_floor: 1, kind: StairsKind::UpStairs }
    );
    assert_eq!(
        tile_at(&map, 8, 8).special,
        SpecialTileKind::Stairs { dest_floor: 3, kind: StairsKind::DownStairs }
    );
    assert_eq!(map.entrance, Vec2d::new(1, 1));
    assert_eq!(tile_at(&map, 0, 0).wall, Some(9));
    assert_eq!(tile_at(&map, 2, 0).wall, None);
    assert_eq!(tile_at(&map, 2, 0).tile.idx, vec![3]);
    assert_eq!(tile_at(&map, 2, 0).special, SpecialTileKind::Plain);
}

#[test]
fn deepest_floor_has_no_down_stairs() {
    let gm = generated(10, 10, Vec2d::new(1, 1), Some(Vec2d::new(8, 8)));
    let map = generated_map_to_map(&gm, 3, 9, 2, true);
    assert_eq!(
        tile_at(&map, 1, 1).special,
        SpecialTileKind::Stairs { dest_floor: 1, kind: StairsKind::UpStairs }
    );
    assert_eq!(tile_at(&map, 8, 8).special, SpecialTileKind::Plain);
}

#[test]
fn ground_floor_stairs_lead_outside() {
    let gm = generated(3, 3, Vec2d::new(2, 2), None);
    let map = generated_map_to_map(&gm, 0, 1, 0, false);
    assert_eq!(
        tile_at(&map, 2, 2).special,
        SpecialTileKind::Stairs { dest_floor: FLOOR_OUTSIDE, kind: StairsKind::UpStairs }
    );
}

#[test]
fn map_builder_carries_parameters() {
    let b = MapBuilder::new(10, 10).floor(2).tile(5).wall(6).deepest_floor(false);
    let gm = generated(10, 10, Vec2d::new(1, 1), Some(Vec2d::new(8, 8)));
    let map = b.build(&gm);
    assert_eq!(map.w, 10);
    assert_eq!(tile_at(&map, 0, 0).wall, Some(6));
    assert_eq!(tile_at(&map, 5, 5).tile.idx, vec![5]);
    assert_eq!(
        tile_at(&map, 8, 8).special,
        SpecialTileKind::Stairs { dest_floor: 3, kind: StairsKind::DownStairs }
    );
}

#[test]
fn item_removal_cleans_up_tile() {
    let (mut gd, region_map, _, _) = small_world();
    let player = gd.add_chara(Chara::new(1), CharaKind::Player);
    let mut list = ItemList::new();
    list.append(Item { idx: 4 }, 3);
    gd.get_item_list_mut(ItemListLocation::Chara { cid: player }).items = list.items;
    let tile = ItemListLocation::OnMap { mid: region_map, pos: Vec2d::new(2, 3) };
    gd.move_item(ItemLocation(ItemListLocation::Chara { cid: player }, 0), tile, ItemMoveNum::All);
    assert_eq!(gd.get_item_list(tile).items, vec![(Item { idx: 4 }, 3)]);
    gd.remove_item(ItemLocation(tile, 0), ItemMoveNum::All);
    let map = gd.region.get_map(region_map);
    assert!(tile_at(map, 2, 3).item_list.is_none());
}

#[test]
fn move_conserves_quantity() {
    let (mut gd, region_map, _, _) = small_world();
    let player = gd.add_chara(Chara::new(1), CharaKind::Player);
    let src = ItemListLocation::Chara { cid: player };
    gd.get_item_list_mut(src).append(Item { idx: 1 }, 10);
    gd.get_item_list_mut(src).append(Item { idx: 2 }, 5);
    let tile = ItemListLocation::OnMap { mid: region_map, pos: Vec2d::new(0, 0) };
    gd.move_item(ItemLocation(src, 0), tile, ItemMoveNum::Partial(4));
    assert_eq!(gd.get_item(ItemLocation(src, 0)), (&Item { idx: 1 }, 6));
    assert_eq!(gd.get_item_list(tile).items, vec![(Item { idx: 1 }, 4)]);
    // Moving all of a stack takes what is there now and leaves no stack behind.
    gd.move_item(ItemLocation(src, 0), tile, ItemMoveNum::All);
    assert_eq!(gd.get_item_list(src).items, vec![(Item { idx: 2 }, 5)]);
    assert_eq!(gd.get_item_list(tile).items, vec![(Item { idx: 1 }, 4), (Item { idx: 1 }, 6)]);
    // Emptying the tile removes its list.
    gd.move_item(ItemLocation(tile, 0), src, ItemMoveNum::All);
    gd.move_item(ItemLocation(tile, 0), src, ItemMoveNum::All);
    assert!(tile_at(gd.region.get_map(region_map), 0, 0).item_list.is_none());
    let total: u32 = gd.get_item_list(src).items.iter().map(|e| e.1).sum();
    assert_eq!(total, 15);
}

#[test]
fn remove_item_and_get_returns_item() {
    let (mut gd, _, _, _) = small_world();
    let player = gd.add_chara(Chara::new(1), CharaKind::Player);
    let src = ItemListLocation::Chara { cid: player };
    gd.get_item_list_mut(src).append(Item { idx: 8 }, 2);
    let it = gd.remove_item_and_get(ItemLocation(src, 0), ItemMoveNum::Partial(1));
    assert_eq!(it, Item { idx: 8 });
    assert_eq!(gd.get_item_list(src).items, vec![(Item { idx: 8 }, 1)]);
    gd.remove_item(ItemLocation(src, 0), ItemMoveNum::Partial(1));
    assert!(gd.get_item_list(src).items.is_empty());
}

#[test]
fn single_active_map_after_swaps() {
    let (mut gd, region_map, f0, f1) = small_world();
    assert_eq!(count_active(&gd), 1);
    assert!(gd.get_current_map().charas.is_none());
    gd.set_current_mapid(f0);
    assert_eq!(count_active(&gd), 1);
    assert_eq!(gd.get_current_mapid(), f0);
    gd.set_current_mapid(f1);
    assert_eq!(count_active(&gd), 1);
    assert!(gd.region.get_map(region_map).charas.is_some());
    assert_eq!(gd.get_current_region_id(), RegionId(0));
}

#[test]
fn slots_are_smallest_free() {
    let (mut gd, region_map, f0, _) = small_world();
    let a = gd.add_chara_to_map(Chara::new(1), f0);
    let b = gd.add_chara_to_map(Chara::new(2), f0);
    let c = gd.add_chara_to_map(Chara::new(3), f0);
    assert_eq!(a, CharaId::OnMap { mid: f0, n: 0 });
    assert_eq!(b, CharaId::OnMap { mid: f0, n: 1 });
    assert_eq!(c, CharaId::OnMap { mid: f0, n: 2 });
    gd.remove_chara(b);
    let d = gd.add_chara_to_map(Chara::new(4), f0);
    assert_eq!(d, CharaId::OnMap { mid: f0, n: 1 });
    // The active map counts its own slots.
    let e = gd.add_chara_to_map(Chara::new(5), region_map);
    assert_eq!(e, CharaId::OnMap { mid: region_map, n: 0 });
    assert_eq!(gd.chara.on_map.entries.len(), 1);
    assert_eq!(gd.region.get_map(f0).charas.as_ref().unwrap().entries.len(), 3);
}

#[test]
fn swap_round_trip_restores_partition() {
    let (mut gd, region_map, f0, _) = small_world();
    let a = gd.add_chara_to_map(Chara::new(1), region_map);
    let b = gd.add_chara_to_map(Chara::new(2), f0);
    gd.set_current_mapid(f0);
    assert_eq!(gd.chara.on_map.entries[0].0, b);
    assert_eq!(gd.region.get_map(region_map).charas.as_ref().unwrap().entries[0].0, a);
    gd.set_current_mapid(region_map);
    assert_eq!(gd.chara.on_map.entries.len(), 1);
    assert_eq!(gd.chara.on_map.entries[0].0, a);
    assert_eq!(gd.chara.on_map.entries[0].1.level, 1);
    let dormant = gd.region.get_map(f0).charas.as_ref().unwrap();
    assert_eq!(dormant.entries.len(), 1);
    assert_eq!(dormant.entries[0].0, b);
}

#[test]
fn remove_chara_clears_tile() {
    let (mut gd, region_map, _, _) = small_world();
    let a = gd.add_chara_to_map(Chara::new(1), region_map);
    gd.place_chara(region_map, Vec2d::new(3, 3), a);
    assert_eq!(tile_at(gd.get_current_map(), 3, 3).chara, Some(a));
    gd.remove_chara(a);
    assert!(tile_at(gd.get_current_map(), 3, 3).chara.is_none());
    assert!(gd.chara.on_map.entries.is_empty());
}

#[test]
fn site_bound_characters_and_shops() {
    let mut gd = GameData::empty();
    let rid = gd.add_region(GameMap::new(5, 5));
    let mut shop = Shop { items: ItemList::new() };
    shop.items.append(Item { idx: 30 }, 2);
    let town = Town { shops: vec![shop] };
    let sid = gd
        .add_site(Site::new(SiteContent::Town { town }), SiteKind::Town, rid, Vec2d::new(2, 2))
        .unwrap();
    let keeper = gd.add_chara_to_site(Chara::new(5), sid, 0);
    assert_eq!(keeper, CharaId::OnSite { sid, n: 0 });
    assert_eq!(gd.get_shop(keeper).items.items, vec![(Item { idx: 30 }, 2)]);
    let loc = ItemListLocation::Shop { cid: keeper };
    assert_eq!(gd.get_item(ItemLocation(loc, 0)), (&Item { idx: 30 }, 2));
    gd.get_shop_mut(keeper).items.append(Item { idx: 31 }, 1);
    assert_eq!(gd.get_item_list(loc).items.len(), 2);
    assert_eq!(gd.get_equip_list(keeper).list.items.len(), 0);
    gd.get_equip_list_mut(keeper).list.append(Item { idx: 40 }, 1);
    assert_eq!(gd.get_item_list(ItemListLocation::Equip { cid: keeper }).items.len(), 1);
    gd.remove_chara(keeper);
    assert!(gd.chara.fixed.entries.is_empty());
}

#[test]
fn add_site_refuses_occupied_position() {
    let mut gd = GameData::empty();
    let rid = gd.add_region(GameMap::new(5, 5));
    let first = gd.add_site(Site::new(SiteContent::Other), SiteKind::Other, rid, Vec2d::new(1, 2));
    assert!(first.is_some());
    let second = gd.add_site(Site::new(SiteContent::Other), SiteKind::Other, rid, Vec2d::new(1, 2));
    assert!(second.is_none());
    let third = gd.add_site(Site::new(SiteContent::Other), SiteKind::Other, rid, Vec2d::new(2, 1));
    assert_eq!(third.unwrap().n, 1);
}

#[test]
fn add_map_numbers_floors() {
    let (mut gd, _, f0, f1) = small_world();
    if let (MapId::SiteMap { sid, floor: a }, MapId::SiteMap { floor: b, .. }) = (f0, f1) {
        assert_eq!((a, b), (0, 1));
        let f2 = gd.add_map(GameMap::new(2, 2), sid, 13);
        assert_eq!(f2, MapId::SiteMap { sid, floor: 2 });
    } else {
        panic!("site floors expected");
    }
}

#[test]
fn empty_world_defaults() {
    let gd = GameData::empty();
    assert_eq!(gd.get_current_mapid(), MapId::RegionMap { rid: RegionId(0) });
    assert!(gd.region.maps.is_empty());
}

fn template(b: MapTemplateBoundary) -> MapTemplateObject {
    MapTemplateObject {
        w: 2,
        h: 1,
        tile: vec![
            TileTemplate { idx: vec![1, 0], i_pattern: 3 },
            TileTemplate { idx: vec![0], i_pattern: 0 },
        ],
        tile_table: vec![100, 200],
        wall: vec![None, Some(0)],
        wall_table: vec![300],
        deco: vec![Some(0), None],
        deco_table: vec![400],
        boundary: b,
    }
}

#[test]
fn template_tiles_resolve_through_tables() {
    let b = MapTemplateBoundary {
        n: MapTemplateBoundaryBehavior::Closed,
        s: MapTemplateBoundaryBehavior::NextFloor,
        e: MapTemplateBoundaryBehavior::PrevFloor,
        w: MapTemplateBoundaryBehavior::RegionMap,
    };
    let map = from_template(&template(b));
    assert_eq!(map.tile[0].tile.idx, vec![200, 100]);
    assert_eq!(map.tile[0].tile.i_pattern, 3);
    assert_eq!(map.tile[1].tile.idx, vec![100]);
    assert_eq!(map.tile[0].wall, None);
    assert_eq!(map.tile[1].wall, Some(300));
    assert_eq!(map.tile[0].deco, Some(400));
    assert_eq!(map.tile[1].deco, None);
    assert_eq!(map.boundary.n, BoundaryBehavior::Closed);
    assert_eq!(map.boundary.s, BoundaryBehavior::Floor(1));
    assert_eq!(map.boundary.e, BoundaryBehavior::RegionMap);
    assert_eq!(map.boundary.w, BoundaryBehavior::RegionMap);
}

#[test]
fn boundary_on_upper_floor() {
    let b = MapTemplateBoundary {
        n: MapTemplateBoundaryBehavior::PrevFloor,
        s: MapTemplateBoundaryBehavior::NextFloor,
        e: MapTemplateBoundaryBehavior::Closed,
        w: MapTemplateBoundaryBehavior::PrevFloor,
    };
    let t = template(b);
    let mut map = GameMap::new(2, 1);
    set_boundary(&mut map, &t, 4);
    assert_eq!(map.boundary.n, BoundaryBehavior::Floor(3));
    assert_eq!(map.boundary.s, BoundaryBehavior::Floor(5));
    assert_eq!(map.boundary.e, BoundaryBehavior::Closed);
    assert_eq!(map.boundary.w, BoundaryBehavior::Floor(3));
}

#[test]
fn chooses_first_free_candidate() {
    let gm = generated(3, 3, Vec2d::new(1, 1), None);
    let map = generated_map_to_map(&gm, 0, 1, 0, false);
    let cands = vec![Vec2d::new(0, 0), Vec2d::new(7, 7), Vec2d::new(2, 1), Vec2d::new(1, 2)];
    assert_eq!(choose_empty_tile_from(&map, &cands), Some(Vec2d::new(2, 1)));
    assert_eq!(choose_empty_tile_from(&map, &vec![Vec2d::new(0, 0)]), None);
}

#[test]
fn random_choice_on_single_tile_map() {
    let map = GameMap::new(1, 1);
    assert_eq!(choose_empty_tile(&map), Some(Vec2d::new(0, 0)));
    let gm = generated(1, 1, Vec2d::new(0, 0), None);
    let walled = generated_map_to_map(&gm, 0, 1, 0, false);
    assert_eq!(choose_empty_tile(&walled), None);
}

#[test]
fn npcs_fill_free_tiles() {
    let (mut gd, region_map, f0, _) = small_world();
    gen_npcs(&mut gd, f0, 3, 7);
    let dormant = gd.region.get_map(f0).charas.as_ref().unwrap();
    assert_eq!(dormant.entries.len(), 3);
    assert!(dormant.entries.iter().all(|e| e.1.level == 7));
    let occupied = gd.region.get_map(f0).tile.iter().filter(|t| t.chara.is_some()).count();
    assert_eq!(occupied, 3);
    // A map with no free tile gets nobody.
    let gm = generated(1, 1, Vec2d::new(0, 0), None);
    let walled = generated_map_to_map(&gm, 0, 1, 0, false);
    let sid = match f0 {
        MapId::SiteMap { sid, .. } => sid,
        _ => unreachable!(),
    };
    let f2 = gd.add_map(walled, sid, 3);
    gen_npcs(&mut gd, f2, 2, 1);
    assert!(gd.region.get_map(f2).charas.as_ref().unwrap().entries.is_empty());
    assert_eq!(gd.get_current_mapid(), region_map);
}

#[test]
fn new_game_puts_player_on_entrance() {
    let gm = generated(10, 10, Vec2d::new(1, 1), Some(Vec2d::new(8, 8)));
    let gd = rusted_world::newgame::create_newgame(GameMap::new(3, 3), &gm);
    let sid = rusted_world::ids::SiteId { rid: RegionId(0), n: 0 };
    assert_eq!(gd.get_current_mapid(), MapId::SiteMap { sid, floor: 0 });
    let map = gd.get_current_map();
    assert_eq!(tile_at(map, 1, 1).chara, Some(CharaId::Player));
    assert_eq!(
        tile_at(map, 1, 1).special,
        SpecialTileKind::Stairs { dest_floor: FLOOR_OUTSIDE, kind: StairsKind::UpStairs }
    );
    assert!(gd.chara.on_map.entries.len() <= 10);
    assert_eq!(count_active(&gd), 1);
    let placed = map.tile.iter().filter(|t| t.chara.is_some()).count();
    assert_eq!(placed, gd.chara.on_map.entries.len() + 1);
}

#[test]
fn npc_goes_only_on_a_free_tile() {
    let (mut gd, _, f0, _) = small_world();
    let placed = gd.gen_npc_at(f0, Some(Vec2d::new(2, 1)), 6);
    assert_eq!(placed, Some(CharaId::OnMap { mid: f0, n: 0 }));
    assert_eq!(tile_at(gd.region.get_map(f0), 2, 1).chara, placed);
    let dormant = gd.region.get_map(f0).charas.as_ref().unwrap();
    assert_eq!(dormant.entries.len(), 1);
    assert_eq!(dormant.entries[0].1.level, 6);
    // An occupied tile, a tile off the map, or no tile at all places nobody.
    assert_eq!(gd.gen_npc_at(f0, Some(Vec2d::new(2, 1)), 6), None);
    assert_eq!(gd.gen_npc_at(f0, Some(Vec2d::new(9, 9)), 6), None);
    assert_eq!(gd.gen_npc_at(f0, None, 6), None);
    assert_eq!(gd.region.get_map(f0).charas.as_ref().unwrap().entries.len(), 1);
}

#[test]
fn move_within_one_list_goes_to_the_end() {
    let (mut gd, _, _, _) = small_world();
    let player = gd.add_chara(Chara::new(1), CharaKind::Player);
    let src = ItemListLocation::Chara { cid: player };
    gd.get_item_list_mut(src).append(Item { idx: 1 }, 3);
    gd.get_item_list_mut(src).append(Item { idx: 2 }, 5);
    gd.move_item(ItemLocation(src, 0), src, ItemMoveNum::Partial(1));
    assert_eq!(
        gd.get_item_list(src).items,
        vec![(Item { idx: 1 }, 2), (Item { idx: 2 }, 5), (Item { idx: 1 }, 1)]
    );
}
