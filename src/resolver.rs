//! Item locations and the operations that resolve and change them.
use vstd::prelude::*;
use crate::ids::{CharaId, MapId, Vec2d};
use crate::item::{EquipItemList, Item, ItemList, ItemMoveNum, resolve_num, total};
use crate::map::{GameMap, index_of};
use crate::site::{Shop, SiteContent};
use crate::world::GameData;
use crate::chara::CharaTable;

verus! {

/// Where an item list lives.
#[derive(Clone, Copy, Debug, PartialEq, Eq, Structural)]
pub enum ItemListLocation {
    /// What a character carries.
    Chara { cid: CharaId },
    /// What a character wears; read-only here.
    Equip { cid: CharaId },
    /// The items lying on a tile; the list exists only while it is non-empty.
    OnMap { mid: MapId, pos: Vec2d },
    /// The stock of the shop run by a site-bound character.
    Shop { cid: CharaId },
}

/// A stack within an item list, by index.
#[derive(Clone, Copy, Debug, PartialEq, Eq, Structural)]
pub struct ItemLocation(pub ItemListLocation, pub u32);

/// Every stack holds at least one unit.
pub open spec fn stacks_ok(s: Seq<(Item, u32)>) -> bool {
    forall|i: int| 0 <= i < s.len() ==> #[trigger] s[i].1 > 0
}

/// The shops of a town; nothing for any other site.
pub open spec fn town_shops(c: SiteContent) -> Seq<Shop> {
    match c {
        SiteContent::Town { town } => town.shops@,
        _ => Seq::empty(),
    }
}

impl GameData {
    pub open spec fn shop_valid(&self, cid: CharaId) -> bool {
        &&& cid matches CharaId::OnSite { sid, n }
        &&& self.region.site_valid(sid)
        &&& self.region.spec_site(sid).content matches SiteContent::Town { town }
        &&& n < town.shops@.len()
    }

    pub open spec fn spec_shop(&self, cid: CharaId) -> Shop {
        match cid {
            CharaId::OnSite { sid, n } => match self.region.spec_site(sid).content {
                SiteContent::Town { town } => town.shops@[n as int],
                _ => arbitrary(),
            },
            _ => arbitrary(),
        }
    }

    /// `loc` names a container that exists (a tile's list itself may be absent).
    pub open spec fn loc_valid(&self, loc: ItemListLocation) -> bool {
        match loc {
            ItemListLocation::Chara { cid } => self.chara.contains(cid),
            ItemListLocation::Equip { cid } => self.chara.contains(cid),
            ItemListLocation::OnMap { mid, pos } => self.region.has_map(mid) && self.region.spec_map(mid).contains_pos(pos),
            ItemListLocation::Shop { cid } => self.shop_valid(cid),
        }
    }

    /// `loc` names an item list that is present.
    pub open spec fn list_exists(&self, loc: ItemListLocation) -> bool {
        &&& self.loc_valid(loc)
        &&& loc matches ItemListLocation::OnMap { mid, pos } ==> self.region.spec_map(mid).at(pos).item_list is Some
    }

    /// The stacks at `loc`; an absent tile list reads as empty.
    pub open spec fn list_view(&self, loc: ItemListLocation) -> Seq<(Item, u32)> {
        match loc {
            ItemListLocation::Chara { cid } => self.chara.spec_get(cid).item_list@,
            ItemListLocation::Equip { cid } => self.chara.spec_get(cid).equip.list@,
            ItemListLocation::OnMap { mid, pos } => match self.region.spec_map(mid).at(pos).item_list {
                Some(l) => l@,
                None => Seq::empty(),
            },
            ItemListLocation::Shop { cid } => self.spec_shop(cid).items@,
        }
    }

    /// `after` is `before` with the list at `loc` set to `l` (a tile's list
    /// removed when `l` is empty), and every other list as it was.
    pub open spec fn list_put(before: GameData, after: GameData, loc: ItemListLocation, l: Seq<(Item, u32)>) -> bool {
        &&& after.wf()
        &&& after.spec_current_mapid() == before.spec_current_mapid()
        &&& after.region.map_ids == before.region.map_ids
        &&& after.chara.fixed.ids() == before.chara.fixed.ids()
        &&& after.chara.on_map.ids() == before.chara.on_map.ids()
        &&& after.chara.on_map.ids() == before.chara.on_map.ids()
        &&& forall|c: CharaId| #[trigger] after.chara.contains(c) == before.chara.contains(c)
        &&& forall|c: CharaId| #[trigger] before.chara.contains(c) ==> after.chara.spec_get(c).level == before.chara.spec_get(c).level
        &&& forall|m: MapId| #[trigger] before.region.has_map(m) ==> Self::same_but_items(before.region.spec_map(m), after.region.spec_map(m))
        &&& after.loc_valid(loc)
        &&& after.list_view(loc) == l
        &&& (loc is OnMap ==> (after.list_exists(loc) <==> l.len() > 0))
        &&& forall|loc2: ItemListLocation| loc2 != loc && #[trigger] before.loc_valid(loc2) ==> after.loc_valid(loc2)
            && after.list_view(loc2) == before.list_view(loc2)
            && (after.list_exists(loc2) <==> before.list_exists(loc2))
    }

    /// Two puts at one location amount to the second one.
    pub proof fn lemma_list_put_trans(a: GameData, b: GameData, c: GameData, loc: ItemListLocation,
        l1: Seq<(Item, u32)>, l2: Seq<(Item, u32)>)
        requires
            Self::list_put(a, b, loc, l1),
            Self::list_put(b, c, loc, l2),
        ensures
            Self::list_put(a, c, loc, l2),
    {
        assert forall|c2: CharaId| #[trigger] a.chara.contains(c2) implies c.chara.spec_get(c2).level == a.chara.spec_get(c2).level by {
            assert(b.chara.contains(c2));
        }
        assert forall|m: MapId| #[trigger] a.region.has_map(m) implies Self::same_but_items(a.region.spec_map(m), c.region.spec_map(m)) by {
            assert(b.region.has_map(m));
            let (x, y, z) = (a.region.spec_map(m), b.region.spec_map(m), c.region.spec_map(m));
            assert(Self::same_but_items(x, y));
            assert(Self::same_but_items(y, z));
            assert forall|i: int| 0 <= i < x.tile@.len() implies (#[trigger] x.tile@[i]).wall == z.tile@[i].wall
                && x.tile@[i].tile == z.tile@[i].tile && x.tile@[i].deco == z.tile@[i].deco
                && x.tile@[i].chara == z.tile@[i].chara && x.tile@[i].special == z.tile@[i].special by {
                assert(y.tile@[i].wall == z.tile@[i].wall);
            }
        }
        assert forall|loc2: ItemListLocation| loc2 != loc && #[trigger] a.loc_valid(loc2) implies c.loc_valid(loc2)
            && c.list_view(loc2) == a.list_view(loc2) && (c.list_exists(loc2) <==> a.list_exists(loc2)) by {
            assert(b.loc_valid(loc2));
        }
    }

    /// `a` and `b` agree on everything but the item lists on their tiles.
    pub open spec fn same_but_items(a: GameMap, b: GameMap) -> bool {
        &&& a.w == b.w
        &&& a.h == b.h
        &&& a.entrance == b.entrance
        &&& a.boundary == b.boundary
        &&& a.charas == b.charas
        &&& a.tile@.len() == b.tile@.len()
        &&& forall|i: int| 0 <= i < a.tile@.len() ==> {
            let (x, y) = (#[trigger] a.tile@[i], b.tile@[i]);
            &&& x.tile == y.tile
            &&& x.wall == y.wall
            &&& x.deco == y.deco
            &&& x.chara == y.chara
            &&& x.special == y.special
        }
    }

    pub fn get_shop(&self, cid: CharaId) -> (r: &Shop)
        requires
            self.shop_valid(cid),
        ensures
            *r == self.spec_shop(cid),
    {
        match cid {
            CharaId::OnSite { sid, n } => {
                let site = self.region.get_site(sid);
                match &site.content {
                    SiteContent::Town { town } => &town.shops[n as usize],
                    _ => vstd::pervasive::unreached(),
                }
            },
            _ => vstd::pervasive::unreached(),
        }
    }

    pub fn get_shop_mut(&mut self, cid: CharaId) -> (r: &mut Shop)
        requires
            old(self).shop_valid(cid),
        ensures
            *r == old(self).spec_shop(cid),
            final(self).chara == old(self).chara,
            final(self).region.maps == old(self).region.maps,
            final(self).region.map_ids == old(self).region.map_ids,
            final(self).spec_current_mapid() == old(self).spec_current_mapid(),
            final(self).shop_valid(cid),
            final(self).spec_shop(cid) == *final(r),
            final(self).region.regions@.len() == old(self).region.regions@.len(),
            forall|c: CharaId| c != cid && #[trigger] old(self).shop_valid(c) ==> final(self).shop_valid(c)
                && final(self).spec_shop(c) == old(self).spec_shop(c),
            forall|i: int| 0 <= i < old(self).region.regions@.len() ==>
                (#[trigger] final(self).region.regions@[i]).sites@.len() == old(self).region.regions@[i].sites@.len(),
            forall|i: int, j: int| 0 <= i < old(self).region.regions@.len() && 0 <= j < old(self).region.regions@[i].sites@.len() ==>
                (#[trigger] final(self).region.regions@[i].sites@[j]).n_floors == old(self).region.regions@[i].sites@[j].n_floors,
            cid matches CharaId::OnSite { sid, n } ==> {
                let (r0, r1, ri, si) = (old(self).region.regions@, final(self).region.regions@, sid.rid.0 as int, sid.n as int);
                let (s0, s1) = (r0[ri].sites@[si], r1[ri].sites@[si]);
                &&& r1.len() == r0.len()
                &&& forall|i: int| 0 <= i < r0.len() && i != ri ==> #[trigger] r1[i] == r0[i]
                &&& r1[ri].sites@.len() == r0[ri].sites@.len()
                &&& forall|j: int| 0 <= j < r0[ri].sites@.len() && j != si ==> #[trigger] r1[ri].sites@[j] == r0[ri].sites@[j]
                &&& s1.kind == s0.kind
                &&& s1.pos == s0.pos
                &&& s1.n_floors == s0.n_floors
                &&& s1.map_seeds == s0.map_seeds
                &&& s1.content is Town
                &&& town_shops(s1.content) == town_shops(s0.content).update(n as int, *final(r))
            },
    {
        match cid {
            CharaId::OnSite { sid, n } => {
                let site = &mut self.region.regions[sid.rid.0 as usize].sites[sid.n as usize];
                match &mut site.content {
                    SiteContent::Town { town } => &mut town.shops[n as usize],
                    _ => vstd::pervasive::unreached(),
                }
            },
            _ => vstd::pervasive::unreached(),
        }
    }

    fn swap_chara_list(&mut self, cid: CharaId, l: ItemList) -> (r: ItemList)
        requires
            old(self).wf(),
            old(self).chara.contains(cid),
        ensures
            r@ == old(self).list_view(ItemListLocation::Chara { cid }),
            Self::list_put(*old(self), *final(self), ItemListLocation::Chara { cid }, l@),
            final(self).region == old(self).region,
    {
        let ghost g0 = *self;
        let loc = ItemListLocation::Chara { cid };
        let c = self.chara.get_mut(cid);
        let mut l2 = l;
        core::mem::swap(&mut c.item_list, &mut l2);
        proof {
            let t0 = if cid is OnMap { g0.chara.on_map } else { g0.chara.fixed };
            let t1 = if cid is OnMap { self.chara.on_map } else { self.chara.fixed };
            let k = t0.index_of(cid);
            assert(t0.entries@[k].0 == cid);
            assert forall|c2: CharaId| true implies
                (#[trigger] self.chara.fixed.contains(c2) == g0.chara.fixed.contains(c2))
                && self.chara.on_map.contains(c2) == g0.chara.on_map.contains(c2)
                && (g0.chara.contains(c2) ==> self.chara.spec_get(c2).item_list@ == (if c2 == cid { l@ } else { g0.chara.spec_get(c2).item_list@ })
                    && self.chara.spec_get(c2).equip == g0.chara.spec_get(c2).equip
                    && self.chara.spec_get(c2).level == g0.chara.spec_get(c2).level) by {
                CharaTable::lemma_same_ids(g0.chara.fixed, self.chara.fixed, c2);
                CharaTable::lemma_same_ids(g0.chara.on_map, self.chara.on_map, c2);
                if g0.chara.contains(c2) && c2 != cid && (c2 is OnMap == cid is OnMap) {
                    let k2 = t0.index_of(c2);
                    assert(t0.entries@[k2].0 == c2);
                }
            }
            assert forall|c2: CharaId| #[trigger] g0.chara.contains(c2) implies self.chara.spec_get(c2).level == g0.chara.spec_get(c2).level
                && self.chara.contains(c2) by {
                assert(self.chara.fixed.contains(c2) == g0.chara.fixed.contains(c2));
            }
            assert forall|c2: CharaId| #[trigger] self.chara.contains(c2) == g0.chara.contains(c2) by {
                assert(self.chara.fixed.contains(c2) == g0.chara.fixed.contains(c2));
            }
            assert(self.chara.fixed.ids() =~= g0.chara.fixed.ids());
            assert(self.chara.on_map.ids() =~= g0.chara.on_map.ids());
            CharaTable::lemma_same_ids(t0, t1, cid);
            assert(t1.index_of(cid) == k);
            assert(t1.entries@[k].1.item_list == l);
            assert(self.list_view(loc) == l@);
            assert(self.loc_valid(loc));
            assert forall|loc2: ItemListLocation| loc2 != loc && #[trigger] g0.loc_valid(loc2) implies self.loc_valid(loc2)
                && self.list_view(loc2) == g0.list_view(loc2)
                && (self.list_exists(loc2) <==> g0.list_exists(loc2)) by {
                match loc2 {
                    ItemListLocation::Chara { cid: c2 } => {
                        assert(self.chara.fixed.contains(c2) == g0.chara.fixed.contains(c2));
                        assert(self.chara.on_map.contains(c2) == g0.chara.on_map.contains(c2));
                    },
                    ItemListLocation::Equip { cid: c2 } => {
                        assert(self.chara.fixed.contains(c2) == g0.chara.fixed.contains(c2));
                        assert(self.chara.on_map.contains(c2) == g0.chara.on_map.contains(c2));
                    },
                    _ => {},
                }
            }
            assert forall|c2: CharaId| #[trigger] self.chara.fixed.contains(c2) implies !(c2 is OnMap) by {
                assert(g0.chara.fixed.contains(c2));
            }
            assert forall|c2: CharaId| #[trigger] self.chara.on_map.contains(c2) implies crate::world::is_on_map_of(c2, self.spec_current_mapid()) by {
                assert(g0.chara.on_map.contains(c2));
            }
            assert(self.wf());
        }
        l2
    }

    fn swap_tile_list(&mut self, mid: MapId, pos: Vec2d, l: ItemList) -> (r: ItemList)
        requires
            old(self).wf(),
            old(self).region.has_map(mid),
            old(self).region.spec_map(mid).contains_pos(pos),
            l.wf(),
        ensures
            r@ == old(self).list_view(ItemListLocation::OnMap { mid, pos }),
            r.wf(),
            Self::list_put(*old(self), *final(self), ItemListLocation::OnMap { mid, pos }, l@),
            final(self).chara == old(self).chara,
            final(self).region.regions == old(self).region.regions,
    {
        let ghost g0 = *self;
        let loc = ItemListLocation::OnMap { mid, pos };
        let ghost k = self.region.map_index(mid);
        let m = self.region.get_map_mut(mid);
        let j = m.tile_index(pos);
        let prev = m.tile[j].item_list.take();
        if l.is_empty() {
            m.tile[j].item_list = None;
        } else {
            m.tile[j].item_list = Some(l);
        }
        proof {
            assert(self.region.map_index(mid) == k);
            assert(self.region.map_ids@[k] == mid);
            let m0 = g0.region.maps@[k];
            let m1 = self.region.maps@[k];
            assert(m0.tile@[j as int].items_ok());
            assert forall|i: int| 0 <= i < m1.tile@.len() implies (#[trigger] m1.tile@[i]).items_ok() by {
                if i != j {
                    assert(m0.tile@[i].items_ok());
                }
            }
            assert(m1.wf());
            assert forall|i: int| 0 <= i < self.region.maps@.len() implies (#[trigger] self.region.maps@[i]).wf() by {
                if i != k {
                    assert(g0.region.maps@[i].wf());
                }
            }
            assert forall|i: int| 0 <= i < self.region.maps@.len() implies
                (#[trigger] self.region.maps@[i]).charas == g0.region.maps@[i].charas by {}
            assert(self.wf());
            assert(self.loc_valid(loc));
            assert(m1.tile@[j as int].item_list == (if l@.len() == 0 { None } else { Some(l) }));
            assert(self.list_view(loc) =~= l@);
            assert(self.list_exists(loc) <==> l@.len() > 0);
            assert(self.chara.fixed.ids() == g0.chara.fixed.ids());
            assert forall|loc2: ItemListLocation| loc2 != loc && #[trigger] g0.loc_valid(loc2) implies self.loc_valid(loc2)
                && self.list_view(loc2) == g0.list_view(loc2)
                && (self.list_exists(loc2) <==> g0.list_exists(loc2)) by {
                match loc2 {
                    ItemListLocation::OnMap { mid: mid2, pos: pos2 } => {
                        let k2 = g0.region.map_index(mid2);
                        assert(g0.region.map_ids@[k2] == mid2);
                        assert(self.region.map_index(mid2) == k2);
                        if mid2 == mid {
                            if index_of(m0.w, pos2) == index_of(m0.w, pos) {
                                GameMap::lemma_index_injective(m0.w, m0.h, pos, pos2);
                            }
                            GameMap::lemma_index(m0.w, m0.h, pos2);
                        }
                    },
                    _ => {},
                }
            }
        }
        match prev {
            Some(x) => x,
            None => ItemList::new(),
        }
    }

    fn swap_shop_list(&mut self, cid: CharaId, l: ItemList) -> (r: ItemList)
        requires
            old(self).wf(),
            old(self).shop_valid(cid),
        ensures
            r@ == old(self).list_view(ItemListLocation::Shop { cid }),
            Self::list_put(*old(self), *final(self), ItemListLocation::Shop { cid }, l@),
            final(self).chara == old(self).chara,
    {
        let ghost g0 = *self;
        let loc = ItemListLocation::Shop { cid };
        let shop = self.get_shop_mut(cid);
        let mut l2 = l;
        core::mem::swap(&mut shop.items, &mut l2);
        proof {
            assert forall|i: int| 0 <= i < self.region.map_ids@.len() implies self.region.id_valid(#[trigger] self.region.map_ids@[i]) by {
                assert(g0.region.id_valid(g0.region.map_ids@[i]));
                let m = self.region.map_ids@[i];
                if let MapId::SiteMap { sid, floor } = m {
                    assert(self.region.regions@[sid.rid.0 as int].sites@[sid.n as int].n_floors
                        == g0.region.regions@[sid.rid.0 as int].sites@[sid.n as int].n_floors);
                }
            }
            assert(self.region.wf());
            assert(self.wf());
            assert(self.list_view(loc) == l@);
            assert forall|loc2: ItemListLocation| loc2 != loc && #[trigger] g0.loc_valid(loc2) implies self.loc_valid(loc2)
                && self.list_view(loc2) == g0.list_view(loc2)
                && (self.list_exists(loc2) <==> g0.list_exists(loc2)) by {
                match loc2 {
                    ItemListLocation::OnMap { mid: mid2, .. } => {
                        let k2 = g0.region.map_index(mid2);
                        assert(g0.region.map_ids@[k2] == mid2);
                    },
                    _ => {},
                }
            }
        }
        l2
    }

    /// Puts `l` at `loc` and hands back what was there; a tile's list is
    /// created when `l` is the first to fill it and removed when `l` is empty.
    fn swap_list(&mut self, loc: ItemListLocation, l: ItemList) -> (r: ItemList)
        requires
            old(self).wf(),
            old(self).loc_valid(loc),
            !(loc is Equip),
            l.wf(),
        ensures
            r@ == old(self).list_view(loc),
            Self::list_put(*old(self), *final(self), loc, l@),
    {
        match loc {
            ItemListLocation::Chara { cid } => self.swap_chara_list(cid, l),
            ItemListLocation::OnMap { mid, pos } => self.swap_tile_list(mid, pos, l),
            ItemListLocation::Shop { cid } => self.swap_shop_list(cid, l),
            ItemListLocation::Equip { .. } => vstd::pervasive::unreached(),
        }
    }

    /// The item list at `loc`.
    pub fn get_item_list(&self, loc: ItemListLocation) -> (r: &ItemList)
        requires
            self.wf(),
            self.list_exists(loc),
        ensures
            r@ == self.list_view(loc),
    {
        match loc {
            ItemListLocation::Chara { cid } => &self.chara.get(cid).item_list,
            ItemListLocation::Equip { cid } => self.chara.get(cid).equip.list(),
            ItemListLocation::OnMap { mid, pos } => {
                let m = self.region.get_map(mid);
                let j = m.tile_index(pos);
                m.tile[j].item_list.as_ref().unwrap()
            },
            ItemListLocation::Shop { cid } => &self.get_shop(cid).items,
        }
    }

    /// Mutable access to the item list at `loc`; the equipment list is never
    /// handed out this way.
    pub fn get_item_list_mut(&mut self, loc: ItemListLocation) -> (r: &mut ItemList)
        requires
            old(self).wf(),
            old(self).list_exists(loc),
            !(loc is Equip),
        ensures
            r@ == old(self).list_view(loc),
            final(self).spec_current_mapid() == old(self).spec_current_mapid(),
            final(self).region.map_ids == old(self).region.map_ids,
    {
        match loc {
            ItemListLocation::Chara { cid } => &mut self.chara.get_mut(cid).item_list,
            ItemListLocation::OnMap { mid, pos } => {
                let m = self.region.get_map_mut(mid);
                let j = m.tile_index(pos);
                m.tile[j].item_list.as_mut().unwrap()
            },
            ItemListLocation::Shop { cid } => &mut self.get_shop_mut(cid).items,
            ItemListLocation::Equip { .. } => vstd::pervasive::unreached(),
        }
    }

    /// The item and quantity of the stack at `loc`.
    pub fn get_item(&self, loc: ItemLocation) -> (r: (&Item, u32))
        requires
            self.wf(),
            self.list_exists(loc.0),
            loc.1 < self.list_view(loc.0).len(),
        ensures
            *r.0 == self.list_view(loc.0)[loc.1 as int].0,
            r.1 == self.list_view(loc.0)[loc.1 as int].1,
    {
        let a = &self.get_item_list(loc.0).items[loc.1 as usize];
        (&a.0, a.1)
    }

    /// Takes `n` units from the stack at `loc` and hands back the item; a
    /// tile's list goes when it becomes empty.
    pub fn remove_item_and_get(&mut self, loc: ItemLocation, n: ItemMoveNum) -> (r: Item)
        requires
            old(self).wf(),
            old(self).list_exists(loc.0),
            !(loc.0 is Equip),
            loc.1 < old(self).list_view(loc.0).len(),
            stacks_ok(old(self).list_view(loc.0)),
            resolve_num(n, old(self).list_view(loc.0)[loc.1 as int].1) <= old(self).list_view(loc.0)[loc.1 as int].1,
        ensures
            r == old(self).list_view(loc.0)[loc.1 as int].0,
            ItemList::removed(
                old(self).list_view(loc.0),
                loc.1 as int,
                resolve_num(n, old(self).list_view(loc.0)[loc.1 as int].1),
                final(self).list_view(loc.0),
            ),
            Self::list_put(*old(self), *final(self), loc.0, final(self).list_view(loc.0)),
    {
        let ghost g0 = *self;
        let mut l = self.swap_list(loc.0, ItemList::new());
        let ghost g1 = *self;
        let item = l.remove_and_get(loc.1, n);
        let _ = self.swap_list(loc.0, l);
        proof {
            Self::lemma_list_put_trans(g0, g1, *self, loc.0, Seq::empty(), l@);
        }
        item
    }

    /// Takes `n` units from the stack at `loc`.
    pub fn remove_item(&mut self, loc: ItemLocation, n: ItemMoveNum)
        requires
            old(self).wf(),
            old(self).list_exists(loc.0),
            !(loc.0 is Equip),
            loc.1 < old(self).list_view(loc.0).len(),
            stacks_ok(old(self).list_view(loc.0)),
            resolve_num(n, old(self).list_view(loc.0)[loc.1 as int].1) <= old(self).list_view(loc.0)[loc.1 as int].1,
        ensures
            ItemList::removed(
                old(self).list_view(loc.0),
                loc.1 as int,
                resolve_num(n, old(self).list_view(loc.0)[loc.1 as int].1),
                final(self).list_view(loc.0),
            ),
            Self::list_put(*old(self), *final(self), loc.0, final(self).list_view(loc.0)),
    {
        let _ = self.remove_item_and_get(loc, n);
    }

    /// Moves `n` units (all of them for `ItemMoveNum::All`, counted now) of the
    /// stack at `src` to the end of the list at `dest`, creating a tile's list
    /// if needed and removing the source tile's list once it is empty.
    pub fn move_item(&mut self, src: ItemLocation, dest: ItemListLocation, n: ItemMoveNum)
        requires
            old(self).wf(),
            old(self).list_exists(src.0),
            old(self).loc_valid(dest),
            !(src.0 is Equip),
            !(dest is Equip),
            src.1 < old(self).list_view(src.0).len(),
            stacks_ok(old(self).list_view(src.0)),
            stacks_ok(old(self).list_view(dest)),
            resolve_num(n, old(self).list_view(src.0)[src.1 as int].1) <= old(self).list_view(src.0)[src.1 as int].1,
        ensures
            final(self).wf(),
            src.0 == dest ==> ({
                let before = old(self).list_view(src.0);
                let k = resolve_num(n, before[src.1 as int].1);
                &&& exists|rest: Seq<(Item, u32)>| #[trigger] ItemList::removed(before, src.1 as int, k, rest)
                    && final(self).list_view(dest) == (if k > 0 { rest.push((before[src.1 as int].0, k)) } else { rest })
                &&& total(final(self).list_view(dest)) == total(before)
            }),
            src.0 != dest ==> ({
                let before = old(self).list_view(src.0);
                let k = resolve_num(n, before[src.1 as int].1);
                &&& ItemList::removed(before, src.1 as int, k, final(self).list_view(src.0))
                &&& final(self).list_view(dest) == (if k > 0 {
                    old(self).list_view(dest).push((before[src.1 as int].0, k))
                } else {
                    old(self).list_view(dest)
                })
                &&& total(final(self).list_view(dest)) == total(old(self).list_view(dest)) + k
                &&& total(final(self).list_view(src.0)) == total(before) - k
            }),
            final(self).spec_current_mapid() == old(self).spec_current_mapid(),
            final(self).region.map_ids == old(self).region.map_ids,
            final(self).loc_valid(src.0),
            final(self).loc_valid(dest),
            forall|c: CharaId| #[trigger] old(self).chara.contains(c) ==> final(self).chara.contains(c)
                && final(self).chara.spec_get(c).level == old(self).chara.spec_get(c).level,
            forall|m: MapId| #[trigger] old(self).region.has_map(m) ==> final(self).region.has_map(m)
                && Self::same_but_items(old(self).region.spec_map(m), final(self).region.spec_map(m)),
            src.0 is OnMap ==> (final(self).list_exists(src.0) <==> final(self).list_view(src.0).len() > 0),
            dest is OnMap ==> (final(self).list_exists(dest) <==> final(self).list_view(dest).len() > 0),
            forall|loc2: ItemListLocation| loc2 != src.0 && loc2 != dest && #[trigger] old(self).loc_valid(loc2)
                ==> final(self).loc_valid(loc2) && final(self).list_view(loc2) == old(self).list_view(loc2)
                && (final(self).list_exists(loc2) <==> old(self).list_exists(loc2)),
    {
        let ghost g0 = *self;
        let mut sl = self.swap_list(src.0, ItemList::new());
        let ghost ga = *self;
        let k = match n {
            ItemMoveNum::Partial(k) => k,
            ItemMoveNum::All => sl.get_number(src.1),
        };
        let item = sl.remove_and_get(src.1, ItemMoveNum::Partial(k));
        let _ = self.swap_list(src.0, sl);
        let ghost g1 = *self;
        let mut dl = self.swap_list(dest, ItemList::new());
        let ghost gb = *self;
        proof {
            if src.0 != dest {
                assert(g1.list_view(dest) == g0.list_view(dest));
            }
            assert(dl.wf());
        }
        if k > 0 {
            dl.append(item, k);
        } else {
            proof {
                crate::item::lemma_total_push(dl@, (item, k));
            }
        }
        let _ = self.swap_list(dest, dl);
        proof {
            if src.0 != dest {
                assert(self.list_view(src.0) == g1.list_view(src.0));
                if k == 0 {
                    assert(self.list_view(dest) == g0.list_view(dest));
                }
            }
            Self::lemma_list_put_trans(g0, ga, g1, src.0, Seq::empty(), g1.list_view(src.0));
            Self::lemma_list_put_trans(g1, gb, *self, dest, Seq::empty(), self.list_view(dest));
            assert forall|c: CharaId| #[trigger] g0.chara.contains(c) implies self.chara.contains(c)
                && self.chara.spec_get(c).level == g0.chara.spec_get(c).level by {
                assert(g1.chara.contains(c));
            }
            assert forall|m: MapId| #[trigger] g0.region.has_map(m) implies self.region.has_map(m)
                && Self::same_but_items(g0.region.spec_map(m), self.region.spec_map(m)) by {
                assert(g1.region.has_map(m));
                let (x, y, z) = (g0.region.spec_map(m), g1.region.spec_map(m), self.region.spec_map(m));
                assert(Self::same_but_items(x, y));
                assert(Self::same_but_items(y, z));
                assert forall|i: int| 0 <= i < x.tile@.len() implies (#[trigger] x.tile@[i]).wall == z.tile@[i].wall
                    && x.tile@[i].tile == z.tile@[i].tile && x.tile@[i].deco == z.tile@[i].deco
                    && x.tile@[i].chara == z.tile@[i].chara && x.tile@[i].special == z.tile@[i].special by {
                    assert(y.tile@[i].wall == z.tile@[i].wall);
                }
            }
            if src.0 == dest {
                let rest = g1.list_view(src.0);
                assert(ItemList::removed(g0.list_view(src.0), src.1 as int, k, rest));
                crate::item::lemma_total_push(rest, (item, k));
            }
        }
    }

    pub fn get_equip_list(&self, cid: CharaId) -> (r: &EquipItemList)
        requires
            self.wf(),
            self.chara.contains(cid),
        ensures
            *r == self.chara.spec_get(cid).equip,
    {
        let chara = self.chara.get(cid);
        &chara.equip
    }

    pub fn get_equip_list_mut(&mut self, cid: CharaId) -> (r: &mut EquipItemList)
        requires
            old(self).wf(),
            old(self).chara.contains(cid),
        ensures
            *r == old(self).chara.spec_get(cid).equip,
            final(self).region == old(self).region,
            final(self).spec_current_mapid() == old(self).spec_current_mapid(),
    {
        let chara = self.chara.get_mut(cid);
        &mut chara.equip
    }
}

/// A tile's item list is present exactly when it holds some stack.
pub proof fn lemma_tile_list_present_iff_nonempty(g: GameData, mid: MapId, pos: Vec2d)
    requires
        g.wf(),
        g.region.has_map(mid),
        g.region.spec_map(mid).contains_pos(pos),
    ensures
        g.list_exists(ItemListLocation::OnMap { mid, pos }) <==> g.list_view(ItemListLocation::OnMap { mid, pos }).len() > 0,
{
    let k = g.region.map_index(mid);
    let m = g.region.maps@[k];
    assert(m.wf());
    GameMap::lemma_index(m.w, m.h, pos);
    assert(m.tile@[index_of(m.w, pos)].items_ok());
}

/// Moving a stack neither creates nor destroys units: the source loses
/// exactly what the destination gains.
pub proof fn lemma_move_conserves(before: Seq<(Item, u32)>, i: int, k: u32, after: Seq<(Item, u32)>, dest_before: Seq<(Item, u32)>, dest_after: Seq<(Item, u32)>)
    requires
        0 <= i < before.len(),
        ItemList::removed(before, i, k, after),
        dest_after == (if k > 0 { dest_before.push((before[i].0, k)) } else { dest_before }),
    ensures
        total(after) + total(dest_after) == total(before) + total(dest_before),
        total(dest_after) == total(dest_before) + k,
{
    crate::item::lemma_total_push(dest_before, (before[i].0, k));
}

} // verus!
