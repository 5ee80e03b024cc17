//! Characters and the tables that store them by identifier.
use vstd::prelude::*;
use crate::ids::{CharaId, MapId};
use crate::item::{EquipItemList, ItemList};

verus! {

#[derive(Clone, Debug)]
pub struct Chara {
    pub level: u32,
    pub item_list: ItemList,
    pub equip: EquipItemList,
}

impl Chara {
    /// A character of the given level, carrying and wearing nothing.
    pub fn new(level: u32) -> (r: Chara)
        ensures
            r.level == level,
            r.item_list.wf(),
            r.item_list@.len() == 0,
    {
        Chara { level, item_list: ItemList::new(), equip: EquipItemList::new() }
    }
}

/// Characters keyed by identifier; each identifier occurs at most once.
#[derive(Clone, Debug)]
pub struct CharaTable {
    pub entries: Vec<(CharaId, Chara)>,
}

impl CharaTable {
    pub open spec fn ids(&self) -> Seq<CharaId> {
        self.entries@.map_values(|e: (CharaId, Chara)| e.0)
    }

    pub open spec fn wf(&self) -> bool {
        forall|i: int, j: int|
            0 <= i < j < self.entries@.len() ==> #[trigger] self.entries@[i].0 != #[trigger] self.entries@[j].0
    }

    pub open spec fn contains(&self, cid: CharaId) -> bool {
        exists|i: int| 0 <= i < self.entries@.len() && #[trigger] self.entries@[i].0 == cid
    }

    pub open spec fn index_of(&self, cid: CharaId) -> int {
        choose|i: int| 0 <= i < self.entries@.len() && #[trigger] self.entries@[i].0 == cid
    }

    /// The character stored under `cid`.
    pub open spec fn spec_get(&self, cid: CharaId) -> Chara {
        self.entries@[self.index_of(cid)].1
    }

    pub open spec fn len(&self) -> nat {
        self.entries@.len()
    }

    pub fn new() -> (r: CharaTable)
        ensures
            r.wf(),
            r.len() == 0,
            forall|c: CharaId| !r.contains(c),
    {
        CharaTable { entries: Vec::new() }
    }

    pub fn find(&self, cid: CharaId) -> (r: Option<usize>)
        requires
            self.wf(),
        ensures
            r.is_none() <==> !self.contains(cid),
            r matches Some(i) ==> i == self.index_of(cid) && i < self.entries@.len()
                && self.entries@[i as int].0 == cid,
    {
        let mut i: usize = 0;
        while i < self.entries.len()
            invariant
                self.wf(),
                i <= self.entries@.len(),
                forall|j: int| 0 <= j < i ==> #[trigger] self.entries@[j].0 != cid,
            decreases self.entries@.len() - i,
        {
            if self.entries[i].0 == cid {
                assert(self.entries@[i as int].0 == cid);
                proof {
                    let k = self.index_of(cid);
                    assert(0 <= k < self.entries@.len() && self.entries@[k].0 == cid);
                    if k < i {
                        assert(self.entries@[k].0 != self.entries@[i as int].0);
                    } else if k > i {
                        assert(self.entries@[i as int].0 != self.entries@[k].0);
                    }
                }
                return Some(i);
            }
            i += 1;
        }
        None
    }

    pub fn has(&self, cid: CharaId) -> (r: bool)
        requires
            self.wf(),
        ensures
            r == self.contains(cid),
    {
        self.find(cid).is_some()
    }

    pub fn get(&self, cid: CharaId) -> (r: &Chara)
        requires
            self.wf(),
            self.contains(cid),
        ensures
            *r == self.spec_get(cid),
    {
        let i = self.find(cid).unwrap();
        &self.entries[i].1
    }

    pub fn get_mut(&mut self, cid: CharaId) -> (r: &mut Chara)
        requires
            old(self).wf(),
            old(self).contains(cid),
        ensures
            *r == old(self).spec_get(cid),
            final(self).entries@ == old(self).entries@.update(
                old(self).index_of(cid),
                (cid, *final(r)),
            ),
    {
        let i = self.find(cid).unwrap();
        &mut self.entries[i].1
    }

    /// Stores `c` under a new identifier.
    pub fn add(&mut self, cid: CharaId, c: Chara)
        requires
            old(self).wf(),
            !old(self).contains(cid),
        ensures
            final(self).wf(),
            final(self).entries@ == old(self).entries@.push((cid, c)),
            final(self).contains(cid),
            final(self).spec_get(cid) == c,
            forall|d: CharaId| d != cid ==> (#[trigger] final(self).contains(d) <==> old(self).contains(d)),
    {
        self.entries.push((cid, c));
        assert(self.entries@[self.entries@.len() - 1].0 == cid);
        proof {
            let k = self.index_of(cid);
            assert(k == self.entries@.len() - 1);
            assert forall|d: CharaId| d != cid && #[trigger] self.contains(d) implies old(self).contains(d) by {
                let j = choose|j: int| 0 <= j < self.entries@.len() && #[trigger] self.entries@[j].0 == d;
                assert(old(self).entries@[j].0 == d);
            }
            assert forall|d: CharaId| d != cid && #[trigger] old(self).contains(d) implies self.contains(d) by {
                let j = choose|j: int| 0 <= j < old(self).entries@.len() && #[trigger] old(self).entries@[j].0 == d;
                assert(self.entries@[j].0 == d);
            }
        }
    }

    /// Takes out the character stored under `cid`.
    pub fn remove(&mut self, cid: CharaId) -> (r: Chara)
        requires
            old(self).wf(),
            old(self).contains(cid),
        ensures
            final(self).wf(),
            r == old(self).spec_get(cid),
            final(self).entries@ == old(self).entries@.remove(old(self).index_of(cid)),
            !final(self).contains(cid),
            forall|d: CharaId| d != cid ==> (#[trigger] final(self).contains(d) <==> old(self).contains(d)),
    {
        let i = self.find(cid).unwrap();
        let ghost o = self.entries@;
        let (_, c) = self.entries.remove(i);
        proof {
            assert forall|d: CharaId| d != cid && #[trigger] old(self).contains(d) implies self.contains(d) by {
                let j = choose|j: int| 0 <= j < o.len() && #[trigger] o[j].0 == d;
                if j < i {
                    assert(self.entries@[j].0 == d);
                } else {
                    assert(j != i);
                    assert(self.entries@[j - 1].0 == d);
                }
            }
            assert forall|d: CharaId| #[trigger] self.contains(d) implies old(self).contains(d) && d != cid by {
                let j = choose|j: int| 0 <= j < self.entries@.len() && #[trigger] self.entries@[j].0 == d;
                if j < i {
                    assert(o[j].0 == d);
                } else {
                    assert(o[j + 1].0 == d);
                }
            }
        }
        c
    }

    /// Smallest slot `n` such that `OnMap { mid, n }` is not in the table.
    pub fn search_empty_onmap_charaid_n(&self, mid: MapId) -> (r: u32)
        requires
            self.wf(),
            self.len() < u32::MAX,
        ensures
            !self.contains(CharaId::OnMap { mid, n: r }),
            forall|m: u32| m < r ==> #[trigger] self.contains(CharaId::OnMap { mid, n: m }),
    {
        let mut n: u32 = 0;
        let ghost mut seen: Set<CharaId> = Set::empty();
        proof {
            self.ids().lemma_cardinality_of_set();
        }
        while self.has(CharaId::on_map(mid, n))
            invariant
                self.wf(),
                self.len() < u32::MAX,
                self.ids().to_set().len() <= self.len(),
                seen.finite(),
                seen.len() == n,
                seen.subset_of(self.ids().to_set()),
                n <= self.len(),
                forall|c: CharaId| #[trigger] seen.contains(c) ==> (c matches CharaId::OnMap { mid: m2, n: k } && m2 == mid && k < n),
                forall|m: u32| m < n ==> #[trigger] self.contains(CharaId::OnMap { mid, n: m }),
            decreases self.len() - n,
        {
            proof {
                let c = CharaId::OnMap { mid, n };
                assert(!seen.contains(c));
                let j = choose|j: int| 0 <= j < self.entries@.len() && #[trigger] self.entries@[j].0 == c;
                assert(self.ids()[j] == c);
                seen = seen.insert(c);
                vstd::set_lib::lemma_len_subset(seen, self.ids().to_set());
            }
            n = n + 1;
        }
        n
    }

    /// Tables with the same identifiers in the same order agree on where each one is.
    pub proof fn lemma_same_ids(a: CharaTable, b: CharaTable, c: CharaId)
        requires
            a.wf(),
            a.entries@.len() == b.entries@.len(),
            forall|i: int| 0 <= i < a.entries@.len() ==> (#[trigger] b.entries@[i]).0 == a.entries@[i].0,
        ensures
            b.wf(),
            b.contains(c) == a.contains(c),
            a.contains(c) ==> b.index_of(c) == a.index_of(c),
    {
        assert forall|i: int, j: int| 0 <= i < j < b.entries@.len() implies #[trigger] b.entries@[i].0 != #[trigger] b.entries@[j].0 by {
            assert(a.entries@[i].0 != a.entries@[j].0);
        }
        if a.contains(c) {
            let k = a.index_of(c);
            assert(b.entries@[k].0 == c);
            let k2 = b.index_of(c);
            assert(a.entries@[k2].0 == c);
            if k2 < k {
                assert(a.entries@[k2].0 != a.entries@[k].0);
            } else if k2 > k {
                assert(a.entries@[k].0 != a.entries@[k2].0);
            }
        }
        if b.contains(c) {
            let k2 = b.index_of(c);
            assert(a.entries@[k2].0 == c);
        }
    }
}

} // verus!
