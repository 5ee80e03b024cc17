//! Item stacks and the lists that hold them.
use vstd::prelude::*;

verus! {

/// One kind of item, by its object index.
#[derive(Clone, Copy, Debug, PartialEq, Eq, Structural, Hash)]
pub struct Item {
    pub idx: u32,
}

/// How many units of a stack to move or remove.
#[derive(Clone, Copy, Debug, PartialEq, Eq, Structural)]
pub enum ItemMoveNum {
    Partial(u32),
    All,
}

/// The number of units that `n` stands for, against a stack of `present` units.
pub open spec fn resolve_num(n: ItemMoveNum, present: u32) -> u32 {
    match n {
        ItemMoveNum::Partial(k) => k,
        ItemMoveNum::All => present,
    }
}

/// Total number of units over all stacks.
pub open spec fn total(s: Seq<(Item, u32)>) -> int
    decreases s.len(),
{
    if s.len() == 0 {
        0
    } else {
        total(s.drop_last()) + s.last().1
    }
}

pub proof fn lemma_total_push(s: Seq<(Item, u32)>, e: (Item, u32))
    ensures
        total(s.push(e)) == total(s) + e.1,
{
    assert(s.push(e).drop_last() =~= s);
}

pub proof fn lemma_total_update(s: Seq<(Item, u32)>, i: int, e: (Item, u32))
    requires
        0 <= i < s.len(),
    ensures
        total(s.update(i, e)) == total(s) - s[i].1 + e.1,
    decreases s.len(),
{
    if i == s.len() - 1 {
        assert(s.update(i, e).drop_last() =~= s.drop_last());
    } else {
        lemma_total_update(s.drop_last(), i, e);
        assert(s.update(i, e).drop_last() =~= s.drop_last().update(i, e));
    }
}

pub proof fn lemma_total_remove(s: Seq<(Item, u32)>, i: int)
    requires
        0 <= i < s.len(),
    ensures
        total(s.remove(i)) == total(s) - s[i].1,
    decreases s.len(),
{
    if i == s.len() - 1 {
        assert(s.remove(i) =~= s.drop_last());
    } else {
        lemma_total_remove(s.drop_last(), i);
        assert(s.remove(i).drop_last() =~= s.drop_last().remove(i));
    }
}

/// An ordered sequence of (item, quantity) stacks; every stack holds at least one unit.
#[derive(Clone, Debug)]
pub struct ItemList {
    pub items: Vec<(Item, u32)>,
}

impl ItemList {
    pub open spec fn view(&self) -> Seq<(Item, u32)> {
        self.items@
    }

    pub open spec fn wf(&self) -> bool {
        forall|i: int| 0 <= i < self.items@.len() ==> #[trigger] self.items@[i].1 > 0
    }

    pub fn new() -> (r: ItemList)
        ensures
            r@ == Seq::<(Item, u32)>::empty(),
            r.wf(),
    {
        ItemList { items: Vec::new() }
    }

    pub fn is_empty(&self) -> (r: bool)
        ensures
            r == (self@.len() == 0),
    {
        self.items.len() == 0
    }

    pub fn len(&self) -> (r: usize)
        ensures
            r == self@.len(),
    {
        self.items.len()
    }

    /// Quantity of the stack at `i`.
    pub fn get_number(&self, i: u32) -> (r: u32)
        requires
            i < self@.len(),
        ensures
            r == self@[i as int].1,
    {
        self.items[i as usize].1
    }

    /// Takes `n` units from the stack at `i`; the stack goes when it is empty.
    pub fn remove(&mut self, i: u32, n: ItemMoveNum)
        requires
            old(self).wf(),
            i < old(self)@.len(),
            resolve_num(n, old(self)@[i as int].1) <= old(self)@[i as int].1,
        ensures
            final(self).wf(),
            Self::removed(old(self)@, i as int, resolve_num(n, old(self)@[i as int].1), final(self)@),
    {
        let _ = self.remove_and_get(i, n);
    }

    /// The list `after` is `before` with `k` units taken from the stack at `i`.
    pub open spec fn removed(before: Seq<(Item, u32)>, i: int, k: u32, after: Seq<(Item, u32)>) -> bool {
        &&& k < before[i].1 ==> after == before.update(i, (before[i].0, (before[i].1 - k) as u32))
        &&& k == before[i].1 ==> after == before.remove(i)
        &&& total(after) == total(before) - k
    }

    /// As `remove`, and hands back the item taken.
    pub fn remove_and_get(&mut self, i: u32, n: ItemMoveNum) -> (r: Item)
        requires
            old(self).wf(),
            i < old(self)@.len(),
            resolve_num(n, old(self)@[i as int].1) <= old(self)@[i as int].1,
        ensures
            final(self).wf(),
            r == old(self)@[i as int].0,
            Self::removed(old(self)@, i as int, resolve_num(n, old(self)@[i as int].1), final(self)@),
    {
        let idx = i as usize;
        let (item, present) = self.items[idx];
        let k = match n {
            ItemMoveNum::Partial(k) => k,
            ItemMoveNum::All => present,
        };
        proof {
            if k < present {
                lemma_total_update(self.items@, idx as int, (item, (present - k) as u32));
            } else {
                lemma_total_remove(self.items@, idx as int);
            }
        }
        if k < present {
            self.items.set(idx, (item, present - k));
        } else {
            self.items.remove(idx);
        }
        item
    }

    /// Appends a stack of `n` units of `item`.
    pub fn append(&mut self, item: Item, n: u32)
        requires
            old(self).wf(),
            n > 0,
        ensures
            final(self).wf(),
            final(self)@ == old(self)@.push((item, n)),
            total(final(self)@) == total(old(self)@) + n,
    {
        proof {
            lemma_total_push(self.items@, (item, n));
        }
        self.items.push((item, n));
    }
}

/// The items a character wears; only read access is offered to the
/// item-location resolver.
#[derive(Clone, Debug)]
pub struct EquipItemList {
    pub list: ItemList,
}

impl EquipItemList {
    pub fn new() -> (r: EquipItemList)
        ensures
            r.list@ == Seq::<(Item, u32)>::empty(),
    {
        EquipItemList { list: ItemList::new() }
    }

    pub fn list(&self) -> (r: &ItemList)
        ensures
            r == &self.list,
    {
        &self.list
    }
}

} // verus!
