//! The inventory: named items with counts, under a capacity.

use vstd::prelude::*;

verus! {

/// The items of one name that an inventory holds.
#[derive(Debug, Clone)]
pub struct ItemStack {
    pub name: String,
    pub count: u32,
}

/// Items and resources carried by an entity. The items of all names together
/// never exceed the capacity.
#[derive(Debug, Clone)]
pub struct Inventory {
    pub items: Vec<ItemStack>,
    pub capacity: u32,
}

/// The number of items in a sequence of stacks.
pub open spec fn total_count(items: Seq<ItemStack>) -> nat
    decreases items.len(),
{
    if items.len() == 0 {
        0
    } else {
        total_count(items.drop_last()) + items.last().count as nat
    }
}

/// Whether some stack has the name.
pub open spec fn has_stack(items: Seq<ItemStack>, name: Seq<char>) -> bool {
    exists|i: int| 0 <= i < items.len() && (#[trigger] items[i]).name@ == name
}

/// The position of a stack with the name.
pub open spec fn stack_position(items: Seq<ItemStack>, name: Seq<char>) -> int {
    choose|i: int| 0 <= i < items.len() && (#[trigger] items[i]).name@ == name
}

/// How many items of a name a map of counts holds: none where the name is
/// missing.
pub open spec fn held(counts: Map<Seq<char>, u32>, name: Seq<char>) -> int {
    if counts.contains_key(name) {
        counts[name] as int
    } else {
        0
    }
}

/// A stack appended adds its count to the total.
proof fn lemma_total_push(items: Seq<ItemStack>, stack: ItemStack)
    ensures
        total_count(items.push(stack)) == total_count(items) + stack.count,
{
    assert(items.push(stack).drop_last() =~= items);
}

/// A stack replaced changes the total by the difference of the counts; and
/// no stack holds more than the total.
proof fn lemma_total_update(items: Seq<ItemStack>, i: int, stack: ItemStack)
    requires
        0 <= i < items.len(),
    ensures
        total_count(items.update(i, stack)) == total_count(items) - items[i].count + stack.count,
        items[i].count <= total_count(items),
    decreases items.len(),
{
    let updated = items.update(i, stack);
    if i == items.len() - 1 {
        assert(updated.drop_last() =~= items.drop_last());
    } else {
        lemma_total_update(items.drop_last(), i, stack);
        assert(updated.drop_last() =~= items.drop_last().update(i, stack));
    }
}

/// A stack removed takes its count off the total.
proof fn lemma_total_remove(items: Seq<ItemStack>, i: int)
    requires
        0 <= i < items.len(),
    ensures
        total_count(items.remove(i)) == total_count(items) - items[i].count,
    decreases items.len(),
{
    let removed = items.remove(i);
    if i == items.len() - 1 {
        assert(removed =~= items.drop_last());
    } else {
        lemma_total_remove(items.drop_last(), i);
        assert(removed.drop_last() =~= items.drop_last().remove(i));
        assert(removed.last() == items.last());
    }
}

impl View for Inventory {
    type V = Map<Seq<char>, u32>;

    /// The count held of each name that has a stack.
    open spec fn view(&self) -> Map<Seq<char>, u32> {
        counts_of(self.items@)
    }
}

impl Inventory {
    /// Whether no name has two stacks and the items fit the capacity.
    pub open spec fn wf(&self) -> bool {
        &&& names_differ(self.items@)
        &&& total_count(self.items@) <= self.capacity
    }

    /// The number of items held, of all names together.
    pub open spec fn total(&self) -> nat {
        total_count(self.items@)
    }

    /// No name is held more often than all names together, so no more often
    /// than the capacity allows.
    pub proof fn lemma_held_within_capacity(&self, name: Seq<char>)
        requires
            self.wf(),
        ensures
            held(self@, name) <= self.total() <= self.capacity,
    {
        if has_stack(self.items@, name) {
            let i = stack_position(self.items@, name);
            lemma_view_at(self.items@, i);
            lemma_total_update(self.items@, i, self.items@[i]);
        }
    }

    /// An empty inventory.
    pub fn new(capacity: u32) -> (inventory: Self)
        ensures
            inventory.wf(),
            inventory@ == Map::<Seq<char>, u32>::empty(),
            inventory.capacity == capacity,
            inventory.total() == 0,
    {
        let inventory = Inventory { items: Vec::new(), capacity };
        proof {
            assert(inventory@ =~= Map::<Seq<char>, u32>::empty());
        }
        inventory
    }

    /// The position of the stack named `name`, if there is one.
    fn find(&self, name: &String) -> (found: Option<usize>)
        ensures
            found.is_some() == has_stack(self.items@, name@),
            found.is_some() ==> found.unwrap() < self.items@.len()
                && self.items@[found.unwrap() as int].name@ == name@,
    {
        let mut i: usize = 0;
        while i < self.items.len()
            invariant
                i <= self.items@.len(),
                forall|k: int| 0 <= k < i ==> (#[trigger] self.items@[k]).name@ != name@,
            decreases self.items@.len() - i,
        {
            if self.items[i].name == *name {
                return Some(i);
            }
            i = i + 1;
        }
        None
    }

    /// The number of items held, of all names together.
    pub fn item_count(&self) -> (count: u32)
        requires
            self.wf(),
        ensures
            count == self.total(),
    {
        let mut count: u32 = 0;
        let mut i: usize = 0;
        proof {
            assert(self.items@.take(0) =~= Seq::<ItemStack>::empty());
        }
        while i < self.items.len()
            invariant
                i <= self.items@.len(),
                count == total_count(self.items@.take(i as int)),
                total_count(self.items@) <= self.capacity,
            decreases self.items@.len() - i,
        {
            proof {
                let seen = self.items@.take(i as int);
                assert(self.items@.take(i + 1) =~= seen.push(self.items@[i as int]));
                lemma_total_push(seen, self.items@[i as int]);
                lemma_total_prefix(self.items@, i + 1);
            }
            count = count + self.items[i].count;
            i = i + 1;
        }
        proof {
            assert(self.items@.take(i as int) =~= self.items@);
        }
        count
    }

    /// Adds `quantity` items named `item` if they fit: if the items held and
    /// the new ones together do not exceed the capacity. Otherwise nothing
    /// changes.
    pub fn add_item(&mut self, item: String, quantity: u32) -> (added: bool)
        requires
            old(self).wf(),
        ensures
            final(self).wf(),
            final(self).capacity == old(self).capacity,
            added == (old(self).total() + quantity <= old(self).capacity),
            added ==> {
                &&& final(self)@.contains_key(item@)
                &&& final(self)@[item@] == held(old(self)@, item@) + quantity
                &&& final(self)@.remove(item@) == old(self)@.remove(item@)
                &&& final(self).total() == old(self).total() + quantity
            },
            !added ==> *final(self) == *old(self),
    {
        let current_count: u32 = self.item_count();
        if current_count as u64 + quantity as u64 > self.capacity as u64 {
            return false;
        }
        let ghost before = self.items@;
        match self.find(&item) {
            Some(i) => {
                proof {
                    lemma_total_update(before, i as int, before[i as int]);
                    lemma_view_at(before, i as int);
                }
                let stack = ItemStack { name: item, count: self.items[i].count + quantity };
                proof {
                    lemma_total_update(before, i as int, stack);
                }
                self.items[i] = stack;
                proof {
                    assert(self.items@ == before.update(i as int, stack));
                    lemma_view_update(before, i as int, stack);
                }
            },
            None => {
                let stack = ItemStack { name: item, count: quantity };
                self.items.push(stack);
                proof {
                    lemma_total_push(before, stack);
                    lemma_view_push(before, stack);
                }
            },
        }
        true
    }

    /// Takes `quantity` items named `item` out if that many are held; a name
    /// of which none is left is forgotten. Otherwise nothing changes.
    pub fn remove_item(&mut self, item: &str, quantity: u32) -> (removed: bool)
        requires
            old(self).wf(),
        ensures
            final(self).wf(),
            final(self).capacity == old(self).capacity,
            removed == (old(self)@.contains_key(item@) && old(self)@[item@] >= quantity),
            removed ==> {
                &&& final(self)@.remove(item@) == old(self)@.remove(item@)
                &&& final(self)@.contains_key(item@) == (old(self)@[item@] > quantity)
                &&& held(final(self)@, item@) == old(self)@[item@] - quantity
                &&& final(self).total() == old(self).total() - quantity
            },
            !removed ==> *final(self) == *old(self),
    {
        let name: String = item.to_owned();
        let ghost before = self.items@;
        match self.find(&name) {
            Some(i) => {
                proof {
                    lemma_view_at(before, i as int);
                }
                let count: u32 = self.items[i].count;
                if count >= quantity {
                    if count == quantity {
                        self.items.remove(i);
                        proof {
                            lemma_total_remove(before, i as int);
                            lemma_view_remove(before, i as int);
                        }
                    } else {
                        let stack = ItemStack { name, count: count - quantity };
                        proof {
                            lemma_total_update(before, i as int, stack);
                        }
                        self.items[i] = stack;
                        proof {
                            assert(self.items@ == before.update(i as int, stack));
                            lemma_view_update(before, i as int, stack);
                        }
                    }
                    true
                } else {
                    false
                }
            },
            None => false,
        }
    }

    /// Whether at least `quantity` items named `item` are held, the name
    /// being known.
    pub fn has_item(&self, item: &str, quantity: u32) -> (has: bool)
        requires
            self.wf(),
        ensures
            has == (self@.contains_key(item@) && self@[item@] >= quantity),
    {
        let name: String = item.to_owned();
        match self.find(&name) {
            Some(i) => {
                proof {
                    lemma_view_at(self.items@, i as int);
                }
                self.items[i].count >= quantity
            },
            None => false,
        }
    }
}

/// The counts that a sequence of stacks holds, by name.
pub open spec fn counts_of(items: Seq<ItemStack>) -> Map<Seq<char>, u32> {
    Map::new(
        |name: Seq<char>| has_stack(items, name),
        |name: Seq<char>| items[stack_position(items, name)].count,
    )
}

/// Whether no name has two stacks.
pub open spec fn names_differ(items: Seq<ItemStack>) -> bool {
    forall|i: int, j: int|
        0 <= i < j < items.len() ==> (#[trigger] items[i]).name@ != (#[trigger] items[j]).name@
}

/// The first stacks hold no more than all of them.
proof fn lemma_total_prefix(items: Seq<ItemStack>, n: int)
    requires
        0 <= n <= items.len(),
    ensures
        total_count(items.take(n)) <= total_count(items),
    decreases items.len() - n,
{
    if n < items.len() {
        lemma_total_prefix(items, n + 1);
        assert(items.take(n + 1).drop_last() =~= items.take(n));
    } else {
        assert(items.take(n) =~= items);
    }
}

/// Where names differ, the count held of a stack's name is that stack's.
proof fn lemma_view_at(items: Seq<ItemStack>, i: int)
    requires
        names_differ(items),
        0 <= i < items.len(),
    ensures
        counts_of(items).contains_key(items[i].name@),
        counts_of(items)[items[i].name@] == items[i].count,
{
    let name = items[i].name@;
    assert(has_stack(items, name));
    let p = stack_position(items, name);
    assert(p == i) by {
        if p < i {
            assert(items[p].name@ != items[i].name@);
        } else if i < p {
            assert(items[i].name@ != items[p].name@);
        }
    }
}

/// Replacing a stack by one of the same name sets the count held of the name.
proof fn lemma_view_update(items: Seq<ItemStack>, i: int, stack: ItemStack)
    requires
        names_differ(items),
        0 <= i < items.len(),
        stack.name@ == items[i].name@,
    ensures
        names_differ(items.update(i, stack)),
        counts_of(items.update(i, stack)) == counts_of(items).insert(stack.name@, stack.count),
{
    let updated = items.update(i, stack);
    assert forall|a: int, b: int| 0 <= a < b < updated.len() implies (#[trigger] updated[a]).name@
        != (#[trigger] updated[b]).name@ by {
        assert(items[a].name@ != items[b].name@);
    }
    assert forall|name: Seq<char>| has_stack(updated, name) == has_stack(items, name) by {
        if has_stack(updated, name) {
            let p = stack_position(updated, name);
            assert(items[p].name@ == name);
        }
        if has_stack(items, name) {
            let p = stack_position(items, name);
            assert(updated[p].name@ == name);
        }
    }
    assert forall|name: Seq<char>| has_stack(updated, name) implies counts_of(updated)[name]
        == counts_of(items).insert(stack.name@, stack.count)[name] by {
        let p = stack_position(updated, name);
        lemma_view_at(updated, p);
        lemma_view_at(items, p);
    }
    assert(counts_of(updated) =~= counts_of(items).insert(stack.name@, stack.count));
}

/// Appending a stack of a new name adds the name with its count.
proof fn lemma_view_push(items: Seq<ItemStack>, stack: ItemStack)
    requires
        names_differ(items),
        !has_stack(items, stack.name@),
    ensures
        names_differ(items.push(stack)),
        counts_of(items.push(stack)) == counts_of(items).insert(stack.name@, stack.count),
{
    let pushed = items.push(stack);
    assert forall|a: int, b: int| 0 <= a < b < pushed.len() implies (#[trigger] pushed[a]).name@
        != (#[trigger] pushed[b]).name@ by {
        if b < items.len() {
            assert(items[a].name@ != items[b].name@);
        } else {
            assert(items[a].name@ != stack.name@);
        }
    }
    assert forall|name: Seq<char>|
        has_stack(pushed, name) == (has_stack(items, name) || name == stack.name@) by {
        if has_stack(pushed, name) {
            let p = stack_position(pushed, name);
            if p < items.len() {
                assert(items[p].name@ == name);
            }
        }
        if has_stack(items, name) {
            let p = stack_position(items, name);
            assert(pushed[p].name@ == name);
        }
        if name == stack.name@ {
            assert(pushed[items.len() as int].name@ == name);
        }
    }
    assert forall|name: Seq<char>| has_stack(pushed, name) implies counts_of(pushed)[name]
        == counts_of(items).insert(stack.name@, stack.count)[name] by {
        let p = stack_position(pushed, name);
        lemma_view_at(pushed, p);
        if p < items.len() {
            lemma_view_at(items, p);
        }
    }
    assert(counts_of(pushed) =~= counts_of(items).insert(stack.name@, stack.count));
}

/// Removing a stack forgets its name and leaves the others as they were.
proof fn lemma_view_remove(items: Seq<ItemStack>, i: int)
    requires
        names_differ(items),
        0 <= i < items.len(),
    ensures
        names_differ(items.remove(i)),
        counts_of(items.remove(i)) == counts_of(items).remove(items[i].name@),
{
    let removed = items.remove(i);
    assert forall|a: int, b: int| 0 <= a < b < removed.len() implies (#[trigger] removed[a]).name@
        != (#[trigger] removed[b]).name@ by {
        let a0 = if a < i { a } else { a + 1 };
        let b0 = if b < i { b } else { b + 1 };
        assert(removed[a] == items[a0] && removed[b] == items[b0]);
        assert(items[a0].name@ != items[b0].name@);
    }
    assert forall|name: Seq<char>|
        has_stack(removed, name) == (has_stack(items, name) && name != items[i].name@) by {
        if has_stack(removed, name) {
            let p = stack_position(removed, name);
            let p0 = if p < i { p } else { p + 1 };
            assert(removed[p] == items[p0]);
            assert(items[p0].name@ == name);
            if p0 < i {
                assert(items[p0].name@ != items[i].name@);
            } else {
                assert(items[i].name@ != items[p0].name@);
            }
        }
        if has_stack(items, name) && name != items[i].name@ {
            let p = stack_position(items, name);
            let q = if p < i { p } else { p - 1 };
            assert(removed[q] == items[p]);
        }
    }
    assert forall|name: Seq<char>| has_stack(removed, name) implies counts_of(removed)[name]
        == counts_of(items).remove(items[i].name@)[name] by {
        let p = stack_position(removed, name);
        let p0 = if p < i { p } else { p + 1 };
        assert(removed[p] == items[p0]);
        lemma_view_at(removed, p);
        lemma_view_at(items, p0);
    }
    assert(counts_of(removed) =~= counts_of(items).remove(items[i].name@));
}

} // verus!
