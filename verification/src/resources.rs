//! Resources and inventories: a resource is named by a number, and an
//! inventory maps resources to signed amounts, remembering the order in
//! which the resources were first entered.

use vstd::prelude::*;

verus! {

/// The name of a kind of resource.
#[derive(Clone, Copy, PartialEq, Eq, Structural, Debug, Hash)]
pub struct ResourceId(pub u16);

/// A signed quantity of a resource: positive is given, negative is taken.
pub type ResourceAmount = i64;

/// One line of an inventory: a resource and its amount.
#[derive(Clone, Copy, PartialEq, Eq, Structural, Debug)]
pub struct Entry(pub ResourceId, pub ResourceAmount);

/// Whether some entry of `s` is about `resource`.
pub open spec fn has_key(s: Seq<Entry>, resource: ResourceId) -> bool {
    exists|i: int| 0 <= i < s.len() && (#[trigger] s[i]).0 == resource
}

/// No resource has two entries in `s`.
pub open spec fn distinct_keys(s: Seq<Entry>) -> bool {
    forall|i: int, j: int| 0 <= i < j < s.len() ==> (#[trigger] s[i]).0 != (#[trigger] s[j]).0
}

/// The position of the entry about `resource`, or the length of `s` where
/// there is none.
pub open spec fn key_index(s: Seq<Entry>, resource: ResourceId) -> int
    decreases s.len(),
{
    if s.len() == 0 {
        0
    } else if s[0].0 == resource {
        0
    } else {
        1 + key_index(s.drop_first(), resource)
    }
}

/// The amount entered for `resource`, if any.
pub open spec fn amount_of(s: Seq<Entry>, resource: ResourceId) -> Option<ResourceAmount> {
    if has_key(s, resource) {
        Some(s[key_index(s, resource)].1)
    } else {
        None
    }
}

/// `s` after entering `amount` for `resource`: an existing entry keeps its
/// place and takes the new amount, a new resource goes to the end.
pub open spec fn with_entry(s: Seq<Entry>, resource: ResourceId, amount: ResourceAmount) -> Seq<
    Entry,
> {
    if has_key(s, resource) {
        s.update(key_index(s, resource), Entry(resource, amount))
    } else {
        s.push(Entry(resource, amount))
    }
}

/// The entries that result from entering `pairs` one after the other into
/// an empty inventory.
pub open spec fn collected(pairs: Seq<(ResourceId, ResourceAmount)>) -> Seq<Entry>
    decreases pairs.len(),
{
    if pairs.len() == 0 {
        Seq::empty()
    } else {
        with_entry(collected(pairs.drop_last()), pairs.last().0, pairs.last().1)
    }
}

/// `key_index` is the place of the first entry about the resource.
pub proof fn lemma_key_index(s: Seq<Entry>, resource: ResourceId)
    ensures
        0 <= key_index(s, resource) <= s.len(),
        forall|j: int| 0 <= j < key_index(s, resource) ==> (#[trigger] s[j]).0 != resource,
        key_index(s, resource) < s.len() ==> s[key_index(s, resource)].0 == resource,
        has_key(s, resource) <==> key_index(s, resource) < s.len(),
    decreases s.len(),
{
    if s.len() == 0 {
    } else if s[0].0 == resource {
    } else {
        let rest = s.drop_first();
        lemma_key_index(rest, resource);
        let k = key_index(rest, resource);
        assert forall|j: int| 0 <= j < k + 1 implies (#[trigger] s[j]).0 != resource by {
            if j > 0 {
                assert(rest[j - 1] == s[j]);
            }
        }
        if k < rest.len() {
            assert(rest[k] == s[k + 1]);
        }
        if has_key(s, resource) {
            let i = choose|i: int| 0 <= i < s.len() && (#[trigger] s[i]).0 == resource;
            assert(rest[i - 1] == s[i]);
        }
    }
}

/// Entering an amount keeps the keys distinct, sets the amount of that
/// resource and leaves every other resource as it was.
pub proof fn lemma_with_entry(s: Seq<Entry>, resource: ResourceId, amount: ResourceAmount)
    requires
        distinct_keys(s),
    ensures
        distinct_keys(with_entry(s, resource, amount)),
        amount_of(with_entry(s, resource, amount), resource) == Some(amount),
        forall|other: ResourceId|
            other != resource ==> #[trigger] amount_of(with_entry(s, resource, amount), other)
                == amount_of(s, other),
        forall|other: ResourceId|
            #[trigger] has_key(with_entry(s, resource, amount), other) <==> (other == resource
                || has_key(s, other)),
{
    let t = with_entry(s, resource, amount);
    let k = key_index(s, resource);
    lemma_key_index(s, resource);
    assert(t[k] == Entry(resource, amount));
    assert(has_key(t, resource));
    assert(distinct_keys(t));
    lemma_key_index(t, resource);
    assert(key_index(t, resource) == k) by {
        if key_index(t, resource) != k {
            assert(t[key_index(t, resource)].0 == t[k].0);
        }
    }
    assert forall|other: ResourceId| #[trigger]
        has_key(t, other) <==> (other == resource || has_key(s, other)) by {
        if has_key(t, other) && other != resource {
            let i = choose|i: int| 0 <= i < t.len() && (#[trigger] t[i]).0 == other;
            assert(s[i].0 == other);
        }
        if has_key(s, other) {
            let i = choose|i: int| 0 <= i < s.len() && (#[trigger] s[i]).0 == other;
            assert(t[i].0 == other || other == resource);
        }
    }
    assert forall|other: ResourceId| other != resource implies #[trigger] amount_of(t, other)
        == amount_of(s, other) by {
        lemma_key_index(s, other);
        lemma_key_index(t, other);
        if has_key(s, other) {
            let a = key_index(s, other);
            let b = key_index(t, other);
            assert(t[a].0 == other);
            assert(s[b].0 == other);
            if a != b {
                assert(s[a].0 == s[b].0);
            }
        }
    }
}

/// The amount of the last of `pairs` that is about `resource`, if any is.
pub open spec fn last_amount(pairs: Seq<(ResourceId, ResourceAmount)>, resource: ResourceId)
    -> Option<ResourceAmount>
    decreases pairs.len(),
{
    if pairs.len() == 0 {
        None
    } else if pairs.last().0 == resource {
        Some(pairs.last().1)
    } else {
        last_amount(pairs.drop_last(), resource)
    }
}

/// Entering pairs one after the other gives each resource one entry,
/// with the amount of the last pair that is about it.
pub proof fn lemma_collected(pairs: Seq<(ResourceId, ResourceAmount)>)
    ensures
        distinct_keys(collected(pairs)),
        collected(pairs).len() <= pairs.len(),
        forall|resource: ResourceId| #[trigger]
            amount_of(collected(pairs), resource) == last_amount(pairs, resource),
    decreases pairs.len(),
{
    if pairs.len() > 0 {
        let before = collected(pairs.drop_last());
        lemma_collected(pairs.drop_last());
        lemma_with_entry(before, pairs.last().0, pairs.last().1);
        lemma_key_index(before, pairs.last().0);
        assert forall|resource: ResourceId| #[trigger]
            amount_of(collected(pairs), resource) == last_amount(pairs, resource) by {
            if resource != pairs.last().0 {
                assert(amount_of(collected(pairs), resource) == amount_of(before, resource));
            }
        }
    } else {
        assert forall|resource: ResourceId| #[trigger]
            amount_of(collected(pairs), resource) == last_amount(pairs, resource) by {
            assert(!has_key(collected(pairs), resource));
        }
    }
}

/// A mapping from resources to signed amounts. Each resource has at most
/// one entry, and the entries stay in the order in which their resources
/// were first entered.
#[derive(Debug, PartialEq, Eq)]
pub struct Inventory {
    entries: Vec<Entry>,
}

impl View for Inventory {
    type V = Seq<Entry>;

    closed spec fn view(&self) -> Seq<Entry> {
        self.entries@
    }
}

impl Inventory {
    /// No resource has two entries.
    #[verifier::type_invariant]
    pub open spec fn wf(self) -> bool {
        distinct_keys(self@)
    }

    /// An inventory without entries.
    pub fn new() -> (inventory: Inventory)
        ensures
            inventory@ == Seq::<Entry>::empty(),
            inventory.wf(),
    {
        Inventory { entries: Vec::new() }
    }

    /// The number of entries.
    pub fn len(&self) -> (n: usize)
        ensures
            n == self@.len(),
    {
        self.entries.len()
    }

    /// The entry at position `i`.
    pub fn entry(&self, i: usize) -> (e: Entry)
        requires
            i < self@.len(),
        ensures
            e == self@[i as int],
    {
        self.entries[i]
    }

    /// The position of the entry about `resource`, if there is one.
    pub fn position(&self, resource: ResourceId) -> (found: Option<usize>)
        ensures
            found is Some <==> has_key(self@, resource),
            found matches Some(i) ==> i == key_index(self@, resource) && i < self@.len(),
    {
        let mut i: usize = 0;
        while i < self.entries.len()
            invariant
                i <= self.entries@.len(),
                forall|j: int| 0 <= j < i ==> (#[trigger] self.entries@[j]).0 != resource,
            decreases self.entries@.len() - i,
        {
            if self.entries[i].0 == resource {
                proof {
                    lemma_key_index(self@, resource);
                }
                return Some(i);
            }
            i += 1;
        }
        None
    }

    /// The amount entered for `resource`, if any.
    pub fn get(&self, resource: ResourceId) -> (amount: Option<ResourceAmount>)
        ensures
            amount == amount_of(self@, resource),
    {
        match self.position(resource) {
            Some(i) => Some(self.entries[i].1),
            None => None,
        }
    }

    /// Enters `amount` for `resource` and returns the amount that it
    /// replaces, if the resource had an entry.
    pub fn insert(&mut self, resource: ResourceId, amount: ResourceAmount) -> (previous: Option<
        ResourceAmount,
    >)
        ensures
            final(self)@ == with_entry(old(self)@, resource, amount),
            final(self).wf(),
            previous == amount_of(old(self)@, resource),
    {
        proof {
            use_type_invariant(&*self);
            lemma_with_entry(self@, resource, amount);
        }
        let found = self.position(resource);
        let mut entries: Vec<Entry> = Vec::new();
        core::mem::swap(&mut self.entries, &mut entries);
        let previous = match found {
            Some(i) => {
                let before = entries[i].1;
                entries.set(i, Entry(resource, amount));
                Some(before)
            },
            None => {
                entries.push(Entry(resource, amount));
                None
            },
        };
        self.entries = entries;
        previous
    }

    /// The inventory that results from entering `pairs` in order: a
    /// resource that occurs again keeps its first place and takes the
    /// later amount.
    pub fn from_pairs(pairs: Vec<(ResourceId, ResourceAmount)>) -> (inventory: Inventory)
        ensures
            inventory@ == collected(pairs@),
            inventory.wf(),
    {
        let mut inventory = Inventory::new();
        let mut i: usize = 0;
        while i < pairs.len()
            invariant
                i <= pairs@.len(),
                inventory.wf(),
                inventory@ == collected(pairs@.take(i as int)),
            decreases pairs@.len() - i,
        {
            let (resource, amount) = pairs[i];
            proof {
                let next = pairs@.take(i + 1);
                assert(next.drop_last() == pairs@.take(i as int));
                assert(next.last() == pairs@[i as int]);
            }
            inventory.insert(resource, amount);
            i += 1;
        }
        proof {
            assert(pairs@.take(i as int) == pairs@);
        }
        inventory
    }
}

impl Clone for Inventory {
    fn clone(&self) -> (copy: Inventory)
        ensures
            copy@ == self@,
    {
        proof {
            use_type_invariant(self);
        }
        Inventory { entries: self.entries.clone() }
    }
}

} // verus!
