//! The threat index: every targetable entity, most hated first.

use vstd::prelude::*;

use crate::Entity;

verus! {

/// How important an entity is as a target. A higher hatred is targeted first.
///
/// **For enemies:** how close the enemy is to the end of its path, in tiles,
/// multiplied by -1,000.
///
/// **For allies:** the operator's position in the order of deployment; later
/// operators are hated more.
#[derive(Clone, Copy, Debug, PartialEq, Eq, Structural, Hash)]
pub struct Hatred(pub i32);

impl Default for Hatred {
    fn default() -> (hatred: Hatred)
        ensures
            hatred == Hatred(0),
    {
        Hatred(0)
    }
}

/// An entry of the threat index.
#[derive(Clone, Copy, Debug, PartialEq, Eq, Structural, Hash)]
pub struct SortedEntity {
    pub entity: Entity,
    pub hatred: Hatred,
}

impl SortedEntity {
    /// The order of the threat index: by hatred, highest first, and among
    /// equally hated entities by identity, highest first.
    pub open spec fn precedes(self, other: SortedEntity) -> bool {
        self.hatred.0 > other.hatred.0 || (self.hatred.0 == other.hatred.0 && self.entity.0
            > other.entity.0)
    }

    fn goes_before(&self, other: &SortedEntity) -> (before: bool)
        ensures
            before == self.precedes(*other),
    {
        self.hatred.0 > other.hatred.0 || (self.hatred.0 == other.hatred.0 && self.entity.0
            > other.entity.0)
    }
}

/// Whether each entry of `entries` precedes all that follow it.
pub open spec fn in_priority_order(entries: Seq<SortedEntity>) -> bool {
    forall|i: int, j: int| 0 <= i < j < entries.len() ==> (#[trigger] entries[i]).precedes(
        #[trigger] entries[j],
    )
}

/// The entities of `entries`, in the same order.
pub open spec fn entities_of(entries: Seq<SortedEntity>) -> Seq<Entity> {
    entries.map_values(|entry: SortedEntity| entry.entity)
}

/// The threat index.
///
/// Holds each entry once, in priority order.
#[derive(Debug)]
pub struct TargetingTree {
    tree: Vec<SortedEntity>,
}

impl View for TargetingTree {
    type V = Seq<SortedEntity>;

    closed spec fn view(&self) -> Seq<SortedEntity> {
        self.tree@
    }
}

impl Default for TargetingTree {
    fn default() -> (tree: TargetingTree)
        ensures
            tree@ == Seq::<SortedEntity>::empty(),
    {
        TargetingTree { tree: Vec::new() }
    }
}

impl TargetingTree {
    #[verifier::type_invariant]
    spec fn ordered(self) -> bool {
        in_priority_order(self.tree@)
    }

    /// The number of entries.
    pub fn len(&self) -> (len: usize)
        ensures
            len == self@.len(),
    {
        self.tree.len()
    }

    /// The entities of the index, most important first.
    pub fn iter(&self) -> (entities: Vec<Entity>)
        ensures
            entities@ == entities_of(self@),
            in_priority_order(self@),
    {
        proof {
            use_type_invariant(self);
        }
        let mut entities: Vec<Entity> = Vec::new();
        let mut i: usize = 0;
        while i < self.tree.len()
            invariant
                i <= self.tree.len(),
                entities@ == entities_of(self.tree@.take(i as int)),
            decreases self.tree.len() - i,
        {
            entities.push(self.tree[i].entity);
            i += 1;
            assert(entities@ == entities_of(self.tree@.take(i as int)));
        }
        assert(self.tree@.take(i as int) == self.tree@);
        entities
    }

    /// Removes every entry.
    pub fn clear(&mut self)
        ensures
            final(self)@ == Seq::<SortedEntity>::empty(),
    {
        self.tree = Vec::new();
    }

    /// Puts an entry at its place in the order, unless the index holds it
    /// already.
    pub fn insert(&mut self, entry: SortedEntity)
        requires
            old(self)@.len() < usize::MAX,
        ensures
            in_priority_order(final(self)@),
            forall|other: SortedEntity|
                final(self)@.contains(other) <==> (other == entry || old(self)@.contains(other)),
            old(self)@.contains(entry) ==> final(self)@ == old(self)@,
            !old(self)@.contains(entry) ==> final(self)@.len() == old(self)@.len() + 1,
    {
        proof {
            use_type_invariant(&*self);
        }
        let ghost before = self.tree@;
        let mut at: usize = 0;
        while at < self.tree.len() && self.tree[at].goes_before(&entry)
            invariant
                self.tree@ == before,
                at <= self.tree.len(),
                forall|k: int| 0 <= k < at ==> (#[trigger] before[k]).precedes(entry),
            decreases self.tree.len() - at,
        {
            at += 1;
        }
        if at < self.tree.len() && self.tree[at] == entry {
            assert(before.contains(entry));
            return ;
        }
        assert(!before.contains(entry)) by {
            if before.contains(entry) {
                let k = choose|k: int| 0 <= k < before.len() && before[k] == entry;
                if k < at {
                    assert(before[k].precedes(entry));
                } else if k > at {
                    assert(before[at as int].precedes(before[k]));
                }
            }
        }
        let mut tree = Vec::new();
        std::mem::swap(&mut tree, &mut self.tree);
        tree.insert(at, entry);
        let ghost after = tree@;
        assert(in_priority_order(after)) by {
            assert forall|i: int, j: int| 0 <= i < j < after.len() implies (#[trigger] after[i]).precedes(
                #[trigger] after[j],
            ) by {
                if j < at {
                    assert(before[i].precedes(before[j]));
                } else if j == at {
                    assert(before[i].precedes(entry));
                } else if i < at {
                    assert(before[i].precedes(before[j - 1]));
                } else if i == at {
                    if at < before.len() {
                        assert(!before[at as int].precedes(entry));
                        if j - 1 > at {
                            assert(before[at as int].precedes(before[j - 1]));
                        }
                    }
                } else {
                    assert(before[i - 1].precedes(before[j - 1]));
                }
            }
        }
        assert forall|other: SortedEntity| after.contains(other) <==> (other == entry
            || before.contains(other)) by {
            if after.contains(other) {
                let k = choose|k: int| 0 <= k < after.len() && after[k] == other;
                if k < at {
                    assert(before[k] == other);
                } else if k > at {
                    assert(before[k - 1] == other);
                }
            }
            if other == entry {
                assert(after[at as int] == other);
            }
            if before.contains(other) {
                let k = choose|k: int| 0 <= k < before.len() && before[k] == other;
                if k < at {
                    assert(after[k] == other);
                } else {
                    assert(after[k + 1] == other);
                }
            }
        }
        self.tree = tree;
    }
}

/// Rebuilds the threat index from the hatred of every entity that has one.
pub fn sort_targets(hatreds: &Vec<SortedEntity>, hatred_tree: &mut TargetingTree)
    ensures
        in_priority_order(final(hatred_tree)@),
        forall|entry: SortedEntity| final(hatred_tree)@.contains(entry) <==> hatreds@.contains(entry),
{
    hatred_tree.clear();
    let mut i: usize = 0;
    while i < hatreds.len()
        invariant
            i <= hatreds.len(),
            hatred_tree@.len() <= i,
            in_priority_order(hatred_tree@),
            forall|entry: SortedEntity|
                hatred_tree@.contains(entry) <==> hatreds@.take(i as int).contains(entry),
        decreases hatreds.len() - i,
    {
        let ghost seen = hatreds@.take(i as int);
        hatred_tree.insert(hatreds[i]);
        i += 1;
        proof {
            let now = hatreds@.take(i as int);
            assert(now == seen.push(hatreds@[i - 1]));
            assert forall|entry: SortedEntity|
                hatred_tree@.contains(entry) <==> now.contains(entry) by {
                if now.contains(entry) {
                    let k = choose|k: int| 0 <= k < now.len() && now[k] == entry;
                    if k < i - 1 {
                        assert(seen[k] == entry);
                    }
                }
                if seen.contains(entry) {
                    let k = choose|k: int| 0 <= k < seen.len() && seen[k] == entry;
                    assert(now[k] == entry);
                }
                assert(now[i - 1] == hatreds@[i - 1]);
            }
        }
    }
    assert(hatreds@.take(i as int) == hatreds@);
}

/// An order and the entries to be held fix the index: two indexes in
/// priority order that hold the same entries are the same sequence.
pub proof fn lemma_priority_order_unique(a: Seq<SortedEntity>, b: Seq<SortedEntity>)
    requires
        in_priority_order(a),
        in_priority_order(b),
        forall|entry: SortedEntity| a.contains(entry) <==> b.contains(entry),
    ensures
        a == b,
    decreases a.len(),
{
    if a.len() == 0 {
        if b.len() > 0 {
            assert(b.contains(b[0]));
        }
        assert(a =~= b);
    } else {
        assert(a.contains(a[0]));
        let kb = choose|k: int| 0 <= k < b.len() && b[k] == a[0];
        assert(b.contains(b[0]));
        let ka = choose|k: int| 0 <= k < a.len() && a[k] == b[0];
        if kb > 0 {
            assert(b[0].precedes(b[kb]));
            if ka > 0 {
                assert(a[0].precedes(a[ka]));
            }
        }
        assert(a[0] == b[0]);
        let ra = a.drop_first();
        let rb = b.drop_first();
        assert forall|entry: SortedEntity| ra.contains(entry) <==> rb.contains(entry) by {
            if ra.contains(entry) {
                let k = choose|k: int| 0 <= k < ra.len() && ra[k] == entry;
                assert(a[k + 1] == entry);
                assert(a[0].precedes(a[k + 1]));
                assert(a.contains(entry));
                let m = choose|m: int| 0 <= m < b.len() && b[m] == entry;
                assert(m > 0);
                assert(rb[m - 1] == entry);
            }
            if rb.contains(entry) {
                let k = choose|k: int| 0 <= k < rb.len() && rb[k] == entry;
                assert(b[k + 1] == entry);
                assert(b[0].precedes(b[k + 1]));
                assert(b.contains(entry));
                let m = choose|m: int| 0 <= m < a.len() && a[m] == entry;
                assert(m > 0);
                assert(ra[m - 1] == entry);
            }
        }
        assert(in_priority_order(ra)) by {
            assert forall|i: int, j: int| 0 <= i < j < ra.len() implies (#[trigger] ra[i]).precedes(
                #[trigger] ra[j],
            ) by {
                assert(a[i + 1].precedes(a[j + 1]));
            }
        }
        assert(in_priority_order(rb)) by {
            assert forall|i: int, j: int| 0 <= i < j < rb.len() implies (#[trigger] rb[i]).precedes(
                #[trigger] rb[j],
            ) by {
                assert(b[i + 1].precedes(b[j + 1]));
            }
        }
        lemma_priority_order_unique(ra, rb);
        assert(a =~= seq![a[0]] + ra);
        assert(b =~= seq![b[0]] + rb);
    }
}

} // verus!
