//! An owning registry from handle ids to resources. Ids come from a counter
//! and are never handed out twice; removal swaps the last entry into the hole.
use vstd::prelude::*;

verus! {

/// One live resource of a table, with the id it was registered under and the
/// diagnostic tag given at creation.
pub struct TableEntry<V> {
    pub id: usize,
    pub value: V,
    pub line: u32,
}

/// One registration or release on a resource table.
pub enum TableOp<V> {
    Create(V, u32),
    Free(usize),
}

/// The live resources and the next id after one operation: a registration
/// takes the next id, a release drops its id if it is live.
pub open spec fn apply_op<V>(m: Map<usize, (V, u32)>, next: nat, op: TableOp<V>) -> (Map<usize, (V, u32)>, nat) {
    match op {
        TableOp::Create(v, line) => (m.insert(next as usize, (v, line)), next + 1),
        TableOp::Free(id) => (m.remove(id), next),
    }
}

/// The live resources and the next id after a sequence of operations.
pub open spec fn replay<V>(m: Map<usize, (V, u32)>, next: nat, ops: Seq<TableOp<V>>) -> (Map<usize, (V, u32)>, nat)
    decreases ops.len(),
{
    if ops.len() == 0 {
        (m, next)
    } else {
        let (m1, n1) = apply_op(m, next, ops[0]);
        replay(m1, n1, ops.drop_first())
    }
}

/// The ids that the registrations of a sequence of operations hand out, in
/// order.
pub open spec fn issued_ids<V>(next: nat, ops: Seq<TableOp<V>>) -> Seq<nat>
    decreases ops.len(),
{
    if ops.len() == 0 {
        Seq::empty()
    } else if ops[0] is Create {
        seq![next] + issued_ids(next + 1, ops.drop_first())
    } else {
        issued_ids(next, ops.drop_first())
    }
}

/// Over any sequence of registrations and releases, no id is handed out
/// twice, none is the id of a resource live at the start, and every live id
/// stays below the next one to be handed out.
pub proof fn lemma_ids_never_reused<V>(m: Map<usize, (V, u32)>, next: nat, ops: Seq<TableOp<V>>)
    requires
        forall|k: usize| #[trigger] m.contains_key(k) ==> k < next,
        next + ops.len() <= usize::MAX,
    ensures
        forall|i: int, j: int|
            0 <= i < j < issued_ids(next, ops).len() ==> #[trigger] issued_ids(next, ops)[i]
                < #[trigger] issued_ids(next, ops)[j],
        forall|i: int|
            0 <= i < issued_ids(next, ops).len() ==> next <= #[trigger] issued_ids(next, ops)[i] < next
                + ops.len(),
        forall|i: int|
            0 <= i < issued_ids(next, ops).len() ==> !m.contains_key(
                #[trigger] issued_ids(next, ops)[i] as usize,
            ),
        forall|k: usize| #[trigger] replay(m, next, ops).0.contains_key(k) ==> k < replay(m, next, ops).1,
    decreases ops.len(),
{
    let all = issued_ids(next, ops);
    if ops.len() > 0 {
        let (m1, n1) = apply_op(m, next, ops[0]);
        assert((next as usize) as nat == next);
        assert forall|k: usize| #[trigger] m1.contains_key(k) implies k < n1 by {}
        lemma_ids_never_reused(m1, n1, ops.drop_first());
        assert(replay(m, next, ops) == replay(m1, n1, ops.drop_first()));
        let rest = issued_ids(n1, ops.drop_first());
        if ops[0] is Create {
            assert forall|i: int, j: int| 0 <= i < j < all.len() implies #[trigger] all[i] < #[trigger] all[j] by {
                if i > 0 {
                    assert(all[i] == rest[i - 1]);
                }
                assert(all[j] == rest[j - 1]);
            }
            assert forall|i: int| 0 <= i < all.len() implies next <= #[trigger] all[i] < next + ops.len() by {
                if i > 0 {
                    assert(all[i] == rest[i - 1]);
                }
            }
        }
    }
    assert forall|i: int| 0 <= i < all.len() implies !m.contains_key(#[trigger] all[i] as usize) by {
        assert((all[i] as usize) as nat == all[i]);
    }
}

/// A live resource reads the same after any sequence of registrations and
/// releases of other ids.
pub proof fn lemma_lookup_stable<V>(m: Map<usize, (V, u32)>, next: nat, ops: Seq<TableOp<V>>, id: usize)
    requires
        forall|k: usize| #[trigger] m.contains_key(k) ==> k < next,
        next + ops.len() <= usize::MAX,
        m.contains_key(id),
        forall|i: int| 0 <= i < ops.len() ==> !(#[trigger] ops[i] matches TableOp::Free(f) && f == id),
    ensures
        replay(m, next, ops).0.contains_key(id),
        replay(m, next, ops).0[id] == m[id],
    decreases ops.len(),
{
    if ops.len() > 0 {
        let (m1, n1) = apply_op(m, next, ops[0]);
        assert forall|k: usize| #[trigger] m1.contains_key(k) implies k < n1 by {}
        assert(!(ops[0] matches TableOp::Free(f) && f == id));
        let tail = ops.drop_first();
        assert forall|i: int| 0 <= i < tail.len() implies !(#[trigger] tail[i] matches TableOp::Free(f) && f == id) by {
            assert(tail[i] == ops[i + 1]);
        }
        lemma_lookup_stable(m1, n1, tail, id);
    }
}

/// Resources by id, with the counter that ids are drawn from.
pub struct ResourceTable<V> {
    counter: usize,
    entries: Vec<TableEntry<V>>,
}

impl<V> ResourceTable<V> {
    /// The id that the next registration hands out.
    pub closed spec fn next_id(&self) -> nat {
        self.counter as nat
    }

    pub closed spec fn entries(&self) -> Seq<TableEntry<V>> {
        self.entries@
    }

    pub open spec fn has(&self, id: usize) -> bool {
        exists|i: int| 0 <= i < self.entries().len() && (#[trigger] self.entries()[i]).id == id
    }

    pub open spec fn index_of(&self, id: usize) -> int {
        choose|i: int| 0 <= i < self.entries().len() && (#[trigger] self.entries()[i]).id == id
    }

    /// The live resources by id, each with its diagnostic tag.
    pub open spec fn view(&self) -> Map<usize, (V, u32)> {
        Map::new(
            |id: usize| self.has(id),
            |id: usize|
                (self.entries()[self.index_of(id)].value, self.entries()[self.index_of(id)].line),
        )
    }

    /// Ids are unique among live entries, and all of them were issued already.
    pub open spec fn wf(&self) -> bool {
        &&& forall|i: int, j: int|
            0 <= i < self.entries().len() && 0 <= j < self.entries().len() && i != j
                ==> (#[trigger] self.entries()[i]).id != (#[trigger] self.entries()[j]).id
        &&& forall|i: int|
            0 <= i < self.entries().len() ==> (#[trigger] self.entries()[i]).id < self.next_id()
    }

    proof fn lemma_index_of(&self, i: int)
        requires
            self.wf(),
            0 <= i < self.entries().len(),
        ensures
            self.has(self.entries()[i].id),
            self.index_of(self.entries()[i].id) == i,
    {
        let id = self.entries()[i].id;
        assert(self.has(id));
    }

    pub fn new() -> (r: Self)
        ensures
            r.wf(),
            r@ == Map::<usize, (V, u32)>::empty(),
            r.next_id() == 0,
    {
        let r = ResourceTable { counter: 0, entries: Vec::new() };
        assert(r@ =~= Map::<usize, (V, u32)>::empty());
        r
    }

    /// The id that the next registration hands out.
    pub fn next(&self) -> (r: usize)
        ensures
            r == self.next_id(),
    {
        self.counter
    }

    /// Registers `value` under a fresh id, which no earlier registration of
    /// this table returned.
    pub fn create(&mut self, value: V, line: u32) -> (id: usize)
        requires
            old(self).wf(),
            old(self).next_id() < usize::MAX,
        ensures
            final(self).wf(),
            id == old(self).next_id(),
            !old(self)@.contains_key(id),
            final(self).next_id() == old(self).next_id() + 1,
            final(self)@ == old(self)@.insert(id, (value, line)),
            (final(self)@, final(self).next_id()) == apply_op(
                old(self)@,
                old(self).next_id(),
                TableOp::Create(value, line),
            ),
    {
        let id = self.counter;
        let ghost pre = *self;
        self.entries.push(TableEntry { id, value, line });
        self.counter = self.counter + 1;
        proof {
            let n = pre.entries().len();
            assert(self.entries()[n as int].id == id);
            assert(self.wf());
            assert(!pre.has(id));
            self.lemma_index_of(n as int);
            assert forall|k: usize| #[trigger] pre.has(k) implies self.has(k) && self.index_of(k)
                == pre.index_of(k) by {
                let i = pre.index_of(k);
                assert(self.entries()[i] == pre.entries()[i]);
                self.lemma_index_of(i);
            }
            assert forall|k: usize| #[trigger] self.has(k) implies pre.has(k) || k == id by {
                let i = self.index_of(k);
                if i < n {
                    assert(pre.entries()[i] == self.entries()[i]);
                }
            }
            assert(self@ =~= pre@.insert(id, (value, line)));
        }
        id
    }

    fn find(&self, id: usize) -> (r: Option<usize>)
        requires
            self.wf(),
        ensures
            r is None <==> !self.has(id),
            r matches Some(i) ==> i < self.entries().len() && self.entries()[i as int].id == id
                && self.index_of(id) == i,
    {
        let mut i: usize = 0;
        while i < self.entries.len()
            invariant
                self.wf(),
                i <= self.entries().len(),
                forall|k: int| 0 <= k < i ==> (#[trigger] self.entries()[k]).id != id,
            decreases self.entries().len() - i,
        {
            if self.entries[i].id == id {
                proof {
                    self.lemma_index_of(i as int);
                }
                return Some(i);
            }
            i = i + 1;
        }
        None
    }

    pub fn contains(&self, id: usize) -> (r: bool)
        requires
            self.wf(),
        ensures
            r == self@.contains_key(id),
    {
        self.find(id).is_some()
    }

    pub fn get(&self, id: usize) -> (r: Option<&V>)
        requires
            self.wf(),
        ensures
            r is Some <==> self@.contains_key(id),
            r matches Some(v) ==> *v == self@[id].0,
    {
        match self.find(id) {
            Some(i) => Some(&self.entries[i].value),
            None => None,
        }
    }

    /// Removes the entry of `id` and hands its resource back, or reports that
    /// no live entry has that id.
    pub fn free(&mut self, id: usize) -> (r: Option<V>)
        requires
            old(self).wf(),
        ensures
            final(self).wf(),
            final(self).next_id() == old(self).next_id(),
            r is Some <==> old(self)@.contains_key(id),
            r matches Some(v) ==> v == old(self)@[id].0,
            final(self)@ == old(self)@.remove(id),
            (final(self)@, final(self).next_id()) == apply_op(
                old(self)@,
                old(self).next_id(),
                TableOp::Free(id),
            ),
    {
        match self.find(id) {
            None => {
                assert(self@ =~= old(self)@.remove(id));
                None
            },
            Some(i) => {
                let ghost pre = *self;
                let e = self.entries.swap_remove(i);
                proof {
                    let n = pre.entries().len();
                    let last = pre.entries()[n - 1];
                    assert(self.entries() == pre.entries().update(i as int, last).drop_last());
                    assert forall|a: int| 0 <= a < self.entries().len() implies
                        #[trigger] self.entries()[a] == pre.entries()[if a == i { n - 1 } else { a }] by {}
                    assert(self.wf()) by {
                        assert forall|a: int, b: int|
                            0 <= a < self.entries().len() && 0 <= b < self.entries().len() && a != b
                            implies (#[trigger] self.entries()[a]).id != (#[trigger] self.entries()[b]).id by {
                            let a2 = if a == i { n - 1 } else { a };
                            let b2 = if b == i { n - 1 } else { b };
                            assert(pre.entries()[a2].id != pre.entries()[b2].id);
                        }
                    }
                    assert forall|k: usize| #[trigger] self.has(k) implies pre.has(k) && k != id
                        && self@[k] == pre@[k] by {
                        let a = self.index_of(k);
                        let a2 = if a == i { n - 1 } else { a };
                        assert(pre.entries()[a2].id == k);
                        pre.lemma_index_of(a2);
                        assert(a2 != i);
                    }
                    assert forall|k: usize| #[trigger] pre.has(k) && k != id implies self.has(k) by {
                        let a = pre.index_of(k);
                        let a2 = if a == n - 1 { i as int } else { a };
                        assert(self.entries()[a2].id == k);
                    }
                    assert(self@ =~= pre@.remove(id));
                }
                Some(e.value)
            },
        }
    }

    proof fn lemma_value_written(&self, i: int)
        requires
            self.wf(),
            0 <= i < self.entries().len(),
        ensures
            forall|post: Self|
                #![trigger post.view()]
                post.entries().len() == self.entries().len()
                    && post.entries()[i].id == self.entries()[i].id
                    && post.entries()[i].line == self.entries()[i].line
                    && (forall|j: int| 0 <= j < self.entries().len() && j != i
                        ==> post.entries()[j] == self.entries()[j])
                    ==> post@ == self@.insert(
                        self.entries()[i].id,
                        (post.entries()[i].value, self.entries()[i].line),
                    ),
    {
        let id = self.entries()[i].id;
        assert forall|post: Self|
            #![trigger post.view()]
            post.entries().len() == self.entries().len()
                && post.entries()[i].id == self.entries()[i].id
                && post.entries()[i].line == self.entries()[i].line
                && (forall|j: int| 0 <= j < self.entries().len() && j != i
                    ==> post.entries()[j] == self.entries()[j])
            implies post@ == self@.insert(id, (post.entries()[i].value, self.entries()[i].line)) by {
            assert forall|k: usize| #[trigger] post.has(k) implies self.has(k)
                && post.index_of(k) == self.index_of(k) by {
                let a = post.index_of(k);
                assert(self.entries()[a].id == k);
                self.lemma_index_of(a);
            }
            assert forall|k: usize| #[trigger] self.has(k) implies post.has(k) by {
                let a = self.index_of(k);
                assert(post.entries()[a].id == k);
            }
            self.lemma_index_of(i);
            assert(post@ =~= self@.insert(id, (post.entries()[i].value, self.entries()[i].line)));
        }
    }

    /// A mutable borrow of the resource registered under `id`; writes through
    /// it change that entry and nothing else.
    pub fn get_mut(&mut self, id: usize) -> (r: Option<&mut V>)
        requires
            old(self).wf(),
        ensures
            r is Some <==> old(self)@.contains_key(id),
            r is None ==> *final(self) == *old(self),
            r matches Some(v) ==> *v == old(self)@[id].0,
            r matches Some(v) ==> final(self).wf(),
            r matches Some(v) ==> final(self).next_id() == old(self).next_id(),
            r matches Some(v) ==> final(self)@ == old(self)@.insert(id, (*final(v), old(self)@[id].1)),
    {
        match self.find(id) {
            None => None,
            Some(i) => {
                proof {
                    self.lemma_value_written(i as int);
                }
                Some(&mut self.entries[i].value)
            },
        }
    }
}

} // verus!
