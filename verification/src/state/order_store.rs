//! Order storage with monotonic id allocation.

use vstd::prelude::*;

use crate::types::{Order, OrderId};

verus! {

/// Entries carry pairwise distinct ids.
spec fn seq_wf(s: Seq<(OrderId, Order)>) -> bool {
    forall|i: int, j: int| 0 <= i < j < s.len() ==> (#[trigger] s[i].0) != (#[trigger] s[j].0)
}

/// The map an entry sequence denotes, keyed by order id.
spec fn seq_view(s: Seq<(OrderId, Order)>) -> Map<OrderId, Order> {
    Map::new(
        |id: OrderId| exists|i: int| 0 <= i < s.len() && (#[trigger] s[i].0) == id,
        |id: OrderId| s[choose|i: int| 0 <= i < s.len() && (#[trigger] s[i].0) == id].1,
    )
}

proof fn lemma_seq_view_index(s: Seq<(OrderId, Order)>, i: int)
    requires
        seq_wf(s),
        0 <= i < s.len(),
    ensures
        seq_view(s).contains_key(s[i].0),
        seq_view(s)[s[i].0] == s[i].1,
{
    let id = s[i].0;
    assert(0 <= i < s.len() && s[i].0 == id);
    let j = choose|j: int| 0 <= j < s.len() && (#[trigger] s[j].0) == id;
    assert(j == i);
}

proof fn lemma_seq_view_absent(s: Seq<(OrderId, Order)>, id: OrderId)
    requires
        forall|i: int| 0 <= i < s.len() ==> (#[trigger] s[i].0) != id,
    ensures
        !seq_view(s).contains_key(id),
{
}

proof fn lemma_seq_update_same_key(s: Seq<(OrderId, Order)>, i: int, q: (OrderId, Order))
    requires
        seq_wf(s),
        0 <= i < s.len(),
        q.0 == s[i].0,
    ensures
        seq_wf(s.update(i, q)),
        seq_view(s.update(i, q)) == seq_view(s).insert(q.0, q.1),
{
    let s2 = s.update(i, q);
    let k = q.0;
    assert forall|m: int, j: int| 0 <= m < j < s2.len() implies (#[trigger] s2[m].0) != (
    #[trigger] s2[j].0) by {
        assert(s[m].0 != s[j].0);
    }
    assert forall|k2: OrderId|
        #![trigger seq_view(s2).contains_key(k2)]
        #![trigger seq_view(s).insert(k, q.1).contains_key(k2)]
        seq_view(s2).contains_key(k2) == seq_view(s).insert(k, q.1).contains_key(k2) && (seq_view(
        s2,
    ).contains_key(k2) ==> seq_view(s2)[k2] == seq_view(s).insert(k, q.1)[k2]) by {
        if k2 == k {
            lemma_seq_view_index(s2, i);
        } else if seq_view(s).contains_key(k2) {
            let j = choose|j: int| 0 <= j < s.len() && (#[trigger] s[j].0) == k2;
            assert(s2[j].0 == k2);
            lemma_seq_view_index(s2, j);
            lemma_seq_view_index(s, j);
        } else {
            assert forall|j: int| 0 <= j < s2.len() implies (#[trigger] s2[j].0) != k2 by {
                assert(j != i ==> s2[j] == s[j]);
            }
            lemma_seq_view_absent(s2, k2);
        }
    }
    assert(seq_view(s2) =~= seq_view(s).insert(k, q.1));
}

proof fn lemma_seq_push_fresh_key(s: Seq<(OrderId, Order)>, q: (OrderId, Order))
    requires
        seq_wf(s),
        forall|i: int| 0 <= i < s.len() ==> (#[trigger] s[i].0) != q.0,
    ensures
        seq_wf(s.push(q)),
        seq_view(s.push(q)) == seq_view(s).insert(q.0, q.1),
{
    let s2 = s.push(q);
    let n = s.len() as int;
    assert forall|m: int, j: int| 0 <= m < j < s2.len() implies (#[trigger] s2[m].0) != (
    #[trigger] s2[j].0) by {
        if j < n {
            assert(s[m].0 != s[j].0);
        } else {
            assert(s2[j] == q && s2[m] == s[m]);
        }
    }
    assert forall|k2: OrderId|
        #![trigger seq_view(s2).contains_key(k2)]
        #![trigger seq_view(s).insert(q.0, q.1).contains_key(k2)]
        seq_view(s2).contains_key(k2) == seq_view(s).insert(q.0, q.1).contains_key(k2) && (seq_view(
        s2,
    ).contains_key(k2) ==> seq_view(s2)[k2] == seq_view(s).insert(q.0, q.1)[k2]) by {
        if k2 == q.0 {
            assert(s2[n].0 == q.0);
            lemma_seq_view_index(s2, n);
        } else if seq_view(s).contains_key(k2) {
            let j = choose|j: int| 0 <= j < s.len() && (#[trigger] s[j].0) == k2;
            assert(s2[j].0 == k2);
            lemma_seq_view_index(s2, j);
            lemma_seq_view_index(s, j);
        } else {
            assert forall|j: int| 0 <= j < s2.len() implies (#[trigger] s2[j].0) != k2 by {
                assert(j < n ==> s2[j] == s[j]);
            }
            lemma_seq_view_absent(s2, k2);
        }
    }
    assert(seq_view(s2) =~= seq_view(s).insert(q.0, q.1));
}

proof fn lemma_seq_swap_remove(s: Seq<(OrderId, Order)>, i: int)
    requires
        seq_wf(s),
        0 <= i < s.len(),
    ensures
        seq_wf(s.update(i, s.last()).drop_last()),
        seq_view(s.update(i, s.last()).drop_last()) == seq_view(s).remove(s[i].0),
{
    let s2 = s.update(i, s.last()).drop_last();
    let k = s[i].0;
    let n = s.len() as int;
    assert forall|m: int, j: int| 0 <= m < j < s2.len() implies (#[trigger] s2[m].0) != (
    #[trigger] s2[j].0) by {
        assert(s2[j] == if j == i {
            s[n - 1]
        } else {
            s[j]
        });
        assert(s2[m] == if m == i {
            s[n - 1]
        } else {
            s[m]
        });
    }
    assert forall|k2: OrderId|
        #![trigger seq_view(s2).contains_key(k2)]
        #![trigger seq_view(s).remove(k).contains_key(k2)]
        seq_view(s2).contains_key(k2) == seq_view(s).remove(k).contains_key(k2) && (seq_view(
        s2,
    ).contains_key(k2) ==> seq_view(s2)[k2] == seq_view(s).remove(k)[k2]) by {
        if k2 == k {
            assert forall|j: int| 0 <= j < s2.len() implies (#[trigger] s2[j].0) != k by {
                assert(s2[j] == if j == i {
                    s[n - 1]
                } else {
                    s[j]
                });
            }
            lemma_seq_view_absent(s2, k);
        } else if seq_view(s).contains_key(k2) {
            let j = choose|j: int| 0 <= j < s.len() && (#[trigger] s[j].0) == k2;
            lemma_seq_view_index(s, j);
            if j == n - 1 && i < n - 1 {
                assert(s2[i].0 == k2);
                lemma_seq_view_index(s2, i);
            } else if j < n - 1 {
                assert(s2[j].0 == k2);
                lemma_seq_view_index(s2, j);
            } else {
                assert(j == i && s[j].0 == k);
            }
        } else {
            assert forall|j: int| 0 <= j < s2.len() implies (#[trigger] s2[j].0) != k2 by {
                assert(s2[j] == if j == i {
                    s[n - 1]
                } else {
                    s[j]
                });
            }
            lemma_seq_view_absent(s2, k2);
        }
    }
    assert(seq_view(s2) =~= seq_view(s).remove(k));
}

/// Order storage; behaves as a `Map<OrderId, Order>` with monotonically
/// allocated ids.
pub struct OrderStore {
    orders: Vec<(OrderId, Order)>,
    next_id: u64,
}

impl View for OrderStore {
    type V = Map<OrderId, Order>;

    closed spec fn view(&self) -> Map<OrderId, Order> {
        seq_view(self.orders@)
    }
}

impl OrderStore {
    /// Ids are pairwise distinct and below the allocator's next id.
    pub closed spec fn wf(self) -> bool {
        seq_wf(self.orders@) && forall|i: int|
            0 <= i < self.orders@.len() ==> (#[trigger] self.orders@[i].0).0 < self.next_id
    }

    /// The id the next `create` will assign.
    pub closed spec fn spec_next_id(self) -> u64 {
        self.next_id
    }

    /// Number of stored orders.
    pub closed spec fn spec_len(self) -> nat {
        self.orders@.len()
    }

    pub fn new() -> (r: OrderStore)
        ensures
            r.wf(),
            r@ == Map::<OrderId, Order>::empty(),
            r.spec_next_id() == 0,
            r.spec_len() == 0,
    {
        let r = OrderStore { orders: Vec::new(), next_id: 0 };
        proof {
            assert(r@ =~= Map::<OrderId, Order>::empty());
        }
        r
    }

    /// Store a new order under a fresh, monotonically allocated id.
    pub fn create(&mut self, order: Order) -> (r: OrderId)
        requires
            old(self).wf(),
            old(self).spec_next_id() < u64::MAX,
        ensures
            final(self).wf(),
            r == OrderId(old(self).spec_next_id()),
            !old(self)@.contains_key(r),
            final(self)@ == old(self)@.insert(r, order),
            final(self).spec_next_id() == old(self).spec_next_id() + 1,
            final(self).spec_len() == old(self).spec_len() + 1,
    {
        let ghost s = self.orders@;
        let id = OrderId(self.next_id);
        self.next_id = self.next_id + 1;
        proof {
            assert forall|i: int| 0 <= i < s.len() implies (#[trigger] s[i].0) != id by {
                assert(s[i].0.0 < id.0);
            }
            lemma_seq_view_absent(s, id);
        }
        self.orders.push((id, order));
        proof {
            lemma_seq_push_fresh_key(s, (id, order));
        }
        id
    }

    fn find_index(&self, id: OrderId) -> (r: Option<usize>)
        ensures
            match r {
                Some(i) => 0 <= i < self.orders@.len() && self.orders@[i as int].0 == id,
                None => forall|i: int|
                    0 <= i < self.orders@.len() ==> (#[trigger] self.orders@[i].0) != id,
            },
    {
        let n = self.orders.len();
        let mut i: usize = 0;
        while i < n
            invariant
                0 <= i <= n,
                n == self.orders@.len(),
                forall|j: int| 0 <= j < i ==> (#[trigger] self.orders@[j].0) != id,
            decreases n - i,
        {
            if self.orders[i].0 == id {
                return Some(i);
            }
            i = i + 1;
        }
        None
    }

    pub fn get(&self, id: OrderId) -> (r: Option<&Order>)
        requires
            self.wf(),
        ensures
            r is Some <==> self@.contains_key(id),
            r is Some ==> *r->0 == self@[id],
    {
        match self.find_index(id) {
            Some(i) => {
                proof {
                    lemma_seq_view_index(self.orders@, i as int);
                }
                Some(&self.orders[i].1)
            },
            None => {
                proof {
                    lemma_seq_view_absent(self.orders@, id);
                }
                None
            },
        }
    }

    /// Mutable access to the order under `id`.
    pub fn get_mut(&mut self, id: OrderId) -> (r: Option<&mut Order>)
        requires
            old(self).wf(),
        ensures
            r is Some <==> old(self)@.contains_key(id),
            r matches Some(p) ==> *p == old(self)@[id] && final(self).wf() && final(self)@ == old(
                self,
            )@.insert(id, *final(p)),
            r is None ==> *final(self) == *old(self),
            final(self).spec_next_id() == old(self).spec_next_id(),
            final(self).spec_len() == old(self).spec_len(),
    {
        let ghost s = self.orders@;
        match self.find_index(id) {
            Some(i) => {
                let ghost ii = i as int;
                proof {
                    lemma_seq_view_index(s, ii);
                    assert forall|q: Order| true implies seq_wf(
                        #[trigger] s.update(ii, (s[ii].0, q)),
                    ) && seq_view(s.update(ii, (s[ii].0, q))) == seq_view(s).insert(s[ii].0, q)
                        && (s.update(ii, (s[ii].0, q))[ii].0).0 < self.next_id by {
                        lemma_seq_update_same_key(s, ii, (s[ii].0, q));
                    }
                }
                let e = vstd::std_specs::vec::vec_index_mut(&mut self.orders, i);
                Some(&mut e.1)
            },
            None => {
                proof {
                    lemma_seq_view_absent(s, id);
                }
                None
            },
        }
    }

    /// Remove and return the order under `id`, if present.
    pub fn remove(&mut self, id: OrderId) -> (r: Option<Order>)
        requires
            old(self).wf(),
        ensures
            final(self).wf(),
            final(self)@ == old(self)@.remove(id),
            r is Some <==> old(self)@.contains_key(id),
            r is Some ==> r->0 == old(self)@[id],
            final(self).spec_next_id() == old(self).spec_next_id(),
            r is Some ==> final(self).spec_len() == old(self).spec_len() - 1,
            r is None ==> final(self).spec_len() == old(self).spec_len(),
    {
        let ghost s = self.orders@;
        match self.find_index(id) {
            Some(i) => {
                let ghost ii = i as int;
                let (_, order) = self.orders.swap_remove(i);
                proof {
                    lemma_seq_view_index(s, ii);
                    lemma_seq_swap_remove(s, ii);
                }
                Some(order)
            },
            None => {
                proof {
                    lemma_seq_view_absent(s, id);
                    assert(seq_view(s).remove(id) =~= seq_view(s));
                }
                None
            },
        }
    }

    pub fn contains(&self, id: OrderId) -> (r: bool)
        requires
            self.wf(),
        ensures
            r == self@.contains_key(id),
    {
        match self.find_index(id) {
            Some(i) => {
                proof {
                    lemma_seq_view_index(self.orders@, i as int);
                }
                true
            },
            None => {
                proof {
                    lemma_seq_view_absent(self.orders@, id);
                }
                false
            },
        }
    }

    pub fn len(&self) -> (r: usize)
        ensures
            r == self.spec_len(),
    {
        self.orders.len()
    }

    pub fn is_empty(&self) -> (r: bool)
        requires
            self.wf(),
        ensures
            r == (self.spec_len() == 0),
            r ==> forall|id: OrderId| !(#[trigger] self@.contains_key(id)),
    {
        let empty = self.orders.len() == 0;
        proof {
            if empty {
                assert forall|id: OrderId| !(#[trigger] self@.contains_key(id)) by {
                    lemma_seq_view_absent(self.orders@, id);
                }
            }
        }
        empty
    }

    /// All entries, for read-only iteration; entry order is unspecified.
    pub fn iter(&self) -> (r: &Vec<(OrderId, Order)>)
        requires
            self.wf(),
        ensures
            forall|i: int|
                0 <= i < r@.len() ==> self@.contains_key(#[trigger] r@[i].0) && self@[r@[i].0]
                    == r@[i].1,
            forall|id: OrderId| #[trigger]
                self@.contains_key(id) ==> exists|i: int| 0 <= i < r@.len() && (#[trigger] r@[i].0)
                    == id,
    {
        proof {
            assert forall|i: int| 0 <= i < self.orders@.len() implies self@.contains_key(
                #[trigger] self.orders@[i].0,
            ) && self@[self.orders@[i].0] == self.orders@[i].1 by {
                lemma_seq_view_index(self.orders@, i);
            }
        }
        &self.orders
    }
}

} // verus!
