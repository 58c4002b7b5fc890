//! Positions and the key-addressed position store.

use vstd::prelude::*;

use crate::types::{AccountId, AssetId, MarketId, Side, Timestamp, TokenAmount, Usd};

verus! {

/// Unique identity of a position: a single account may hold at most one long
/// and one short per (market, collateral token) pair.
#[derive(Clone, Copy, Debug, Eq, Hash)]
pub struct PositionKey {
    pub account: AccountId,
    pub market_id: MarketId,
    pub collateral_token: AssetId,
    pub side: Side,
}

impl PartialEq for PositionKey {
    fn eq(&self, other: &PositionKey) -> (r: bool) {
        self.account == other.account && self.market_id == other.market_id
            && self.collateral_token == other.collateral_token && self.side == other.side
    }
}

impl vstd::std_specs::cmp::PartialEqSpecImpl for PositionKey {
    open spec fn obeys_eq_spec() -> bool {
        true
    }

    open spec fn eq_spec(&self, other: &PositionKey) -> bool {
        *self == *other
    }
}

/// A leveraged position backed by collateral.
#[derive(Clone, Debug)]
pub struct Position {
    pub key: PositionKey,
    pub size_usd: Usd,
    pub size_tokens: TokenAmount,
    pub collateral_amount: TokenAmount,
    /// Accumulated price impact not yet realized as collateral movement.
    pub pending_impact_tokens: TokenAmount,
    /// Snapshot of the market funding index at last settlement.
    pub funding_index: i128,
    /// Snapshot of the market borrowing factor at last settlement.
    pub borrowing_index: i128,
    pub opened_at: Timestamp,
    pub last_updated_at: Timestamp,
}

/// Entries carry pairwise distinct keys.
spec fn seq_wf(s: Seq<Position>) -> bool {
    forall|i: int, j: int|
        0 <= i < j < s.len() ==> (#[trigger] s[i].key) != (#[trigger] s[j].key)
}

/// The map an entry sequence denotes, keyed by each entry's `key` field.
spec fn seq_view(s: Seq<Position>) -> Map<PositionKey, Position> {
    Map::new(
        |k: PositionKey| exists|i: int| 0 <= i < s.len() && (#[trigger] s[i].key) == k,
        |k: PositionKey| s[choose|i: int| 0 <= i < s.len() && (#[trigger] s[i].key) == k],
    )
}

proof fn lemma_seq_view_index(s: Seq<Position>, i: int)
    requires
        seq_wf(s),
        0 <= i < s.len(),
    ensures
        seq_view(s).contains_key(s[i].key),
        seq_view(s)[s[i].key] == s[i],
{
    let k = s[i].key;
    assert(0 <= i < s.len() && s[i].key == k);
    let j = choose|j: int| 0 <= j < s.len() && (#[trigger] s[j].key) == k;
    assert(j == i);
}

proof fn lemma_seq_view_absent(s: Seq<Position>, k: PositionKey)
    requires
        forall|i: int| 0 <= i < s.len() ==> (#[trigger] s[i].key) != k,
    ensures
        !seq_view(s).contains_key(k),
{
}

/// Replacing the entry at `i` with one of the same key is a map insert.
proof fn lemma_seq_update_same_key(s: Seq<Position>, i: int, q: Position)
    requires
        seq_wf(s),
        0 <= i < s.len(),
        q.key == s[i].key,
    ensures
        seq_wf(s.update(i, q)),
        seq_view(s.update(i, q)) == seq_view(s).insert(q.key, q),
{
    let s2 = s.update(i, q);
    let k = q.key;
    assert forall|m: int, j: int| 0 <= m < j < s2.len() implies (#[trigger] s2[m].key) != (
    #[trigger] s2[j].key) by {
        assert(s[m].key != s[j].key);
    }
    assert forall|k2: PositionKey|
        #![trigger seq_view(s2).contains_key(k2)]
        #![trigger seq_view(s).insert(k, q).contains_key(k2)]
        seq_view(s2).contains_key(k2) == seq_view(s).insert(k, q).contains_key(k2) && (seq_view(
        s2,
    ).contains_key(k2) ==> seq_view(s2)[k2] == seq_view(s).insert(k, q)[k2]) by {
        if k2 == k {
            lemma_seq_view_index(s2, i);
        } else if seq_view(s).contains_key(k2) {
            let j = choose|j: int| 0 <= j < s.len() && (#[trigger] s[j].key) == k2;
            assert(s2[j].key == k2);
            lemma_seq_view_index(s2, j);
            lemma_seq_view_index(s, j);
        } else {
            assert forall|j: int| 0 <= j < s2.len() implies (#[trigger] s2[j].key) != k2 by {
                assert(j != i ==> s2[j] == s[j]);
            }
            lemma_seq_view_absent(s2, k2);
        }
    }
    assert(seq_view(s2) =~= seq_view(s).insert(k, q));
}

/// Appending an entry under a fresh key is a map insert.
proof fn lemma_seq_push_fresh_key(s: Seq<Position>, q: Position)
    requires
        seq_wf(s),
        forall|i: int| 0 <= i < s.len() ==> (#[trigger] s[i].key) != q.key,
    ensures
        seq_wf(s.push(q)),
        seq_view(s.push(q)) == seq_view(s).insert(q.key, q),
{
    let s2 = s.push(q);
    let n = s.len() as int;
    assert forall|m: int, j: int| 0 <= m < j < s2.len() implies (#[trigger] s2[m].key) != (
    #[trigger] s2[j].key) by {
        if j < n {
            assert(s[m].key != s[j].key);
        } else {
            assert(s2[j] == q && s2[m] == s[m]);
        }
    }
    assert forall|k2: PositionKey|
        #![trigger seq_view(s2).contains_key(k2)]
        #![trigger seq_view(s).insert(q.key, q).contains_key(k2)]
        seq_view(s2).contains_key(k2) == seq_view(s).insert(q.key, q).contains_key(k2) && (seq_view(
        s2,
    ).contains_key(k2) ==> seq_view(s2)[k2] == seq_view(s).insert(q.key, q)[k2]) by {
        if k2 == q.key {
            assert(s2[n].key == q.key);
            lemma_seq_view_index(s2, n);
        } else if seq_view(s).contains_key(k2) {
            let j = choose|j: int| 0 <= j < s.len() && (#[trigger] s[j].key) == k2;
            assert(s2[j].key == k2);
            lemma_seq_view_index(s2, j);
            lemma_seq_view_index(s, j);
        } else {
            assert forall|j: int| 0 <= j < s2.len() implies (#[trigger] s2[j].key) != k2 by {
                assert(j < n ==> s2[j] == s[j]);
            }
            lemma_seq_view_absent(s2, k2);
        }
    }
    assert(seq_view(s2) =~= seq_view(s).insert(q.key, q));
}

/// Removing the entry at `i` by swapping in the last entry is a map remove.
proof fn lemma_seq_swap_remove(s: Seq<Position>, i: int)
    requires
        seq_wf(s),
        0 <= i < s.len(),
    ensures
        seq_wf(s.update(i, s.last()).drop_last()),
        seq_view(s.update(i, s.last()).drop_last()) == seq_view(s).remove(s[i].key),
{
    let s2 = s.update(i, s.last()).drop_last();
    let k = s[i].key;
    let n = s.len() as int;
    assert forall|m: int, j: int| 0 <= m < j < s2.len() implies (#[trigger] s2[m].key) != (
    #[trigger] s2[j].key) by {
        assert(s2[j] == if j == i {
            s[n - 1]
        } else {
            s[j]
        });
        assert(s2[m] == if m == i {
            s[n - 1]
        } else {
            s[m]
        });
    }
    assert forall|k2: PositionKey|
        #![trigger seq_view(s2).contains_key(k2)]
        #![trigger seq_view(s).remove(k).contains_key(k2)]
        seq_view(s2).contains_key(k2) == seq_view(s).remove(k).contains_key(k2) && (seq_view(
        s2,
    ).contains_key(k2) ==> seq_view(s2)[k2] == seq_view(s).remove(k)[k2]) by {
        if k2 == k {
            assert forall|j: int| 0 <= j < s2.len() implies (#[trigger] s2[j].key) != k by {
                assert(s2[j] == if j == i {
                    s[n - 1]
                } else {
                    s[j]
                });
            }
            lemma_seq_view_absent(s2, k);
        } else if seq_view(s).contains_key(k2) {
            let j = choose|j: int| 0 <= j < s.len() && (#[trigger] s[j].key) == k2;
            lemma_seq_view_index(s, j);
            if j == n - 1 && i < n - 1 {
                assert(s2[i].key == k2);
                lemma_seq_view_index(s2, i);
            } else if j < n - 1 {
                assert(s2[j].key == k2);
                lemma_seq_view_index(s2, j);
            } else {
                assert(j == i && s[j].key == k);
            }
        } else {
            assert forall|j: int| 0 <= j < s2.len() implies (#[trigger] s2[j].key) != k2 by {
                assert(s2[j] == if j == i {
                    s[n - 1]
                } else {
                    s[j]
                });
            }
            lemma_seq_view_absent(s2, k2);
        }
    }
    assert(seq_view(s2) =~= seq_view(s).remove(k));
}

/// Key-addressed store of positions; behaves as a `Map<PositionKey, Position>`.
pub struct PositionStore {
    positions: Vec<Position>,
}

impl View for PositionStore {
    type V = Map<PositionKey, Position>;

    closed spec fn view(&self) -> Map<PositionKey, Position> {
        seq_view(self.positions@)
    }
}

impl PositionStore {
    /// The store's entries carry pairwise distinct keys. Established by
    /// `new` and preserved by every mutation that keeps entry keys intact.
    pub closed spec fn wf(self) -> bool {
        seq_wf(self.positions@)
    }

    pub fn new() -> (r: PositionStore)
        ensures
            r.wf(),
            r@ == Map::<PositionKey, Position>::empty(),
    {
        let r = PositionStore { positions: Vec::new() };
        proof {
            assert(r@ =~= Map::<PositionKey, Position>::empty());
        }
        r
    }

    fn find_index(&self, key: &PositionKey) -> (r: Option<usize>)
        ensures
            match r {
                Some(i) => 0 <= i < self.positions@.len() && self.positions@[i as int].key == *key,
                None => forall|i: int|
                    0 <= i < self.positions@.len() ==> (#[trigger] self.positions@[i].key) != *key,
            },
    {
        let n = self.positions.len();
        let mut i: usize = 0;
        while i < n
            invariant
                0 <= i <= n,
                n == self.positions@.len(),
                forall|j: int| 0 <= j < i ==> (#[trigger] self.positions@[j].key) != *key,
            decreases n - i,
        {
            if self.positions[i].key == *key {
                return Some(i);
            }
            i = i + 1;
        }
        None
    }

    pub fn get(&self, key: &PositionKey) -> (r: Option<&Position>)
        requires
            self.wf(),
        ensures
            r is Some <==> self@.contains_key(*key),
            r is Some ==> *r->0 == self@[*key],
    {
        match self.find_index(key) {
            Some(i) => {
                proof {
                    lemma_seq_view_index(self.positions@, i as int);
                }
                Some(&self.positions[i])
            },
            None => {
                proof {
                    lemma_seq_view_absent(self.positions@, *key);
                }
                None
            },
        }
    }

    /// Mutable access to the entry under `key`. The caller must leave the
    /// entry's `key` field unchanged for the store to keep its map meaning.
    pub fn get_mut(&mut self, key: &PositionKey) -> (r: Option<&mut Position>)
        requires
            old(self).wf(),
        ensures
            r is Some <==> old(self)@.contains_key(*key),
            r matches Some(p) ==> *p == old(self)@[*key] && (final(p).key == *key ==> final(self).wf()
                && final(self)@ == old(self)@.insert(*key, *final(p))),
            r is None ==> *final(self) == *old(self),
    {
        let ghost s = self.positions@;
        match self.find_index(key) {
            Some(i) => {
                let ghost ii = i as int;
                proof {
                    lemma_seq_view_index(s, ii);
                    assert forall|q: Position| q.key == *key implies seq_wf(
                        #[trigger] s.update(ii, q),
                    ) && seq_view(s.update(ii, q)) == seq_view(s).insert(q.key, q) by {
                        lemma_seq_update_same_key(s, ii, q);
                    }
                }
                Some(vstd::std_specs::vec::vec_index_mut(&mut self.positions, i))
            },
            None => {
                proof {
                    lemma_seq_view_absent(s, *key);
                }
                None
            },
        }
    }

    /// Insert or overwrite the entry under `position.key`.
    pub fn upsert(&mut self, position: Position)
        requires
            old(self).wf(),
        ensures
            final(self).wf(),
            final(self)@ == old(self)@.insert(position.key, position),
    {
        let ghost s = self.positions@;
        let ghost p = position;
        match self.find_index(&position.key) {
            Some(i) => {
                let ghost ii = i as int;
                *vstd::std_specs::vec::vec_index_mut(&mut self.positions, i) = position;
                proof {
                    assert(self.positions@ == s.update(ii, p));
                    lemma_seq_update_same_key(s, ii, p);
                }
            },
            None => {
                self.positions.push(position);
                proof {
                    lemma_seq_push_fresh_key(s, p);
                }
            },
        }
    }

    /// Remove and return the entry under `key`, if present.
    pub fn remove(&mut self, key: &PositionKey) -> (r: Option<Position>)
        requires
            old(self).wf(),
        ensures
            final(self).wf(),
            final(self)@ == old(self)@.remove(*key),
            r is Some <==> old(self)@.contains_key(*key),
            r is Some ==> r->0 == old(self)@[*key],
    {
        let ghost s = self.positions@;
        match self.find_index(key) {
            Some(i) => {
                let ghost ii = i as int;
                let p = self.positions.swap_remove(i);
                proof {
                    lemma_seq_view_index(s, ii);
                    lemma_seq_swap_remove(s, ii);
                }
                Some(p)
            },
            None => {
                proof {
                    lemma_seq_view_absent(s, *key);
                    assert(seq_view(s).remove(*key) =~= seq_view(s));
                }
                None
            },
        }
    }

    /// All entries, for read-only iteration; entry order is unspecified.
    pub fn iter(&self) -> (r: &Vec<Position>)
        requires
            self.wf(),
        ensures
            forall|i: int|
                0 <= i < r@.len() ==> self@.contains_key(#[trigger] r@[i].key) && self@[r@[i].key]
                    == r@[i],
            forall|k: PositionKey| #[trigger]
                self@.contains_key(k) ==> exists|i: int| 0 <= i < r@.len() && (#[trigger] r@[i].key)
                    == k,
    {
        proof {
            assert forall|i: int| 0 <= i < self.positions@.len() implies self@.contains_key(
                #[trigger] self.positions@[i].key,
            ) && self@[self.positions@[i].key] == self.positions@[i] by {
                lemma_seq_view_index(self.positions@, i);
            }
        }
        &self.positions
    }

    /// Fetch the entry under `key`, inserting `f(key)` first when absent.
    /// The inserted position must carry `key`, and the caller must leave the
    /// entry's `key` field unchanged.
    pub fn get_or_insert_with<F: FnOnce(PositionKey) -> Position>(
        &mut self,
        key: PositionKey,
        f: F,
    ) -> (r: &mut Position)
        requires
            old(self).wf(),
            f.requires((key,)),
            forall|p: Position| #[trigger] f.ensures((key,), p) ==> p.key == key,
        ensures
            old(self)@.contains_key(key) ==> *r == old(self)@[key],
            !old(self)@.contains_key(key) ==> f.ensures((key,), *r),
            final(r).key == key ==> final(self).wf() && final(self)@ == old(self)@.insert(
                key,
                *final(r),
            ),
    {
        let ghost s = self.positions@;
        match self.find_index(&key) {
            Some(i) => {
                let ghost ii = i as int;
                proof {
                    lemma_seq_view_index(s, ii);
                    assert forall|q: Position| q.key == key implies seq_wf(
                        #[trigger] s.update(ii, q),
                    ) && seq_view(s.update(ii, q)) == seq_view(s).insert(q.key, q) by {
                        lemma_seq_update_same_key(s, ii, q);
                    }
                }
                vstd::std_specs::vec::vec_index_mut(&mut self.positions, i)
            },
            None => {
                proof {
                    lemma_seq_view_absent(s, key);
                }
                let fresh = f(key);
                self.positions.push(fresh);
                let ghost s2 = self.positions@;
                let n = self.positions.len() - 1;
                let ghost nn = n as int;
                proof {
                    lemma_seq_push_fresh_key(s, s2[nn]);
                    lemma_seq_view_index(s2, nn);
                    assert forall|q: Position| q.key == key implies seq_wf(
                        #[trigger] s2.update(nn, q),
                    ) && seq_view(s2.update(nn, q)) == seq_view(s).insert(q.key, q) by {
                        lemma_seq_update_same_key(s2, nn, q);
                        assert(seq_view(s).insert(key, s2[nn]).insert(q.key, q) =~= seq_view(
                            s,
                        ).insert(q.key, q));
                    }
                }
                vstd::std_specs::vec::vec_index_mut(&mut self.positions, n)
            },
        }
    }
}

} // verus!
