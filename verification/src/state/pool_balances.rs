//! Raw pool balances per (market, asset), mutated only by liquidity and
//! fee routing; balances never go negative.

use vstd::prelude::*;

use crate::math::saturating::{sat_add_i128, spec_sat_i128};
use crate::types::{AssetId, DomainError, MarketId, TokenAmount};

verus! {

/// One pool balance entry.
#[derive(Clone, Copy, Debug)]
struct PoolEntry {
    market_id: MarketId,
    asset: AssetId,
    amount: TokenAmount,
}

spec fn entry_key(e: PoolEntry) -> (MarketId, AssetId) {
    (e.market_id, e.asset)
}

/// Entries carry pairwise distinct keys and non-negative amounts.
spec fn seq_wf(s: Seq<PoolEntry>) -> bool {
    &&& forall|i: int, j: int|
        0 <= i < j < s.len() ==> (#[trigger] entry_key(s[i])) != (#[trigger] entry_key(s[j]))
    &&& forall|i: int| 0 <= i < s.len() ==> (#[trigger] s[i].amount) >= 0
}

/// The total balance map an entry sequence denotes; absent keys hold zero.
spec fn seq_view(s: Seq<PoolEntry>) -> Map<(MarketId, AssetId), TokenAmount> {
    Map::new(
        |k: (MarketId, AssetId)| true,
        |k: (MarketId, AssetId)|
            if exists|i: int| 0 <= i < s.len() && (#[trigger] entry_key(s[i])) == k {
                s[choose|i: int| 0 <= i < s.len() && (#[trigger] entry_key(s[i])) == k].amount
            } else {
                0i128
            },
    )
}

proof fn lemma_seq_view_index(s: Seq<PoolEntry>, i: int)
    requires
        seq_wf(s),
        0 <= i < s.len(),
    ensures
        seq_view(s)[entry_key(s[i])] == s[i].amount,
{
    let k = entry_key(s[i]);
    assert(0 <= i < s.len() && entry_key(s[i]) == k);
    let j = choose|j: int| 0 <= j < s.len() && (#[trigger] entry_key(s[j])) == k;
    assert(j == i);
}

proof fn lemma_seq_view_absent(s: Seq<PoolEntry>, k: (MarketId, AssetId))
    requires
        forall|i: int| 0 <= i < s.len() ==> (#[trigger] entry_key(s[i])) != k,
    ensures
        seq_view(s)[k] == 0,
{
}

/// Replacing the entry at `i` with one of the same key updates the map.
proof fn lemma_seq_update_same_key(s: Seq<PoolEntry>, i: int, q: PoolEntry)
    requires
        seq_wf(s),
        0 <= i < s.len(),
        entry_key(q) == entry_key(s[i]),
        q.amount >= 0,
    ensures
        seq_wf(s.update(i, q)),
        seq_view(s.update(i, q)) == seq_view(s).insert(entry_key(q), q.amount),
{
    let s2 = s.update(i, q);
    let k = entry_key(q);
    assert forall|m: int, j: int| 0 <= m < j < s2.len() implies (#[trigger] entry_key(s2[m])) != (
    #[trigger] entry_key(s2[j])) by {
        assert(entry_key(s[m]) != entry_key(s[j]));
    }
    assert forall|k2: (MarketId, AssetId)| #[trigger]
        seq_view(s2)[k2] == seq_view(s).insert(k, q.amount)[k2] by {
        if k2 == k {
            lemma_seq_view_index(s2, i);
        } else if exists|j: int| 0 <= j < s.len() && (#[trigger] entry_key(s[j])) == k2 {
            let j = choose|j: int| 0 <= j < s.len() && (#[trigger] entry_key(s[j])) == k2;
            assert(entry_key(s2[j]) == k2);
            lemma_seq_view_index(s2, j);
            lemma_seq_view_index(s, j);
        } else {
            assert forall|j: int| 0 <= j < s2.len() implies (#[trigger] entry_key(s2[j]))
                != k2 by {
                assert(j != i ==> s2[j] == s[j]);
            }
            lemma_seq_view_absent(s2, k2);
            lemma_seq_view_absent(s, k2);
        }
    }
    assert(seq_view(s2) =~= seq_view(s).insert(k, q.amount));
}

/// Appending an entry under a fresh key updates the map.
proof fn lemma_seq_push_fresh_key(s: Seq<PoolEntry>, q: PoolEntry)
    requires
        seq_wf(s),
        forall|i: int| 0 <= i < s.len() ==> (#[trigger] entry_key(s[i])) != entry_key(q),
        q.amount >= 0,
    ensures
        seq_wf(s.push(q)),
        seq_view(s.push(q)) == seq_view(s).insert(entry_key(q), q.amount),
{
    let s2 = s.push(q);
    let n = s.len() as int;
    let k = entry_key(q);
    assert forall|m: int, j: int| 0 <= m < j < s2.len() implies (#[trigger] entry_key(s2[m])) != (
    #[trigger] entry_key(s2[j])) by {
        if j < n {
            assert(entry_key(s[m]) != entry_key(s[j]));
        } else {
            assert(s2[j] == q && s2[m] == s[m]);
        }
    }
    assert forall|k2: (MarketId, AssetId)| #[trigger]
        seq_view(s2)[k2] == seq_view(s).insert(k, q.amount)[k2] by {
        if k2 == k {
            assert(entry_key(s2[n]) == k);
            lemma_seq_view_index(s2, n);
        } else if exists|j: int| 0 <= j < s.len() && (#[trigger] entry_key(s[j])) == k2 {
            let j = choose|j: int| 0 <= j < s.len() && (#[trigger] entry_key(s[j])) == k2;
            assert(entry_key(s2[j]) == k2);
            lemma_seq_view_index(s2, j);
            lemma_seq_view_index(s, j);
        } else {
            assert forall|j: int| 0 <= j < s2.len() implies (#[trigger] entry_key(s2[j]))
                != k2 by {
                assert(j < n ==> s2[j] == s[j]);
            }
            lemma_seq_view_absent(s2, k2);
            lemma_seq_view_absent(s, k2);
        }
    }
    assert(seq_view(s2) =~= seq_view(s).insert(k, q.amount));
}

/// Pool balances per (market, asset); behaves as a total map from pair to
/// non-negative balance, with absent pairs holding zero.
pub struct PoolBalances {
    balances: Vec<PoolEntry>,
}

impl View for PoolBalances {
    type V = Map<(MarketId, AssetId), TokenAmount>;

    closed spec fn view(&self) -> Map<(MarketId, AssetId), TokenAmount> {
        seq_view(self.balances@)
    }
}

impl PoolBalances {
    /// Entries carry distinct keys and non-negative amounts. Established
    /// by `new` and preserved by every method.
    pub closed spec fn wf(self) -> bool {
        seq_wf(self.balances@)
    }

    /// Every (market, asset) pair is in the balance map's domain; absent
    /// entries read as zero.
    pub proof fn lemma_view_total(self)
        ensures
            forall|k: (MarketId, AssetId)| #[trigger] self@.dom().contains(k),
    {
    }

    pub fn new() -> (r: PoolBalances)
        ensures
            r.wf(),
            forall|k: (MarketId, AssetId)| #[trigger] r@[k] == 0,
    {
        PoolBalances { balances: Vec::new() }
    }

    fn find_index(&self, market_id: MarketId, asset: AssetId) -> (r: Option<usize>)
        ensures
            match r {
                Some(i) => 0 <= i < self.balances@.len() && entry_key(self.balances@[i as int]) == (
                market_id, asset),
                None => forall|i: int|
                    0 <= i < self.balances@.len() ==> (#[trigger] entry_key(self.balances@[i])) != (
                    market_id, asset),
            },
    {
        let n = self.balances.len();
        let mut i: usize = 0;
        while i < n
            invariant
                0 <= i <= n,
                n == self.balances@.len(),
                forall|j: int|
                    0 <= j < i ==> (#[trigger] entry_key(self.balances@[j])) != (market_id, asset),
            decreases n - i,
        {
            if self.balances[i].market_id == market_id && self.balances[i].asset == asset {
                return Some(i);
            }
            i = i + 1;
        }
        None
    }

    /// Set the balance under `(market_id, asset)` to `amount`.
    fn set_balance(&mut self, market_id: MarketId, asset: AssetId, amount: TokenAmount)
        requires
            old(self).wf(),
            amount >= 0,
        ensures
            final(self).wf(),
            final(self)@ == old(self)@.insert((market_id, asset), amount),
    {
        let ghost s = self.balances@;
        match self.find_index(market_id, asset) {
            Some(i) => {
                let ghost ii = i as int;
                let q = PoolEntry { market_id, asset, amount };
                *vstd::std_specs::vec::vec_index_mut(&mut self.balances, i) = q;
                proof {
                    lemma_seq_update_same_key(s, ii, q);
                }
            },
            None => {
                let q = PoolEntry { market_id, asset, amount };
                self.balances.push(q);
                proof {
                    lemma_seq_push_fresh_key(s, q);
                }
            },
        }
    }

    /// Read the current balance for (market, asset) without modifying it.
    pub fn get_balance(&self, market_id: MarketId, asset: AssetId) -> (r: TokenAmount)
        requires
            self.wf(),
        ensures
            r == self@[(market_id, asset)],
            r >= 0,
    {
        match self.find_index(market_id, asset) {
            Some(i) => {
                proof {
                    lemma_seq_view_index(self.balances@, i as int);
                }
                self.balances[i].amount
            },
            None => {
                proof {
                    lemma_seq_view_absent(self.balances@, (market_id, asset));
                }
                0
            },
        }
    }

    /// Add trading fees to the pool for a specific (market, asset),
    /// saturating at the top of the range.
    pub fn add_fee_to_pool(&mut self, market_id: MarketId, asset: AssetId, amount: TokenAmount)
        requires
            old(self).wf(),
            amount >= 0,
        ensures
            final(self).wf(),
            final(self)@ == old(self)@.insert(
                (market_id, asset),
                spec_sat_i128(old(self)@[(market_id, asset)] + amount) as i128,
            ),
    {
        let ghost k = (market_id, asset);
        if amount == 0 {
            proof {
                assert(old(self)@.insert(k, old(self)@[k]) =~= old(self)@);
            }
            return ;
        }
        let bal = self.get_balance(market_id, asset);
        let new_bal = sat_add_i128(bal, amount);
        self.set_balance(market_id, asset, new_bal);
    }

    /// Add liquidity for a single asset to a market pool, saturating at
    /// the top of the range.
    pub fn add_liquidity(&mut self, market_id: MarketId, asset: AssetId, amount: TokenAmount)
        requires
            old(self).wf(),
            amount >= 0,
        ensures
            final(self).wf(),
            final(self)@ == old(self)@.insert(
                (market_id, asset),
                spec_sat_i128(old(self)@[(market_id, asset)] + amount) as i128,
            ),
    {
        let ghost k = (market_id, asset);
        if amount == 0 {
            proof {
                assert(old(self)@.insert(k, old(self)@[k]) =~= old(self)@);
            }
            return ;
        }
        let bal = self.get_balance(market_id, asset);
        let new_bal = sat_add_i128(bal, amount);
        self.set_balance(market_id, asset, new_bal);
    }

    /// Add liquidity for both sides of a two-token pool at once;
    /// non-positive amounts are skipped.
    pub fn add_liquidity_pair(
        &mut self,
        market_id: MarketId,
        long_asset: AssetId,
        long_amount: TokenAmount,
        short_asset: AssetId,
        short_amount: TokenAmount,
    )
        requires
            old(self).wf(),
        ensures
            final(self).wf(),
            final(self)@ == ({
                let mid = if long_amount > 0 {
                    old(self)@.insert(
                        (market_id, long_asset),
                        spec_sat_i128(old(self)@[(market_id, long_asset)] + long_amount) as i128,
                    )
                } else {
                    old(self)@
                };
                if short_amount > 0 {
                    mid.insert(
                        (market_id, short_asset),
                        spec_sat_i128(mid[(market_id, short_asset)] + short_amount) as i128,
                    )
                } else {
                    mid
                }
            }),
    {
        if long_amount > 0 {
            self.add_liquidity(market_id, long_asset, long_amount);
        }
        if short_amount > 0 {
            self.add_liquidity(market_id, short_asset, short_amount);
        }
    }

    /// Remove liquidity for a single asset; fails with
    /// `InsufficientPoolLiquidity` when the balance would go below zero,
    /// leaving the pool unchanged.
    pub fn remove_liquidity(
        &mut self,
        market_id: MarketId,
        asset: AssetId,
        amount: TokenAmount,
    ) -> (r: Result<TokenAmount, DomainError>)
        requires
            old(self).wf(),
            amount >= 0,
        ensures
            final(self).wf(),
            r is Ok <==> amount == 0 || old(self)@[(market_id, asset)] >= amount,
            amount == 0 ==> r == Ok::<TokenAmount, DomainError>(0) && final(self)@ == old(self)@,
            amount > 0 && old(self)@[(market_id, asset)] >= amount ==> r == Ok::<
                TokenAmount,
                DomainError,
            >(amount) && final(self)@ == old(self)@.insert(
                (market_id, asset),
                (old(self)@[(market_id, asset)] - amount) as i128,
            ),
            r is Err ==> r->Err_0 == DomainError::InsufficientPoolLiquidity && final(self)@ == old(
                self,
            )@,
    {
        if amount == 0 {
            return Ok(0);
        }
        let bal = self.get_balance(market_id, asset);
        if bal < amount {
            return Err(DomainError::InsufficientPoolLiquidity);
        }
        self.set_balance(market_id, asset, bal - amount);
        Ok(amount)
    }

    /// Remove liquidity for both long and short tokens at once. The first
    /// failure is returned; a failure on the short side leaves the long
    /// withdrawal applied.
    pub fn remove_liquidity_pair(
        &mut self,
        market_id: MarketId,
        long_asset: AssetId,
        long_amount: TokenAmount,
        short_asset: AssetId,
        short_amount: TokenAmount,
    ) -> (r: Result<(TokenAmount, TokenAmount), DomainError>)
        requires
            old(self).wf(),
            long_amount >= 0,
            short_amount >= 0,
        ensures
            final(self).wf(),
            ({
                let lk = (market_id, long_asset);
                let sk = (market_id, short_asset);
                let long_ok = long_amount == 0 || old(self)@[lk] >= long_amount;
                let mid = if long_amount == 0 {
                    old(self)@
                } else {
                    old(self)@.insert(lk, (old(self)@[lk] - long_amount) as i128)
                };
                let short_ok = short_amount == 0 || mid[sk] >= short_amount;
                if !long_ok {
                    r == Err::<(TokenAmount, TokenAmount), DomainError>(
                        DomainError::InsufficientPoolLiquidity,
                    ) && final(self)@ == old(self)@
                } else if !short_ok {
                    r == Err::<(TokenAmount, TokenAmount), DomainError>(
                        DomainError::InsufficientPoolLiquidity,
                    ) && final(self)@ == mid
                } else {
                    r == Ok::<(TokenAmount, TokenAmount), DomainError>(
                        (long_amount, short_amount),
                    ) && final(self)@ == (if short_amount == 0 {
                        mid
                    } else {
                        mid.insert(sk, (mid[sk] - short_amount) as i128)
                    })
                }
            }),
    {
        let taken_long = match self.remove_liquidity(market_id, long_asset, long_amount) {
            Ok(v) => v,
            Err(e) => {
                return Err(e);
            },
        };
        let taken_short = match self.remove_liquidity(market_id, short_asset, short_amount) {
            Ok(v) => v,
            Err(e) => {
                return Err(e);
            },
        };
        Ok((taken_long, taken_short))
    }

    /// Both sides of a two-token pool for a given market.
    pub fn get_pair_balances(
        &self,
        market_id: MarketId,
        long_asset: AssetId,
        short_asset: AssetId,
    ) -> (r: (TokenAmount, TokenAmount))
        requires
            self.wf(),
        ensures
            r.0 == self@[(market_id, long_asset)],
            r.1 == self@[(market_id, short_asset)],
    {
        let long_bal = self.get_balance(market_id, long_asset);
        let short_bal = self.get_balance(market_id, short_asset);
        (long_bal, short_bal)
    }
}

} // verus!
