//! Claimables: a ledger of rights to receive tokens later. Nothing moves
//! immediately; amounts accumulate per (account, asset) until claimed.

use vstd::prelude::*;

use crate::math::saturating::{sat_add_i128, spec_sat_i128};
use crate::types::{AccountId, AssetId, DomainError, TokenAmount};

verus! {

/// One ledger entry.
#[derive(Clone, Copy, Debug)]
struct LedgerEntry {
    account: AccountId,
    asset: AssetId,
    amount: TokenAmount,
}

spec fn entry_key(e: LedgerEntry) -> (AccountId, AssetId) {
    (e.account, e.asset)
}

/// Entries carry pairwise distinct keys and non-negative amounts.
spec fn seq_wf(s: Seq<LedgerEntry>) -> bool {
    &&& forall|i: int, j: int|
        0 <= i < j < s.len() ==> (#[trigger] entry_key(s[i])) != (#[trigger] entry_key(s[j]))
    &&& forall|i: int| 0 <= i < s.len() ==> (#[trigger] s[i].amount) >= 0
}

/// The total ledger map an entry sequence denotes; absent keys hold zero.
spec fn seq_view(s: Seq<LedgerEntry>) -> Map<(AccountId, AssetId), TokenAmount> {
    Map::new(
        |k: (AccountId, AssetId)| true,
        |k: (AccountId, AssetId)|
            if exists|i: int| 0 <= i < s.len() && (#[trigger] entry_key(s[i])) == k {
                s[choose|i: int| 0 <= i < s.len() && (#[trigger] entry_key(s[i])) == k].amount
            } else {
                0i128
            },
    )
}

proof fn lemma_seq_view_index(s: Seq<LedgerEntry>, i: int)
    requires
        seq_wf(s),
        0 <= i < s.len(),
    ensures
        seq_view(s)[entry_key(s[i])] == s[i].amount,
{
    let k = entry_key(s[i]);
    assert(0 <= i < s.len() && entry_key(s[i]) == k);
    let j = choose|j: int| 0 <= j < s.len() && (#[trigger] entry_key(s[j])) == k;
    assert(j == i);
}

proof fn lemma_seq_view_absent(s: Seq<LedgerEntry>, k: (AccountId, AssetId))
    requires
        forall|i: int| 0 <= i < s.len() ==> (#[trigger] entry_key(s[i])) != k,
    ensures
        seq_view(s)[k] == 0,
{
}

proof fn lemma_seq_update_same_key(s: Seq<LedgerEntry>, i: int, q: LedgerEntry)
    requires
        seq_wf(s),
        0 <= i < s.len(),
        entry_key(q) == entry_key(s[i]),
        q.amount >= 0,
    ensures
        seq_wf(s.update(i, q)),
        seq_view(s.update(i, q)) == seq_view(s).insert(entry_key(q), q.amount),
{
    let s2 = s.update(i, q);
    let k = entry_key(q);
    assert forall|m: int, j: int| 0 <= m < j < s2.len() implies (#[trigger] entry_key(s2[m])) != (
    #[trigger] entry_key(s2[j])) by {
        assert(entry_key(s[m]) != entry_key(s[j]));
    }
    assert forall|k2: (AccountId, AssetId)| #[trigger]
        seq_view(s2)[k2] == seq_view(s).insert(k, q.amount)[k2] by {
        if k2 == k {
            lemma_seq_view_index(s2, i);
        } else if exists|j: int| 0 <= j < s.len() && (#[trigger] entry_key(s[j])) == k2 {
            let j = choose|j: int| 0 <= j < s.len() && (#[trigger] entry_key(s[j])) == k2;
            assert(entry_key(s2[j]) == k2);
            lemma_seq_view_index(s2, j);
            lemma_seq_view_index(s, j);
        } else {
            assert forall|j: int| 0 <= j < s2.len() implies (#[trigger] entry_key(s2[j]))
                != k2 by {
                assert(j != i ==> s2[j] == s[j]);
            }
            lemma_seq_view_absent(s2, k2);
            lemma_seq_view_absent(s, k2);
        }
    }
    assert(seq_view(s2) =~= seq_view(s).insert(k, q.amount));
}

proof fn lemma_seq_push_fresh_key(s: Seq<LedgerEntry>, q: LedgerEntry)
    requires
        seq_wf(s),
        forall|i: int| 0 <= i < s.len() ==> (#[trigger] entry_key(s[i])) != entry_key(q),
        q.amount >= 0,
    ensures
        seq_wf(s.push(q)),
        seq_view(s.push(q)) == seq_view(s).insert(entry_key(q), q.amount),
{
    let s2 = s.push(q);
    let n = s.len() as int;
    let k = entry_key(q);
    assert forall|m: int, j: int| 0 <= m < j < s2.len() implies (#[trigger] entry_key(s2[m])) != (
    #[trigger] entry_key(s2[j])) by {
        if j < n {
            assert(entry_key(s[m]) != entry_key(s[j]));
        } else {
            assert(s2[j] == q && s2[m] == s[m]);
        }
    }
    assert forall|k2: (AccountId, AssetId)| #[trigger]
        seq_view(s2)[k2] == seq_view(s).insert(k, q.amount)[k2] by {
        if k2 == k {
            assert(entry_key(s2[n]) == k);
            lemma_seq_view_index(s2, n);
        } else if exists|j: int| 0 <= j < s.len() && (#[trigger] entry_key(s[j])) == k2 {
            let j = choose|j: int| 0 <= j < s.len() && (#[trigger] entry_key(s[j])) == k2;
            assert(entry_key(s2[j]) == k2);
            lemma_seq_view_index(s2, j);
            lemma_seq_view_index(s, j);
        } else {
            assert forall|j: int| 0 <= j < s2.len() implies (#[trigger] entry_key(s2[j]))
                != k2 by {
                assert(j < n ==> s2[j] == s[j]);
            }
            lemma_seq_view_absent(s2, k2);
            lemma_seq_view_absent(s, k2);
        }
    }
    assert(seq_view(s2) =~= seq_view(s).insert(k, q.amount));
}

fn find_entry(v: &Vec<LedgerEntry>, account: &AccountId, asset: AssetId) -> (r: Option<usize>)
    ensures
        match r {
            Some(i) => 0 <= i < v@.len() && entry_key(v@[i as int]) == (*account, asset),
            None => forall|i: int|
                0 <= i < v@.len() ==> (#[trigger] entry_key(v@[i])) != (*account, asset),
        },
{
    let n = v.len();
    let mut i: usize = 0;
    while i < n
        invariant
            0 <= i <= n,
            n == v@.len(),
            forall|j: int| 0 <= j < i ==> (#[trigger] entry_key(v@[j])) != (*account, asset),
        decreases n - i,
    {
        if v[i].account == *account && v[i].asset == asset {
            return Some(i);
        }
        i = i + 1;
    }
    None
}

/// Set the amount under `(account, asset)` in one ledger vector.
fn set_entry(v: &mut Vec<LedgerEntry>, account: AccountId, asset: AssetId, amount: TokenAmount)
    requires
        seq_wf(old(v)@),
        amount >= 0,
    ensures
        seq_wf(final(v)@),
        seq_view(final(v)@) == seq_view(old(v)@).insert((account, asset), amount),
{
    let ghost s = v@;
    match find_entry(v, &account, asset) {
        Some(i) => {
            let ghost ii = i as int;
            let q = LedgerEntry { account, asset, amount };
            *vstd::std_specs::vec::vec_index_mut(v, i) = q;
            proof {
                lemma_seq_update_same_key(s, ii, q);
            }
        },
        None => {
            let q = LedgerEntry { account, asset, amount };
            v.push(q);
            proof {
                lemma_seq_push_fresh_key(s, q);
            }
        },
    }
}

fn get_entry(v: &Vec<LedgerEntry>, account: &AccountId, asset: AssetId) -> (r: TokenAmount)
    requires
        seq_wf(v@),
    ensures
        r == seq_view(v@)[(*account, asset)],
        r >= 0,
{
    match find_entry(v, account, asset) {
        Some(i) => {
            proof {
                lemma_seq_view_index(v@, i as int);
            }
            v[i].amount
        },
        None => {
            proof {
                lemma_seq_view_absent(v@, (*account, asset));
            }
            0
        },
    }
}

/// Ledger of claimable amounts per (account, asset): funding rewards and
/// generic fees, kept separate so they can be routed differently.
pub struct Claimables {
    funding: Vec<LedgerEntry>,
    fees: Vec<LedgerEntry>,
}

impl Claimables {
    /// Both ledgers carry distinct keys and non-negative amounts.
    pub closed spec fn wf(self) -> bool {
        seq_wf(self.funding@) && seq_wf(self.fees@)
    }

    /// Funding claimables as a total map; absent pairs hold zero.
    pub closed spec fn funding_view(self) -> Map<(AccountId, AssetId), TokenAmount> {
        seq_view(self.funding@)
    }

    /// Fee claimables as a total map; absent pairs hold zero.
    pub closed spec fn fees_view(self) -> Map<(AccountId, AssetId), TokenAmount> {
        seq_view(self.fees@)
    }

    /// Every (account, asset) pair is in both ledger maps' domains; absent
    /// entries read as zero.
    pub proof fn lemma_views_total(self)
        ensures
            forall|k: (AccountId, AssetId)| #[trigger] self.funding_view().dom().contains(k),
            forall|k: (AccountId, AssetId)| #[trigger] self.fees_view().dom().contains(k),
    {
    }

    pub fn new() -> (r: Claimables)
        ensures
            r.wf(),
            forall|k: (AccountId, AssetId)| #[trigger] r.funding_view()[k] == 0,
            forall|k: (AccountId, AssetId)| #[trigger] r.fees_view()[k] == 0,
    {
        Claimables { funding: Vec::new(), fees: Vec::new() }
    }

    /// Add a funding claimable for (account, asset), saturating at the top
    /// of the range; a zero amount is a no-op.
    pub fn add_funding(&mut self, account: AccountId, asset: AssetId, amount: TokenAmount)
        requires
            old(self).wf(),
            amount >= 0,
        ensures
            final(self).wf(),
            final(self).funding_view() == old(self).funding_view().insert(
                (account, asset),
                spec_sat_i128(old(self).funding_view()[(account, asset)] + amount) as i128,
            ),
            final(self).fees_view() == old(self).fees_view(),
    {
        let ghost k = (account, asset);
        if amount == 0 {
            proof {
                assert(old(self).funding_view().insert(k, old(self).funding_view()[k]) =~= old(
                    self,
                ).funding_view());
            }
            return ;
        }
        let bal = get_entry(&self.funding, &account, asset);
        let new_bal = sat_add_i128(bal, amount);
        set_entry(&mut self.funding, account, asset, new_bal);
    }

    /// Read the funding claimable for (account, asset).
    pub fn get_funding(&self, account: AccountId, asset: AssetId) -> (r: TokenAmount)
        requires
            self.wf(),
        ensures
            r == self.funding_view()[(account, asset)],
            r >= 0,
    {
        get_entry(&self.funding, &account, asset)
    }

    /// Take (consume) the whole funding claimable for (account, asset).
    pub fn take_funding_all(&mut self, account: AccountId, asset: AssetId) -> (r: TokenAmount)
        requires
            old(self).wf(),
        ensures
            final(self).wf(),
            r == old(self).funding_view()[(account, asset)],
            r >= 0,
            final(self).funding_view() == old(self).funding_view().insert((account, asset), 0i128),
            final(self).fees_view() == old(self).fees_view(),
    {
        let bal = get_entry(&self.funding, &account, asset);
        set_entry(&mut self.funding, account, asset, 0);
        bal
    }

    /// Add a generic fee claimable, saturating; a zero amount is a no-op.
    pub fn add_fee(&mut self, account: AccountId, asset: AssetId, amount: TokenAmount)
        requires
            old(self).wf(),
            amount >= 0,
        ensures
            final(self).wf(),
            final(self).fees_view() == old(self).fees_view().insert(
                (account, asset),
                spec_sat_i128(old(self).fees_view()[(account, asset)] + amount) as i128,
            ),
            final(self).funding_view() == old(self).funding_view(),
    {
        let ghost k = (account, asset);
        if amount == 0 {
            proof {
                assert(old(self).fees_view().insert(k, old(self).fees_view()[k]) =~= old(
                    self,
                ).fees_view());
            }
            return ;
        }
        let bal = get_entry(&self.fees, &account, asset);
        let new_bal = sat_add_i128(bal, amount);
        set_entry(&mut self.fees, account, asset, new_bal);
    }

    /// Read the fee claimable for (account, asset).
    pub fn get_fee(&self, account: AccountId, asset: AssetId) -> (r: TokenAmount)
        requires
            self.wf(),
        ensures
            r == self.fees_view()[(account, asset)],
            r >= 0,
    {
        get_entry(&self.fees, &account, asset)
    }

    /// Take (consume) the whole fee claimable for (account, asset).
    pub fn take_fee_all(&mut self, account: AccountId, asset: AssetId) -> (r: TokenAmount)
        requires
            old(self).wf(),
        ensures
            final(self).wf(),
            r == old(self).fees_view()[(account, asset)],
            r >= 0,
            final(self).fees_view() == old(self).fees_view().insert((account, asset), 0i128),
            final(self).funding_view() == old(self).funding_view(),
    {
        let bal = get_entry(&self.fees, &account, asset);
        set_entry(&mut self.fees, account, asset, 0);
        bal
    }

    /// Total withdrawable balance for (account, asset): funding plus fees,
    /// saturating.
    pub fn balance_of(&self, account: AccountId, asset: AssetId) -> (r: TokenAmount)
        requires
            self.wf(),
        ensures
            r == spec_sat_i128(
                self.funding_view()[(account, asset)] + self.fees_view()[(account, asset)],
            ),
            r >= 0,
    {
        let a = self.get_funding(account, asset);
        let b = self.get_fee(account, asset);
        sat_add_i128(a, b)
    }

    /// Take all claimables (funding plus fees) for (account, asset).
    fn take_all(&mut self, account: AccountId, asset: AssetId) -> (r: TokenAmount)
        requires
            old(self).wf(),
        ensures
            final(self).wf(),
            r == spec_sat_i128(
                old(self).funding_view()[(account, asset)] + old(self).fees_view()[(account,
                    asset)],
            ),
            r >= 0,
            final(self).funding_view() == old(self).funding_view().insert((account, asset), 0i128),
            final(self).fees_view() == old(self).fees_view().insert((account, asset), 0i128),
    {
        let a = self.take_funding_all(account, asset);
        let b = self.take_fee_all(account, asset);
        sat_add_i128(a, b)
    }

    /// Claim all claimables for (account, asset); fails with
    /// `NothingToClaim` when the total is zero. Both ledgers are zeroed for
    /// the pair either way.
    pub fn claim_all(&mut self, account: AccountId, asset: AssetId) -> (r: Result<
        TokenAmount,
        DomainError,
    >)
        requires
            old(self).wf(),
        ensures
            final(self).wf(),
            r is Ok <==> spec_sat_i128(
                old(self).funding_view()[(account, asset)] + old(self).fees_view()[(account,
                    asset)],
            ) != 0,
            r is Ok ==> r->Ok_0 == spec_sat_i128(
                old(self).funding_view()[(account, asset)] + old(self).fees_view()[(account,
                    asset)],
            ),
            r is Err ==> r->Err_0 == DomainError::NothingToClaim,
            final(self).funding_view() == old(self).funding_view().insert((account, asset), 0i128),
            final(self).fees_view() == old(self).fees_view().insert((account, asset), 0i128),
    {
        let total = self.take_all(account, asset);
        if total == 0 {
            return Err(DomainError::NothingToClaim);
        }
        Ok(total)
    }

    /// Every asset with a non-zero claimable total for `account`, each
    /// paired with its saturating funding-plus-fee total. Assets are
    /// listed once; entry order is unspecified.
    #[verifier::rlimit(100)]
    pub fn list_by_account(&self, account: AccountId) -> (r: Vec<(AssetId, TokenAmount)>)
        requires
            self.wf(),
        ensures
            forall|i: int|
                0 <= i < r@.len() ==> (#[trigger] r@[i]).1 == spec_sat_i128(
                    self.funding_view()[(account, r@[i].0)] + self.fees_view()[(account, r@[i].0)],
                ) && r@[i].1 != 0,
            forall|i: int, j: int| 0 <= i < j < r@.len() ==> (#[trigger] r@[i]).0 != (
            #[trigger] r@[j]).0,
            forall|asset: AssetId|
                (#[trigger] self.funding_view()[(account, asset)]) != 0
                    || self.fees_view()[(account, asset)] != 0 ==> exists|i: int|
                    0 <= i < r@.len() && (#[trigger] r@[i]).0 == asset,
    {
        let mut result: Vec<(AssetId, TokenAmount)> = Vec::new();
        let n = self.funding.len();
        let mut i: usize = 0;
        while i < n
            invariant
                self.wf(),
                0 <= i <= n,
                n == self.funding@.len(),
                forall|idx: int|
                    0 <= idx < result@.len() ==> (#[trigger] result@[idx]).1 == spec_sat_i128(
                        self.funding_view()[(account, result@[idx].0)] + self.fees_view()[(account,
                            result@[idx].0)],
                    ) && result@[idx].1 != 0,
                forall|idx: int|
                    #![trigger result@[idx]]
                    0 <= idx < result@.len() ==> exists|t: int|
                        0 <= t < i && (#[trigger] self.funding@[t]).account == account
                            && self.funding@[t].asset == result@[idx].0 && self.funding@[t].amount
                            != 0,
                forall|idx: int, jdx: int|
                    0 <= idx < jdx < result@.len() ==> (#[trigger] result@[idx]).0 != (
                    #[trigger] result@[jdx]).0,
                forall|t: int|
                    0 <= t < i && (#[trigger] self.funding@[t]).account == account
                        && self.funding@[t].amount != 0 ==> exists|idx: int|
                        0 <= idx < result@.len() && (#[trigger] result@[idx]).0
                            == self.funding@[t].asset,
            decreases n - i,
        {
            let e_account = self.funding[i].account;
            let e_asset = self.funding[i].asset;
            let e_amount = self.funding[i].amount;
            let ghost ii = i as int;
            if e_account == account && e_amount != 0 {
                proof {
                    lemma_seq_view_index(self.funding@, ii);
                    assert forall|idx: int| 0 <= idx < result@.len() implies (
                    #[trigger] result@[idx]).0 != e_asset by {
                        if result@[idx].0 == e_asset {
                            let t = choose|t: int|
                                0 <= t < ii && (#[trigger] self.funding@[t]).account == account
                                    && self.funding@[t].asset == result@[idx].0
                                    && self.funding@[t].amount != 0;
                            assert(entry_key(self.funding@[t]) == entry_key(self.funding@[ii]));
                        }
                    }
                }
                let fee_amt = get_entry(&self.fees, &account, e_asset);
                let ghost prev = result@;
                result.push((e_asset, sat_add_i128(e_amount, fee_amt)));
                proof {
                    lemma_extension_keeps_witnesses(prev, result@, self.funding@, account, ii);
                }
            } else {
                proof {
                    assert forall|t: int|
                        0 <= t < ii + 1 && (#[trigger] self.funding@[t]).account == account
                            && self.funding@[t].amount != 0 implies exists|idx: int|
                        0 <= idx < result@.len() && (#[trigger] result@[idx]).0
                            == self.funding@[t].asset by {
                        assert(t < ii);
                    }
                }
            }
            i = i + 1;
        }
        let ghost len1 = result@.len() as int;
        proof {
            assert forall|idx: int| 0 <= idx < len1 implies (#[trigger] self.funding_view()[(
                account,
                result@[idx].0,
            )]) != 0 by {
                let t = choose|t: int|
                    0 <= t < self.funding@.len() && (#[trigger] self.funding@[t]).account == account
                        && self.funding@[t].asset == result@[idx].0 && self.funding@[t].amount
                        != 0;
                lemma_seq_view_index(self.funding@, t);
            }
        }
        let m = self.fees.len();
        let mut j: usize = 0;
        while j < m
            invariant
                self.wf(),
                0 <= j <= m,
                m == self.fees@.len(),
                0 <= len1 <= result@.len(),
                forall|idx: int|
                    0 <= idx < result@.len() ==> (#[trigger] result@[idx]).1 == spec_sat_i128(
                        self.funding_view()[(account, result@[idx].0)] + self.fees_view()[(account,
                            result@[idx].0)],
                    ) && result@[idx].1 != 0,
                forall|idx: int|
                    0 <= idx < len1 ==> (#[trigger] self.funding_view()[(account, result@[idx].0)])
                        != 0,
                forall|idx: int|
                    #![trigger result@[idx]]
                    len1 <= idx < result@.len() ==> self.funding_view()[(account, result@[idx].0)]
                        == 0 && exists|t: int|
                        0 <= t < j && (#[trigger] self.fees@[t]).account == account
                            && self.fees@[t].asset == result@[idx].0,
                forall|idx: int, jdx: int|
                    0 <= idx < jdx < result@.len() ==> (#[trigger] result@[idx]).0 != (
                    #[trigger] result@[jdx]).0,
                forall|t: int|
                    0 <= t < self.funding@.len() && (#[trigger] self.funding@[t]).account == account
                        && self.funding@[t].amount != 0 ==> exists|idx: int|
                        0 <= idx < result@.len() && (#[trigger] result@[idx]).0
                            == self.funding@[t].asset,
                forall|t: int|
                    0 <= t < j && (#[trigger] self.fees@[t]).account == account
                        && self.fees@[t].amount != 0 ==> exists|idx: int|
                        0 <= idx < result@.len() && (#[trigger] result@[idx]).0
                            == self.fees@[t].asset,
            decreases m - j,
        {
            let e_account = self.fees[j].account;
            let e_asset = self.fees[j].asset;
            let e_amount = self.fees[j].amount;
            let ghost jj = j as int;
            if e_account == account && e_amount != 0 {
                let f_amt = get_entry(&self.funding, &account, e_asset);
                if f_amt == 0 {
                    proof {
                        lemma_seq_view_index(self.fees@, jj);
                        assert forall|idx: int| 0 <= idx < result@.len() implies (
                        #[trigger] result@[idx]).0 != e_asset by {
                            if idx >= len1 && result@[idx].0 == e_asset {
                                let t = choose|t: int|
                                    0 <= t < jj && (#[trigger] self.fees@[t]).account == account
                                        && self.fees@[t].asset == result@[idx].0;
                                assert(entry_key(self.fees@[t]) == entry_key(self.fees@[jj]));
                            }
                        }
                    }
                    let ghost prev = result@;
                    result.push((e_asset, e_amount));
                    proof {
                        lemma_extension_keeps_fee_witnesses(prev, result@, self.fees@, account, jj);
                        lemma_extension_keeps_all_funding_witnesses(
                            prev,
                            result@,
                            self.funding@,
                            account,
                        );
                        assert forall|idx: int|
                            #![trigger result@[idx]]
                            len1 <= idx < result@.len() implies self.funding_view()[(account,
                            result@[idx].0)] == 0 && exists|t: int|
                            0 <= t < jj + 1 && (#[trigger] self.fees@[t]).account == account
                                && self.fees@[t].asset == result@[idx].0 by {
                            if idx < result@.len() - 1 {
                                assert(result@[idx] == prev[idx]);
                                let t = choose|t: int|
                                    0 <= t < jj && (#[trigger] self.fees@[t]).account == account
                                        && self.fees@[t].asset == prev[idx].0;
                            } else {
                                assert(result@[idx].0 == self.fees@[jj].asset);
                            }
                        }
                    }
                } else {
                    proof {
                        let t = choose|t: int|
                            0 <= t < self.funding@.len() && (#[trigger] entry_key(
                                self.funding@[t],
                            )) == (account, e_asset);
                        lemma_seq_view_index(self.funding@, t);
                        assert forall|t2: int|
                            0 <= t2 < jj + 1 && (#[trigger] self.fees@[t2]).account == account
                                && self.fees@[t2].amount != 0 implies exists|idx: int|
                            0 <= idx < result@.len() && (#[trigger] result@[idx]).0
                                == self.fees@[t2].asset by {
                            if t2 == jj {
                                let idx = choose|idx: int|
                                    0 <= idx < result@.len() && (#[trigger] result@[idx]).0
                                        == self.funding@[t].asset;
                            }
                        }
                    }
                }
            } else {
                proof {
                    assert forall|t: int|
                        0 <= t < jj + 1 && (#[trigger] self.fees@[t]).account == account
                            && self.fees@[t].amount != 0 implies exists|idx: int|
                        0 <= idx < result@.len() && (#[trigger] result@[idx]).0
                            == self.fees@[t].asset by {
                        assert(t < jj);
                    }
                }
            }
            j = j + 1;
        }
        proof {
            assert forall|asset: AssetId|
                (#[trigger] self.funding_view()[(account, asset)]) != 0 || self.fees_view()[(
                account,
                asset,
            )] != 0 implies exists|idx: int|
                0 <= idx < result@.len() && (#[trigger] result@[idx]).0 == asset by {
                if self.funding_view()[(account, asset)] != 0 {
                    let t = choose|t: int|
                        0 <= t < self.funding@.len() && (#[trigger] entry_key(self.funding@[t]))
                            == (account, asset);
                    lemma_seq_view_index(self.funding@, t);
                } else {
                    let t = choose|t: int|
                        0 <= t < self.fees@.len() && (#[trigger] entry_key(self.fees@[t])) == (
                        account,
                        asset,
                    );
                    lemma_seq_view_index(self.fees@, t);
                }
            }
        }
        result
    }
}

/// Appending to the result list keeps every witness index valid: entries
/// covered before stay covered, and entries of the funding prefix up to
/// `i` (inclusive) are covered when the new element covers `i` itself.
proof fn lemma_extension_keeps_witnesses(
    prev: Seq<(AssetId, TokenAmount)>,
    cur: Seq<(AssetId, TokenAmount)>,
    funding: Seq<LedgerEntry>,
    account: AccountId,
    i: int,
)
    requires
        0 <= i < funding.len(),
        cur == prev.push((funding[i].asset, cur.last().1)),
        forall|t: int|
            0 <= t < i && (#[trigger] funding[t]).account == account && funding[t].amount != 0
                ==> exists|idx: int|
                0 <= idx < prev.len() && (#[trigger] prev[idx]).0 == funding[t].asset,
    ensures
        forall|t: int|
            0 <= t < i + 1 && (#[trigger] funding[t]).account == account && funding[t].amount != 0
                ==> exists|idx: int|
                0 <= idx < cur.len() && (#[trigger] cur[idx]).0 == funding[t].asset,
{
    assert forall|t: int|
        0 <= t < i + 1 && (#[trigger] funding[t]).account == account && funding[t].amount
            != 0 implies exists|idx: int|
        0 <= idx < cur.len() && (#[trigger] cur[idx]).0 == funding[t].asset by {
        if t < i {
            let idx = choose|idx: int|
                0 <= idx < prev.len() && (#[trigger] prev[idx]).0 == funding[t].asset;
            assert(cur[idx] == prev[idx]);
        } else {
            assert(cur[cur.len() - 1].0 == funding[i].asset);
        }
    }
}

/// Same preservation fact for the fee-entry pass.
proof fn lemma_extension_keeps_fee_witnesses(
    prev: Seq<(AssetId, TokenAmount)>,
    cur: Seq<(AssetId, TokenAmount)>,
    fees: Seq<LedgerEntry>,
    account: AccountId,
    j: int,
)
    requires
        0 <= j < fees.len(),
        cur == prev.push((fees[j].asset, cur.last().1)),
        forall|t: int|
            0 <= t < j && (#[trigger] fees[t]).account == account && fees[t].amount != 0
                ==> exists|idx: int|
                0 <= idx < prev.len() && (#[trigger] prev[idx]).0 == fees[t].asset,
    ensures
        forall|t: int|
            0 <= t < j + 1 && (#[trigger] fees[t]).account == account && fees[t].amount != 0
                ==> exists|idx: int|
                0 <= idx < cur.len() && (#[trigger] cur[idx]).0 == fees[t].asset,
{
    assert forall|t: int|
        0 <= t < j + 1 && (#[trigger] fees[t]).account == account && fees[t].amount
            != 0 implies exists|idx: int|
        0 <= idx < cur.len() && (#[trigger] cur[idx]).0 == fees[t].asset by {
        if t < j {
            let idx = choose|idx: int|
                0 <= idx < prev.len() && (#[trigger] prev[idx]).0 == fees[t].asset;
            assert(cur[idx] == prev[idx]);
        } else {
            assert(cur[cur.len() - 1].0 == fees[j].asset);
        }
    }
}

/// Appending to the result list keeps every funding-entry witness valid.
proof fn lemma_extension_keeps_all_funding_witnesses(
    prev: Seq<(AssetId, TokenAmount)>,
    cur: Seq<(AssetId, TokenAmount)>,
    funding: Seq<LedgerEntry>,
    account: AccountId,
)
    requires
        prev.len() < cur.len(),
        forall|idx: int| 0 <= idx < prev.len() ==> (#[trigger] cur[idx]) == prev[idx],
        forall|t: int|
            0 <= t < funding.len() && (#[trigger] funding[t]).account == account
                && funding[t].amount != 0 ==> exists|idx: int|
                0 <= idx < prev.len() && (#[trigger] prev[idx]).0 == funding[t].asset,
    ensures
        forall|t: int|
            0 <= t < funding.len() && (#[trigger] funding[t]).account == account
                && funding[t].amount != 0 ==> exists|idx: int|
                0 <= idx < cur.len() && (#[trigger] cur[idx]).0 == funding[t].asset,
{
    assert forall|t: int|
        0 <= t < funding.len() && (#[trigger] funding[t]).account == account && funding[t].amount
            != 0 implies exists|idx: int|
        0 <= idx < cur.len() && (#[trigger] cur[idx]).0 == funding[t].asset by {
        let idx = choose|idx: int|
            0 <= idx < prev.len() && (#[trigger] prev[idx]).0 == funding[t].asset;
        assert(cur[idx] == prev[idx]);
    }
}


} // verus!
