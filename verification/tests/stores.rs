use perp_core::state::claimables::Claimables;
use perp_core::state::order_store::OrderStore;
use perp_core::state::pool_balances::PoolBalances;
use perp_core::state::position_store::{Position, PositionKey, PositionStore};
use perp_core::types::{
    AccountId, AssetId, DomainError, MarketId, Order, OrderId, OrderType, Side,
};

fn mk_key(account_byte: u8, side: Side) -> PositionKey {
    PositionKey {
        account: AccountId([account_byte; 32]),
        market_id: MarketId(1),
        collateral_token: AssetId(2),
        side,
    }
}

fn mk_pos(key: PositionKey, size_usd: i128) -> Position {
    Position {
        key,
        size_usd,
        size_tokens: 1,
        collateral_amount: 1,
        pending_impact_tokens: 0,
        funding_index: 0,
        borrowing_index: 0,
        opened_at: 0,
        last_updated_at: 0,
    }
}

fn mk_order() -> Order {
    Order {
        account: AccountId([9u8; 32]),
        market_id: MarketId(1),
        collateral_token: AssetId(2),
        side: Side::Long,
        order_type: OrderType::Increase,
        collateral_delta_tokens: 0,
        size_delta_usd: 100,
        withdraw_collateral_amount: 0,
        target_leverage_x: 0,
        created_at: 0,
        valid_from: 0,
        valid_until: 0,
    }
}

#[test]
fn position_store_upsert_get_remove_roundtrip() {
    let mut store = PositionStore::new();
    let k_long = mk_key(1, Side::Long);
    let k_short = mk_key(1, Side::Short);
    assert!(store.get(&k_long).is_none());

    store.upsert(mk_pos(k_long, 100));
    store.upsert(mk_pos(k_short, 200));
    assert_eq!(store.get(&k_long).unwrap().size_usd, 100);
    assert_eq!(store.get(&k_short).unwrap().size_usd, 200);

    // Overwrite under the same key.
    store.upsert(mk_pos(k_long, 150));
    assert_eq!(store.get(&k_long).unwrap().size_usd, 150);
    assert_eq!(store.iter().len(), 2);

    let removed = store.remove(&k_long).unwrap();
    assert_eq!(removed.size_usd, 150);
    assert!(store.get(&k_long).is_none());
    assert!(store.remove(&k_long).is_none());
    assert_eq!(store.get(&k_short).unwrap().size_usd, 200);
}

#[test]
fn position_store_get_mut_updates_in_place() {
    let mut store = PositionStore::new();
    let k = mk_key(1, Side::Long);
    store.upsert(mk_pos(k, 100));
    {
        let p = store.get_mut(&k).unwrap();
        p.size_usd = 777;
    }
    assert_eq!(store.get(&k).unwrap().size_usd, 777);
    assert!(store.get_mut(&mk_key(2, Side::Long)).is_none());
}

#[test]
fn position_store_get_or_insert_with_creates_once() {
    let mut store = PositionStore::new();
    let k = mk_key(4, Side::Long);
    {
        let p = store.get_or_insert_with(k, |key| mk_pos(key, 42));
        assert_eq!(p.size_usd, 42);
    }
    {
        let p = store.get_or_insert_with(k, |key| mk_pos(key, 99));
        assert_eq!(p.size_usd, 42, "existing entry must be returned, not rebuilt");
    }
}

#[test]
fn order_store_allocates_monotonic_ids() {
    let mut store = OrderStore::new();
    assert!(store.is_empty());
    let id0 = store.create(mk_order());
    let id1 = store.create(mk_order());
    assert_eq!(id0, OrderId(0));
    assert_eq!(id1, OrderId(1));
    assert_eq!(store.len(), 2);
    assert!(!store.is_empty());
    assert!(store.contains(id0));

    let mut order2 = mk_order();
    order2.size_delta_usd = 555;
    {
        let o = store.get_mut(id1).unwrap();
        o.size_delta_usd = 555;
    }
    assert_eq!(store.get(id1).unwrap().size_delta_usd, 555);

    let removed = store.remove(id0).unwrap();
    assert_eq!(removed.size_delta_usd, 100);
    assert!(!store.contains(id0));
    assert_eq!(store.len(), 1);
    // Ids are never reused after a removal.
    let id2 = store.create(mk_order());
    assert_eq!(id2, OrderId(2));
    assert_eq!(store.iter().len(), 2);
}

#[test]
fn pool_balances_add_and_remove_liquidity() {
    let mut pools = PoolBalances::new();
    pools.add_liquidity(MarketId(1), AssetId(10), 1_000);
    pools.add_fee_to_pool(MarketId(1), AssetId(10), 50);
    assert_eq!(pools.get_balance(MarketId(1), AssetId(10)), 1_050);

    let taken = pools.remove_liquidity(MarketId(1), AssetId(10), 1_000).unwrap();
    assert_eq!(taken, 1_000);
    assert_eq!(pools.get_balance(MarketId(1), AssetId(10)), 50);

    assert_eq!(
        pools.remove_liquidity(MarketId(1), AssetId(10), 51),
        Err(DomainError::InsufficientPoolLiquidity)
    );
    assert_eq!(pools.get_balance(MarketId(1), AssetId(10)), 50);
    assert_eq!(pools.remove_liquidity(MarketId(1), AssetId(10), 0).unwrap(), 0);
}

#[test]
fn pool_balances_pair_operations() {
    let mut pools = PoolBalances::new();
    pools.add_liquidity_pair(MarketId(1), AssetId(10), 300, AssetId(11), 400);
    assert_eq!(pools.get_pair_balances(MarketId(1), AssetId(10), AssetId(11)), (300, 400));

    let (l, s) = pools
        .remove_liquidity_pair(MarketId(1), AssetId(10), 100, AssetId(11), 200)
        .unwrap();
    assert_eq!((l, s), (100, 200));
    assert_eq!(pools.get_pair_balances(MarketId(1), AssetId(10), AssetId(11)), (200, 200));

    // A failing short side leaves the long withdrawal applied.
    let r = pools.remove_liquidity_pair(MarketId(1), AssetId(10), 100, AssetId(11), 900);
    assert_eq!(r, Err(DomainError::InsufficientPoolLiquidity));
    assert_eq!(pools.get_pair_balances(MarketId(1), AssetId(10), AssetId(11)), (100, 200));
}

#[test]
fn claimables_accumulate_and_claim() {
    let mut claim = Claimables::new();
    let acct = AccountId([6u8; 32]);
    let asset = AssetId(3);
    claim.add_funding(acct, asset, 70);
    claim.add_funding(acct, asset, 30);
    claim.add_fee(acct, asset, 5);
    claim.add_funding(acct, asset, 0);
    assert_eq!(claim.get_funding(acct, asset), 100);
    assert_eq!(claim.get_fee(acct, asset), 5);
    assert_eq!(claim.balance_of(acct, asset), 105);

    assert_eq!(claim.claim_all(acct, asset).unwrap(), 105);
    assert_eq!(claim.balance_of(acct, asset), 0);
    assert_eq!(claim.claim_all(acct, asset), Err(DomainError::NothingToClaim));
}

#[test]
fn claimables_take_primitives_reset_one_ledger() {
    let mut claim = Claimables::new();
    let acct = AccountId([6u8; 32]);
    let other = AccountId([7u8; 32]);
    let asset = AssetId(3);
    claim.add_funding(acct, asset, 40);
    claim.add_fee(acct, asset, 2);
    claim.add_funding(other, asset, 9);

    assert_eq!(claim.take_funding_all(acct, asset), 40);
    assert_eq!(claim.get_funding(acct, asset), 0);
    assert_eq!(claim.get_fee(acct, asset), 2);
    assert_eq!(claim.take_fee_all(acct, asset), 2);
    assert_eq!(claim.get_funding(other, asset), 9, "other accounts are untouched");
}

#[test]
fn list_by_account_aggregates_nonzero_assets() {
    let mut claim = Claimables::new();
    let acct = AccountId([8u8; 32]);
    let other = AccountId([9u8; 32]);
    claim.add_funding(acct, AssetId(1), 10);
    claim.add_fee(acct, AssetId(1), 4);
    claim.add_fee(acct, AssetId(2), 7);
    claim.add_funding(other, AssetId(3), 99);

    let mut listed = claim.list_by_account(acct);
    listed.sort_by_key(|e| e.0 .0);
    assert_eq!(listed, vec![(AssetId(1), 14), (AssetId(2), 7)]);
    assert!(claim.list_by_account(AccountId([0u8; 32])).is_empty());
}
