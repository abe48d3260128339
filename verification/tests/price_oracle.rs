use commitment_ledger::address::Address;
use commitment_ledger::price_oracle::{
    OracleConfig, OracleError, OracleEvent, OracleParts, PriceData, PriceEntry, PriceOracleContract, CURRENT_VERSION,
    DEFAULT_MAX_STALENESS,
};

fn addr(key: &str) -> Address {
    Address::new(key)
}

fn initialized() -> (PriceOracleContract, Address) {
    let mut feed = PriceOracleContract::new();
    assert_eq!(feed.initialize(addr("admin")), Ok(()));
    (feed, addr("admin"))
}

fn with_oracle() -> (PriceOracleContract, Address, Address, Address) {
    let (mut feed, admin) = initialized();
    feed.add_oracle(&admin, &addr("oracle")).unwrap();
    (feed, admin, addr("oracle"), addr("asset"))
}

/// Puts a feed back into the layout before version 1, with the given limit.
fn to_legacy_layout(feed: PriceOracleContract, legacy_max_staleness: u64) -> PriceOracleContract {
    let mut parts = feed.into_parts();
    parts.version = 0;
    parts.config = None;
    parts.legacy_max_staleness = Some(legacy_max_staleness);
    PriceOracleContract::from_parts(parts).unwrap()
}

#[test]
fn tests_test_initialize() {
    let mut feed = PriceOracleContract::new();
    let r = feed.initialize(addr("admin"));
    assert_eq!(r, Ok(()));

    assert_eq!(feed.get_admin(), Ok(addr("admin")));
    assert_eq!(feed.get_max_staleness(), 3600);
    assert_eq!(feed.get_version(), CURRENT_VERSION);
}

#[test]
fn tests_test_initialize_twice_fails() {
    let mut feed = PriceOracleContract::new();
    feed.initialize(addr("admin")).unwrap();
    let r = feed.initialize(addr("admin"));
    assert_eq!(r, Err(OracleError::AlreadyInitialized));
}

#[test]
fn test_add_remove_oracle_admin_only() {
    let (mut feed, admin) = initialized();
    let oracle = addr("oracle");

    feed.add_oracle(&admin, &oracle).unwrap();
    assert!(feed.is_oracle_whitelisted(&oracle));

    feed.remove_oracle(&admin, &oracle).unwrap();
    assert!(!feed.is_oracle_whitelisted(&oracle));

    assert_eq!(feed.add_oracle(&oracle, &oracle), Err(OracleError::Unauthorized));
    assert!(!feed.is_oracle_whitelisted(&oracle));
    feed.add_oracle(&admin, &oracle).unwrap();
    feed.add_oracle(&admin, &oracle).unwrap();
    assert_eq!(feed.remove_oracle(&oracle, &oracle), Err(OracleError::Unauthorized));
    assert!(feed.is_oracle_whitelisted(&oracle));
    feed.remove_oracle(&admin, &oracle).unwrap();
    assert!(!feed.is_oracle_whitelisted(&oracle));
    feed.remove_oracle(&admin, &oracle).unwrap();
}

#[test]
fn test_set_price_whitelisted() {
    let (mut feed, _admin, oracle, asset) = with_oracle();
    feed.set_price(&oracle, asset.clone(), 1000_00000000, 8, 0).unwrap();

    let data = feed.get_price(&asset);
    assert_eq!(data.price, 1000_00000000);
    assert_eq!(data.decimals, 8);
    assert_eq!(data.updated_at, 0);
    assert_eq!(
        feed.events(),
        &vec![OracleEvent::PriceSet { asset, price: 1000_00000000, updated_at: 0, decimals: 8 }]
    );
}

#[test]
fn test_set_price_unauthorized_fails() {
    let (mut feed, admin) = initialized();
    let asset = addr("asset");
    assert_eq!(feed.set_price(&addr("unauthorized"), asset.clone(), 1000, 8, 0), Err(OracleError::OracleNotWhitelisted));
    assert_eq!(feed.set_price(&admin, asset.clone(), 1000, 8, 0), Err(OracleError::OracleNotWhitelisted));
    assert_eq!(feed.get_price(&asset), PriceData { price: 0, updated_at: 0, decimals: 0 });
    assert_eq!(feed.events().len(), 0);
}

#[test]
fn test_get_price_valid_fresh() {
    let (mut feed, _admin, oracle, asset) = with_oracle();
    feed.set_price(&oracle, asset.clone(), 500_0000000, 8, 0).unwrap();
    let data = feed.get_price_valid(&asset, None, 0).unwrap();
    assert_eq!(data.price, 500_0000000);
}

#[test]
fn test_get_price_valid_not_found() {
    let (feed, _admin) = initialized();
    assert_eq!(feed.get_price_valid(&addr("asset"), None, 0), Err(OracleError::PriceNotFound));
}

#[test]
fn test_get_price_valid_stale() {
    let (mut feed, _admin, oracle, asset) = with_oracle();
    feed.set_price(&oracle, asset.clone(), 1000, 8, 0).unwrap();
    assert_eq!(feed.get_price_valid(&asset, None, 4000), Err(OracleError::StalePrice));
}

#[test]
fn test_get_price_valid_override_staleness() {
    let (mut feed, _admin, oracle, asset) = with_oracle();
    feed.set_price(&oracle, asset.clone(), 1000, 8, 0).unwrap();
    let data = feed.get_price_valid(&asset, Some(200), 100).unwrap();
    assert_eq!(data.price, 1000);
    assert_eq!(feed.get_price_valid(&asset, Some(99), 100), Err(OracleError::StalePrice));
    assert_eq!(feed.get_price_valid(&asset, Some(100), 100).unwrap().price, 1000);
}

#[test]
fn test_set_max_staleness() {
    let (mut feed, admin) = initialized();
    feed.set_max_staleness(&admin, 7200).unwrap();
    assert_eq!(feed.get_max_staleness(), 7200);
    assert_eq!(feed.set_max_staleness(&addr("x"), 1), Err(OracleError::Unauthorized));
    assert_eq!(feed.get_max_staleness(), 7200);
}

#[test]
fn test_fallback_get_price_returns_default_when_not_set() {
    let (feed, _admin) = initialized();
    let data = feed.get_price(&addr("asset"));
    assert_eq!(data.price, 0);
    assert_eq!(data.updated_at, 0);
    assert_eq!(data.decimals, 0);
}

#[test]
fn test_upgrade_and_migrate_preserves_state() {
    let (mut feed, admin, oracle, asset) = with_oracle();
    feed.set_price(&oracle, asset.clone(), 2_000, 6, 0).unwrap();

    let mut feed = to_legacy_layout(feed, 3000);
    assert_eq!(feed.get_version(), 0);
    assert_eq!(feed.get_max_staleness(), 3000);

    let wasm_hash = [7u8; 32];
    assert_eq!(feed.upgrade(&admin, &wasm_hash), Ok(()));

    assert_eq!(feed.migrate(&admin, 0), Ok(()));
    assert_eq!(feed.get_version(), CURRENT_VERSION);
    assert_eq!(feed.get_max_staleness(), 3000);

    let data = feed.get_price(&asset);
    assert_eq!(data.price, 2_000);
    assert_eq!(data.decimals, 6);
    assert!(feed.is_oracle_whitelisted(&oracle));
}

#[test]
fn test_upgrade_authorization_and_invalid_hash() {
    let (feed, admin) = initialized();
    let wasm_hash = [1u8; 32];
    assert_eq!(feed.upgrade(&addr("attacker"), &wasm_hash), Err(OracleError::Unauthorized));

    let zero = [0u8; 32];
    assert_eq!(feed.upgrade(&admin, &zero), Err(OracleError::InvalidWasmHash));
    let mut last = [0u8; 32];
    last[31] = 1;
    assert_eq!(feed.upgrade(&admin, &last), Ok(()));
    assert_eq!(feed.upgrade(&addr("attacker"), &zero), Err(OracleError::Unauthorized));
    assert_eq!(PriceOracleContract::new().upgrade(&admin, &wasm_hash), Err(OracleError::NotInitialized));
}

#[test]
fn test_migrate_version_checks_and_replay_safety() {
    let (feed, admin) = initialized();
    let mut feed = to_legacy_layout(feed, 7200);

    assert_eq!(feed.migrate(&addr("attacker"), 0), Err(OracleError::Unauthorized));
    assert_eq!(feed.migrate(&admin, CURRENT_VERSION + 1), Err(OracleError::InvalidVersion));
    assert_eq!(feed.migrate(&admin, 1), Err(OracleError::InvalidVersion));

    assert_eq!(feed.migrate(&admin, 0), Ok(()));
    assert_eq!(feed.migrate(&admin, 0), Err(OracleError::AlreadyMigrated));

    let parts = feed.into_parts();
    assert_eq!(parts.legacy_max_staleness, None);
    assert_eq!(parts.config, Some(OracleConfig { max_staleness_seconds: 7200 }));
    assert_eq!(parts.version, CURRENT_VERSION);
}

#[test]
fn oracle_staleness_boundary() {
    let (mut feed, _admin, oracle, asset) = with_oracle();
    feed.set_price(&oracle, asset.clone(), 1000, 8, 500).unwrap();
    let data = PriceData { price: 1000, updated_at: 500, decimals: 8 };
    assert_eq!(feed.get_price_valid(&asset, None, 500), Ok(data));
    assert_eq!(feed.get_price_valid(&asset, None, 500 + DEFAULT_MAX_STALENESS), Ok(data));
    assert_eq!(feed.get_price_valid(&asset, None, 501 + DEFAULT_MAX_STALENESS), Err(OracleError::StalePrice));
    // a price from the future is stale
    assert_eq!(feed.get_price_valid(&asset, None, 499), Err(OracleError::StalePrice));
    assert_eq!(feed.get_price_valid(&asset, Some(0), 500), Ok(data));
    assert_eq!(feed.get_price_valid(&asset, Some(0), 501), Err(OracleError::StalePrice));
}

#[test]
fn oracle_rejects_negative_prices() {
    let (mut feed, _admin, oracle, asset) = with_oracle();
    assert_eq!(feed.set_price(&oracle, asset.clone(), -1, 8, 0), Err(OracleError::InvalidPrice));
    assert_eq!(feed.set_price(&oracle, asset.clone(), 0, 8, 0), Ok(()));
    assert_eq!(feed.get_price_valid(&asset, None, 0), Ok(PriceData { price: 0, updated_at: 0, decimals: 8 }));
    // a stored negative price is never handed out as valid
    let mut parts = feed.into_parts();
    parts.prices = vec![PriceEntry { asset: asset.clone(), data: PriceData { price: -5, updated_at: 0, decimals: 8 } }];
    let feed = PriceOracleContract::from_parts(parts).unwrap();
    assert_eq!(feed.get_price_valid(&asset, None, 0), Err(OracleError::InvalidPrice));
    assert_eq!(feed.get_price(&asset).price, -5);
}

#[test]
fn oracle_later_price_replaces_earlier() {
    let (mut feed, _admin, oracle, asset) = with_oracle();
    feed.set_price(&oracle, asset.clone(), 1, 2, 10).unwrap();
    feed.set_price(&oracle, addr("other"), 5, 6, 11).unwrap();
    feed.set_price(&oracle, asset.clone(), 3, 4, 12).unwrap();
    assert_eq!(feed.get_price(&asset), PriceData { price: 3, updated_at: 12, decimals: 4 });
    assert_eq!(feed.get_price(&addr("other")), PriceData { price: 5, updated_at: 11, decimals: 6 });
    assert_eq!(feed.into_parts().prices.len(), 2);
}

#[test]
fn oracle_uninitialized_refuses_admin_calls() {
    let mut parts = PriceOracleContract::new().into_parts();
    parts.legacy_max_staleness = Some(50);
    let mut feed = PriceOracleContract::from_parts(parts).unwrap();
    assert_eq!(feed.get_admin(), Err(OracleError::NotInitialized));
    assert_eq!(feed.get_version(), 0);
    assert_eq!(feed.get_max_staleness(), 50);
    assert_eq!(PriceOracleContract::new().get_max_staleness(), 3600);
    assert_eq!(feed.add_oracle(&addr("a"), &addr("o")), Err(OracleError::NotInitialized));
    assert_eq!(feed.remove_oracle(&addr("a"), &addr("o")), Err(OracleError::NotInitialized));
    assert_eq!(feed.set_max_staleness(&addr("a"), 5), Err(OracleError::NotInitialized));
    assert_eq!(feed.set_admin(&addr("a"), addr("b")), Err(OracleError::NotInitialized));
    assert_eq!(feed.migrate(&addr("a"), 0), Err(OracleError::NotInitialized));
}

#[test]
fn oracle_set_admin_hands_over() {
    let (mut feed, admin) = initialized();
    assert_eq!(feed.set_admin(&addr("x"), addr("x")), Err(OracleError::Unauthorized));
    assert_eq!(feed.set_admin(&admin, addr("next")), Ok(()));
    assert_eq!(feed.get_admin(), Ok(addr("next")));
    assert_eq!(feed.set_admin(&admin, addr("again")), Err(OracleError::Unauthorized));
    assert_eq!(feed.add_oracle(&addr("next"), &addr("o")), Ok(()));
}

#[test]
fn oracle_legacy_limit_is_kept_in_step() {
    let (feed, admin) = initialized();
    let mut feed = to_legacy_layout(feed, 100);
    feed.set_max_staleness(&admin, 200).unwrap();
    let parts = feed.into_parts();
    assert_eq!(parts.config, Some(OracleConfig { max_staleness_seconds: 200 }));
    assert_eq!(parts.legacy_max_staleness, Some(200));
    let (mut feed, admin) = initialized();
    feed.set_max_staleness(&admin, 200).unwrap();
    assert_eq!(feed.into_parts().legacy_max_staleness, None);
}

#[test]
fn oracle_restore_refuses_duplicates() {
    let parts = |whitelist: Vec<Address>, prices: Vec<PriceEntry>| OracleParts {
        admin: None,
        whitelist,
        prices,
        config: None,
        legacy_max_staleness: None,
        version: 0,
        events: Vec::new(),
    };
    let entry = |asset: &str| PriceEntry { asset: addr(asset), data: PriceData { price: 1, updated_at: 1, decimals: 1 } };
    assert!(PriceOracleContract::from_parts(parts(vec![addr("a"), addr("b")], vec![entry("x"), entry("y")])).is_some());
    assert!(PriceOracleContract::from_parts(parts(vec![addr("a"), addr("a")], vec![])).is_none());
    assert!(PriceOracleContract::from_parts(parts(vec![], vec![entry("x"), entry("y"), entry("x")])).is_none());
}
