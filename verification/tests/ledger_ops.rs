use vibe_market::error::ErrorCode;
use vibe_market::key::Key;
use vibe_market::ledger::Ledger;
use vibe_market::records::{Market, PriceModel, SalePrice};

fn k(b: u8) -> Key {
    let mut bytes = [0u8; 32];
    bytes[0] = b;
    bytes[31] = 7;
    Key { bytes }
}

#[test]
fn market_with_seventeen_admins_is_rejected() {
    let mut led = Ledger::new();
    led.init_global_state(k(10), 255).unwrap();
    let mut wl: Vec<Key> = Vec::new();
    for i in 0..17u8 {
        wl.push(k(100 + i));
    }
    let r = led.init_market(k(11), 254, wl, String::from("M"));
    assert_eq!(r, Err(ErrorCode::AdminOutOfBounds));
    assert!(!led.markets.contains_key(&k(11)));
    match &led.global {
        Some(p) => assert_eq!(p.1.num_markets, 0),
        None => panic!("registry missing"),
    }
}

#[test]
fn market_counter_overflow_is_rejected() {
    let mut led = Ledger::new();
    led.init_global_state(k(10), 255).unwrap();
    match &mut led.global {
        Some(p) => p.1.num_markets = u32::MAX,
        None => panic!("registry missing"),
    }
    let r = led.init_market(k(11), 254, vec![k(1)], String::from("M"));
    assert_eq!(r, Err(ErrorCode::Overflow));
    assert!(!led.markets.contains_key(&k(11)));
}

#[test]
fn admin_cannot_remove_itself() {
    let mut led = Ledger::new();
    led.init_global_state(k(10), 255).unwrap();
    led.init_market(k(11), 254, vec![k(1), k(2)], String::from("M")).unwrap();
    let r = led.remove_admin(&k(11), &k(1), &k(1));
    assert_eq!(r, Err(ErrorCode::CannotRemoveSelf));
    let m = led.markets.get(&k(11)).unwrap();
    assert_eq!(m.whitelist.len(), 2);
    assert_eq!(m.whitelist[0].bytes, k(1).bytes);
    assert_eq!(m.whitelist[1].bytes, k(2).bytes);
}

#[test]
fn whitelist_never_grows_past_sixteen() {
    let mut led = Ledger::new();
    led.init_global_state(k(10), 255).unwrap();
    led.init_market(k(11), 254, vec![k(1)], String::from("M")).unwrap();
    for i in 1..16u8 {
        led.add_admin(&k(11), &k(1), k(1 + i)).unwrap();
    }
    assert_eq!(led.markets.get(&k(11)).unwrap().whitelist.len(), 16);
    let r = led.add_admin(&k(11), &k(1), k(99));
    assert_eq!(r, Err(ErrorCode::AdminOutOfBounds));
    assert_eq!(led.markets.get(&k(11)).unwrap().whitelist.len(), 16);
}

#[test]
fn only_admins_mutate_and_targets_must_exist() {
    let mut led = Ledger::new();
    led.init_global_state(k(10), 255).unwrap();
    led.init_market(k(11), 254, vec![k(1)], String::from("M")).unwrap();
    assert_eq!(led.add_admin(&k(11), &k(9), k(2)), Err(ErrorCode::Unauthorized));
    assert_eq!(led.remove_admin(&k(11), &k(9), &k(1)), Err(ErrorCode::Unauthorized));
    assert_eq!(led.remove_admin(&k(11), &k(1), &k(5)), Err(ErrorCode::AdminNotFound));
    // a removal keeps the survivors in order
    led.add_admin(&k(11), &k(1), k(2)).unwrap();
    led.add_admin(&k(11), &k(1), k(3)).unwrap();
    led.remove_admin(&k(11), &k(1), &k(2)).unwrap();
    let m = led.markets.get(&k(11)).unwrap();
    assert_eq!(m.whitelist.len(), 2);
    assert_eq!(m.whitelist[0].bytes, k(1).bytes);
    assert_eq!(m.whitelist[1].bytes, k(3).bytes);
}

#[test]
fn is_valid_admin_gates_by_whitelist() {
    let mut led = Ledger::new();
    led.init_global_state(k(10), 255).unwrap();
    led.init_market(k(11), 254, vec![k(1)], String::from("M")).unwrap();
    let m = led.markets.get(&k(11)).unwrap();
    assert_eq!(Market::is_valid_admin(m, &k(1)), Ok(()));
    assert_eq!(Market::is_valid_admin(m, &k(2)), Err(ErrorCode::Unauthorized));
}

#[test]
fn find_price_returns_first_match() {
    let pm = PriceModel {
        nonce: 0,
        index: 0,
        market: k(11),
        sale_prices: vec![
            SalePrice { mint: k(20), amount: 100 },
            SalePrice { mint: k(21), amount: 250 },
            SalePrice { mint: k(20), amount: 999 },
        ],
    };
    assert_eq!(pm.find_price(&k(20)), Some(100));
    assert_eq!(pm.find_price(&k(21)), Some(250));
    assert_eq!(pm.find_price(&k(22)), None);
}

#[test]
fn close_of_nonempty_collection_is_rejected() {
    let mut led = Ledger::new();
    led.init_global_state(k(10), 255).unwrap();
    led.init_market(k(11), 254, vec![k(1)], String::from("M")).unwrap();
    led.init_collection(&k(11), &k(1), k(12), k(13), k(14), 1, 2, 3, String::from("C")).unwrap();
    led.init_price_model(&k(11), &k(1), k(15), 4, vec![SalePrice { mint: k(20), amount: 100 }])
        .unwrap();
    led.tokens.open_account(k(30), k(31), k(1));
    led.tokens.deposit(&k(30), 1);
    led.add_nft(&k(11), &k(1), &k(12), &k(15), k(16), &k(30), k(17)).unwrap();
    let r = led.close_collection(&k(11), &k(1), &k(12));
    assert_eq!(r, Err(ErrorCode::CollectionNonEmpty));
    assert!(led.collections.contains_key(&k(12)));
    assert!(led.buckets.contains_key(&k(16)));
}

#[test]
fn purchase_with_unknown_currency_changes_nothing() {
    let mut led = Ledger::new();
    led.init_global_state(k(10), 255).unwrap();
    led.init_market(k(11), 254, vec![k(1)], String::from("M")).unwrap();
    led.init_collection(&k(11), &k(1), k(12), k(13), k(14), 1, 2, 3, String::from("C")).unwrap();
    led.init_price_model(&k(11), &k(1), k(15), 4, vec![SalePrice { mint: k(20), amount: 100 }])
        .unwrap();
    led.tokens.open_account(k(30), k(31), k(1));
    led.tokens.deposit(&k(30), 1);
    led.add_nft(&k(11), &k(1), &k(12), &k(15), k(16), &k(30), k(17)).unwrap();
    // the buyer pays in a currency the price model does not accept
    led.tokens.open_account(k(32), k(22), k(3));
    led.tokens.deposit(&k(32), 1000);
    let r = led.purchase_nft(&k(3), &k(16), &k(12), &k(17), &k(32), k(33), k(34));
    assert_eq!(r, Err(ErrorCode::InvalidPurchaseMint));
    assert!(led.buckets.contains_key(&k(16)));
    assert_eq!(led.buckets.get(&k(13)).unwrap().next_list_item.bytes, k(16).bytes);
    assert_eq!(led.tokens.account(&k(17)).unwrap().amount, 1);
    assert_eq!(led.tokens.account(&k(32)).unwrap().amount, 1000);
    assert!(led.tokens.account(&k(33)).is_none());
}

#[test]
fn withdraw_returns_asset_and_unlinks_node() {
    let mut led = Ledger::new();
    led.init_global_state(k(10), 255).unwrap();
    led.init_market(k(11), 254, vec![k(1)], String::from("M")).unwrap();
    led.init_collection(&k(11), &k(1), k(12), k(13), k(14), 1, 2, 3, String::from("C")).unwrap();
    led.init_price_model(&k(11), &k(1), k(15), 4, vec![SalePrice { mint: k(20), amount: 100 }])
        .unwrap();
    led.tokens.open_account(k(30), k(31), k(1));
    led.tokens.deposit(&k(30), 1);
    led.add_nft(&k(11), &k(1), &k(12), &k(15), k(16), &k(30), k(17)).unwrap();
    assert_eq!(led.tokens.account(&k(30)).unwrap().amount, 0);
    led.withdraw_nft(&k(1), &k(16), &k(12), &k(17), k(30)).unwrap();
    assert!(!led.buckets.contains_key(&k(16)));
    assert!(led.tokens.account(&k(17)).is_none());
    assert_eq!(led.tokens.account(&k(30)).unwrap().amount, 1);
    assert_eq!(led.buckets.get(&k(13)).unwrap().next_list_item.bytes, k(14).bytes);
    assert_eq!(led.buckets.get(&k(14)).unwrap().prev_list_item.bytes, k(13).bytes);
}

#[test]
fn full_consignment_round_trip() {
    let a = k(1);
    let b = k(2);
    let buyer = k(3);
    let usd = k(20);
    let nft = k(31);
    let mut led = Ledger::new();
    led.init_global_state(k(10), 255).unwrap();
    // market M with whitelist {A}
    led.init_market(k(11), 254, vec![a], String::from("M")).unwrap();
    // A creates collection C with sentinels H and T
    led.init_collection(&k(11), &a, k(12), k(13), k(14), 1, 2, 3, String::from("C")).unwrap();
    let h = led.buckets.get(&k(13)).unwrap();
    assert_eq!(h.next_list_item.bytes, k(14).bytes);
    let t = led.buckets.get(&k(14)).unwrap();
    assert_eq!(t.prev_list_item.bytes, k(13).bytes);
    // A adds admin B
    led.add_admin(&k(11), &a, b).unwrap();
    assert_eq!(led.markets.get(&k(11)).unwrap().whitelist.len(), 2);
    // B lists asset X under price model {USD: 100}
    led.init_price_model(&k(11), &a, k(15), 4, vec![SalePrice { mint: usd, amount: 100 }])
        .unwrap();
    led.tokens.open_account(k(30), nft, b);
    led.tokens.deposit(&k(30), 1);
    led.add_nft(&k(11), &b, &k(12), &k(15), k(16), &k(30), k(17)).unwrap();
    assert_eq!(led.buckets.get(&k(13)).unwrap().next_list_item.bytes, k(16).bytes);
    let n = led.buckets.get(&k(16)).unwrap();
    assert_eq!(n.prev_list_item.bytes, k(13).bytes);
    assert_eq!(n.next_list_item.bytes, k(14).bytes);
    assert_eq!(led.buckets.get(&k(14)).unwrap().prev_list_item.bytes, k(16).bytes);
    // the buyer pays 100 USD for X
    led.tokens.open_account(k(32), usd, buyer);
    led.tokens.deposit(&k(32), 100);
    led.purchase_nft(&buyer, &k(16), &k(12), &k(17), &k(32), k(33), k(34)).unwrap();
    assert_eq!(led.buckets.get(&k(13)).unwrap().next_list_item.bytes, k(14).bytes);
    assert_eq!(led.buckets.get(&k(14)).unwrap().prev_list_item.bytes, k(13).bytes);
    assert_eq!(led.tokens.account(&k(34)).unwrap().amount, 1);
    assert_eq!(led.tokens.account(&k(33)).unwrap().amount, 100);
    assert_eq!(led.tokens.account(&k(32)).unwrap().amount, 0);
    // A withdraws the 100 USD of liquidity
    led.withdraw_liquidity(&k(11), &a, &k(33), k(35), 100).unwrap();
    assert_eq!(led.tokens.account(&k(33)).unwrap().amount, 0);
    assert_eq!(led.tokens.account(&k(35)).unwrap().amount, 100);
    // A closes C, which is empty again
    led.close_collection(&k(11), &a, &k(12)).unwrap();
    assert!(!led.collections.contains_key(&k(12)));
    assert!(!led.buckets.contains_key(&k(13)));
    assert!(!led.buckets.contains_key(&k(14)));
}

#[test]
fn defaults_match_record_layouts() {
    let m = Market::default();
    assert_eq!(m.whitelist.len(), 16);
    assert!(m.whitelist.iter().all(|w| w.bytes == [0u8; 32]));
    assert_eq!(m.num_collections, 0);
    let pm = PriceModel::default();
    assert_eq!(pm.sale_prices.len(), 8);
    assert!(pm.sale_prices.iter().all(|p| p.amount == 0));
}

#[test]
fn withdraw_with_mismatched_escrow_changes_nothing() {
    let mut led = Ledger::new();
    led.init_global_state(k(10), 255).unwrap();
    led.init_market(k(11), 254, vec![k(1)], String::from("M")).unwrap();
    led.init_collection(&k(11), &k(1), k(12), k(13), k(14), 1, 2, 3, String::from("C")).unwrap();
    led.init_price_model(&k(11), &k(1), k(15), 4, vec![SalePrice { mint: k(20), amount: 100 }])
        .unwrap();
    led.tokens.open_account(k(30), k(31), k(1));
    led.tokens.deposit(&k(30), 1);
    led.add_nft(&k(11), &k(1), &k(12), &k(15), k(16), &k(30), k(17)).unwrap();
    // present an account of the wrong currency as the escrow
    led.tokens.open_account(k(40), k(22), k(12));
    led.tokens.deposit(&k(40), 1);
    let r = led.withdraw_nft(&k(1), &k(16), &k(12), &k(40), k(30));
    assert_eq!(r, Err(ErrorCode::InvalidEscrow));
    assert!(led.buckets.contains_key(&k(16)));
    assert_eq!(led.buckets.get(&k(13)).unwrap().next_list_item.bytes, k(16).bytes);
    assert_eq!(led.tokens.account(&k(17)).unwrap().amount, 1);
    assert_eq!(led.tokens.account(&k(40)).unwrap().amount, 1);
    // an escrow that holds more than the one unit is rejected too
    led.tokens.deposit(&k(17), 1);
    let r2 = led.withdraw_nft(&k(1), &k(16), &k(12), &k(17), k(30));
    assert_eq!(r2, Err(ErrorCode::InvalidEscrow));
    assert!(led.buckets.contains_key(&k(16)));
}

#[test]
fn purchase_with_insufficient_balance_changes_nothing() {
    let mut led = Ledger::new();
    led.init_global_state(k(10), 255).unwrap();
    led.init_market(k(11), 254, vec![k(1)], String::from("M")).unwrap();
    led.init_collection(&k(11), &k(1), k(12), k(13), k(14), 1, 2, 3, String::from("C")).unwrap();
    led.init_price_model(&k(11), &k(1), k(15), 4, vec![SalePrice { mint: k(20), amount: 100 }])
        .unwrap();
    led.tokens.open_account(k(30), k(31), k(1));
    led.tokens.deposit(&k(30), 1);
    led.add_nft(&k(11), &k(1), &k(12), &k(15), k(16), &k(30), k(17)).unwrap();
    // the buyer holds the right currency but only half the price
    led.tokens.open_account(k(32), k(20), k(3));
    led.tokens.deposit(&k(32), 50);
    let r = led.purchase_nft(&k(3), &k(16), &k(12), &k(17), &k(32), k(33), k(34));
    assert_eq!(r, Err(ErrorCode::InsufficientFunds));
    assert!(led.buckets.contains_key(&k(16)));
    assert_eq!(led.buckets.get(&k(13)).unwrap().next_list_item.bytes, k(16).bytes);
    assert_eq!(led.tokens.account(&k(17)).unwrap().amount, 1);
    assert_eq!(led.tokens.account(&k(32)).unwrap().amount, 50);
    assert!(led.tokens.account(&k(33)).is_none());
    assert!(led.tokens.account(&k(34)).is_none());
}
