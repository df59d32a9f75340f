use vibe_market::addr::{derive_global_address, derive_market_address, market_address_matches};
use vibe_market::key::{key_eq, Key};

fn pk(b: u8) -> Key {
    let mut bytes = [b; 32];
    bytes[0] = b.wrapping_add(1);
    Key { bytes }
}

#[test]
fn derived_market_address_is_reproducible() {
    let program_id = pk(9);
    let global = pk(4);
    let (addr, bump) = derive_market_address(&program_id, &global, 3).unwrap();
    // the derivation transformed its inputs
    assert_ne!(addr.bytes, global.bytes);
    assert_ne!(addr.bytes, program_id.bytes);
    // the stored bump reproduces exactly this address and no other
    assert!(market_address_matches(&program_id, &global, 3, bump, &addr));
    let other = pk(5);
    assert!(!market_address_matches(&program_id, &global, 3, bump, &other));
    // a different index gives a different address
    let (addr2, _) = derive_market_address(&program_id, &global, 4).unwrap();
    assert_ne!(addr.bytes, addr2.bytes);
}

#[test]
fn derivation_is_deterministic() {
    let program_id = pk(9);
    let a = derive_global_address(&program_id).unwrap();
    let b = derive_global_address(&program_id).unwrap();
    assert!(key_eq(&a.0, &b.0));
    assert_eq!(a.1, b.1);
}
