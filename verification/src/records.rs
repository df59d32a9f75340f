use vstd::prelude::*;

use crate::error::ErrorCode;
use crate::key::{key_eq, key_vec_contains, null_key, Key};

verus! {

/// The maximum number of admins a market whitelist may hold.
pub const ADMIN_WHITELIST_MAX_LEN: usize = 16;

/// The maximum number of (currency, amount) pairs a price model may hold.
pub const SALE_PRICES_MAX_LEN: usize = 8;

/// Top-level registry record. It allocates market indices.
#[derive(Clone, Copy)]
pub struct GlobalState {
    pub nonce: u8,
    pub num_markets: u32,
}

impl Default for GlobalState {
    fn default() -> (r: GlobalState)
        ensures
            r.nonce == 0,
            r.num_markets == 0,
    {
        GlobalState { nonce: 0, num_markets: 0 }
    }
}

/// A market: the top-level tenant owning collections, price models and an
/// admin whitelist.
pub struct Market {
    pub nonce: u8,
    pub index: u32,
    pub whitelist: Vec<Key>,
    pub num_collections: u32,
    pub num_price_models: u32,
    pub title: String,
}

impl Market {
    /// Whether `admin` is on this market's whitelist.
    pub open spec fn spec_is_admin(&self, admin: Seq<u8>) -> bool {
        self.whitelist.deep_view().contains(admin)
    }

    /// The authorization gate for every mutating market operation.
    pub fn is_valid_admin(market: &Market, admin: &Key) -> (r: Result<(), ErrorCode>)
        ensures
            r == (if market.spec_is_admin(admin@) {
                Ok::<(), ErrorCode>(())
            } else {
                Err::<(), ErrorCode>(ErrorCode::Unauthorized)
            }),
    {
        if key_vec_contains(&market.whitelist, admin) {
            Ok(())
        } else {
            Err(ErrorCode::Unauthorized)
        }
    }
}

impl Default for Market {
    fn default() -> (r: Market)
        ensures
            r.nonce == 0,
            r.index == 0,
            r.whitelist.deep_view() =~= Seq::new(ADMIN_WHITELIST_MAX_LEN as nat, |i: int| null_key()),
            r.num_collections == 0,
            r.num_price_models == 0,
            r.title@ == Seq::<char>::empty(),
    {
        let mut whitelist: Vec<Key> = Vec::new();
        let mut i: usize = 0;
        while i < ADMIN_WHITELIST_MAX_LEN
            invariant
                0 <= i <= ADMIN_WHITELIST_MAX_LEN,
                whitelist.len() == i,
                forall|j: int| 0 <= j < i ==> (#[trigger] whitelist@[j])@ == null_key(),
            decreases ADMIN_WHITELIST_MAX_LEN - i,
        {
            whitelist.push(Key::null());
            i += 1;
        }
        proof {
            assert(whitelist.deep_view() =~= Seq::new(
                ADMIN_WHITELIST_MAX_LEN as nat,
                |j: int| null_key(),
            ));
        }
        Market {
            nonce: 0,
            index: 0,
            whitelist,
            num_collections: 0,
            num_price_models: 0,
            title: String::new(),
        }
    }
}

/// A collection: a named consignment list, bounded by two sentinel nodes.
/// `market` holds the address of the owning market.
pub struct Collection {
    pub nonce: u8,
    pub index: u32,
    pub market: Key,
    pub list_head: Key,
    pub list_tail: Key,
    pub title: String,
}

impl Default for Collection {
    fn default() -> (r: Collection)
        ensures
            r.nonce == 0,
            r.index == 0,
            r.market@ == null_key(),
            r.list_head@ == null_key(),
            r.list_tail@ == null_key(),
            r.title@ == Seq::<char>::empty(),
    {
        Collection {
            nonce: 0,
            index: 0,
            market: Key::null(),
            list_head: Key::null(),
            list_tail: Key::null(),
            title: String::new(),
        }
    }
}

/// A listing node: one chain element. Sentinel nodes never hold an asset
/// reference; every other node references the consigned asset, the price
/// model it sells under, its chain neighbours and the account that paid
/// its storage rent.
#[derive(Clone, Copy)]
pub struct NftBucket {
    pub nonce: u8,
    pub nft_mint: Key,
    pub price_model: Key,
    pub prev_list_item: Key,
    pub next_list_item: Key,
    pub payer: Key,
}

impl Default for NftBucket {
    fn default() -> (r: NftBucket)
        ensures
            r.nonce == 0,
            r.nft_mint@ == null_key(),
            r.price_model@ == null_key(),
            r.prev_list_item@ == null_key(),
            r.next_list_item@ == null_key(),
            r.payer@ == null_key(),
    {
        NftBucket {
            nonce: 0,
            nft_mint: Key::null(),
            price_model: Key::null(),
            prev_list_item: Key::null(),
            next_list_item: Key::null(),
            payer: Key::null(),
        }
    }
}

/// One accepted currency and the amount the buyer must pay in it.
#[derive(Clone, Copy)]
pub struct SalePrice {
    pub mint: Key,
    pub amount: u64,
}

/// A price model: a fixed table mapping accepted currency to required
/// payment amount, owned by `market`.
pub struct PriceModel {
    pub nonce: u8,
    pub index: u32,
    pub market: Key,
    pub sale_prices: Vec<SalePrice>,
}

/// First-match lookup of `mint` in a price table. Duplicate entries are
/// shadowed by the first.
pub open spec fn spec_find_price(prices: Seq<SalePrice>, mint: Seq<u8>) -> Option<u64>
    decreases prices.len(),
{
    if prices.len() == 0 {
        None
    } else if prices[0].mint@ == mint {
        Some(prices[0].amount)
    } else {
        spec_find_price(prices.drop_first(), mint)
    }
}

impl PriceModel {
    /// Linear scan for the amount this model charges in the given currency;
    /// the first matching entry wins.
    pub fn find_price(&self, mint: &Key) -> (r: Option<u64>)
        ensures
            r == spec_find_price(self.sale_prices@, mint@),
    {
        find_price_in(&self.sale_prices, mint)
    }
}

/// Linear first-match scan of a price table.
pub fn find_price_in(prices: &Vec<SalePrice>, mint: &Key) -> (r: Option<u64>)
    ensures
        r == spec_find_price(prices@, mint@),
{
    let mut i: usize = 0;
    proof {
        assert(prices@.skip(0) =~= prices@);
    }
    while i < prices.len()
        invariant
            0 <= i <= prices.len(),
            spec_find_price(prices@, mint@) == spec_find_price(prices@.skip(i as int), mint@),
        decreases prices.len() - i,
    {
        if key_eq(&prices[i].mint, mint) {
            proof {
                assert(prices@.skip(i as int)[0] == prices@[i as int]);
            }
            return Some(prices[i].amount);
        }
        proof {
            assert(prices@.skip(i as int).drop_first() =~= prices@.skip(i + 1));
            assert(prices@.skip(i as int)[0] == prices@[i as int]);
        }
        i += 1;
    }
    proof {
        assert(prices@.skip(i as int).len() == 0);
    }
    None
}

impl Default for PriceModel {
    fn default() -> (r: PriceModel)
        ensures
            r.nonce == 0,
            r.index == 0,
            r.market@ == null_key(),
            r.sale_prices@.len() == SALE_PRICES_MAX_LEN,
            forall|i: int| 0 <= i < SALE_PRICES_MAX_LEN ==> (#[trigger] r.sale_prices@[i].mint@)
                == null_key() && r.sale_prices@[i].amount == 0,
    {
        let mut sale_prices: Vec<SalePrice> = Vec::new();
        let mut i: usize = 0;
        while i < SALE_PRICES_MAX_LEN
            invariant
                0 <= i <= SALE_PRICES_MAX_LEN,
                sale_prices.len() == i,
                forall|j: int| 0 <= j < i ==> (#[trigger] sale_prices@[j].mint@) == null_key()
                    && sale_prices@[j].amount == 0,
            decreases SALE_PRICES_MAX_LEN - i,
        {
            sale_prices.push(SalePrice { mint: Key::null(), amount: 0 });
            i += 1;
        }
        PriceModel { nonce: 0, index: 0, market: Key::null(), sale_prices }
    }
}

} // verus!
