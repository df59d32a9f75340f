use vstd::prelude::*;

use crate::chain::lemma_chain_degenerate;
use crate::links::{bucket_covered_in, chains_disjoint, collection_linked_in,
    lemma_links_close_collection, lemma_links_insert_node, lemma_links_new_collection,
    lemma_links_empty, lemma_links_remove_node, lemma_linked_facts, lemma_locate_node, links_wf};
use crate::error::ErrorCode;
use crate::key::{key_eq, key_vec_contains, null_key, Key};
use crate::kmap::KeyMap;
use crate::records::{Collection, GlobalState, Market, NftBucket, PriceModel, SalePrice,
    spec_find_price, ADMIN_WHITELIST_MAX_LEN, SALE_PRICES_MAX_LEN};
use crate::token::{TokenAccount, TokenLedger};

verus! {

/// `m2` equals `m1` except that `k` now maps to some (stated elsewhere) value.
pub open spec fn updated_at<T>(m1: Map<Seq<u8>, T>, m2: Map<Seq<u8>, T>, k: Seq<u8>) -> bool {
    &&& m2.dom() == m1.dom()
    &&& forall|k2: Seq<u8>| k2 != k && m1.dom().contains(k2) ==> m2[k2] == #[trigger] m1[k2]
}

/// `m2` is `m1` with one more admin on the whitelist.
pub open spec fn market_with_pushed_admin(m1: Market, m2: Market, k: Key) -> bool {
    &&& m2.nonce == m1.nonce
    &&& m2.index == m1.index
    &&& m2.whitelist@ == m1.whitelist@.push(k)
    &&& m2.num_collections == m1.num_collections
    &&& m2.num_price_models == m1.num_price_models
    &&& m2.title == m1.title
}

/// `m2` is `m1` with every occurrence of `k` filtered off the whitelist,
/// the surviving entries keeping their relative order.
pub open spec fn market_with_filtered_admin(m1: Market, m2: Market, k: Seq<u8>) -> bool {
    &&& m2.nonce == m1.nonce
    &&& m2.index == m1.index
    &&& m2.whitelist.deep_view() == m1.whitelist.deep_view().filter(|x: Seq<u8>| x != k)
    &&& m2.num_collections == m1.num_collections
    &&& m2.num_price_models == m1.num_price_models
    &&& m2.title == m1.title
}

/// `m2` is `m1` with the collection counter advanced.
pub open spec fn market_with_num_collections(m1: Market, m2: Market, n: u32) -> bool {
    &&& m2.nonce == m1.nonce
    &&& m2.index == m1.index
    &&& m2.whitelist == m1.whitelist
    &&& m2.num_collections == n
    &&& m2.num_price_models == m1.num_price_models
    &&& m2.title == m1.title
}

/// `m2` is `m1` with the price-model counter advanced.
pub open spec fn market_with_num_price_models(m1: Market, m2: Market, n: u32) -> bool {
    &&& m2.nonce == m1.nonce
    &&& m2.index == m1.index
    &&& m2.whitelist == m1.whitelist
    &&& m2.num_collections == m1.num_collections
    &&& m2.num_price_models == n
    &&& m2.title == m1.title
}

/// The whole marketplace state: one record arena per entity kind, the
/// token collaborator, and (as ghost state) the chain of every collection.
pub struct Ledger {
    pub global: Option<(Key, GlobalState)>,
    pub markets: KeyMap<Market>,
    pub collections: KeyMap<Collection>,
    pub price_models: KeyMap<PriceModel>,
    pub buckets: KeyMap<NftBucket>,
    pub tokens: TokenLedger,
    pub chains: Ghost<Map<Seq<u8>, Seq<Seq<u8>>>>,
}

impl Ledger {
    /// Whether `caller` is on the whitelist of the market at `mk`.
    pub open spec fn is_admin_of(self, mk: Seq<u8>, caller: Seq<u8>) -> bool {
        self.markets@[mk].spec_is_admin(caller)
    }

    /// The ledger invariant: arenas are well-formed; the structural chain
    /// invariant holds; and every market's whitelist is non-empty and
    /// within its cap.
    pub open spec fn wf(self) -> bool {
        &&& self.markets.wf()
        &&& self.collections.wf()
        &&& self.price_models.wf()
        &&& self.buckets.wf()
        &&& self.tokens.wf()
        &&& links_wf(self.collections@, self.buckets@, self.chains@)
        &&& forall|mk: Seq<u8>| #[trigger] self.markets@.dom().contains(mk) ==> 1 <= self
            .markets@[mk].whitelist@.len() <= ADMIN_WHITELIST_MAX_LEN
    }

    /// An empty ledger: no registry, no records.
    pub fn new() -> (r: Ledger)
        ensures
            r.wf(),
            r.global is None,
            r.markets@ == Map::<Seq<u8>, Market>::empty(),
            r.collections@ == Map::<Seq<u8>, Collection>::empty(),
            r.price_models@ == Map::<Seq<u8>, PriceModel>::empty(),
            r.buckets@ == Map::<Seq<u8>, NftBucket>::empty(),
            r.tokens.accounts@ == Map::<Seq<u8>, TokenAccount>::empty(),
            r.chains@ == Map::<Seq<u8>, Seq<Seq<u8>>>::empty(),
    {
        let r = Ledger {
            global: None,
            markets: KeyMap::new(),
            collections: KeyMap::new(),
            price_models: KeyMap::new(),
            buckets: KeyMap::new(),
            tokens: TokenLedger::new(),
            chains: Ghost(Map::empty()),
        };
        proof {
            lemma_links_empty();
        }
        r
    }

    /// Creates the global registry record with its derivation salt; the
    /// market counter starts at zero.
    pub fn init_global_state(&mut self, key: Key, nonce: u8) -> (r: Result<(), ErrorCode>)
        requires
            old(self).wf(),
            old(self).global is None,
        ensures
            final(self).wf(),
            r == Ok::<(), ErrorCode>(()),
            final(self).global == Some((key, GlobalState { nonce, num_markets: 0u32 })),
            final(self).markets == old(self).markets,
            final(self).collections == old(self).collections,
            final(self).price_models == old(self).price_models,
            final(self).buckets == old(self).buckets,
            final(self).tokens == old(self).tokens,
            final(self).chains == old(self).chains,
    {
        self.global = Some((key, GlobalState { nonce, num_markets: 0 }));
        Ok(())
    }

    /// Allocates the next market index from the registry and stores the
    /// market with its whitelist, which must not be empty: a market with
    /// no admins could never be administered again. Fails with `Overflow`
    /// when the market counter would wrap, and with `AdminOutOfBounds`
    /// when the whitelist holds more than the cap; on failure nothing
    /// changes.
    pub fn init_market(
        &mut self,
        market_key: Key,
        nonce: u8,
        whitelist: Vec<Key>,
        title: String,
    ) -> (r: Result<(), ErrorCode>)
        requires
            old(self).wf(),
            old(self).global is Some,
            !old(self).markets@.dom().contains(market_key@),
            whitelist@.len() >= 1,
        ensures
            final(self).wf(),
            ({
                let gs = old(self).global->Some_0.1;
                if gs.num_markets == u32::MAX {
                    r == Err::<(), ErrorCode>(ErrorCode::Overflow) && *final(self) == *old(self)
                } else if whitelist@.len() > ADMIN_WHITELIST_MAX_LEN {
                    r == Err::<(), ErrorCode>(ErrorCode::AdminOutOfBounds) && *final(self)
                        == *old(self)
                } else {
                    &&& r == Ok::<(), ErrorCode>(())
                    &&& final(self).global == Some(
                        (
                            old(self).global->Some_0.0,
                            GlobalState {
                                nonce: gs.nonce,
                                num_markets: (gs.num_markets + 1) as u32,
                            },
                        ),
                    )
                    &&& final(self).markets@ == old(self).markets@.insert(
                        market_key@,
                        (Market {
                            nonce,
                            index: gs.num_markets,
                            whitelist,
                            num_collections: 0,
                            num_price_models: 0,
                            title,
                        }),
                    )
                    &&& final(self).collections == old(self).collections
                    &&& final(self).price_models == old(self).price_models
                    &&& final(self).buckets == old(self).buckets
                    &&& final(self).tokens == old(self).tokens
                    &&& final(self).chains == old(self).chains
                }
            }),
    {
        let (gk, gs) = match &self.global {
            Some(p) => (p.0, p.1),
            None => {
                return vstd::pervasive::unreached();
            },
        };
        if gs.num_markets == u32::MAX {
            return Err(ErrorCode::Overflow);
        }
        if whitelist.len() > ADMIN_WHITELIST_MAX_LEN {
            return Err(ErrorCode::AdminOutOfBounds);
        }
        self.global = Some((gk, GlobalState { nonce: gs.nonce, num_markets: gs.num_markets + 1 }));
        let market = Market {
            nonce,
            index: gs.num_markets,
            whitelist,
            num_collections: 0,
            num_price_models: 0,
            title,
        };
        self.markets.insert(market_key, market);
        Ok(())
    }

    /// Adds a key to a market's whitelist. Only a current admin may call;
    /// the whitelist may never grow past its cap. On failure nothing
    /// changes.
    pub fn add_admin(&mut self, market_key: &Key, caller: &Key, new_admin: Key) -> (r: Result<
        (),
        ErrorCode,
    >)
        requires
            old(self).wf(),
            old(self).markets@.dom().contains(market_key@),
        ensures
            final(self).wf(),
            ({
                let m = old(self).markets@[market_key@];
                if !m.spec_is_admin(caller@) {
                    r == Err::<(), ErrorCode>(ErrorCode::Unauthorized) && *final(self) == *old(
                        self,
                    )
                } else if m.whitelist@.len() >= ADMIN_WHITELIST_MAX_LEN {
                    r == Err::<(), ErrorCode>(ErrorCode::AdminOutOfBounds) && *final(self)
                        == *old(self)
                } else {
                    &&& r == Ok::<(), ErrorCode>(())
                    &&& final(self).markets@.dom() == old(self).markets@.dom()
                    &&& market_with_pushed_admin(
                        m,
                        final(self).markets@[market_key@],
                        new_admin,
                    )
                    &&& final(self).markets@[market_key@].whitelist@.len() <= ADMIN_WHITELIST_MAX_LEN
                    &&& updated_at(old(self).markets@, final(self).markets@, market_key@)
                    &&& final(self).global == old(self).global
                    &&& final(self).collections == old(self).collections
                    &&& final(self).price_models == old(self).price_models
                    &&& final(self).buckets == old(self).buckets
                    &&& final(self).tokens == old(self).tokens
                    &&& final(self).chains == old(self).chains
                }
            }),
    {
        let authorized: bool;
        let at_cap: bool;
        match self.markets.get(market_key) {
            Some(m) => {
                authorized = key_vec_contains(&m.whitelist, caller);
                at_cap = m.whitelist.len() >= ADMIN_WHITELIST_MAX_LEN;
            },
            None => {
                return vstd::pervasive::unreached();
            },
        }
        if !authorized {
            return Err(ErrorCode::Unauthorized);
        }
        if at_cap {
            return Err(ErrorCode::AdminOutOfBounds);
        }
        let mut market = self.markets.remove_take(market_key);
        market.whitelist.push(new_admin);
        self.markets.insert(*market_key, market);
        proof {
            assert(self.markets@ =~= old(self).markets@.insert(
                market_key@,
                self.markets@[market_key@],
            ));
            assert(self.markets@.dom() =~= old(self).markets@.dom());
        }
        Ok(())
    }

    /// Removes a key from a market's whitelist. Only a current admin may
    /// call; an admin can never remove itself; the target must be present.
    /// Survivors keep their relative order. On failure nothing changes.
    pub fn remove_admin(&mut self, market_key: &Key, caller: &Key, target: &Key) -> (r: Result<
        (),
        ErrorCode,
    >)
        requires
            old(self).wf(),
            old(self).markets@.dom().contains(market_key@),
        ensures
            final(self).wf(),
            ({
                let m = old(self).markets@[market_key@];
                if !m.spec_is_admin(caller@) {
                    r == Err::<(), ErrorCode>(ErrorCode::Unauthorized) && *final(self) == *old(
                        self,
                    )
                } else if caller@ == target@ {
                    r == Err::<(), ErrorCode>(ErrorCode::CannotRemoveSelf) && *final(self)
                        == *old(self)
                } else if !m.spec_is_admin(target@) {
                    r == Err::<(), ErrorCode>(ErrorCode::AdminNotFound) && *final(self) == *old(
                        self,
                    )
                } else {
                    &&& r == Ok::<(), ErrorCode>(())
                    &&& final(self).markets@.dom() == old(self).markets@.dom()
                    &&& market_with_filtered_admin(
                        m,
                        final(self).markets@[market_key@],
                        target@,
                    )
                    &&& updated_at(old(self).markets@, final(self).markets@, market_key@)
                    &&& final(self).global == old(self).global
                    &&& final(self).collections == old(self).collections
                    &&& final(self).price_models == old(self).price_models
                    &&& final(self).buckets == old(self).buckets
                    &&& final(self).tokens == old(self).tokens
                    &&& final(self).chains == old(self).chains
                }
            }),
    {
        let authorized: bool;
        let present: bool;
        match self.markets.get(market_key) {
            Some(m) => {
                authorized = key_vec_contains(&m.whitelist, caller);
                present = key_vec_contains(&m.whitelist, target);
            },
            None => {
                return vstd::pervasive::unreached();
            },
        }
        if !authorized {
            return Err(ErrorCode::Unauthorized);
        }
        if key_eq(caller, target) {
            return Err(ErrorCode::CannotRemoveSelf);
        }
        if !present {
            return Err(ErrorCode::AdminNotFound);
        }
        let mut market = self.markets.remove_take(market_key);
        let survivors = filter_out_key(&market.whitelist, target);
        market.whitelist = survivors;
        self.markets.insert(*market_key, market);
        proof {
            assert(self.markets@ =~= old(self).markets@.insert(
                market_key@,
                self.markets@[market_key@],
            ));
            assert(self.markets@.dom() =~= old(self).markets@.dom());
            broadcast use vstd::seq_lib::group_filter_ensures;

            // the caller survives the filter, so the whitelist stays non-empty
            let s = old(self).markets@[market_key@].whitelist.deep_view();
            let pred = |x: Seq<u8>| x != target@;
            let i = choose|i: int| 0 <= i < s.len() && s[i] == caller@;
            assert(pred(s[i]));
            assert(s.filter(pred).contains(s[i]));
            assert(self.markets@[market_key@].whitelist@.len() >= 1);
        }
        Ok(())
    }

    /// Allocates the next price-model index from the market and stores the
    /// model with its fixed (currency, amount) table. Only an admin may
    /// call; the counter must not wrap; the table must not exceed its cap.
    /// Duplicate currencies are not rejected: lookups return the first
    /// match. On failure nothing changes.
    pub fn init_price_model(
        &mut self,
        market_key: &Key,
        caller: &Key,
        price_model_key: Key,
        nonce: u8,
        sale_prices: Vec<SalePrice>,
    ) -> (r: Result<(), ErrorCode>)
        requires
            old(self).wf(),
            old(self).markets@.dom().contains(market_key@),
            !old(self).price_models@.dom().contains(price_model_key@),
        ensures
            final(self).wf(),
            ({
                let m = old(self).markets@[market_key@];
                if !m.spec_is_admin(caller@) {
                    r == Err::<(), ErrorCode>(ErrorCode::Unauthorized) && *final(self) == *old(
                        self,
                    )
                } else if m.num_price_models == u32::MAX {
                    r == Err::<(), ErrorCode>(ErrorCode::Overflow) && *final(self) == *old(self)
                } else if sale_prices@.len() > SALE_PRICES_MAX_LEN {
                    r == Err::<(), ErrorCode>(ErrorCode::AdminOutOfBounds) && *final(self)
                        == *old(self)
                } else {
                    &&& r == Ok::<(), ErrorCode>(())
                    &&& final(self).markets@.dom() == old(self).markets@.dom()
                    &&& market_with_num_price_models(
                        m,
                        final(self).markets@[market_key@],
                        (m.num_price_models + 1) as u32,
                    )
                    &&& updated_at(old(self).markets@, final(self).markets@, market_key@)
                    &&& final(self).price_models@ == old(self).price_models@.insert(
                        price_model_key@,
                        (PriceModel {
                            nonce,
                            index: m.num_price_models,
                            market: *market_key,
                            sale_prices,
                        }),
                    )
                    &&& final(self).global == old(self).global
                    &&& final(self).collections == old(self).collections
                    &&& final(self).buckets == old(self).buckets
                    &&& final(self).tokens == old(self).tokens
                    &&& final(self).chains == old(self).chains
                }
            }),
    {
        let authorized: bool;
        let counter: u32;
        match self.markets.get(market_key) {
            Some(m) => {
                authorized = key_vec_contains(&m.whitelist, caller);
                counter = m.num_price_models;
            },
            None => {
                return vstd::pervasive::unreached();
            },
        }
        if !authorized {
            return Err(ErrorCode::Unauthorized);
        }
        if counter == u32::MAX {
            return Err(ErrorCode::Overflow);
        }
        if sale_prices.len() > SALE_PRICES_MAX_LEN {
            return Err(ErrorCode::AdminOutOfBounds);
        }
        let mut market = self.markets.remove_take(market_key);
        market.num_price_models = counter + 1;
        self.markets.insert(*market_key, market);
        self.price_models.insert(
            price_model_key,
            PriceModel { nonce, index: counter, market: *market_key, sale_prices },
        );
        proof {
            assert(self.markets@ =~= old(self).markets@.insert(
                market_key@,
                self.markets@[market_key@],
            ));
            assert(self.markets@.dom() =~= old(self).markets@.dom());
        }
        Ok(())
    }

    /// Allocates the next collection index from the market and creates the
    /// collection together with its two sentinel nodes, already linked to
    /// each other. Only an admin may call; the counter must not wrap. On
    /// failure nothing changes.
    pub fn init_collection(
        &mut self,
        market_key: &Key,
        caller: &Key,
        collection_key: Key,
        head_key: Key,
        tail_key: Key,
        collection_nonce: u8,
        head_nonce: u8,
        tail_nonce: u8,
        title: String,
    ) -> (r: Result<(), ErrorCode>)
        requires
            old(self).wf(),
            old(self).markets@.dom().contains(market_key@),
            !old(self).collections@.dom().contains(collection_key@),
            !old(self).buckets@.dom().contains(head_key@),
            !old(self).buckets@.dom().contains(tail_key@),
            head_key@ != tail_key@,
            head_key@ != null_key(),
            tail_key@ != null_key(),
        ensures
            final(self).wf(),
            ({
                let m = old(self).markets@[market_key@];
                if !m.spec_is_admin(caller@) {
                    r == Err::<(), ErrorCode>(ErrorCode::Unauthorized) && *final(self) == *old(
                        self,
                    )
                } else if m.num_collections == u32::MAX {
                    r == Err::<(), ErrorCode>(ErrorCode::Overflow) && *final(self) == *old(self)
                } else {
                    &&& r == Ok::<(), ErrorCode>(())
                    &&& final(self).markets@.dom() == old(self).markets@.dom()
                    &&& market_with_num_collections(
                        m,
                        final(self).markets@[market_key@],
                        (m.num_collections + 1) as u32,
                    )
                    &&& updated_at(old(self).markets@, final(self).markets@, market_key@)
                    &&& final(self).collections@ == old(self).collections@.insert(
                        collection_key@,
                        (Collection {
                            nonce: collection_nonce,
                            index: m.num_collections,
                            market: *market_key,
                            list_head: head_key,
                            list_tail: tail_key,
                            title,
                        }),
                    )
                    &&& final(self).buckets@.dom() == old(self).buckets@.dom().insert(
                        head_key@,
                    ).insert(tail_key@)
                    &&& ({
                        let hb = final(self).buckets@[head_key@];
                        &&& hb.nonce == head_nonce
                        &&& hb.nft_mint@ == null_key()
                        &&& hb.price_model@ == null_key()
                        &&& hb.prev_list_item@ == null_key()
                        &&& hb.next_list_item == tail_key
                        &&& hb.payer == *caller
                    })
                    &&& ({
                        let tb = final(self).buckets@[tail_key@];
                        &&& tb.nonce == tail_nonce
                        &&& tb.nft_mint@ == null_key()
                        &&& tb.price_model@ == null_key()
                        &&& tb.prev_list_item == head_key
                        &&& tb.next_list_item@ == null_key()
                        &&& tb.payer == *caller
                    })
                    &&& forall|bk: Seq<u8>|
                        bk != head_key@ && bk != tail_key@ && old(self).buckets@.dom().contains(
                            bk,
                        ) ==> final(self).buckets@[bk] == #[trigger] old(self).buckets@[bk]
                    &&& final(self).chains@ == old(self).chains@.insert(
                        collection_key@,
                        seq![head_key@, tail_key@],
                    )
                    &&& final(self).global == old(self).global
                    &&& final(self).price_models == old(self).price_models
                    &&& final(self).tokens == old(self).tokens
                }
            }),
    {
        let authorized: bool;
        let counter: u32;
        match self.markets.get(market_key) {
            Some(m) => {
                authorized = key_vec_contains(&m.whitelist, caller);
                counter = m.num_collections;
            },
            None => {
                return vstd::pervasive::unreached();
            },
        }
        if !authorized {
            return Err(ErrorCode::Unauthorized);
        }
        if counter == u32::MAX {
            return Err(ErrorCode::Overflow);
        }
        let mut market = self.markets.remove_take(market_key);
        market.num_collections = counter + 1;
        self.markets.insert(*market_key, market);
        self.collections.insert(
            collection_key,
            Collection {
                nonce: collection_nonce,
                index: counter,
                market: *market_key,
                list_head: head_key,
                list_tail: tail_key,
                title,
            },
        );
        self.buckets.insert(
            head_key,
            NftBucket {
                nonce: head_nonce,
                nft_mint: Key::null(),
                price_model: Key::null(),
                prev_list_item: Key::null(),
                next_list_item: tail_key,
                payer: *caller,
            },
        );
        self.buckets.insert(
            tail_key,
            NftBucket {
                nonce: tail_nonce,
                nft_mint: Key::null(),
                price_model: Key::null(),
                prev_list_item: head_key,
                next_list_item: Key::null(),
                payer: *caller,
            },
        );
        let ghost chains2 = self.chains@.insert(collection_key@, seq![head_key@, tail_key@]);
        self.chains = Ghost(chains2);
        proof {
            assert(self.markets@ =~= old(self).markets@.insert(
                market_key@,
                self.markets@[market_key@],
            ));
            assert(self.markets@.dom() =~= old(self).markets@.dom());
            let colv = self.collections@[collection_key@];
            let hbv = self.buckets@[head_key@];
            let tbv = self.buckets@[tail_key@];
            lemma_links_new_collection(
                old(self).collections@,
                old(self).buckets@,
                old(self).chains@,
                collection_key@,
                colv,
                head_key@,
                tail_key@,
                hbv,
                tbv,
            );
            assert(self.collections@ == old(self).collections@.insert(collection_key@, colv));
            assert(self.buckets@ == old(self).buckets@.insert(head_key@, hbv).insert(
                tail_key@,
                tbv,
            ));
            assert(self.buckets@.dom() =~= old(self).buckets@.dom().insert(head_key@).insert(
                tail_key@,
            ));
        }
        Ok(())
    }

    /// Destroys an empty collection and its two sentinels. Only an admin
    /// of the owning market may call; the chain must be degenerate (the
    /// head pointing straight at the tail). On failure nothing changes.
    pub fn close_collection(&mut self, market_key: &Key, caller: &Key, collection_key: &Key) -> (r:
        Result<(), ErrorCode>)
        requires
            old(self).wf(),
            old(self).markets@.dom().contains(market_key@),
            old(self).collections@.dom().contains(collection_key@),
            old(self).collections@[collection_key@].market@ == market_key@,
        ensures
            final(self).wf(),
            ({
                let m = old(self).markets@[market_key@];
                let col = old(self).collections@[collection_key@];
                if !m.spec_is_admin(caller@) {
                    r == Err::<(), ErrorCode>(ErrorCode::Unauthorized) && *final(self) == *old(
                        self,
                    )
                } else if old(self).buckets@[col.list_head@].next_list_item@ != col.list_tail@ {
                    r == Err::<(), ErrorCode>(ErrorCode::CollectionNonEmpty) && *final(self)
                        == *old(self)
                } else {
                    &&& r == Ok::<(), ErrorCode>(())
                    &&& final(self).collections@ == old(self).collections@.remove(
                        collection_key@,
                    )
                    &&& final(self).buckets@ == old(self).buckets@.remove(col.list_head@).remove(
                        col.list_tail@,
                    )
                    &&& final(self).chains@ == old(self).chains@.remove(collection_key@)
                    &&& final(self).global == old(self).global
                    &&& final(self).markets == old(self).markets
                    &&& final(self).price_models == old(self).price_models
                    &&& final(self).tokens == old(self).tokens
                }
            }),
    {
        let authorized: bool;
        match self.markets.get(market_key) {
            Some(m) => {
                authorized = key_vec_contains(&m.whitelist, caller);
            },
            None => {
                return vstd::pervasive::unreached();
            },
        }
        if !authorized {
            return Err(ErrorCode::Unauthorized);
        }
        let head_key: Key;
        let tail_key: Key;
        match self.collections.get(collection_key) {
            Some(c) => {
                head_key = c.list_head;
                tail_key = c.list_tail;
            },
            None => {
                return vstd::pervasive::unreached();
            },
        }
        proof {
            lemma_linked_facts(self.collections@, self.buckets@, self.chains@, collection_key@);
        }
        let head_next: Key;
        match self.buckets.get(&head_key) {
            Some(hb) => {
                head_next = hb.next_list_item;
            },
            None => {
                return vstd::pervasive::unreached();
            },
        }
        let tail_prev: Key;
        match self.buckets.get(&tail_key) {
            Some(tb) => {
                tail_prev = tb.prev_list_item;
            },
            None => {
                return vstd::pervasive::unreached();
            },
        }
        proof {
            lemma_chain_degenerate(self.buckets@, self.chains@[collection_key@]);
        }
        if !key_eq(&head_next, &tail_key) || !key_eq(&tail_prev, &head_key) {
            return Err(ErrorCode::CollectionNonEmpty);
        }
        let _ = self.collections.remove_take(collection_key);
        let _ = self.buckets.remove_take(&head_key);
        let _ = self.buckets.remove_take(&tail_key);
        let ghost chains2 = self.chains@.remove(collection_key@);
        self.chains = Ghost(chains2);
        proof {
            let ch = old(self).chains@[collection_key@];
            lemma_chain_degenerate(old(self).buckets@, ch);
            assert(ch.len() == 2);
            assert(ch[0] == head_key@ && ch[1] == tail_key@);
            lemma_links_close_collection(
                old(self).collections@,
                old(self).buckets@,
                old(self).chains@,
                collection_key@,
            );
        }
        Ok(())
    }

    /// Lists an asset: one unit moves from the admin's token account into
    /// a fresh escrow owned by the collection, and a new listing node is
    /// inserted immediately after the head sentinel. Only an admin may
    /// call; on failure nothing changes.
    #[verifier::rlimit(50)]
    pub fn add_nft(
        &mut self,
        market_key: &Key,
        caller: &Key,
        collection_key: &Key,
        price_model_key: &Key,
        new_item_key: Key,
        admin_token_key: &Key,
        escrow_key: Key,
    ) -> (r: Result<(), ErrorCode>)
        requires
            old(self).wf(),
            old(self).markets@.dom().contains(market_key@),
            old(self).collections@.dom().contains(collection_key@),
            old(self).collections@[collection_key@].market@ == market_key@,
            old(self).price_models@.dom().contains(price_model_key@),
            old(self).price_models@[price_model_key@].market@ == market_key@,
            !old(self).buckets@.dom().contains(new_item_key@),
            new_item_key@ != null_key(),
            old(self).tokens.accounts@.dom().contains(admin_token_key@),
            old(self).tokens.accounts@[admin_token_key@].owner@ == caller@,
            old(self).tokens.accounts@[admin_token_key@].amount >= 1,
            escrow_key@ != admin_token_key@,
            old(self).tokens.accounts@.dom().contains(escrow_key@) ==> ({
                let e = old(self).tokens.accounts@[escrow_key@];
                &&& e.mint@ == old(self).tokens.accounts@[admin_token_key@].mint@
                &&& e.owner@ == collection_key@
                &&& e.amount + 1 <= u64::MAX
            }),
        ensures
            final(self).wf(),
            ({
                let m = old(self).markets@[market_key@];
                if !m.spec_is_admin(caller@) {
                    r == Err::<(), ErrorCode>(ErrorCode::Unauthorized) && *final(self) == *old(
                        self,
                    )
                } else {
                    let hk = old(self).collections@[collection_key@].list_head;
                    let head1 = old(self).buckets@[hk@];
                    let ofk = head1.next_list_item;
                    let mint = old(self).tokens.accounts@[admin_token_key@].mint;
                    &&& r == Ok::<(), ErrorCode>(())
                    &&& final(self).buckets@.dom() == old(self).buckets@.dom().insert(
                        new_item_key@,
                    )
                    &&& ({
                        let h2 = final(self).buckets@[hk@];
                        &&& h2.nonce == head1.nonce
                        &&& h2.nft_mint == head1.nft_mint
                        &&& h2.price_model == head1.price_model
                        &&& h2.prev_list_item == head1.prev_list_item
                        &&& h2.next_list_item == new_item_key
                        &&& h2.payer == head1.payer
                    })
                    &&& ({
                        let f1 = old(self).buckets@[ofk@];
                        let f2 = final(self).buckets@[ofk@];
                        &&& f2.nonce == f1.nonce
                        &&& f2.nft_mint == f1.nft_mint
                        &&& f2.price_model == f1.price_model
                        &&& f2.prev_list_item == new_item_key
                        &&& f2.next_list_item == f1.next_list_item
                        &&& f2.payer == f1.payer
                    })
                    &&& ({
                        let nb = final(self).buckets@[new_item_key@];
                        &&& nb.nonce == 0
                        &&& nb.nft_mint == mint
                        &&& nb.price_model == *price_model_key
                        &&& nb.prev_list_item == hk
                        &&& nb.next_list_item == ofk
                        &&& nb.payer == *caller
                    })
                    &&& forall|k: Seq<u8>|
                        k != hk@ && k != ofk@ && k != new_item_key@ && old(
                            self,
                        ).buckets@.dom().contains(k) ==> final(self).buckets@[k] == #[trigger] old(
                            self,
                        ).buckets@[k]
                    &&& final(self).chains@ == old(self).chains@.insert(
                        collection_key@,
                        old(self).chains@[collection_key@].insert(1, new_item_key@),
                    )
                    &&& final(self).tokens.accounts@.dom() == old(
                        self,
                    ).tokens.accounts@.dom().insert(escrow_key@)
                    &&& ({
                        let a1 = old(self).tokens.accounts@[admin_token_key@];
                        let a2 = final(self).tokens.accounts@[admin_token_key@];
                        &&& a2.mint == a1.mint
                        &&& a2.owner == a1.owner
                        &&& a2.amount == a1.amount - 1
                    })
                    &&& ({
                        let e2 = final(self).tokens.accounts@[escrow_key@];
                        &&& e2.mint@ == mint@
                        &&& e2.owner@ == collection_key@
                        &&& e2.amount == (if old(self).tokens.accounts@.dom().contains(
                            escrow_key@,
                        ) {
                            old(self).tokens.accounts@[escrow_key@].amount + 1
                        } else {
                            1
                        })
                    })
                    &&& forall|k: Seq<u8>|
                        k != admin_token_key@ && k != escrow_key@ && old(
                            self,
                        ).tokens.accounts@.dom().contains(k) ==> final(self).tokens.accounts@[k]
                            == #[trigger] old(self).tokens.accounts@[k]
                    &&& final(self).global == old(self).global
                    &&& final(self).markets == old(self).markets
                    &&& final(self).collections == old(self).collections
                    &&& final(self).price_models == old(self).price_models
                }
            }),
    {
        let authorized: bool;
        match self.markets.get(market_key) {
            Some(m) => {
                authorized = key_vec_contains(&m.whitelist, caller);
            },
            None => {
                return vstd::pervasive::unreached();
            },
        }
        if !authorized {
            return Err(ErrorCode::Unauthorized);
        }
        let head_key: Key;
        match self.collections.get(collection_key) {
            Some(c) => {
                head_key = c.list_head;
            },
            None => {
                return vstd::pervasive::unreached();
            },
        }
        proof {
            lemma_linked_facts(self.collections@, self.buckets@, self.chains@, collection_key@);
        }
        let head: NftBucket;
        match self.buckets.get(&head_key) {
            Some(h) => {
                head = *h;
            },
            None => {
                return vstd::pervasive::unreached();
            },
        }
        let old_first_key = head.next_list_item;
        let mint: Key;
        match self.tokens.account(admin_token_key) {
            Some(a) => {
                mint = a.mint;
            },
            None => {
                return vstd::pervasive::unreached();
            },
        }
        if !self.tokens.accounts.contains_key(&escrow_key) {
            self.tokens.open_account(escrow_key, mint, *collection_key);
        }
        self.tokens.transfer(admin_token_key, &escrow_key, 1);
        let mut h = head;
        h.next_list_item = new_item_key;
        let _ = self.buckets.replace(&head_key, h);
        let mut f: NftBucket;
        match self.buckets.get(&old_first_key) {
            Some(b) => {
                f = *b;
            },
            None => {
                return vstd::pervasive::unreached();
            },
        }
        f.prev_list_item = new_item_key;
        let _ = self.buckets.replace(&old_first_key, f);
        let node = NftBucket {
            nonce: 0,
            nft_mint: mint,
            price_model: *price_model_key,
            prev_list_item: head_key,
            next_list_item: old_first_key,
            payer: *caller,
        };
        self.buckets.insert(new_item_key, node);
        let ghost chains2 = self.chains@.insert(
            collection_key@,
            old(self).chains@[collection_key@].insert(1, new_item_key@),
        );
        self.chains = Ghost(chains2);
        proof {
            let ch = old(self).chains@[collection_key@];
            let h2 = self.buckets@[head_key@];
            let f2 = self.buckets@[old_first_key@];
            assert(ch[0] == head_key@);
            assert(ch[1] == old_first_key@);
            lemma_links_insert_node(
                old(self).collections@,
                old(self).buckets@,
                old(self).chains@,
                collection_key@,
                new_item_key@,
                node,
                h2,
                f2,
            );
            assert(self.buckets@.dom() =~= old(self).buckets@.dom().insert(new_item_key@));
            assert(self.tokens.accounts@.dom() =~= old(self).tokens.accounts@.dom().insert(
                escrow_key@,
            ));
        }
        Ok(())
    }

    /// Reclaims a listed asset without payment: the escrowed unit moves to
    /// the admin's token account, the emptied escrow closes, and the node
    /// is unlinked. An escrow that does not match the listing, or does not
    /// hold exactly the one escrowed unit, is rejected with `InvalidEscrow`
    /// before anything changes. Only an admin of the owning market may
    /// call; on failure nothing changes.
    #[verifier::rlimit(50)]
    pub fn withdraw_nft(
        &mut self,
        caller: &Key,
        item_key: &Key,
        collection_key: &Key,
        escrow_key: &Key,
        admin_token_key: Key,
    ) -> (r: Result<(), ErrorCode>)
        requires
            old(self).wf(),
            old(self).buckets@.dom().contains(item_key@),
            ({
                let item = old(self).buckets@[item_key@];
                &&& old(self).buckets@.dom().contains(item.prev_list_item@)
                &&& old(self).buckets@.dom().contains(item.next_list_item@)
                &&& old(self).price_models@.dom().contains(item.price_model@)
                &&& old(self).markets@.dom().contains(
                    old(self).price_models@[item.price_model@].market@,
                )
                &&& old(self).collections@.dom().contains(collection_key@)
                &&& old(self).collections@[collection_key@].market@ == old(
                    self,
                ).price_models@[item.price_model@].market@
                &&& old(self).tokens.accounts@.dom().contains(escrow_key@)
                &&& admin_token_key@ != escrow_key@
                &&& (old(self).tokens.accounts@.dom().contains(admin_token_key@) ==> ({
                    let a = old(self).tokens.accounts@[admin_token_key@];
                    &&& a.mint@ == item.nft_mint@
                    &&& a.owner@ == caller@
                    &&& a.amount + 1 <= u64::MAX
                }))
            }),
        ensures
            final(self).wf(),
            ({
                let item = old(self).buckets@[item_key@];
                let e = old(self).tokens.accounts@[escrow_key@];
                let m = old(self).markets@[old(self).price_models@[item.price_model@].market@];
                if e.mint@ != item.nft_mint@ || e.owner@ != collection_key@ || e.amount != 1 {
                    r == Err::<(), ErrorCode>(ErrorCode::InvalidEscrow) && *final(self) == *old(
                        self,
                    )
                } else if !m.spec_is_admin(caller@) {
                    r == Err::<(), ErrorCode>(ErrorCode::Unauthorized) && *final(self) == *old(
                        self,
                    )
                } else {
                    let pv = item.prev_list_item@;
                    let nx = item.next_list_item@;
                    &&& r == Ok::<(), ErrorCode>(())
                    &&& final(self).buckets@.dom() == old(self).buckets@.dom().remove(item_key@)
                    &&& ({
                        let p1 = old(self).buckets@[pv];
                        let p2 = final(self).buckets@[pv];
                        &&& p2.nonce == p1.nonce
                        &&& p2.nft_mint == p1.nft_mint
                        &&& p2.price_model == p1.price_model
                        &&& p2.prev_list_item == p1.prev_list_item
                        &&& p2.next_list_item == item.next_list_item
                        &&& p2.payer == p1.payer
                    })
                    &&& ({
                        let n1 = old(self).buckets@[nx];
                        let n2 = final(self).buckets@[nx];
                        &&& n2.nonce == n1.nonce
                        &&& n2.nft_mint == n1.nft_mint
                        &&& n2.price_model == n1.price_model
                        &&& n2.prev_list_item == item.prev_list_item
                        &&& n2.next_list_item == n1.next_list_item
                        &&& n2.payer == n1.payer
                    })
                    &&& forall|k: Seq<u8>|
                        k != pv && k != nx && k != item_key@ && old(
                            self,
                        ).buckets@.dom().contains(k) ==> final(self).buckets@[k] == #[trigger] old(
                            self,
                        ).buckets@[k]
                    &&& final(self).tokens.accounts@.dom() == old(
                        self,
                    ).tokens.accounts@.dom().insert(admin_token_key@).remove(escrow_key@)
                    &&& ({
                        let a2 = final(self).tokens.accounts@[admin_token_key@];
                        &&& a2.mint@ == item.nft_mint@
                        &&& a2.owner@ == caller@
                        &&& a2.amount == (if old(self).tokens.accounts@.dom().contains(
                            admin_token_key@,
                        ) {
                            old(self).tokens.accounts@[admin_token_key@].amount + 1
                        } else {
                            1
                        })
                    })
                    &&& forall|k: Seq<u8>|
                        k != admin_token_key@ && k != escrow_key@ && old(
                            self,
                        ).tokens.accounts@.dom().contains(k) ==> final(self).tokens.accounts@[k]
                            == #[trigger] old(self).tokens.accounts@[k]
                    &&& final(self).global == old(self).global
                    &&& final(self).markets == old(self).markets
                    &&& final(self).collections == old(self).collections
                    &&& final(self).price_models == old(self).price_models
                }
            }),
    {
        let item: NftBucket;
        match self.buckets.get(item_key) {
            Some(b) => {
                item = *b;
            },
            None => {
                return vstd::pervasive::unreached();
            },
        }
        let escrow_ok: bool;
        match self.tokens.account(escrow_key) {
            Some(e) => {
                escrow_ok = key_eq(&e.mint, &item.nft_mint) && key_eq(&e.owner, collection_key)
                    && e.amount == 1;
            },
            None => {
                return vstd::pervasive::unreached();
            },
        }
        if !escrow_ok {
            return Err(ErrorCode::InvalidEscrow);
        }
        let pm_market: Key;
        match self.price_models.get(&item.price_model) {
            Some(p) => {
                pm_market = p.market;
            },
            None => {
                return vstd::pervasive::unreached();
            },
        }
        let authorized: bool;
        match self.markets.get(&pm_market) {
            Some(m) => {
                authorized = key_vec_contains(&m.whitelist, caller);
            },
            None => {
                return vstd::pervasive::unreached();
            },
        }
        if !authorized {
            return Err(ErrorCode::Unauthorized);
        }
        let ghost mut ck0: Seq<u8> = Seq::empty();
        let ghost mut i0: int = 0;
        proof {
            let (c, i) = lemma_locate_node(
                self.collections@,
                self.buckets@,
                self.chains@,
                item_key@,
            );
            ck0 = c;
            i0 = i;
        }
        if !self.tokens.accounts.contains_key(&admin_token_key) {
            self.tokens.open_account(admin_token_key, item.nft_mint, *caller);
        }
        self.tokens.transfer(escrow_key, &admin_token_key, 1);
        self.tokens.close_account(escrow_key);
        let prev_key = item.prev_list_item;
        let next_key = item.next_list_item;
        let mut p: NftBucket;
        match self.buckets.get(&prev_key) {
            Some(b) => {
                p = *b;
            },
            None => {
                return vstd::pervasive::unreached();
            },
        }
        p.next_list_item = next_key;
        let _ = self.buckets.replace(&prev_key, p);
        let mut n: NftBucket;
        match self.buckets.get(&next_key) {
            Some(b) => {
                n = *b;
            },
            None => {
                return vstd::pervasive::unreached();
            },
        }
        n.prev_list_item = prev_key;
        let _ = self.buckets.replace(&next_key, n);
        let _ = self.buckets.remove_take(item_key);
        let ghost chains2 = self.chains@.insert(ck0, old(self).chains@[ck0].remove(i0));
        self.chains = Ghost(chains2);
        proof {
            let p2v = self.buckets@[prev_key@];
            let n2v = self.buckets@[next_key@];
            lemma_links_remove_node(
                old(self).collections@,
                old(self).buckets@,
                old(self).chains@,
                ck0,
                i0,
                p2v,
                n2v,
            );
            assert(self.buckets@.dom() =~= old(self).buckets@.dom().remove(item_key@));
            assert(self.tokens.accounts@.dom() =~= old(self).tokens.accounts@.dom().insert(
                admin_token_key@,
            ).remove(escrow_key@));
        }
        Ok(())
    }

    /// Sells a listed asset to any buyer: the buyer pays the price-model
    /// amount for the currency their payment account holds, receives the
    /// escrowed unit, the emptied escrow closes, and the node is unlinked.
    /// No authorization is required. A mismatched escrow, a currency
    /// absent from the node's price model, and a balance below the price
    /// are each rejected before anything changes.
    #[verifier::rlimit(50)]
    pub fn purchase_nft(
        &mut self,
        buyer: &Key,
        item_key: &Key,
        collection_key: &Key,
        escrow_key: &Key,
        debit_key: &Key,
        credit_key: Key,
        buyer_token_key: Key,
    ) -> (r: Result<(), ErrorCode>)
        requires
            old(self).wf(),
            old(self).buckets@.dom().contains(item_key@),
            ({
                let item = old(self).buckets@[item_key@];
                &&& old(self).buckets@.dom().contains(item.prev_list_item@)
                &&& old(self).buckets@.dom().contains(item.next_list_item@)
                &&& old(self).price_models@.dom().contains(item.price_model@)
                &&& old(self).markets@.dom().contains(
                    old(self).price_models@[item.price_model@].market@,
                )
                &&& old(self).collections@.dom().contains(collection_key@)
                &&& old(self).collections@[collection_key@].market@ == old(
                    self,
                ).price_models@[item.price_model@].market@
                &&& old(self).tokens.accounts@.dom().contains(escrow_key@)
                &&& old(self).tokens.accounts@.dom().contains(debit_key@)
                &&& old(self).tokens.accounts@[debit_key@].owner@ == buyer@
                &&& ({
                    let pm = old(self).price_models@[item.price_model@];
                    let mint = old(self).tokens.accounts@[debit_key@].mint@;
                    spec_find_price(pm.sale_prices@, mint) matches Some(price) ==> ({
                        let d = old(self).tokens.accounts@[debit_key@];
                        &&& credit_key@ != debit_key@
                        &&& credit_key@ != escrow_key@
                        &&& buyer_token_key@ != escrow_key@
                        &&& buyer_token_key@ != debit_key@
                        &&& buyer_token_key@ != credit_key@
                        &&& escrow_key@ != debit_key@
                        &&& (old(self).tokens.accounts@.dom().contains(credit_key@) ==> ({
                            let c = old(self).tokens.accounts@[credit_key@];
                            &&& c.mint@ == d.mint@
                            &&& c.owner@ == pm.market@
                            &&& c.amount + price <= u64::MAX
                        }))
                        &&& (old(self).tokens.accounts@.dom().contains(buyer_token_key@) ==> ({
                            let b = old(self).tokens.accounts@[buyer_token_key@];
                            &&& b.mint@ == item.nft_mint@
                            &&& b.owner@ == buyer@
                            &&& b.amount + 1 <= u64::MAX
                        }))
                    })
                })
            }),
        ensures
            final(self).wf(),
            ({
                let item = old(self).buckets@[item_key@];
                let pm = old(self).price_models@[item.price_model@];
                let e = old(self).tokens.accounts@[escrow_key@];
                let mint = old(self).tokens.accounts@[debit_key@].mint@;
                if e.mint@ != item.nft_mint@ || e.owner@ != collection_key@ || e.amount != 1 {
                    r == Err::<(), ErrorCode>(ErrorCode::InvalidEscrow) && *final(self) == *old(
                        self,
                    )
                } else {
                    match spec_find_price(pm.sale_prices@, mint) {
                    Option::None => {
                        r == Err::<(), ErrorCode>(ErrorCode::InvalidPurchaseMint) && *final(self)
                            == *old(self)
                    },
                    Option::Some(price) => {
                        if old(self).tokens.accounts@[debit_key@].amount < price {
                            r == Err::<(), ErrorCode>(ErrorCode::InsufficientFunds)
                                && *final(self) == *old(self)
                        } else {
                        let pv = item.prev_list_item@;
                        let nx = item.next_list_item@;
                        &&& r == Ok::<(), ErrorCode>(())
                        &&& final(self).buckets@.dom() == old(self).buckets@.dom().remove(
                            item_key@,
                        )
                        &&& ({
                            let p1 = old(self).buckets@[pv];
                            let p2 = final(self).buckets@[pv];
                            &&& p2.nonce == p1.nonce
                            &&& p2.nft_mint == p1.nft_mint
                            &&& p2.price_model == p1.price_model
                            &&& p2.prev_list_item == p1.prev_list_item
                            &&& p2.next_list_item == item.next_list_item
                            &&& p2.payer == p1.payer
                        })
                        &&& ({
                            let n1 = old(self).buckets@[nx];
                            let n2 = final(self).buckets@[nx];
                            &&& n2.nonce == n1.nonce
                            &&& n2.nft_mint == n1.nft_mint
                            &&& n2.price_model == n1.price_model
                            &&& n2.prev_list_item == item.prev_list_item
                            &&& n2.next_list_item == n1.next_list_item
                            &&& n2.payer == n1.payer
                        })
                        &&& forall|k: Seq<u8>|
                            k != pv && k != nx && k != item_key@ && old(
                                self,
                            ).buckets@.dom().contains(k) ==> final(self).buckets@[k]
                                == #[trigger] old(self).buckets@[k]
                        &&& final(self).tokens.accounts@.dom() == old(
                            self,
                        ).tokens.accounts@.dom().insert(credit_key@).insert(
                            buyer_token_key@,
                        ).remove(escrow_key@)
                        &&& ({
                            let d1 = old(self).tokens.accounts@[debit_key@];
                            let d2 = final(self).tokens.accounts@[debit_key@];
                            &&& d2.mint == d1.mint
                            &&& d2.owner == d1.owner
                            &&& d2.amount == d1.amount - price
                        })
                        &&& ({
                            let c2 = final(self).tokens.accounts@[credit_key@];
                            &&& c2.mint@ == mint
                            &&& c2.owner@ == pm.market@
                            &&& c2.amount == (if old(self).tokens.accounts@.dom().contains(
                                credit_key@,
                            ) {
                                old(self).tokens.accounts@[credit_key@].amount + price
                            } else {
                                price as int
                            })
                        })
                        &&& ({
                            let b2 = final(self).tokens.accounts@[buyer_token_key@];
                            &&& b2.mint@ == item.nft_mint@
                            &&& b2.owner@ == buyer@
                            &&& b2.amount == (if old(self).tokens.accounts@.dom().contains(
                                buyer_token_key@,
                            ) {
                                old(self).tokens.accounts@[buyer_token_key@].amount + 1
                            } else {
                                1
                            })
                        })
                        &&& forall|k: Seq<u8>|
                            k != debit_key@ && k != credit_key@ && k != escrow_key@ && k
                                != buyer_token_key@ && old(
                                self,
                            ).tokens.accounts@.dom().contains(k)
                                ==> final(self).tokens.accounts@[k] == #[trigger] old(
                                self,
                            ).tokens.accounts@[k]
                        &&& final(self).global == old(self).global
                        &&& final(self).markets == old(self).markets
                        &&& final(self).collections == old(self).collections
                        &&& final(self).price_models == old(self).price_models
                        }
                    },
                    }
                }
            }),
    {
        let item: NftBucket;
        match self.buckets.get(item_key) {
            Some(b) => {
                item = *b;
            },
            None => {
                return vstd::pervasive::unreached();
            },
        }
        let escrow_ok: bool;
        match self.tokens.account(escrow_key) {
            Some(e) => {
                escrow_ok = key_eq(&e.mint, &item.nft_mint) && key_eq(&e.owner, collection_key)
                    && e.amount == 1;
            },
            None => {
                return vstd::pervasive::unreached();
            },
        }
        if !escrow_ok {
            return Err(ErrorCode::InvalidEscrow);
        }
        let debit_mint: Key;
        let debit_amount: u64;
        match self.tokens.account(debit_key) {
            Some(a) => {
                debit_mint = a.mint;
                debit_amount = a.amount;
            },
            None => {
                return vstd::pervasive::unreached();
            },
        }
        let pm_market: Key;
        let price_opt: Option<u64>;
        match self.price_models.get(&item.price_model) {
            Some(p) => {
                pm_market = p.market;
                price_opt = p.find_price(&debit_mint);
            },
            None => {
                return vstd::pervasive::unreached();
            },
        }
        let price: u64;
        match price_opt {
            Some(a) => {
                price = a;
            },
            None => {
                return Err(ErrorCode::InvalidPurchaseMint);
            },
        }
        if debit_amount < price {
            return Err(ErrorCode::InsufficientFunds);
        }
        let ghost mut ck0: Seq<u8> = Seq::empty();
        let ghost mut i0: int = 0;
        proof {
            let (c, i) = lemma_locate_node(
                self.collections@,
                self.buckets@,
                self.chains@,
                item_key@,
            );
            ck0 = c;
            i0 = i;
        }
        // collect the payment
        if !self.tokens.accounts.contains_key(&credit_key) {
            self.tokens.open_account(credit_key, debit_mint, pm_market);
        }
        self.tokens.transfer(debit_key, &credit_key, price);
        // hand over the asset and close its escrow
        if !self.tokens.accounts.contains_key(&buyer_token_key) {
            self.tokens.open_account(buyer_token_key, item.nft_mint, *buyer);
        }
        self.tokens.transfer(escrow_key, &buyer_token_key, 1);
        self.tokens.close_account(escrow_key);
        // unlink the node
        let prev_key = item.prev_list_item;
        let next_key = item.next_list_item;
        let mut p: NftBucket;
        match self.buckets.get(&prev_key) {
            Some(b) => {
                p = *b;
            },
            None => {
                return vstd::pervasive::unreached();
            },
        }
        p.next_list_item = next_key;
        let _ = self.buckets.replace(&prev_key, p);
        let mut n: NftBucket;
        match self.buckets.get(&next_key) {
            Some(b) => {
                n = *b;
            },
            None => {
                return vstd::pervasive::unreached();
            },
        }
        n.prev_list_item = prev_key;
        let _ = self.buckets.replace(&next_key, n);
        let _ = self.buckets.remove_take(item_key);
        let ghost chains2 = self.chains@.insert(ck0, old(self).chains@[ck0].remove(i0));
        self.chains = Ghost(chains2);
        proof {
            let p2v = self.buckets@[prev_key@];
            let n2v = self.buckets@[next_key@];
            lemma_links_remove_node(
                old(self).collections@,
                old(self).buckets@,
                old(self).chains@,
                ck0,
                i0,
                p2v,
                n2v,
            );
            assert(self.buckets@.dom() =~= old(self).buckets@.dom().remove(item_key@));
            assert(self.tokens.accounts@.dom() =~= old(self).tokens.accounts@.dom().insert(
                credit_key@,
            ).insert(buyer_token_key@).remove(escrow_key@));
        }
        Ok(())
    }

    /// Moves collected payments out of a market's escrow into an admin's
    /// account, signed by the market's derived authority. Only an admin
    /// may call; the move is bounded only by the escrow balance. On
    /// failure nothing changes.
    pub fn withdraw_liquidity(
        &mut self,
        market_key: &Key,
        caller: &Key,
        debit_key: &Key,
        credit_key: Key,
        amount: u64,
    ) -> (r: Result<(), ErrorCode>)
        requires
            old(self).wf(),
            old(self).markets@.dom().contains(market_key@),
            old(self).tokens.accounts@.dom().contains(debit_key@),
            old(self).tokens.accounts@[debit_key@].owner@ == market_key@,
            old(self).tokens.accounts@[debit_key@].amount >= amount,
            credit_key@ != debit_key@,
            old(self).tokens.accounts@.dom().contains(credit_key@) ==> ({
                let c = old(self).tokens.accounts@[credit_key@];
                &&& c.mint@ == old(self).tokens.accounts@[debit_key@].mint@
                &&& c.owner@ == caller@
                &&& c.amount + amount <= u64::MAX
            }),
        ensures
            final(self).wf(),
            ({
                let m = old(self).markets@[market_key@];
                if !m.spec_is_admin(caller@) {
                    r == Err::<(), ErrorCode>(ErrorCode::Unauthorized) && *final(self) == *old(
                        self,
                    )
                } else {
                    let d1 = old(self).tokens.accounts@[debit_key@];
                    &&& r == Ok::<(), ErrorCode>(())
                    &&& final(self).tokens.accounts@.dom() == old(
                        self,
                    ).tokens.accounts@.dom().insert(credit_key@)
                    &&& ({
                        let d2 = final(self).tokens.accounts@[debit_key@];
                        &&& d2.mint == d1.mint
                        &&& d2.owner == d1.owner
                        &&& d2.amount == d1.amount - amount
                    })
                    &&& ({
                        let c2 = final(self).tokens.accounts@[credit_key@];
                        &&& c2.mint@ == d1.mint@
                        &&& c2.owner@ == caller@
                        &&& c2.amount == (if old(self).tokens.accounts@.dom().contains(
                            credit_key@,
                        ) {
                            old(self).tokens.accounts@[credit_key@].amount + amount
                        } else {
                            amount as int
                        })
                    })
                    &&& forall|k: Seq<u8>|
                        k != debit_key@ && k != credit_key@ && old(
                            self,
                        ).tokens.accounts@.dom().contains(k) ==> final(self).tokens.accounts@[k]
                            == #[trigger] old(self).tokens.accounts@[k]
                    &&& final(self).global == old(self).global
                    &&& final(self).markets == old(self).markets
                    &&& final(self).collections == old(self).collections
                    &&& final(self).price_models == old(self).price_models
                    &&& final(self).buckets == old(self).buckets
                    &&& final(self).chains == old(self).chains
                }
            }),
    {
        let authorized: bool;
        match self.markets.get(market_key) {
            Some(m) => {
                authorized = key_vec_contains(&m.whitelist, caller);
            },
            None => {
                return vstd::pervasive::unreached();
            },
        }
        if !authorized {
            return Err(ErrorCode::Unauthorized);
        }
        let mint: Key;
        match self.tokens.account(debit_key) {
            Some(a) => {
                mint = a.mint;
            },
            None => {
                return vstd::pervasive::unreached();
            },
        }
        if !self.tokens.accounts.contains_key(&credit_key) {
            self.tokens.open_account(credit_key, mint, *caller);
        }
        self.tokens.transfer(debit_key, &credit_key, amount);
        proof {
            assert(self.tokens.accounts@.dom() =~= old(self).tokens.accounts@.dom().insert(
                credit_key@,
            ));
        }
        Ok(())
    }
}

/// A copy of `v` with every entry equal to `k` dropped; the survivors keep
/// their relative order.
pub fn filter_out_key(v: &Vec<Key>, k: &Key) -> (r: Vec<Key>)
    ensures
        r.deep_view() == v.deep_view().filter(|x: Seq<u8>| x != k@),
        r@.len() <= v@.len(),
{
    let ghost s = v.deep_view();
    let ghost pred = |x: Seq<u8>| x != k@;
    let mut out: Vec<Key> = Vec::new();
    let mut i: usize = 0;
    proof {
        assert(s.take(0) =~= Seq::<Seq<u8>>::empty());
        reveal(Seq::filter);
    }
    while i < v.len()
        invariant
            0 <= i <= v.len(),
            s == v.deep_view(),
            s.len() == v.len(),
            out.deep_view() == s.take(i as int).filter(pred),
            out@.len() <= i,
            pred == (|x: Seq<u8>| x != k@),
        decreases v.len() - i,
    {
        proof {
            reveal(Seq::filter);
            assert(s.take(i + 1).drop_last() =~= s.take(i as int));
            assert(s.take(i + 1).last() == s[i as int]);
        }
        if !key_eq(&v[i], k) {
            out.push(v[i]);
            proof {
                assert(v@[i as int]@ == s[i as int]);
                assert(out.deep_view() =~= s.take(i as int).filter(pred).push(s[i as int]));
                assert(s.take(i + 1).filter(pred) == s.take(i as int).filter(pred).push(
                    s[i as int],
                ));
            }
        } else {
            proof {
                assert(v@[i as int]@ == s[i as int]);
                assert(!pred(s[i as int]));
                assert(s.take(i + 1).filter(pred) == s.take(i as int).filter(pred));
            }
        }
        i += 1;
    }
    proof {
        assert(s.take(v.len() as int) =~= s);
    }
    out
}


/// Law: in a well-formed ledger every collection's chain runs from its
/// head sentinel to its tail sentinel as one acyclic doubly-linked
/// sequence with consistent back-pointers; every ledger operation
/// preserves this.
pub proof fn lemma_collection_chain_terminates(l: Ledger, ck: Seq<u8>)
    requires
        l.wf(),
        l.collections@.dom().contains(ck),
    ensures
        l.chains@.dom().contains(ck),
        crate::chain::chain_ok(l.buckets@, l.chains@[ck]),
        l.chains@[ck][0] == l.collections@[ck].list_head@,
        l.chains@[ck][l.chains@[ck].len() - 1] == l.collections@[ck].list_tail@,
{
    lemma_linked_facts(l.collections@, l.buckets@, l.chains@, ck);
}

/// Law: in a well-formed ledger every market's whitelist is non-empty
/// and never exceeds the cap; every ledger operation preserves this.
pub proof fn lemma_whitelist_bounded(l: Ledger, mk: Seq<u8>)
    requires
        l.wf(),
        l.markets@.dom().contains(mk),
    ensures
        1 <= l.markets@[mk].whitelist@.len() <= ADMIN_WHITELIST_MAX_LEN,
{
}

} // verus!

