use vstd::prelude::*;

use crate::key::Key;
use crate::kmap::KeyMap;

verus! {

/// One fungible-token account: the currency it holds, the authority that
/// may move its balance, and the balance itself.
#[derive(Clone, Copy)]
pub struct TokenAccount {
    pub mint: Key,
    pub owner: Key,
    pub amount: u64,
}

/// The fungible-token collaborator, modelled as its own arena of token
/// accounts. The ledger moves value through the three primitives below and
/// never touches a balance any other way.
pub struct TokenLedger {
    pub accounts: KeyMap<TokenAccount>,
}

impl TokenLedger {
    pub open spec fn wf(&self) -> bool {
        self.accounts.wf()
    }

    pub fn new() -> (r: TokenLedger)
        ensures
            r.wf(),
            r.accounts@ == Map::<Seq<u8>, TokenAccount>::empty(),
    {
        TokenLedger { accounts: KeyMap::new() }
    }

    /// The account at `key`, if one exists.
    pub fn account(&self, key: &Key) -> (r: Option<&TokenAccount>)
        requires
            self.wf(),
        ensures
            match r {
                Some(a) => self.accounts@.dom().contains(key@) && *a == self.accounts@[key@],
                None => !self.accounts@.dom().contains(key@),
            },
    {
        self.accounts.get(key)
    }

    /// Opens a fresh, empty account for `owner` in currency `mint`.
    pub fn open_account(&mut self, key: Key, mint: Key, owner: Key)
        requires
            old(self).wf(),
            !old(self).accounts@.dom().contains(key@),
        ensures
            final(self).wf(),
            final(self).accounts@ == old(self).accounts@.insert(
                key@,
                (TokenAccount { mint, owner, amount: 0 }),
            ),
    {
        self.accounts.insert(key, TokenAccount { mint, owner, amount: 0 });
    }

    /// Credits an account from outside the ledger: the collaborator's
    /// mint-to operation, used to fund accounts before they trade.
    pub fn deposit(&mut self, key: &Key, amount: u64)
        requires
            old(self).wf(),
            old(self).accounts@.dom().contains(key@),
            old(self).accounts@[key@].amount + amount <= u64::MAX,
        ensures
            final(self).wf(),
            final(self).accounts@ == old(self).accounts@.insert(
                key@,
                (TokenAccount {
                    mint: old(self).accounts@[key@].mint,
                    owner: old(self).accounts@[key@].owner,
                    amount: (old(self).accounts@[key@].amount + amount) as u64,
                }),
            ),
    {
        let a = self.accounts.remove_take(key);
        self.accounts.insert(
            *key,
            TokenAccount { mint: a.mint, owner: a.owner, amount: a.amount + amount },
        );
        proof {
            assert(final(self).accounts@ =~= old(self).accounts@.insert(
                key@,
                (TokenAccount {
                    mint: old(self).accounts@[key@].mint,
                    owner: old(self).accounts@[key@].owner,
                    amount: (old(self).accounts@[key@].amount + amount) as u64,
                }),
            ));
        }
    }

    /// Moves `amount` from one account to another of the same currency.
    pub fn transfer(&mut self, from: &Key, to: &Key, amount: u64)
        requires
            old(self).wf(),
            old(self).accounts@.dom().contains(from@),
            old(self).accounts@.dom().contains(to@),
            from@ != to@,
            old(self).accounts@[from@].amount >= amount,
            old(self).accounts@[to@].amount + amount <= u64::MAX,
            old(self).accounts@[to@].mint@ == old(self).accounts@[from@].mint@,
        ensures
            final(self).wf(),
            final(self).accounts@ == old(self).accounts@.insert(
                from@,
                (TokenAccount {
                    mint: old(self).accounts@[from@].mint,
                    owner: old(self).accounts@[from@].owner,
                    amount: (old(self).accounts@[from@].amount - amount) as u64,
                }),
            ).insert(
                to@,
                (TokenAccount {
                    mint: old(self).accounts@[to@].mint,
                    owner: old(self).accounts@[to@].owner,
                    amount: (old(self).accounts@[to@].amount + amount) as u64,
                }),
            ),
    {
        let f = self.accounts.remove_take(from);
        self.accounts.insert(
            *from,
            TokenAccount { mint: f.mint, owner: f.owner, amount: f.amount - amount },
        );
        let t = self.accounts.remove_take(to);
        self.accounts.insert(
            *to,
            TokenAccount { mint: t.mint, owner: t.owner, amount: t.amount + amount },
        );
        proof {
            assert(final(self).accounts@ =~= old(self).accounts@.insert(
                from@,
                (TokenAccount {
                    mint: old(self).accounts@[from@].mint,
                    owner: old(self).accounts@[from@].owner,
                    amount: (old(self).accounts@[from@].amount - amount) as u64,
                }),
            ).insert(
                to@,
                (TokenAccount {
                    mint: old(self).accounts@[to@].mint,
                    owner: old(self).accounts@[to@].owner,
                    amount: (old(self).accounts@[to@].amount + amount) as u64,
                }),
            ));
        }
    }

    /// Closes an emptied account; its storage rent returns to the payer
    /// outside this model.
    pub fn close_account(&mut self, key: &Key)
        requires
            old(self).wf(),
            old(self).accounts@.dom().contains(key@),
            old(self).accounts@[key@].amount == 0,
        ensures
            final(self).wf(),
            final(self).accounts@ == old(self).accounts@.remove(key@),
    {
        let _ = self.accounts.remove_take(key);
    }
}

} // verus!
