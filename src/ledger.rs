use vstd::prelude::*;

verus! {

/// The key of a token account: (owner, mint).
pub type AccountKey = (u64, u64);

/// Balance of `owner` in `mint` under a balance map; an absent account holds nothing.
pub open spec fn balance_in(m: Map<AccountKey, u64>, owner: u64, mint: u64) -> nat {
    if m.contains_key((owner, mint)) {
        m[(owner, mint)] as nat
    } else {
        0
    }
}

/// `m` after `amount` units of `mint` were added to `owner`'s account.
pub open spec fn credited(m: Map<AccountKey, u64>, owner: u64, mint: u64, amount: u64) -> Map<AccountKey, u64> {
    m.insert((owner, mint), (balance_in(m, owner, mint) + amount) as u64)
}

/// `m` after `amount` units of `mint` were taken from `owner`'s account.
pub open spec fn debited(m: Map<AccountKey, u64>, owner: u64, mint: u64, amount: u64) -> Map<AccountKey, u64> {
    m.insert((owner, mint), (balance_in(m, owner, mint) - amount) as u64)
}

/// One asset-holding account.
#[derive(Clone, Copy, Debug)]
pub struct TokenAccount {
    pub owner: u64,
    pub mint: u64,
    pub amount: u64,
}

pub open spec fn account_key(a: TokenAccount) -> AccountKey {
    (a.owner, a.mint)
}

/// All token accounts, at most one per (owner, mint). Its view maps each
/// existing account's key to its balance.
pub struct TokenLedger {
    accounts: Vec<TokenAccount>,
    balances: Ghost<Map<AccountKey, u64>>,
}

impl View for TokenLedger {
    type V = Map<AccountKey, u64>;

    closed spec fn view(&self) -> Map<AccountKey, u64> {
        self.balances@
    }
}

impl TokenLedger {
    pub closed spec fn wf(&self) -> bool {
        &&& forall|i: int, j: int|
            0 <= i < j < self.accounts@.len() ==> account_key(self.accounts@[i]) != account_key(
                self.accounts@[j],
            )
        &&& forall|i: int|
            #![trigger self.accounts@[i]]
            0 <= i < self.accounts@.len() ==> {
                &&& self.balances@.contains_key(account_key(self.accounts@[i]))
                &&& self.balances@[account_key(self.accounts@[i])] == self.accounts@[i].amount
            }
        &&& forall|k: AccountKey|
            #![trigger self.balances@.contains_key(k)]
            self.balances@.contains_key(k) ==> exists|i: int|
                0 <= i < self.accounts@.len() && account_key(self.accounts@[i]) == k
    }

    pub fn new() -> (r: Self)
        ensures
            r.wf(),
            r@ == Map::<AccountKey, u64>::empty(),
    {
        TokenLedger { accounts: Vec::new(), balances: Ghost(Map::empty()) }
    }

    fn find(&self, owner: u64, mint: u64) -> (r: Option<usize>)
        requires
            self.wf(),
        ensures
            match r {
                Some(i) => i < self.accounts@.len() && account_key(self.accounts@[i as int]) == (
                owner,
                mint,
                ),
                None => !self@.contains_key((owner, mint)),
            },
    {
        let mut i: usize = 0;
        while i < self.accounts.len()
            invariant
                self.wf(),
                i <= self.accounts@.len(),
                forall|j: int| 0 <= j < i ==> account_key(self.accounts@[j]) != (owner, mint),
            decreases self.accounts@.len() - i,
        {
            if self.accounts[i].owner == owner && self.accounts[i].mint == mint {
                return Some(i);
            }
            i = i + 1;
        }
        None
    }

    /// The balance of `owner` in `mint`; zero where no such account exists.
    pub fn balance(&self, owner: u64, mint: u64) -> (r: u64)
        requires
            self.wf(),
        ensures
            r as nat == balance_in(self@, owner, mint),
    {
        match self.find(owner, mint) {
            Some(i) => self.accounts[i].amount,
            None => 0,
        }
    }

    /// Stores `amount` as the balance of `owner` in `mint`, creating the
    /// account where it does not exist yet.
    fn set_balance(&mut self, owner: u64, mint: u64, amount: u64)
        requires
            old(self).wf(),
        ensures
            final(self).wf(),
            final(self)@ == old(self)@.insert((owner, mint), amount),
    {
        let ghost old_balances = self.balances@;
        match self.find(owner, mint) {
            Some(i) => {
                self.accounts.set(i, TokenAccount { owner, mint, amount });
                self.balances = Ghost(self.balances@.insert((owner, mint), amount));
                assert forall|k: AccountKey| #[trigger] self.balances@.contains_key(k) implies exists|j: int|
                    0 <= j < self.accounts@.len() && account_key(self.accounts@[j]) == k by {
                    if k != (owner, mint) {
                        assert(old_balances.contains_key(k));
                        let j = choose|j: int|
                            0 <= j < old(self).accounts@.len() && account_key(old(self).accounts@[j]) == k;
                        assert(account_key(self.accounts@[j]) == k);
                    } else {
                        assert(account_key(self.accounts@[i as int]) == k);
                    }
                }
            },
            None => {
                self.accounts.push(TokenAccount { owner, mint, amount });
                self.balances = Ghost(self.balances@.insert((owner, mint), amount));
                let ghost last = self.accounts@.len() - 1;
                assert forall|k: AccountKey| #[trigger] self.balances@.contains_key(k) implies exists|j: int|
                    0 <= j < self.accounts@.len() && account_key(self.accounts@[j]) == k by {
                    if k != (owner, mint) {
                        assert(old_balances.contains_key(k));
                        let j = choose|j: int|
                            0 <= j < old(self).accounts@.len() && account_key(old(self).accounts@[j]) == k;
                        assert(account_key(self.accounts@[j]) == k);
                    } else {
                        assert(account_key(self.accounts@[last]) == k);
                    }
                }
            },
        }
    }

    /// Adds `amount` to `owner`'s balance in `mint`.
    pub fn credit(&mut self, owner: u64, mint: u64, amount: u64)
        requires
            old(self).wf(),
            balance_in(old(self)@, owner, mint) + amount <= u64::MAX,
        ensures
            final(self).wf(),
            final(self)@ == credited(old(self)@, owner, mint, amount),
    {
        let current = self.balance(owner, mint);
        self.set_balance(owner, mint, current + amount);
    }

    /// Takes `amount` from `owner`'s balance in `mint`.
    pub fn debit(&mut self, owner: u64, mint: u64, amount: u64)
        requires
            old(self).wf(),
            balance_in(old(self)@, owner, mint) >= amount,
        ensures
            final(self).wf(),
            final(self)@ == debited(old(self)@, owner, mint, amount),
    {
        let current = self.balance(owner, mint);
        self.set_balance(owner, mint, current - amount);
    }
}

} // verus!
