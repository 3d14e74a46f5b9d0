//! The ledger: construction, the two queries, and transfer.
use vstd::prelude::*;

use crate::storage::{stored, Balance, BalanceStore};
use crate::sum::{
    balance_in, ledger_sum, lemma_ledger_sum_insert, lemma_sum_nonneg, lemma_sum_remove,
    lemma_two_balances_le_sum,
};

verus! {

/// A record of a balance movement: `from` is `None` where the value came into
/// being at construction.
#[derive(Clone, Copy, Debug, PartialEq, Eq)]
pub struct Transfer {
    pub from: Option<ink_env::AccountId>,
    pub to: Option<ink_env::AccountId>,
    pub value: Balance,
}

/// The balances after `value` has left `from` and then reached `to`: the
/// credit reads the balance that the debit left, so that a transfer to
/// oneself changes nothing.
pub open spec fn moved(
    m: Map<ink_env::AccountId, u128>,
    from: ink_env::AccountId,
    to: ink_env::AccountId,
    value: u128,
) -> Map<ink_env::AccountId, u128> {
    let debited = m.insert(from, (balance_in(m, from) - value) as u128);
    debited.insert(to, (balance_in(debited, to) + value) as u128)
}

/// A fungible token ledger with a supply fixed at construction.
pub struct Token {
    balances: BalanceStore,
    total_supply: Balance,
    owner: ink_env::AccountId,
}

impl Token {
    /// The balance entries: accounts without one hold zero.
    pub closed spec fn balances(&self) -> Map<ink_env::AccountId, u128> {
        stored(self.balances)
    }

    /// The total supply fixed at construction.
    pub closed spec fn supply(&self) -> nat {
        self.total_supply as nat
    }

    /// The account that constructed the ledger.
    pub closed spec fn owner(&self) -> ink_env::AccountId {
        self.owner
    }

    /// The balance of `a`.
    pub open spec fn balance(&self, a: ink_env::AccountId) -> nat {
        balance_in(self.balances(), a)
    }

    /// The entries are finitely many and their balances add up to the supply.
    pub open spec fn wf(&self) -> bool {
        &&& self.balances().dom().finite()
        &&& ledger_sum(self.balances()) == self.supply()
    }

    /// A ledger in which `caller` holds the whole `initial_supply`; the
    /// genesis notification is appended to `events`.
    pub fn new(caller: ink_env::AccountId, initial_supply: Balance, events: &mut Vec<Transfer>) -> (r: Self)
        ensures
            r.wf(),
            r.supply() == initial_supply,
            r.owner() == caller,
            r.balances() == map![caller => initial_supply],
            r.balance(caller) == initial_supply,
            forall|a: ink_env::AccountId| a != caller ==> r.balance(a) == 0,
            final(events)@ == old(events)@.push((Transfer { from: None, to: Some(caller), value: initial_supply })),
    {
        let mut balances = BalanceStore::empty();
        balances.put(caller, initial_supply);
        events.push(Transfer { from: None, to: Some(caller), value: initial_supply });
        let r = Token { balances, total_supply: initial_supply, owner: caller };
        proof {
            assert(r.balances() =~= map![caller => initial_supply]);
            lemma_ledger_sum_insert(Map::empty(), caller, initial_supply);
        }
        r
    }

    /// The total supply.
    pub fn total_supply(&self) -> (r: Balance)
        ensures
            r == self.supply(),
    {
        self.total_supply
    }

    /// The balance of `owner`: zero for an account without an entry.
    pub fn balance_of(&self, owner: ink_env::AccountId) -> (r: Balance)
        ensures
            r == self.balance(owner),
            !self.balances().contains_key(owner) ==> r == 0,
    {
        match self.balances.lookup(&owner) {
            Some(b) => b,
            None => 0,
        }
    }

    /// Moves `value` from `caller` to `to`. Where `caller` holds less than
    /// `value` nothing changes and the result is `false`; otherwise the
    /// balances change as `moved` says, a notification is appended to
    /// `events`, and the result is `true`.
    pub fn transfer(
        &mut self,
        caller: ink_env::AccountId,
        to: ink_env::AccountId,
        value: Balance,
        events: &mut Vec<Transfer>,
    ) -> (r: bool)
        requires
            old(self).wf(),
        ensures
            final(self).wf(),
            r == (value <= old(self).balance(caller)),
            final(self).supply() == old(self).supply(),
            ledger_sum(final(self).balances()) == ledger_sum(old(self).balances()),
            final(self).owner() == old(self).owner(),
            r ==> final(self).balances() == moved(old(self).balances(), caller, to, value),
            r ==> final(events)@ == old(events)@.push((Transfer { from: Some(caller), to: Some(to), value })),
            !r ==> *final(self) == *old(self),
            !r ==> final(events)@ == old(events)@,
            final(self).balance(caller) + final(self).balance(to) == old(self).balance(caller) + old(self).balance(to),
            forall|a: ink_env::AccountId| a != caller && a != to ==> final(self).balance(a) == old(self).balance(a),
            r && caller != to ==> final(self).balance(caller) == old(self).balance(caller) - value,
            r && caller != to ==> final(self).balance(to) == old(self).balance(to) + value,
            caller == to ==> final(self).balance(caller) == old(self).balance(caller),
    {
        let sender_balance = self.balance_of(caller);
        if sender_balance < value {
            return false;
        }
        proof {
            let m = self.balances();
            lemma_ledger_sum_insert(m, caller, (sender_balance - value) as u128);
            if caller != to {
                lemma_two_balances_le_sum(m, caller, to);
            }
        }
        self.balances.put(caller, sender_balance - value);
        let receiver_balance = self.balance_of(to);
        proof {
            lemma_ledger_sum_insert(self.balances(), to, (receiver_balance + value) as u128);
        }
        self.balances.put(to, receiver_balance + value);
        events.push(Transfer { from: Some(caller), to: Some(to), value });
        true
    }
}

/// In a well-formed ledger every balance lies between zero and the total
/// supply, whatever the account.
pub proof fn lemma_balance_within_supply(t: &Token, a: ink_env::AccountId)
    requires
        t.wf(),
    ensures
        0 <= t.balance(a) <= t.supply(),
{
    let m = t.balances();
    if m.contains_key(a) {
        lemma_sum_remove(m, m.dom(), a);
        lemma_sum_nonneg(m, m.dom().remove(a));
    }
}

} // verus!
