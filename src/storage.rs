//! Account balances held in ink!'s storage `HashMap`.
use vstd::prelude::*;

verus! {

/// The account identifier of ink!'s default environment: 32 opaque bytes,
/// compared for equality only.
#[verifier::external_type_specification]
#[verifier::external_body]
pub struct ExAccountId(ink_env::AccountId);

/// A balance, in the asset's smallest unit.
pub type Balance = u128;

/// The balances of all accounts that ever held an entry, in an
/// `ink_storage::collections::HashMap` that is not bound to a storage key,
/// so that every entry lives in the map's own cache.
#[verifier::external_body]
pub struct BalanceStore {
    map: ink_storage::collections::HashMap<ink_env::AccountId, Balance>,
}

/// What a `BalanceStore` holds: each account with an entry, and its balance.
pub uninterp spec fn stored(s: BalanceStore) -> Map<ink_env::AccountId, Balance>;

/// The map with no entries.
pub open spec fn no_entries() -> Map<ink_env::AccountId, Balance> {
    Map::empty()
}

impl BalanceStore {
    /// Relies on `ink_storage::collections::HashMap::new`: a map with no entries.
    #[verifier::external_body]
    pub(crate) fn empty() -> (r: BalanceStore)
        ensures
            stored(r) == no_entries(),
    {
        BalanceStore { map: ink_storage::collections::HashMap::new() }
    }

    /// Relies on `ink_storage::collections::HashMap::insert`: the entry of `key`
    /// becomes `value`, and every other entry stays as it was.
    #[verifier::external_body]
    pub(crate) fn put(&mut self, key: ink_env::AccountId, value: Balance)
        ensures
            stored(*final(self)) == stored(*old(self)).insert(key, value),
    {
        self.map.insert(key, value);
    }

    /// Relies on `ink_storage::collections::HashMap::get`: the value of the
    /// entry of `key`, or `None` where it has none.
    #[verifier::external_body]
    pub(crate) fn lookup(&self, key: &ink_env::AccountId) -> (r: Option<Balance>)
        ensures
            r == (if stored(*self).contains_key(*key) {
                Some(stored(*self)[*key])
            } else {
                None::<Balance>
            }),
    {
        self.map.get(key).copied()
    }
}

} // verus!
