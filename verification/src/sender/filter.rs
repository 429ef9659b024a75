//! Which updates a subscriber gets.

use crate::bloom::{
    bloom_add, bloom_contains, bloom_hits, bloom_new, bloom_shape, BloomParams, KeyBloom,
};
use crate::keyset::KeySet;
use crate::pubkey::Pubkey;
use crate::types::account::{AccountModel, AccountUpdate};
use crate::types::control::{keys_view, SubscriptionModel, SubscriptionRequest};
use vstd::prelude::*;

verus! {

/// Filters for more keys than this ask the bloom filter first.
pub const BLOOM_FAST_REJECT_ABOVE: usize = 16;

/// What a subscriber asked for so far.
pub struct FilterModel {
    pub account_pubkeys: Set<Seq<u8>>,
    pub account_owners: Set<Seq<u8>>,
    pub include_transactions: bool,
}

impl FilterModel {
    /// What the first request of a subscriber asks for.
    pub open spec fn of_request(request: SubscriptionModel) -> FilterModel {
        FilterModel {
            account_pubkeys: request.account_pubkeys.to_set(),
            account_owners: request.account_owners.to_set(),
            include_transactions: request.include_transactions,
        }
    }

    /// What is asked for once a further request has come: nothing is taken back.
    pub open spec fn with_request(self, request: SubscriptionModel) -> FilterModel {
        FilterModel {
            account_pubkeys: self.account_pubkeys.union(request.account_pubkeys.to_set()),
            account_owners: self.account_owners.union(request.account_owners.to_set()),
            include_transactions: self.include_transactions || request.include_transactions,
        }
    }

    /// Whether the subscriber gets the account update.
    pub open spec fn matches_account(self, update: AccountModel) -> bool {
        ||| self.account_pubkeys.contains(update.account_pubkey)
        ||| self.account_owners.contains(update.account_owner)
    }

    /// How many keys were asked for, at least one, as many as fit in a `usize`.
    pub open spec fn bloom_items(self) -> usize {
        let n = self.account_pubkeys.len() + self.account_owners.len();
        if n == 0 {
            1
        } else if n > usize::MAX {
            usize::MAX
        } else {
            n as usize
        }
    }
}

/// What a subscriber asked for, made ready for quick answers.
#[derive(Debug)]
pub struct SubscriptionFilter {
    pub account_pubkeys: KeySet,
    pub account_owners: KeySet,
    pub bloom: KeyBloom,
    pub include_transactions: bool,
    single_pubkey: Option<Pubkey>,
    single_owner: Option<Pubkey>,
    use_bloom_fast_reject: bool,
}

impl View for SubscriptionFilter {
    type V = FilterModel;

    closed spec fn view(&self) -> FilterModel {
        FilterModel {
            account_pubkeys: self.account_pubkeys@,
            account_owners: self.account_owners@,
            include_transactions: self.include_transactions,
        }
    }
}

/// The key is the only one of the set, or the set does not have just one.
spec fn is_single(single: Option<Pubkey>, keys: Set<Seq<u8>>) -> bool {
    match single {
        Some(key) => keys == Set::<Seq<u8>>::empty().insert(key@),
        None => keys.len() != 1,
    }
}

/// The key of a set of one.
fn single_of(keys: &KeySet) -> (single: Option<Pubkey>)
    ensures
        is_single(single, keys@),
{
    if keys.len() == 1 {
        let slice = keys.as_slice();
        let key = slice[0];
        proof {
            assert forall|k: Seq<u8>| keys@.contains(k) == (k == key@) by {
                if keys@.contains(k) {
                    assert(keys_view(slice@).contains(k));
                }
                if k == key@ {
                    assert(keys_view(slice@)[0] == k);
                }
            }
            assert(keys@ =~= Set::<Seq<u8>>::empty().insert(key@));
        }
        Some(key)
    } else {
        None
    }
}

/// Adds all keys of the set to the filter.
fn add_all(bloom: &mut KeyBloom, keys: &KeySet)
    ensures
        bloom_hits(*old(bloom)).union(keys@).subset_of(bloom_hits(*final(bloom))),
        bloom_shape(*final(bloom)) == bloom_shape(*old(bloom)),
{
    let slice = keys.as_slice();
    let mut k: usize = 0;
    while k < slice.len()
        invariant
            k <= slice@.len(),
            bloom_hits(*old(bloom)).subset_of(bloom_hits(*bloom)),
            bloom_shape(*bloom) == bloom_shape(*old(bloom)),
            forall|j: int| 0 <= j < k ==> bloom_hits(*bloom).contains(#[trigger] slice@[j]@),
        decreases slice@.len() - k,
    {
        let ghost before = bloom_hits(*bloom);
        bloom_add(bloom, &slice[k].to_bytes());
        proof {
            assert forall|j: int| 0 <= j < k + 1 implies bloom_hits(*bloom).contains(
                #[trigger] slice@[j]@,
            ) by {
                assert(before.insert(slice@[k as int]@).contains(slice@[j]@));
            }
        }
        k += 1;
    }
    proof {
        assert forall|x: Seq<u8>| bloom_hits(*old(bloom)).union(keys@).contains(x) implies bloom_hits(
            *bloom,
        ).contains(x) by {
            if keys@.contains(x) {
                assert(keys_view(slice@).contains(x));
                let j = choose|j: int| 0 <= j < slice@.len() && keys_view(slice@)[j] == x;
                assert(slice@[j]@ == x);
            }
        }
    }
}

impl SubscriptionFilter {
    /// The shortcuts agree with the sets.
    pub closed spec fn wf(self) -> bool {
        &&& is_single(self.single_pubkey, self.account_pubkeys@)
        &&& is_single(self.single_owner, self.account_owners@)
        &&& self.use_bloom_fast_reject == (self.account_pubkeys@.len() + self.account_owners@.len()
            > BLOOM_FAST_REJECT_ABOVE)
        &&& self.account_pubkeys@.union(self.account_owners@).subset_of(bloom_hits(self.bloom))
    }

    /// The bloom filter was made from this.
    pub closed spec fn has_bloom(self, params: BloomParams) -> bool {
        bloom_shape(self.bloom) == (params.num_bits as nat, params.hash_keys@)
    }

    /// The filter for the given keys. What its bloom filter is made from,
    /// `make_bloom` says, given the number of keys.
    pub fn from_sets<F: FnOnce(usize) -> BloomParams>(
        account_pubkeys: KeySet,
        account_owners: KeySet,
        include_transactions: bool,
        make_bloom: F,
    ) -> (r: SubscriptionFilter)
        requires
            forall|n: usize| n > 0 ==> call_requires(make_bloom, (n,)),
            forall|n: usize, p: BloomParams| #[trigger]
                call_ensures(make_bloom, (n,), p) ==> p.valid(),
        ensures
            r.wf(),
            r@ == (FilterModel {
                account_pubkeys: account_pubkeys@,
                account_owners: account_owners@,
                include_transactions,
            }),
            exists|p: BloomParams| #[trigger]
                call_ensures(make_bloom, (r@.bloom_items(),), p) && r.has_bloom(p),
    {
        let requested_items: usize = account_pubkeys.len().saturating_add(account_owners.len());
        let items: usize = if requested_items == 0 {
            1
        } else {
            requested_items
        };
        let params = make_bloom(items);
        let mut bloom = bloom_new(params);
        add_all(&mut bloom, &account_pubkeys);
        let ghost hits = bloom_hits(bloom);
        add_all(&mut bloom, &account_owners);
        proof {
            assert forall|x: Seq<u8>|
                account_pubkeys@.union(account_owners@).contains(x) implies bloom_hits(
                bloom,
            ).contains(x) by {
                if account_pubkeys@.contains(x) {
                    assert(hits.contains(x));
                }
                assert(hits.union(account_owners@).contains(x));
            }
        }
        let single_pubkey = single_of(&account_pubkeys);
        let single_owner = single_of(&account_owners);
        let r = SubscriptionFilter {
            account_pubkeys,
            account_owners,
            bloom,
            include_transactions,
            single_pubkey,
            single_owner,
            use_bloom_fast_reject: requested_items > BLOOM_FAST_REJECT_ABOVE,
        };
        assert(call_ensures(make_bloom, (r@.bloom_items(),), params)) by {
            assert(r@.bloom_items() == items);
        }
        r
    }

    /// The filter for a subscriber's first request. A key that is named twice
    /// counts once.
    pub fn from_request<F: FnOnce(usize) -> BloomParams>(
        request: &SubscriptionRequest,
        make_bloom: F,
    ) -> (r: SubscriptionFilter)
        requires
            forall|n: usize| n > 0 ==> call_requires(make_bloom, (n,)),
            forall|n: usize, p: BloomParams| #[trigger]
                call_ensures(make_bloom, (n,), p) ==> p.valid(),
        ensures
            r.wf(),
            r@ == FilterModel::of_request(request@),
            exists|p: BloomParams| #[trigger]
                call_ensures(make_bloom, (r@.bloom_items(),), p) && r.has_bloom(p),
    {
        let mut account_pubkeys = KeySet::new();
        let mut account_owners = KeySet::new();
        account_pubkeys.extend(request.account_pubkeys.as_slice());
        account_owners.extend(request.account_owners.as_slice());
        assert(account_pubkeys@ =~= request@.account_pubkeys.to_set());
        assert(account_owners@ =~= request@.account_owners.to_set());
        SubscriptionFilter::from_sets(
            account_pubkeys,
            account_owners,
            request.include_transactions,
            make_bloom,
        )
    }

    /// The filter once a further request has come.
    pub fn with_request<F: FnOnce(usize) -> BloomParams>(
        &self,
        request: &SubscriptionRequest,
        make_bloom: F,
    ) -> (r: SubscriptionFilter)
        requires
            forall|n: usize| n > 0 ==> call_requires(make_bloom, (n,)),
            forall|n: usize, p: BloomParams| #[trigger]
                call_ensures(make_bloom, (n,), p) ==> p.valid(),
        ensures
            r.wf(),
            r@ == self@.with_request(request@),
            exists|p: BloomParams| #[trigger]
                call_ensures(make_bloom, (r@.bloom_items(),), p) && r.has_bloom(p),
    {
        let mut account_pubkeys = self.account_pubkeys.clone();
        let mut account_owners = self.account_owners.clone();
        account_pubkeys.extend(request.account_pubkeys.as_slice());
        account_owners.extend(request.account_owners.as_slice());
        SubscriptionFilter::from_sets(
            account_pubkeys,
            account_owners,
            self.include_transactions || request.include_transactions,
            make_bloom,
        )
    }

    /// The keys that were asked for.
    pub fn account_pubkeys(&self) -> (keys: &KeySet)
        ensures
            keys@ == self@.account_pubkeys,
    {
        &self.account_pubkeys
    }

    /// The owners that were asked for.
    pub fn account_owners(&self) -> (keys: &KeySet)
        ensures
            keys@ == self@.account_owners,
    {
        &self.account_owners
    }

    /// Whether the subscriber gets the account update: by its key or by its
    /// owner, and exactly then, whatever the bloom filter mistakes.
    pub fn matches_account(&self, update: &AccountUpdate) -> (r: bool)
        requires
            self.wf(),
        ensures
            r == self@.matches_account(update@),
    {
        match (self.single_pubkey, self.single_owner) {
            (Some(pubkey), None) => {
                if self.account_owners.is_empty() {
                    return pubkey.same(&update.account_pubkey);
                }
            },
            (None, Some(owner)) => {
                if self.account_pubkeys.is_empty() {
                    return owner.same(&update.account_owner);
                }
            },
            (Some(pubkey), Some(owner)) => {
                return pubkey.same(&update.account_pubkey) || owner.same(&update.account_owner);
            },
            (None, None) => {},
        }
        if self.use_bloom_fast_reject {
            let maybe_pubkey = bloom_contains(&self.bloom, &update.account_pubkey.to_bytes());
            let maybe_owner = bloom_contains(&self.bloom, &update.account_owner.to_bytes());
            if !maybe_pubkey && !maybe_owner {
                return false;
            }
        }
        self.account_pubkeys.contains(&update.account_pubkey) || self.account_owners.contains(
            &update.account_owner,
        )
    }

    /// Whether the subscriber gets transactions.
    pub fn matches_transaction(&self) -> (r: bool)
        ensures
            r == self@.include_transactions,
    {
        self.include_transactions
    }
}

/// A filter from a request that names no key matches no account.
pub proof fn law_empty_filter_matches_nothing(request: SubscriptionModel, update: AccountModel)
    requires
        request.account_pubkeys.len() == 0,
        request.account_owners.len() == 0,
    ensures
        !FilterModel::of_request(request).matches_account(update),
{
}

/// A filter from a request matches the accounts with a key or an owner that the
/// request names.
pub proof fn law_filter_matches_what_was_named(request: SubscriptionModel, update: AccountModel)
    ensures
        FilterModel::of_request(request).matches_account(update) == (
        request.account_pubkeys.contains(update.account_pubkey)
            || request.account_owners.contains(update.account_owner)),
{
}

/// A further request adds what it names, takes nothing back, and keeps a
/// subscription to transactions.
pub proof fn law_further_request_only_adds(
    filter: FilterModel,
    request: SubscriptionModel,
    update: AccountModel,
)
    ensures
        filter.with_request(request).matches_account(update) == (filter.matches_account(update)
            || FilterModel::of_request(request).matches_account(update)),
        filter.with_request(request).include_transactions == (filter.include_transactions
            || request.include_transactions),
{
}

} // verus!
