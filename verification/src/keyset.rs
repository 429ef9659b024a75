//! Sets of account keys.

use crate::le::{get_u64_le, le_u64_at, lemma_u64_write_back};
use crate::pubkey::{lemma_pubkey_len, Pubkey};
use crate::types::control::keys_view;
use std::collections::{HashMap, HashSet};
use vstd::prelude::*;

verus! {

broadcast use vstd::std_specs::hash::group_hash_axioms;

/// A set of keys: each key once in a list, and for the number in the first half
/// of a key the numbers in the second halves of the keys that begin with it.
#[derive(Debug)]
pub struct KeySet {
    keys: Vec<Pubkey>,
    halves: HashMap<u128, HashSet<u128>>,
}

impl View for KeySet {
    type V = Set<Seq<u8>>;

    closed spec fn view(&self) -> Set<Seq<u8>> {
        keys_view(self.keys@).to_set()
    }
}

/// The number that 16 bytes from `at` on stand for, the lowest byte first.
spec fn half(b: Seq<u8>, at: int) -> u128 {
    (le_u64_at(b, at) + 0x1_0000_0000_0000_0000 * le_u64_at(b, at + 8)) as u128
}

/// The number that 16 bytes from `at` on stand for.
fn half_at(bytes: &[u8], at: usize) -> (n: u128)
    requires
        at + 16 <= bytes@.len(),
        at <= 16,
    ensures
        n == half(bytes@, at as int),
{
    let low: u64 = get_u64_le(bytes, at);
    let high: u64 = get_u64_le(bytes, at + 8);
    low as u128 + 0x1_0000_0000_0000_0000 * (high as u128)
}

/// Two keys with the same halves are the same.
proof fn lemma_halves_tell_apart(a: Seq<u8>, b: Seq<u8>)
    requires
        a.len() == 32,
        b.len() == 32,
        half(a, 0) == half(b, 0),
        half(a, 16) == half(b, 16),
    ensures
        a == b,
{
    assert(le_u64_at(a, 0) == le_u64_at(b, 0) && le_u64_at(a, 8) == le_u64_at(b, 8));
    assert(le_u64_at(a, 16) == le_u64_at(b, 16) && le_u64_at(a, 24) == le_u64_at(b, 24));
    lemma_u64_write_back(a, 0);
    lemma_u64_write_back(a, 8);
    lemma_u64_write_back(a, 16);
    lemma_u64_write_back(a, 24);
    lemma_u64_write_back(b, 0);
    lemma_u64_write_back(b, 8);
    lemma_u64_write_back(b, 16);
    lemma_u64_write_back(b, 24);
    assert forall|i: int| 0 <= i < 32 implies a[i] == b[i] by {
        if i < 8 {
            assert(a[i] == a.subrange(0, 8)[i] && b[i] == b.subrange(0, 8)[i]);
        } else if i < 16 {
            assert(a[i] == a.subrange(8, 16)[i - 8] && b[i] == b.subrange(8, 16)[i - 8]);
        } else if i < 24 {
            assert(a[i] == a.subrange(16, 24)[i - 16] && b[i] == b.subrange(16, 24)[i - 16]);
        } else {
            assert(a[i] == a.subrange(24, 32)[i - 24] && b[i] == b.subrange(24, 32)[i - 24]);
        }
    }
    assert(a =~= b);
}

/// Whether the halves are among the noted ones.
spec fn noted(halves: Map<u128, HashSet<u128>>, first: u128, second: u128) -> bool {
    halves.contains_key(first) && halves[first]@.contains(second)
}

/// Whether a key of the list has the halves.
spec fn listed(keys: Seq<Pubkey>, first: u128, second: u128) -> bool {
    exists|i: int|
        0 <= i < keys.len() && half((#[trigger] keys[i])@, 0) == first && half(keys[i]@, 16)
            == second
}

/// No key occurs twice.
spec fn distinct(keys: Seq<Pubkey>) -> bool {
    forall|i: int, j: int| 0 <= i < j < keys.len() ==> keys[i]@ != keys[j]@
}

/// Of distinct keys there are as many as the sequence is long.
proof fn lemma_distinct_len(keys: Seq<Pubkey>)
    requires
        distinct(keys),
    ensures
        keys_view(keys).to_set().finite(),
        keys_view(keys).to_set().len() == keys.len(),
{
    let s = keys_view(keys);
    assert(s.no_duplicates()) by {
        assert forall|i: int, j: int|
            0 <= i < s.len() && 0 <= j < s.len() && i != j implies s[i] != s[j] by {
            if i < j {
                assert(keys[i]@ != keys[j]@);
            } else {
                assert(keys[j]@ != keys[i]@);
            }
        }
    }
    s.unique_seq_to_set();
}

/// A key is in the list just if its halves are those of a key in the list.
proof fn lemma_listed(keys: Seq<Pubkey>, key: Pubkey)
    ensures
        listed(keys, half(key@, 0), half(key@, 16)) == keys_view(keys).to_set().contains(key@),
{
    if listed(keys, half(key@, 0), half(key@, 16)) {
        let i = choose|i: int|
            0 <= i < keys.len() && half((#[trigger] keys[i])@, 0) == half(key@, 0) && half(
                keys[i]@,
                16,
            ) == half(key@, 16);
        lemma_pubkey_len(keys[i]);
        lemma_pubkey_len(key);
        lemma_halves_tell_apart(keys[i]@, key@);
        assert(keys_view(keys)[i] == key@);
    }
    if keys_view(keys).to_set().contains(key@) {
        let i = choose|i: int| 0 <= i < keys.len() && keys_view(keys)[i] == key@;
        assert(keys[i]@ == key@);
    }
}

/// One more key joins the set.
proof fn lemma_push_key(keys: Seq<Pubkey>, key: Pubkey)
    ensures
        keys_view(keys.push(key)).to_set() == keys_view(keys).to_set().insert(key@),
{
    let before = keys_view(keys);
    let after = keys_view(keys.push(key));
    assert(after =~= before.push(key@));
    assert forall|k: Seq<u8>| after.to_set().contains(k) == before.to_set().insert(key@).contains(
        k,
    ) by {
        if before.contains(k) {
            let i = choose|i: int| 0 <= i < before.len() && before[i] == k;
            assert(after[i] == k);
        }
        if k == key@ {
            assert(after[before.len() as int] == k);
        }
        if after.contains(k) && k != key@ {
            let i = choose|i: int| 0 <= i < after.len() && after[i] == k;
            assert(before[i] == k);
        }
    }
    assert(after.to_set() =~= before.to_set().insert(key@));
}

impl KeySet {
    #[verifier::type_invariant]
    spec fn inv(self) -> bool {
        &&& distinct(self.keys@)
        &&& forall|first: u128, second: u128| #[trigger]
            noted(self.halves@, first, second) == listed(self.keys@, first, second)
    }

    /// The set without keys.
    pub fn new() -> (s: KeySet)
        ensures
            s@ == Set::<Seq<u8>>::empty(),
    {
        let s = KeySet { keys: Vec::new(), halves: HashMap::new() };
        assert(s@ =~= Set::<Seq<u8>>::empty());
        s
    }

    /// Whether the key is in the set.
    pub fn contains(&self, key: &Pubkey) -> (r: bool)
        ensures
            r == self@.contains(key@),
    {
        let bytes = key.as_slice();
        let first: u128 = half_at(bytes, 0);
        let second: u128 = half_at(bytes, 16);
        proof {
            use_type_invariant(self);
            lemma_listed(self.keys@, *key);
            assert(noted(self.halves@, first, second) == listed(self.keys@, first, second));
        }
        match self.halves.get(&first) {
            Some(seconds) => seconds.contains(&second),
            None => false,
        }
    }

    /// Adds the key, and says whether it is new.
    pub fn insert(&mut self, key: Pubkey) -> (r: bool)
        ensures
            final(self)@ == old(self)@.insert(key@),
            r == !old(self)@.contains(key@),
    {
        if self.contains(&key) {
            assert(self@ =~= old(self)@.insert(key@));
            return false;
        }
        proof {
            use_type_invariant(&*self);
        }
        let mut taken = KeySet::new();
        std::mem::swap(self, &mut taken);
        let KeySet { mut keys, mut halves } = taken;
        let ghost keys0 = keys@;
        let ghost halves0 = halves@;
        let bytes = key.as_slice();
        let first: u128 = half_at(bytes, 0);
        let second: u128 = half_at(bytes, 16);
        let mut seconds: HashSet<u128> = match halves.remove(&first) {
            Some(seconds) => seconds,
            None => HashSet::new(),
        };
        seconds.insert(second);
        halves.insert(first, seconds);
        keys.push(key);
        proof {
            lemma_push_key(keys0, key);
            assert forall|f: u128, s: u128| #[trigger] noted(halves@, f, s) == listed(
                keys@,
                f,
                s,
            ) by {
                assert(noted(halves0, f, s) == listed(keys0, f, s));
                if listed(keys0, f, s) {
                    let i = choose|i: int|
                        0 <= i < keys0.len() && half((#[trigger] keys0[i])@, 0) == f && half(
                            keys0[i]@,
                            16,
                        ) == s;
                    assert(keys@[i] == keys0[i]);
                }
                if f == first && s == second {
                    assert(keys@[keys0.len() as int] == key);
                }
                if listed(keys@, f, s) && !(f == first && s == second) {
                    let i = choose|i: int|
                        0 <= i < keys@.len() && half((#[trigger] keys@[i])@, 0) == f && half(
                            keys@[i]@,
                            16,
                        ) == s;
                    assert(keys0[i] == keys@[i]);
                }
            }
            assert forall|i: int, j: int| 0 <= i < j < keys@.len() implies keys@[i]@
                != keys@[j]@ by {
                if j == keys0.len() {
                    assert(keys_view(keys0)[i] == keys0[i]@);
                }
            }
        }
        *self = KeySet { keys, halves };
        true
    }

    /// How many keys there are.
    pub fn len(&self) -> (n: usize)
        ensures
            self@.finite(),
            n == self@.len(),
    {
        proof {
            use_type_invariant(self);
            lemma_distinct_len(self.keys@);
        }
        self.keys.len()
    }

    /// Whether there are no keys.
    pub fn is_empty(&self) -> (r: bool)
        ensures
            r == (self@ == Set::<Seq<u8>>::empty()),
    {
        let r = self.keys.len() == 0;
        proof {
            if r {
                assert(self@ =~= Set::<Seq<u8>>::empty());
            } else {
                assert(keys_view(self.keys@)[0] == self.keys@[0]@);
                assert(self@.contains(self.keys@[0]@));
            }
        }
        r
    }

    /// The keys, each once.
    pub fn as_slice(&self) -> (keys: &[Pubkey])
        ensures
            keys_view(keys@).to_set() == self@,
            keys@.len() == self@.len(),
    {
        proof {
            use_type_invariant(self);
            lemma_distinct_len(self.keys@);
        }
        self.keys.as_slice()
    }

    /// Adds all the keys.
    pub fn extend(&mut self, keys: &[Pubkey])
        ensures
            final(self)@ == old(self)@.union(keys_view(keys@).to_set()),
    {
        let mut k: usize = 0;
        assert(self@ =~= old(self)@.union(keys_view(keys@.take(0)).to_set()));
        while k < keys.len()
            invariant
                k <= keys@.len(),
                self@ == old(self)@.union(keys_view(keys@.take(k as int)).to_set()),
            decreases keys@.len() - k,
        {
            proof {
                let taken = keys@.take(k as int);
                lemma_push_key(taken, keys@[k as int]);
                assert(keys@.take(k as int + 1) =~= taken.push(keys@[k as int]));
            }
            self.insert(keys[k]);
            k += 1;
            assert(self@ =~= old(self)@.union(keys_view(keys@.take(k as int)).to_set()));
        }
        assert(keys@.take(k as int) =~= keys@);
    }
}

impl Clone for KeySet {
    fn clone(&self) -> (r: KeySet)
        ensures
            r@ == self@,
    {
        let mut r = KeySet::new();
        r.extend(self.keys.as_slice());
        assert(r@ =~= self@);
        r
    }
}

} // verus!
