//! Signed 64-bit balances keyed by compressed public keys. Entries are kept
//! with unique keys; an unseen key reads as 0. Arithmetic on a balance wraps
//! around in two's complement, as a signed 64-bit register does.
use vstd::prelude::*;

use crate::bytes::bytes_equal;

verus! {

/// The balance that `m` records for `key`, 0 when it records none.
pub open spec fn amount_in(m: Map<Seq<u8>, i64>, key: Seq<u8>) -> i64 {
    if m.contains_key(key) {
        m[key]
    } else {
        0
    }
}

/// `v` reduced into the signed 64-bit range, for values at most one turn away.
pub open spec fn wrap_i64(v: int) -> i64 {
    (if v > i64::MAX {
        v - 0x1_0000_0000_0000_0000
    } else if v < i64::MIN {
        v + 0x1_0000_0000_0000_0000
    } else {
        v
    }) as i64
}

/// A balance after receiving `amount`.
pub open spec fn credit(balance: i64, amount: u64) -> i64 {
    wrap_i64(balance + amount)
}

/// A balance after paying `amount`.
pub open spec fn debit(balance: i64, amount: u64) -> i64 {
    wrap_i64(balance - amount)
}

/// Receives `amount` into `balance`.
pub fn credited(balance: i64, amount: u64) -> (r: i64)
    ensures
        r == credit(balance, amount),
{
    let v: i128 = balance as i128 + amount as i128;
    if v > i64::MAX as i128 {
        (v - 0x1_0000_0000_0000_0000i128) as i64
    } else {
        v as i64
    }
}

/// Pays `amount` out of `balance`.
pub fn debited(balance: i64, amount: u64) -> (r: i64)
    ensures
        r == debit(balance, amount),
{
    let v: i128 = balance as i128 - amount as i128;
    if v < i64::MIN as i128 {
        (v + 0x1_0000_0000_0000_0000i128) as i64
    } else {
        v as i64
    }
}

/// The map that a list of entries stands for; a later entry wins.
pub open spec fn map_of(entries: Seq<([u8; 33], i64)>) -> Map<Seq<u8>, i64>
    decreases entries.len(),
{
    if entries.len() == 0 {
        Map::empty()
    } else {
        map_of(entries.drop_last()).insert(entries.last().0@, entries.last().1)
    }
}

/// No key occurs twice.
pub open spec fn keys_unique(entries: Seq<([u8; 33], i64)>) -> bool {
    forall|i: int, j: int|
        0 <= i < j < entries.len() ==> (#[trigger] entries[i]).0@ != (#[trigger] entries[j]).0@
}

proof fn lemma_absent(entries: Seq<([u8; 33], i64)>, key: Seq<u8>)
    requires
        forall|j: int| 0 <= j < entries.len() ==> (#[trigger] entries[j]).0@ != key,
    ensures
        !map_of(entries).contains_key(key),
    decreases entries.len(),
{
    if entries.len() > 0 {
        let rest = entries.drop_last();
        assert forall|j: int| 0 <= j < rest.len() implies (#[trigger] rest[j]).0@ != key by {
            assert(rest[j] == entries[j]);
        }
        lemma_absent(rest, key);
    }
}

proof fn lemma_at(entries: Seq<([u8; 33], i64)>, j: int)
    requires
        keys_unique(entries),
        0 <= j < entries.len(),
    ensures
        map_of(entries).contains_key(entries[j].0@),
        map_of(entries)[entries[j].0@] == entries[j].1,
    decreases entries.len(),
{
    if j < entries.len() - 1 {
        let rest = entries.drop_last();
        assert(rest[j] == entries[j]);
        assert(entries[j].0@ != entries[entries.len() - 1].0@);
        assert(keys_unique(rest)) by {
            assert forall|a: int, b: int| 0 <= a < b < rest.len() implies (#[trigger] rest[a]).0@
                != (#[trigger] rest[b]).0@ by {
                assert(rest[a] == entries[a] && rest[b] == entries[b]);
            }
        }
        lemma_at(rest, j);
    }
}

proof fn lemma_update(entries: Seq<([u8; 33], i64)>, j: int, value: i64)
    requires
        keys_unique(entries),
        0 <= j < entries.len(),
    ensures
        map_of(entries.update(j, (entries[j].0, value))) == map_of(entries).insert(
            entries[j].0@,
            value,
        ),
    decreases entries.len(),
{
    let updated = entries.update(j, (entries[j].0, value));
    let rest = entries.drop_last();
    if j == entries.len() - 1 {
        assert(updated.drop_last() =~= rest);
        assert(map_of(updated) =~= map_of(entries).insert(entries[j].0@, value));
    } else {
        assert(updated.drop_last() =~= rest.update(j, (entries[j].0, value)));
        assert(rest[j] == entries[j]);
        assert(keys_unique(rest)) by {
            assert forall|a: int, b: int| 0 <= a < b < rest.len() implies (#[trigger] rest[a]).0@
                != (#[trigger] rest[b]).0@ by {
                assert(rest[a] == entries[a] && rest[b] == entries[b]);
            }
        }
        lemma_update(rest, j, value);
        assert(entries[j].0@ != entries[entries.len() - 1].0@);
        assert(map_of(updated) =~= map_of(entries).insert(entries[j].0@, value));
    }
}

/// The balance book of a ledger.
pub struct Balances {
    entries: Vec<([u8; 33], i64)>,
}

impl View for Balances {
    type V = Map<Seq<u8>, i64>;

    closed spec fn view(&self) -> Map<Seq<u8>, i64> {
        map_of(self.entries@)
    }
}

impl Balances {
    pub closed spec fn wf(&self) -> bool {
        keys_unique(self.entries@)
    }

    /// An empty book: every key reads as 0.
    pub fn new() -> (r: Self)
        ensures
            r.wf(),
            r@ == Map::<Seq<u8>, i64>::empty(),
    {
        Balances { entries: Vec::new() }
    }

    fn find(&self, key: &[u8; 33]) -> (r: Option<usize>)
        ensures
            match r {
                Some(j) => j < self.entries@.len() && self.entries@[j as int].0@ == key@,
                None => forall|j: int|
                    0 <= j < self.entries@.len() ==> (#[trigger] self.entries@[j]).0@ != key@,
            },
    {
        let mut i: usize = 0;
        while i < self.entries.len()
            invariant
                i <= self.entries@.len(),
                forall|j: int| 0 <= j < i ==> (#[trigger] self.entries@[j]).0@ != key@,
            decreases self.entries@.len() - i,
        {
            if bytes_equal(self.entries[i].0.as_slice(), key.as_slice()) {
                return Some(i);
            }
            i = i + 1;
        }
        None
    }

    /// The balance recorded for `key`, 0 when none is.
    pub fn get(&self, key: &[u8; 33]) -> (r: i64)
        requires
            self.wf(),
        ensures
            r == amount_in(self@, key@),
    {
        match self.find(key) {
            Some(j) => {
                proof {
                    lemma_at(self.entries@, j as int);
                }
                self.entries[j].1
            },
            None => {
                proof {
                    lemma_absent(self.entries@, key@);
                }
                0
            },
        }
    }

    /// Records `value` as the balance of `key`.
    pub fn set(&mut self, key: &[u8; 33], value: i64)
        requires
            old(self).wf(),
        ensures
            final(self).wf(),
            final(self)@ == old(self)@.insert(key@, value),
    {
        match self.find(key) {
            Some(j) => {
                let k = self.entries[j].0;
                proof {
                    lemma_update(self.entries@, j as int, value);
                }
                self.entries.set(j, (k, value));
            },
            None => {
                self.entries.push((*key, value));
                assert(self.entries@.drop_last() == old(self).entries@);
            },
        }
    }
}

} // verus!
