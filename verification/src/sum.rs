//! Sums of the amounts held in a map, and how they move when the map changes.

use vstd::prelude::*;

use crate::string_map::{distinct_keys, lemma_to_map_dom, to_map, StringMap};

verus! {

/// The sum of all amounts in a finite map.
pub open spec fn sum(m: Map<Seq<char>, u128>) -> nat
    decreases m.dom().len(),
    when m.dom().finite()
{
    if m.dom().len() == 0 {
        0
    } else {
        let k = m.dom().choose();
        m[k] as nat + sum(m.remove(k))
    }
}

/// The amount under a key, or zero where the key is absent.
pub open spec fn amount(m: Map<Seq<char>, u128>, k: Seq<char>) -> u128 {
    if m.contains_key(k) {
        m[k]
    } else {
        0
    }
}

/// The sum of the amounts of a sequence of entries.
pub open spec fn seq_sum(s: Seq<(Seq<char>, u128)>) -> nat
    decreases s.len(),
{
    if s.len() == 0 {
        0
    } else {
        seq_sum(s.drop_last()) + s.last().1 as nat
    }
}

/// Any one key can be split off a sum.
pub proof fn lemma_sum_remove(m: Map<Seq<char>, u128>, k: Seq<char>)
    requires
        m.dom().finite(),
        m.contains_key(k),
    ensures
        sum(m) == m[k] as nat + sum(m.remove(k)),
    decreases m.dom().len(),
{
    let c = m.dom().choose();
    if c != k {
        lemma_sum_remove(m.remove(c), k);
        lemma_sum_remove(m.remove(k), c);
        assert(m.remove(c).remove(k) == m.remove(k).remove(c));
    }
}

/// Writing an amount under a key replaces that key's share of the sum.
pub proof fn lemma_sum_insert(m: Map<Seq<char>, u128>, k: Seq<char>, v: u128)
    requires
        m.dom().finite(),
    ensures
        sum(m.insert(k, v)) + amount(m, k) == sum(m) + v,
        sum(m.insert(k, v)) == sum(m.remove(k)) + v,
{
    lemma_sum_remove(m.insert(k, v), k);
    assert(m.insert(k, v).remove(k) == m.remove(k));
    if m.contains_key(k) {
        lemma_sum_remove(m, k);
    } else {
        assert(m.remove(k) == m);
    }
}

/// No amount in a map exceeds the sum.
pub proof fn lemma_sum_bounds(m: Map<Seq<char>, u128>, k: Seq<char>)
    requires
        m.dom().finite(),
    ensures
        amount(m, k) <= sum(m),
{
    if m.contains_key(k) {
        lemma_sum_remove(m, k);
    }
}

/// A map that holds nothing but zeros sums to zero.
pub proof fn lemma_sum_zero(m: Map<Seq<char>, u128>)
    requires
        m.dom().finite(),
        forall|k: Seq<char>| m.contains_key(k) ==> m[k] == 0,
    ensures
        sum(m) == 0,
    decreases m.dom().len(),
{
    if m.dom().len() > 0 {
        let k = m.dom().choose();
        lemma_sum_zero(m.remove(k));
    }
}

/// With distinct keys, the entries sum to what their map sums to.
pub proof fn lemma_seq_sum(s: Seq<(Seq<char>, u128)>)
    requires
        distinct_keys(s),
    ensures
        seq_sum(s) == sum(to_map(s)),
    decreases s.len(),
{
    if s.len() == 0 {
        assert(to_map(s).dom() == Set::<Seq<char>>::empty());
    } else {
        let t = s.drop_last();
        assert(distinct_keys(t));
        lemma_seq_sum(t);
        lemma_to_map_dom(t);
        assert(!to_map(t).contains_key(s.last().0)) by {
            if to_map(t).contains_key(s.last().0) {
                let j = choose|j: int| 0 <= j < t.len() && #[trigger] t[j].0 == s.last().0;
                assert(s[j].0 == s[s.len() - 1].0);
            }
        }
        lemma_sum_insert(to_map(t), s.last().0, s.last().1);
    }
}

impl StringMap<u128> {
    /// The sum of all amounts in the map, unless it exceeds what a `u128` holds.
    pub fn checked_sum(&self) -> (r: Option<u128>)
        ensures
            match r {
                Some(t) => t == sum(self@),
                None => sum(self@) > u128::MAX,
            },
    {
        let n = self.len();
        let mut acc: u128 = 0;
        let mut i: usize = 0;
        proof {
            lemma_seq_sum(self.entries());
            self.lemma_view();
        }
        while i < n
            invariant
                i <= n,
                n == self.entries().len(),
                acc == seq_sum(self.entries().take(i as int)),
                seq_sum(self.entries()) == sum(self@),
            decreases n - i,
        {
            let amount = match self.entry(i) {
                Some((_, v)) => *v,
                None => 0,
            };
            proof {
                let s = self.entries();
                assert(s.take(i + 1).drop_last() == s.take(i as int));
                assert(s.take(i + 1).last() == s[i as int]);
                lemma_seq_sum_prefix(s, i + 1);
            }
            match acc.checked_add(amount) {
                Some(next) => {
                    acc = next;
                },
                None => {
                    return None;
                },
            }
            i += 1;
        }
        assert(self.entries().take(n as int) == self.entries());
        Some(acc)
    }
}

/// A prefix of the entries sums to no more than all of them.
pub proof fn lemma_seq_sum_prefix(s: Seq<(Seq<char>, u128)>, n: int)
    requires
        0 <= n <= s.len(),
    ensures
        seq_sum(s.take(n)) <= seq_sum(s),
    decreases s.len(),
{
    if n < s.len() {
        let t = s.drop_last();
        lemma_seq_sum_prefix(t, n);
        assert(t.take(n) == s.take(n));
    } else {
        assert(s.take(n) == s);
    }
}

} // verus!
