//! The donors of a proposal in the order of what they gave, largest first.

use vstd::prelude::*;
use vstd::seq_lib::to_multiset_build;

use crate::string_map::{distinct_keys, lemma_to_map_dom, to_map, StringMap};

verus! {

/// One line of the leaderboard: a donor and what the donor gave.
pub struct ProposalDonateAsObject {
    pub account: String,
    pub doate_balance: u128,
}

impl View for ProposalDonateAsObject {
    type V = (Seq<char>, u128);

    open spec fn view(&self) -> (Seq<char>, u128) {
        (self.account@, self.doate_balance)
    }
}

impl Clone for ProposalDonateAsObject {
    fn clone(&self) -> (r: Self)
        ensures
            r@ == self@,
    {
        ProposalDonateAsObject { account: self.account.clone(), doate_balance: self.doate_balance }
    }
}

/// No line is followed by one with a larger amount.
pub open spec fn is_descending(s: Seq<(Seq<char>, u128)>) -> bool {
    forall|i: int, j: int| 0 <= i < j < s.len() ==> s[i].1 >= s[j].1
}

/// A descending sequence with one more line, put behind every line that is
/// not smaller.
pub open spec fn insert_desc(t: Seq<(Seq<char>, u128)>, e: (Seq<char>, u128)) -> Seq<
    (Seq<char>, u128),
>
    decreases t.len(),
{
    if t.len() == 0 {
        seq![e]
    } else if t.last().1 >= e.1 {
        t.push(e)
    } else {
        insert_desc(t.drop_last(), e).push(t.last())
    }
}

/// The lines in descending order of their amounts; lines with the same
/// amount keep the order they came in.
pub open spec fn sorted_desc(s: Seq<(Seq<char>, u128)>) -> Seq<(Seq<char>, u128)>
    decreases s.len(),
{
    if s.len() == 0 {
        Seq::empty()
    } else {
        insert_desc(sorted_desc(s.drop_last()), s.last())
    }
}

/// The part of a sequence that a page shows: up to `limit` lines from the
/// position `from` on; nothing where `from` lies behind the end.
pub open spec fn window<T>(s: Seq<T>, from: int, limit: int) -> Seq<T> {
    let start = if from < s.len() {
        from
    } else {
        s.len() as int
    };
    let end = if from + limit < s.len() {
        from + limit
    } else {
        s.len() as int
    };
    s.subrange(start, end)
}

/// Putting a line into a descending sequence keeps it descending and adds
/// exactly that line.
pub proof fn lemma_insert_desc(t: Seq<(Seq<char>, u128)>, e: (Seq<char>, u128))
    requires
        is_descending(t),
    ensures
        is_descending(insert_desc(t, e)),
        insert_desc(t, e).len() == t.len() + 1,
        insert_desc(t, e).to_multiset() == t.to_multiset().insert(e),
        forall|k: int|
            0 <= k < insert_desc(t, e).len() ==> (#[trigger] insert_desc(t, e)[k]) == e || (exists|
                m: int,
            |
                0 <= m < t.len() && t[m] == insert_desc(t, e)[k]),
    decreases t.len(),
{
    let r = insert_desc(t, e);
    if t.len() == 0 {
        to_multiset_build(t, e);
        assert(t.push(e) == seq![e]);
    } else if t.last().1 >= e.1 {
        to_multiset_build(t, e);
        assert forall|k: int| 0 <= k < r.len() implies (#[trigger] r[k]) == e || (exists|m: int|
            0 <= m < t.len() && t[m] == r[k]) by {
            if k < t.len() {
                assert(t[k] == r[k]);
            }
        }
    } else {
        let u = t.drop_last();
        assert(is_descending(u));
        lemma_insert_desc(u, e);
        let v = insert_desc(u, e);
        to_multiset_build(v, t.last());
        to_multiset_build(u, t.last());
        assert(u.push(t.last()) == t);
        assert(u.to_multiset().insert(e).insert(t.last()) == u.to_multiset().insert(
            t.last(),
        ).insert(e));
        assert forall|k: int| 0 <= k < r.len() implies (#[trigger] r[k]) == e || (exists|m: int|
            0 <= m < t.len() && t[m] == r[k]) by {
            if k < v.len() {
                assert(r[k] == v[k]);
                if v[k] != e {
                    let m = choose|m: int| 0 <= m < u.len() && u[m] == v[k];
                    assert(t[m] == r[k]);
                }
            } else {
                assert(t[t.len() - 1] == r[k]);
            }
        }
        assert forall|i: int, j: int| 0 <= i < j < r.len() implies r[i].1 >= r[j].1 by {
            if j < v.len() {
                assert(r[i] == v[i] && r[j] == v[j]);
            } else {
                assert(r[i] == v[i]);
                if v[i] != e {
                    let m = choose|m: int| 0 <= m < u.len() && u[m] == v[i];
                    assert(t[m].1 >= t[t.len() - 1].1);
                }
            }
        }
    }
}

/// The sorted lines are in descending order, and they are the lines that
/// were handed in, each as often as it was.
pub proof fn lemma_sorted_desc(s: Seq<(Seq<char>, u128)>)
    ensures
        is_descending(sorted_desc(s)),
        sorted_desc(s).len() == s.len(),
        sorted_desc(s).to_multiset() == s.to_multiset(),
    decreases s.len(),
{
    if s.len() == 0 {
        assert(sorted_desc(s) == s);
    } else {
        let t = s.drop_last();
        lemma_sorted_desc(t);
        lemma_insert_desc(sorted_desc(t), s.last());
        to_multiset_build(t, s.last());
        assert(t.push(s.last()) == s);
    }
}

/// Putting a line with a new key into lines with distinct keys keeps the
/// keys distinct, and the lines then stand for the map with that key added.
pub proof fn lemma_insert_desc_map(t: Seq<(Seq<char>, u128)>, e: (Seq<char>, u128))
    requires
        distinct_keys(t),
        !to_map(t).contains_key(e.0),
    ensures
        distinct_keys(insert_desc(t, e)),
        to_map(insert_desc(t, e)) == to_map(t).insert(e.0, e.1),
    decreases t.len(),
{
    let r = insert_desc(t, e);
    lemma_to_map_dom(t);
    if t.len() == 0 {
        assert(r.drop_last() == t);
    } else if t.last().1 >= e.1 {
        assert(r.drop_last() == t);
        assert forall|i: int, j: int| 0 <= i < j < r.len() implies r[i].0 != r[j].0 by {
            if j == t.len() {
                assert(t[i].0 != e.0);
            }
        }
    } else {
        let u = t.drop_last();
        let last = t.last();
        assert(distinct_keys(u));
        lemma_to_map_dom(u);
        assert(!to_map(u).contains_key(e.0)) by {
            if to_map(u).contains_key(e.0) {
                let i = choose|i: int| 0 <= i < u.len() && #[trigger] u[i].0 == e.0;
                assert(t[i].0 == e.0);
            }
        }
        lemma_insert_desc_map(u, e);
        let v = insert_desc(u, e);
        lemma_to_map_dom(v);
        assert(r.drop_last() == v);
        assert(t[t.len() - 1].0 != e.0);
        assert(!to_map(u).contains_key(last.0)) by {
            if to_map(u).contains_key(last.0) {
                let i = choose|i: int| 0 <= i < u.len() && #[trigger] u[i].0 == last.0;
                assert(t[i].0 == t[t.len() - 1].0);
            }
        }
        assert(to_map(u).insert(e.0, e.1).insert(last.0, last.1) == to_map(u).insert(
            last.0,
            last.1,
        ).insert(e.0, e.1));
        assert forall|i: int, j: int| 0 <= i < j < r.len() implies r[i].0 != r[j].0 by {
            if j < v.len() {
                assert(r[i] == v[i] && r[j] == v[j]);
            } else {
                assert(r[i] == v[i]);
                assert(to_map(v).contains_key(v[i].0));
            }
        }
    }
}

/// The leaderboard of lines with distinct keys lists every key once, with
/// its amount: it stands for the same map as the lines.
pub proof fn lemma_sorted_desc_map(s: Seq<(Seq<char>, u128)>)
    requires
        distinct_keys(s),
    ensures
        distinct_keys(sorted_desc(s)),
        to_map(sorted_desc(s)) == to_map(s),
    decreases s.len(),
{
    if s.len() > 0 {
        let t = s.drop_last();
        assert(distinct_keys(t));
        lemma_sorted_desc_map(t);
        lemma_to_map_dom(t);
        assert(!to_map(t).contains_key(s.last().0)) by {
            if to_map(t).contains_key(s.last().0) {
                let i = choose|i: int| 0 <= i < t.len() && #[trigger] t[i].0 == s.last().0;
                assert(s[i].0 == s[s.len() - 1].0);
            }
        }
        lemma_insert_desc_map(sorted_desc(t), s.last());
    }
}

/// Where a line belongs in a descending sequence: behind the last line that
/// is not smaller.
proof fn lemma_insert_desc_at(t: Seq<(Seq<char>, u128)>, e: (Seq<char>, u128), j: int)
    requires
        0 <= j <= t.len(),
        forall|k: int| j <= k < t.len() ==> t[k].1 < e.1,
        j > 0 ==> t[j - 1].1 >= e.1,
    ensures
        insert_desc(t, e) == t.insert(j, e),
    decreases t.len(),
{
    if t.len() == 0 {
        assert(seq![e] == t.insert(j, e));
    } else if j == t.len() {
        assert(t.push(e) == t.insert(j, e));
    } else {
        let u = t.drop_last();
        assert(t[t.len() - 1].1 < e.1);
        lemma_insert_desc_at(u, e, j);
        assert(u.insert(j, e).push(t.last()) == t.insert(j, e));
    }
}

/// The lines of a map of amounts in descending order; lines with the same
/// amount stand in the order in which their keys came into the map.
pub fn leaderboard(donations: &StringMap<u128>) -> (lines: Vec<ProposalDonateAsObject>)
    ensures
        lines@.map_values(|l: ProposalDonateAsObject| l@) == sorted_desc(donations.entries()),
{
    let n = donations.len();
    let mut lines: Vec<ProposalDonateAsObject> = Vec::new();
    let mut i: usize = 0;
    assert(donations.entries().take(0) == Seq::<(Seq<char>, u128)>::empty());
    assert(lines@.map_values(|l: ProposalDonateAsObject| l@) == Seq::<(Seq<char>, u128)>::empty());
    while i < n
        invariant
            i <= n,
            n == donations.entries().len(),
            lines@.map_values(|l: ProposalDonateAsObject| l@) == sorted_desc(
                donations.entries().take(i as int),
            ),
        decreases n - i,
    {
        let line = match donations.entry(i) {
            Some((k, v)) => ProposalDonateAsObject { account: k.clone(), doate_balance: *v },
            None => ProposalDonateAsObject { account: String::new(), doate_balance: 0 },
        };
        let ghost before = lines@.map_values(|l: ProposalDonateAsObject| l@);
        let mut j: usize = lines.len();
        while j > 0 && lines[j - 1].doate_balance < line.doate_balance
            invariant
                j <= lines.len(),
                before == lines@.map_values(|l: ProposalDonateAsObject| l@),
                forall|k: int|
                    j <= k < lines.len() ==> (#[trigger] before[k]).1 < line.doate_balance,
            decreases j,
        {
            j -= 1;
        }
        proof {
            let s = donations.entries();
            assert(s.take(i + 1).drop_last() == s.take(i as int));
            assert(s.take(i + 1).last() == line@);
            lemma_insert_desc_at(before, line@, j as int);
        }
        lines.insert(j, line);
        assert(lines@.map_values(|l: ProposalDonateAsObject| l@) == before.insert(j as int, line@));
        i += 1;
    }
    assert(donations.entries().take(n as int) == donations.entries());
    lines
}

/// The part of the lines that a page shows: up to `limit` lines from the
/// position `from_index` on.
pub fn page_of(lines: &Vec<ProposalDonateAsObject>, from_index: usize, limit: usize) -> (page: Vec<
    ProposalDonateAsObject,
>)
    ensures
        page@.map_values(|l: ProposalDonateAsObject| l@) == window(
            lines@.map_values(|l: ProposalDonateAsObject| l@),
            from_index as int,
            limit as int,
        ),
{
    let len = lines.len();
    let start = if from_index < len {
        from_index
    } else {
        len
    };
    let end = match from_index.checked_add(limit) {
        Some(e) => if e < len {
            e
        } else {
            len
        },
        None => len,
    };
    let mut page: Vec<ProposalDonateAsObject> = Vec::new();
    let ghost all = lines@.map_values(|l: ProposalDonateAsObject| l@);
    if start >= end {
        assert(page@.map_values(|l: ProposalDonateAsObject| l@) == all.subrange(
            start as int,
            end as int,
        ));
        return page;
    }
    let mut i = start;
    assert(page@.map_values(|l: ProposalDonateAsObject| l@) == all.subrange(
        start as int,
        start as int,
    ));
    while i < end
        invariant
            start <= i <= end <= lines.len(),
            all == lines@.map_values(|l: ProposalDonateAsObject| l@),
            page@.map_values(|l: ProposalDonateAsObject| l@) == all.subrange(
                start as int,
                i as int,
            ),
        decreases end - i,
    {
        let ghost before = page@;
        let line = lines[i].clone();
        page.push(line);
        assert(page@.map_values(|l: ProposalDonateAsObject| l@) == before.map_values(
            |l: ProposalDonateAsObject| l@,
        ).push(line@));
        assert(all[i as int] == line@);
        assert(all.subrange(start as int, i + 1) == all.subrange(start as int, i as int).push(
            all[i as int],
        ));
        i += 1;
    }
    page
}

} // verus!
