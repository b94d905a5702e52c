//! Counting texts: how often each distinct text occurs, in text order (the
//! counters that a `BTreeMap` keyed by text gives).
use vstd::prelude::*;
use crate::sorting::{sorted_distinct_texts, sorted_set_of, views};
use crate::text::str_eq;

verus! {

/// A text and how often it occurs.
#[derive(Debug)]
pub struct Tally {
    pub key: String,
    pub count: usize,
}

/// How often `k` occurs in `s`.
pub open spec fn occurrences(s: Seq<Seq<char>>, k: Seq<char>) -> nat
    decreases s.len(),
{
    if s.len() == 0 {
        0
    } else {
        occurrences(s.drop_last(), k) + if s.last() == k {
            1nat
        } else {
            0nat
        }
    }
}

pub proof fn lemma_occurrences_le(s: Seq<Seq<char>>, k: Seq<char>)
    ensures
        occurrences(s, k) <= s.len(),
    decreases s.len(),
{
    if s.len() > 0 {
        lemma_occurrences_le(s.drop_last(), k);
    }
}

/// The keys of the tallies.
pub open spec fn tally_keys(t: Seq<Tally>) -> Seq<Seq<char>> {
    t.map_values(|x: Tally| x.key@)
}

/// `out` counts `keys`: each distinct key once, in increasing order, with
/// the number of its occurrences.
pub open spec fn tallies_of(out: Seq<Tally>, keys: Seq<Seq<char>>) -> bool {
    &&& sorted_set_of(tally_keys(out), keys)
    &&& forall|i: int| 0 <= i < out.len() ==> (#[trigger] out[i]).count == occurrences(keys, out[i].key@)
}

/// How often `key` occurs in `keys`.
pub fn count_text(keys: &Vec<String>, key: &str) -> (n: usize)
    ensures
        n == occurrences(views(keys@), key@),
{
    let ghost s = views(keys@);
    let mut n: usize = 0;
    let mut i: usize = 0;
    while i < keys.len()
        invariant
            i <= keys.len(),
            s == views(keys@),
            n == occurrences(s.take(i as int), key@),
        decreases keys.len() - i,
    {
        proof {
            assert(s.take(i + 1).drop_last() =~= s.take(i as int));
            lemma_occurrences_le(s.take(i as int), key@);
        }
        if str_eq(keys[i].as_str(), key) {
            n += 1;
        }
        i += 1;
    }
    assert(s.take(keys.len() as int) =~= s);
    n
}

/// How often each distinct text of `keys` occurs, in text order.
pub fn tally_texts(keys: &Vec<String>) -> (out: Vec<Tally>)
    ensures
        tallies_of(out@, views(keys@)),
{
    let distinct = sorted_distinct_texts(keys);
    let mut out: Vec<Tally> = Vec::new();
    let mut i: usize = 0;
    while i < distinct.len()
        invariant
            i <= distinct.len(),
            out@.len() == i,
            forall|j: int|
                0 <= j < i ==> (#[trigger] out@[j]).key@ == distinct@[j]@ && out@[j].count
                    == occurrences(views(keys@), distinct@[j]@),
        decreases distinct.len() - i,
    {
        let key = distinct[i].clone();
        let count = count_text(keys, key.as_str());
        out.push(Tally { key, count });
        i += 1;
    }
    assert(tally_keys(out@) =~= views(distinct@));
    out
}

} // verus!
