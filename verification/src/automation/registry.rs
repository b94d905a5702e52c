//! Lists of records that are found and removed by id.
use vstd::prelude::*;
use crate::text::{opt_view, str_eq, trim, trim_str};

verus! {

/// A record with an id.
pub trait Identified: Sized {
    spec fn id_view(&self) -> Seq<char>;

    fn id_str(&self) -> (s: &str)
        ensures
            s@ == self.id_view(),
    ;
}

/// A record that listens to an event.
pub trait Subscribed: Sized {
    spec fn event_view(&self) -> Seq<char>;

    fn event_str(&self) -> (s: &str)
        ensures
            s@ == self.event_view(),
    ;
}

/// Some record has the id `id`.
pub open spec fn has_record<T: Identified>(s: Seq<T>, id: Seq<char>) -> bool {
    exists|i: int| 0 <= i < s.len() && (#[trigger] s[i]).id_view() == id
}

/// `i` is the first position of a record with the id `id`.
pub open spec fn first_record_at<T: Identified>(s: Seq<T>, id: Seq<char>, i: int) -> bool {
    &&& 0 <= i < s.len()
    &&& s[i].id_view() == id
    &&& forall|j: int| 0 <= j < i ==> (#[trigger] s[j]).id_view() != id
}

/// The records without those with the id `id`, in order.
pub open spec fn without_record<T: Identified>(s: Seq<T>, id: Seq<char>) -> Seq<T>
    decreases s.len(),
{
    if s.len() == 0 {
        s
    } else if s.last().id_view() == id {
        without_record(s.drop_last(), id)
    } else {
        without_record(s.drop_last(), id).push(s.last())
    }
}

/// Taking records out never adds any, and nothing goes when no record has
/// the id.
pub proof fn lemma_without_record_len<T: Identified>(s: Seq<T>, id: Seq<char>)
    ensures
        without_record(s, id).len() <= s.len(),
        !has_record(s, id) ==> without_record(s, id) == s,
    decreases s.len(),
{
    if s.len() > 0 {
        lemma_without_record_len(s.drop_last(), id);
        if !has_record(s, id) {
            assert forall|i: int| 0 <= i < s.drop_last().len() implies (#[trigger] s.drop_last()[i]).id_view() != id by {
                assert(s[i] == s.drop_last()[i]);
            }
            assert(s.last().id_view() != id);
            assert(s.drop_last().push(s.last()) =~= s);
        }
    }
}

/// The first record with the id `id`.
pub fn position_of<T: Identified>(items: &Vec<T>, id: &str) -> (found: Option<usize>)
    ensures
        match found {
            Some(i) => first_record_at(items@, id@, i as int),
            None => !has_record(items@, id@),
        },
{
    let mut i: usize = 0;
    while i < items.len()
        invariant
            i <= items.len(),
            forall|j: int| 0 <= j < i ==> (#[trigger] items@[j]).id_view() != id@,
        decreases items.len() - i,
    {
        if str_eq(items[i].id_str(), id) {
            return Some(i);
        }
        i += 1;
    }
    None
}

/// Removes every record with the id `id`; whether there was one.
pub fn remove_with_id<T: Identified>(items: &mut Vec<T>, id: &str) -> (removed: bool)
    ensures
        removed == has_record(old(items)@, id@),
        final(items)@ == without_record(old(items)@, id@),
{
    let found = position_of(items, id).is_some();
    let mut rest: Vec<T> = Vec::new();
    std::mem::swap(items, &mut rest);
    let ghost orig = rest@;
    for x in it: rest
        invariant
            it.seq() == orig,
            items@ == without_record(orig.take(it.index() as int), id@),
    {
        let ghost k = it.index();
        proof {
            assert(orig.take(k + 1).drop_last() =~= orig.take(k as int));
            assert(orig.take(k + 1).last() == x);
        }
        if !str_eq(x.id_str(), id) {
            items.push(x);
        }
    }
    proof {
        assert(orig.take(orig.len() as int) =~= orig);
    }
    found
}

/// Whether `r` listens to `event` (trimmed); with no event, every record
/// does.
pub open spec fn listens<T: Subscribed>(r: T, event: Option<&str>) -> bool {
    match event {
        Some(e) => r.event_view() == trim(e@),
        None => true,
    }
}

/// The positions of the records that listen to `event` (trimmed), or of all
/// records, in order.
pub fn records_for_event<T: Subscribed>(records: &Vec<T>, event: Option<&str>) -> (out: Vec<usize>)
    ensures
        forall|k: int| 0 <= k < out@.len() ==> (#[trigger] out@[k]) < records@.len(),
        forall|k: int, l: int| 0 <= k < l < out@.len() ==> out@[k] < out@[l],
        forall|j: int|
            0 <= j < records@.len() ==> (out@.contains(j as usize) <==> #[trigger] listens(
                records@[j],
                event,
            )),
{
    let filter = match event {
        Some(e) => Some(trim_str(e)),
        None => None,
    };
    let mut out: Vec<usize> = Vec::new();
    let mut i: usize = 0;
    while i < records.len()
        invariant
            i <= records.len(),
            opt_view(filter) == match event {
                Some(e) => Some(trim(e@)),
                None => None::<Seq<char>>,
            },
            forall|k: int| 0 <= k < out@.len() ==> (#[trigger] out@[k]) < i,
            forall|k: int, l: int| 0 <= k < l < out@.len() ==> out@[k] < out@[l],
            forall|j: int|
                0 <= j < i ==> (out@.contains(j as usize) <==> #[trigger] listens(records@[j], event)),
        decreases records.len() - i,
    {
        let ev = records[i].event_str();
        let keep = match &filter {
            Some(f) => str_eq(ev, f.as_str()),
            None => true,
        };
        assert(keep == listens(records@[i as int], event));
        let ghost before = out@;
        if keep {
            out.push(i);
        }
        proof {
            assert forall|j: int| 0 <= j < i + 1 implies (out@.contains(j as usize)
                <==> #[trigger] listens(records@[j], event)) by {
                if j < i {
                    if before.contains(j as usize) {
                        let k = choose|k: int| 0 <= k < before.len() && before[k] == j as usize;
                        assert(out@[k] == before[k]);
                    }
                    if out@.contains(j as usize) {
                        let k = choose|k: int| 0 <= k < out@.len() && out@[k] == j as usize;
                        if k < before.len() {
                            assert(before[k] == out@[k]);
                        }
                    }
                } else if keep {
                    assert(out@[before.len() as int] == i);
                } else {
                    if out@.contains(j as usize) {
                        let k = choose|k: int| 0 <= k < out@.len() && out@[k] == j as usize;
                        assert(before[k] < i);
                    }
                }
            }
        }
        i += 1;
    }
    out
}

} // verus!
