//! Stable sorting by a total preorder, and the lexicographic order of text.
use vstd::prelude::*;

verus! {

/// A total preorder on values, with its executable test.
pub trait Ordered: Sized {
    spec fn le_spec(&self, other: &Self) -> bool;

    fn le_exec(&self, other: &Self) -> (b: bool)
        ensures
            b == self.le_spec(other),
    ;

    proof fn le_total(a: &Self, b: &Self)
        ensures
            a.le_spec(b) || b.le_spec(a),
    ;

    proof fn le_trans(a: &Self, b: &Self, c: &Self)
        requires
            a.le_spec(b),
            b.le_spec(c),
        ensures
            a.le_spec(c),
    ;
}

/// `s` with `x` placed after every trailing element not above it.
pub open spec fn insert_sorted<T: Ordered>(s: Seq<T>, x: T) -> Seq<T>
    decreases s.len(),
{
    if s.len() == 0 {
        seq![x]
    } else if s.last().le_spec(&x) {
        s.push(x)
    } else {
        insert_sorted(s.drop_last(), x).push(s.last())
    }
}

/// The stable sort of `s` (what `slice::sort_by` with this order yields).
pub open spec fn stable_sort<T: Ordered>(s: Seq<T>) -> Seq<T>
    decreases s.len(),
{
    if s.len() == 0 {
        Seq::<T>::empty()
    } else {
        insert_sorted(stable_sort(s.drop_last()), s.last())
    }
}

pub open spec fn is_sorted<T: Ordered>(s: Seq<T>) -> bool {
    forall|i: int, j: int| #![trigger s[i], s[j]] 0 <= i < j < s.len() ==> s[i].le_spec(&s[j])
}

proof fn lemma_insert_at<T: Ordered>(s: Seq<T>, x: T, j: int)
    requires
        0 <= j <= s.len(),
        forall|k: int| j <= k < s.len() ==> !(#[trigger] s[k]).le_spec(&x),
        j == 0 || s[j - 1].le_spec(&x),
    ensures
        insert_sorted(s, x) == s.insert(j, x),
    decreases s.len(),
{
    if s.len() == 0 {
        assert(s.insert(j, x) =~= seq![x]);
    } else if s.last().le_spec(&x) {
        assert(j == s.len());
        assert(s.insert(j, x) =~= s.push(x));
    } else {
        lemma_insert_at(s.drop_last(), x, j);
        assert(s.drop_last().insert(j, x).push(s.last()) =~= s.insert(j, x));
    }
}

proof fn lemma_insert_sorted_multiset<T: Ordered>(s: Seq<T>, x: T)
    ensures
        insert_sorted(s, x).to_multiset() == s.to_multiset().insert(x),
        insert_sorted(s, x).len() == s.len() + 1,
    decreases s.len(),
{
    broadcast use vstd::seq_lib::group_to_multiset_ensures;

    if s.len() == 0 {
        assert(seq![x] =~= Seq::<T>::empty().push(x));
    } else if s.last().le_spec(&x) {
    } else {
        lemma_insert_sorted_multiset(s.drop_last(), x);
        assert(s.drop_last().push(s.last()) =~= s);
        assert(s.drop_last().to_multiset().insert(s.last()) == s.to_multiset());
        assert(s.to_multiset().insert(x) =~= s.drop_last().to_multiset().insert(x).insert(
            s.last(),
        ));
    }
}

proof fn lemma_insert_sorted_sorted<T: Ordered>(s: Seq<T>, x: T)
    requires
        is_sorted(s),
    ensures
        is_sorted(insert_sorted(s, x)),
        forall|k: int|
            0 <= k < insert_sorted(s, x).len() ==> (#[trigger] insert_sorted(s, x)[k] == x
                || s.contains(insert_sorted(s, x)[k])),
    decreases s.len(),
{
    if s.len() == 0 {
    } else if s.last().le_spec(&x) {
        let r = s.push(x);
        assert forall|i: int, j: int| #![trigger r[i], r[j]] 0 <= i < j < r.len() implies r[i].le_spec(
            &r[j],
        ) by {
            if j == s.len() {
                if i < s.len() - 1 {
                    T::le_trans(&s[i], &s.last(), &x);
                }
            }
        }
        assert forall|k: int| 0 <= k < r.len() implies (#[trigger] r[k] == x || s.contains(r[k])) by {
            if k < s.len() {
                assert(s[k] == r[k]);
            }
        }
    } else {
        let p = s.drop_last();
        assert(is_sorted(p));
        lemma_insert_sorted_sorted(p, x);
        let q = insert_sorted(p, x);
        let r = q.push(s.last());
        T::le_total(&s.last(), &x);
        assert forall|k: int| 0 <= k < q.len() implies (#[trigger] q[k]).le_spec(&s.last()) by {
            if q[k] == x {
            } else {
                assert(p.contains(q[k]));
                let m = choose|m: int| 0 <= m < p.len() && p[m] == q[k];
                assert(s[m] == p[m]);
            }
        }
        assert forall|i: int, j: int| #![trigger r[i], r[j]] 0 <= i < j < r.len() implies r[i].le_spec(
            &r[j],
        ) by {
            if j < q.len() {
                assert(r[i] == q[i] && r[j] == q[j]);
            } else {
                assert(r[i] == q[i]);
            }
        }
        assert forall|k: int| 0 <= k < r.len() implies (#[trigger] r[k] == x || s.contains(r[k])) by {
            if k < q.len() {
                assert(r[k] == q[k]);
                if q[k] != x {
                    assert(p.contains(q[k]));
                    let m = choose|m: int| 0 <= m < p.len() && p[m] == q[k];
                    assert(s[m] == p[m]);
                }
            } else {
                assert(s[s.len() - 1] == r[k]);
            }
        }
    }
}

/// The stable sort is ordered and holds the same elements.
pub proof fn lemma_stable_sort<T: Ordered>(s: Seq<T>)
    ensures
        is_sorted(stable_sort(s)),
        stable_sort(s).to_multiset() == s.to_multiset(),
        stable_sort(s).len() == s.len(),
    decreases s.len(),
{
    broadcast use vstd::seq_lib::group_to_multiset_ensures;

    if s.len() > 0 {
        lemma_stable_sort(s.drop_last());
        lemma_insert_sorted_sorted(stable_sort(s.drop_last()), s.last());
        lemma_insert_sorted_multiset(stable_sort(s.drop_last()), s.last());
        assert(s.drop_last().push(s.last()) =~= s);
    }
}

/// Sorts `v` stably by the order of its elements.
pub fn sort_stable<T: Ordered>(v: Vec<T>) -> (out: Vec<T>)
    ensures
        out@ == stable_sort(v@),
        is_sorted(out@),
        out@.to_multiset() == v@.to_multiset(),
        out@.len() == v@.len(),
{
    proof {
        lemma_stable_sort(v@);
    }
    let ghost orig = v@;
    let mut out: Vec<T> = Vec::new();
    for x in it: v
        invariant
            it.seq() == orig,
            out@ == stable_sort(orig.take(it.index() as int)),
    {
        let ghost idx = it.index();
        let mut j: usize = out.len();
        while j > 0 && !out[j - 1].le_exec(&x)
            invariant
                j <= out.len(),
                forall|k: int| j <= k < out@.len() ==> !(#[trigger] out@[k]).le_spec(&x),
            decreases j,
        {
            j -= 1;
        }
        proof {
            lemma_insert_at(out@, x, j as int);
            assert(orig.take(idx + 1).drop_last() =~= orig.take(idx as int));
            assert(orig.take(idx + 1).last() == x);
        }
        out.insert(j, x);
    }
    proof {
        assert(orig.take(orig.len() as int) =~= orig);
    }
    out
}

/// The lexicographic order of text by character (the order of `String`,
/// since UTF-8 byte order follows code point order).
pub open spec fn text_le(a: Seq<char>, b: Seq<char>) -> bool
    decreases a.len(),
{
    if a.len() == 0 {
        true
    } else if b.len() == 0 {
        false
    } else if (a[0] as u32) != (b[0] as u32) {
        (a[0] as u32) < (b[0] as u32)
    } else {
        text_le(a.drop_first(), b.drop_first())
    }
}

pub proof fn lemma_text_le_total(a: Seq<char>, b: Seq<char>)
    ensures
        text_le(a, b) || text_le(b, a),
    decreases a.len(),
{
    if a.len() > 0 && b.len() > 0 && (a[0] as u32) == (b[0] as u32) {
        lemma_text_le_total(a.drop_first(), b.drop_first());
    }
}

pub proof fn lemma_text_le_trans(a: Seq<char>, b: Seq<char>, c: Seq<char>)
    requires
        text_le(a, b),
        text_le(b, c),
    ensures
        text_le(a, c),
    decreases a.len(),
{
    if a.len() > 0 && b.len() > 0 && c.len() > 0 && (a[0] as u32) == (b[0] as u32) && (b[0] as u32)
        == (c[0] as u32) {
        lemma_text_le_trans(a.drop_first(), b.drop_first(), c.drop_first());
    }
}

pub proof fn lemma_text_le_antisym(a: Seq<char>, b: Seq<char>)
    requires
        text_le(a, b),
        text_le(b, a),
    ensures
        a == b,
    decreases a.len(),
{
    if a.len() > 0 && b.len() > 0 {
        assert((a[0] as u32) == (b[0] as u32));
        lemma_text_le_antisym(a.drop_first(), b.drop_first());
        vstd::utf8::char_u32_cast(a[0], a[0] as u32);
        vstd::utf8::char_u32_cast(b[0], b[0] as u32);
        assert(a[0] == b[0]);
        assert(a =~= seq![a[0]] + a.drop_first());
        assert(b =~= seq![b[0]] + b.drop_first());
    } else {
        assert(a.len() == 0 && b.len() == 0);
        assert(a =~= b);
    }
}

/// `a` sorts strictly before `b`.
pub open spec fn text_lt(a: Seq<char>, b: Seq<char>) -> bool {
    text_le(a, b) && a != b
}

pub proof fn lemma_text_lt_trans(a: Seq<char>, b: Seq<char>, c: Seq<char>)
    requires
        text_lt(a, b),
        text_lt(b, c),
    ensures
        text_lt(a, c),
{
    lemma_text_le_trans(a, b, c);
    if a == c {
        lemma_text_le_antisym(a, b);
    }
}

/// Whether `a` sorts no later than `b`.
pub fn text_le_exec(a: &str, b: &str) -> (r: bool)
    ensures
        r == text_le(a@, b@),
{
    let av = crate::text::chars_of(a);
    let bv = crate::text::chars_of(b);
    let mut i: usize = 0;
    proof {
        assert(av@.skip(0) =~= av@);
        assert(bv@.skip(0) =~= bv@);
    }
    while i < av.len() && i < bv.len() && (av[i] as u32) == (bv[i] as u32)
        invariant
            i <= av.len(),
            i <= bv.len(),
            text_le(a@, b@) == text_le(av@.skip(i as int), bv@.skip(i as int)),
            av@ == a@,
            bv@ == b@,
        decreases av.len() - i,
    {
        proof {
            assert(av@.skip(i as int).drop_first() =~= av@.skip(i + 1));
            assert(bv@.skip(i as int).drop_first() =~= bv@.skip(i + 1));
        }
        i += 1;
    }
    if i == av.len() {
        true
    } else if i == bv.len() {
        false
    } else {
        assert(av@.skip(i as int)[0] == av@[i as int]);
        assert(bv@.skip(i as int)[0] == bv@[i as int]);
        (av[i] as u32) < (bv[i] as u32)
    }
}

/// The last `n` elements of `s` (all of them when there are fewer).
pub open spec fn tail_of<T>(s: Seq<T>, n: nat) -> Seq<T> {
    if s.len() > n {
        s.skip(s.len() - n)
    } else {
        s
    }
}

/// Keeps the last `n` elements.
pub fn keep_tail<T>(v: Vec<T>, n: usize) -> (out: Vec<T>)
    ensures
        out@ == tail_of(v@, n as nat),
{
    let ghost before = v@;
    let mut v = v;
    if v.len() > n {
        let keep_from = v.len() - n;
        let out = v.split_off(keep_from);
        assert(out@ =~= before.skip(keep_from as int));
        out
    } else {
        v
    }
}

/// Sorts stably and keeps the last `n` elements.
pub fn sorted_tail<T: Ordered>(v: Vec<T>, n: usize) -> (out: Vec<T>)
    ensures
        out@ == tail_of(stable_sort(v@), n as nat),
{
    let sorted = sort_stable(v);
    keep_tail(sorted, n)
}

impl Ordered for String {
    open spec fn le_spec(&self, other: &Self) -> bool {
        text_le(self@, other@)
    }

    fn le_exec(&self, other: &Self) -> (b: bool) {
        text_le_exec(self.as_str(), other.as_str())
    }

    proof fn le_total(a: &Self, b: &Self) {
        lemma_text_le_total(a@, b@);
    }

    proof fn le_trans(a: &Self, b: &Self, c: &Self) {
        lemma_text_le_trans(a@, b@, c@);
    }
}

/// The texts of `s`.
pub open spec fn views(s: Seq<String>) -> Seq<Seq<char>> {
    s.map_values(|x: String| x@)
}

/// Whether the text `s` is among `v`.
pub fn text_in(v: &Vec<String>, s: &str) -> (b: bool)
    ensures
        b == views(v@).contains(s@),
{
    let mut i: usize = 0;
    while i < v.len()
        invariant
            i <= v.len(),
            forall|j: int| 0 <= j < i ==> (#[trigger] v@[j])@ != s@,
        decreases v.len() - i,
    {
        if crate::text::str_eq(v[i].as_str(), s) {
            assert(views(v@)[i as int] == s@);
            return true;
        }
        i += 1;
    }
    assert forall|j: int| 0 <= j < views(v@).len() implies views(v@)[j] != s@ by {
        assert(views(v@)[j] == v@[j]@);
    }
    false
}

/// No text occurs twice.
pub open spec fn all_distinct(s: Seq<Seq<char>>) -> bool {
    forall|i: int, j: int| #![trigger s[i], s[j]] 0 <= i < j < s.len() ==> s[i] != s[j]
}

/// Each text occurs, once, in increasing order, exactly the texts of `v`
/// (a `BTreeSet` of them, iterated).
pub open spec fn sorted_set_of(out: Seq<Seq<char>>, v: Seq<Seq<char>>) -> bool {
    &&& forall|i: int, j: int| #![trigger out[i], out[j]] 0 <= i < j < out.len() ==> text_le(out[i], out[j]) && out[i] != out[j]
    &&& forall|x: Seq<char>| out.contains(x) <==> v.contains(x)
}

/// Two sorted sets of the same texts are the same sequence.
pub proof fn lemma_sorted_set_unique(a: Seq<Seq<char>>, b: Seq<Seq<char>>, v: Seq<Seq<char>>, w: Seq<Seq<char>>)
    requires
        sorted_set_of(a, v),
        sorted_set_of(b, w),
        forall|x: Seq<char>| v.contains(x) <==> w.contains(x),
    ensures
        a == b,
    decreases a.len(),
{
    if a.len() == 0 {
        if b.len() > 0 {
            assert(b.contains(b[0]));
        }
        assert(a =~= b);
    } else {
        assert(a.contains(a[0]));
        assert(b.contains(a[0]));
        assert(b.len() > 0);
        assert(b.contains(b[0]));
        assert(a.contains(b[0]));
        let k = choose|k: int| 0 <= k < b.len() && b[k] == a[0];
        let m = choose|m: int| 0 <= m < a.len() && a[m] == b[0];
        if k > 0 && m > 0 {
            assert(text_le(b[0], b[k]));
            assert(text_le(a[0], a[m]));
            lemma_text_le_antisym(a[0], b[0]);
        }
        assert(a[0] == b[0]);
        let ta = a.drop_first();
        let tb = b.drop_first();
        assert forall|x: Seq<char>| ta.contains(x) <==> (a.contains(x) && x != a[0]) by {
            if ta.contains(x) {
                let i = choose|i: int| 0 <= i < ta.len() && ta[i] == x;
                assert(a[i + 1] == x);
                assert(a[0] != a[i + 1]);
            }
            if a.contains(x) && x != a[0] {
                let i = choose|i: int| 0 <= i < a.len() && a[i] == x;
                assert(ta[i - 1] == x);
            }
        }
        assert forall|x: Seq<char>| tb.contains(x) <==> (b.contains(x) && x != b[0]) by {
            if tb.contains(x) {
                let i = choose|i: int| 0 <= i < tb.len() && tb[i] == x;
                assert(b[i + 1] == x);
                assert(b[0] != b[i + 1]);
            }
            if b.contains(x) && x != b[0] {
                let i = choose|i: int| 0 <= i < b.len() && b[i] == x;
                assert(tb[i - 1] == x);
            }
        }
        assert forall|i: int, j: int| #![trigger ta[i], ta[j]] 0 <= i < j < ta.len() implies text_le(ta[i], ta[j])
            && ta[i] != ta[j] by {
            assert(ta[i] == a[i + 1] && ta[j] == a[j + 1]);
        }
        assert forall|i: int, j: int| #![trigger tb[i], tb[j]] 0 <= i < j < tb.len() implies text_le(tb[i], tb[j])
            && tb[i] != tb[j] by {
            assert(tb[i] == b[i + 1] && tb[j] == b[j + 1]);
        }
        lemma_sorted_set_unique(ta, tb, ta, tb);
        assert(a =~= seq![a[0]] + ta);
        assert(b =~= seq![b[0]] + tb);
    }
}

/// The distinct texts of `v`, sorted.
pub fn sorted_distinct_texts(v: &Vec<String>) -> (out: Vec<String>)
    ensures
        sorted_set_of(views(out@), views(v@)),
{
    broadcast use vstd::seq_lib::group_to_multiset_ensures;

    let mut uniq: Vec<String> = Vec::new();
    let mut i: usize = 0;
    while i < v.len()
        invariant
            i <= v.len(),
            all_distinct(views(uniq@)),
            forall|x: Seq<char>| views(uniq@).contains(x) <==> views(v@.take(i as int)).contains(x),
        decreases v.len() - i,
    {
        let mut k: usize = 0;
        while k < uniq.len() && !crate::text::str_eq(uniq[k].as_str(), v[i].as_str())
            invariant
                k <= uniq.len(),
                i < v.len(),
                forall|m: int| 0 <= m < k ==> (#[trigger] uniq@[m])@ != v@[i as int]@,
            decreases uniq.len() - k,
        {
            k += 1;
        }
        let ghost before = uniq@;
        if k == uniq.len() {
            uniq.push(v[i].clone());
            proof {
                assert forall|a: int, b: int| #![trigger views(uniq@)[a], views(uniq@)[b]] 0 <= a < b < uniq@.len() implies views(uniq@)[a] != views(uniq@)[b] by {
                    if b == before.len() {
                        assert(views(uniq@)[a] == before[a]@);
                    } else {
                        assert(views(uniq@)[a] == views(before)[a]);
                        assert(views(uniq@)[b] == views(before)[b]);
                    }
                }
            }
        }
        proof {
            let pv = views(v@.take(i as int));
            let nv = views(v@.take(i + 1));
            assert(nv =~= pv.push(v@[i as int]@));
            if k == before.len() {
                assert(views(uniq@) =~= views(before).push(v@[i as int]@));
            } else {
                assert(views(before)[k as int] == v@[i as int]@);
                assert(views(uniq@) == views(before));
            }
            assert forall|x: Seq<char>| views(uniq@).contains(x) <==> nv.contains(x) by {
                if nv.contains(x) {
                    let j = choose|j: int| 0 <= j < nv.len() && nv[j] == x;
                    if j < i {
                        assert(pv[j] == x);
                        assert(pv.contains(x));
                        assert(views(before).contains(x));
                        let m = choose|m: int| 0 <= m < views(before).len() && views(before)[m] == x;
                        assert(views(uniq@)[m] == x);
                    } else {
                        assert(x == v@[i as int]@);
                        if k == before.len() {
                            assert(views(uniq@)[k as int] == x);
                        } else {
                            assert(views(uniq@)[k as int] == x);
                        }
                    }
                }
                if views(uniq@).contains(x) {
                    let m = choose|m: int| 0 <= m < views(uniq@).len() && views(uniq@)[m] == x;
                    if m < before.len() {
                        assert(views(before)[m] == x);
                        assert(views(before).contains(x));
                        assert(pv.contains(x));
                        let j = choose|j: int| 0 <= j < pv.len() && pv[j] == x;
                        assert(nv[j] == x);
                    } else {
                        assert(nv[i as int] == x);
                    }
                }
            }
        }
        i += 1;
    }
    proof {
        assert(v@.take(v.len() as int) =~= v@);
        assert(views(v@.take(v.len() as int)) =~= views(v@));
    }
    let ghost u = uniq@;
    let sorted = sort_stable(uniq);
    proof {
        assert forall|x: Seq<char>| views(sorted@).contains(x) <==> views(u).contains(x) by {
            if views(sorted@).contains(x) {
                let a = choose|a: int| 0 <= a < sorted@.len() && views(sorted@)[a] == x;
                assert(sorted@.to_multiset().count(sorted@[a]) > 0);
                assert(u.contains(sorted@[a]));
                let b = choose|b: int| 0 <= b < u.len() && u[b] == sorted@[a];
                assert(views(u)[b] == x);
            }
            if views(u).contains(x) {
                let b = choose|b: int| 0 <= b < u.len() && views(u)[b] == x;
                assert(u.to_multiset().count(u[b]) > 0);
                assert(sorted@.contains(u[b]));
                let a = choose|a: int| 0 <= a < sorted@.len() && sorted@[a] == u[b];
                assert(views(sorted@)[a] == x);
            }
        }
        assert forall|a: int, b: int| #![trigger views(sorted@)[a], views(sorted@)[b]] 0 <= a < b < sorted@.len() implies text_le(views(sorted@)[a], views(sorted@)[b]) && views(sorted@)[a] != views(sorted@)[b] by {
            assert(sorted@[a].le_spec(&sorted@[b]));
            assert(views(sorted@)[a] == sorted@[a]@);
            assert(views(sorted@)[b] == sorted@[b]@);
            if sorted@[a]@ == sorted@[b]@ {
                lemma_no_dup_after_permutation(u, sorted@, a, b);
            }
        }
        assert forall|x: Seq<char>| views(sorted@).contains(x) <==> views(v@).contains(x) by {
            assert(views(sorted@).contains(x) <==> views(u).contains(x));
            assert(views(u).contains(x) <==> views(v@.take(v.len() as int)).contains(x));
        }
    }
    sorted
}

proof fn lemma_no_dup_after_permutation(u: Seq<String>, s: Seq<String>, a: int, b: int)
    requires
        s.to_multiset() == u.to_multiset(),
        all_distinct(views(u)),
        0 <= a < b < s.len(),
    ensures
        s[a]@ != s[b]@,
{
    broadcast use vstd::seq_lib::group_to_multiset_ensures;

    if s[a]@ == s[b]@ {
        assert(u.contains(s[a])) by {
            assert(s.to_multiset().count(s[a]) > 0);
        }
        assert(u.contains(s[b])) by {
            assert(s.to_multiset().count(s[b]) > 0);
        }
        let x = choose|x: int| 0 <= x < u.len() && u[x] == s[a];
        let y = choose|y: int| 0 <= y < u.len() && u[y] == s[b];
        if x == y {
            lemma_count_twice(s, a, b);
            lemma_count_once(u, s[a]);
        } else if x < y {
            assert(views(u)[x] != views(u)[y]);
        } else {
            assert(views(u)[y] != views(u)[x]);
        }
    }
}

proof fn lemma_count_twice<T>(s: Seq<T>, a: int, b: int)
    requires
        0 <= a < b < s.len(),
        s[a] == s[b],
    ensures
        s.to_multiset().count(s[a]) >= 2,
    decreases s.len(),
{
    broadcast use vstd::seq_lib::group_to_multiset_ensures;

    let p = s.drop_last();
    assert(p.push(s.last()) =~= s);
    if b == s.len() - 1 {
        assert(p[a] == s[a]);
        assert(p.contains(s[a]));
    } else {
        lemma_count_twice(p, a, b);
        assert(p[a] == s[a]);
    }
}

proof fn lemma_count_once(u: Seq<String>, e: String)
    requires
        all_distinct(views(u)),
    ensures
        u.to_multiset().count(e) <= 1,
    decreases u.len(),
{
    broadcast use vstd::seq_lib::group_to_multiset_ensures;

    if u.len() > 0 {
        let p = u.drop_last();
        assert(p.push(u.last()) =~= u);
        assert forall|x: int, y: int| #![trigger views(p)[x], views(p)[y]] 0 <= x < y < p.len() implies views(p)[x] != views(p)[y] by {
            assert(views(p)[x] == views(u)[x] && views(p)[y] == views(u)[y]);
        }
        lemma_count_once(p, e);
        if u.last() == e && p.to_multiset().count(e) > 0 {
            assert(p.contains(e));
            let x = choose|x: int| 0 <= x < p.len() && p[x] == e;
            assert(views(u)[x] == views(u)[u.len() - 1]);
        }
    }
}

/// A position with its time, ordered by time.
#[derive(Debug, Clone, Copy)]
pub struct Stamp {
    pub ts: i64,
    pub index: usize,
}

impl Ordered for Stamp {
    open spec fn le_spec(&self, other: &Self) -> bool {
        self.ts <= other.ts
    }

    fn le_exec(&self, other: &Self) -> (b: bool) {
        self.ts <= other.ts
    }

    proof fn le_total(a: &Self, b: &Self) {
    }

    proof fn le_trans(a: &Self, b: &Self, c: &Self) {
    }
}

/// The positions of the stamps.
pub open spec fn stamp_indices(s: Seq<Stamp>) -> Seq<usize> {
    s.map_values(|x: Stamp| x.index)
}

/// The stamps of the times `ts`, by position.
pub open spec fn stamps_of(ts: Seq<i64>) -> Seq<Stamp> {
    Seq::new(ts.len(), |i: int| Stamp { ts: ts[i], index: i as usize })
}

/// The positions of `ts` ordered by time, equal times in position order.
pub fn order_by_time(ts: &Vec<i64>) -> (out: Vec<usize>)
    ensures
        out@ == stamp_indices(stable_sort(stamps_of(ts@))),
{
    let mut stamps: Vec<Stamp> = Vec::new();
    let mut i: usize = 0;
    while i < ts.len()
        invariant
            i <= ts.len(),
            stamps@ == stamps_of(ts@).take(i as int),
        decreases ts.len() - i,
    {
        stamps.push(Stamp { ts: ts[i], index: i });
        i += 1;
        assert(stamps@ =~= stamps_of(ts@).take(i as int));
    }
    assert(stamps_of(ts@).take(ts.len() as int) =~= stamps_of(ts@));
    let sorted = sort_stable(stamps);
    let mut out: Vec<usize> = Vec::new();
    let mut k: usize = 0;
    while k < sorted.len()
        invariant
            k <= sorted.len(),
            out@ == stamp_indices(sorted@.take(k as int)),
        decreases sorted.len() - k,
    {
        out.push(sorted[k].index);
        k += 1;
        assert(out@ =~= stamp_indices(sorted@.take(k as int)));
    }
    assert(sorted@.take(sorted.len() as int) =~= sorted@);
    out
}

} // verus!
