//! File-system paths as text, with `/` as the separator.
use vstd::prelude::*;
use crate::text::{cat, cat3, owned};

verus! {

/// `base` joined with the relative name `name`: a separator goes between them
/// unless `base` is empty or already ends with one.
pub open spec fn join_path(base: Seq<char>, name: Seq<char>) -> Seq<char> {
    if base.len() == 0 {
        name
    } else if base.last() == '/' {
        base + name
    } else {
        base + "/"@ + name
    }
}

/// `base` joined with the relative name `name`.
pub fn join(base: &str, name: &str) -> (out: String)
    ensures
        out@ == join_path(base@, name@),
{
    let v = crate::text::chars_of(base);
    if v.len() == 0 {
        owned(name)
    } else if v[v.len() - 1] == '/' {
        cat(base, name)
    } else {
        proof {
            reveal_strlit("/");
        }
        cat3(base, "/", name)
    }
}

/// `p` without its trailing separators.
pub open spec fn strip_trailing_slashes(p: Seq<char>) -> Seq<char>
    decreases p.len(),
{
    if p.len() > 0 && p.last() == '/' {
        strip_trailing_slashes(p.drop_last())
    } else {
        p
    }
}

/// The position of the last separator in `p`, if any.
pub open spec fn last_slash(p: Seq<char>) -> Option<int>
    decreases p.len(),
{
    if p.len() == 0 {
        None
    } else if p.last() == '/' {
        Some(p.len() - 1)
    } else {
        last_slash(p.drop_last())
    }
}

/// The directory holding `p`: what comes before its last component
/// (`/` for a component right under the root, the empty path for a bare
/// name), or nothing for the root and the empty path.
pub open spec fn parent_path(p: Seq<char>) -> Option<Seq<char>> {
    let t = strip_trailing_slashes(p);
    if t.len() == 0 {
        None
    } else {
        match last_slash(t) {
            None => Some(Seq::<char>::empty()),
            Some(i) => if i == 0 {
                Some("/"@)
            } else {
                Some(t.take(i))
            },
        }
    }
}

/// The directory holding `p`.
pub fn parent(p: &str) -> (out: Option<String>)
    ensures
        match out {
            Some(s) => parent_path(p@) == Some(s@),
            None => parent_path(p@) is None,
        },
{
    let v = crate::text::chars_of(p);
    let mut end: usize = v.len();
    assert(v@.take(end as int) =~= v@);
    while end > 0 && v[end - 1] == '/'
        invariant
            end <= v.len(),
            v@ == p@,
            strip_trailing_slashes(v@) == strip_trailing_slashes(v@.take(end as int)),
        decreases end,
    {
        proof {
            assert(v@.take(end as int).drop_last() =~= v@.take(end - 1));
        }
        end -= 1;
    }
    let ghost t = v@.take(end as int);
    proof {
        if end > 0 {
            assert(t.last() == v@[end - 1]);
        }
        assert(strip_trailing_slashes(t) == t);
    }
    if end == 0 {
        return None;
    }
    let mut k: usize = end;
    assert(t.take(k as int) =~= t);
    while k > 0 && v[k - 1] != '/'
        invariant
            k <= end <= v.len(),
            t == v@.take(end as int),
            last_slash(t) == last_slash(t.take(k as int)),
        decreases k,
    {
        proof {
            assert(t.take(k as int).drop_last() =~= t.take(k - 1));
            assert(t.take(k as int).last() == v@[k - 1]);
        }
        k -= 1;
    }
    proof {
        if k > 0 {
            assert(t.take(k as int).last() == v@[k - 1]);
            assert(last_slash(t.take(k as int)) == Some(k - 1));
        } else {
            assert(t.take(0) =~= Seq::<char>::empty());
        }
    }
    if k == 0 {
        Some(String::new())
    } else if k == 1 {
        proof {
            reveal_strlit("/");
        }
        Some(owned("/"))
    } else {
        let mut out: Vec<char> = Vec::new();
        let mut i: usize = 0;
        while i < k - 1
            invariant
                k <= end <= v.len(),
                i <= k - 1,
                out@ == v@.take(i as int),
            decreases k - 1 - i,
        {
            out.push(v[i]);
            i += 1;
            assert(out@ =~= v@.take(i as int));
        }
        assert(out@ =~= t.take(k - 1));
        Some(crate::text::string_of(out.as_slice()))
    }
}

/// The last component of `p`, without trailing separators; none for the
/// empty path, the root and a last component `..`.
pub open spec fn file_name(p: Seq<char>) -> Option<Seq<char>> {
    let t = strip_trailing_slashes(p);
    let name = match last_slash(t) {
        Some(i) => t.skip(i + 1),
        None => t,
    };
    if name.len() == 0 || name == ".."@ {
        None
    } else {
        Some(name)
    }
}

/// The position of the last `.` in `s`, if any.
pub open spec fn last_dot(s: Seq<char>) -> Option<int>
    decreases s.len(),
{
    if s.len() == 0 {
        None
    } else if s.last() == '.' {
        Some(s.len() - 1)
    } else {
        last_dot(s.drop_last())
    }
}

/// The extension of the file name of `p`: what follows its last `.`, unless
/// that dot starts the name.
pub open spec fn extension(p: Seq<char>) -> Option<Seq<char>> {
    match file_name(p) {
        None => None,
        Some(name) => match last_dot(name) {
            Some(i) => if i == 0 {
                None
            } else {
                Some(name.skip(i + 1))
            },
            None => None,
        },
    }
}

fn last_index_of(v: &Vec<char>, end: usize, c: char) -> (out: Option<usize>)
    requires
        end <= v@.len(),
    ensures
        match out {
            Some(i) => i < end && v@[i as int] == c && forall|j: int| i < j < end ==> v@[j] != c,
            None => forall|j: int| 0 <= j < end ==> v@[j] != c,
        },
{
    let mut k: usize = end;
    while k > 0
        invariant
            k <= end <= v@.len(),
            forall|j: int| k <= j < end ==> v@[j] != c,
        decreases k,
    {
        if v[k - 1] == c {
            return Some(k - 1);
        }
        k -= 1;
    }
    None
}

proof fn lemma_last_slash_is(t: Seq<char>, end: int, found: Option<int>)
    requires
        0 <= end <= t.len(),
        match found {
            Some(i) => 0 <= i < end && t[i] == '/' && forall|j: int| i < j < end ==> t[j] != '/',
            None => forall|j: int| 0 <= j < end ==> t[j] != '/',
        },
    ensures
        last_slash(t.take(end)) == found,
    decreases end,
{
    let s = t.take(end);
    if end > 0 {
        assert(s.drop_last() =~= t.take(end - 1));
        assert(s.last() == t[end - 1]);
        if !(found == Some(end - 1)) {
            lemma_last_slash_is(t, end - 1, found);
        }
    }
}

proof fn lemma_last_dot_is(t: Seq<char>, end: int, found: Option<int>)
    requires
        0 <= end <= t.len(),
        match found {
            Some(i) => 0 <= i < end && t[i] == '.' && forall|j: int| i < j < end ==> t[j] != '.',
            None => forall|j: int| 0 <= j < end ==> t[j] != '.',
        },
    ensures
        last_dot(t.take(end)) == found,
    decreases end,
{
    let s = t.take(end);
    if end > 0 {
        assert(s.drop_last() =~= t.take(end - 1));
        assert(s.last() == t[end - 1]);
        if !(found == Some(end - 1)) {
            lemma_last_dot_is(t, end - 1, found);
        }
    }
}

proof fn lemma_strip_trailing(p: Seq<char>, end: int)
    requires
        0 <= end <= p.len(),
        forall|j: int| end <= j < p.len() ==> p[j] == '/',
        end == 0 || p[end - 1] != '/',
    ensures
        strip_trailing_slashes(p) == p.take(end),
    decreases p.len(),
{
    if p.len() > end {
        assert(p.drop_last().take(end) =~= p.take(end));
        lemma_strip_trailing(p.drop_last(), end);
    } else {
        assert(p.take(end) =~= p);
    }
}

fn slice_chars(v: &Vec<char>, a: usize, b: usize) -> (out: Vec<char>)
    requires
        a <= b <= v@.len(),
    ensures
        out@ == v@.subrange(a as int, b as int),
{
    let mut out: Vec<char> = Vec::new();
    let mut i: usize = a;
    while i < b
        invariant
            a <= i <= b <= v@.len(),
            out@ == v@.subrange(a as int, i as int),
        decreases b - i,
    {
        out.push(v[i]);
        i += 1;
        assert(out@ =~= v@.subrange(a as int, i as int));
    }
    out
}

/// The file name of `p`.
pub fn file_name_of(p: &str) -> (out: Option<String>)
    ensures
        match out {
            Some(s) => file_name(p@) == Some(s@),
            None => file_name(p@) is None,
        },
{
    let v = crate::text::chars_of(p);
    let mut end: usize = v.len();
    while end > 0 && v[end - 1] == '/'
        invariant
            end <= v.len(),
            v@ == p@,
            forall|j: int| end <= j < v@.len() ==> v@[j] == '/',
        decreases end,
    {
        end -= 1;
    }
    proof {
        lemma_strip_trailing(v@, end as int);
    }
    let ghost t = v@.take(end as int);
    let slash = last_index_of(&v, end, '/');
    proof {
        lemma_last_slash_is(v@, end as int, match slash {
            Some(i) => Some(i as int),
            None => None,
        });
    }
    let start = match slash {
        Some(i) => i + 1,
        None => 0,
    };
    let name = slice_chars(&v, start, end);
    proof {
        match slash {
            Some(i) => assert(name@ =~= t.skip(i + 1)),
            None => assert(name@ =~= t),
        }
        reveal_strlit("..");
    }
    if name.len() == 0 || (name.len() == 2 && name[0] == '.' && name[1] == '.') {
        proof {
            if name@.len() == 2 && name@[0] == '.' && name@[1] == '.' {
                assert(name@ =~= ".."@);
            }
        }
        return None;
    }
    assert(name@ != ".."@);
    Some(crate::text::string_of(name.as_slice()))
}

/// The extension of the file name of `p`.
pub fn extension_of(p: &str) -> (out: Option<String>)
    ensures
        match out {
            Some(s) => extension(p@) == Some(s@),
            None => extension(p@) is None,
        },
{
    let name = match file_name_of(p) {
        Some(n) => n,
        None => return None,
    };
    let v = crate::text::chars_of(name.as_str());
    let dot = last_index_of(&v, v.len(), '.');
    proof {
        lemma_last_dot_is(v@, v@.len() as int, match dot {
            Some(i) => Some(i as int),
            None => None,
        });
        assert(v@.take(v@.len() as int) =~= v@);
    }
    match dot {
        None => None,
        Some(i) => if i == 0 {
            None
        } else {
            let ext = slice_chars(&v, i + 1, v.len());
            assert(ext@ =~= v@.skip(i + 1));
            Some(crate::text::string_of(ext.as_slice()))
        },
    }
}

} // verus!
