//! The skills an agent is given: each id trimmed, known, and kept once.
use vstd::prelude::*;
use crate::error::{MosaicError, fails_with};
use crate::sorting::{text_in, views};
use crate::text::{cat3, owned, trim, trim_str};

verus! {

/// The skill ids an agent gets from the ids given, in order: each trimmed,
/// refused when blank or unknown (the first such one decides), and kept
/// once.
pub open spec fn skills_resolved(available: Seq<Seq<char>>, skills: Seq<Seq<char>>) -> Result<
    Seq<Seq<char>>,
    Seq<char>,
>
    decreases skills.len(),
{
    if skills.len() == 0 {
        Ok(Seq::<Seq<char>>::empty())
    } else {
        match skills_resolved(available, skills.drop_last()) {
            Err(m) => Err(m),
            Ok(r) => {
                let id = trim(skills.last());
                if id.len() == 0 {
                    Err("agent skill id cannot be empty"@)
                } else if !available.contains(id) {
                    Err("skill '"@ + id + "' not found; run `mosaic skills list` first"@)
                } else if r.contains(id) {
                    Ok(r)
                } else {
                    Ok(r.push(id))
                }
            },
        }
    }
}

/// Resolves the skill ids given to an agent against the skills installed
/// (`available`).
pub fn resolve_skill_ids(available: &Vec<String>, skills: Vec<String>) -> (out: Result<
    Vec<String>,
    MosaicError,
>)
    ensures
        match skills_resolved(views(available@), views(skills@)) {
            Ok(r) => out matches Ok(v) && views(v@) == r,
            Err(m) => fails_with(out, m),
        },
{
    let ghost all = views(skills@);
    let ghost avail = views(available@);
    let mut resolved: Vec<String> = Vec::new();
    let mut i: usize = 0;
    assert(all.take(0).len() == 0);
    assert(views(resolved@) =~= Seq::<Seq<char>>::empty());
    while i < skills.len()
        invariant
            i <= skills.len(),
            all == views(skills@),
            avail == views(available@),
            skills_resolved(avail, all.take(i as int)) == Ok::<Seq<Seq<char>>, Seq<char>>(
                views(resolved@),
            ),
        decreases skills.len() - i,
    {
        proof {
            assert(all.take(i + 1).drop_last() =~= all.take(i as int));
            assert(all.take(i + 1).last() == skills@[i as int]@);
        }
        let id = trim_str(skills[i].as_str());
        if id.as_str().is_empty() {
            proof {
                lemma_error_stays(avail, all, i as int + 1);
            }
            return Err(MosaicError::Validation(owned("agent skill id cannot be empty")));
        }
        if !text_in(available, id.as_str()) {
            proof {
                lemma_error_stays(avail, all, i as int + 1);
            }
            return Err(
                MosaicError::Validation(
                    cat3("skill '", id.as_str(), "' not found; run `mosaic skills list` first"),
                ),
            );
        }
        if !text_in(&resolved, id.as_str()) {
            let ghost before = views(resolved@);
            resolved.push(id);
            assert(views(resolved@) =~= before.push(resolved@.last()@));
        }
        i += 1;
    }
    assert(all.take(skills.len() as int) =~= all);
    Ok(resolved)
}

/// Once some prefix of the ids is refused, every longer prefix is refused
/// with the same message.
proof fn lemma_error_stays(avail: Seq<Seq<char>>, all: Seq<Seq<char>>, k: int)
    requires
        0 < k <= all.len(),
        skills_resolved(avail, all.take(k)) is Err,
    ensures
        skills_resolved(avail, all) == skills_resolved(avail, all.take(k)),
    decreases all.len() - k,
{
    if k < all.len() {
        assert(all.take(k + 1).drop_last() =~= all.take(k));
        lemma_error_stays(avail, all, k + 1);
    } else {
        assert(all.take(k) =~= all);
    }
}

} // verus!
