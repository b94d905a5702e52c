//! Model listings and model choice: the filters of `models list`, the model
//! asked for, and the chain of fallbacks tried after it.
use vstd::prelude::*;
use crate::error::{MosaicError, fails_with};
use crate::sorting::{text_in, views};
use crate::text::{ascii_lower, ascii_lowercase, contains_sub, owned, str_contains, str_eq, trim, trim_str};

verus! {

/// A model a provider offers: its id and, where known, its owner.
#[derive(Debug, Clone)]
pub struct ModelEntry {
    pub id: String,
    pub owned_by: Option<String>,
}

/// The `--query` of a listing, trimmed; a blank one is refused.
pub fn normalize_models_query(query: Option<String>) -> (out: Result<Option<String>, MosaicError>)
    ensures
        match query {
            Some(q) => if trim(q@).len() == 0 {
                fails_with(out, "--query cannot be empty"@)
            } else {
                out matches Ok(Some(t)) && t@ == trim(q@)
            },
            None => out matches Ok(None),
        },
{
    match query {
        Some(value) => {
            let trimmed = trim_str(value.as_str());
            if trimmed.as_str().is_empty() {
                return Err(MosaicError::Validation(owned("--query cannot be empty")));
            }
            Ok(Some(trimmed))
        },
        None => Ok(None),
    }
}

/// The `--limit` of a listing; zero is refused.
pub fn normalize_models_limit(limit: Option<usize>) -> (out: Result<Option<usize>, MosaicError>)
    ensures
        limit == Some(0usize) ==> fails_with(out, "--limit must be greater than 0"@),
        limit != Some(0usize) ==> out == Ok::<Option<usize>, MosaicError>(limit),
{
    match limit {
        Some(0) => Err(MosaicError::Validation(owned("--limit must be greater than 0"))),
        _ => Ok(limit),
    }
}

/// A model matches a query when its id, in ASCII lower case, contains the
/// query in ASCII lower case.
pub open spec fn model_matches(m: ModelEntry, query: Seq<char>) -> bool {
    contains_sub(ascii_lower(m.id@), ascii_lower(query))
}

/// The models that match the query, in order.
pub open spec fn matching_models(s: Seq<ModelEntry>, query: Seq<char>) -> Seq<ModelEntry>
    decreases s.len(),
{
    if s.len() == 0 {
        s
    } else if model_matches(s.last(), query) {
        matching_models(s.drop_last(), query).push(s.last())
    } else {
        matching_models(s.drop_last(), query)
    }
}

/// The models kept for a query, or all of them without one.
pub open spec fn models_for_query(s: Seq<ModelEntry>, query: Option<Seq<char>>) -> Seq<ModelEntry> {
    match query {
        Some(q) => matching_models(s, q),
        None => s,
    }
}

/// The first `limit` of the models, or all without a limit.
pub open spec fn models_within(s: Seq<ModelEntry>, limit: Option<usize>) -> Seq<ModelEntry> {
    match limit {
        Some(n) => if s.len() > n {
            s.take(n as int)
        } else {
            s
        },
        None => s,
    }
}

/// A listing: how many models there were, how many matched, how many are
/// returned, and those returned.
#[derive(Debug, Clone)]
pub struct ModelSelection {
    pub total_models: usize,
    pub matched_models: usize,
    pub returned_models: usize,
    pub models: Vec<ModelEntry>,
}

/// Filters the models by the query (ASCII case ignored) and keeps the first
/// `limit` of those that match.
pub fn select_models(models: Vec<ModelEntry>, query: Option<&str>, limit: Option<usize>) -> (out:
    ModelSelection)
    ensures
        out.total_models == models@.len(),
        out.matched_models == models_for_query(
            models@,
            match query {
                Some(q) => Some(q@),
                None => None,
            },
        ).len(),
        out.models@ == models_within(
            models_for_query(
                models@,
                match query {
                    Some(q) => Some(q@),
                    None => None,
                },
            ),
            limit,
        ),
        out.returned_models == out.models@.len(),
{
    let total_models = models.len();
    let ghost all = models@;
    let mut kept: Vec<ModelEntry> = Vec::new();
    match query {
        Some(q) => {
            let query_lc = ascii_lowercase(q);
            for m in it: models
                invariant
                    it.seq() == all,
                    query_lc@ == ascii_lower(q@),
                    kept@ == matching_models(all.take(it.index() as int), q@),
            {
                let ghost k = it.index();
                proof {
                    assert(all.take(k + 1).drop_last() =~= all.take(k as int));
                    assert(all.take(k + 1).last() == m);
                }
                let id_lc = ascii_lowercase(m.id.as_str());
                if str_contains(id_lc.as_str(), query_lc.as_str()) {
                    kept.push(m);
                }
            }
            proof {
                assert(all.take(all.len() as int) =~= all);
            }
        },
        None => {
            kept = models;
        },
    }
    let matched_models = kept.len();
    if let Some(n) = limit {
        if kept.len() > n {
            kept.truncate(n);
        }
    }
    let returned_models = kept.len();
    ModelSelection { total_models, matched_models, returned_models, models: kept }
}

/// The model a `models resolve` asks for: the one given, trimmed, else the
/// profile's current model; a blank one is refused.
pub fn requested_model(model: Option<String>, current_model: &str) -> (out: Result<
    String,
    MosaicError,
>)
    ensures
        match model {
            Some(m) => if trim(m@).len() == 0 {
                fails_with(out, "model cannot be empty"@)
            } else {
                out matches Ok(r) && r@ == trim(m@)
            },
            None => if trim(current_model@).len() == 0 {
                fails_with(out, "model cannot be empty"@)
            } else {
                out matches Ok(r) && r@ == current_model@
            },
        },
{
    let requested = match model {
        Some(m) => {
            let t = trim_str(m.as_str());
            if t.as_str().is_empty() {
                return Err(MosaicError::Validation(owned("model cannot be empty")));
            }
            proof {
                crate::text::lemma_trim_idempotent(m@);
            }
            t
        },
        None => owned(current_model),
    };
    if trim_str(requested.as_str()).as_str().is_empty() {
        return Err(MosaicError::Validation(owned("model cannot be empty")));
    }
    Ok(requested)
}

/// The model a `models set` names, trimmed; a blank one is refused.
pub fn normalize_model_name(model: &str) -> (out: Result<String, MosaicError>)
    ensures
        trim(model@).len() == 0 ==> fails_with(out, "model cannot be empty"@),
        trim(model@).len() > 0 ==> (out matches Ok(r) && r@ == trim(model@)),
{
    let t = trim_str(model);
    if t.as_str().is_empty() {
        Err(MosaicError::Validation(owned("model cannot be empty")))
    } else {
        Ok(t)
    }
}

/// The fallback chain: the resolved fallbacks in order, without the
/// effective model and without repeats.
pub open spec fn chain_of(effective: Seq<char>, resolved: Seq<Seq<char>>) -> Seq<Seq<char>>
    decreases resolved.len(),
{
    if resolved.len() == 0 {
        Seq::<Seq<char>>::empty()
    } else {
        let c = chain_of(effective, resolved.drop_last());
        let x = resolved.last();
        if x == effective || c.contains(x) {
            c
        } else {
            c.push(x)
        }
    }
}

/// Builds the fallback chain from the fallbacks as the profile's aliases
/// resolve them.
pub fn fallback_chain(effective_model: &str, resolved: &Vec<String>) -> (out: Vec<String>)
    ensures
        views(out@) == chain_of(effective_model@, views(resolved@)),
{
    let ghost s = views(resolved@);
    let mut out: Vec<String> = Vec::new();
    let mut i: usize = 0;
    while i < resolved.len()
        invariant
            i <= resolved.len(),
            s == views(resolved@),
            views(out@) == chain_of(effective_model@, s.take(i as int)),
        decreases resolved.len() - i,
    {
        proof {
            assert(s.take(i + 1).drop_last() =~= s.take(i as int));
            assert(s.take(i + 1).last() == resolved@[i as int]@);
        }
        let x = resolved[i].as_str();
        if !str_eq(x, effective_model) && !text_in(&out, x) {
            let ghost before = out@;
            out.push(resolved[i].clone());
            assert(views(out@) =~= views(before).push(x@));
        }
        i += 1;
    }
    assert(s.take(s.len() as int) =~= s);
    out
}

} // verus!
