//! Catalog filtering: narrowing the secret catalog to plausible matches.
//!
//! Without environment scoping an entry matches only by exact name equality
//! with one of the candidates. Under environment scoping an entry matches when
//! it embeds `/{env}/{candidate}` — slash-delimited, so a name that merely
//! contains a candidate without that envelope does not match.
use vstd::prelude::*;

use crate::errors::{not_found_error, not_found_message, RetrievalError};
use crate::input::EnvSetting;
use crate::text::{contains_seq, contains_substring};

verus! {

/// The entry names that survived the catalog filter; never handed out empty.
pub struct NonEmptySecrets(pub Vec<String>);

impl NonEmptySecrets {
    /// The filter never constructs an empty match set.
    pub open spec fn well_formed(&self) -> bool {
        self.0@.len() > 0
    }
}

/// An exact match: the entry name equals one of the candidate names.
pub open spec fn spec_exact_match(candidates: Seq<Seq<char>>, name: Seq<char>) -> bool {
    candidates.contains(name)
}

/// The slash-delimited envelope `/{env}/{candidate}`.
pub open spec fn env_candidate_pattern(env: Seq<char>, candidate: Seq<char>) -> Seq<char> {
    seq!['/'] + env + seq!['/'] + candidate
}

/// An environment-scoped match: the entry name contains `/{env}/{candidate}`
/// for some requested environment and some candidate name.
pub open spec fn spec_env_match(
    candidates: Seq<Seq<char>>,
    name: Seq<char>,
    envs: Seq<Seq<char>>,
) -> bool {
    exists|i: int, j: int|
        0 <= i < envs.len() && 0 <= j < candidates.len() && contains_seq(
            name,
            env_candidate_pattern(envs[i], candidates[j]),
        )
}

/// Whether one catalog entry matches under the given environment setting.
pub open spec fn entry_matches(
    candidates: Seq<Seq<char>>,
    name: Seq<char>,
    setting: &EnvSetting,
) -> bool {
    match setting {
        EnvSetting::Unscoped => spec_exact_match(candidates, name),
        EnvSetting::Env(envs) => spec_env_match(candidates, name, envs.deep_view()),
    }
}

/// The catalog entries that match, in catalog order.
pub open spec fn matching_entries(
    catalog: Seq<Seq<char>>,
    candidates: Seq<Seq<char>>,
    setting: &EnvSetting,
) -> Seq<Seq<char>> {
    catalog.filter(|name: Seq<char>| entry_matches(candidates, name, setting))
}

/// Whether the entry name is exactly equal to one of the candidate names.
pub fn is_exact_match_with_base_secret(base_secret_names: &Vec<String>, v: &String) -> (r: bool)
    ensures
        r == spec_exact_match(base_secret_names.deep_view(), v@),
{
    let ghost cands = base_secret_names.deep_view();
    let n = base_secret_names.len();
    let mut i: usize = 0;
    while i < n
        invariant
            cands == base_secret_names.deep_view(),
            n == base_secret_names@.len(),
            cands.len() == n,
            i <= n,
            forall|k: int| 0 <= k < i ==> cands[k] != v@,
        decreases n - i,
    {
        if base_secret_names[i] == *v {
            proof {
                assert(cands[i as int] == v@);
            }
            return true;
        }
        i = i + 1;
    }
    proof {
        if spec_exact_match(cands, v@) {
            let k = choose|k: int| 0 <= k < cands.len() && cands[k] == v@;
            assert(cands[k] != v@);
        }
    }
    false
}

/// Builds the exec pattern string `/{env}/{candidate}`.
fn build_env_candidate_pattern(env: &String, candidate: &String) -> (r: String)
    ensures
        r@ == env_candidate_pattern(env@, candidate@),
{
    let mut r = String::new();
    r.append("/");
    r.append(env.as_str());
    r.append("/");
    r.append(candidate.as_str());
    proof {
        reveal_strlit("/");
        assert("/"@ =~= seq!['/']);
        assert(r@ =~= env_candidate_pattern(env@, candidate@));
    }
    r
}

/// Whether the entry name contains `/{env}/{candidate}` for some requested
/// environment and some candidate name.
pub fn is_match_with_one_secret_prefixed_with_env(
    base_secret_names: &Vec<String>,
    v: &String,
    envs: &Vec<String>,
) -> (r: bool)
    ensures
        r == spec_env_match(base_secret_names.deep_view(), v@, envs.deep_view()),
{
    let ghost cands = base_secret_names.deep_view();
    let ghost evs = envs.deep_view();
    let ne = envs.len();
    let nc = base_secret_names.len();
    let mut i: usize = 0;
    while i < ne
        invariant
            cands == base_secret_names.deep_view(),
            evs == envs.deep_view(),
            ne == envs@.len(),
            nc == base_secret_names@.len(),
            evs.len() == ne,
            cands.len() == nc,
            i <= ne,
            forall|k: int, j: int|
                0 <= k < i && 0 <= j < nc ==> !contains_seq(
                    v@,
                    env_candidate_pattern(evs[k], cands[j]),
                ),
        decreases ne - i,
    {
        let mut j: usize = 0;
        while j < nc
            invariant
                cands == base_secret_names.deep_view(),
                evs == envs.deep_view(),
                ne == envs@.len(),
                nc == base_secret_names@.len(),
                evs.len() == ne,
                cands.len() == nc,
                i < ne,
                j <= nc,
                forall|l: int| 0 <= l < j ==> !contains_seq(
                    v@,
                    env_candidate_pattern(evs[i as int], cands[l]),
                ),
            decreases nc - j,
        {
            let pattern = build_env_candidate_pattern(&envs[i], &base_secret_names[j]);
            if contains_substring(v.as_str(), pattern.as_str()) {
                proof {
                    assert(contains_seq(v@, env_candidate_pattern(evs[i as int], cands[j as int])));
                }
                return true;
            }
            j = j + 1;
        }
        i = i + 1;
    }
    proof {
        if spec_env_match(cands, v@, evs) {
            let (k, j) = choose|k: int, j: int|
                0 <= k < evs.len() && 0 <= j < cands.len() && contains_seq(
                    v@,
                    env_candidate_pattern(evs[k], cands[j]),
                );
            assert(!contains_seq(v@, env_candidate_pattern(evs[k], cands[j])));
        }
    }
    false
}

/// Narrows the catalog to the entries matching the candidate names under the
/// given environment setting. When nothing matches, fails with a not-found
/// error that enumerates every candidate name tried.
pub fn filter_secrets_list(
    catalog: Vec<String>,
    base_secret_names: Vec<String>,
    env_setting: &EnvSetting,
) -> (r: Result<NonEmptySecrets, RetrievalError>)
    ensures
        ({
            let kept = matching_entries(
                catalog.deep_view(),
                base_secret_names.deep_view(),
                env_setting,
            );
            match r {
                Ok(m) => kept.len() > 0 && m.well_formed() && m.0.deep_view() == kept,
                Err(e) => {
                    &&& kept.len() == 0
                    &&& e matches RetrievalError::NotFound(msg) && msg@ == not_found_message(
                        base_secret_names.deep_view(),
                    )
                },
            }
        }),
{
    let ghost cat = catalog.deep_view();
    let ghost cands = base_secret_names.deep_view();
    let ghost pred = |name: Seq<char>| entry_matches(cands, name, env_setting);
    let n = catalog.len();
    let mut possible: Vec<String> = Vec::new();
    let mut i: usize = 0;
    proof {
        reveal(Seq::filter);
        assert(cat.take(0).filter(pred) =~= Seq::<Seq<char>>::empty());
        assert(possible.deep_view() =~= cat.take(0).filter(pred));
    }
    while i < n
        invariant
            cat == catalog.deep_view(),
            cands == base_secret_names.deep_view(),
            pred == (|name: Seq<char>| entry_matches(cands, name, env_setting)),
            n == catalog@.len(),
            cat.len() == n,
            i <= n,
            possible.deep_view() == cat.take(i as int).filter(pred),
        decreases n - i,
    {
        let matched = match env_setting {
            EnvSetting::Unscoped => is_exact_match_with_base_secret(
                &base_secret_names,
                &catalog[i],
            ),
            EnvSetting::Env(envs) => is_match_with_one_secret_prefixed_with_env(
                &base_secret_names,
                &catalog[i],
                envs,
            ),
        };
        let ghost pre = possible.deep_view();
        if matched {
            possible.push(catalog[i].clone());
        }
        proof {
            reveal(Seq::filter);
            let stepped = cat.take(i + 1);
            assert(stepped.drop_last() =~= cat.take(i as int));
            assert(stepped.last() == cat[i as int]);
            assert(matched == pred(cat[i as int]));
            if matched {
                assert(possible.deep_view() =~= pre.push(cat[i as int]));
            }
            assert(possible.deep_view() =~= stepped.filter(pred));
        }
        i = i + 1;
    }
    proof {
        assert(cat.take(n as int) =~= cat);
    }
    if possible.is_empty() {
        proof {
            assert(matching_entries(cat, cands, env_setting).len() == 0);
        }
        Err(not_found_error(&base_secret_names))
    } else {
        proof {
            assert(matching_entries(cat, cands, env_setting).len() > 0);
        }
        Ok(NonEmptySecrets(possible))
    }
}

} // verus!
