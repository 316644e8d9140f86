//! The classified, terminal failures of the resolution pipeline.
use vstd::prelude::*;

use crate::text::{dec_str, join_commas, join_with_commas, usize_to_string};

verus! {

/// One terminal failure of the resolution pipeline. Every stage returns its
/// error immediately; no stage retries or downgrades an earlier failure.
#[derive(Debug)]
pub enum RetrievalError {
    /// The secret store itself failed; its report is passed through verbatim.
    Aws(String),
    /// No catalog entry matched any candidate name.
    NotFound(String),
    /// Fewer entries matched than environments were requested.
    MissingEnv(String),
    /// More entries matched than the environment mode allows.
    DuplicateSecrets(String),
    /// The raw payload was present but not a valid JSON object of strings.
    Json,
}

/// The report when no catalog entry matches any candidate name.
pub open spec fn not_found_message(candidates: Seq<Seq<char>>) -> Seq<char> {
    "Could not find secret with any of these names: "@ + join_commas(candidates)
}

/// The report when an exact-match request finds several secrets at once.
pub open spec fn duplicate_exact_message(found: Seq<Seq<char>>) -> Seq<char> {
    "expected to find an exact match, instead found multiple possible secrets: "@ + join_commas(
        found,
    ) + ". Please specify an exact name"@
}

/// The report when some requested environment has no matching secret.
pub open spec fn missing_env_message(envs: Seq<Seq<char>>, matched: Seq<Seq<char>>) -> Seq<char> {
    "received envs "@ + join_commas(envs) + " but only matched these secrets: "@ + join_commas(
        matched,
    )
}

/// The report when more secrets match than environments were requested.
pub open spec fn duplicate_env_message(expected: nat, found: Seq<Seq<char>>) -> Seq<char> {
    "expected to find "@ + dec_str(expected) + " secrets, but found more: "@ + join_commas(found)
        + ". Please specify an exact name"@
}

/// Builds the not-found error, enumerating every candidate name tried.
pub fn not_found_error(candidates: &Vec<String>) -> (r: RetrievalError)
    ensures
        r matches RetrievalError::NotFound(m) && m@ == not_found_message(candidates.deep_view()),
{
    let mut m = String::new();
    m.append("Could not find secret with any of these names: ");
    let joined = join_with_commas(candidates);
    m.append(joined.as_str());
    proof {
        assert(m@ =~= not_found_message(candidates.deep_view()));
    }
    RetrievalError::NotFound(m)
}

/// Builds the duplicate-secrets error for an exact-match request that found
/// several secrets, enumerating all of them.
pub fn duplicate_exact_error(found: &Vec<String>) -> (r: RetrievalError)
    ensures
        r matches RetrievalError::DuplicateSecrets(m) && m@ == duplicate_exact_message(
            found.deep_view(),
        ),
{
    let mut m = String::new();
    m.append("expected to find an exact match, instead found multiple possible secrets: ");
    let joined = join_with_commas(found);
    m.append(joined.as_str());
    m.append(". Please specify an exact name");
    proof {
        assert(m@ =~= duplicate_exact_message(found.deep_view()));
    }
    RetrievalError::DuplicateSecrets(m)
}

/// Builds the missing-environment error, reporting the requested environments
/// against what was actually matched.
pub fn missing_env_error(envs: &Vec<String>, matched: &Vec<String>) -> (r: RetrievalError)
    ensures
        r matches RetrievalError::MissingEnv(m) && m@ == missing_env_message(
            envs.deep_view(),
            matched.deep_view(),
        ),
{
    let mut m = String::new();
    m.append("received envs ");
    let joined_envs = join_with_commas(envs);
    m.append(joined_envs.as_str());
    m.append(" but only matched these secrets: ");
    let joined_matched = join_with_commas(matched);
    m.append(joined_matched.as_str());
    proof {
        assert(m@ =~= missing_env_message(envs.deep_view(), matched.deep_view()));
    }
    RetrievalError::MissingEnv(m)
}

/// Builds the duplicate-secrets error for an environment-scoped request that
/// matched more secrets than environments, enumerating the whole match set.
pub fn duplicate_env_error(expected: usize, found: &Vec<String>) -> (r: RetrievalError)
    ensures
        r matches RetrievalError::DuplicateSecrets(m) && m@ == duplicate_env_message(
            expected as nat,
            found.deep_view(),
        ),
{
    let mut m = String::new();
    m.append("expected to find ");
    let count = usize_to_string(expected);
    m.append(count.as_str());
    m.append(" secrets, but found more: ");
    let joined = join_with_commas(found);
    m.append(joined.as_str());
    m.append(". Please specify an exact name");
    proof {
        assert(m@ =~= duplicate_env_message(expected as nat, found.deep_view()));
    }
    RetrievalError::DuplicateSecrets(m)
}

} // verus!
