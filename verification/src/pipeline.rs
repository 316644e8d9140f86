//! The resolution pipeline: identifier and catalog in, resolved names out.
//!
//! Composes candidate generation, catalog filtering, environment validation
//! and name selection in strict sequence, short-circuiting on the first
//! failure. Fetching the raw payload for the resolved full name is the secret
//! store's business; its result is decoded by [`crate::get_secret_value_as_map`].
use vstd::prelude::*;

use crate::catalog::{filter_secrets_list, matching_entries};
use crate::errors::{
    duplicate_env_message, duplicate_exact_message, missing_env_message, not_found_message,
    RetrievalError,
};
use crate::input::EnvSetting;
use crate::names::{candidate_seqs, possible_base_names};
use crate::validation::{env_scoped, preferred_entry, strip_env_segments, ValidatedSecrets};

verus! {

/// Resolves the identifier against the catalog under the environment setting,
/// yielding the full name to fetch and its environment-agnostic base name, or
/// the first classified failure of the stages.
pub fn resolve_secret_names(
    catalog: Vec<String>,
    secret_struct_name: &str,
    env_setting: EnvSetting,
) -> (r: Result<(String, String), RetrievalError>)
    requires
        crate::env_setting_well_formed(&env_setting),
    ensures
        ({
            let cands = candidate_seqs(secret_struct_name@);
            let kept = matching_entries(catalog.deep_view(), cands, &env_setting);
            match &env_setting {
                EnvSetting::Unscoped => {
                    if kept.len() == 0 {
                        r matches Err(e) && e matches RetrievalError::NotFound(m) && m@
                            == not_found_message(cands)
                    } else if kept.len() == 1 {
                        r matches Ok(p) && p.0@ == kept[0] && p.1@ == kept[0]
                    } else {
                        r matches Err(e) && e matches RetrievalError::DuplicateSecrets(m) && m@
                            == duplicate_exact_message(kept)
                    }
                },
                EnvSetting::Env(envs) => {
                    let scoped = env_scoped(kept, envs.deep_view());
                    if kept.len() == 0 {
                        r matches Err(e) && e matches RetrievalError::NotFound(m) && m@
                            == not_found_message(cands)
                    } else if scoped.len() == envs@.len() {
                        r matches Ok(p) && p.0@ == preferred_entry(scoped) && p.1@
                            == strip_env_segments(preferred_entry(scoped), envs.deep_view())
                    } else if scoped.len() < envs@.len() {
                        r matches Err(e) && e matches RetrievalError::MissingEnv(m) && m@
                            == missing_env_message(envs.deep_view(), scoped)
                    } else {
                        r matches Err(e) && e matches RetrievalError::DuplicateSecrets(m) && m@
                            == duplicate_env_message(envs@.len(), kept)
                    }
                },
            }
        }),
{
    let base_names = possible_base_names(secret_struct_name);
    let found = match filter_secrets_list(catalog, base_names, &env_setting) {
        Ok(f) => f,
        Err(e) => {
            return Err(e);
        },
    };
    let validated = match ValidatedSecrets::new(found, env_setting) {
        Ok(v) => v,
        Err(e) => {
            return Err(e);
        },
    };
    let (full_secret_name, actual_base_name) = validated.get_full_and_base_secret();
    Ok((full_secret_name, actual_base_name))
}

} // verus!
