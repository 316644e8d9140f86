//! Resolution of a logical secret identifier into one concrete secret record.
//!
//! Starting from a human-chosen identifier, the library derives alternative
//! spellings, narrows a secret catalog to the plausible matches, validates the
//! match count against the requested deployment environments, selects the one
//! full name to fetch together with its environment-agnostic base name, and
//! decodes a raw secret payload into a flat string-to-string mapping.
//!
//! Listing the catalog and fetching a raw payload are the secret store's
//! business; the library works on the plain values handed over by whatever
//! client performs those two reads.
use vstd::prelude::*;

pub mod catalog;
pub mod decode;
pub mod errors;
pub mod input;
pub mod names;
pub mod pipeline;
pub mod text;
pub mod validation;

pub use catalog::filter_secrets_list;
pub use catalog::is_exact_match_with_base_secret;
pub use catalog::is_match_with_one_secret_prefixed_with_env;
pub use catalog::NonEmptySecrets;
pub use decode::get_secret_value_as_map;
pub use errors::RetrievalError;
pub use input::EnvSetting;
pub use names::lowercase_and_add;
pub use names::possible_base_names;
pub use pipeline::resolve_secret_names;
pub use validation::ValidatedSecrets;

verus! {

/// True when an environment setting is usable by the pipeline: the scoped
/// variant must name at least one environment.
pub open spec fn env_setting_well_formed(setting: &EnvSetting) -> bool {
    match setting {
        EnvSetting::Unscoped => true,
        EnvSetting::Env(envs) => envs@.len() > 0,
    }
}

} // verus!
