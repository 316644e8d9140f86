//! The environment scoping mode of a resolution request.
use vstd::prelude::*;

verus! {

/// How catalog entries are matched against the candidate names.
///
/// `Unscoped` asks for an exact-match resolution with no environment scoping;
/// `Env` restricts matching to names that embed one of the listed environment
/// tokens (such as `dev` or `prod`) as a path-like segment.
#[derive(Clone)]
pub enum EnvSetting {
    Unscoped,
    Env(Vec<String>),
}

} // verus!
