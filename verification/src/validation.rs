//! Environment validation and canonical name selection.
//!
//! A match set is validated against the requested environments: exact-match
//! mode demands exactly one entry, environment mode demands exactly one entry
//! per requested environment. From a validated set, the entry to fetch is the
//! first one containing `/dev/`, falling back to the first entry, and its base
//! name is that entry with every `/{env}/` segment removed.
use vstd::prelude::*;

use crate::catalog::NonEmptySecrets;
use crate::errors::{
    duplicate_env_error, duplicate_env_message, duplicate_exact_error, duplicate_exact_message,
    missing_env_error, missing_env_message, RetrievalError,
};
use crate::input::EnvSetting;
use crate::text::{
    chars_of, chars_to_string, contains_seq, contains_substring, remove_all, remove_all_chars,
};

verus! {

/// `s` contains one of the tokens as a substring.
pub open spec fn contains_any(s: Seq<char>, tokens: Seq<Seq<char>>) -> bool {
    exists|k: int| 0 <= k < tokens.len() && contains_seq(s, tokens[k])
}

/// The names that embed one of the requested environment tokens, in order.
pub open spec fn env_scoped(names: Seq<Seq<char>>, envs: Seq<Seq<char>>) -> Seq<Seq<char>> {
    names.filter(|s: Seq<char>| contains_any(s, envs))
}

/// The environment token wrapped in slashes: `/{env}/`.
pub open spec fn slash_wrapped(env: Seq<char>) -> Seq<char> {
    seq!['/'] + env + seq!['/']
}

/// The name with every `/{env}/` segment removed, for each environment in
/// order.
pub open spec fn strip_env_segments(full: Seq<char>, envs: Seq<Seq<char>>) -> Seq<char>
    decreases envs.len(),
{
    if envs.len() == 0 {
        full
    } else {
        strip_env_segments(remove_all(full, slash_wrapped(envs[0])), envs.skip(1))
    }
}

/// The position of the first name containing `pat`, if any.
pub open spec fn find_containing(names: Seq<Seq<char>>, pat: Seq<char>) -> Option<int>
    decreases names.len(),
{
    if names.len() == 0 {
        None
    } else if contains_seq(names[0], pat) {
        Some(0)
    } else {
        match find_containing(names.skip(1), pat) {
            Some(i) => Some(i + 1),
            None => None,
        }
    }
}

/// `find_containing` returns exactly the first name containing `pat`.
proof fn lemma_find_containing(names: Seq<Seq<char>>, pat: Seq<char>)
    ensures
        match find_containing(names, pat) {
            Some(i) => 0 <= i < names.len() && contains_seq(names[i], pat) && forall|k: int|
                0 <= k < i ==> !contains_seq(names[k], pat),
            None => forall|k: int| 0 <= k < names.len() ==> !contains_seq(names[k], pat),
        },
    decreases names.len(),
{
    if names.len() > 0 && !contains_seq(names[0], pat) {
        lemma_find_containing(names.skip(1), pat);
        assert(forall|k: int| 1 <= k < names.len() ==> names.skip(1)[k - 1] == names[k]);
    }
}

/// The `/dev/` path segment preferred when choosing the entry to fetch.
pub open spec fn dev_segment() -> Seq<char> {
    seq!['/', 'd', 'e', 'v', '/']
}

/// The entry fetched from a validated set: the first entry containing
/// `/dev/`, or the first entry overall when none does.
pub open spec fn preferred_entry(names: Seq<Seq<char>>) -> Seq<char>
    recommends
        names.len() > 0,
{
    match find_containing(names, dev_segment()) {
        Some(i) => names[i],
        None => names[0],
    }
}

/// A validated match set together with the environment setting it was
/// validated against.
pub struct ValidatedSecrets {
    pub secrets: Vec<String>,
    pub env_setting: EnvSetting,
}

impl ValidatedSecrets {
    /// Exact-match mode holds exactly one name; environment mode holds
    /// exactly one name per requested environment.
    pub open spec fn well_formed(&self) -> bool {
        &&& self.secrets@.len() > 0
        &&& match &self.env_setting {
            EnvSetting::Unscoped => self.secrets@.len() == 1,
            EnvSetting::Env(envs) => envs@.len() > 0 && self.secrets@.len() == envs@.len(),
        }
    }

    /// Validates the match set against the environment setting: exact-match
    /// mode accepts exactly one match and otherwise reports duplicates;
    /// environment mode keeps the matches embedding a requested environment
    /// token and accepts exactly one per environment, reporting too few as a
    /// missing environment and too many as duplicates.
    pub fn new(found_secret_names: NonEmptySecrets, env_setting: EnvSetting) -> (r: Result<
        ValidatedSecrets,
        RetrievalError,
    >)
        requires
            crate::env_setting_well_formed(&env_setting),
        ensures
            ({
                let found = found_secret_names.0.deep_view();
                match &env_setting {
                    EnvSetting::Unscoped => {
                        if found.len() == 1 {
                            r matches Ok(v) && v.well_formed() && v.secrets.deep_view() == found
                                && v.env_setting is Unscoped
                        } else {
                            r matches Err(e) && e matches RetrievalError::DuplicateSecrets(m)
                                && m@ == duplicate_exact_message(found)
                        }
                    },
                    EnvSetting::Env(envs) => {
                        let kept = env_scoped(found, envs.deep_view());
                        if kept.len() == envs@.len() {
                            r matches Ok(v) && v.well_formed() && v.secrets.deep_view() == kept
                                && v.env_setting == env_setting
                        } else if kept.len() < envs@.len() {
                            r matches Err(e) && e matches RetrievalError::MissingEnv(m) && m@
                                == missing_env_message(envs.deep_view(), kept)
                        } else {
                            r matches Err(e) && e matches RetrievalError::DuplicateSecrets(m) && m@
                                == duplicate_env_message(envs@.len(), found)
                        }
                    },
                }
            }),
    {
        match env_setting {
            EnvSetting::Unscoped => {
                if found_secret_names.0.len() != 1 {
                    Err(duplicate_exact_error(&found_secret_names.0))
                } else {
                    Ok(
                        ValidatedSecrets {
                            secrets: found_secret_names.0,
                            env_setting: EnvSetting::Unscoped,
                        },
                    )
                }
            },
            EnvSetting::Env(envs) => {
                let ghost found = found_secret_names.0.deep_view();
                let ghost evs = envs.deep_view();
                let ghost pred = |s: Seq<char>| contains_any(s, evs);
                let n = found_secret_names.0.len();
                let mut matched: Vec<String> = Vec::new();
                let mut i: usize = 0;
                proof {
                    reveal(Seq::filter);
                    assert(found.take(0).filter(pred) =~= Seq::<Seq<char>>::empty());
                    assert(matched.deep_view() =~= found.take(0).filter(pred));
                }
                while i < n
                    invariant
                        found == found_secret_names.0.deep_view(),
                        evs == envs.deep_view(),
                        pred == (|s: Seq<char>| contains_any(s, evs)),
                        n == found_secret_names.0@.len(),
                        found.len() == n,
                        i <= n,
                        matched.deep_view() == found.take(i as int).filter(pred),
                    decreases n - i,
                {
                    let keeps = contains_any_token(&found_secret_names.0[i], &envs);
                    let ghost pre = matched.deep_view();
                    if keeps {
                        matched.push(found_secret_names.0[i].clone());
                    }
                    proof {
                        reveal(Seq::filter);
                        let stepped = found.take(i + 1);
                        assert(stepped.drop_last() =~= found.take(i as int));
                        assert(stepped.last() == found[i as int]);
                        if keeps {
                            assert(matched.deep_view() =~= pre.push(found[i as int]));
                        }
                        assert(matched.deep_view() =~= stepped.filter(pred));
                    }
                    i = i + 1;
                }
                proof {
                    assert(found.take(n as int) =~= found);
                }
                if matched.len() == envs.len() {
                    Ok(ValidatedSecrets { secrets: matched, env_setting: EnvSetting::Env(envs) })
                } else if matched.len() < envs.len() {
                    Err(missing_env_error(&envs, &matched))
                } else {
                    Err(duplicate_env_error(envs.len(), &found_secret_names.0))
                }
            },
        }
    }

    /// Selects the full name to fetch and computes its base name. Exact-match
    /// mode returns the single entry as both; environment mode prefers the
    /// first entry containing `/dev/`, falls back to the first entry, and
    /// strips every `/{env}/` segment to form the base name.
    pub fn get_full_and_base_secret(&self) -> (r: (String, String))
        requires
            self.well_formed(),
        ensures
            ({
                let names = self.secrets.deep_view();
                match &self.env_setting {
                    EnvSetting::Unscoped => r.0@ == names[0] && r.1@ == names[0],
                    EnvSetting::Env(envs) => {
                        &&& r.0@ == preferred_entry(names)
                        &&& r.1@ == strip_env_segments(preferred_entry(names), envs.deep_view())
                    },
                }
            }),
    {
        match &self.env_setting {
            EnvSetting::Unscoped => {
                let full = self.secrets[0].clone();
                let base = full.clone();
                (full, base)
            },
            EnvSetting::Env(envs) => {
                let ghost names = self.secrets.deep_view();
                let ghost evs = envs.deep_view();
                let full = match find_dev_entry(&self.secrets) {
                    Some(i) => self.secrets[i].clone(),
                    None => self.secrets[0].clone(),
                };
                proof {
                    assert(full@ == preferred_entry(names));
                }
                let mut cur: Vec<char> = chars_of(full.as_str());
                let ne = envs.len();
                let mut j: usize = 0;
                proof {
                    assert(evs.skip(0) =~= evs);
                }
                while j < ne
                    invariant
                        evs == envs.deep_view(),
                        ne == envs@.len(),
                        evs.len() == ne,
                        j <= ne,
                        strip_env_segments(cur@, evs.skip(j as int)) == strip_env_segments(
                            full@,
                            evs,
                        ),
                    decreases ne - j,
                {
                    let pattern = slash_wrap(&envs[j]);
                    let pattern_chars = chars_of(pattern.as_str());
                    let ghost before = cur@;
                    cur = remove_all_chars(&cur, &pattern_chars);
                    proof {
                        let rest = evs.skip(j as int);
                        assert(rest[0] == evs[j as int]);
                        assert(rest.skip(1) =~= evs.skip(j + 1));
                        assert(strip_env_segments(before, rest) == strip_env_segments(
                            remove_all(before, slash_wrapped(evs[j as int])),
                            evs.skip(j + 1),
                        ));
                    }
                    j = j + 1;
                }
                proof {
                    assert(evs.skip(ne as int) =~= Seq::<Seq<char>>::empty());
                    assert(cur@ == strip_env_segments(full@, evs));
                }
                let base = chars_to_string(&cur);
                (full, base)
            },
        }
    }
}

/// The position of the first entry containing `/dev/`, if any.
fn find_dev_entry(secrets: &Vec<String>) -> (r: Option<usize>)
    ensures
        match r {
            Some(i) => i < secrets@.len() && find_containing(secrets.deep_view(), dev_segment())
                == Some(i as int),
            None => find_containing(secrets.deep_view(), dev_segment()) is None,
        },
{
    let ghost names = secrets.deep_view();
    let n = secrets.len();
    let mut i: usize = 0;
    while i < n
        invariant
            names == secrets.deep_view(),
            n == secrets@.len(),
            names.len() == n,
            i <= n,
            forall|k: int| 0 <= k < i ==> !contains_seq(names[k], dev_segment()),
        decreases n - i,
    {
        proof {
            reveal_strlit("/dev/");
            assert("/dev/"@ =~= dev_segment());
        }
        if contains_substring(secrets[i].as_str(), "/dev/") {
            proof {
                assert(contains_seq(names[i as int], dev_segment()));
                lemma_find_containing(names, dev_segment());
                match find_containing(names, dev_segment()) {
                    Some(w) => {
                        assert(w == i as int);
                    },
                    None => {
                        assert(false);
                    },
                }
            }
            return Some(i);
        }
        i = i + 1;
    }
    proof {
        lemma_find_containing(names, dev_segment());
        match find_containing(names, dev_segment()) {
            Some(w) => {
                assert(!contains_seq(names[w], dev_segment()));
                assert(false);
            },
            None => {},
        }
    }
    None
}

/// Whether the name contains one of the environment tokens as a substring.
fn contains_any_token(s: &String, tokens: &Vec<String>) -> (r: bool)
    ensures
        r == contains_any(s@, tokens.deep_view()),
{
    let ghost toks = tokens.deep_view();
    let n = tokens.len();
    let mut i: usize = 0;
    while i < n
        invariant
            toks == tokens.deep_view(),
            n == tokens@.len(),
            toks.len() == n,
            i <= n,
            forall|k: int| 0 <= k < i ==> !contains_seq(s@, toks[k]),
        decreases n - i,
    {
        if contains_substring(s.as_str(), tokens[i].as_str()) {
            proof {
                assert(contains_seq(s@, toks[i as int]));
            }
            return true;
        }
        i = i + 1;
    }
    proof {
        if contains_any(s@, toks) {
            let k = choose|k: int| 0 <= k < toks.len() && contains_seq(s@, toks[k]);
            assert(!contains_seq(s@, toks[k]));
        }
    }
    false
}

/// Builds the exec pattern string `/{env}/`.
fn slash_wrap(env: &String) -> (r: String)
    ensures
        r@ == slash_wrapped(env@),
{
    let mut r = String::new();
    r.append("/");
    r.append(env.as_str());
    r.append("/");
    proof {
        reveal_strlit("/");
        assert("/"@ =~= seq!['/']);
        assert(r@ =~= slash_wrapped(env@));
    }
    r
}

} // verus!
