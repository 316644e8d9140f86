//! Candidate-name generation: the alternative spellings of an identifier.
//!
//! An identifier such as `ExampleSecret` is searched for under its own
//! spelling, its kebab-case spelling `example-secret`, and its snake_case
//! spelling `example_secret`, in that order and without duplicates.
use vstd::prelude::*;

use crate::text::{chars_of, chars_to_string, is_upper_char, lower_char, to_lower_char};

verus! {

/// The piece one character contributes to a spelling variant: the first
/// character is lower-cased; a later uppercase letter is preceded by the
/// separator, if any, and lower-cased; every other character is unchanged.
pub open spec fn variant_piece(c: char, first: bool, sep: Option<char>) -> Seq<char> {
    if first {
        seq![lower_char(c)]
    } else if is_upper_char(c) {
        match sep {
            Some(s) => seq![s, lower_char(c)],
            None => seq![lower_char(c)],
        }
    } else {
        seq![c]
    }
}

/// The identifier rewritten with the separator injected before each internal
/// uppercase letter and every uppercase letter lower-cased.
pub open spec fn lower_with(s: Seq<char>, sep: Option<char>) -> Seq<char>
    decreases s.len(),
{
    if s.len() == 0 {
        Seq::empty()
    } else {
        lower_with(s.drop_last(), sep) + variant_piece(s.last(), s.len() == 1, sep)
    }
}

/// The kebab-case spelling of the identifier.
pub open spec fn kebab_variant(id: Seq<char>) -> Seq<char> {
    lower_with(id, Some('-'))
}

/// The snake_case spelling of the identifier.
pub open spec fn snake_variant(id: Seq<char>) -> Seq<char> {
    lower_with(id, Some('_'))
}

/// The ordered, de-duplicated candidate list: the identifier itself first,
/// then its kebab-case spelling, then its snake_case spelling.
pub open spec fn candidate_seqs(id: Seq<char>) -> Seq<Seq<char>> {
    let k = kebab_variant(id);
    let n = snake_variant(id);
    seq![id] + (if k == id {
        Seq::<Seq<char>>::empty()
    } else {
        seq![k]
    }) + (if n == id || n == k {
        Seq::<Seq<char>>::empty()
    } else {
        seq![n]
    })
}

/// Rewrites the identifier with its first character lower-cased and, before
/// every later uppercase letter, the given addition injected; the uppercase
/// letters themselves are lower-cased.
pub fn lowercase_and_add(secret_struct_name: &str, addition: Option<char>) -> (r: String)
    ensures
        r@ == lower_with(secret_struct_name@, addition),
{
    let cs = chars_of(secret_struct_name);
    let n = cs.len();
    let mut out: Vec<char> = Vec::new();
    let mut i: usize = 0;
    while i < n
        invariant
            cs@ == secret_struct_name@,
            n == cs@.len(),
            i <= n,
            out@ == lower_with(cs@.take(i as int), addition),
        decreases n - i,
    {
        let ghost pre = out@;
        let c = cs[i];
        if i == 0 {
            out.push(to_lower_char(c));
        } else if 'A' <= c && c <= 'Z' {
            match addition {
                Option::Some(sep) => {
                    out.push(sep);
                    out.push(to_lower_char(c));
                },
                Option::None => {
                    out.push(to_lower_char(c));
                },
            }
        } else {
            out.push(c);
        }
        proof {
            let stepped = cs@.take(i + 1);
            assert(stepped.drop_last() =~= cs@.take(i as int));
            assert(stepped.last() == cs@[i as int]);
            assert(out@ =~= pre + variant_piece(cs@[i as int], i == 0, addition));
        }
        i = i + 1;
    }
    proof {
        assert(cs@.take(n as int) =~= cs@);
    }
    chars_to_string(&out)
}

/// Derives the candidate names for the identifier: the identifier itself,
/// then its kebab-case and snake_case spellings, keeping the first of any
/// equal spellings.
pub fn possible_base_names(secret_struct_name: &str) -> (r: Vec<String>)
    ensures
        r.deep_view() == candidate_seqs(secret_struct_name@),
{
    let original = secret_struct_name.to_owned();
    let with_hyphen = lowercase_and_add(secret_struct_name, Some('-'));
    let with_underscore = lowercase_and_add(secret_struct_name, Some('_'));
    let hyphen_dup = with_hyphen == original;
    let underscore_dup = with_underscore == original || with_underscore == with_hyphen;
    let mut r: Vec<String> = Vec::new();
    r.push(original);
    if !hyphen_dup {
        r.push(with_hyphen);
    }
    if !underscore_dup {
        r.push(with_underscore);
    }
    proof {
        assert(r.deep_view() =~= candidate_seqs(secret_struct_name@));
    }
    r
}

/// An uppercase letter stands somewhere after the first character.
pub open spec fn has_internal_upper(id: Seq<char>) -> bool {
    exists|i: int| 1 <= i < id.len() && is_upper_char(id[i])
}

/// An ASCII letter or digit.
pub open spec fn is_ascii_alnum(c: char) -> bool {
    ('0' <= c && c <= '9') || ('a' <= c && c <= 'z') || ('A' <= c && c <= 'Z')
}

/// The number of uppercase letters after the first character.
pub open spec fn internal_upper_count(s: Seq<char>) -> int
    decreases s.len(),
{
    if s.len() <= 1 {
        0
    } else {
        internal_upper_count(s.drop_last()) + if is_upper_char(s.last()) {
            1int
        } else {
            0int
        }
    }
}

/// The count of internal uppercase letters is nonnegative and positive
/// exactly when one exists.
proof fn lemma_internal_upper_count(s: Seq<char>)
    ensures
        internal_upper_count(s) >= 0,
        internal_upper_count(s) > 0 <==> has_internal_upper(s),
    decreases s.len(),
{
    if s.len() <= 1 {
        assert(!has_internal_upper(s));
    } else {
        let t = s.drop_last();
        lemma_internal_upper_count(t);
        if is_upper_char(s.last()) {
            assert(is_upper_char(s[s.len() - 1]));
            assert(has_internal_upper(s));
        } else {
            if has_internal_upper(t) {
                let i = choose|i: int| 1 <= i < t.len() && is_upper_char(t[i]);
                assert(is_upper_char(s[i]));
                assert(has_internal_upper(s));
            }
            if has_internal_upper(s) {
                let i = choose|i: int| 1 <= i < s.len() && is_upper_char(s[i]);
                assert(i < s.len() - 1);
                assert(is_upper_char(t[i]));
                assert(has_internal_upper(t));
            }
        }
    }
}

/// A separator-injecting variant is longer than the identifier by the number
/// of internal uppercase letters.
proof fn lemma_lower_with_len(s: Seq<char>, sep: char)
    requires
        s.len() > 0,
    ensures
        lower_with(s, Some(sep)).len() == s.len() + internal_upper_count(s),
    decreases s.len(),
{
    if s.len() == 1 {
        assert(lower_with(s.drop_last(), Some(sep)) =~= Seq::<char>::empty());
        assert(lower_with(s, Some(sep)).len() == 1);
    } else {
        lemma_lower_with_len(s.drop_last(), sep);
    }
}

/// A variant starts with the lower-cased first character of the identifier.
proof fn lemma_lower_with_first(s: Seq<char>, sep: Option<char>)
    requires
        s.len() > 0,
    ensures
        lower_with(s, sep).len() > 0,
        lower_with(s, sep)[0] == lower_char(s[0]),
    decreases s.len(),
{
    if s.len() == 1 {
        assert(lower_with(s.drop_last(), sep) =~= Seq::<char>::empty());
        assert(lower_with(s, sep) =~= variant_piece(s[0], true, sep));
    } else {
        lemma_lower_with_first(s.drop_last(), sep);
        assert(s.drop_last()[0] == s[0]);
        assert(lower_with(s, sep)[0] == lower_with(s.drop_last(), sep)[0]);
    }
}

/// Two variants with different separators agree exactly when the identifier
/// has no internal uppercase letter.
proof fn lemma_lower_with_sep_eq(s: Seq<char>, a: char, b: char)
    requires
        a != b,
        s.len() > 0,
    ensures
        internal_upper_count(s) == 0 ==> lower_with(s, Some(a)) == lower_with(s, Some(b)),
        internal_upper_count(s) > 0 ==> lower_with(s, Some(a)) != lower_with(s, Some(b)),
    decreases s.len(),
{
    let la = lower_with(s, Some(a));
    let lb = lower_with(s, Some(b));
    if s.len() == 1 {
        assert(lower_with(s.drop_last(), Some(a)) =~= Seq::<char>::empty());
        assert(lower_with(s.drop_last(), Some(b)) =~= Seq::<char>::empty());
        assert(la =~= variant_piece(s[0], true, Some(a)));
        assert(lb =~= variant_piece(s[0], true, Some(b)));
        assert(la =~= lb);
    } else {
        let t = s.drop_last();
        let ta = lower_with(t, Some(a));
        let tb = lower_with(t, Some(b));
        lemma_lower_with_sep_eq(t, a, b);
        lemma_lower_with_len(t, a);
        lemma_lower_with_len(t, b);
        lemma_internal_upper_count(t);
        if internal_upper_count(t) > 0 {
            assert(exists|k: int| 0 <= k < ta.len() && ta[k] != tb[k]) by {
                if forall|k: int| 0 <= k < ta.len() ==> ta[k] == tb[k] {
                    assert(ta =~= tb);
                }
            }
            let k2 = choose|k: int| 0 <= k < ta.len() && ta[k] != tb[k];
            assert(la[k2] == ta[k2] && lb[k2] == tb[k2]);
            assert(la != lb);
        } else if is_upper_char(s.last()) {
            assert(ta == tb);
            assert(la[ta.len() as int] == a && lb[tb.len() as int] == b);
            assert(la != lb);
        } else {
            assert(ta == tb);
            assert(la =~= lb);
            assert(internal_upper_count(s) == 0);
        }
    }
}

/// Candidate generation yields the identifier first and, counting it, exactly
/// three pairwise distinct candidates when the identifier has an internal
/// uppercase letter, and exactly two otherwise. This holds for ASCII
/// alphanumeric identifiers whose first character is an uppercase letter.
pub proof fn lemma_candidate_count(id: Seq<char>)
    requires
        id.len() > 0,
        is_upper_char(id[0]),
        forall|i: int| 0 <= i < id.len() ==> is_ascii_alnum(id[i]),
    ensures
        candidate_seqs(id)[0] == id,
        candidate_seqs(id).len() == if has_internal_upper(id) {
            3int
        } else {
            2int
        },
        forall|i: int, j: int|
            0 <= i < j < candidate_seqs(id).len() ==> candidate_seqs(id)[i] != candidate_seqs(
                id,
            )[j],
{
    let k = kebab_variant(id);
    let n = snake_variant(id);
    lemma_internal_upper_count(id);
    lemma_lower_with_len(id, '-');
    lemma_lower_with_len(id, '_');
    lemma_lower_with_first(id, Some('-'));
    lemma_lower_with_first(id, Some('_'));
    lemma_lower_with_sep_eq(id, '-', '_');
    assert(lower_char(id[0]) != id[0]);
    if has_internal_upper(id) {
        assert(k.len() > id.len() && n.len() > id.len());
        assert(k != id && n != id && n != k);
        assert(candidate_seqs(id) =~= seq![id, k, n]);
    } else {
        assert(k[0] != id[0]);
        assert(k != id);
        assert(n == k);
        assert(candidate_seqs(id) =~= seq![id, k]);
    }
}

} // verus!
