//! Character and string utilities shared by the resolution stages.
//!
//! The specification side models strings as `Seq<char>`: substring
//! containment, comma-joined lists, decimal rendering of counts, and removal
//! of every occurrence of a pattern. Each executable function is proved
//! against the corresponding model.
use vstd::prelude::*;

verus! {

/// An ASCII uppercase letter.
pub open spec fn is_upper_char(c: char) -> bool {
    'A' <= c && c <= 'Z'
}

/// The ASCII lowercase counterpart of `c`; other characters are unchanged.
pub open spec fn lower_char(c: char) -> char {
    if is_upper_char(c) {
        ((c as u8) + 32) as char
    } else {
        c
    }
}

/// Lower-cases an ASCII uppercase letter and leaves every other character as
/// it is.
pub fn to_lower_char(c: char) -> (r: char)
    ensures
        r == lower_char(c),
{
    if 'A' <= c && c <= 'Z' {
        ((c as u8) + 32) as char
    } else {
        c
    }
}

/// The characters of `s`, in order, as a vector.
pub fn chars_of(s: &str) -> (r: Vec<char>)
    ensures
        r@ == s@,
{
    let n = s.unicode_len();
    let mut r: Vec<char> = Vec::new();
    let mut i: usize = 0;
    while i < n
        invariant
            n == s@.len(),
            i <= n,
            r@ == s@.subrange(0, i as int),
        decreases n - i,
    {
        r.push(s.get_char(i));
        i = i + 1;
    }
    proof {
        assert(r@ =~= s@);
    }
    r
}

/// Relies on `String: FromIterator<char>`: collecting characters yields the
/// string made of exactly those characters in order.
#[verifier::external_body]
pub fn chars_to_string(v: &Vec<char>) -> (r: String)
    ensures
        r@ == v@,
{
    v.iter().collect()
}

/// `sub` occurs in `s` starting at position `i`.
pub open spec fn is_sub_at(s: Seq<char>, sub: Seq<char>, i: int) -> bool {
    &&& 0 <= i
    &&& i + sub.len() <= s.len()
    &&& s.subrange(i, i + sub.len() as int) == sub
}

/// `sub` occurs somewhere in `s` as a contiguous run of characters.
pub open spec fn contains_seq(s: Seq<char>, sub: Seq<char>) -> bool {
    exists|i: int| is_sub_at(s, sub, i)
}

/// Whether `sub` occurs in `s` at the given position.
fn match_at(s: &Vec<char>, sub: &Vec<char>, i: usize) -> (r: bool)
    requires
        i + sub@.len() <= s@.len(),
    ensures
        r == is_sub_at(s@, sub@, i as int),
{
    let n = s.len();
    let m = sub.len();
    let mut j: usize = 0;
    while j < m
        invariant
            n == s@.len(),
            m == sub@.len(),
            i + m <= n,
            j <= m,
            forall|k: int| 0 <= k < j ==> s@[i + k] == sub@[k],
        decreases m - j,
    {
        if s[i + j] != sub[j] {
            proof {
                assert(s@.subrange(i as int, i + m) != sub@) by {
                    assert(s@.subrange(i as int, i + m)[j as int] == s@[i + j]);
                }
            }
            return false;
        }
        j = j + 1;
    }
    proof {
        assert(s@.subrange(i as int, i + m) =~= sub@);
    }
    true
}

/// Whether `sub` occurs in `s` as a contiguous run of characters.
fn contains_chars(s: &Vec<char>, sub: &Vec<char>) -> (r: bool)
    ensures
        r == contains_seq(s@, sub@),
{
    let n = s.len();
    let m = sub.len();
    if m > n {
        return false;
    }
    if m == 0 {
        proof {
            assert(s@.subrange(0, 0) =~= sub@);
            assert(is_sub_at(s@, sub@, 0));
        }
        return true;
    }
    let mut i: usize = 0;
    while i <= n - m
        invariant
            n == s@.len(),
            m == sub@.len(),
            0 < m <= n,
            i <= n - m + 1,
            forall|k: int| 0 <= k < i ==> !is_sub_at(s@, sub@, k),
        decreases n - m + 1 - i,
    {
        if match_at(s, sub, i) {
            assert(is_sub_at(s@, sub@, i as int));
            return true;
        }
        i = i + 1;
    }
    false
}

/// Whether the string `sub` occurs in the string `s` as a substring.
pub fn contains_substring(s: &str, sub: &str) -> (r: bool)
    ensures
        r == contains_seq(s@, sub@),
{
    let sc = chars_of(s);
    let pc = chars_of(sub);
    contains_chars(&sc, &pc)
}

/// The names joined with a comma between each pair of neighbours.
pub open spec fn join_commas(names: Seq<Seq<char>>) -> Seq<char>
    decreases names.len(),
{
    if names.len() == 0 {
        Seq::empty()
    } else if names.len() == 1 {
        names[0]
    } else {
        join_commas(names.drop_last()) + seq![','] + names.last()
    }
}

/// Joins the names with commas, as their comma-separated enumeration.
pub fn join_with_commas(names: &Vec<String>) -> (r: String)
    ensures
        r@ == join_commas(names.deep_view()),
{
    let ghost dv = names.deep_view();
    let mut r = String::new();
    let mut i: usize = 0;
    while i < names.len()
        invariant
            dv == names.deep_view(),
            dv.len() == names@.len(),
            i <= names@.len(),
            r@ == join_commas(dv.take(i as int)),
            forall|k: int| 0 <= k < names@.len() ==> dv[k] == names@[k]@,
        decreases names@.len() - i,
    {
        if i > 0 {
            r.append(",");
            proof {
                reveal_strlit(",");
                assert(","@ =~= seq![',']);
            }
        }
        r.append(names[i].as_str());
        proof {
            let pre = dv.take(i as int);
            let now = dv.take(i + 1);
            if i == 0 {
                assert(now =~= seq![dv[0]]);
                assert(r@ =~= join_commas(now));
            } else {
                assert(now.drop_last() =~= pre);
                assert(now.last() == dv[i as int]);
                assert(r@ =~= join_commas(pre) + seq![','] + dv[i as int]);
            }
        }
        i = i + 1;
    }
    proof {
        assert(dv.take(names@.len() as int) =~= dv);
    }
    r
}

/// The character for one decimal digit.
pub open spec fn digit_char(d: int) -> char
    recommends
        0 <= d <= 9,
{
    ((48 + d) as u8) as char
}

/// The decimal rendering of `n`, most significant digit first.
pub open spec fn dec_str(n: nat) -> Seq<char>
    decreases n,
{
    if n < 10 {
        seq![digit_char(n as int)]
    } else {
        dec_str(n / 10) + seq![digit_char((n % 10) as int)]
    }
}

/// The character for one decimal digit.
fn digit_to_char(d: usize) -> (r: char)
    requires
        d < 10,
    ensures
        r == digit_char(d as int),
{
    ((48 + d) as u8) as char
}

/// Renders `n` in decimal notation.
pub fn usize_to_string(n: usize) -> (r: String)
    ensures
        r@ == dec_str(n as nat),
{
    let mut digits: Vec<char> = Vec::new();
    digits.insert(0, digit_to_char(n % 10));
    proof {
        assert(digits@ =~= seq![digit_char((n % 10) as int)]);
    }
    let mut m: usize = n / 10;
    while m > 0
        invariant
            dec_str(n as nat) == (if m > 0 {
                dec_str(m as nat)
            } else {
                Seq::<char>::empty()
            }) + digits@,
        decreases m,
    {
        let ghost pre = digits@;
        digits.insert(0, digit_to_char(m % 10));
        proof {
            assert(digits@ =~= seq![digit_char((m % 10) as int)] + pre);
        }
        m = m / 10;
        proof {
            if m > 0 {
                assert(dec_str(n as nat) =~= dec_str(m as nat) + digits@);
            } else {
                assert(dec_str(n as nat) =~= Seq::<char>::empty() + digits@);
            }
        }
    }
    proof {
        assert(dec_str(n as nat) =~= digits@);
    }
    chars_to_string(&digits)
}

/// The position of the leftmost occurrence of `pat` in `s`, if any.
pub open spec fn find_sub(s: Seq<char>, pat: Seq<char>) -> Option<int>
    decreases s.len(),
{
    if pat.len() > s.len() {
        None
    } else if s.subrange(0, pat.len() as int) =~= pat {
        Some(0)
    } else {
        match find_sub(s.skip(1), pat) {
            Some(i) => Some(i + 1),
            None => None,
        }
    }
}

/// An occurrence one position into `s` is an occurrence in the tail of `s`.
proof fn lemma_sub_at_shift(s: Seq<char>, pat: Seq<char>, i: int)
    requires
        s.len() > 0,
        i >= 1,
    ensures
        is_sub_at(s, pat, i) <==> is_sub_at(s.skip(1), pat, i - 1),
{
    if 1 <= i && i + pat.len() <= s.len() {
        assert(s.subrange(i, i + pat.len() as int) =~= s.skip(1).subrange(
            i - 1,
            i - 1 + pat.len() as int,
        ));
    }
}

/// `find_sub` returns exactly the leftmost occurrence of `pat` in `s`.
proof fn lemma_find_sub(s: Seq<char>, pat: Seq<char>)
    ensures
        match find_sub(s, pat) {
            Some(i) => is_sub_at(s, pat, i) && forall|k: int| 0 <= k < i ==> !is_sub_at(s, pat, k),
            None => forall|k: int| !is_sub_at(s, pat, k),
        },
    decreases s.len(),
{
    if pat.len() > s.len() {
        assert(forall|k: int| !is_sub_at(s, pat, k));
    } else if s.subrange(0, pat.len() as int) =~= pat {
        assert(is_sub_at(s, pat, 0));
    } else {
        assert(s.len() > 0 || !(s.subrange(0, pat.len() as int) =~= pat)) by {
            if s.len() == 0 {
                assert(s.subrange(0, pat.len() as int) =~= pat);
            }
        }
        lemma_find_sub(s.skip(1), pat);
        assert(!is_sub_at(s, pat, 0));
        assert forall|k: int| 1 <= k implies (is_sub_at(s, pat, k) <==> is_sub_at(
            s.skip(1),
            pat,
            k - 1,
        )) by {
            lemma_sub_at_shift(s, pat, k);
        }
        match find_sub(s.skip(1), pat) {
            Some(i) => {
                assert(is_sub_at(s, pat, i + 1));
            },
            None => {},
        }
    }
}

/// `s` with every occurrence of `pat` removed, scanning left to right and
/// resuming after each removed occurrence.
pub open spec fn remove_all(s: Seq<char>, pat: Seq<char>) -> Seq<char>
    decreases s.len(),
    when pat.len() > 0
    via remove_all_decreases
{
    match find_sub(s, pat) {
        None => s,
        Some(i) => s.subrange(0, i) + remove_all(s.skip(i + pat.len() as int), pat),
    }
}

#[via_fn]
proof fn remove_all_decreases(s: Seq<char>, pat: Seq<char>) {
    lemma_find_sub(s, pat);
}

/// Removing from `s` whose head starts an occurrence drops that occurrence
/// and continues right after it.
proof fn lemma_remove_all_match_at_head(t: Seq<char>, pat: Seq<char>)
    requires
        pat.len() > 0,
        is_sub_at(t, pat, 0),
    ensures
        remove_all(t, pat) == remove_all(t.skip(pat.len() as int), pat),
{
    assert(t.subrange(0, pat.len() as int) =~= pat);
    assert(find_sub(t, pat) == Some(0int));
    assert(t.subrange(0, 0) =~= Seq::<char>::empty());
    assert(remove_all(t, pat) =~= remove_all(t.skip(pat.len() as int), pat));
}

/// Removing from `t` whose head starts no occurrence keeps the head.
proof fn lemma_remove_all_no_match_at_head(t: Seq<char>, pat: Seq<char>)
    requires
        pat.len() > 0,
        t.len() > 0,
        !is_sub_at(t, pat, 0),
    ensures
        remove_all(t, pat) == seq![t[0]] + remove_all(t.skip(1), pat),
{
    if pat.len() <= t.len() {
        assert(!(t.subrange(0, pat.len() as int) =~= pat));
    }
    match find_sub(t.skip(1), pat) {
        None => {
            assert(find_sub(t, pat) is None);
            assert(remove_all(t, pat) == t);
            assert(remove_all(t.skip(1), pat) == t.skip(1));
            assert(t =~= seq![t[0]] + t.skip(1));
        },
        Some(j) => {
            lemma_find_sub(t.skip(1), pat);
            assert(find_sub(t, pat) == Some(j + 1));
            assert(t.skip(1).skip(j + pat.len() as int) =~= t.skip(j + 1 + pat.len() as int));
            assert(t.subrange(0, j + 1) =~= seq![t[0]] + t.skip(1).subrange(0, j));
            assert(remove_all(t, pat) == t.subrange(0, j + 1) + remove_all(
                t.skip(j + 1 + pat.len() as int),
                pat,
            ));
            assert(remove_all(t, pat) =~= seq![t[0]] + remove_all(t.skip(1), pat));
        },
    }
}

/// `s` with every occurrence of the pattern removed, scanning left to right.
pub fn remove_all_chars(s: &Vec<char>, pat: &Vec<char>) -> (r: Vec<char>)
    requires
        pat@.len() > 0,
    ensures
        r@ == remove_all(s@, pat@),
{
    let n = s.len();
    let m = pat.len();
    let mut out: Vec<char> = Vec::new();
    let mut i: usize = 0;
    proof {
        assert(s@.skip(0) =~= s@);
        assert(out@ + remove_all(s@, pat@) =~= remove_all(s@, pat@));
    }
    while i < n
        invariant
            n == s@.len(),
            m == pat@.len(),
            0 < m,
            i <= n,
            remove_all(s@, pat@) == out@ + remove_all(s@.skip(i as int), pat@),
        decreases n - i,
    {
        let ghost t = s@.skip(i as int);
        if m <= n - i && match_at(s, pat, i) {
            proof {
                assert(s@.subrange(i as int, i + m) =~= t.subrange(0, m as int));
                assert(is_sub_at(t, pat@, 0));
                lemma_remove_all_match_at_head(t, pat@);
                assert(t.skip(m as int) =~= s@.skip(i + m));
            }
            i = i + m;
        } else {
            proof {
                assert(!is_sub_at(t, pat@, 0)) by {
                    if is_sub_at(t, pat@, 0) {
                        assert(i + m <= n);
                        assert(t.subrange(0, m as int) =~= s@.subrange(i as int, i + m));
                        assert(is_sub_at(s@, pat@, i as int));
                    }
                }
                lemma_remove_all_no_match_at_head(t, pat@);
                assert(t.skip(1) =~= s@.skip(i + 1));
                assert(t[0] == s@[i as int]);
            }
            let ghost pre = out@;
            out.push(s[i]);
            proof {
                assert(out@ =~= pre + seq![s@[i as int]]);
                assert(out@ + remove_all(s@.skip(i + 1), pat@) =~= pre + (seq![t[0]] + remove_all(
                    t.skip(1),
                    pat@,
                )));
            }
            i = i + 1;
        }
    }
    proof {
        let e = s@.skip(n as int);
        assert(e =~= Seq::<char>::empty());
        assert(find_sub(e, pat@) is None);
        assert(out@ + remove_all(e, pat@) =~= out@);
    }
    out
}

} // verus!
