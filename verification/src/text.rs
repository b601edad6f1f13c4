//! Text primitives over character sequences: pattern replacement, search,
//! and the std conversions between `str`, `String` and character vectors.

use vstd::prelude::*;

verus! {

broadcast use vstd::string::axiom_spec_iter;

/// The characters of `s` in order, collected from `str::chars`.
pub(crate) fn chars_vec(s: &str) -> (v: Vec<char>)
    ensures
        v@ == s@,
{
    let mut v: Vec<char> = Vec::new();
    for c in it: s.chars()
        invariant
            v@ == it.seq().take(it.index() as int),
    {
        v.push(c);
    }
    v
}

/// `String::from_iter` over a slice of characters: the string made of
/// exactly these characters, in order.
#[verifier::external_body]
pub(crate) fn string_from_chars(v: &[char]) -> (s: String)
    ensures
        s@ == v@,
{
    v.iter().collect()
}

/// The result of `str::to_lowercase` on a string with these characters.
/// Unicode case mapping (including its context-dependent rules) is not
/// written out here; the name stands for it.
pub uninterp spec fn lowercase(s: Seq<char>) -> Seq<char>;

/// Whether every character of `s` is ASCII.
pub open spec fn all_ascii(s: Seq<char>) -> bool {
    forall|i: int| 0 <= i < s.len() ==> (s[i] as u32) < 128
}

/// The ASCII lower-case form of `c`: `A` to `Z` become `a` to `z`, every
/// other character is kept.
pub open spec fn ascii_lower(c: char) -> char {
    if ('A' as u32) <= (c as u32) <= ('Z' as u32) {
        ((c as u32) + 32) as char
    } else {
        c
    }
}

/// `str::to_lowercase`: the result is `lowercase` of the argument's
/// characters; on ASCII text that is each character in ASCII lower case.
/// What it is on other text is not stated.
#[verifier::external_body]
pub(crate) fn to_lowercase(s: &str) -> (r: String)
    ensures
        r@ == lowercase(s@),
        all_ascii(s@) ==> r@ == Seq::new(s@.len(), |i: int| ascii_lower(s@[i])),
{
    s.to_lowercase()
}

/// Whether `pat` occurs in `s` at position `i`.
pub open spec fn occurs_at(s: Seq<char>, pat: Seq<char>, i: int) -> bool {
    0 <= i && i + pat.len() <= s.len() && s.subrange(i, i + pat.len()) == pat
}

/// Whether `pat` occurs anywhere in `s` (as `str::contains` with a string pattern).
pub open spec fn contains_seq(s: Seq<char>, pat: Seq<char>) -> bool {
    exists|i: int| occurs_at(s, pat, i)
}

/// Left-to-right, non-overlapping replacement of every occurrence of `pat`
/// by `rep`, as `str::replace` does for a non-empty pattern.
pub open spec fn replace_seq(s: Seq<char>, pat: Seq<char>, rep: Seq<char>) -> Seq<char>
    recommends
        pat.len() > 0,
    decreases s.len(),
{
    if pat.len() == 0 || s.len() < pat.len() {
        s
    } else if s.take(pat.len() as int) == pat {
        rep + replace_seq(s.skip(pat.len() as int), pat, rep)
    } else {
        seq![s[0]] + replace_seq(s.skip(1), pat, rep)
    }
}

/// Where `pat` does not occur at the start of `s`, replacement keeps the
/// first character and goes on with the rest.
pub proof fn lemma_replace_step(s: Seq<char>, pat: Seq<char>, rep: Seq<char>)
    requires
        pat.len() > 0,
        s.len() > 0,
        !occurs_at(s, pat, 0),
    ensures
        replace_seq(s, pat, rep) == seq![s[0]] + replace_seq(s.skip(1), pat, rep),
{
    if s.len() < pat.len() {
        assert(s.skip(1).len() < pat.len());
        assert(s =~= seq![s[0]] + s.skip(1));
    } else {
        assert(s.take(pat.len() as int) =~= s.subrange(0, pat.len() as int));
    }
}

/// Text with no occurrence of `pat` is left unchanged.
pub proof fn lemma_replace_absent(s: Seq<char>, pat: Seq<char>, rep: Seq<char>)
    requires
        pat.len() > 0,
        forall|i: int| !occurs_at(s, pat, i),
    ensures
        replace_seq(s, pat, rep) == s,
    decreases s.len(),
{
    if s.len() > 0 {
        assert(!occurs_at(s, pat, 0));
        lemma_replace_step(s, pat, rep);
        assert forall|i: int| !occurs_at(s.skip(1), pat, i) by {
            if occurs_at(s.skip(1), pat, i) {
                assert(s.subrange(i + 1, i + 1 + pat.len()) =~= s.skip(1).subrange(i, i + pat.len()));
                assert(occurs_at(s, pat, i + 1));
            }
        }
        lemma_replace_absent(s.skip(1), pat, rep);
        assert(s =~= seq![s[0]] + s.skip(1));
    }
}

/// An occurrence of `pat` at the start is replaced, and replacement goes on
/// after it.
pub proof fn lemma_replace_front(pat: Seq<char>, x: Seq<char>, rep: Seq<char>)
    requires
        pat.len() > 0,
    ensures
        replace_seq(pat + x, pat, rep) == rep + replace_seq(x, pat, rep),
{
    assert((pat + x).take(pat.len() as int) =~= pat);
    assert((pat + x).skip(pat.len() as int) =~= x);
}

/// A prefix holding no character that starts `pat` passes through unchanged.
pub proof fn lemma_replace_clear_prefix(a: Seq<char>, x: Seq<char>, pat: Seq<char>, rep: Seq<char>)
    requires
        pat.len() > 0,
        forall|i: int| 0 <= i < a.len() ==> a[i] != pat[0],
    ensures
        replace_seq(a + x, pat, rep) == a + replace_seq(x, pat, rep),
    decreases a.len(),
{
    if a.len() > 0 {
        let s = a + x;
        assert(s[0] == a[0]);
        if occurs_at(s, pat, 0) {
            assert(s.subrange(0, pat.len() as int)[0] == pat[0]);
        }
        lemma_replace_step(s, pat, rep);
        assert(s.skip(1) =~= a.skip(1) + x);
        lemma_replace_clear_prefix(a.skip(1), x, pat, rep);
        assert(a =~= seq![a[0]] + a.skip(1));
        assert(seq![a[0]] + (a.skip(1) + replace_seq(x, pat, rep)) =~= a + replace_seq(x, pat, rep));
    }
}

/// Whether no character of `a` occurs in `b`.
pub open spec fn disjoint_chars(a: Seq<char>, b: Seq<char>) -> bool {
    forall|i: int, j: int| 0 <= i < a.len() && 0 <= j < b.len() ==> a[i] != b[j]
}

/// While replacement has written no character of `rep`, it has copied its
/// input unchanged.
proof fn lemma_replace_copied_prefix(t: Seq<char>, pat: Seq<char>, rep: Seq<char>, k: int)
    requires
        pat.len() > 0,
        rep.len() > 0,
        0 <= k <= replace_seq(t, pat, rep).len(),
        forall|i: int, j: int| 0 <= i < k && 0 <= j < rep.len() ==> replace_seq(t, pat, rep)[i] != rep[j],
    ensures
        k <= t.len(),
        forall|i: int| 0 <= i < k ==> t[i] == replace_seq(t, pat, rep)[i],
    decreases k,
{
    let r = replace_seq(t, pat, rep);
    if k > 0 {
        if t.len() < pat.len() {
        } else if t.take(pat.len() as int) == pat {
            assert(r[0] == rep[0]);
        } else {
            let x = replace_seq(t.skip(1), pat, rep);
            assert(r == seq![t[0]] + x);
            assert forall|i: int, j: int| 0 <= i < k - 1 && 0 <= j < rep.len() implies x[i] != rep[j] by {
                assert(x[i] == r[i + 1]);
            }
            lemma_replace_copied_prefix(t.skip(1), pat, rep, k - 1);
            assert forall|i: int| 0 <= i < k implies t[i] == r[i] by {
                if i > 0 {
                    assert(t[i] == t.skip(1)[i - 1]);
                    assert(r[i] == x[i - 1]);
                }
            }
        }
    }
}

/// When the replacement shares no character with the pattern, no
/// occurrence of the pattern is left after replacing.
pub proof fn lemma_replace_leaves_none(s: Seq<char>, pat: Seq<char>, rep: Seq<char>)
    requires
        pat.len() > 0,
        rep.len() > 0,
        disjoint_chars(pat, rep),
    ensures
        !contains_seq(replace_seq(s, pat, rep), pat),
    decreases s.len(),
{
    let r = replace_seq(s, pat, rep);
    if s.len() < pat.len() {
        assert forall|i: int| !occurs_at(r, pat, i) by {}
    } else if s.take(pat.len() as int) == pat {
        let x = replace_seq(s.skip(pat.len() as int), pat, rep);
        lemma_replace_leaves_none(s.skip(pat.len() as int), pat, rep);
        assert(r == rep + x);
        assert forall|i: int| !occurs_at(r, pat, i) by {
            if occurs_at(r, pat, i) {
                if i < rep.len() {
                    assert(r.subrange(i, i + pat.len())[0] == r[i]);
                    assert(r[i] == rep[i]);
                } else {
                    assert(x.subrange(i - rep.len(), i - rep.len() + pat.len()) =~= r.subrange(i, i + pat.len()));
                    assert(occurs_at(x, pat, i - rep.len()));
                }
            }
        }
    } else {
        let x = replace_seq(s.skip(1), pat, rep);
        lemma_replace_leaves_none(s.skip(1), pat, rep);
        assert(r == seq![s[0]] + x);
        assert forall|i: int| !occurs_at(r, pat, i) by {
            if occurs_at(r, pat, i) {
                if i >= 1 {
                    assert(x.subrange(i - 1, i - 1 + pat.len()) =~= r.subrange(i, i + pat.len()));
                    assert(occurs_at(x, pat, i - 1));
                } else {
                    let k = pat.len() - 1;
                    assert forall|a: int, j: int| 0 <= a < k && 0 <= j < rep.len() implies x[a] != rep[j] by {
                        assert(r.subrange(0, pat.len() as int)[a + 1] == r[a + 1]);
                        assert(x[a] == pat[a + 1]);
                    }
                    lemma_replace_copied_prefix(s.skip(1), pat, rep, k);
                    assert(s.take(pat.len() as int) =~= pat) by {
                        assert forall|a: int| 0 <= a < pat.len() implies s.take(pat.len() as int)[a] == pat[a] by {
                            assert(r.subrange(0, pat.len() as int)[a] == r[a]);
                            if a > 0 {
                                assert(s[a] == s.skip(1)[a - 1]);
                                assert(r[a] == x[a - 1]);
                            }
                        }
                    }
                }
            }
        }
    }
}

/// Whether `pat` occurs in `s` at index `i` (executable form of `occurs_at`).
pub(crate) fn matches_at(s: &Vec<char>, pat: &Vec<char>, i: usize) -> (r: bool)
    requires
        i <= s.len(),
    ensures
        r == occurs_at(s@, pat@, i as int),
{
    if pat.len() > s.len() - i {
        return false;
    }
    let mut k: usize = 0;
    while k < pat.len()
        invariant
            k <= pat.len(),
            i + pat.len() <= s.len(),
            forall|j: int| 0 <= j < k ==> s@[i + j] == pat@[j],
        decreases pat.len() - k,
    {
        if s[i + k] != pat[k] {
            assert(s@.subrange(i as int, i + pat.len())[k as int] != pat@[k as int]);
            return false;
        }
        k = k + 1;
    }
    assert(s@.subrange(i as int, i + pat.len()) =~= pat@);
    true
}

/// Replaces every occurrence of `pat` in `s` by `rep`, scanning left to right.
pub fn replace_chars(s: &Vec<char>, pat: &Vec<char>, rep: &Vec<char>) -> (r: Vec<char>)
    requires
        pat.len() > 0,
    ensures
        r@ == replace_seq(s@, pat@, rep@),
{
    let mut out: Vec<char> = Vec::new();
    let mut i: usize = 0;
    assert(s@.skip(0) =~= s@);
    while i < s.len()
        invariant
            i <= s.len(),
            pat.len() > 0,
            out@ + replace_seq(s@.skip(i as int), pat@, rep@) == replace_seq(s@, pat@, rep@),
        decreases s.len() - i,
    {
        let ghost rest = s@.skip(i as int);
        if matches_at(s, pat, i) {
            assert(rest.take(pat.len() as int) =~= s@.subrange(i as int, i + pat.len()));
            assert(rest.skip(pat.len() as int) =~= s@.skip(i + pat.len()));
            let mut k: usize = 0;
            let ghost before = out@;
            while k < rep.len()
                invariant
                    k <= rep.len(),
                    out@ == before + rep@.take(k as int),
                decreases rep.len() - k,
            {
                out.push(rep[k]);
                assert(rep@.take(k + 1) =~= rep@.take(k as int).push(rep@[k as int]));
                k = k + 1;
            }
            assert(rep@.take(rep.len() as int) =~= rep@);
            assert(out@ + replace_seq(s@.skip(i + pat.len()), pat@, rep@) =~= before + (rep@
                + replace_seq(s@.skip(i + pat.len()), pat@, rep@)));
            i = i + pat.len();
        } else {
            proof {
                if rest.len() >= pat@.len() {
                    assert(rest.take(pat.len() as int) =~= s@.subrange(i as int, i + pat.len()));
                }
            }
            assert(rest.skip(1) =~= s@.skip(i + 1));
            let ghost before = out@;
            out.push(s[i]);
            assert(out@ + replace_seq(s@.skip(i + 1), pat@, rep@) =~= before + (seq![s@[i as int]]
                + replace_seq(s@.skip(i + 1), pat@, rep@)));
            i = i + 1;
        }
    }
    assert(s@.skip(i as int) =~= Seq::<char>::empty());
    assert(out@ + Seq::<char>::empty() =~= out@);
    out
}

/// Whether `pat` occurs in `s` (`str::contains` with a string pattern).
pub fn contains_chars(s: &Vec<char>, pat: &Vec<char>) -> (r: bool)
    ensures
        r == contains_seq(s@, pat@),
{
    let mut i: usize = 0;
    loop
        invariant
            i <= s.len(),
            forall|j: int| 0 <= j < i ==> !occurs_at(s@, pat@, j),
        decreases s.len() - i,
    {
        if matches_at(s, pat, i) {
            return true;
        }
        if i == s.len() {
            assert forall|j: int| !occurs_at(s@, pat@, j) by {
                if 0 <= j && j < i {
                }
            }
            return false;
        }
        i = i + 1;
    }
}

/// Text equality of two string slices.
pub fn str_eq(a: &str, b: &str) -> (r: bool)
    ensures
        r == (a@ == b@),
{
    a.to_owned() == b.to_owned()
}

/// The result of `String::from_utf8_lossy` on these bytes: invalid sequences
/// become U+FFFD. The name stands for the replacement rules.
pub uninterp spec fn utf8_lossy(bytes: Seq<u8>) -> Seq<char>;

/// `String::from_utf8_lossy`: the result is `utf8_lossy` of the bytes, and,
/// as its documentation states, a valid UTF-8 input is decoded unchanged.
#[verifier::external_body]
pub(crate) fn from_utf8_lossy(bytes: &[u8]) -> (r: String)
    ensures
        r@ == utf8_lossy(bytes@),
        vstd::utf8::valid_utf8(bytes@) ==> r@ == vstd::utf8::decode_utf8(bytes@),
{
    String::from_utf8_lossy(bytes).into_owned()
}

/// `std::str::from_utf8`: `Some` exactly when the bytes are valid UTF-8, and
/// then the characters they encode.
#[verifier::external_body]
pub(crate) fn from_utf8(bytes: &[u8]) -> (r: Option<String>)
    ensures
        r is Some <==> vstd::utf8::valid_utf8(bytes@),
        r matches Some(s) ==> s@ == vstd::utf8::decode_utf8(bytes@),
{
    match std::str::from_utf8(bytes) {
        Ok(s) => Some(s.to_owned()),
        Err(_) => None,
    }
}

/// `s` without its trailing run of `c` (as `str::trim_end_matches(c)`).
pub open spec fn trim_end(s: Seq<char>, c: char) -> Seq<char>
    decreases s.len(),
{
    if s.len() > 0 && s.last() == c {
        trim_end(s.drop_last(), c)
    } else {
        s
    }
}

/// Removes the trailing run of `c` from `s`.
pub fn trim_end_char(s: &str, c: char) -> (r: String)
    ensures
        r@ == trim_end(s@, c),
{
    let v = chars_vec(s);
    let mut n: usize = v.len();
    assert(v@.take(n as int) =~= v@);
    while n > 0 && v[n - 1] == c
        invariant
            n <= v.len(),
            trim_end(v@, c) == trim_end(v@.take(n as int), c),
        decreases n,
    {
        assert(v@.take(n as int).drop_last() =~= v@.take(n - 1));
        n = n - 1;
    }
    let mut out: Vec<char> = Vec::new();
    let mut i: usize = 0;
    while i < n
        invariant
            i <= n <= v.len(),
            out@ == v@.take(i as int),
        decreases n - i,
    {
        out.push(v[i]);
        assert(v@.take(i + 1) =~= v@.take(i as int).push(v@[i as int]));
        i = i + 1;
    }
    string_from_chars(out.as_slice())
}

} // verus!
