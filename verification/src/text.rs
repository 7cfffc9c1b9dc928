//! Character-level text operations on which the harness decides:
//! whether a log line holds a marker, and how a template is filled in.

use vstd::prelude::*;

verus! {

/// `pat` occurs in `s` starting at position `i`.
pub open spec fn occurs_at(s: Seq<char>, pat: Seq<char>, i: int) -> bool {
    &&& 0 <= i
    &&& i + pat.len() <= s.len()
    &&& s.subrange(i, i + pat.len()) == pat
}

/// `pat` occurs somewhere in `s` (the empty pattern occurs in every text).
pub open spec fn has_substring(s: Seq<char>, pat: Seq<char>) -> bool {
    exists|i: int| occurs_at(s, pat, i)
}

/// `rep` before, between and after every character of `s`: what replacing
/// the empty pattern by `rep` gives.
pub open spec fn interleaved(s: Seq<char>, rep: Seq<char>) -> Seq<char>
    decreases s.len(),
{
    if s.len() == 0 {
        rep
    } else {
        rep + seq![s[0]] + interleaved(s.drop_first(), rep)
    }
}

/// `s` with every occurrence of `pat` replaced by `rep`, the occurrences
/// taken from left to right without overlap.
pub open spec fn substituted(s: Seq<char>, pat: Seq<char>, rep: Seq<char>) -> Seq<char>
    decreases s.len(),
{
    if pat.len() == 0 {
        interleaved(s, rep)
    } else if s.len() == 0 {
        s
    } else if occurs_at(s, pat, 0) {
        rep + substituted(s.skip(pat.len() as int), pat, rep)
    } else {
        seq![s[0]] + substituted(s.drop_first(), pat, rep)
    }
}

/// Where no occurrence of a non-empty `pat` starts in `[i, j)`,
/// substitution from `i` copies the characters of that range unchanged and
/// goes on from `j`.
pub proof fn lemma_copy_unmatched(s: Seq<char>, pat: Seq<char>, rep: Seq<char>, i: int, j: int)
    requires
        pat.len() > 0,
        0 <= i <= j <= s.len(),
        forall|k: int| i <= k < j ==> !occurs_at(s, pat, k),
    ensures
        substituted(s.skip(i), pat, rep) == s.subrange(i, j) + substituted(s.skip(j), pat, rep),
    decreases j - i,
{
    if i == j {
        assert(s.subrange(i, j) =~= Seq::<char>::empty());
        assert(s.subrange(i, j) + substituted(s.skip(j), pat, rep) =~= substituted(s.skip(j), pat, rep));
    } else {
        let t = s.skip(i);
        assert(!occurs_at(s, pat, i));
        if occurs_at(t, pat, 0) {
            assert(t.subrange(0, pat.len() as int) =~= s.subrange(i, i + pat.len()));
        }
        assert(t.drop_first() =~= s.skip(i + 1));
        lemma_copy_unmatched(s, pat, rep, i + 1, j);
        assert(s.subrange(i, j) =~= seq![s[i]] + s.subrange(i + 1, j));
        assert(substituted(t, pat, rep) == seq![t[0]] + substituted(t.drop_first(), pat, rep));
        assert(seq![s[i]] + (s.subrange(i + 1, j) + substituted(s.skip(j), pat, rep))
            =~= s.subrange(i, j) + substituted(s.skip(j), pat, rep));
    }
}

/// Every occurrence of a non-empty `pat` that substitution meets, at `i`,
/// is replaced by `rep`, and substitution resumes right after it: later
/// occurrences are replaced too.
pub proof fn lemma_replace_match(s: Seq<char>, pat: Seq<char>, rep: Seq<char>, i: int)
    requires
        pat.len() > 0,
        occurs_at(s, pat, i),
    ensures
        substituted(s.skip(i), pat, rep) == rep + substituted(s.skip(i + pat.len()), pat, rep),
{
    let t = s.skip(i);
    assert(t.subrange(0, pat.len() as int) =~= s.subrange(i, i + pat.len()));
    assert(t.skip(pat.len() as int) =~= s.skip(i + pat.len()));
}

/// Text in which a non-empty pattern does not occur comes back unchanged
/// from substitution.
pub proof fn lemma_substituted_absent(s: Seq<char>, pat: Seq<char>, rep: Seq<char>)
    requires
        pat.len() > 0,
        !has_substring(s, pat),
    ensures
        substituted(s, pat, rep) == s,
{
    lemma_copy_unmatched(s, pat, rep, 0, s.len() as int);
    assert(s.skip(0) =~= s);
    assert(s.skip(s.len() as int) =~= Seq::<char>::empty());
    assert(s.subrange(0, s.len() as int) =~= s);
    assert(substituted(s.skip(s.len() as int), pat, rep) =~= Seq::<char>::empty());
    assert(s + Seq::<char>::empty() =~= s);
}

/// The first occurrence of `pat` in `s` at or after `from`.
proof fn first_occurrence(s: Seq<char>, pat: Seq<char>, from: int) -> (j: int)
    requires
        0 <= from,
        exists|k: int| from <= k && occurs_at(s, pat, k),
    ensures
        from <= j,
        occurs_at(s, pat, j),
        forall|k: int| from <= k < j ==> !occurs_at(s, pat, k),
    decreases s.len() - from,
{
    if occurs_at(s, pat, from) {
        from
    } else {
        let k = choose|k: int| from <= k && occurs_at(s, pat, k);
        assert(from < k);
        first_occurrence(s, pat, from + 1)
    }
}

/// Where a non-empty pattern occurs, the substitution holds the replacement.
pub proof fn lemma_substituted_holds_replacement(s: Seq<char>, pat: Seq<char>, rep: Seq<char>)
    requires
        pat.len() > 0,
        has_substring(s, pat),
    ensures
        has_substring(substituted(s, pat, rep), rep),
{
    let j = first_occurrence(s, pat, 0);
    lemma_copy_unmatched(s, pat, rep, 0, j);
    lemma_replace_match(s, pat, rep, j);
    assert(s.skip(0) =~= s);
    let out = substituted(s, pat, rep);
    let rest = substituted(s.skip(j + pat.len()), pat, rep);
    assert(out == s.subrange(0, j) + (rep + rest));
    assert(out.subrange(j, j + rep.len()) =~= rep);
    assert(occurs_at(out, rep, j));
}

/// Replacing a pattern by itself leaves any text unchanged.
pub proof fn lemma_substituted_identity(s: Seq<char>, pat: Seq<char>)
    ensures
        substituted(s, pat, pat) == s,
    decreases s.len(),
{
    if pat.len() == 0 {
        lemma_interleaved_empty(s);
        assert(pat =~= Seq::<char>::empty());
    } else if s.len() == 0 {
    } else if occurs_at(s, pat, 0) {
        lemma_substituted_identity(s.skip(pat.len() as int), pat);
        assert(s.subrange(0, pat.len() as int) == pat);
        assert(pat + s.skip(pat.len() as int) =~= s);
    } else {
        lemma_substituted_identity(s.drop_first(), pat);
        assert(seq![s[0]] + s.drop_first() =~= s);
    }
}

/// Interleaving with nothing leaves a text unchanged.
proof fn lemma_interleaved_empty(s: Seq<char>)
    ensures
        interleaved(s, Seq::empty()) == s,
    decreases s.len(),
{
    if s.len() > 0 {
        lemma_interleaved_empty(s.drop_first());
        assert(Seq::<char>::empty() + seq![s[0]] + s.drop_first() =~= s);
    } else {
        assert(s =~= Seq::<char>::empty());
    }
}

/// The characters of `s`, in order.
pub fn chars_of(s: &str) -> (out: Vec<char>)
    ensures
        out@ == s@,
{
    let mut out: Vec<char> = Vec::new();
    for c in it: s.chars()
        invariant
            out@ == it.seq().take(it.index()),
            it.seq() == s@,
    {
        out.push(c);
    }
    out
}

/// Whether `pat` occurs in `s` at position `i`.
fn matches_at(s: &Vec<char>, pat: &Vec<char>, i: usize) -> (res: bool)
    requires
        i + pat@.len() <= s@.len(),
    ensures
        res == occurs_at(s@, pat@, i as int),
{
    let n = s.len();
    let m = pat.len();
    let mut k: usize = 0;
    while k < m
        invariant
            k <= m,
            n == s@.len(),
            m == pat@.len(),
            i + m <= s@.len(),
            forall|j: int| 0 <= j < k ==> s@[i + j] == pat@[j],
        decreases m - k,
    {
        if s[i + k] != pat[k] {
            assert(s@.subrange(i as int, i + m)[k as int] != pat@[k as int]);
            return false;
        }
        k = k + 1;
    }
    assert(s@.subrange(i as int, i + m) =~= pat@);
    true
}

/// The first position at or after `from` where `pat` occurs in `s`, if any.
fn find_from(s: &Vec<char>, pat: &Vec<char>, from: usize) -> (res: Option<usize>)
    requires
        from <= s@.len(),
    ensures
        match res {
            Some(i) => from <= i && occurs_at(s@, pat@, i as int)
                && forall|j: int| from <= j < i ==> !occurs_at(s@, pat@, j),
            None => forall|j: int| from <= j ==> !occurs_at(s@, pat@, j),
        },
{
    let n = s.len();
    let m = pat.len();
    if m == 0 {
        assert(s@.subrange(from as int, from as int) =~= pat@);
        return Some(from);
    }
    if m > n {
        return None;
    }
    let last = n - m;
    let mut i = from;
    while i <= last
        invariant
            from <= i,
            n == s@.len(),
            m == pat@.len(),
            m > 0,
            last + m == n,
            forall|j: int| from <= j < i ==> !occurs_at(s@, pat@, j),
        decreases last + 1 - i,
    {
        if matches_at(s, pat, i) {
            return Some(i);
        }
        i = i + 1;
    }
    None
}

/// Whether `pat` occurs anywhere in `line`.
pub fn contains(line: &str, pat: &str) -> (res: bool)
    ensures
        res == has_substring(line@, pat@),
{
    let s = chars_of(line);
    let p = chars_of(pat);
    match find_from(&s, &p, 0) {
        Some(i) => true,
        None => false,
    }
}

/// Appends the characters `from..to` of `src` to `out`.
fn append_chars(out: &mut String, src: &str, from: usize, to: usize)
    requires
        from <= to <= src@.len(),
    ensures
        final(out)@ == old(out)@ + src@.subrange(from as int, to as int),
{
    let piece = src.substring_char(from, to);
    out.append(piece);
}

/// `text` with every occurrence of `pat` replaced by `rep`, scanning from
/// left to right; matches do not overlap. An empty `pat` matches before,
/// between and after every character.
pub fn replace_all(text: &str, pat: &str, rep: &str) -> (out: String)
    ensures
        out@ == substituted(text@, pat@, rep@),
{
    let s = chars_of(text);
    let p = chars_of(pat);
    let n = s.len();
    let m = p.len();
    let mut out = String::new();
    proof {
        assert(s@.skip(0) =~= s@);
        assert(out@ + substituted(s@, p@, rep@) =~= substituted(s@, p@, rep@));
        assert(out@ + interleaved(s@, rep@) =~= interleaved(s@, rep@));
    }
    if m == 0 {
        let mut i: usize = 0;
        while i < n
            invariant
                i <= n,
                n == s@.len(),
                s@ == text@,
                p@ == pat@,
                p@.len() == 0,
                out@ + interleaved(s@.skip(i as int), rep@) == interleaved(s@, rep@),
            decreases n - i,
        {
            let ghost before = out@;
            out.append(rep);
            append_chars(&mut out, text, i, i + 1);
            proof {
                let t = s@.skip(i as int);
                assert(t.drop_first() =~= s@.skip(i + 1));
                assert(s@.subrange(i as int, i + 1) =~= seq![t[0]]);
                assert(out@ + interleaved(s@.skip(i + 1), rep@) =~= before + interleaved(t, rep@));
            }
            i = i + 1;
        }
        out.append(rep);
        proof {
            assert(s@.skip(n as int) =~= Seq::<char>::empty());
        }
        return out;
    }
    let mut i: usize = 0;
    loop
        invariant
            i <= n,
            n == s@.len(),
            m == p@.len(),
            m > 0,
            s@ == text@,
            p@ == pat@,
            out@ + substituted(s@.skip(i as int), p@, rep@) == substituted(s@, p@, rep@),
        decreases n - i,
    {
        let ghost before = out@;
        match find_from(&s, &p, i) {
            Some(j) => {
                proof {
                    lemma_copy_unmatched(s@, p@, rep@, i as int, j as int);
                    lemma_replace_match(s@, p@, rep@, j as int);
                }
                append_chars(&mut out, text, i, j);
                out.append(rep);
                proof {
                    assert(out@ + substituted(s@.skip(j + m), p@, rep@) =~= before
                        + substituted(s@.skip(i as int), p@, rep@));
                }
                i = j + m;
            },
            None => {
                proof {
                    lemma_copy_unmatched(s@, p@, rep@, i as int, n as int);
                    assert(s@.skip(n as int) =~= Seq::<char>::empty());
                    assert(substituted(s@.skip(n as int), p@, rep@) =~= Seq::<char>::empty());
                }
                append_chars(&mut out, text, i, n);
                proof {
                    assert(out@ =~= before + (s@.subrange(i as int, n as int) + Seq::<char>::empty()));
                }
                return out;
            },
        }
    }
}

} // verus!
