//! Verified character-sequence utilities: trimming, splitting, searching and
//! substring replacement, shared by the content-type parser and the
//! formatters.
//!
//! Executable code works on `Vec<char>`; every function is specified against
//! a spec function over `Seq<char>`.

use vstd::prelude::*;

verus! {

/// Whitespace characters trimmed from header segments.
pub open spec fn is_space(c: char) -> bool {
    c == ' ' || c == '\t' || c == '\n' || c == '\r' || c == '\u{b}' || c == '\u{c}'
}

/// `s` holds no occurrence of `c`.
pub open spec fn no_char(s: Seq<char>, c: char) -> bool {
    forall|i: int| 0 <= i < s.len() ==> s[i] != c
}

/// `s` with leading whitespace removed.
pub open spec fn trim_start_spec(s: Seq<char>) -> Seq<char>
    decreases s.len(),
{
    if s.len() > 0 && is_space(s[0]) {
        trim_start_spec(s.drop_first())
    } else {
        s
    }
}

/// `s` with trailing whitespace removed.
pub open spec fn trim_end_spec(s: Seq<char>) -> Seq<char>
    decreases s.len(),
{
    if s.len() > 0 && is_space(s.last()) {
        trim_end_spec(s.drop_last())
    } else {
        s
    }
}

/// `s` with surrounding whitespace removed.
pub open spec fn trim_spec(s: Seq<char>) -> Seq<char> {
    trim_end_spec(trim_start_spec(s))
}

/// Index of the first occurrence of `c` in `s`, if any.
pub open spec fn find_char(s: Seq<char>, c: char) -> Option<int>
    decreases s.len(),
{
    if s.len() == 0 {
        None
    } else if s[0] == c {
        Some(0int)
    } else {
        match find_char(s.drop_first(), c) {
            None => None,
            Some(i) => Some(i + 1),
        }
    }
}

pub proof fn lemma_find_char(s: Seq<char>, c: char)
    ensures
        match find_char(s, c) {
            None => no_char(s, c),
            Some(i) => 0 <= i < s.len() && s[i] == c && (forall|j: int| 0 <= j < i ==> s[j] != c),
        },
    decreases s.len(),
{
    if s.len() > 0 && s[0] != c {
        lemma_find_char(s.drop_first(), c);
        match find_char(s.drop_first(), c) {
            None => {
                assert forall|j: int| 0 <= j < s.len() implies s[j] != c by {
                    if j > 0 {
                        assert(s.drop_first()[j - 1] != c);
                    }
                }
            },
            Some(i) => {
                assert(s[i + 1] == s.drop_first()[i]);
                assert forall|j: int| 0 <= j < i + 1 implies s[j] != c by {
                    if j > 0 {
                        assert(s.drop_first()[j - 1] != c);
                    }
                }
            },
        }
    }
}

/// `s` split at the first occurrence of `c`: the part before and the part
/// after, the separator itself dropped.
pub open spec fn split_once_spec(s: Seq<char>, c: char) -> Option<(Seq<char>, Seq<char>)> {
    match find_char(s, c) {
        None => None,
        Some(i) => Some((s.take(i), s.skip(i + 1))),
    }
}

/// `s` split at every occurrence of `sep`; always at least one part.
pub open spec fn split_spec(s: Seq<char>, sep: char) -> Seq<Seq<char>>
    decreases s.len(),
{
    if s.len() == 0 {
        seq![Seq::<char>::empty()]
    } else {
        let rest = split_spec(s.drop_last(), sep);
        if s.last() == sep {
            rest.push(Seq::<char>::empty())
        } else {
            rest.update(rest.len() - 1, rest.last().push(s.last()))
        }
    }
}

pub proof fn lemma_split_spec_len(s: Seq<char>, sep: char)
    ensures
        split_spec(s, sep).len() >= 1,
    decreases s.len(),
{
    if s.len() > 0 {
        lemma_split_spec_len(s.drop_last(), sep);
    }
}

/// `pat` occurs as a contiguous substring of `s`.
pub open spec fn contains_sub(s: Seq<char>, pat: Seq<char>) -> bool {
    exists|i: int|
        0 <= i <= s.len() - pat.len() && #[trigger] s.subrange(i, i + pat.len() as int) == pat
}

/// Every occurrence of `pat` in `s` replaced by `sub`, scanning left to
/// right without re-scanning replaced text; the whole of `s` when `pat` is
/// empty.
pub open spec fn replace_spec(s: Seq<char>, pat: Seq<char>, sub: Seq<char>) -> Seq<char>
    decreases s.len(),
{
    if pat.len() == 0 || s.len() < pat.len() {
        s
    } else if s.take(pat.len() as int) == pat {
        sub + replace_spec(s.skip(pat.len() as int), pat, sub)
    } else {
        seq![s[0]] + replace_spec(s.drop_first(), pat, sub)
    }
}

/// When `pat` never occurs in `s`, replacement leaves `s` unchanged.
pub proof fn lemma_replace_identity(s: Seq<char>, pat: Seq<char>, sub: Seq<char>)
    requires
        !contains_sub(s, pat) || pat.len() == 0,
    ensures
        replace_spec(s, pat, sub) == s,
    decreases s.len(),
{
    if pat.len() == 0 || s.len() < pat.len() {
    } else if s.take(pat.len() as int) == pat {
        assert(s.subrange(0int, 0int + pat.len() as int) =~= s.take(pat.len() as int));
        assert(contains_sub(s, pat));
    } else {
        assert forall|i: int| 0 <= i <= s.drop_first().len() - pat.len()
            implies #[trigger] s.drop_first().subrange(i, i + pat.len() as int) != pat by {
            assert(s.drop_first().subrange(i, i + pat.len() as int)
                =~= s.subrange(i + 1, i + 1 + pat.len() as int));
            assert(!(0 <= i + 1 <= s.len() - pat.len()
                && s.subrange(i + 1, i + 1 + pat.len() as int) == pat));
        }
        lemma_replace_identity(s.drop_first(), pat, sub);
        assert(seq![s[0]] + s.drop_first() =~= s);
    }
}

/// The parts joined with `sep` between each pair.
pub open spec fn join_spec(parts: Seq<Seq<char>>, sep: Seq<char>) -> Seq<char>
    decreases parts.len(),
{
    if parts.len() == 0 {
        Seq::<char>::empty()
    } else if parts.len() == 1 {
        parts[0]
    } else {
        join_spec(parts.drop_last(), sep) + sep + parts.last()
    }
}

/// Joins the strings with `sep` between each pair.
pub fn join_strings(parts: &Vec<String>, sep: &str) -> (r: String)
    ensures
        r@ == join_spec(parts@.map_values(|s: String| s@), sep@),
{
    let ghost pv = parts@.map_values(|s: String| s@);
    let mut out: Vec<char> = Vec::new();
    let mut i: usize = 0;
    proof {
        assert(pv.take(0).len() == 0);
    }
    while i < parts.len()
        invariant
            i <= parts@.len(),
            pv == parts@.map_values(|s: String| s@),
            out@ == join_spec(pv.take(i as int), sep@),
        decreases parts@.len() - i,
    {
        let ghost old_out = out@;
        if i > 0 {
            push_str_chars(&mut out, sep);
        }
        push_str_chars(&mut out, parts[i].as_str());
        proof {
            assert(pv.take(i + 1).drop_last() =~= pv.take(i as int));
            assert(pv.take(i + 1).last() == pv[i as int]);
            if i == 0 {
                assert(out@ =~= pv[0]);
            } else {
                assert(out@ =~= join_spec(pv.take(i as int), sep@) + sep@ + pv[i as int]);
            }
        }
        i += 1;
    }
    proof {
        assert(pv.take(pv.len() as int) =~= pv);
    }
    chars_to_string(&out)
}

/// The deep view of a character vector is its view.
pub proof fn lemma_chars_deep_view(v: Vec<char>)
    ensures
        v.deep_view() == v@,
{
    assert(v.deep_view() =~= v@);
}

/// Indexing the deep view of a vector of character vectors.
pub proof fn lemma_vecs_deep_view_index(v: &Vec<Vec<char>>, i: int)
    requires
        0 <= i < v@.len(),
    ensures
        v.deep_view().len() == v@.len(),
        v.deep_view()[i] == v@[i]@,
{
    lemma_chars_deep_view(v@[i]);
}

/// The characters of `s`, in order, as a vector.
pub fn str_to_chars(s: &str) -> (r: Vec<char>)
    ensures
        r@ == s@,
{
    let n = s.unicode_len();
    let mut v: Vec<char> = Vec::new();
    let mut i: usize = 0;
    while i < n
        invariant
            i <= n,
            n == s@.len(),
            v@ == s@.take(i as int),
        decreases n - i,
    {
        let c = s.get_char(i);
        v.push(c);
        proof {
            assert(s@.take(i + 1) =~= s@.take(i as int).push(s@[i as int]));
        }
        i += 1;
    }
    proof {
        assert(s@.take(n as int) =~= s@);
    }
    v
}

/// Relies on `String` collecting a `char` iterator (its `FromIterator`
/// implementation): the result is the string of exactly these characters, in
/// order.
#[verifier::external_body]
pub fn chars_to_string(v: &Vec<char>) -> (r: String)
    ensures
        r@ == v@,
{
    v.iter().collect()
}

/// Appends all characters of `src` to `dst`.
pub fn push_all(dst: &mut Vec<char>, src: &Vec<char>)
    ensures
        final(dst)@ == old(dst)@ + src@,
{
    let mut i: usize = 0;
    while i < src.len()
        invariant
            i <= src.len(),
            dst@ == old(dst)@ + src@.take(i as int),
        decreases src.len() - i,
    {
        dst.push(src[i]);
        proof {
            assert(old(dst)@ + src@.take(i + 1)
                =~= (old(dst)@ + src@.take(i as int)).push(src@[i as int]));
        }
        i += 1;
    }
    proof {
        assert(src@.take(src@.len() as int) =~= src@);
    }
}

/// Appends the characters of the string slice `src` to `dst`.
pub fn push_str_chars(dst: &mut Vec<char>, src: &str)
    ensures
        final(dst)@ == old(dst)@ + src@,
{
    let cs = str_to_chars(src);
    push_all(dst, &cs);
}

/// Character-for-character equality of two string slices.
pub fn str_eq(a: &str, b: &str) -> (r: bool)
    ensures
        r == (a@ == b@),
{
    let an = a.unicode_len();
    let bn = b.unicode_len();
    if an != bn {
        return false;
    }
    let mut i: usize = 0;
    while i < an
        invariant
            i <= an,
            an == a@.len(),
            an == b@.len(),
            forall|j: int| 0 <= j < i ==> a@[j] == b@[j],
        decreases an - i,
    {
        if a.get_char(i) != b.get_char(i) {
            return false;
        }
        i += 1;
    }
    proof {
        assert(a@ =~= b@);
    }
    true
}

/// True exactly when `v[at .. at + pat.len()]` equals `pat`.
pub fn range_matches(v: &Vec<char>, at: usize, pat: &Vec<char>) -> (r: bool)
    requires
        at + pat@.len() <= v@.len(),
    ensures
        r == (v@.subrange(at as int, at + pat@.len()) == pat@),
{
    let n = v.len();
    let mut j: usize = 0;
    while j < pat.len()
        invariant
            j <= pat@.len(),
            at + pat@.len() <= v@.len(),
            n == v@.len(),
            forall|k: int| 0 <= k < j ==> v@[at + k] == pat@[k],
        decreases pat@.len() - j,
    {
        if v[at + j] != pat[j] {
            proof {
                assert(v@.subrange(at as int, at + pat@.len())[j as int] != pat@[j as int]);
            }
            return false;
        }
        j += 1;
    }
    proof {
        assert(v@.subrange(at as int, at + pat@.len()) =~= pat@);
    }
    true
}

/// `s` with surrounding whitespace removed.
pub fn trim(s: &Vec<char>) -> (r: Vec<char>)
    ensures
        r@ == trim_spec(s@),
{
    let mut lo: usize = 0;
    while lo < s.len() && is_space_exec(s[lo])
        invariant
            lo <= s@.len(),
            forall|j: int| 0 <= j < lo ==> is_space(s@[j]),
        decreases s@.len() - lo,
    {
        lo += 1;
    }
    let mut hi: usize = s.len();
    while hi > lo && is_space_exec(s[hi - 1])
        invariant
            lo <= hi <= s@.len(),
            forall|j: int| 0 <= j < lo ==> is_space(s@[j]),
            forall|j: int| hi <= j < s@.len() ==> is_space(s@[j]),
        decreases hi,
    {
        hi -= 1;
    }
    let mut r: Vec<char> = Vec::new();
    let mut i: usize = lo;
    while i < hi
        invariant
            lo <= i <= hi <= s@.len(),
            r@ == s@.subrange(lo as int, i as int),
        decreases hi - i,
    {
        r.push(s[i]);
        proof {
            assert(s@.subrange(lo as int, i + 1)
                =~= s@.subrange(lo as int, i as int).push(s@[i as int]));
        }
        i += 1;
    }
    proof {
        lemma_trim_start_at(s@, lo as int);
        lemma_trim_end_at(s@.skip(lo as int), hi - lo);
        assert(s@.skip(lo as int).take(hi - lo) =~= s@.subrange(lo as int, hi as int));
    }
    r
}

/// Executable test for [`is_space`].
pub fn is_space_exec(c: char) -> (r: bool)
    ensures
        r == is_space(c),
{
    c == ' ' || c == '\t' || c == '\n' || c == '\r' || c == '\u{b}' || c == '\u{c}'
}

proof fn lemma_trim_start_at(s: Seq<char>, lo: int)
    requires
        0 <= lo <= s.len(),
        forall|j: int| 0 <= j < lo ==> is_space(s[j]),
        lo < s.len() ==> !is_space(s[lo]),
    ensures
        trim_start_spec(s) == s.skip(lo),
    decreases lo,
{
    if lo == 0 {
        assert(s.skip(0) =~= s);
    } else {
        assert(is_space(s[0]));
        lemma_trim_start_at(s.drop_first(), lo - 1);
        assert(s.drop_first().skip(lo - 1) =~= s.skip(lo));
    }
}

proof fn lemma_trim_end_at(s: Seq<char>, hi: int)
    requires
        0 <= hi <= s.len(),
        forall|j: int| hi <= j < s.len() ==> is_space(s[j]),
        hi > 0 ==> !is_space(s[hi - 1]),
    ensures
        trim_end_spec(s) == s.take(hi),
    decreases s.len(),
{
    if hi == s.len() {
        if s.len() == 0 || !is_space(s.last()) {
            assert(s.take(hi) =~= s);
        } else {
            assert(!is_space(s[hi - 1]));
            assert(false);
        }
    } else {
        assert(is_space(s.last()));
        lemma_trim_end_at(s.drop_last(), hi);
        assert(s.drop_last().take(hi) =~= s.take(hi));
    }
}

/// Index of the first occurrence of `c` in `v`, if any.
pub fn find_char_exec(v: &Vec<char>, c: char) -> (r: Option<usize>)
    ensures
        match r {
            None => find_char(v@, c) is None,
            Some(i) => i < v@.len() && find_char(v@, c) == Some(i as int),
        },
{
    let mut i: usize = 0;
    while i < v.len()
        invariant
            i <= v@.len(),
            forall|j: int| 0 <= j < i ==> v@[j] != c,
        decreases v@.len() - i,
    {
        if v[i] == c {
            proof {
                lemma_find_char_at(v@, c, i as int);
            }
            return Some(i);
        }
        i += 1;
    }
    proof {
        lemma_find_char_none(v@, c);
    }
    None
}

proof fn lemma_find_char_at(s: Seq<char>, c: char, i: int)
    requires
        0 <= i < s.len(),
        s[i] == c,
        forall|j: int| 0 <= j < i ==> s[j] != c,
    ensures
        find_char(s, c) == Some(i),
    decreases i,
{
    if i > 0 {
        lemma_find_char_at(s.drop_first(), c, i - 1);
    }
}

proof fn lemma_find_char_none(s: Seq<char>, c: char)
    requires
        no_char(s, c),
    ensures
        find_char(s, c) is None,
    decreases s.len(),
{
    if s.len() > 0 {
        lemma_find_char_none(s.drop_first(), c);
    }
}

/// `v` split at the first occurrence of `c`, when `c` occurs at all.
pub fn split_once(v: &Vec<char>, c: char) -> (r: Option<(Vec<char>, Vec<char>)>)
    ensures
        match r {
            None => split_once_spec(v@, c) is None,
            Some(p) => split_once_spec(v@, c) == Some((p.0@, p.1@)),
        },
{
    match find_char_exec(v, c) {
        None => None,
        Some(i) => {
            let mut before: Vec<char> = Vec::new();
            let mut j: usize = 0;
            while j < i
                invariant
                    j <= i < v@.len(),
                    before@ == v@.take(i as int).take(j as int),
                decreases i - j,
            {
                before.push(v[j]);
                proof {
                    assert(v@.take(i as int).take(j + 1)
                        =~= v@.take(i as int).take(j as int).push(v@[j as int]));
                }
                j += 1;
            }
            let n = v.len();
            let mut after: Vec<char> = Vec::new();
            let mut k: usize = i + 1;
            while k < v.len()
                invariant
                    i + 1 <= k <= v@.len(),
                    after@ == v@.skip(i + 1).take(k - i - 1),
                decreases v@.len() - k,
            {
                after.push(v[k]);
                proof {
                    assert(v@.skip(i + 1).take(k - i)
                        =~= v@.skip(i + 1).take(k - i - 1).push(v@[k as int]));
                }
                k += 1;
            }
            proof {
                assert(v@.take(i as int).take(i as int) =~= v@.take(i as int));
                assert(v@.skip(i + 1).take(v@.len() - i - 1) =~= v@.skip(i + 1));
            }
            Some((before, after))
        },
    }
}

/// `v` split at every occurrence of `sep`.
pub fn split_all(v: &Vec<char>, sep: char) -> (r: Vec<Vec<char>>)
    ensures
        r.deep_view() == split_spec(v@, sep),
        r@.len() >= 1,
{
    let mut out: Vec<Vec<char>> = Vec::new();
    let mut cur: Vec<char> = Vec::new();
    let mut i: usize = 0;
    proof {
        assert(v@.take(0).len() == 0);
        assert(out.deep_view().push(cur@) =~~= split_spec(v@.take(0), sep));
    }
    while i < v.len()
        invariant
            i <= v@.len(),
            out.deep_view().push(cur@) == split_spec(v@.take(i as int), sep),
        decreases v@.len() - i,
    {
        let ghost pre = v@.take(i as int);
        let ghost prev = out.deep_view().push(cur@);
        if v[i] == sep {
            out.push(cur);
            cur = Vec::new();
            proof {
                assert(v@.take(i + 1).drop_last() =~= pre);
                assert(v@.take(i + 1).last() == v@[i as int]);
                assert(out.deep_view().push(cur@) =~~= prev.push(Seq::<char>::empty()));
            }
        } else {
            let c = v[i];
            cur.push(c);
            proof {
                assert(v@.take(i + 1).drop_last() =~= pre);
                assert(v@.take(i + 1).last() == v@[i as int]);
                assert(prev.last() == prev[prev.len() - 1]);
                assert(out.deep_view().push(cur@)
                    =~~= prev.update(prev.len() - 1, prev.last().push(c)));
            }
        }
        i += 1;
    }
    out.push(cur);
    proof {
        assert(v@.take(v@.len() as int) =~= v@);
        assert(out.deep_view() =~~= split_spec(v@, sep));
    }
    out
}

/// Every occurrence of `pat` in `s` replaced by `sub`, scanning left to
/// right.
pub fn replace_all(s: &Vec<char>, pat: &Vec<char>, sub: &Vec<char>) -> (r: Vec<char>)
    ensures
        r@ == replace_spec(s@, pat@, sub@),
{
    if pat.len() == 0 {
        let mut r: Vec<char> = Vec::new();
        push_all(&mut r, s);
        proof {
            assert(Seq::<char>::empty() + s@ =~= s@);
        }
        return r;
    }
    let mut out: Vec<char> = Vec::new();
    let mut i: usize = 0;
    proof {
        assert(s@.skip(0) =~= s@);
        assert(out@ + s@.skip(0) =~= s@.skip(0));
        assert(out@ + replace_spec(s@.skip(0), pat@, sub@) =~= replace_spec(s@, pat@, sub@));
    }
    while i < s.len()
        invariant
            i <= s@.len(),
            pat@.len() >= 1,
            replace_spec(s@, pat@, sub@) == out@ + replace_spec(s@.skip(i as int), pat@, sub@),
        decreases s@.len() - i,
    {
        let ghost rem = s@.skip(i as int);
        let ghost old_out = out@;
        if pat.len() <= s.len() - i && range_matches(s, i, pat) {
            push_all(&mut out, sub);
            proof {
                assert(rem.take(pat@.len() as int) =~= s@.subrange(i as int, i + pat@.len()));
                assert(rem.skip(pat@.len() as int) =~= s@.skip(i + pat@.len()));
                assert(old_out + (sub@ + replace_spec(s@.skip(i + pat@.len()), pat@, sub@))
                    =~= out@ + replace_spec(s@.skip(i + pat@.len()), pat@, sub@));
            }
            i += pat.len();
        } else {
            let c = s[i];
            out.push(c);
            proof {
                assert(rem[0] == s@[i as int]);
                if rem.len() >= pat@.len() {
                    assert(rem.take(pat@.len() as int) =~= s@.subrange(i as int, i + pat@.len()));
                    assert(rem.take(pat@.len() as int) != pat@);
                    assert(rem.drop_first() =~= s@.skip(i + 1));
                    assert(old_out + (seq![rem[0]] + replace_spec(s@.skip(i + 1), pat@, sub@))
                        =~= out@ + replace_spec(s@.skip(i + 1), pat@, sub@));
                } else {
                    assert(replace_spec(rem, pat@, sub@) == rem);
                    assert(s@.skip(i + 1).len() < pat@.len());
                    assert(replace_spec(s@.skip(i + 1), pat@, sub@) == s@.skip(i + 1));
                    assert(rem =~= seq![rem[0]] + s@.skip(i + 1));
                    assert(old_out + rem =~= out@ + s@.skip(i + 1));
                }
            }
            i += 1;
        }
    }
    proof {
        assert(s@.skip(s@.len() as int) =~= Seq::<char>::empty());
        assert(out@ + Seq::<char>::empty() =~= out@);
    }
    out
}

} // verus!
