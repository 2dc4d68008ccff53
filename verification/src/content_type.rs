//! MIME `Content-Type` header parsing.
//!
//! `ContentType::parse` never fails: a missing `/` leaves the subtype empty,
//! and segments without `=` are dropped from the parameter mapping.

use vstd::prelude::*;
use crate::strutil::{
    chars_to_string, find_char, is_space, lemma_find_char, lemma_split_spec_len, no_char,
    push_str_chars, split_all, split_once, split_once_spec, split_spec, str_eq, str_to_chars,
    trim, trim_end_spec, trim_spec, trim_start_spec,
};

verus! {

/// Mathematical model of a parsed content type.
pub struct CtView {
    pub main_type: Seq<char>,
    pub sub_type: Seq<char>,
    pub parameters: Map<Seq<char>, Seq<char>>,
}

/// The parameter list folded into a mapping; a later entry with the same key
/// wins.
pub open spec fn params_map(ps: Seq<(String, String)>) -> Map<Seq<char>, Seq<char>>
    decreases ps.len(),
{
    if ps.len() == 0 {
        Map::<Seq<char>, Seq<char>>::empty()
    } else {
        params_map(ps.drop_last()).insert(ps.last().0@, ps.last().1@)
    }
}

/// No two stored parameter entries share a key.
pub open spec fn unique_keys(ps: Seq<(String, String)>) -> bool {
    forall|a: int, b: int| 0 <= a < b < ps.len() ==> ps[a].0@ != ps[b].0@
}

/// Parsed MIME content type.
#[derive(Debug, Clone, PartialEq)]
pub struct ContentType {
    /// Main type (e.g., "image", "text")
    pub main_type: String,
    /// Sub type (e.g., "png", "plain")
    pub sub_type: String,
    /// Parameters (e.g., name="image.png"), keyed uniquely
    pub parameters: Vec<(String, String)>,
}

impl View for ContentType {
    type V = CtView;

    open spec fn view(&self) -> CtView {
        CtView {
            main_type: self.main_type@,
            sub_type: self.sub_type@,
            parameters: params_map(self.parameters@),
        }
    }
}

/// One `;`-separated segment after the first, as a parameter entry: split at
/// the first `=`, the key trimmed, one layer of surrounding quotes removed
/// from the value; `None` when the segment holds no `=`.
pub open spec fn param_entry(tok: Seq<char>) -> Option<(Seq<char>, Seq<char>)> {
    match split_once_spec(trim_spec(tok), '=') {
        None => None,
        Some(p) => Some((trim_spec(p.0), unquote_spec(p.1))),
    }
}

/// `s` with one leading and one trailing double quote removed, when present.
pub open spec fn unquote_spec(s: Seq<char>) -> Seq<char> {
    let a = if s.len() > 0 && s[0] == '"' {
        s.drop_first()
    } else {
        s
    };
    if a.len() > 0 && a.last() == '"' {
        a.drop_last()
    } else {
        a
    }
}

/// The parameter mapping read from the segments after the first.
pub open spec fn params_of(toks: Seq<Seq<char>>) -> Map<Seq<char>, Seq<char>>
    decreases toks.len(),
{
    if toks.len() == 0 {
        Map::<Seq<char>, Seq<char>>::empty()
    } else {
        let m = params_of(toks.drop_last());
        match param_entry(toks.last()) {
            None => m,
            Some(kv) => m.insert(kv.0, kv.1),
        }
    }
}

/// What parsing a raw header value yields: the first `;`-separated segment
/// split at its first `/` into main and sub type (the subtype empty when no
/// `/` occurs), the remaining segments as parameters.
pub open spec fn parse_ct_spec(s: Seq<char>) -> CtView {
    let toks = split_spec(s, ';');
    let first = trim_spec(toks[0]);
    CtView {
        main_type: match split_once_spec(first, '/') {
            None => first,
            Some(p) => p.0,
        },
        sub_type: match split_once_spec(first, '/') {
            None => Seq::<char>::empty(),
            Some(p) => p.1,
        },
        parameters: params_of(toks.skip(1)),
    }
}

/// The full MIME type of a parsed content type: main type, `/`, sub type.
pub open spec fn mime_spec(ct: CtView) -> Seq<char> {
    ct.main_type.push('/') + ct.sub_type
}

impl ContentType {
    /// Parse a Content-Type header string.
    pub fn parse(content_type: &str) -> (r: ContentType)
        ensures
            r@ == parse_ct_spec(content_type@),
            unique_keys(r.parameters@),
    {
        let chars = str_to_chars(content_type);
        let toks = split_all(&chars, ';');
        proof {
            crate::strutil::lemma_vecs_deep_view_index(&toks, 0);
        }
        let first = trim(&toks[0]);
        let (main_v, sub_v) = match split_once(&first, '/') {
            None => (first, Vec::<char>::new()),
            Some(p) => (p.0, p.1),
        };
        let ghost dv = toks.deep_view();
        let mut params: Vec<(String, String)> = Vec::new();
        let mut i: usize = 1;
        proof {
            assert(dv.skip(1).take(0).len() == 0);
            assert(params_map(params@) =~= params_of(dv.skip(1).take(0)));
        }
        while i < toks.len()
            invariant
                1 <= i <= toks@.len(),
                dv == toks.deep_view(),
                dv.len() == toks@.len(),
                unique_keys(params@),
                params_map(params@) == params_of(dv.skip(1).take(i - 1)),
            decreases toks@.len() - i,
        {
            proof {
                crate::strutil::lemma_vecs_deep_view_index(&toks, i as int);
            }
            let ghost pre = dv.skip(1).take(i - 1);
            let tt = trim(&toks[i]);
            match split_once(&tt, '=') {
                None => {
                    proof {
                        assert(dv.skip(1).take(i as int).drop_last() =~= pre);
                        assert(dv.skip(1).take(i as int).last() == dv[i as int]);
                        assert(param_entry(dv[i as int]) is None);
                    }
                },
                Some(p) => {
                    let key = trim(&p.0);
                    let val = unquote(&p.1);
                    let key_s = chars_to_string(&key);
                    let val_s = chars_to_string(&val);
                    insert_param(&mut params, key_s, val_s);
                    proof {
                        assert(dv.skip(1).take(i as int).drop_last() =~= pre);
                        assert(dv.skip(1).take(i as int).last() == dv[i as int]);
                        assert(param_entry(dv[i as int]) == Some((key@, val@)));
                    }
                },
            }
            i += 1;
        }
        proof {
            assert(dv.skip(1).take(dv.len() - 1) =~= dv.skip(1));
        }
        ContentType {
            main_type: chars_to_string(&main_v),
            sub_type: chars_to_string(&sub_v),
            parameters: params,
        }
    }

    /// The full MIME type string (e.g., "image/png").
    pub fn mime_type(&self) -> (r: String)
        ensures
            r@ == mime_spec(self@),
    {
        let mut out = str_to_chars(self.main_type.as_str());
        out.push('/');
        push_str_chars(&mut out, self.sub_type.as_str());
        proof {
            assert(self.main_type@.push('/') =~= self.main_type@ + seq!['/']);
            assert(out@ =~= mime_spec(self@));
        }
        chars_to_string(&out)
    }

    /// Looks a parameter up by its exact key; the last stored entry for a
    /// duplicated key wins, matching the parameter mapping.
    pub fn get_parameter(&self, key: &str) -> (r: Option<String>)
        ensures
            match r {
                Some(v) => self@.parameters.contains_key(key@) && v@ == self@.parameters[key@],
                None => !self@.parameters.contains_key(key@),
            },
    {
        let mut i: usize = self.parameters.len();
        while i > 0
            invariant
                i <= self.parameters@.len(),
                forall|j: int| i <= j < self.parameters@.len() ==> self.parameters@[j].0@ != key@,
            decreases i,
        {
            i -= 1;
            if str_eq(self.parameters[i].0.as_str(), key) {
                proof {
                    lemma_params_map_last(self.parameters@, key@, i as int);
                }
                return Some(self.parameters[i].1.clone());
            }
        }
        proof {
            lemma_params_map_absent(self.parameters@, key@);
        }
        None
    }
}

/// `s` with one layer of surrounding double quotes removed.
fn unquote(v: &Vec<char>) -> (r: Vec<char>)
    ensures
        r@ == unquote_spec(v@),
{
    let n = v.len();
    let lo: usize = if n > 0 && v[0] == '"' {
        1
    } else {
        0
    };
    let hi: usize = if n > lo && v[n - 1] == '"' {
        n - 1
    } else {
        n
    };
    let mut r: Vec<char> = Vec::new();
    let mut i: usize = lo;
    while i < hi
        invariant
            lo <= i <= hi <= v@.len(),
            r@ == v@.subrange(lo as int, i as int),
        decreases hi - i,
    {
        r.push(v[i]);
        proof {
            assert(v@.subrange(lo as int, i + 1)
                =~= v@.subrange(lo as int, i as int).push(v@[i as int]));
        }
        i += 1;
    }
    proof {
        assert(r@ =~= unquote_spec(v@));
    }
    r
}

/// Stores a parameter, overwriting any entry with the same key so that keys
/// stay unique.
fn insert_param(params: &mut Vec<(String, String)>, key: String, val: String)
    requires
        unique_keys(old(params)@),
    ensures
        unique_keys(final(params)@),
        params_map(final(params)@) == params_map(old(params)@).insert(key@, val@),
{
    let ghost orig = params@;
    let mut i: usize = 0;
    let mut found: bool = false;
    while i < params.len() && !found
        invariant
            i <= params@.len(),
            !found ==> params@ == orig,
            !found ==> forall|j: int| 0 <= j < i ==> orig[j].0@ != key@,
            found ==> i < orig.len() && orig[i as int].0@ == key@ && params@ == orig.remove(
                i as int,
            ),
            unique_keys(orig),
        decreases params@.len() - i + (if found { 0int } else { 1int }),
    {
        if str_eq(params[i].0.as_str(), key.as_str()) {
            params.remove(i);
            found = true;
        } else {
            i += 1;
        }
    }
    if found {
        proof {
            assert forall|j: int| 0 <= j < orig.len() && j != i implies orig[j].0@ != key@ by {
                if j < i {
                    assert(orig[j].0@ != orig[i as int].0@);
                }
            }
            lemma_params_map_remove(orig, key@, i as int);
            assert forall|a: int, b: int| 0 <= a < b < params@.len()
                implies params@[a].0@ != params@[b].0@ by {
                let ra = if a < i { a } else { a + 1 };
                let rb = if b < i { b } else { b + 1 };
                assert(params@[a] == orig[ra]);
                assert(params@[b] == orig[rb]);
            }
        }
    }
    let ghost mid = params@;
    params.push((key, val));
    proof {
        assert(params@.drop_last() =~= mid);
        assert(params@.last() == (key, val));
        if found {
            assert(params_map(mid) =~= params_map(orig).remove(key@));
            assert(params_map(params@) =~= params_map(orig).insert(key@, val@));
        } else {
            assert forall|j: int| 0 <= j < mid.len() implies mid[j].0@ != key@ by {}
        }
        assert forall|a: int, b: int| 0 <= a < b < params@.len()
            implies params@[a].0@ != params@[b].0@ by {
            if b < params@.len() - 1 {
                assert(params@[a] == mid[a] && params@[b] == mid[b]);
            } else {
                assert(params@[a] == mid[a] && mid[a].0@ != key@);
            }
        }
    }
}

/// A key stored in no entry is absent from the parameter mapping.
proof fn lemma_params_map_absent(ps: Seq<(String, String)>, k: Seq<char>)
    requires
        forall|j: int| 0 <= j < ps.len() ==> ps[j].0@ != k,
    ensures
        !params_map(ps).contains_key(k),
    decreases ps.len(),
{
    if ps.len() > 0 {
        assert forall|j: int| 0 <= j < ps.drop_last().len()
            implies ps.drop_last()[j].0@ != k by {
            assert(ps[j].0@ != k);
        }
        lemma_params_map_absent(ps.drop_last(), k);
    }
}

/// The mapping holds, for a key, the value of its last stored entry.
proof fn lemma_params_map_last(ps: Seq<(String, String)>, k: Seq<char>, i: int)
    requires
        0 <= i < ps.len(),
        ps[i].0@ == k,
        forall|j: int| i < j < ps.len() ==> ps[j].0@ != k,
    ensures
        params_map(ps).contains_key(k),
        params_map(ps)[k] == ps[i].1@,
    decreases ps.len(),
{
    if i == ps.len() - 1 {
    } else {
        assert forall|j: int| i < j < ps.drop_last().len()
            implies ps.drop_last()[j].0@ != k by {
            assert(ps[j].0@ != k);
        }
        lemma_params_map_last(ps.drop_last(), k, i);
        assert(ps.last().0@ != k);
    }
}

/// Removing the one entry with key `k` removes `k` from the mapping.
proof fn lemma_params_map_remove(ps: Seq<(String, String)>, k: Seq<char>, i: int)
    requires
        0 <= i < ps.len(),
        ps[i].0@ == k,
        forall|j: int| 0 <= j < ps.len() && j != i ==> ps[j].0@ != k,
    ensures
        params_map(ps.remove(i)) == params_map(ps).remove(k),
    decreases ps.len(),
{
    if i == ps.len() - 1 {
        assert(ps.remove(i) =~= ps.drop_last());
        assert forall|j: int| 0 <= j < ps.drop_last().len()
            implies ps.drop_last()[j].0@ != k by {
            assert(ps[j].0@ != k);
        }
        lemma_params_map_absent(ps.drop_last(), k);
        assert(params_map(ps.drop_last())
            =~= params_map(ps.drop_last()).insert(k, ps.last().1@).remove(k));
    } else {
        assert(ps.remove(i).drop_last() =~= ps.drop_last().remove(i));
        assert(ps.remove(i).last() == ps.last());
        assert forall|j: int| 0 <= j < ps.drop_last().len() && j != i
            implies ps.drop_last()[j].0@ != k by {
            assert(ps[j].0@ != k);
        }
        lemma_params_map_remove(ps.drop_last(), k, i);
        assert(ps.last().0@ != k);
        assert(params_map(ps.drop_last()).remove(k).insert(ps.last().0@, ps.last().1@)
            =~= params_map(ps.drop_last()).insert(ps.last().0@, ps.last().1@).remove(k));
    }
}

/// In a header value without any `/`, the subtype parses to the empty string
/// and the full MIME type is the main type followed by a bare `/`.
pub proof fn lemma_parse_missing_slash(s: Seq<char>)
    requires
        no_char(s, '/'),
    ensures
        parse_ct_spec(s).sub_type == Seq::<char>::empty(),
        mime_spec(parse_ct_spec(s)) == parse_ct_spec(s).main_type.push('/'),
{
    lemma_split_spec_len(s, ';');
    lemma_split_no_char(s, ';', '/');
    let tok = split_spec(s, ';')[0];
    lemma_trim_no_char(tok, '/');
    let first = trim_spec(tok);
    lemma_find_char(first, '/');
    match find_char(first, '/') {
        None => {},
        Some(i) => {
            assert(first[i] == '/');
            assert(false);
        },
    }
    assert(parse_ct_spec(s).main_type.push('/') + Seq::<char>::empty()
        =~= parse_ct_spec(s).main_type.push('/'));
}

/// Splitting keeps every character, so a character absent from the whole is
/// absent from every part.
proof fn lemma_split_no_char(s: Seq<char>, sep: char, c: char)
    requires
        no_char(s, c),
    ensures
        forall|k: int|
            0 <= k < split_spec(s, sep).len() ==> no_char(#[trigger] split_spec(s, sep)[k], c),
    decreases s.len(),
{
    if s.len() > 0 {
        assert forall|j: int| 0 <= j < s.drop_last().len() implies s.drop_last()[j] != c by {
            assert(s[j] != c);
        }
        lemma_split_no_char(s.drop_last(), sep, c);
        lemma_split_spec_len(s.drop_last(), sep);
        let rest = split_spec(s.drop_last(), sep);
        if s.last() == sep {
            assert forall|k: int| 0 <= k < split_spec(s, sep).len()
                implies no_char(#[trigger] split_spec(s, sep)[k], c) by {
                if k < rest.len() {
                    assert(split_spec(s, sep)[k] == rest[k]);
                } else {
                    assert(split_spec(s, sep)[k] =~= Seq::<char>::empty());
                }
            }
        } else {
            assert(s.last() != c);
            assert forall|k: int| 0 <= k < split_spec(s, sep).len()
                implies no_char(#[trigger] split_spec(s, sep)[k], c) by {
                if k == rest.len() - 1 {
                    assert(no_char(rest[k], c));
                    assert(split_spec(s, sep)[k] == rest[k].push(s.last()));
                    assert forall|j: int| 0 <= j < rest[k].push(s.last()).len()
                        implies rest[k].push(s.last())[j] != c by {
                        if j < rest[k].len() {
                            assert(rest[k][j] != c);
                        }
                    }
                } else {
                    assert(split_spec(s, sep)[k] == rest[k]);
                }
            }
        }
    }
}

/// Trimming keeps only characters of the original.
proof fn lemma_trim_no_char(s: Seq<char>, c: char)
    requires
        no_char(s, c),
    ensures
        no_char(trim_spec(s), c),
{
    lemma_trim_start_no_char(s, c);
    lemma_trim_end_no_char(trim_start_spec(s), c);
}

proof fn lemma_trim_start_no_char(s: Seq<char>, c: char)
    requires
        no_char(s, c),
    ensures
        no_char(trim_start_spec(s), c),
    decreases s.len(),
{
    if s.len() > 0 && is_space(s[0]) {
        assert forall|j: int| 0 <= j < s.drop_first().len() implies s.drop_first()[j] != c by {
            assert(s[j + 1] != c);
        }
        lemma_trim_start_no_char(s.drop_first(), c);
    }
}

proof fn lemma_trim_end_no_char(s: Seq<char>, c: char)
    requires
        no_char(s, c),
    ensures
        no_char(trim_end_spec(s), c),
    decreases s.len(),
{
    if s.len() > 0 && is_space(s.last()) {
        assert forall|j: int| 0 <= j < s.drop_last().len() implies s.drop_last()[j] != c by {
            assert(s[j] != c);
        }
        lemma_trim_end_no_char(s.drop_last(), c);
    }
}

} // verus!
