//! Route patterns and their matcher.  A pattern is a run of literal
//! characters with `:name` placeholders; a placeholder captures a non-empty
//! run of characters other than `/`, `?` and `&`, greedily, with
//! backtracking.  Endpoint patterns must consume the whole remaining path;
//! namespace and prefix patterns may leave a suffix, and report how much
//! they consumed.
use vstd::prelude::*;

verus! {

use vstd::string::StrSliceExecFns;
use vstd::string::StringExecFns;
use crate::codec::{percent_decode, spec_pct_decode};
use crate::json::{JsonValue, JsonV, view_json};
use crate::params::{Params, ParamsV, spec_insert};

/// One element of a compiled pattern: a literal character or a named
/// placeholder.
#[derive(Debug, PartialEq)]
pub enum PathElem {
    Lit(char),
    Param(String),
}

/// The shadow of a pattern element.
pub enum PathElemV {
    Lit(char),
    Param(Seq<char>),
}

/// The shadow of one pattern element.
pub open spec fn view_elem(e: PathElem) -> PathElemV {
    match e {
        PathElem::Lit(c) => PathElemV::Lit(c),
        PathElem::Param(name) => PathElemV::Param(name@),
    }
}

/// The shadows of a list of pattern elements.
pub open spec fn view_elems(elems: Seq<PathElem>) -> Seq<PathElemV> {
    Seq::new(elems.len(), |i: int| view_elem(elems[i]))
}

/// The views of a list of string pairs.
pub open spec fn view_pairs(pairs: Seq<(String, String)>) -> Seq<(Seq<char>, Seq<char>)> {
    Seq::new(pairs.len(), |i: int| (pairs[i].0@, pairs[i].1@))
}

/// The views of a list of strings.
pub open spec fn view_strings(names: Seq<String>) -> Seq<Seq<char>> {
    Seq::new(names.len(), |i: int| names[i]@)
}

/// Whether a character may begin a placeholder name.
pub open spec fn spec_lower(c: char) -> bool {
    'a' <= c && c <= 'z'
}

/// Whether a character may continue a placeholder name.
pub open spec fn spec_name_char(c: char) -> bool {
    spec_lower(c) || c == '_'
}

/// Whether a character may appear in a captured segment.
pub open spec fn spec_seg_char(c: char) -> bool {
    c != '/' && c != '?' && c != '&'
}

/// The first position at or after `i` whose character cannot continue a
/// placeholder name.
pub open spec fn spec_name_end(s: Seq<char>, i: int) -> int
    decreases s.len() - i,
    when 0 <= i <= s.len()
{
    if i < s.len() && spec_name_char(s[i]) {
        spec_name_end(s, i + 1)
    } else {
        i
    }
}

/// `spec_name_end` stays between `i` and the end of the text.
pub proof fn lemma_name_end(s: Seq<char>, i: int)
    requires
        0 <= i <= s.len(),
    ensures
        i <= spec_name_end(s, i) <= s.len(),
    decreases s.len() - i,
{
    if i < s.len() && spec_name_char(s[i]) {
        lemma_name_end(s, i + 1);
    }
}

/// The compiled elements of the pattern text from `i` on: a `:` followed
/// by a lower-case letter starts a placeholder, whose name runs while
/// letters and underscores last; every other character is itself.
pub open spec fn spec_parse(s: Seq<char>, i: int) -> Seq<PathElemV>
    decreases s.len() - i,
    when 0 <= i <= s.len()
    via spec_parse_dec
{
    if i >= s.len() {
        Seq::empty()
    } else if s[i] == ':' && i + 1 < s.len() && spec_lower(s[i + 1]) {
        let e = spec_name_end(s, i + 2);
        seq![PathElemV::Param(s.subrange(i + 1, e))] + spec_parse(s, e)
    } else {
        seq![PathElemV::Lit(s[i])] + spec_parse(s, i + 1)
    }
}

#[via_fn]
proof fn spec_parse_dec(s: Seq<char>, i: int) {
    if 0 <= i && i < s.len() && s[i] == ':' && i + 1 < s.len() && spec_lower(s[i + 1]) {
        lemma_name_end(s, i + 2);
    }
}

/// The placeholder names of a compiled pattern, in order.
pub open spec fn spec_param_names(elems: Seq<PathElemV>) -> Seq<Seq<char>>
    decreases elems.len(),
{
    if elems.len() == 0 {
        Seq::empty()
    } else {
        match elems[0] {
            PathElemV::Param(name) => seq![name] + spec_param_names(elems.drop_first()),
            PathElemV::Lit(_) => spec_param_names(elems.drop_first()),
        }
    }
}

/// The length of the run of segment characters starting at `i`.
pub open spec fn spec_run_len(s: Seq<char>, i: int) -> int
    decreases s.len() - i,
    when 0 <= i <= s.len()
{
    if i < s.len() && spec_seg_char(s[i]) {
        1 + spec_run_len(s, i + 1)
    } else {
        0
    }
}

/// The segment run never outgrows the text.
pub proof fn lemma_run_len(s: Seq<char>, i: int)
    requires
        0 <= i <= s.len(),
    ensures
        0 <= spec_run_len(s, i) <= s.len() - i,
    decreases s.len() - i,
{
    if i < s.len() && spec_seg_char(s[i]) {
        lemma_run_len(s, i + 1);
    }
}

/// The match of pattern elements `ei..` against the text from position
/// `i`: the position after the matched prefix and the captures in
/// placeholder order, or `None`.  A placeholder takes the longest run the
/// rest of the pattern allows (at least one character); an endpoint
/// pattern must reach the end of the text.
pub open spec fn spec_match_at(
    elems: Seq<PathElemV>,
    ei: int,
    s: Seq<char>,
    i: int,
    endpoint: bool,
) -> Option<(int, Seq<(Seq<char>, Seq<char>)>)>
    decreases elems.len() - ei, s.len() - i + 1,
    when 0 <= ei <= elems.len() && 0 <= i <= s.len()
    via spec_match_at_dec
{
    if ei == elems.len() {
        if endpoint && i != s.len() {
            None
        } else {
            Some((i, Seq::empty()))
        }
    } else {
        match elems[ei] {
            PathElemV::Lit(c) => {
                if i < s.len() && s[i] == c {
                    spec_match_at(elems, ei + 1, s, i + 1, endpoint)
                } else {
                    None
                }
            },
            PathElemV::Param(name) => spec_try_param(
                elems,
                ei,
                s,
                i,
                spec_run_len(s, i),
                endpoint,
            ),
        }
    }
}

#[via_fn]
proof fn spec_match_at_dec(elems: Seq<PathElemV>, ei: int, s: Seq<char>, i: int, endpoint: bool) {
    if 0 <= ei && ei < elems.len() && 0 <= i <= s.len() {
        lemma_run_len(s, i);
    }
}

/// The greedy search for a placeholder's capture length: `k` downwards to
/// one, taking the first length after which the rest of the pattern
/// matches.
pub open spec fn spec_try_param(
    elems: Seq<PathElemV>,
    ei: int,
    s: Seq<char>,
    i: int,
    k: int,
    endpoint: bool,
) -> Option<(int, Seq<(Seq<char>, Seq<char>)>)>
    decreases elems.len() - ei, k,
    when 0 <= ei < elems.len() && 0 <= i <= s.len() && k <= spec_run_len(s, i) && elems[ei]
        is Param
    via spec_try_param_dec
{
    if k < 1 {
        None
    } else {
        match spec_match_at(elems, ei + 1, s, i + k, endpoint) {
            Some((e, caps)) => Some(
                (e, seq![(elems[ei]->Param_0, s.subrange(i, i + k))] + caps),
            ),
            None => spec_try_param(elems, ei, s, i, k - 1, endpoint),
        }
    }
}

#[via_fn]
proof fn spec_try_param_dec(
    elems: Seq<PathElemV>,
    ei: int,
    s: Seq<char>,
    i: int,
    k: int,
    endpoint: bool,
) {
    if 0 <= ei < elems.len() && 0 <= i <= s.len() && k <= spec_run_len(s, i) {
        lemma_run_len(s, i);
    }
}

/// A compiled route pattern.
#[derive(Debug, PartialEq)]
pub struct Path {
    /// The pattern text as written.
    pub path: String,
    /// The placeholder names, in order.
    pub params: Vec<String>,
    /// The compiled elements.
    pub elems: Vec<PathElem>,
    /// Whether a match must consume the whole remaining path.
    pub endpoint: bool,
}

/// A successful match: how much of the text the pattern consumed, and the
/// captured segments in placeholder order.
#[derive(Debug, PartialEq)]
pub struct PathMatch {
    pub consumed: usize,
    pub captures: Vec<(String, String)>,
}

/// Strips one leading slash, when there is one.
pub open spec fn spec_normalize(s: Seq<char>) -> Seq<char> {
    if s.len() > 0 && s[0] == '/' {
        s.drop_first()
    } else {
        s
    }
}

/// Strips one leading slash, when there is one.
pub fn normalize<'a>(path: &'a str) -> (r: &'a str)
    ensures
        r@ == spec_normalize(path@),
{
    let n = path.unicode_len();
    if n > 0 && path.get_char(0) == '/' {
        let r = path.substring_char(1, n);
        proof {
            assert(r@ =~= spec_normalize(path@));
        }
        r
    } else {
        path
    }
}

/// Whether a character may begin a placeholder name.
fn is_lower(c: char) -> (r: bool)
    ensures
        r == spec_lower(c),
{
    'a' <= c && c <= 'z'
}

/// Whether a character may continue a placeholder name.
fn is_name_char(c: char) -> (r: bool)
    ensures
        r == spec_name_char(c),
{
    ('a' <= c && c <= 'z') || c == '_'
}

/// Whether a character may appear in a captured segment.
fn is_seg_char(c: char) -> (r: bool)
    ensures
        r == spec_seg_char(c),
{
    c != '/' && c != '?' && c != '&'
}

/// The length of the run of segment characters starting at `i`.
fn run_len(s: &str, i: usize) -> (r: usize)
    requires
        i <= s@.len(),
    ensures
        r == spec_run_len(s@, i as int),
        i + r <= s@.len(),
    decreases s@.len() - i,
{
    proof {
        lemma_run_len(s@, i as int);
    }
    let n = s.unicode_len();
    if i < n && is_seg_char(s.get_char(i)) {
        1 + run_len(s, i + 1)
    } else {
        0
    }
}

/// The match of pattern elements `ei..` against the text from `i`.
fn match_at(elems: &Vec<PathElem>, ei: usize, s: &str, i: usize, endpoint: bool) -> (r: Option<
    (usize, Vec<(String, String)>),
>)
    requires
        ei <= elems@.len(),
        i <= s@.len(),
    ensures
        match r {
            Some(m) => {
                &&& spec_match_at(view_elems(elems@), ei as int, s@, i as int, endpoint) == Some(
                    (m.0 as int, view_pairs(m.1@)),
                )
                &&& m.0 <= s@.len()
            },
            None => spec_match_at(view_elems(elems@), ei as int, s@, i as int, endpoint) is None,
        },
    decreases elems@.len() - ei, s@.len() - i + 1,
{
    let ghost ev = view_elems(elems@);
    let n = s.unicode_len();
    if ei == elems.len() {
        if endpoint && i != n {
            None
        } else {
            let caps: Vec<(String, String)> = Vec::new();
            proof {
                assert(view_pairs(caps@) =~= Seq::<(Seq<char>, Seq<char>)>::empty());
            }
            Some((i, caps))
        }
    } else {
        match &elems[ei] {
            PathElem::Lit(c) => {
                if i < n && s.get_char(i) == *c {
                    match_at(elems, ei + 1, s, i + 1, endpoint)
                } else {
                    None
                }
            },
            PathElem::Param(_) => {
                let k = run_len(s, i);
                proof {
                    lemma_run_len(s@, i as int);
                }
                try_param(elems, ei, s, i, k, endpoint)
            },
        }
    }
}

/// The greedy search for a placeholder's capture length.
fn try_param(elems: &Vec<PathElem>, ei: usize, s: &str, i: usize, k: usize, endpoint: bool) -> (r:
    Option<(usize, Vec<(String, String)>)>)
    requires
        ei < elems@.len(),
        i <= s@.len(),
        k <= spec_run_len(s@, i as int),
        elems@[ei as int] is Param,
    ensures
        match r {
            Some(m) => {
                &&& spec_try_param(view_elems(elems@), ei as int, s@, i as int, k as int, endpoint)
                    == Some((m.0 as int, view_pairs(m.1@)))
                &&& m.0 <= s@.len()
            },
            None => spec_try_param(
                view_elems(elems@),
                ei as int,
                s@,
                i as int,
                k as int,
                endpoint,
            ) is None,
        },
    decreases elems@.len() - ei, k,
{
    let n = s.unicode_len();
    let m = elems.len();
    proof {
        lemma_run_len(s@, i as int);
        assert(view_elems(elems@)[ei as int] == view_elem(elems@[ei as int]));
        assert(i + k <= n);
    }
    if k < 1 {
        None
    } else {
        match match_at(elems, ei + 1, s, i + k, endpoint) {
            Some((e, mut caps)) => {
                let ghost caps0 = caps@;
                let name = match &elems[ei] {
                    PathElem::Param(name) => name.clone(),
                    PathElem::Lit(_) => vstd::pervasive::unreached(),
                };
                let raw = s.substring_char(i, i + k).to_owned();
                caps.insert(0, (name, raw));
                proof {
                    assert(view_pairs(caps@) =~= seq![
                        (
                            view_elems(elems@)[ei as int]->Param_0,
                            s@.subrange(i as int, i + k),
                        ),
                    ] + view_pairs(caps@.drop_first()));
                    assert(caps@.drop_first() =~= caps0);
                }
                Some((e, caps))
            },
            None => try_param(elems, ei, s, i, k - 1, endpoint),
        }
    }
}

impl Path {
    /// The shadow of the compiled elements.
    pub open spec fn view(&self) -> Seq<PathElemV> {
        view_elems(self.elems@)
    }

    /// Compiles a pattern.  Every pattern text compiles; the `Result`
    /// shape reports no failures.
    pub fn parse(path: &str, endpoint: bool) -> (r: Result<Path, String>)
        ensures
            r is Ok,
            ({
                let p = r->Ok_0;
                &&& p.path@ == path@
                &&& p.endpoint == endpoint
                &&& p.view() == spec_parse(path@, 0)
                &&& view_strings(p.params@) == spec_param_names(spec_parse(path@, 0))
            }),
    {
        let n = path.unicode_len();
        let mut elems: Vec<PathElem> = Vec::new();
        let mut params: Vec<String> = Vec::new();
        let mut i: usize = 0;
        while i < n
            invariant
                0 <= i <= n,
                n == path@.len(),
                view_elems(elems@) + spec_parse(path@, i as int) == spec_parse(path@, 0),
                view_strings(params@) + spec_param_names(spec_parse(path@, i as int))
                    == spec_param_names(spec_parse(path@, 0)),
            decreases n - i,
        {
            let c = path.get_char(i);
            if c == ':' && i + 1 < n && is_lower(path.get_char(i + 1)) {
                let mut j: usize = i + 2;
                while j < n && is_name_char(path.get_char(j))
                    invariant
                        i + 2 <= j <= n,
                        n == path@.len(),
                        spec_name_end(path@, i as int + 2) == spec_name_end(path@, j as int),
                    decreases n - j,
                {
                    j += 1;
                }
                proof {
                    assert(spec_name_end(path@, j as int) == j);
                }
                let name = path.substring_char(i + 1, j).to_owned();
                elems.push(PathElem::Param(name.clone()));
                params.push(name);
                proof {
                    let gi = i as int;
                    let e = spec_name_end(path@, gi + 2);
                    lemma_name_end(path@, gi + 2);
                    let head = PathElemV::Param(path@.subrange(gi + 1, e));
                    let parsed = spec_parse(path@, gi);
                    assert(parsed == seq![head] + spec_parse(path@, e));
                    assert(parsed.drop_first() =~= spec_parse(path@, e));
                    assert(parsed[0] == head);
                    assert(spec_param_names(parsed) == seq![head->Param_0] + spec_param_names(
                        parsed.drop_first(),
                    ));
                    assert(view_elems(elems@) =~= view_elems(elems@.drop_last()) + seq![
                        view_elem(elems@.last()),
                    ]);
                    assert(view_elems(elems@) + spec_parse(path@, j as int) =~= spec_parse(
                        path@,
                        0,
                    ));
                    assert(view_strings(params@) =~= view_strings(params@.drop_last()) + seq![
                        params@.last()@,
                    ]);
                    assert(view_strings(params@) + spec_param_names(spec_parse(path@, j as int))
                        =~= spec_param_names(spec_parse(path@, 0)));
                }
                i = j;
            } else {
                elems.push(PathElem::Lit(c));
                proof {
                    let gi = i as int;
                    let head = PathElemV::Lit(path@[gi]);
                    let parsed = spec_parse(path@, gi);
                    assert(parsed == seq![head] + spec_parse(path@, gi + 1));
                    assert(parsed.drop_first() =~= spec_parse(path@, gi + 1));
                    assert(parsed[0] == head);
                    assert(spec_param_names(parsed) == spec_param_names(parsed.drop_first()));
                    assert(view_elems(elems@) =~= view_elems(elems@.drop_last()) + seq![
                        view_elem(elems@.last()),
                    ]);
                    assert(view_elems(elems@) + spec_parse(path@, gi + 1) =~= spec_parse(
                        path@,
                        0,
                    ));
                    assert(view_strings(params@) + spec_param_names(spec_parse(path@, gi + 1))
                        =~= spec_param_names(spec_parse(path@, 0)));
                }
                i += 1;
            }
        }
        proof {
            assert(spec_parse(path@, n as int) =~= Seq::<PathElemV>::empty());
            assert(view_elems(elems@) =~= spec_parse(path@, 0));
            assert(view_strings(params@) =~= spec_param_names(spec_parse(path@, 0)));
        }
        Ok(Path { path: path.to_owned(), params, elems, endpoint })
    }

    /// Matches the pattern against the text, anchored at the start; an
    /// endpoint pattern is anchored at the end as well.
    pub fn is_match(&self, path: &str) -> (r: Option<PathMatch>)
        ensures
            match r {
                Some(m) => {
                    &&& spec_match_at(self.view(), 0, path@, 0, self.endpoint) == Some(
                        (m.consumed as int, view_pairs(m.captures@)),
                    )
                    &&& m.consumed <= path@.len()
                },
                None => spec_match_at(self.view(), 0, path@, 0, self.endpoint) is None,
            },
    {
        match match_at(&self.elems, 0, path, 0, self.endpoint) {
            Some((e, caps)) => Some(PathMatch { consumed: e, captures: caps }),
            None => None,
        }
    }

    /// Writes each capture into the bag, percent-decoded, in placeholder
    /// order; a capture overwrites any earlier value under its name.
    pub fn apply_captures(&self, params: &mut Params, captures: &Vec<(String, String)>)
        ensures
            final(params).view() == spec_apply_captures(
                old(params).view(),
                view_pairs(captures@),
                0,
            ),
    {
        let mut i: usize = 0;
        while i < captures.len()
            invariant
                0 <= i <= captures@.len(),
                spec_apply_captures(params.view(), view_pairs(captures@), i as int)
                    == spec_apply_captures(old(params).view(), view_pairs(captures@), 0),
            decreases captures@.len() - i,
        {
            let name = captures[i].0.clone();
            let decoded = percent_decode(captures[i].1.as_str());
            params.insert(name, JsonValue::Str(decoded));
            i += 1;
        }
    }
}

/// The pattern text with each placeholder written in braces: a literal
/// character stands as itself and a placeholder `:name` becomes `{name}`,
/// the form documentation tooling expects.
pub open spec fn spec_braced(elems: Seq<PathElemV>, i: int) -> Seq<char>
    decreases elems.len() - i,
    when 0 <= i <= elems.len()
{
    if i >= elems.len() {
        Seq::empty()
    } else {
        (match elems[i] {
            PathElemV::Lit(c) => seq![c],
            PathElemV::Param(name) => seq!['{'] + name + seq!['}'],
        }) + spec_braced(elems, i + 1)
    }
}

/// The pattern with each placeholder written in braces.
pub fn encode_path_string(path: &Path) -> (r: String)
    ensures
        r@ == spec_braced(path.view(), 0),
{
    let ghost ev = path.view();
    let mut out = String::new();
    let mut i: usize = 0;
    proof {
        assert(out@ + spec_braced(ev, 0) =~= spec_braced(ev, 0));
    }
    while i < path.elems.len()
        invariant
            0 <= i <= path.elems@.len(),
            ev == path.view(),
            ev.len() == path.elems@.len(),
            out@ + spec_braced(ev, i as int) == spec_braced(ev, 0),
        decreases path.elems@.len() - i,
    {
        proof {
            assert(ev[i as int] == view_elem(path.elems@[i as int]));
        }
        match &path.elems[i] {
            PathElem::Lit(c) => {
                crate::strutil::push_char(&mut out, *c);
            },
            PathElem::Param(name) => {
                out.append("{");
                out.append(name.as_str());
                out.append("}");
                proof {
                    reveal_strlit("{");
                    reveal_strlit("}");
                }
            },
        }
        i += 1;
        proof {
            assert(out@ + spec_braced(ev, i as int) =~= spec_braced(ev, 0));
        }
    }
    proof {
        assert(out@ =~= spec_braced(ev, 0));
    }
    out
}

/// The bag after writing captures `i..`, each percent-decoded, in order.
pub open spec fn spec_apply_captures(
    params: ParamsV,
    captures: Seq<(Seq<char>, Seq<char>)>,
    i: int,
) -> ParamsV
    decreases captures.len() - i,
    when 0 <= i <= captures.len()
{
    if i >= captures.len() {
        params
    } else {
        spec_apply_captures(
            spec_insert(params, captures[i].0, JsonV::Str(spec_pct_decode(captures[i].1))),
            captures,
            i + 1,
        )
    }
}

} // verus!
