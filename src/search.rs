use vstd::prelude::*;

use crate::graph::{record_of, Graph, Node};
use crate::text::{is_prefix, starts_with, views_of};
use fuzzy_matcher::FuzzyMatcher;

verus! {

/// The character positions at which the fuzzy matcher finds `key`, in
/// order, within `id`; `None` when it does not match.
pub uninterp spec fn fuzzy_hit(id: Seq<char>, key: Seq<char>) -> Option<Seq<usize>>;

/// `None` when `pattern` is no valid regular expression, else whether it
/// matches somewhere in `text`.
pub uninterp spec fn regex_verdict(pattern: Seq<char>, text: Seq<char>) -> Option<bool>;

/// The character code with ASCII upper case folded to lower case.
pub open spec fn ascii_fold(c: char) -> u32 {
    if 'A' <= c && c <= 'Z' {
        (c as u32 + 32) as u32
    } else {
        c as u32
    }
}

/// `key` occurs in order within `id`, letters compared ignoring ASCII case.
pub open spec fn loose_subsequence(key: Seq<char>, id: Seq<char>) -> bool
    decreases id.len(),
{
    if key.len() == 0 {
        true
    } else if id.len() == 0 {
        false
    } else if ascii_fold(id[0]) == ascii_fold(key[0]) {
        loose_subsequence(key.drop_first(), id.drop_first())
    } else {
        loose_subsequence(key, id.drop_first())
    }
}

/// Relies on fuzzy_matcher's SkimMatcherV2::fuzzy_indices with the default
/// settings: the matched positions, or none; an empty pattern matches with
/// no position, and a pattern that does not occur in order within the
/// choice, even ignoring ASCII case, does not match (`cheap_matches` fails
/// before any scoring).
#[verifier::external_body]
fn fuzzy_indices(id: &str, key: &str) -> (r: Option<Vec<usize>>)
    ensures
        !loose_subsequence(key@, id@) ==> r is None,
        r is None <==> fuzzy_hit(id@, key@) is None,
        r matches Some(v) ==> fuzzy_hit(id@, key@) == Some(v@),
        key@.len() == 0 ==> r is Some && r.unwrap()@.len() == 0,
{
    fuzzy_matcher::skim::SkimMatcherV2::default().fuzzy_indices(id, key).map(|(_, idxs)| idxs)
}

/// Relies on regex::Regex::new, which fails on a pattern that is not valid,
/// and on Regex::is_match, which tells whether the pattern matches anywhere
/// in the text.
#[verifier::external_body]
fn regex_test(pattern: &str, text: &str) -> (r: Option<bool>)
    ensures
        r == regex_verdict(pattern@, text@),
{
    regex::Regex::new(pattern).ok().map(|re| re.is_match(text))
}

/// A matched node id with the character positions to highlight.
pub struct Match {
    pub id: String,
    pub highlight: Vec<usize>,
}

/// The three matching strategies.
#[derive(Debug, Clone, Copy, PartialEq, Eq)]
pub enum Matcher {
    /// The key's characters appear in order within the id.
    Fuzzy,
    /// The key, as a regular expression, matches the node's record.
    Regex,
    /// The id starts with the key.
    Prefix,
}

pub open spec fn match_view(ms: Seq<Match>) -> Seq<(Seq<char>, Seq<usize>)> {
    ms.map_values(|m: Match| (m.id@, m.highlight@))
}

pub open spec fn match_ids(ms: Seq<Match>) -> Seq<Seq<char>> {
    ms.map_values(|m: Match| m.id@)
}

/// The positions `0 .. n`.
pub open spec fn first_positions(n: nat) -> Seq<usize> {
    Seq::new(n, |i: int| i as usize)
}

/// What one matcher finds for one candidate id.
pub open spec fn match_one_spec(
    matcher: Matcher,
    id: Seq<char>,
    key: Seq<char>,
    nodes: Seq<Node>,
) -> Option<Seq<usize>> {
    match matcher {
        Matcher::Fuzzy => fuzzy_hit(id, key),
        Matcher::Regex => match record_of(nodes, id) {
            Some(rec) => if regex_verdict(key, rec) == Some(true) {
                Some(Seq::<usize>::empty())
            } else {
                None
            },
            None => None,
        },
        Matcher::Prefix => if is_prefix(key, id) {
            Some(first_positions(key.len()))
        } else {
            None
        },
    }
}

/// The matches of `key` among `cands`, in candidate order.
pub open spec fn matches_of(
    matcher: Matcher,
    cands: Seq<Seq<char>>,
    key: Seq<char>,
    nodes: Seq<Node>,
) -> Seq<(Seq<char>, Seq<usize>)>
    decreases cands.len(),
{
    if cands.len() == 0 {
        seq![]
    } else {
        let rest = matches_of(matcher, cands.drop_last(), key, nodes);
        match match_one_spec(matcher, cands.last(), key, nodes) {
            Some(h) => rest.push((cands.last(), h)),
            None => rest,
        }
    }
}

fn first_positions_vec(n: usize) -> (r: Vec<usize>)
    ensures
        r@ == first_positions(n as nat),
{
    let mut v: Vec<usize> = Vec::new();
    let mut i: usize = 0;
    while i < n
        invariant
            i <= n,
            v@ == first_positions(i as nat),
        decreases n - i,
    {
        v.push(i);
        i = i + 1;
        assert(v@ =~= first_positions(i as nat));
    }
    v
}

/// What `matcher` finds for the candidate `id`.
pub fn match_one(matcher: Matcher, id: &String, key: &String, graph: &Graph) -> (r: Option<
    Vec<usize>,
>)
    ensures
        match r {
            Some(v) => match_one_spec(matcher, id@, key@, graph.nodes@) == Some(v@),
            None => match_one_spec(matcher, id@, key@, graph.nodes@).is_none(),
        },
        matcher == Matcher::Fuzzy && !loose_subsequence(key@, id@) ==> r is None,
        matcher == Matcher::Fuzzy && key@.len() == 0 ==> (r matches Some(v) && v@.len() == 0),
{
    match matcher {
        Matcher::Fuzzy => fuzzy_indices(id.as_str(), key.as_str()),
        Matcher::Regex => match graph.record(id) {
            Some(rec) => match regex_test(key.as_str(), rec.as_str()) {
                Some(true) => Some(Vec::new()),
                _ => None,
            },
            None => None,
        },
        Matcher::Prefix => if starts_with(id.as_str(), key.as_str()) {
            Some(first_positions_vec(key.as_str().unicode_len()))
        } else {
            None
        },
    }
}

/// Runs `matcher` over `cands` and keeps the hits in candidate order.
pub fn find_matches(matcher: Matcher, cands: &Vec<String>, key: &String, graph: &Graph) -> (r: Vec<
    Match,
>)
    ensures
        match_view(r@) == matches_of(matcher, views_of(cands@), key@, graph.nodes@),
        matcher == Matcher::Fuzzy ==> forall|i: int| 0 <= i < r@.len() ==> loose_subsequence(key@, #[trigger] r@[i].id@),
        matcher == Matcher::Fuzzy && key@.len() == 0 ==> r@.len() == cands@.len(),
{
    let mut out: Vec<Match> = Vec::new();
    let mut i: usize = 0;
    while i < cands.len()
        invariant
            i <= cands@.len(),
            match_view(out@) == matches_of(matcher, views_of(cands@.subrange(0, i as int)), key@, graph.nodes@),
            matcher == Matcher::Fuzzy ==> forall|k: int| 0 <= k < out@.len() ==> loose_subsequence(key@, #[trigger] out@[k].id@),
            matcher == Matcher::Fuzzy && key@.len() == 0 ==> out@.len() == i,
        decreases cands@.len() - i,
    {
        assert(views_of(cands@.subrange(0, i + 1)).drop_last() =~= views_of(cands@.subrange(0, i as int)));
        assert(views_of(cands@.subrange(0, i + 1)).last() == cands@[i as int]@);
        match match_one(matcher, &cands[i], key, graph) {
            Some(h) => {
                out.push(Match { id: cands[i].clone(), highlight: h });
            },
            None => {},
        }
        assert(match_view(out@) =~= matches_of(matcher, views_of(cands@.subrange(0, i + 1)), key@, graph.nodes@));
        i = i + 1;
    }
    assert(cands@.subrange(0, i as int) =~= cands@);
    out
}

/// The ids of `ms`, in order.
pub fn ids_of(ms: &Vec<Match>) -> (r: Vec<String>)
    ensures
        views_of(r@) == match_ids(ms@),
{
    let mut out: Vec<String> = Vec::new();
    let mut i: usize = 0;
    while i < ms.len()
        invariant
            i <= ms@.len(),
            out@.len() == i,
            views_of(out@) == match_ids(ms@.subrange(0, i as int)),
        decreases ms@.len() - i,
    {
        let ghost before = out@;
        let id = ms[i].id.clone();
        out.push(id);
        assert forall|j: int| 0 <= j < i implies views_of(out@)[j] == match_ids(ms@.subrange(0, i + 1))[j] by {
            assert(out@[j] == before[j]);
            assert(views_of(before)[j] == match_ids(ms@.subrange(0, i as int))[j]);
        }
        assert(views_of(out@) =~= match_ids(ms@.subrange(0, i + 1)));
        i = i + 1;
    }
    assert(ms@.subrange(0, i as int) =~= ms@);
    out
}

/// Fuzzy matching is a function of the key and the candidates: the same
/// two always give the same ordered match list.
pub proof fn lemma_fuzzy_deterministic(
    c1: Seq<Seq<char>>,
    c2: Seq<Seq<char>>,
    k1: Seq<char>,
    k2: Seq<char>,
    n1: Seq<Node>,
    n2: Seq<Node>,
)
    requires
        c1 == c2,
        k1 == k2,
    ensures
        matches_of(Matcher::Fuzzy, c1, k1, n1) == matches_of(Matcher::Fuzzy, c2, k2, n2),
    decreases c1.len(),
{
    if c1.len() > 0 {
        lemma_fuzzy_deterministic(c1.drop_last(), c2.drop_last(), k1, k2, n1, n2);
    }
}

} // verus!
