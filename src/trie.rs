use vstd::prelude::*;

use crate::text::{copy_strings, is_prefix, views_of};

verus! {

#[verifier::external_type_specification]
#[verifier::external_body]
#[verifier::reject_recursive_types(Label)]
pub struct ExTrieIndex<Label>(trie_rs::Trie<Label>);

#[verifier::external_type_specification]
#[verifier::external_body]
#[verifier::reject_recursive_types(Label)]
pub struct ExTrieIndexBuilder<Label>(trie_rs::TrieBuilder<Label>);

/// The words that a built byte trie holds as complete entries.
pub uninterp spec fn trie_words(t: trie_rs::Trie<u8>) -> Set<Seq<char>>;

/// The words that a byte trie builder holds as complete entries.
pub uninterp spec fn builder_words(b: trie_rs::TrieBuilder<u8>) -> Set<Seq<char>>;

/// The non-empty paths that a byte trie builder has nodes for: the
/// non-empty prefixes of everything pushed so far.
pub uninterp spec fn builder_paths(b: trie_rs::TrieBuilder<u8>) -> Set<Seq<char>>;

/// The non-empty prefixes of `w`.
pub open spec fn nonempty_prefixes(w: Seq<char>) -> Set<Seq<char>> {
    Set::new(|p: Seq<char>| p.len() > 0 && is_prefix(p, w))
}

/// The set of the strings' views.
pub open spec fn views(s: Seq<String>) -> Set<Seq<char>> {
    Set::new(|w: Seq<char>| exists|i: int| 0 <= i < s.len() && s[i]@ == w)
}

/// The non-empty strings of `ws`.
pub open spec fn nonempty(ws: Set<Seq<char>>) -> Set<Seq<char>> {
    ws.filter(|w: Seq<char>| w.len() > 0)
}

/// The strings of `ws` pushed so far when every string shorter than `l`
/// and those of length `l` among the first `i` have been pushed.
pub open spec fn pushed_upto(ws: Seq<Seq<char>>, l: nat, i: int) -> Set<Seq<char>> {
    Set::new(
        |u: Seq<char>|
            u.len() > 0 && ((u.len() < l && exists|k: int| 0 <= k < ws.len() && ws[k] == u) || (u.len() == l
                && exists|k: int| 0 <= k < i && ws[k] == u)),
    )
}

/// `p` is the longest common prefix of the non-empty set `ws`: a prefix of
/// every member, and either a member itself or followed by two different
/// characters in two members.
pub open spec fn is_longest_common_prefix(p: Seq<char>, ws: Set<Seq<char>>) -> bool {
    &&& forall|w: Seq<char>| ws.contains(w) ==> is_prefix(p, w)
    &&& (exists|w: Seq<char>| ws.contains(w) && w.len() == p.len()) || (exists|
        w1: Seq<char>,
        w2: Seq<char>,
    |
        ws.contains(w1) && ws.contains(w2) && w1.len() > p.len() && w2.len() > p.len() && w1[p.len() as int]
            != w2[p.len() as int])
}

/// Relies on trie_rs::TrieBuilder::new: a fresh builder has only its root.
#[verifier::external_body]
fn builder_new() -> (r: trie_rs::TrieBuilder<u8>)
    ensures
        builder_words(r) == Set::<Seq<char>>::empty(),
        builder_paths(r) == Set::<Seq<char>>::empty(),
{
    trie_rs::TrieBuilder::new()
}

/// Relies on trie_rs::TrieBuilder::push (NaiveTrie::push): it walks the
/// word's bytes, creating the nodes that are missing, and marks only a node
/// that it creates for the last byte as an entry. So the word becomes an
/// entry exactly when its path did not exist yet. Byte paths and character
/// paths coincide for whole UTF-8 strings.
#[verifier::external_body]
fn builder_push(b: &mut trie_rs::TrieBuilder<u8>, w: &String)
    ensures
        builder_paths(*final(b)) == builder_paths(*old(b)).union(nonempty_prefixes(w@)),
        builder_words(*final(b)) == (if w@.len() == 0 || builder_paths(*old(b)).contains(w@) {
            builder_words(*old(b))
        } else {
            builder_words(*old(b)).insert(w@)
        }),
{
    b.push(w.as_bytes())
}

/// Relies on trie_rs::TrieBuilder::build: the trie holds the builder's words.
#[verifier::external_body]
fn builder_build(b: &trie_rs::TrieBuilder<u8>) -> (r: trie_rs::Trie<u8>)
    ensures
        trie_words(r) == builder_words(*b),
{
    b.build()
}

/// Relies on trie_rs::Trie::predictive_search: every entry that starts with
/// the non-empty query, each decoded back into the string that was pushed.
#[verifier::external_body]
fn trie_predict(t: &trie_rs::Trie<u8>, key: &str) -> (r: Vec<String>)
    requires
        key@.len() > 0,
    ensures
        forall|i: int| 0 <= i < r@.len() ==> trie_words(*t).contains(#[trigger] r@[i]@) && is_prefix(key@, r@[i]@),
        forall|w: Seq<char>| trie_words(*t).contains(w) && is_prefix(key@, w) ==> exists|i: int| 0 <= i < r@.len() && #[trigger] r@[i]@ == w,
{
    t.predictive_search(key).into_iter().map(|s| String::from_utf8(s).unwrap()).collect()
}

/// Prefix dictionary that proposes completions.
pub struct AutocompleteTrie {
    items: Vec<String>,
    trie: trie_rs::Trie<u8>,
}

impl AutocompleteTrie {
    /// The index holds exactly the dictionary's non-empty words. The index
    /// is private, so only `new` builds one: every entry is then the UTF-8
    /// text of a pushed word.
    pub closed spec fn wf(&self) -> bool {
        trie_words(self.trie) == nonempty(views(self.items@))
    }

    /// The dictionary, in the order it was given.
    pub closed spec fn words(&self) -> Seq<String> {
        self.items@
    }

    /// The dictionary, in the order it was given.
    pub fn items(&self) -> (r: &Vec<String>)
        ensures
            r@ == self.words(),
    {
        &self.items
    }

    /// The dictionary words that a completion of `key` is drawn from: all
    /// of them for an empty key, those starting with `key` otherwise.
    pub open spec fn candidates(&self, key: Seq<char>) -> Set<Seq<char>> {
        if key.len() == 0 {
            views(self.words())
        } else {
            views(self.words()).filter(|w: Seq<char>| is_prefix(key, w))
        }
    }

    /// Builds the index, pushing the words shortest first, so that no word
    /// comes after a longer one that starts with it and every non-empty
    /// word becomes an entry.
    pub fn new(words: &Vec<String>) -> (r: AutocompleteTrie)
        ensures
            r.wf(),
            r.words() == words@,
    {
        let ghost ws = views_of(words@);
        let mut lens: Vec<usize> = Vec::new();
        let mut longest: usize = 0;
        let mut i: usize = 0;
        while i < words.len()
            invariant
                i <= words@.len(),
                lens@.len() == i,
                forall|k: int| 0 <= k < i ==> lens@[k] == words@[k]@.len() && lens@[k] <= longest,
            decreases words@.len() - i,
        {
            let n = words[i].as_str().unicode_len();
            lens.push(n);
            if n > longest {
                longest = n;
            }
            i = i + 1;
        }
        let mut builder = builder_new();
        let mut m: usize = 0;
        while m < longest
            invariant
                m <= longest,
                ws == views_of(words@),
                lens@.len() == words@.len(),
                forall|k: int| 0 <= k < words@.len() ==> lens@[k] == ws[k].len() && lens@[k] <= longest,
                builder_words(builder) == pushed_upto(ws, (m + 1) as nat, 0),
                forall|u: Seq<char>| builder_words(builder).contains(u) ==> u.len() < m + 1,
                forall|p: Seq<char>| builder_paths(builder).contains(p) ==> exists|u: Seq<char>|
                    builder_words(builder).contains(u) && is_prefix(p, u),
            decreases longest - m,
        {
            let l: usize = m + 1;
            let mut j: usize = 0;
            while j < words.len()
                invariant
                    1 <= l <= longest,
                    j <= words@.len(),
                    ws == views_of(words@),
                    lens@.len() == words@.len(),
                    forall|k: int| 0 <= k < words@.len() ==> lens@[k] == ws[k].len() && lens@[k] <= longest,
                    builder_words(builder) == pushed_upto(ws, l as nat, j as int),
                    forall|u: Seq<char>| builder_words(builder).contains(u) ==> u.len() <= l,
                    forall|p: Seq<char>| builder_paths(builder).contains(p) ==> exists|u: Seq<char>|
                        builder_words(builder).contains(u) && is_prefix(p, u),
                decreases words@.len() - j,
            {
                if lens[j] == l {
                    let ghost w = ws[j as int];
                    let ghost old_words = builder_words(builder);
                    let ghost old_paths = builder_paths(builder);
                    proof {
                        if old_paths.contains(w) {
                            let u = choose|u: Seq<char>| old_words.contains(u) && is_prefix(w, u);
                            assert(u.len() <= l);
                            assert(u =~= w);
                        }
                    }
                    builder_push(&mut builder, &words[j]);
                    proof {
                        assert(builder_words(builder) =~= old_words.insert(w));
                        assert(pushed_upto(ws, l as nat, j + 1) =~= old_words.insert(w));
                        assert forall|p: Seq<char>| builder_paths(builder).contains(p) implies exists|u: Seq<char>|
                            builder_words(builder).contains(u) && is_prefix(p, u) by {
                            if !old_paths.contains(p) {
                                assert(builder_words(builder).contains(w) && is_prefix(p, w));
                            } else {
                                let u = choose|u: Seq<char>| old_words.contains(u) && is_prefix(p, u);
                                assert(builder_words(builder).contains(u));
                            }
                        }
                    }
                } else {
                    assert(pushed_upto(ws, l as nat, j + 1) =~= pushed_upto(ws, l as nat, j as int));
                }
                j = j + 1;
            }
            assert(pushed_upto(ws, (l + 1) as nat, 0) =~= pushed_upto(ws, l as nat, words@.len() as int));
            m = m + 1;
        }
        proof {
            assert forall|u: Seq<char>| builder_words(builder).contains(u) <==> nonempty(views(words@)).contains(u) by {
                if nonempty(views(words@)).contains(u) {
                    let k = choose|k: int| 0 <= k < words@.len() && words@[k]@ == u;
                    assert(ws[k] == u);
                    assert(lens@[k] <= longest);
                }
                if builder_words(builder).contains(u) {
                    let k = choose|k: int| 0 <= k < ws.len() && ws[k] == u;
                    assert(words@[k]@ == u);
                }
            }
            assert(builder_words(builder) =~= nonempty(views(words@)));
        }
        let trie = builder_build(&builder);
        let items = copy_strings(words);
        AutocompleteTrie { items, trie }
    }

    /// Longest common prefix of the words that complete `key`: the whole
    /// dictionary for an empty key, the entries starting with `key` otherwise.
    pub fn autocomplete(&self, key: &str) -> (r: Option<String>)
        requires
            self.wf(),
        ensures
            r is None <==> self.candidates(key@).is_empty(),
            r matches Some(s) ==> is_longest_common_prefix(s@, self.candidates(key@)),
    {
        if key.is_empty() {
            longest_common_prefix(&self.items)
        } else {
            let predictions = trie_predict(&self.trie, key);
            assert(views(predictions@) =~= self.candidates(key@)) by {
                assert forall|w: Seq<char>| views(predictions@).contains(w) implies self.candidates(key@).contains(w) by {
                    let i = choose|i: int| 0 <= i < predictions@.len() && predictions@[i]@ == w;
                    assert(trie_words(self.trie).contains(predictions@[i]@));
                }
                assert forall|w: Seq<char>| self.candidates(key@).contains(w) implies views(predictions@).contains(w) by {
                    let i = choose|i: int| 0 <= i < predictions@.len() && #[trigger] predictions@[i]@ == w;
                }
            }
            longest_common_prefix(&predictions)
        }
    }
}

/// `s` ends, or differs from `f`, at position `k`.
pub open spec fn stops_at(s: Seq<char>, f: Seq<char>, k: int) -> bool {
    s.len() == k || (s.len() > k && s[k] != f[k])
}

/// Longest common prefix of `strs`, or `None` when there is no string.
pub fn longest_common_prefix(strs: &Vec<String>) -> (r: Option<String>)
    ensures
        r is None <==> strs@.len() == 0,
        r matches Some(s) ==> is_longest_common_prefix(s@, views(strs@)),
{
    if strs.len() == 0 {
        assert(views(strs@) =~= Set::empty());
        return None;
    }
    let first: &str = strs[0].as_str();
    let ghost f = first@;
    let n = first.unicode_len();
    let mut k: usize = n;
    let mut i: usize = 0;
    while i < strs.len()
        invariant
            f == strs@[0]@,
            first@ == f,
            n == f.len(),
            k <= n,
            i <= strs@.len(),
            forall|j: int| 0 <= j < i ==> is_prefix(f.subrange(0, k as int), #[trigger] strs@[j]@),
            k == n || exists|j: int| 0 <= j < i && #[trigger] stops_at(strs@[j]@, f, k as int),
        decreases strs@.len() - i,
    {
        let s: &str = strs[i].as_str();
        let m = s.unicode_len();
        let mut j: usize = 0;
        while j < k && j < m && s.get_char(j) == first.get_char(j)
            invariant
                first@ == f,
                j <= k,
                k <= n,
                n == f.len(),
                m == s@.len(),
                s@ == strs@[i as int]@,
                j <= m,
                forall|x: int| 0 <= x < j ==> s@[x] == f[x],
            decreases k - j,
        {
            j = j + 1;
        }
        let ghost old_k = k;
        proof {
            assert forall|x: int| 0 <= x < i implies is_prefix(f.subrange(0, j as int), #[trigger] strs@[x]@) by {
                let t = strs@[x]@;
                assert(is_prefix(f.subrange(0, old_k as int), t));
                assert(t.subrange(0, old_k as int).subrange(0, j as int) =~= t.subrange(0, j as int));
                assert(f.subrange(0, old_k as int).subrange(0, j as int) =~= f.subrange(0, j as int));
            }
            assert(s@.subrange(0, j as int) =~= f.subrange(0, j as int));
            if j < k {
                assert(stops_at(strs@[i as int]@, f, j as int));
            }
        }
        k = j;
        i = i + 1;
    }
    let p = first.substring_char(0, k).to_owned();
    proof {
        let ws = views(strs@);
        assert forall|w: Seq<char>| ws.contains(w) implies is_prefix(p@, w) by {
            let j = choose|j: int| 0 <= j < strs@.len() && strs@[j]@ == w;
            assert(is_prefix(f.subrange(0, k as int), strs@[j]@));
        }
        assert(ws.contains(f));
        if k == n {
            assert(f.len() == p@.len());
        } else {
            let j = choose|j: int| 0 <= j < strs@.len() && #[trigger] stops_at(strs@[j]@, f, k as int);
            assert(ws.contains(strs@[j]@));
            if strs@[j]@.len() != k {
                assert(f.len() > p@.len() && strs@[j]@.len() > p@.len() && f[p@.len() as int] != strs@[j]@[p@.len() as int]);
            }
        }
    }
    Some(p)
}

} // verus!
