use vstd::prelude::*;

use crate::error::DotViewerError;
use crate::graph::{extractable, lemma_kept_nodes_empty, edge_view, first_cluster, kept_edges, kept_nodes, node_ids, node_view, preds_of, succs_of, Graph, KeepSpec};
use crate::list::{moved, List, Move};
use crate::search::{find_matches, ids_of, match_ids, match_view, matches_of, Match, Matcher};
use crate::text::views_of;
use crate::trie::{is_longest_common_prefix, AutocompleteTrie};

verus! {

/// Which of a tab's three lists receives vertical movement.
#[derive(Debug, Clone, Copy, PartialEq, Eq)]
pub enum Focus {
    Current,
    Prev,
    Next,
}

/// One step forward around the ring Current, Prev, Next.
pub open spec fn focus_right(f: Focus) -> Focus {
    match f {
        Focus::Current => Focus::Prev,
        Focus::Prev => Focus::Next,
        Focus::Next => Focus::Current,
    }
}

/// One step backward around the ring Current, Prev, Next.
pub open spec fn focus_left(f: Focus) -> Focus {
    match f {
        Focus::Current => Focus::Next,
        Focus::Prev => Focus::Current,
        Focus::Next => Focus::Prev,
    }
}

/// `i` is the first position of `x` in `s`.
pub open spec fn first_at(s: Seq<Seq<char>>, x: Seq<char>, i: int) -> bool {
    0 <= i < s.len() && s[i] == x && forall|j: int| 0 <= j < i ==> s[j] != x
}

/// `key` without its last character; the empty key stays empty.
pub open spec fn shortened(key: Seq<char>) -> Seq<char> {
    if key.len() == 0 {
        key
    } else {
        key.drop_last()
    }
}

/// Cluster ids, in order.
pub open spec fn cluster_ids(g: Graph) -> Seq<Seq<char>> {
    g.clusters@.map_values(|c: crate::graph::Cluster| c.id@)
}

/// One tab: a graph, its node list with the two neighbor lists of the
/// selected node, the live search results and their one-level cache, and a
/// completion trie over the live matches.
pub struct GraphView {
    pub title: String,
    pub graph: Graph,
    pub focus: Focus,
    pub current: List<String>,
    pub prevs: List<String>,
    pub nexts: List<String>,
    pub matches: List<Match>,
    pub cache: List<Match>,
    pub trie: AutocompleteTrie,
    pub subtree: List<String>,
}

impl GraphView {
    pub open spec fn wf(&self) -> bool {
        &&& self.current.wf()
        &&& self.prevs.wf()
        &&& self.nexts.wf()
        &&& self.matches.wf()
        &&& self.cache.wf()
        &&& self.subtree.wf()
        &&& self.trie.wf()
        &&& views_of(self.current.items@) == node_ids(self.graph.nodes@)
    }

    /// Id of the selected node.
    pub open spec fn current_spec(&self) -> Option<Seq<char>> {
        match self.current.state {
            Some(i) => Some(self.current.items@[i as int]@),
            None => None,
        }
    }

    /// The neighbor lists are those of the selected node, each selecting its
    /// first entry; with no node selected they are empty.
    pub open spec fn adjacent_fresh(&self) -> bool {
        match self.current_spec() {
            Some(id) => {
                &&& views_of(self.prevs.items@) == preds_of(self.graph.edges@, id)
                &&& views_of(self.nexts.items@) == succs_of(self.graph.edges@, id)
                &&& self.prevs.state == (if self.prevs.items@.len() == 0 { None } else { Some(0usize) })
                &&& self.nexts.state == (if self.nexts.items@.len() == 0 { None } else { Some(0usize) })
            },
            None => self.prevs.items@.len() == 0 && self.nexts.items@.len() == 0,
        }
    }

    /// Everything but the selection of `current` and the neighbor lists is
    /// as in `o`.
    pub open spec fn same_but_adjacent(&self, o: GraphView) -> bool {
        &&& self.title == o.title
        &&& self.graph == o.graph
        &&& self.focus == o.focus
        &&& self.current.items@ == o.current.items@
        &&& self.matches == o.matches
        &&& self.cache == o.cache
        &&& self.trie == o.trie
        &&& self.subtree == o.subtree
    }

    pub fn new(title: String, graph: Graph) -> (r: GraphView)
        ensures
            r.wf(),
            r.adjacent_fresh(),
            r.title == title,
            r.graph == graph,
            r.focus == Focus::Current,
            r.current.state == (if graph.nodes@.len() == 0 { None } else { Some(0usize) }),
            r.matches.items@.len() == 0,
            r.cache.items@.len() == 0,
            r.trie.words() == r.current.items@,
            views_of(r.subtree.items@) == cluster_ids(graph),
    {
        let mut nodes: Vec<String> = Vec::new();
        let mut i: usize = 0;
        while i < graph.nodes.len()
            invariant
                i <= graph.nodes@.len(),
                nodes@.len() == i,
                views_of(nodes@) == node_ids(graph.nodes@.subrange(0, i as int)),
            decreases graph.nodes@.len() - i,
        {
            let ghost before = nodes@;
            let id = graph.nodes[i].id.clone();
            nodes.push(id);
            assert forall|j: int| 0 <= j < i implies views_of(nodes@)[j] == node_ids(graph.nodes@.subrange(0, i + 1))[j] by {
                assert(nodes@[j] == before[j]);
                assert(views_of(before)[j] == node_ids(graph.nodes@.subrange(0, i as int))[j]);
            }
            assert(views_of(nodes@) =~= node_ids(graph.nodes@.subrange(0, i + 1)));
            i = i + 1;
        }
        assert(graph.nodes@.subrange(0, i as int) =~= graph.nodes@);
        let mut clusters: Vec<String> = Vec::new();
        let mut c: usize = 0;
        while c < graph.clusters.len()
            invariant
                c <= graph.clusters@.len(),
                clusters@.len() == c,
                views_of(clusters@) == cluster_ids(graph).subrange(0, c as int),
            decreases graph.clusters@.len() - c,
        {
            let ghost before = clusters@;
            let id = graph.clusters[c].id.clone();
            clusters.push(id);
            assert forall|j: int| 0 <= j < c implies views_of(clusters@)[j] == cluster_ids(graph)[j] by {
                assert(clusters@[j] == before[j]);
                assert(views_of(before)[j] == cluster_ids(graph).subrange(0, c as int)[j]);
            }
            assert(views_of(clusters@) =~= cluster_ids(graph).subrange(0, c + 1));
            c = c + 1;
        }
        assert(cluster_ids(graph).subrange(0, c as int) =~= cluster_ids(graph));
        let trie = AutocompleteTrie::new(&nodes);
        let mut view = GraphView {
            title,
            graph,
            focus: Focus::Current,
            current: List::with_items(nodes),
            prevs: List::with_items(Vec::new()),
            nexts: List::with_items(Vec::new()),
            matches: List::with_items(Vec::new()),
            cache: List::with_items(Vec::new()),
            trie,
            subtree: List::with_items(clusters),
        };
        view.update_adjacent();
        view
    }

    /// Id of the selected node.
    pub fn current_id(&self) -> (r: Option<String>)
        requires
            self.wf(),
        ensures
            r is None <==> self.current_spec() is None,
            r matches Some(s) ==> self.current_spec() == Some(s@),
    {
        match self.current.selected() {
            Some(s) => Some(s.clone()),
            None => None,
        }
    }

    /// Id of the selected match.
    pub fn matched_id(&self) -> (r: Option<String>)
        requires
            self.wf(),
        ensures
            r is None <==> self.matches.state is None,
            r matches Some(s) ==> s@ == self.matches.items@[self.matches.state.unwrap() as int].id@,
    {
        match self.matches.selected() {
            Some(m) => Some(m.id.clone()),
            None => None,
        }
    }

    /// Recomputes the neighbor lists of the selected node.
    pub fn update_adjacent(&mut self)
        requires
            old(self).wf(),
        ensures
            final(self).wf(),
            final(self).adjacent_fresh(),
            final(self).same_but_adjacent(*old(self)),
            final(self).current == old(self).current,
    {
        match self.current.selected() {
            Some(id) => {
                let prevs = self.graph.froms(id);
                let nexts = self.graph.tos(id);
                self.prevs = List::with_items(prevs);
                self.nexts = List::with_items(nexts);
            },
            None => {
                self.prevs = List::with_items(Vec::new());
                self.nexts = List::with_items(Vec::new());
            },
        }
    }

    /// Selects the first node named `id` and refreshes its neighbors; fails
    /// with `NotFound` when no node has that id.
    pub fn goto(&mut self, id: &String) -> (r: Result<(), DotViewerError>)
        requires
            old(self).wf(),
        ensures
            final(self).wf(),
            r is Err <==> !views_of(old(self).current.items@).contains(id@),
            r is Err ==> r == Err::<(), DotViewerError>(DotViewerError::NotFound(*id)) && *final(self)
                == *old(self),
            r is Ok ==> final(self).adjacent_fresh() && final(self).same_but_adjacent(*old(self))
                && (final(self).current.state matches Some(i) && first_at(
                views_of(old(self).current.items@),
                id@,
                i as int,
            )),
    {
        match self.current.find(id) {
            Some(i) => {
                let ghost items = self.current.items@;
                assert(first_at(views_of(items), id@, i as int));
                self.current.select(i);
                self.update_adjacent();
                Ok(())
            },
            None => {
                assert forall|j: int| 0 <= j < views_of(self.current.items@).len() implies views_of(self.current.items@)[j] != id@ by {
                    assert(self.current.items@[j]@ != id@);
                }
                Err(DotViewerError::NotFound(id.clone()))
            },
        }
    }

    /// What jumping to the selected match does, from `self` to `new`.
    pub open spec fn jump_post(&self, new: GraphView, r: Result<(), DotViewerError>) -> bool {
        &&& self.matches.state is None ==> r is Ok && new == *self
        &&& self.matches.state matches Some(k) ==> {
            let id = self.matches.items@[k as int].id;
            &&& r is Err <==> !views_of(self.current.items@).contains(id@)
            &&& r is Err ==> r == Err::<(), DotViewerError>(DotViewerError::NotFound(id)) && new == *self
            &&& r is Ok ==> new.adjacent_fresh() && new.same_but_adjacent(*self) && (new.current.state matches Some(i)
                && first_at(views_of(self.current.items@), id@, i as int))
        }
    }

    /// Jumps to the selected match, if there is one.
    pub fn goto_match(&mut self) -> (r: Result<(), DotViewerError>)
        requires
            old(self).wf(),
        ensures
            final(self).wf(),
            old(self).jump_post(*final(self), r),
    {
        match self.matches.selected() {
            Some(m) => {
                let id = m.id.clone();
                self.goto(&id)
            },
            None => Ok(()),
        }
    }

    /// Rotates the focus one step forward.
    pub fn right(&mut self)
        ensures
            final(self).focus == focus_right(old(self).focus),
            *final(self) == (GraphView { focus: final(self).focus, ..*old(self) }),
    {
        self.focus = match self.focus {
            Focus::Current => Focus::Prev,
            Focus::Prev => Focus::Next,
            Focus::Next => Focus::Current,
        };
    }

    /// Rotates the focus one step backward.
    pub fn left(&mut self)
        ensures
            final(self).focus == focus_left(old(self).focus),
            *final(self) == (GraphView { focus: final(self).focus, ..*old(self) }),
    {
        self.focus = match self.focus {
            Focus::Current => Focus::Next,
            Focus::Prev => Focus::Current,
            Focus::Next => Focus::Prev,
        };
    }

    /// What applying `mv` to the focused list does, from `self` to `n`.
    pub open spec fn vertical_post(&self, n: GraphView, mv: Move) -> bool {
        &&& self.focus == Focus::Current ==> n.adjacent_fresh() && n.same_but_adjacent(*self) && n.current.state
            == moved(mv, self.current.state, self.current.items@.len())
        &&& self.focus == Focus::Prev ==> n == (GraphView {
            prevs: List { state: moved(mv, self.prevs.state, self.prevs.items@.len()), items: self.prevs.items },
            ..*self
        })
        &&& self.focus == Focus::Next ==> n == (GraphView {
            nexts: List { state: moved(mv, self.nexts.state, self.nexts.items@.len()), items: self.nexts.items },
            ..*self
        })
    }

    /// Applies `mv` to the focused list; moving within the node list also
    /// refreshes the neighbor lists.
    pub fn vertical(&mut self, mv: Move)
        requires
            old(self).wf(),
        ensures
            final(self).wf(),
            old(self).vertical_post(*final(self), mv),
    {
        match self.focus {
            Focus::Current => {
                self.current.move_by(mv);
                self.update_adjacent();
            },
            Focus::Prev => self.prevs.move_by(mv),
            Focus::Next => self.nexts.move_by(mv),
        }
    }

    pub fn up(&mut self)
        requires
            old(self).wf(),
        ensures
            final(self).wf(),
            old(self).vertical_post(*final(self), Move::Up),
    {
        self.vertical(Move::Up)
    }

    pub fn down(&mut self)
        requires
            old(self).wf(),
        ensures
            final(self).wf(),
            old(self).vertical_post(*final(self), Move::Down),
    {
        self.vertical(Move::Down)
    }

    pub fn first(&mut self)
        requires
            old(self).wf(),
        ensures
            final(self).wf(),
            old(self).vertical_post(*final(self), Move::First),
    {
        self.vertical(Move::First)
    }

    pub fn last(&mut self)
        requires
            old(self).wf(),
        ensures
            final(self).wf(),
            old(self).vertical_post(*final(self), Move::Last),
    {
        self.vertical(Move::Last)
    }

    /// With a neighbor list focused, jumps to its selected node.
    /// What `enter` does, from `self` to `n`, with outcome `r`.
    pub open spec fn enter_post(&self, n: GraphView, r: Result<(), DotViewerError>) -> bool {
        &&& self.focus == Focus::Current ==> r is Ok && n == *self
        &&& self.focus != Focus::Current ==> {
            let side = if self.focus == Focus::Prev { self.prevs } else { self.nexts };
            &&& side.state is None ==> n == *self && (r matches Err(DotViewerError::NotFound(s)) && s@.len() == 0)
            &&& side.state matches Some(k) ==> {
                let id = side.items@[k as int];
                &&& r is Err <==> !views_of(self.current.items@).contains(id@)
                &&& r is Err ==> r == Err::<(), DotViewerError>(DotViewerError::NotFound(id)) && n == *self
                &&& r is Ok ==> n.adjacent_fresh() && n.same_but_adjacent(*self) && (n.current.state matches Some(i)
                    && first_at(views_of(self.current.items@), id@, i as int))
            }
        }
    }

    pub fn enter(&mut self) -> (r: Result<(), DotViewerError>)
        requires
            old(self).wf(),
        ensures
            final(self).wf(),
            old(self).enter_post(*final(self), r),
    {
        let target = match self.focus {
            Focus::Current => return Ok(()),
            Focus::Prev => self.prevs.selected(),
            Focus::Next => self.nexts.selected(),
        };
        match target {
            Some(id) => {
                let id = id.clone();
                self.goto(&id)
            },
            None => Err(DotViewerError::NotFound(String::new())),
        }
    }

    /// `self` is a fresh view of the nodes of `parent` whose id starts with
    /// `prefix`.
    pub open spec fn filtered_from(&self, parent: GraphView, prefix: Seq<char>) -> bool {
        &&& self.wf() && self.adjacent_fresh() && self.focus == Focus::Current
        &&& self.title@ == parent.title@ + " - "@ + prefix
        &&& node_view(self.graph.nodes@) == kept_nodes(parent.graph.nodes@, KeepSpec::Prefix(prefix))
        &&& edge_view(self.graph.edges@) == kept_edges(parent.graph.edges@, KeepSpec::Prefix(prefix))
        &&& self.current.state == Some(0usize)
        &&& self.matches.items@.len() == 0 && self.cache.items@.len() == 0
    }

    /// `self` is a fresh view of the first cluster of `parent` named `key`.
    pub open spec fn extracted_from(&self, parent: GraphView, key: Seq<char>) -> bool {
        &&& self.wf() && self.adjacent_fresh() && self.focus == Focus::Current
        &&& self.title@ == key
        &&& forall|j: int| #[trigger] first_cluster(parent.graph.clusters@, key, j) ==> {
            let keep = KeepSpec::Members(views_of(parent.graph.clusters@[j].nodes@).to_set());
            node_view(self.graph.nodes@) == kept_nodes(parent.graph.nodes@, keep) && edge_view(self.graph.edges@)
                == kept_edges(parent.graph.edges@, keep)
        }
    }

    /// A new view of the nodes whose id starts with `prefix`; fails with
    /// `NoMatch` when there is none.
    pub fn filter(&self, prefix: &String) -> (r: Result<GraphView, DotViewerError>)
        requires
            self.wf(),
        ensures
            r is Err <==> self.filter_spec_no_match(prefix@),
            r is Err ==> r == Err::<GraphView, DotViewerError>(DotViewerError::NoMatch(*prefix)),
            r matches Ok(v) ==> v.filtered_from(*self, prefix@),
    {
        proof {
            lemma_kept_nodes_empty(self.graph.nodes@, KeepSpec::Prefix(prefix@));
        }
        match self.graph.filter(prefix) {
            Some(g) => {
                let title = self.title.clone().concat(" - ").concat(prefix.as_str());
                proof { reveal_strlit(" - "); }
                Ok(GraphView::new(title, g))
            },
            None => Err(DotViewerError::NoMatch(prefix.clone())),
        }
    }

    /// A cluster is selected, and the first cluster of that name holds a
    /// node of this view.
    pub open spec fn subgraph_ok(&self) -> bool {
        self.subtree.state matches Some(k) && extractable(
            self.graph.nodes@,
            self.graph.clusters@,
            self.subtree.items@[k as int]@,
        )
    }

    /// A new view of the cluster selected in the cluster list.
    pub fn subgraph(&self) -> (r: Result<GraphView, DotViewerError>)
        requires
            self.wf(),
        ensures
            r matches Ok(v) ==> v.wf(),
            r is Ok <==> self.subgraph_ok(),
            r matches Ok(v) ==> v.extracted_from(*self, self.subtree.items@[self.subtree.state.unwrap() as int]@),
            r is Err ==> (r matches Err(DotViewerError::NotFound(_))) || (r matches Err(DotViewerError::NoMatch(_))),
            self.subtree.state is None ==> (r matches Err(DotViewerError::NotFound(s)) && s@.len() == 0),
            self.subtree.state matches Some(k) ==> {
                let key = self.subtree.items@[k as int];
                &&& (forall|j: int| 0 <= j < self.graph.clusters@.len() ==> self.graph.clusters@[j].id@ != key@) <==> r
                    == Err::<GraphView, DotViewerError>(DotViewerError::NotFound(key))
                &&& forall|j: int| #[trigger] first_cluster(self.graph.clusters@, key@, j) ==> {
                    let keep = KeepSpec::Members(views_of(self.graph.clusters@[j].nodes@).to_set());
                    &&& kept_nodes(self.graph.nodes@, keep).len() == 0 <==> r == Err::<GraphView, DotViewerError>(
                        DotViewerError::NoMatch(key))
                    &&& r matches Ok(v) ==> v.wf() && v.adjacent_fresh() && v.title == key && node_view(v.graph.nodes@)
                        == kept_nodes(self.graph.nodes@, keep) && edge_view(v.graph.edges@) == kept_edges(
                        self.graph.edges@,
                        keep,
                    )
                }
            },
    {
        match self.subtree.selected() {
            Some(key) => match self.graph.subgraph(key) {
                Ok(g) => Ok(GraphView::new(key.clone(), g)),
                Err(e) => Err(e),
            },
            None => Err(DotViewerError::NotFound(String::new())),
        }
    }

    /// Completion of `key` from the live match set.
    pub fn autocomplete(&self, key: &str) -> (r: Option<String>)
        requires
            self.wf(),
        ensures
            r is None <==> self.trie.candidates(key@).is_empty(),
            r matches Some(s) ==> is_longest_common_prefix(s@, self.trie.candidates(key@)),
    {
        self.trie.autocomplete(key)
    }

    /// Rebuilds the completion trie from the ids of the live matches.
    pub fn update_trie(&mut self)
        requires
            old(self).wf(),
        ensures
            final(self).wf(),
            views_of(final(self).trie.words()) == match_ids(final(self).matches.items@),
            *final(self) == (GraphView { trie: final(self).trie, ..*old(self) }),
    {
        let ids = ids_of(&self.matches.items);
        self.trie = AutocompleteTrie::new(&ids);
    }

    /// Matches every node against `key` afresh with `matcher`; the cache is
    /// left as it is.
    pub fn update_matches(&mut self, matcher: Matcher, key: &String)
        requires
            old(self).wf(),
        ensures
            final(self).wf(),
            match_view(final(self).matches.items@) == matches_of(
                matcher,
                views_of(old(self).current.items@),
                key@,
                old(self).graph.nodes@,
            ),
            fresh_list(final(self).matches),
            *final(self) == (GraphView { matches: final(self).matches, ..*old(self) }),
    {
        let found = find_matches(matcher, &self.current.items, key, &self.graph);
        self.matches = List::with_items(found);
    }

    /// Fuzzy matches of `key` over every node.
    pub fn update_fuzzy(&mut self, key: &String)
        requires
            old(self).wf(),
        ensures
            final(self).wf(),
            match_view(final(self).matches.items@) == matches_of(
                Matcher::Fuzzy,
                views_of(old(self).current.items@),
                key@,
                old(self).graph.nodes@,
            ),
            fresh_list(final(self).matches),
            *final(self) == (GraphView { matches: final(self).matches, ..*old(self) }),
    {
        self.update_matches(Matcher::Fuzzy, key)
    }

    /// Regular-expression matches of `key` over every node's record.
    pub fn update_regex(&mut self, key: &String)
        requires
            old(self).wf(),
        ensures
            final(self).wf(),
            match_view(final(self).matches.items@) == matches_of(
                Matcher::Regex,
                views_of(old(self).current.items@),
                key@,
                old(self).graph.nodes@,
            ),
            fresh_list(final(self).matches),
            *final(self) == (GraphView { matches: final(self).matches, ..*old(self) }),
    {
        self.update_matches(Matcher::Regex, key)
    }

    /// Nodes whose id starts with `key`.
    pub fn update_filter(&mut self, key: &String)
        requires
            old(self).wf(),
        ensures
            final(self).wf(),
            match_view(final(self).matches.items@) == matches_of(
                Matcher::Prefix,
                views_of(old(self).current.items@),
                key@,
                old(self).graph.nodes@,
            ),
            fresh_list(final(self).matches),
            *final(self) == (GraphView { matches: final(self).matches, ..*old(self) }),
    {
        self.update_matches(Matcher::Prefix, key)
    }

    /// Empties the match lists and the neighbor lists, as a new search
    /// begins, and rebuilds the trie from the (now empty) matches.
    pub fn clear_search(&mut self)
        requires
            old(self).wf(),
        ensures
            final(self).wf(),
            final(self).matches.items@.len() == 0 && final(self).cache.items@.len() == 0,
            final(self).prevs.items@.len() == 0 && final(self).nexts.items@.len() == 0,
            final(self).current == old(self).current && final(self).graph == old(self).graph,
            final(self).title == old(self).title && final(self).focus == old(self).focus,
            final(self).subtree == old(self).subtree,
            views_of(final(self).trie.words()) == match_ids(final(self).matches.items@),
    {
        self.matches = List::with_items(Vec::new());
        self.cache = List::with_items(Vec::new());
        self.prevs = List::with_items(Vec::new());
        self.nexts = List::with_items(Vec::new());
        self.update_trie();
    }
}

/// The candidates that a grown key is matched against: the previous
/// matches, or every node when the key was empty before (`from_scratch`).
pub open spec fn forward_candidates(v: GraphView, from_scratch: bool) -> Seq<Seq<char>> {
    if from_scratch {
        views_of(v.current.items@)
    } else {
        match_ids(v.matches.items@)
    }
}

/// A list of fresh results: its first entry selected.
pub open spec fn fresh_list<T>(l: List<T>) -> bool {
    l.state == (if l.items@.len() == 0 { None } else { Some(0usize) })
}

/// What typing a character does to the match lists: the matches move to
/// the cache, and the new matches refine the old ones.
pub open spec fn forward_post(
    o: GraphView,
    n: GraphView,
    matcher: Matcher,
    key: Seq<char>,
    from_scratch: bool,
) -> bool {
    &&& n.cache == o.matches
    &&& match_view(n.matches.items@) == matches_of(matcher, forward_candidates(o, from_scratch), key, o.graph.nodes@)
    &&& fresh_list(n.matches)
    &&& views_of(n.trie.words()) == match_ids(n.matches.items@)
}

/// What deleting a character does to the match lists: the cache comes
/// back, and the new cache is computed from every node for the key
/// shortened once more.
pub open spec fn backward_post(o: GraphView, n: GraphView, matcher: Matcher, key: Seq<char>) -> bool {
    &&& n.matches == o.cache
    &&& match_view(n.cache.items@) == matches_of(matcher, views_of(o.current.items@), shortened(key), o.graph.nodes@)
    &&& fresh_list(n.cache)
    &&& views_of(n.trie.words()) == match_ids(n.matches.items@)
}

impl GraphView {
    /// Recomputes the matches for a key that grew, keeps
    /// the previous matches as the cache, rebuilds the trie and jumps to the
    /// first match.
    pub fn search_forward(&mut self, matcher: Matcher, key: &String, from_scratch: bool) -> (r: Result<
        (),
        DotViewerError,
    >)
        requires
            old(self).wf(),
        ensures
            final(self).wf(),
            forward_post(*old(self), *final(self), matcher, key@, from_scratch),
            (GraphView { matches: final(self).matches, cache: final(self).cache, trie: final(self).trie, ..*old(self) }).jump_post(
                *final(self),
                r,
            ),
    {
        let mut prev = List::with_items(Vec::new());
        std::mem::swap(&mut self.matches, &mut prev);
        let cands = if from_scratch {
            self.current.items.clone()
        } else {
            ids_of(&prev.items)
        };
        let found = find_matches(matcher, &cands, key, &self.graph);
        self.matches = List::with_items(found);
        self.cache = prev;
        self.update_trie();
        self.goto_match()
    }

    /// Restores the cached matches after a character was deleted (`key` is
    /// the key after the deletion), recomputes the cache from every node for
    /// `key` shortened once more, rebuilds the trie and jumps to the first
    /// match.
    pub fn search_backward(&mut self, matcher: Matcher, key: &String) -> (r: Result<(), DotViewerError>)
        requires
            old(self).wf(),
        ensures
            final(self).wf(),
            backward_post(*old(self), *final(self), matcher, key@),
            (GraphView { matches: final(self).matches, cache: final(self).cache, trie: final(self).trie, ..*old(self) }).jump_post(
                *final(self),
                r,
            ),
    {
        let mut restored = List::with_items(Vec::new());
        std::mem::swap(&mut self.cache, &mut restored);
        let n = key.as_str().unicode_len();
        let short = if n == 0 {
            key.clone()
        } else {
            key.as_str().substring_char(0, n - 1).to_owned()
        };
        assert(short@ == shortened(key@));
        let found = find_matches(matcher, &self.current.items, &short, &self.graph);
        self.cache = List::with_items(found);
        self.matches = restored;
        self.update_trie();
        self.goto_match()
    }
}

/// Typing a character and deleting it again gives back exactly the match
/// list there was before; a second deletion gives the matches of the key
/// shortened once more, recomputed from every node.
pub proof fn lemma_search_round_trip(
    v0: GraphView,
    v1: GraphView,
    v2: GraphView,
    v3: GraphView,
    matcher: Matcher,
    typed: Seq<char>,
    from_scratch: bool,
    after_delete: Seq<char>,
)
    requires
        forward_post(v0, v1, matcher, typed, from_scratch),
        backward_post(v1, v2, matcher, after_delete),
        backward_post(v2, v3, matcher, shortened(after_delete)),
    ensures
        v2.matches == v0.matches,
        match_view(v3.matches.items@) == matches_of(
            matcher,
            views_of(v1.current.items@),
            shortened(after_delete),
            v1.graph.nodes@,
        ),
{
}

} // verus!

verus! {

/// Three steps around the focus ring, in either direction, come back to
/// where they started.
pub proof fn lemma_focus_ring(f: Focus)
    ensures
        focus_right(focus_right(focus_right(f))) == f,
        focus_left(focus_left(focus_left(f))) == f,
{
}

} // verus!

verus! {

impl GraphView {
    /// No node of this view has an id that starts with `prefix`.
    pub open spec fn filter_spec_no_match(&self, prefix: Seq<char>) -> bool {
        forall|i: int| 0 <= i < self.graph.nodes@.len() ==> !crate::text::is_prefix(prefix, #[trigger] self.graph.nodes@[i].id@)
    }
}

} // verus!
