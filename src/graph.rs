use vstd::prelude::*;

use crate::error::DotViewerError;
use crate::text::{contains_str, copy_strings, is_prefix, starts_with, views_of};

verus! {

/// One node: its id and its serialized record (id plus attributes).
#[derive(Debug, Clone, PartialEq, Eq)]
pub struct Node {
    pub id: String,
    pub record: String,
}

/// A directed edge between two node ids.
#[derive(Debug, Clone, PartialEq, Eq)]
pub struct Edge {
    pub from: String,
    pub to: String,
}

/// A named group of node ids that can be extracted as a graph of its own.
#[derive(Debug, Clone, PartialEq, Eq)]
pub struct Cluster {
    pub id: String,
    pub nodes: Vec<String>,
}

/// A read-only graph snapshot. Deriving a graph never changes this one.
#[derive(Debug, Clone, PartialEq, Eq)]
pub struct Graph {
    pub id: String,
    pub nodes: Vec<Node>,
    pub edges: Vec<Edge>,
    pub clusters: Vec<Cluster>,
}

/// Which node ids a restriction keeps.
pub enum Keep<'a> {
    Prefix(&'a String),
    Members(&'a Vec<String>),
}

/// Which node ids a restriction keeps, as plain values.
pub enum KeepSpec {
    Prefix(Seq<char>),
    Members(Set<Seq<char>>),
}

impl KeepSpec {
    pub open spec fn spec_keeps(&self, id: Seq<char>) -> bool {
        match self {
            KeepSpec::Prefix(p) => is_prefix(*p, id),
            KeepSpec::Members(ms) => ms.contains(id),
        }
    }
}

impl<'a> View for Keep<'a> {
    type V = KeepSpec;

    open spec fn view(&self) -> KeepSpec {
        match self {
            Keep::Prefix(p) => KeepSpec::Prefix(p@),
            Keep::Members(ms) => KeepSpec::Members(views_of(ms@).to_set()),
        }
    }
}

impl<'a> Keep<'a> {

    pub fn keeps(&self, id: &String) -> (r: bool)
        ensures
            r == self@.spec_keeps(id@),
    {
        match self {
            Keep::Prefix(p) => starts_with(id.as_str(), p.as_str()),
            Keep::Members(ms) => contains_str(ms, id),
        }
    }
}

/// Clusters as (id, member ids) pairs, in order.
pub open spec fn cluster_view(cs: Seq<Cluster>) -> Seq<(Seq<char>, Seq<Seq<char>>)> {
    cs.map_values(|c: Cluster| (c.id@, views_of(c.nodes@)))
}

/// Node ids, in order.
pub open spec fn node_ids(ns: Seq<Node>) -> Seq<Seq<char>> {
    ns.map_values(|n: Node| n.id@)
}

/// Nodes as (id, record) pairs, in order.
pub open spec fn node_view(ns: Seq<Node>) -> Seq<(Seq<char>, Seq<char>)> {
    ns.map_values(|n: Node| (n.id@, n.record@))
}

/// Edges as (from, to) pairs, in order.
pub open spec fn edge_view(es: Seq<Edge>) -> Seq<(Seq<char>, Seq<char>)> {
    es.map_values(|e: Edge| (e.from@, e.to@))
}

/// The nodes that `keep` keeps, in their order.
pub open spec fn kept_nodes(ns: Seq<Node>, keep: KeepSpec) -> Seq<(Seq<char>, Seq<char>)>
    decreases ns.len(),
{
    if ns.len() == 0 {
        seq![]
    } else {
        let rest = kept_nodes(ns.drop_last(), keep);
        let n = ns.last();
        if keep.spec_keeps(n.id@) {
            rest.push((n.id@, n.record@))
        } else {
            rest
        }
    }
}

/// The edges whose two ends `keep` keeps, in their order.
pub open spec fn kept_edges(es: Seq<Edge>, keep: KeepSpec) -> Seq<(Seq<char>, Seq<char>)>
    decreases es.len(),
{
    if es.len() == 0 {
        seq![]
    } else {
        let rest = kept_edges(es.drop_last(), keep);
        let e = es.last();
        if keep.spec_keeps(e.from@) && keep.spec_keeps(e.to@) {
            rest.push((e.from@, e.to@))
        } else {
            rest
        }
    }
}

/// Sources of the edges that end at `id`, in edge order.
pub open spec fn preds_of(es: Seq<Edge>, id: Seq<char>) -> Seq<Seq<char>>
    decreases es.len(),
{
    if es.len() == 0 {
        seq![]
    } else {
        let rest = preds_of(es.drop_last(), id);
        if es.last().to@ == id {
            rest.push(es.last().from@)
        } else {
            rest
        }
    }
}

/// Targets of the edges that start at `id`, in edge order.
pub open spec fn succs_of(es: Seq<Edge>, id: Seq<char>) -> Seq<Seq<char>>
    decreases es.len(),
{
    if es.len() == 0 {
        seq![]
    } else {
        let rest = succs_of(es.drop_last(), id);
        if es.last().from@ == id {
            rest.push(es.last().to@)
        } else {
            rest
        }
    }
}

/// Record of the first node whose id is `id`.
pub open spec fn record_of(ns: Seq<Node>, id: Seq<char>) -> Option<Seq<char>>
    decreases ns.len(),
{
    if ns.len() == 0 {
        None
    } else if ns[0].id@ == id {
        Some(ns[0].record@)
    } else {
        record_of(ns.drop_first(), id)
    }
}

/// Some cluster named `key` comes first among those so named and holds a
/// node of `ns`.
pub open spec fn extractable(ns: Seq<Node>, cs: Seq<Cluster>, key: Seq<char>) -> bool {
    exists|j: int| #[trigger] first_cluster(cs, key, j) && kept_nodes(ns, KeepSpec::Members(views_of(cs[j].nodes@).to_set())).len() > 0
}

/// Position of the first cluster named `key`.
pub open spec fn first_cluster(cs: Seq<Cluster>, key: Seq<char>, j: int) -> bool {
    0 <= j < cs.len() && cs[j].id@ == key && forall|k: int| 0 <= k < j ==> cs[k].id@ != key
}

/// Nothing is kept exactly when `keep` keeps no node id.
pub proof fn lemma_kept_nodes_empty(ns: Seq<Node>, keep: KeepSpec)
    ensures
        kept_nodes(ns, keep).len() == 0 <==> forall|i: int| 0 <= i < ns.len() ==> !keep.spec_keeps(#[trigger] ns[i].id@),
    decreases ns.len(),
{
    if ns.len() > 0 {
        lemma_kept_nodes_empty(ns.drop_last(), keep);
        if kept_nodes(ns, keep).len() == 0 {
            assert forall|i: int| 0 <= i < ns.len() implies !keep.spec_keeps(#[trigger] ns[i].id@) by {
                if i < ns.len() - 1 {
                    assert(ns.drop_last()[i] == ns[i]);
                }
            }
        } else if forall|i: int| 0 <= i < ns.len() ==> !keep.spec_keeps(#[trigger] ns[i].id@) {
            assert forall|i: int| 0 <= i < ns.drop_last().len() implies !keep.spec_keeps(#[trigger] ns.drop_last()[i].id@) by {
                assert(ns.drop_last()[i] == ns[i]);
            }
            assert(!keep.spec_keeps(ns[ns.len() - 1].id@));
        }
    }
}

proof fn lemma_push_to_set(s: Seq<Seq<char>>, v: Seq<char>)
    ensures
        s.push(v).to_set() == s.to_set().insert(v),
{
    assert forall|y: Seq<char>| s.push(v).contains(y) <==> (s.contains(y) || y == v) by {
        if s.push(v).contains(y) {
            let i = choose|i: int| 0 <= i < s.push(v).len() && s.push(v)[i] == y;
            if i < s.len() {
                assert(s[i] == y);
            }
        }
        if s.contains(y) {
            let i = choose|i: int| 0 <= i < s.len() && s[i] == y;
            assert(s.push(v)[i] == y);
        }
        if y == v {
            assert(s.push(v)[s.len() as int] == y);
        }
    }
    assert forall|y: Seq<char>| #[trigger] s.push(v).to_set().contains(y) == s.to_set().insert(v).contains(y) by {
        assert(s.push(v).to_set().contains(y) == s.push(v).contains(y));
        assert(s.to_set().contains(y) == s.contains(y));
    }
    assert(s.push(v).to_set() =~= s.to_set().insert(v));
}

/// Ids one edge away, in either direction, from an id of `s`.
pub open spec fn step_out(es: Seq<Edge>, s: Set<Seq<char>>) -> Set<Seq<char>> {
    Set::new(
        |x: Seq<char>|
            exists|j: int|
                0 <= j < es.len() && ((s.contains(es[j].from@) && es[j].to@ == x) || (s.contains(es[j].to@)
                    && es[j].from@ == x)),
    )
}

/// Ids at most `d` edges away from `start`, edges taken in either direction.
pub open spec fn within(es: Seq<Edge>, start: Seq<char>, d: nat) -> Set<Seq<char>>
    decreases d,
{
    if d == 0 {
        set![start]
    } else {
        within(es, start, (d - 1) as nat).union(step_out(es, within(es, start, (d - 1) as nat)))
    }
}

impl Graph {
    /// The graph of the nodes at most `depth` edges away from `id`, edges
    /// taken in either direction, and the edges between them.
    pub fn neighbors(&self, id: &String, depth: usize) -> (r: Graph)
        ensures
            r.id == *id,
            node_view(r.nodes@) == kept_nodes(self.nodes@, KeepSpec::Members(within(self.edges@, id@, depth as nat))),
            edge_view(r.edges@) == kept_edges(self.edges@, KeepSpec::Members(within(self.edges@, id@, depth as nat))),
    {
        let mut reached: Vec<String> = Vec::new();
        reached.push(id.clone());
        assert(views_of(reached@).to_set() =~= within(self.edges@, id@, 0)) by {
            assert(views_of(reached@)[0] == id@);
        }
        let mut k: usize = 0;
        while k < depth
            invariant
                k <= depth,
                views_of(reached@).to_set() == within(self.edges@, id@, k as nat),
            decreases depth - k,
        {
            let ghost cur = within(self.edges@, id@, k as nat);
            let frozen = copy_strings(&reached);
            let mut j: usize = 0;
            assert(step_out(self.edges@.subrange(0, 0), cur) =~= Set::empty());
            assert(cur.union(Set::empty()) =~= cur);
            while j < self.edges.len()
                invariant
                    j <= self.edges@.len(),
                    views_of(frozen@).to_set() == cur,
                    views_of(reached@).to_set() == cur.union(step_out(self.edges@.subrange(0, j as int), cur)),
                decreases self.edges@.len() - j,
            {
                let ghost before = views_of(reached@).to_set();
                let ghost e = self.edges@[j as int];
                let f = contains_str(&frozen, &self.edges[j].from);
                let t = contains_str(&frozen, &self.edges[j].to);
                if f {
                    let x = self.edges[j].to.clone();
                    let ghost pre = reached@;
                    reached.push(x);
                    assert(views_of(reached@).to_set() == views_of(pre).to_set().insert(e.to@)) by {
                        assert(views_of(reached@) =~= views_of(pre).push(e.to@));
                        lemma_push_to_set(views_of(pre), e.to@);
                    }
                }
                if t {
                    let x = self.edges[j].from.clone();
                    let ghost pre = reached@;
                    reached.push(x);
                    assert(views_of(reached@).to_set() == views_of(pre).to_set().insert(e.from@)) by {
                        assert(views_of(reached@) =~= views_of(pre).push(e.from@));
                        lemma_push_to_set(views_of(pre), e.from@);
                    }
                }
                proof {
                    let s0 = self.edges@.subrange(0, j as int);
                    let s1 = self.edges@.subrange(0, j + 1);
                    assert forall|x: Seq<char>| step_out(s1, cur).contains(x) <==> (step_out(s0, cur).contains(x)
                        || (cur.contains(e.from@) && e.to@ == x) || (cur.contains(e.to@) && e.from@ == x)) by {
                        if step_out(s1, cur).contains(x) {
                            let i = choose|i: int|
                                0 <= i < s1.len() && ((cur.contains(s1[i].from@) && s1[i].to@ == x) || (cur.contains(
                                    s1[i].to@,
                                ) && s1[i].from@ == x));
                            if i < j {
                                assert(s0[i] == s1[i]);
                            }
                        }
                        if step_out(s0, cur).contains(x) {
                            let i = choose|i: int|
                                0 <= i < s0.len() && ((cur.contains(s0[i].from@) && s0[i].to@ == x) || (cur.contains(
                                    s0[i].to@,
                                ) && s0[i].from@ == x));
                            assert(s1[i] == s0[i]);
                        }
                        if (cur.contains(e.from@) && e.to@ == x) || (cur.contains(e.to@) && e.from@ == x) {
                            assert(s1[j as int] == e);
                        }
                    }
                    assert(views_of(reached@).to_set() =~= cur.union(step_out(s1, cur)));
                }
                j = j + 1;
            }
            assert(self.edges@.subrange(0, j as int) =~= self.edges@);
            k = k + 1;
        }
        let keep = Keep::Members(&reached);
        self.restrict(id.clone(), &keep)
    }

    pub open spec fn ids(&self) -> Seq<Seq<char>> {
        node_ids(self.nodes@)
    }

    /// Ids of the nodes with an edge into `id`.
    pub fn froms(&self, id: &String) -> (r: Vec<String>)
        ensures
            views_of(r@) == preds_of(self.edges@, id@),
    {
        let mut out: Vec<String> = Vec::new();
        let mut i: usize = 0;
        while i < self.edges.len()
            invariant
                i <= self.edges@.len(),
                views_of(out@) == preds_of(self.edges@.subrange(0, i as int), id@),
            decreases self.edges@.len() - i,
        {
            let ghost pre = self.edges@.subrange(0, i as int);
            assert(self.edges@.subrange(0, i + 1).drop_last() =~= pre);
            if self.edges[i].to == *id {
                out.push(self.edges[i].from.clone());
            }
            assert(views_of(out@) =~= preds_of(self.edges@.subrange(0, i + 1), id@));
            i = i + 1;
        }
        assert(self.edges@.subrange(0, i as int) =~= self.edges@);
        out
    }

    /// Ids of the nodes that `id` has an edge into.
    pub fn tos(&self, id: &String) -> (r: Vec<String>)
        ensures
            views_of(r@) == succs_of(self.edges@, id@),
    {
        let mut out: Vec<String> = Vec::new();
        let mut i: usize = 0;
        while i < self.edges.len()
            invariant
                i <= self.edges@.len(),
                views_of(out@) == succs_of(self.edges@.subrange(0, i as int), id@),
            decreases self.edges@.len() - i,
        {
            let ghost pre = self.edges@.subrange(0, i as int);
            assert(self.edges@.subrange(0, i + 1).drop_last() =~= pre);
            if self.edges[i].from == *id {
                out.push(self.edges[i].to.clone());
            }
            assert(views_of(out@) =~= succs_of(self.edges@.subrange(0, i + 1), id@));
            i = i + 1;
        }
        assert(self.edges@.subrange(0, i as int) =~= self.edges@);
        out
    }

    /// The serialized record of the node `id`.
    pub fn record(&self, id: &String) -> (r: Option<&String>)
        ensures
            match r {
                Some(s) => record_of(self.nodes@, id@) == Some(s@),
                None => record_of(self.nodes@, id@).is_none(),
            },
    {
        let mut i: usize = 0;
        assert(self.nodes@.subrange(0, self.nodes@.len() as int) =~= self.nodes@);
        while i < self.nodes.len()
            invariant
                i <= self.nodes@.len(),
                record_of(self.nodes@, id@) == record_of(self.nodes@.subrange(i as int, self.nodes@.len() as int), id@),
            decreases self.nodes@.len() - i,
        {
            let ghost rest = self.nodes@.subrange(i as int, self.nodes@.len() as int);
            assert(rest.drop_first() =~= self.nodes@.subrange(i + 1, self.nodes@.len() as int));
            if self.nodes[i].id == *id {
                return Some(&self.nodes[i].record);
            }
            i = i + 1;
        }
        None
    }

    /// The graph of the nodes that `keep` keeps and the edges between them.
    /// Clusters are carried over as they are.
    pub fn restrict(&self, id: String, keep: &Keep) -> (r: Graph)
        ensures
            r.id == id,
            node_view(r.nodes@) == kept_nodes(self.nodes@, keep@),
            edge_view(r.edges@) == kept_edges(self.edges@, keep@),
            cluster_view(r.clusters@) == cluster_view(self.clusters@),
    {
        let mut nodes: Vec<Node> = Vec::new();
        let mut i: usize = 0;
        while i < self.nodes.len()
            invariant
                i <= self.nodes@.len(),
                node_view(nodes@) == kept_nodes(self.nodes@.subrange(0, i as int), keep@),
            decreases self.nodes@.len() - i,
        {
            assert(self.nodes@.subrange(0, i + 1).drop_last() =~= self.nodes@.subrange(0, i as int));
            if keep.keeps(&self.nodes[i].id) {
                nodes.push(Node { id: self.nodes[i].id.clone(), record: self.nodes[i].record.clone() });
            }
            assert(node_view(nodes@) =~= kept_nodes(self.nodes@.subrange(0, i + 1), keep@));
            i = i + 1;
        }
        assert(self.nodes@.subrange(0, i as int) =~= self.nodes@);
        let mut edges: Vec<Edge> = Vec::new();
        let mut k: usize = 0;
        while k < self.edges.len()
            invariant
                k <= self.edges@.len(),
                edge_view(edges@) == kept_edges(self.edges@.subrange(0, k as int), keep@),
            decreases self.edges@.len() - k,
        {
            assert(self.edges@.subrange(0, k + 1).drop_last() =~= self.edges@.subrange(0, k as int));
            if keep.keeps(&self.edges[k].from) && keep.keeps(&self.edges[k].to) {
                edges.push(Edge { from: self.edges[k].from.clone(), to: self.edges[k].to.clone() });
            }
            assert(edge_view(edges@) =~= kept_edges(self.edges@.subrange(0, k + 1), keep@));
            k = k + 1;
        }
        assert(self.edges@.subrange(0, k as int) =~= self.edges@);
        let mut clusters: Vec<Cluster> = Vec::new();
        let mut c: usize = 0;
        while c < self.clusters.len()
            invariant
                c <= self.clusters@.len(),
                clusters@.len() == c,
                cluster_view(clusters@) == cluster_view(self.clusters@.subrange(0, c as int)),
            decreases self.clusters@.len() - c,
        {
            let ghost before = clusters@;
            clusters.push(Cluster { id: self.clusters[c].id.clone(), nodes: copy_strings(&self.clusters[c].nodes) });
            assert forall|j: int| 0 <= j < c implies cluster_view(clusters@)[j] == cluster_view(self.clusters@.subrange(0, c + 1))[j] by {
                assert(clusters@[j] == before[j]);
                assert(cluster_view(before)[j] == cluster_view(self.clusters@.subrange(0, c as int))[j]);
            }
            assert(cluster_view(clusters@) =~= cluster_view(self.clusters@.subrange(0, c + 1)));
            c = c + 1;
        }
        assert(self.clusters@.subrange(0, c as int) =~= self.clusters@);
        Graph { id, nodes, edges, clusters }
    }

    /// The graph of the nodes whose id starts with `prefix`; `None` when no
    /// node does.
    pub fn filter(&self, prefix: &String) -> (r: Option<Graph>)
        ensures
            r is None <==> kept_nodes(self.nodes@, KeepSpec::Prefix(prefix@)).len() == 0,
            r matches Some(g) ==> g.id@ == self.id@
                && node_view(g.nodes@) == kept_nodes(self.nodes@, KeepSpec::Prefix(prefix@))
                && edge_view(g.edges@) == kept_edges(self.edges@, KeepSpec::Prefix(prefix@))
                && cluster_view(g.clusters@) == cluster_view(self.clusters@),
    {
        let keep = Keep::Prefix(prefix);
        let g = self.restrict(self.id.clone(), &keep);
        if g.nodes.len() == 0 {
            None
        } else {
            Some(g)
        }
    }

    /// The graph of the first cluster named `key`: fails with `NotFound`
    /// when there is none and with `NoMatch` when it holds no node of this
    /// graph.
    pub fn subgraph(&self, key: &String) -> (r: Result<Graph, DotViewerError>)
        ensures
            r is Ok <==> extractable(self.nodes@, self.clusters@, key@),
            r is Err ==> r == Err::<Graph, DotViewerError>(DotViewerError::NotFound(*key)) || r == Err::<
                Graph,
                DotViewerError,
            >(DotViewerError::NoMatch(*key)),
            (forall|j: int| 0 <= j < self.clusters@.len() ==> self.clusters@[j].id@ != key@) <==> r
                == Err::<Graph, DotViewerError>(DotViewerError::NotFound(*key)),
            forall|j: int| #[trigger] first_cluster(self.clusters@, key@, j) ==> {
                let keep = KeepSpec::Members(views_of(self.clusters@[j].nodes@).to_set());
                &&& kept_nodes(self.nodes@, keep).len() == 0 <==> r == Err::<Graph, DotViewerError>(
                    DotViewerError::NoMatch(*key))
                &&& r matches Ok(g) ==> g.id == *key && node_view(g.nodes@) == kept_nodes(self.nodes@, keep)
                    && edge_view(g.edges@) == kept_edges(self.edges@, keep)
            },
    {
        let mut j: usize = 0;
        while j < self.clusters.len()
            invariant
                j <= self.clusters@.len(),
                forall|k: int| 0 <= k < j ==> self.clusters@[k].id@ != key@,
            decreases self.clusters@.len() - j,
        {
            if self.clusters[j].id == *key {
                assert(first_cluster(self.clusters@, key@, j as int));
                assert forall|x: int| #[trigger] first_cluster(self.clusters@, key@, x) implies x == j by {
                    if x < j {
                    } else if x > j {
                        assert(self.clusters@[j as int].id@ != key@);
                    }
                }
                let keep = Keep::Members(&self.clusters[j].nodes);
                let g = self.restrict(key.clone(), &keep);
                if g.nodes.len() == 0 {
                    return Err(DotViewerError::NoMatch(key.clone()));
                }
                assert(first_cluster(self.clusters@, key@, j as int) && kept_nodes(self.nodes@, KeepSpec::Members(views_of(self.clusters@[j as int].nodes@).to_set())).len() > 0);
                return Ok(g);
            }
            j = j + 1;
        }
        Err(DotViewerError::NotFound(key.clone()))
    }
}

} // verus!
