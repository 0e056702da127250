use dot_viewer::app::{launch, App, Key, Mode, PopupMode, SearchMode, Success};
use dot_viewer::command::Command;
use dot_viewer::error::DotViewerError;
use dot_viewer::graph::{Cluster, Edge, Graph, Node};
use dot_viewer::input::Input;
use dot_viewer::list::List;
use dot_viewer::search::{find_matches, match_one, Match, Matcher};
use dot_viewer::table::Table;
use dot_viewer::tabs::Tabs;
use dot_viewer::text::strip_white;
use dot_viewer::trie::{longest_common_prefix, AutocompleteTrie};
use dot_viewer::view::{Focus, GraphView};

fn s(x: &str) -> String {
    x.to_string()
}

fn node(id: &str) -> Node {
    Node { id: s(id), record: format!("{} [label=\"{}\"]", id, id) }
}

fn edge(a: &str, b: &str) -> Edge {
    Edge { from: s(a), to: s(b) }
}

fn sample() -> Graph {
    Graph {
        id: s("DAG"),
        nodes: vec![node("foo"), node("bar"), node("baz")],
        edges: vec![edge("foo", "bar"), edge("foo", "baz"), edge("bar", "baz")],
        clusters: vec![Cluster { id: s("cluster_b"), nodes: vec![s("bar"), s("baz")] }],
    }
}

fn ids(ms: &[Match]) -> Vec<String> {
    ms.iter().map(|m| m.id.clone()).collect()
}

#[test]
fn list_next_previous_round_trip() {
    for n in 2..6usize {
        for start in 0..n {
            let mut l = List::with_items((0..n).collect::<Vec<usize>>());
            l.select(start);
            l.next();
            l.previous();
            assert_eq!(l.state, Some(start));
            l.previous();
            l.next();
            assert_eq!(l.state, Some(start));
        }
    }
}

#[test]
fn list_wraps_around() {
    let mut l = List::with_items(vec![s("a"), s("b"), s("c")]);
    assert_eq!(l.state, Some(0));
    l.previous();
    assert_eq!(l.state, Some(2));
    l.next();
    assert_eq!(l.state, Some(0));
    l.last();
    assert_eq!(l.selected(), Some(&s("c")));
}

#[test]
fn list_single_and_empty() {
    let mut one = List::with_items(vec![7u32]);
    one.next();
    assert_eq!(one.state, Some(0));
    one.previous();
    assert_eq!(one.state, Some(0));
    let mut empty: List<u32> = List::with_items(Vec::new());
    empty.next();
    empty.previous();
    empty.select(0);
    assert_eq!(empty.state, None);
    assert_eq!(empty.selected(), None);
}

#[test]
fn list_select_out_of_range_and_find() {
    let mut l = List::with_items(vec![s("x"), s("y"), s("y")]);
    l.select(9);
    assert_eq!(l.state, Some(0));
    assert_eq!(l.find(&s("y")), Some(1));
    assert_eq!(l.find(&s("z")), None);
}

#[test]
fn tabs_close_root_fails() {
    let mut t = Tabs::with_tabs(vec![1, 2, 3]).unwrap();
    assert_eq!(t.close(), Err(DotViewerError::TabBoundary));
    assert_eq!(t.tabs, vec![1, 2, 3]);
    assert!(Tabs::<u8>::with_tabs(Vec::new()).is_err());
}

#[test]
fn tabs_close_activates_preceding_tab() {
    let mut t = Tabs::with_tabs(vec![10, 20, 30, 40]).unwrap();
    t.select(2);
    assert_eq!(t.close(), Ok(()));
    assert_eq!(t.tabs, vec![10, 20, 40]);
    assert_eq!(t.state, 1);
    assert_eq!(*t.current(), 20);
    t.select(2);
    assert_eq!(t.close(), Ok(()));
    assert_eq!(t.tabs, vec![10, 20]);
    assert_eq!(*t.current(), 20);
}

#[test]
fn tabs_rotate_and_open() {
    let mut t = Tabs::with_tabs(vec!['a', 'b']).unwrap();
    t.previous();
    assert_eq!(t.state, 1);
    t.next();
    assert_eq!(t.state, 0);
    t.open('c');
    assert_eq!(t.state, 2);
    assert_eq!(*t.selected(), 'c');
}

#[test]
fn trie_autocomplete_examples() {
    let trie = AutocompleteTrie::new(&vec![s("a"), s("ab"), s("abc")]);
    assert_eq!(trie.autocomplete(""), Some(s("a")));
    assert_eq!(trie.autocomplete("ab"), Some(s("ab")));
    assert_eq!(trie.autocomplete("x"), None);
}

#[test]
fn trie_autocomplete_extends_key() {
    let trie = AutocompleteTrie::new(&vec![s("node_alpha"), s("node_alps"), s("other")]);
    assert_eq!(trie.autocomplete("n"), Some(s("node_alp")));
    assert_eq!(trie.autocomplete("o"), Some(s("other")));
    let empty = AutocompleteTrie::new(&Vec::new());
    assert_eq!(empty.autocomplete(""), None);
}

#[test]
fn longest_common_prefix_cases() {
    assert_eq!(longest_common_prefix(&Vec::new()), None);
    assert_eq!(longest_common_prefix(&vec![s("flower"), s("flow"), s("flight")]), Some(s("fl")));
    assert_eq!(longest_common_prefix(&vec![s("dog"), s("car")]), Some(s("")));
    assert_eq!(longest_common_prefix(&vec![s("ab"), s("abc")]), Some(s("ab")));
    assert_eq!(longest_common_prefix(&vec![s("héllo"), s("hélp")]), Some(s("hél")));
}

#[test]
fn fuzzy_matching_is_deterministic() {
    let g = sample();
    let cands = vec![s("foo"), s("bar"), s("baz")];
    let a = find_matches(Matcher::Fuzzy, &cands, &s("ba"), &g);
    let b = find_matches(Matcher::Fuzzy, &cands, &s("ba"), &g);
    assert_eq!(ids(&a), ids(&b));
    assert_eq!(ids(&a), vec![s("bar"), s("baz")]);
    let ha: Vec<Vec<usize>> = a.iter().map(|m| m.highlight.clone()).collect();
    let hb: Vec<Vec<usize>> = b.iter().map(|m| m.highlight.clone()).collect();
    assert_eq!(ha, hb);
}

#[test]
fn fuzzy_positions_and_empty_key() {
    let g = sample();
    assert_eq!(match_one(Matcher::Fuzzy, &s("bar"), &s("br"), &g), Some(vec![0, 2]));
    assert_eq!(match_one(Matcher::Fuzzy, &s("bar"), &s("zz"), &g), None);
    assert_eq!(match_one(Matcher::Fuzzy, &s("bar"), &s(""), &g), Some(Vec::new()));
}

#[test]
fn prefix_matcher_highlights_key_positions() {
    let g = sample();
    assert_eq!(match_one(Matcher::Prefix, &s("bar"), &s("ba"), &g), Some(vec![0, 1]));
    assert_eq!(match_one(Matcher::Prefix, &s("bar"), &s("ar"), &g), None);
}

#[test]
fn regex_matches_record_and_invalid_pattern_is_empty() {
    let g = sample();
    let cands = vec![s("foo"), s("bar"), s("baz")];
    let hit = find_matches(Matcher::Regex, &cands, &s("label=\"ba[rz]\""), &g);
    assert_eq!(ids(&hit), vec![s("bar"), s("baz")]);
    assert!(hit.iter().all(|m| m.highlight.is_empty()));
    let bad = find_matches(Matcher::Regex, &cands, &s("(unclosed"), &g);
    assert!(bad.is_empty());
}

#[test]
fn view_new_and_adjacency() {
    let v = GraphView::new(s("DAG"), sample());
    assert_eq!(v.current_id(), Some(s("foo")));
    assert!(v.prevs.items.is_empty());
    assert_eq!(v.nexts.items, vec![s("bar"), s("baz")]);
    assert_eq!(v.subtree.items, vec![s("cluster_b")]);
}

#[test]
fn view_goto_and_not_found() {
    let mut v = GraphView::new(s("DAG"), sample());
    assert_eq!(v.goto(&s("baz")), Ok(()));
    assert_eq!(v.current_id(), Some(s("baz")));
    assert_eq!(v.prevs.items, vec![s("foo"), s("bar")]);
    assert!(v.nexts.items.is_empty());
    assert_eq!(v.goto(&s("nope")), Err(DotViewerError::NotFound(s("nope"))));
    assert_eq!(v.current_id(), Some(s("baz")));
}

#[test]
fn view_enter_neighbor() {
    let mut v = GraphView::new(s("DAG"), sample());
    assert_eq!(v.enter(), Ok(()));
    v.right();
    v.right();
    assert_eq!(v.focus, Focus::Next);
    v.down();
    assert_eq!(v.nexts.state, Some(1));
    assert_eq!(v.enter(), Ok(()));
    assert_eq!(v.current_id(), Some(s("baz")));
    v.left();
    assert_eq!(v.focus, Focus::Prev);
}

#[test]
fn focus_three_steps_return() {
    let mut v = GraphView::new(s("DAG"), sample());
    v.right();
    v.right();
    v.right();
    assert_eq!(v.focus, Focus::Current);
    v.left();
    v.left();
    v.left();
    assert_eq!(v.focus, Focus::Current);
}

#[test]
fn search_forward_backward_round_trip() {
    let mut v = GraphView::new(s("DAG"), sample());
    v.clear_search();
    assert_eq!(v.search_forward(Matcher::Fuzzy, &s("b"), true), Ok(()));
    let after_b = ids(&v.matches.items);
    assert_eq!(after_b, vec![s("bar"), s("baz")]);
    assert_eq!(v.current_id(), Some(s("bar")));
    assert_eq!(v.search_forward(Matcher::Fuzzy, &s("ba"), false), Ok(()));
    assert_eq!(v.search_backward(Matcher::Fuzzy, &s("b")), Ok(()));
    assert_eq!(ids(&v.matches.items), after_b);
    assert_eq!(v.search_backward(Matcher::Fuzzy, &s("")), Ok(()));
    assert_eq!(ids(&v.matches.items), vec![s("foo"), s("bar"), s("baz")]);
    assert_eq!(v.autocomplete(""), Some(s("")));
}

#[test]
fn search_trie_follows_matches() {
    let mut v = GraphView::new(s("DAG"), sample());
    v.clear_search();
    assert_eq!(v.search_forward(Matcher::Prefix, &s("b"), true), Ok(()));
    assert_eq!(v.autocomplete("b"), Some(s("ba")));
    assert_eq!(v.matches.items[0].highlight, vec![0]);
}

#[test]
fn view_filter_no_match_and_success() {
    let v = GraphView::new(s("DAG"), sample());
    assert!(matches!(v.filter(&s("zzz")), Err(DotViewerError::NoMatch(p)) if p == "zzz"));
    let f = v.filter(&s("ba")).unwrap();
    assert_eq!(f.title, s("DAG - ba"));
    assert_eq!(f.current.items, vec![s("bar"), s("baz")]);
    assert_eq!(f.nexts.items, vec![s("baz")]);
    assert_eq!(v.current.items, vec![s("foo"), s("bar"), s("baz")]);
}

#[test]
fn view_subgraph() {
    let v = GraphView::new(s("DAG"), sample());
    let sub = v.subgraph().unwrap();
    assert_eq!(sub.title, s("cluster_b"));
    assert_eq!(sub.current.items, vec![s("bar"), s("baz")]);
    let mut g = sample();
    g.clusters.push(Cluster { id: s("ghost"), nodes: vec![s("nowhere")] });
    let mut v2 = GraphView::new(s("DAG"), g);
    v2.subtree.select(1);
    assert_eq!(v2.subgraph().err(), Some(DotViewerError::NoMatch(s("ghost"))));
}

#[test]
fn input_editing() {
    let mut i = Input::new();
    i.insert('a');
    i.insert('c');
    i.back();
    i.insert('b');
    assert_eq!(i.key, s("abc"));
    assert_eq!(i.cursor, 2);
    i.delete();
    assert_eq!(i.key, s("ac"));
    i.front();
    i.front();
    assert_eq!(i.cursor, 2);
    i.clear();
    assert_eq!(i.key, s(""));
}

#[test]
fn command_parsing() {
    assert_eq!(Command::parse(&s("filter ab")), Command::Filter(Some(s("ab"))));
    assert_eq!(Command::parse(&s("filter")), Command::Filter(None));
    assert_eq!(Command::parse(&s("filter ")), Command::Filter(None));
    assert_eq!(Command::parse(&s("help")), Command::Help);
    assert_eq!(Command::parse(&s("subgraph")), Command::Subgraph);
    assert_eq!(Command::parse(&s("export")), Command::Export);
    assert_eq!(Command::parse(&s("xdot")), Command::Xdot);
    assert_eq!(Command::parse(&s("hel")), Command::NoMatch);
    assert_eq!(Command::parse(&s("neighbors 2")), Command::Neighbors(Some(2)));
    assert_eq!(Command::parse(&s("neighbors 12")), Command::Neighbors(None));
    assert_eq!(Command::parse(&s("neighbors")), Command::Neighbors(None));
}

#[test]
fn export_name_drops_white_space() {
    assert_eq!(strip_white(&s("DAG - ba")), s("DAG-ba"));
    assert_eq!(strip_white(&s(" a\tb\n")), s("ab"));
    assert_eq!(strip_white(&s("x\u{3000}y\u{85}z\u{a0}")), s("xyz"));
}

fn help() -> Table {
    Table::new(&["key", "action"], &[&["q", "quit"], &["/", "fuzzy search"]])
}

fn app() -> App {
    launch(sample(), help())
}

#[test]
fn table_rows_wrap() {
    let mut t = help();
    assert_eq!(t.header, vec![s("key"), s("action")]);
    assert_eq!(t.rows[1], vec![s("/"), s("fuzzy search")]);
    assert_eq!(t.state, Some(0));
    t.previous();
    assert_eq!(t.state, Some(1));
    t.next();
    assert_eq!(t.state, Some(0));
    let mut empty = Table::new(&[], &[]);
    empty.next();
    assert_eq!(empty.state, None);
}

#[test]
fn app_selected_follows_mode_and_focus() {
    let mut a = App::new(sample(), help());
    assert_eq!(a.selected(), Some(s("foo")));
    a.key(Key::Char('l'));
    a.key(Key::Char('l'));
    assert_eq!(a.selected(), Some(s("bar")));
    a.key(Key::Char('j'));
    assert_eq!(a.selected(), Some(s("baz")));
    a.key(Key::Enter);
    assert_eq!(a.tabs.current().current_id(), Some(s("baz")));
    a.key(Key::Char('/'));
    assert_eq!(a.selected(), None);
    a.key(Key::Char('f'));
    assert_eq!(a.selected(), Some(s("foo")));
}

#[test]
fn app_filter_without_match_keeps_tabs() {
    let mut a = app();
    assert_eq!(a.filter(&s("zzz")), Err(DotViewerError::NoMatch(s("zzz"))));
    assert_eq!(a.tabs.tabs.len(), 1);
    assert_eq!(a.tabs.current().current.items, vec![s("foo"), s("bar"), s("baz")]);
    assert_eq!(a.filter(&s("f")), Ok(()));
    assert_eq!(a.tabs.tabs.len(), 2);
    assert_eq!(a.tabs.state, 1);
}

#[test]
fn app_unbound_key_changes_nothing() {
    let mut a = app();
    a.key(Key::Esc);
    assert_eq!(a.result, Err(DotViewerError::KeyUnhandled(Key::Esc)));
    assert_eq!(a.mode, Mode::Normal);
    a.key(Key::Char('z'));
    assert_eq!(a.result, Err(DotViewerError::KeyUnhandled(Key::Char('z'))));
    a.key(Key::Other);
    assert_eq!(a.result, Err(DotViewerError::KeyUnhandled(Key::Other)));
}

#[test]
fn app_search_session() {
    let mut a = app();
    a.key(Key::Char('/'));
    assert_eq!(a.mode, Mode::Search(SearchMode::Fuzzy));
    a.key(Key::Char('b'));
    a.key(Key::Char('a'));
    a.key(Key::Char('z'));
    assert_eq!(ids(&a.tabs.current().matches.items), vec![s("baz")]);
    assert_eq!(a.tabs.current().current_id(), Some(s("baz")));
    a.key(Key::Backspace);
    assert_eq!(ids(&a.tabs.current().matches.items), vec![s("bar"), s("baz")]);
    a.key(Key::Enter);
    assert_eq!(a.mode, Mode::Normal);
    a.key(Key::Char('n'));
    assert_eq!(a.tabs.current().current_id(), Some(s("baz")));
}

#[test]
fn app_command_session() {
    let mut a = app();
    a.key(Key::Char(':'));
    assert_eq!(a.mode, Mode::Command);
    for c in "fil".chars() {
        a.key(Key::Char(c));
    }
    a.key(Key::Tab);
    assert_eq!(a.input.key, s("filter"));
    for c in " ba".chars() {
        a.key(Key::Char(c));
    }
    a.key(Key::Enter);
    assert_eq!(a.result, Ok(Success::Silent));
    assert_eq!(a.mode, Mode::Normal);
    assert_eq!(a.tabs.tabs.len(), 2);
    assert_eq!(a.tabs.current().title, s("DAG - ba"));
    a.key(Key::Char('c'));
    assert_eq!(a.tabs.tabs.len(), 1);
    a.key(Key::Char('c'));
    assert_eq!(a.result, Err(DotViewerError::TabBoundary));
}

#[test]
fn app_export_and_popups() {
    let mut a = app();
    a.key(Key::Char(':'));
    for c in "export".chars() {
        a.key(Key::Char(c));
    }
    a.key(Key::Enter);
    assert_eq!(a.result, Ok(Success::Export(s("DAG"))));
    a.key(Key::Char(':'));
    for c in "subgraph".chars() {
        a.key(Key::Char(c));
    }
    a.key(Key::Enter);
    assert_eq!(a.mode, Mode::Popup(PopupMode::Tree));
    a.key(Key::Enter);
    assert_eq!(a.mode, Mode::Normal);
    assert_eq!(a.tabs.tabs.len(), 2);
    a.key(Key::Char(':'));
    for c in "nope".chars() {
        a.key(Key::Char(c));
    }
    a.key(Key::Enter);
    assert_eq!(a.result, Err(DotViewerError::CommandError(s("nope"))));
    a.key(Key::Char('q'));
    assert!(a.quit);
}

#[test]
fn trie_completion_ignores_word_order() {
    let later = AutocompleteTrie::new(&vec![s("abc"), s("ab")]);
    assert_eq!(later.autocomplete("a"), Some(s("ab")));
    let earlier = AutocompleteTrie::new(&vec![s("ab"), s("abc")]);
    assert_eq!(earlier.autocomplete("a"), Some(s("ab")));
    assert_eq!(later.autocomplete("abc"), Some(s("abc")));
    assert_eq!(later.autocomplete(""), Some(s("ab")));
}

#[test]
fn filtered_view_keeps_clusters() {
    let v = GraphView::new(s("DAG"), sample());
    let mut f = v.filter(&s("baz")).unwrap();
    assert_eq!(f.subtree.items, vec![s("cluster_b")]);
    let sub = f.subgraph().unwrap();
    assert_eq!(sub.current.items, vec![s("baz")]);
    f.subtree.select(5);
    assert_eq!(f.subtree.state, Some(0));
}

#[test]
fn regex_search_session() {
    let mut a = app();
    a.key(Key::Char('r'));
    assert_eq!(a.mode, Mode::Search(SearchMode::Regex));
    for c in "ba".chars() {
        a.key(Key::Char(c));
    }
    assert_eq!(ids(&a.tabs.current().matches.items), vec![s("bar"), s("baz")]);
    a.key(Key::Char('z'));
    assert_eq!(ids(&a.tabs.current().matches.items), vec![s("baz")]);
    a.key(Key::Char('['));
    assert!(a.tabs.current().matches.items.is_empty());
    a.key(Key::Backspace);
    assert_eq!(ids(&a.tabs.current().matches.items), vec![s("baz")]);
    a.key(Key::Esc);
    assert_eq!(a.mode, Mode::Normal);
    a.key(Key::Up);
    assert_eq!(a.result, Err(DotViewerError::KeyUnhandled(Key::Up)));
    a.key(Key::Char('k'));
    assert_eq!(a.tabs.current().current_id(), Some(s("bar")));
}

#[test]
fn view_full_recompute_strategies() {
    let mut v = GraphView::new(s("DAG"), sample());
    v.update_filter(&s("ba"));
    assert_eq!(ids(&v.matches.items), vec![s("bar"), s("baz")]);
    assert_eq!(v.matches.items[1].highlight, vec![0, 1]);
    v.update_fuzzy(&s("fo"));
    assert_eq!(ids(&v.matches.items), vec![s("foo")]);
    assert_eq!(v.matches.items[0].highlight, vec![0, 1]);
    v.update_regex(&s("^\"?f"));
    assert_eq!(ids(&v.matches.items), vec![s("foo")]);
    assert!(v.cache.items.is_empty());
}

#[test]
fn neighbors_command_exports_bounded_graph() {
    let mut a = app();
    a.key(Key::Char('j'));
    assert_eq!(a.tabs.current().current_id(), Some(s("bar")));
    a.key(Key::Char(':'));
    for c in "neighbors 0".chars() {
        a.key(Key::Char(c));
    }
    a.key(Key::Enter);
    match &a.result {
        Ok(Success::Neighbors(node, depth, g)) => {
            assert_eq!(node, &s("bar"));
            assert_eq!(*depth, 0);
            assert_eq!(g.nodes.len(), 1);
            assert!(g.edges.is_empty());
        }
        other => panic!("unexpected {:?}", other),
    }
    let g = sample().neighbors(&s("baz"), 1);
    let ids: Vec<String> = g.nodes.iter().map(|n| n.id.clone()).collect();
    assert_eq!(ids, vec![s("foo"), s("bar"), s("baz")]);
    assert_eq!(g.edges.len(), 3);
    let far = Graph {
        id: s("chain"),
        nodes: vec![node("a"), node("b"), node("c")],
        edges: vec![edge("a", "b"), edge("b", "c")],
        clusters: Vec::new(),
    };
    assert_eq!(far.neighbors(&s("a"), 1).nodes.len(), 2);
    assert_eq!(far.neighbors(&s("c"), 2).nodes.len(), 3);
    assert!(far.neighbors(&s("zz"), 3).nodes.is_empty());
}

#[test]
fn arrow_keys_are_unbound() {
    let mut a = app();
    for k in [Key::Up, Key::Down, Key::Left, Key::Right] {
        a.key(k);
        assert_eq!(a.result, Err(DotViewerError::KeyUnhandled(k)));
        assert_eq!(a.tabs.current().current_id(), Some(s("foo")));
        assert_eq!(a.tabs.current().focus, Focus::Current);
    }
}

#[test]
fn entering_search_empties_completion() {
    let mut v = GraphView::new(s("DAG"), sample());
    assert_eq!(v.autocomplete("b"), Some(s("ba")));
    v.clear_search();
    assert_eq!(v.autocomplete(""), None);
    assert_eq!(v.autocomplete("b"), None);
    assert!(v.trie.items().is_empty());
}

#[test]
fn fuzzy_excludes_ids_without_key_in_order() {
    let g = sample();
    let cands = vec![s("foo"), s("bar"), s("baz")];
    assert_eq!(ids(&find_matches(Matcher::Fuzzy, &cands, &s("ab"), &g)), Vec::<String>::new());
    assert_eq!(find_matches(Matcher::Fuzzy, &cands, &s(""), &g).len(), 3);
    assert_eq!(ids(&find_matches(Matcher::Fuzzy, &cands, &s("BZ"), &g)), Vec::<String>::new());
    assert_eq!(ids(&find_matches(Matcher::Fuzzy, &cands, &s("bz"), &g)), vec![s("baz")]);
}
