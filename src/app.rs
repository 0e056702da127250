use vstd::prelude::*;

use crate::command::{depth_arg, command_arg, command_word, command_words, lemma_words_distinct, Command};
use crate::error::DotViewerError;
use crate::graph::{edge_view, kept_edges, kept_nodes, node_view, within, Graph, KeepSpec};
use crate::input::{delete_post, insert_post, Input};
use crate::search::Matcher;
use crate::tabs::Tabs;
use crate::text::{strip_white, without_white};
use crate::trie::{is_longest_common_prefix, AutocompleteTrie};
use crate::table::Table;
use crate::list::{step_back, step_forward, List, Move};
use crate::view::{backward_post, focus_left, focus_right, forward_post, Focus, GraphView};

verus! {

/// One key press, as the session sees it.
#[derive(Debug, Clone, Copy, PartialEq, Eq)]
pub enum Key {
    Char(char),
    Enter,
    Backspace,
    Esc,
    Tab,
    BackTab,
    Up,
    Down,
    Left,
    Right,
    Other,
}

#[derive(Debug, Clone, Copy, PartialEq, Eq)]
pub enum SearchMode {
    Fuzzy,
    Regex,
}

#[derive(Debug, Clone, Copy, PartialEq, Eq)]
pub enum PopupMode {
    Tree,
    Help,
}

/// The top-level state of the session.
#[derive(Debug, Clone, Copy, PartialEq, Eq)]
pub enum Mode {
    Normal,
    Command,
    Search(SearchMode),
    Popup(PopupMode),
}

/// What a successful key press asks the surrounding driver to do.
#[derive(Debug, Clone, PartialEq, Eq)]
pub enum Success {
    /// Nothing more.
    Silent,
    /// Write the active tab's graph out under this file name.
    Export(String),
    /// Open the last export in the external viewer.
    Xdot,
    /// Write out this graph around the node with this id, taken to this
    /// depth.
    Neighbors(String, usize, Graph),
}

pub open spec fn matcher_of(sm: SearchMode) -> Matcher {
    match sm {
        SearchMode::Fuzzy => Matcher::Fuzzy,
        SearchMode::Regex => Matcher::Regex,
    }
}

fn matcher_for(sm: SearchMode) -> (r: Matcher)
    ensures
        r == matcher_of(sm),
{
    match sm {
        SearchMode::Fuzzy => Matcher::Fuzzy,
        SearchMode::Regex => Matcher::Regex,
    }
}

/// Whether some handler takes `k` in mode `m`.
pub open spec fn is_bound(m: Mode, k: Key) -> bool {
    match m {
        Mode::Normal => match k {
            Key::Char(c) => c == 'q' || c == '/' || c == 'r' || c == ':' || c == 'c' || c == 'n' || c == 'N'
                || c == 'h' || c == 'j' || c == 'k' || c == 'l' || c == 'g' || c == 'G',
            Key::Enter | Key::Tab | Key::BackTab => true,
            _ => false,
        },
        Mode::Command => match k {
            Key::Char(_) | Key::Enter | Key::Backspace | Key::Esc | Key::Tab => true,
            _ => false,
        },
        Mode::Search(_) => match k {
            Key::Char(_) | Key::Enter | Key::Backspace | Key::Esc | Key::Tab => true,
            _ => false,
        },
        Mode::Popup(_) => match k {
            Key::Char(c) => c == 'q' || c == 'j' || c == 'k',
            Key::Enter | Key::Esc => true,
            _ => false,
        },
    }
}

/// The mode that executing the command line `s` leaves.
pub open spec fn command_mode(s: Seq<char>) -> Mode {
    let w = command_word(s);
    if w == "help"@ {
        Mode::Popup(PopupMode::Help)
    } else if w == "subgraph"@ {
        Mode::Popup(PopupMode::Tree)
    } else {
        Mode::Normal
    }
}

/// The mode after key `k` in mode `m`, with command line `line`; `ok` says
/// whether the key's action succeeded.
pub open spec fn mode_after(m: Mode, k: Key, line: Seq<char>, ok: bool) -> Mode {
    if !is_bound(m, k) {
        m
    } else {
        match m {
            Mode::Normal => match k {
                Key::Char(c) => if c == '/' {
                    Mode::Search(SearchMode::Fuzzy)
                } else if c == 'r' {
                    Mode::Search(SearchMode::Regex)
                } else if c == ':' {
                    Mode::Command
                } else {
                    Mode::Normal
                },
                _ => Mode::Normal,
            },
            Mode::Command => match k {
                Key::Enter => command_mode(line),
                Key::Esc => Mode::Normal,
                _ => Mode::Command,
            },
            Mode::Search(_) => match k {
                Key::Enter | Key::Esc => Mode::Normal,
                _ => m,
            },
            Mode::Popup(PopupMode::Tree) => match k {
                Key::Enter => if ok {
                    Mode::Normal
                } else {
                    m
                },
                Key::Esc => Mode::Normal,
                _ => m,
            },
            Mode::Popup(PopupMode::Help) => match k {
                Key::Esc => Mode::Normal,
                _ => m,
            },
        }
    }
}

/// Whether the command line starts with one of the command words.
pub open spec fn names_command(s: Seq<char>) -> bool {
    let w = command_word(s);
    w == "filter"@ || w == "help"@ || w == "subgraph"@ || w == "export"@ || w == "xdot"@ || w == "neighbors"@
}

/// The outcome of an action that yields no value.
pub open spec fn unit_of(r: Result<Success, DotViewerError>) -> Result<(), DotViewerError> {
    match r {
        Ok(_) => Ok(()),
        Err(e) => Err(e),
    }
}

/// `n`'s tabs are `o`'s with only the active tab changed.
pub open spec fn in_place(o: App, n: App) -> bool {
    n.tabs.state == o.tabs.state && n.tabs.tabs@ == o.tabs.tabs@.update(o.tabs.state as int, n.active())
}

/// `n`'s tabs are `o`'s with one new tab pushed and made active.
pub open spec fn opened(o: App, n: App) -> bool {
    n.tabs.tabs@ == o.tabs.tabs@.push(n.active()) && n.tabs.state == o.tabs.tabs@.len()
}

/// The tabs and the input line are as in `o`.
pub open spec fn kept(o: App, n: App) -> bool {
    n.tabs == o.tabs && n.input == o.input
}

/// The view `v` after a search step, before the jump to the first match.
pub open spec fn refined(v: GraphView, w: GraphView) -> GraphView {
    GraphView { matches: w.matches, cache: w.cache, trie: w.trie, ..v }
}

/// The view `v` with its match selection at `sel`.
pub open spec fn match_moved(v: GraphView, sel: Option<usize>) -> GraphView {
    GraphView { matches: List { state: sel, items: v.matches.items }, ..v }
}

/// What opening a filtered tab does: on success the active tab restricted
/// to the nodes whose id starts with `prefix` is pushed; on failure no tab
/// changes.
pub open spec fn filter_post(o: App, n: App, prefix: Seq<char>, r: Result<(), DotViewerError>) -> bool {
    &&& not_unhandled(r)
    &&& r is Err ==> n.tabs == o.tabs
    &&& o.tabs.tabs@.len() == usize::MAX ==> r == Err::<(), DotViewerError>(DotViewerError::TabBoundary)
    &&& o.tabs.tabs@.len() < usize::MAX ==> (r is Ok <==> !o.active().filter_spec_no_match(prefix))
    &&& o.tabs.tabs@.len() < usize::MAX ==> (r matches Err(e) ==> (e matches DotViewerError::NoMatch(p) && p@ == prefix))
    &&& r is Ok ==> opened(o, n) && n.active().filtered_from(o.active(), prefix)
}

/// What opening the selected cluster does.
pub open spec fn subgraph_post(o: App, n: App, r: Result<(), DotViewerError>) -> bool {
    let v = o.active();
    &&& not_unhandled(r)
    &&& r is Err ==> n.tabs == o.tabs && n.mode == o.mode
    &&& o.tabs.tabs@.len() == usize::MAX ==> r == Err::<(), DotViewerError>(DotViewerError::TabBoundary)
    &&& o.tabs.tabs@.len() < usize::MAX ==> (r is Ok <==> v.subgraph_ok())
    &&& r is Ok ==> opened(o, n) && n.mode == Mode::Normal && n.active().extracted_from(
        v,
        v.subtree.items@[v.subtree.state.unwrap() as int]@,
    )
}

/// The outcome of exporting the neighbors of `v`'s selected node up to
/// depth `d`.
pub open spec fn neighbors_outcome(v: GraphView, d: usize, r: Result<Success, DotViewerError>) -> bool {
    match v.current_spec() {
        None => r matches Err(DotViewerError::NotFound(s)) && s@.len() == 0,
        Some(id) => {
            let keep = KeepSpec::Members(within(v.graph.edges@, id, d as nat));
            &&& kept_nodes(v.graph.nodes@, keep).len() == 0 <==> r is Err
            &&& r is Err ==> (r matches Err(DotViewerError::NoMatch(x)) && x@ == id)
            &&& r is Ok ==> (r matches Ok(Success::Neighbors(name, depth, g)) && name@ == id && depth == d
                && node_view(g.nodes@) == kept_nodes(v.graph.nodes@, keep) && edge_view(g.edges@) == kept_edges(
                v.graph.edges@,
                keep,
            ))
        },
    }
}

/// What running the command line does to the tabs, and its outcome.
pub open spec fn exec_post(o: App, n: App, r: Result<Success, DotViewerError>) -> bool {
    let line = o.input.key@;
    let w = command_word(line);
    &&& not_unhandled(r)
    &&& n.input == o.input
    &&& w != "filter"@ ==> n.tabs == o.tabs
    &&& w == "filter"@ ==> match command_arg(line) {
        Some(a) => if a.len() > 0 {
            filter_post(o, n, a, unit_of(r)) && (r is Ok ==> r == Ok::<Success, DotViewerError>(Success::Silent))
        } else {
            n.tabs == o.tabs && r == Err::<Success, DotViewerError>(DotViewerError::CommandError(o.input.key))
        },
        None => n.tabs == o.tabs && r == Err::<Success, DotViewerError>(DotViewerError::CommandError(o.input.key)),
    }
    &&& w == "export"@ ==> (r matches Ok(Success::Export(name)) && name@ == without_white(o.active().title@))
    &&& w == "xdot"@ ==> r == Ok::<Success, DotViewerError>(Success::Xdot)
    &&& w == "neighbors"@ ==> match depth_arg(line) {
        Some(d) => neighbors_outcome(o.active(), d, r),
        None => r == Err::<Success, DotViewerError>(DotViewerError::CommandError(o.input.key)),
    }
    &&& w == "help"@ || w == "subgraph"@ ==> r == Ok::<Success, DotViewerError>(Success::Silent)
    &&& !names_command(line) ==> r == Err::<Success, DotViewerError>(DotViewerError::CommandError(o.input.key))
}

/// What entering search does: the input and the active tab's match and
/// neighbor lists are emptied.
pub open spec fn search_mode_post(o: App, n: App) -> bool {
    let v = o.active();
    let w = n.active();
    &&& n.input.key@.len() == 0 && n.input.cursor == 0
    &&& in_place(o, n)
    &&& w.matches.items@.len() == 0 && w.cache.items@.len() == 0
    &&& w.prevs.items@.len() == 0 && w.nexts.items@.len() == 0
    &&& w.current == v.current && w.graph == v.graph && w.title == v.title && w.focus == v.focus
}

/// What completing the command line does.
pub open spec fn complete_command_post(o: App, n: App) -> bool {
    let line = o.input.key@;
    &&& n.tabs == o.tabs
    &&& names_command(line) || o.trie.candidates(line).is_empty() ==> n.input == o.input
    &&& !names_command(line) && !o.trie.candidates(line).is_empty() ==> is_longest_common_prefix(
        n.input.key@,
        o.trie.candidates(line),
    ) && n.input.cursor == n.input.key@.len()
}

/// What completing the search key does: the key becomes the completion and
/// the search refines for it, then jumps to the first match.
pub open spec fn complete_search_post(o: App, n: App, sm: SearchMode, r: Result<(), DotViewerError>) -> bool {
    let v = o.active();
    let w = n.active();
    let line = o.input.key@;
    &&& not_unhandled(r)
    &&& v.trie.candidates(line).is_empty() ==> r is Ok && kept(o, n)
    &&& !v.trie.candidates(line).is_empty() ==> {
        &&& is_longest_common_prefix(n.input.key@, v.trie.candidates(line))
        &&& n.input.cursor == n.input.key@.len()
        &&& in_place(o, n)
        &&& forward_post(v, w, matcher_of(sm), n.input.key@, line.len() == 0)
        &&& refined(v, w).jump_post(w, r)
    }
}

/// What a bound key does to the tabs and the input line, from `o` to `n`,
/// with outcome `r`.
pub open spec fn key_effect(o: App, n: App, k: Key, r: Result<Success, DotViewerError>) -> bool {
    let v = o.active();
    let w = n.active();
    let room = o.input.key@.len() < usize::MAX;
    match o.mode {
        Mode::Normal => match k {
            Key::Char(c) => if c == 'q' {
                kept(o, n)
            } else if c == '/' || c == 'r' {
                search_mode_post(o, n)
            } else if c == ':' {
                n.tabs == o.tabs && n.input.key@.len() == 0 && n.input.cursor == 0
            } else if c == 'j' {
                n.input == o.input && in_place(o, n) && v.vertical_post(w, Move::Down)
            } else if c == 'k' {
                n.input == o.input && in_place(o, n) && v.vertical_post(w, Move::Up)
            } else if c == 'G' {
                n.input == o.input && in_place(o, n) && v.vertical_post(w, Move::Last)
            } else if c == 'g' {
                &&& n.input == o.input
                &&& o.lookback == Some(Key::Char('g')) ==> in_place(o, n) && v.vertical_post(w, Move::First)
                &&& o.lookback != Some(Key::Char('g')) ==> n.tabs == o.tabs
            } else if c == 'h' {
                n.input == o.input && in_place(o, n) && w == (GraphView { focus: focus_left(v.focus), ..v })
            } else if c == 'l' {
                n.input == o.input && in_place(o, n) && w == (GraphView { focus: focus_right(v.focus), ..v })
            } else if c == 'n' {
                n.input == o.input && in_place(o, n) && match_moved(
                    v,
                    step_forward(v.matches.state, v.matches.items@.len()),
                ).jump_post(w, unit_of(r))
            } else if c == 'N' {
                n.input == o.input && in_place(o, n) && match_moved(
                    v,
                    step_back(v.matches.state, v.matches.items@.len()),
                ).jump_post(w, unit_of(r))
            } else if c == 'c' {
                &&& n.input == o.input
                &&& o.tabs.state == 0 ==> n.tabs == o.tabs
                &&& o.tabs.state != 0 ==> n.tabs.tabs@ == o.tabs.tabs@.remove(o.tabs.state as int)
                    && n.tabs.state == o.tabs.state - 1
            } else {
                true
            },
            Key::Enter => n.input == o.input && in_place(o, n) && v.enter_post(w, unit_of(r)),
            Key::Tab => n.input == o.input && n.tabs.tabs@ == o.tabs.tabs@ && n.tabs.state == (
            if o.tabs.state + 1 < o.tabs.tabs@.len() {
                (o.tabs.state + 1) as usize
            } else {
                0usize
            }),
            Key::BackTab => n.input == o.input && n.tabs.tabs@ == o.tabs.tabs@ && n.tabs.state == (
            if o.tabs.state == 0 {
                (o.tabs.tabs@.len() - 1) as usize
            } else {
                (o.tabs.state - 1) as usize
            }),
            _ => true,
        },
        Mode::Command => match k {
            Key::Char(c) => n.tabs == o.tabs && r is Ok && (room ==> insert_post(o.input, n.input, c)),
            Key::Backspace => n.tabs == o.tabs && r is Ok && delete_post(o.input, n.input),
            Key::Enter => exec_post(o, n, r),
            Key::Tab => r is Ok && complete_command_post(o, n),
            Key::Esc => r is Ok && kept(o, n),
            _ => true,
        },
        Mode::Search(sm) => match k {
            Key::Char(c) => {
                &&& room ==> insert_post(o.input, n.input, c) && in_place(o, n) && forward_post(
                    v,
                    w,
                    matcher_of(sm),
                    n.input.key@,
                    o.input.key@.len() == 0,
                ) && refined(v, w).jump_post(w, unit_of(r))
                &&& !room ==> r is Ok && kept(o, n)
            },
            Key::Backspace => delete_post(o.input, n.input) && in_place(o, n) && backward_post(
                v,
                w,
                matcher_of(sm),
                n.input.key@,
            ) && refined(v, w).jump_post(w, unit_of(r)),
            Key::Tab => complete_search_post(o, n, sm, unit_of(r)),
            Key::Enter | Key::Esc => r is Ok && kept(o, n),
            _ => true,
        },
        Mode::Popup(pm) => match k {
            Key::Char(c) => if c == 'q' {
                r is Ok && kept(o, n)
            } else if c == 'j' || c == 'k' {
                let down = c == 'j';
                &&& r is Ok && n.input == o.input
                &&& pm == PopupMode::Tree ==> in_place(o, n) && w == (GraphView {
                    subtree: List {
                        state: if down {
                            step_forward(v.subtree.state, v.subtree.items@.len())
                        } else {
                            step_back(v.subtree.state, v.subtree.items@.len())
                        },
                        items: v.subtree.items,
                    },
                    ..v
                })
                &&& pm == PopupMode::Help ==> n.tabs == o.tabs && n.help.rows == o.help.rows && n.help.state == (
                if down {
                    step_forward(o.help.state, o.help.rows@.len())
                } else {
                    step_back(o.help.state, o.help.rows@.len())
                })
            } else {
                true
            },
            Key::Enter => if pm == PopupMode::Tree {
                n.input == o.input && subgraph_post(o, n, unit_of(r))
            } else {
                r is Ok && kept(o, n)
            },
            Key::Esc => r is Ok && kept(o, n),
            _ => true,
        },
    }
}

/// Whether `k` sets the quit flag in mode `m`.
pub open spec fn quits(m: Mode, k: Key) -> bool {
    k == Key::Char('q') && (m is Normal || m is Popup)
}

pub open spec fn not_unhandled<T>(r: Result<T, DotViewerError>) -> bool {
    !(r matches Err(DotViewerError::KeyUnhandled(_)))
}

/// The interactive session: a stack of tabs, the mode, the input line and
/// the outcome of the last key.
pub struct App {
    pub quit: bool,
    pub mode: Mode,
    pub result: Result<Success, DotViewerError>,
    pub tabs: Tabs<GraphView>,
    pub input: Input,
    pub trie: AutocompleteTrie,
    pub help: Table,
    pub lookback: Option<Key>,
}

impl App {
    pub open spec fn wf(&self) -> bool {
        &&& self.tabs.wf()
        &&& forall|i: int| 0 <= i < self.tabs.tabs@.len() ==> #[trigger] self.tabs.tabs@[i].wf()
        &&& self.input.wf()
        &&& self.trie.wf()
        &&& self.help.wf()
    }

    /// The active tab.
    pub open spec fn active(&self) -> GraphView {
        self.tabs.tabs@[self.tabs.state as int]
    }

    /// The id under the cursor: in Search mode the selected match, otherwise
    /// the selected entry of the list the active tab's focus names.
    pub fn selected(&self) -> (r: Option<String>)
        requires
            self.wf(),
        ensures
            ({
                let v = self.active();
                let l = if self.mode is Search {
                    None::<Seq<char>>
                } else if v.focus == Focus::Current {
                    match v.current.state { Some(i) => Some(v.current.items@[i as int]@), None => None }
                } else if v.focus == Focus::Prev {
                    match v.prevs.state { Some(i) => Some(v.prevs.items@[i as int]@), None => None }
                } else {
                    match v.nexts.state { Some(i) => Some(v.nexts.items@[i as int]@), None => None }
                };
                if self.mode is Search {
                    (r is None <==> v.matches.state is None) && (r matches Some(s) ==> s@
                        == v.matches.items@[v.matches.state.unwrap() as int].id@)
                } else {
                    (r is None <==> l is None) && (r matches Some(s) ==> l == Some(s@))
                }
            }),
    {
        let view = self.tabs.current();
        proof {
            assert(self.tabs.tabs@[self.tabs.state as int].wf());
        }
        match self.mode {
            Mode::Search(_) => view.matched_id(),
            _ => {
                let side = match view.focus {
                    Focus::Current => view.current.selected(),
                    Focus::Prev => view.prevs.selected(),
                    Focus::Next => view.nexts.selected(),
                };
                match side {
                    Some(s) => Some(s.clone()),
                    None => None,
                }
            },
        }
    }

    /// Everything but `result` and `lookback` is as in `o`.
    pub open spec fn same_state(&self, o: App) -> bool {
        &&& self.quit == o.quit
        &&& self.mode == o.mode
        &&& self.tabs == o.tabs
        &&& self.input == o.input
        &&& self.trie == o.trie
        &&& self.help == o.help
    }

    /// A session over `graph`, with one root tab named after the graph.
    pub fn new(graph: Graph, help: Table) -> (r: App)
        requires
            help.wf(),
        ensures
            r.wf(),
            !r.quit,
            r.mode == Mode::Normal,
            r.result == Ok::<Success, DotViewerError>(Success::Silent),
            r.tabs.tabs@.len() == 1 && r.tabs.state == 0,
            r.active().graph == graph && r.active().title@ == graph.id@,
            r.active().current.state == (if graph.nodes@.len() == 0 { None } else { Some(0usize) }),
            r.input.key@.len() == 0,
            r.help == help,
            r.trie.words().len() == 6,
            r.trie.words()[0]@ == "filter"@ && r.trie.words()[1]@ == "help"@ && r.trie.words()[2]@ == "subgraph"@,
            r.trie.words()[3]@ == "export"@ && r.trie.words()[4]@ == "xdot"@ && r.trie.words()[5]@ == "neighbors"@,
            r.lookback is None,
    {
        let title = graph.id.clone();
        let view = GraphView::new(title, graph);
        let mut tabs_vec: Vec<GraphView> = Vec::new();
        tabs_vec.push(view);
        let words = command_words();
        App {
            quit: false,
            mode: Mode::Normal,
            result: Ok(Success::Silent),
            tabs: Tabs { state: 0, tabs: tabs_vec },
            input: Input::new(),
            trie: AutocompleteTrie::new(&words),
            help,
            lookback: None,
        }
    }

    pub fn set_normal_mode(&mut self)
        ensures
            *final(self) == (App { mode: Mode::Normal, ..*old(self) }),
    {
        self.mode = Mode::Normal;
    }

    pub fn set_command_mode(&mut self)
        requires
            old(self).wf(),
        ensures
            final(self).wf(),
            final(self).mode == Mode::Command,
            final(self).input.key@.len() == 0 && final(self).input.cursor == 0,
            final(self).tabs == old(self).tabs && final(self).quit == old(self).quit,
            final(self).result == old(self).result && final(self).lookback == old(self).lookback,
            final(self).trie == old(self).trie && final(self).help == old(self).help,
    {
        self.input.clear();
        self.mode = Mode::Command;
    }

    /// Enters search: the input and the active tab's match and neighbor
    /// lists are emptied.
    pub fn set_search_mode(&mut self, smode: SearchMode)
        requires
            old(self).wf(),
        ensures
            final(self).wf(),
            final(self).mode == Mode::Search(smode),
            search_mode_post(*old(self), *final(self)),
            final(self).quit == old(self).quit,
            final(self).result == old(self).result && final(self).lookback == old(self).lookback,
            final(self).trie == old(self).trie && final(self).help == old(self).help,
    {
        self.input.clear();
        self.mode = Mode::Search(smode);
        let view = self.tabs.selected();
        view.clear_search();
    }

    pub fn set_popup_mode(&mut self, pmode: PopupMode)
        ensures
            *final(self) == (App { mode: Mode::Popup(pmode), ..*old(self) }),
    {
        self.mode = Mode::Popup(pmode);
    }

    /// Opens, as a new active tab, the active tab restricted to the nodes
    /// whose id starts with `prefix`. When no node does, the error is
    /// `NoMatch` and no tab changes.
    pub fn filter(&mut self, prefix: &String) -> (r: Result<(), DotViewerError>)
        requires
            old(self).wf(),
        ensures
            final(self).wf(),
            filter_post(*old(self), *final(self), prefix@, r),
            final(self).mode == old(self).mode && final(self).quit == old(self).quit,
            final(self).input == old(self).input && final(self).trie == old(self).trie,
            final(self).help == old(self).help,
            final(self).result == old(self).result && final(self).lookback == old(self).lookback,
    {
        if self.tabs.tabs.len() == usize::MAX {
            return Err(DotViewerError::TabBoundary);
        }
        let view = self.tabs.current().filter(prefix);
        match view {
            Ok(v) => {
                self.tabs.open(v);
                Ok(())
            },
            Err(e) => Err(e),
        }
    }


    /// What handling key `k` did, from `o` to `n`, with outcome `r`.
    pub open spec fn handled(o: App, n: App, k: Key, r: Result<Success, DotViewerError>) -> bool {
        &&& n.wf()
        &&& n.mode == mode_after(o.mode, k, o.input.key@, r is Ok)
        &&& n.quit == (o.quit || quits(o.mode, k))
        &&& n.result == o.result
        &&& n.lookback == o.lookback
        &&& key_effect(o, n, k, r)
        &&& is_bound(o.mode, k) ==> not_unhandled(r)
        &&& !is_bound(o.mode, k) ==> n.same_state(o) && r == Err::<Success, DotViewerError>(
            DotViewerError::KeyUnhandled(k),
        )
    }

    /// Opens the cluster selected in the active tab's cluster list as a new
    /// active tab, and goes back to Normal mode.
    pub fn subgraph(&mut self) -> (r: Result<(), DotViewerError>)
        requires
            old(self).wf(),
        ensures
            final(self).wf(),
            subgraph_post(*old(self), *final(self), r),
            r is Err ==> final(self).mode == old(self).mode,
            final(self).quit == old(self).quit && final(self).input == old(self).input,
            final(self).trie == old(self).trie && final(self).help == old(self).help,
            final(self).result == old(self).result && final(self).lookback == old(self).lookback,
    {
        if self.tabs.tabs.len() == usize::MAX {
            return Err(DotViewerError::TabBoundary);
        }
        let view = self.tabs.current().subgraph();
        match view {
            Ok(v) => {
                self.tabs.open(v);
                self.set_normal_mode();
                Ok(())
            },
            Err(e) => Err(e),
        }
    }

    /// Runs the command line and leaves Command mode (for a popup command,
    /// into that popup).
    pub fn exec(&mut self) -> (r: Result<Success, DotViewerError>)
        requires
            old(self).wf(),
            old(self).mode == Mode::Command,
        ensures
            final(self).wf(),
            final(self).mode == command_mode(old(self).input.key@),
            exec_post(*old(self), *final(self), r),
            final(self).quit == old(self).quit,
            final(self).trie == old(self).trie && final(self).help == old(self).help,
            final(self).result == old(self).result && final(self).lookback == old(self).lookback,
    {
        let command = Command::parse(&self.input.key);
        proof {
            lemma_words_distinct();
        }
        self.set_normal_mode();
        match command {
            Command::Filter(Some(prefix)) => Self::lift(self.filter(&prefix)),
            Command::Filter(None) => Err(DotViewerError::CommandError(self.input.key.clone())),
            Command::Neighbors(Some(depth)) => self.neighbors(depth),
            Command::Neighbors(None) => Err(DotViewerError::CommandError(self.input.key.clone())),
            Command::Help => {
                self.set_popup_mode(PopupMode::Help);
                Ok(Success::Silent)
            },
            Command::Subgraph => {
                self.set_popup_mode(PopupMode::Tree);
                Ok(Success::Silent)
            },
            Command::Export => {
                let name = strip_white(&self.tabs.current().title);
                Ok(Success::Export(name))
            },
            Command::Xdot => Ok(Success::Xdot),
            Command::NoMatch => Err(DotViewerError::CommandError(self.input.key.clone())),
        }
    }

    /// The graph around the active tab's selected node, up to `depth` edges
    /// away in either direction, for the driver to write out.
    pub fn neighbors(&self, depth: usize) -> (r: Result<Success, DotViewerError>)
        requires
            self.wf(),
        ensures
            neighbors_outcome(self.active(), depth, r),
    {
        proof {
            assert(self.tabs.tabs@[self.tabs.state as int].wf());
        }
        let view = self.tabs.current();
        match view.current.selected() {
            Some(id) => {
                let g = view.graph.neighbors(id, depth);
                if g.nodes.len() == 0 {
                    Err(DotViewerError::NoMatch(id.clone()))
                } else {
                    Ok(Success::Neighbors(id.clone(), depth, g))
                }
            },
            None => Err(DotViewerError::NotFound(String::new())),
        }
    }

    /// Completes the command line from the command words, unless it already
    /// names a command.
    pub fn autocomplete_command(&mut self)
        requires
            old(self).wf(),
        ensures
            final(self).wf(),
            *final(self) == (App { input: final(self).input, ..*old(self) }),
            complete_command_post(*old(self), *final(self)),
    {
        let command = Command::parse(&self.input.key);
        proof {
            lemma_words_distinct();
        }
        if !command.is_known() {
            if let Some(completed) = self.trie.autocomplete(self.input.key.as_str()) {
                self.input.set(completed);
            }
        }
    }

    /// Completes the search key from the live matches and searches for the
    /// completed key.
    pub fn autocomplete_search(&mut self, smode: SearchMode) -> (r: Result<(), DotViewerError>)
        requires
            old(self).wf(),
        ensures
            final(self).wf(),
            complete_search_post(*old(self), *final(self), smode, r),
            final(self).mode == old(self).mode && final(self).quit == old(self).quit,
            final(self).trie == old(self).trie && final(self).help == old(self).help,
            final(self).result == old(self).result && final(self).lookback == old(self).lookback,
    {
        let from_scratch = self.input.key.as_str().unicode_len() == 0;
        proof {
            assert(self.tabs.tabs@[self.tabs.state as int].wf());
        }
        match self.tabs.current().autocomplete(self.input.key.as_str()) {
            Some(completed) => {
                let view = self.tabs.selected();
                let r = view.search_forward(matcher_for(smode), &completed, from_scratch);
                self.input.set(completed);
                r
            },
            None => Ok(()),
        }
    }

    fn lift(r: Result<(), DotViewerError>) -> (s: Result<Success, DotViewerError>)
        ensures
            r is Ok <==> s is Ok,
            s is Ok ==> s == Ok::<Success, DotViewerError>(Success::Silent),
            r matches Err(e) ==> s == Err::<Success, DotViewerError>(e),
            unit_of(s) == r,
    {
        match r {
            Ok(u) => {
                let s = Ok(Success::Silent);
                assert(u == ());
                assert(unit_of(s) == r);
                s
            },
            Err(e) => Err(e),
        }
    }

    fn char_normal(&mut self, c: char) -> (r: Result<Success, DotViewerError>)
        requires
            old(self).wf(),
            old(self).mode == Mode::Normal,
        ensures
            App::handled(*old(self), *final(self), Key::Char(c), r),
    {
        proof {
            assert(self.tabs.tabs@[self.tabs.state as int].wf());
        }
        if c == 'q' {
            self.quit = true;
            Ok(Success::Silent)
        } else if c == '/' {
            self.set_search_mode(SearchMode::Fuzzy);
            Ok(Success::Silent)
        } else if c == 'r' {
            self.set_search_mode(SearchMode::Regex);
            Ok(Success::Silent)
        } else if c == ':' {
            self.set_command_mode();
            Ok(Success::Silent)
        } else if c == 'c' {
            Self::lift(self.tabs.close())
        } else if c == 'n' {
            let view = self.tabs.selected();
            view.matches.next();
            Self::lift(view.goto_match())
        } else if c == 'N' {
            let view = self.tabs.selected();
            view.matches.previous();
            Self::lift(view.goto_match())
        } else if c == 'h' {
            let view = self.tabs.selected();
            view.left();
            Ok(Success::Silent)
        } else if c == 'l' {
            let view = self.tabs.selected();
            view.right();
            Ok(Success::Silent)
        } else if c == 'j' {
            let view = self.tabs.selected();
            view.down();
            Ok(Success::Silent)
        } else if c == 'k' {
            let view = self.tabs.selected();
            view.up();
            Ok(Success::Silent)
        } else if c == 'g' {
            let again = match self.lookback {
                Some(Key::Char(p)) => p == 'g',
                _ => false,
            };
            if again {
                let view = self.tabs.selected();
                view.first();
            }
            Ok(Success::Silent)
        } else if c == 'G' {
            let view = self.tabs.selected();
            view.last();
            Ok(Success::Silent)
        } else {
            Err(DotViewerError::KeyUnhandled(Key::Char(c)))
        }
    }

    fn char_command(&mut self, c: char) -> (r: Result<Success, DotViewerError>)
        requires
            old(self).wf(),
            old(self).mode == Mode::Command,
        ensures
            App::handled(*old(self), *final(self), Key::Char(c), r),
            r is Ok,
    {
        if self.input.key.as_str().unicode_len() < usize::MAX {
            self.input.insert(c);
        }
        Ok(Success::Silent)
    }

    fn char_search(&mut self, smode: SearchMode, c: char) -> (r: Result<Success, DotViewerError>)
        requires
            old(self).wf(),
            old(self).mode == Mode::Search(smode),
        ensures
            App::handled(*old(self), *final(self), Key::Char(c), r),
    {
        proof {
            assert(self.tabs.tabs@[self.tabs.state as int].wf());
        }
        if self.input.key.as_str().unicode_len() == usize::MAX {
            return Ok(Success::Silent);
        }
        let from_scratch = self.input.key.as_str().unicode_len() == 0;
        self.input.insert(c);
        let view = self.tabs.selected();
        Self::lift(view.search_forward(matcher_for(smode), &self.input.key, from_scratch))
    }

    /// Moves the popup's list one row.
    fn popup_step(&mut self, pmode: PopupMode, down: bool)
        requires
            old(self).wf(),
        ensures
            final(self).wf(),
            final(self).mode == old(self).mode && final(self).quit == old(self).quit,
            final(self).input == old(self).input && final(self).trie == old(self).trie,
            final(self).result == old(self).result && final(self).lookback == old(self).lookback,
            ({
                let v = old(self).active();
                &&& pmode == PopupMode::Tree ==> in_place(*old(self), *final(self)) && final(self).help == old(self).help
                    && final(self).active() == (GraphView {
                    subtree: List {
                        state: if down {
                            step_forward(v.subtree.state, v.subtree.items@.len())
                        } else {
                            step_back(v.subtree.state, v.subtree.items@.len())
                        },
                        items: v.subtree.items,
                    },
                    ..v
                })
                &&& pmode == PopupMode::Help ==> final(self).tabs == old(self).tabs && final(self).help.rows
                    == old(self).help.rows && final(self).help.state == (if down {
                    step_forward(old(self).help.state, old(self).help.rows@.len())
                } else {
                    step_back(old(self).help.state, old(self).help.rows@.len())
                })
            }),
    {
        proof {
            assert(self.tabs.tabs@[self.tabs.state as int].wf());
        }
        match pmode {
            PopupMode::Tree => {
                let view = self.tabs.selected();
                if down {
                    view.subtree.next();
                } else {
                    view.subtree.previous();
                }
            },
            PopupMode::Help => {
                if down {
                    self.help.next();
                } else {
                    self.help.previous();
                }
            },
        }
    }

    fn char_popup(&mut self, pmode: PopupMode, c: char) -> (r: Result<Success, DotViewerError>)
        requires
            old(self).wf(),
            old(self).mode == Mode::Popup(pmode),
        ensures
            App::handled(*old(self), *final(self), Key::Char(c), r),
    {
        if c == 'q' {
            self.quit = true;
            Ok(Success::Silent)
        } else if c == 'j' {
            self.popup_step(pmode, true);
            Ok(Success::Silent)
        } else if c == 'k' {
            self.popup_step(pmode, false);
            Ok(Success::Silent)
        } else {
            Err(DotViewerError::KeyUnhandled(Key::Char(c)))
        }
    }

    fn enter(&mut self) -> (r: Result<Success, DotViewerError>)
        requires
            old(self).wf(),
        ensures
            App::handled(*old(self), *final(self), Key::Enter, r),
    {
        proof {
            assert(self.tabs.tabs@[self.tabs.state as int].wf());
        }
        match self.mode {
            Mode::Normal => {
                let view = self.tabs.selected();
                Self::lift(view.enter())
            },
            Mode::Command => self.exec(),
            Mode::Search(_) => {
                self.set_normal_mode();
                Ok(Success::Silent)
            },
            Mode::Popup(PopupMode::Tree) => Self::lift(self.subgraph()),
            Mode::Popup(PopupMode::Help) => Ok(Success::Silent),
        }
    }

    fn backspace(&mut self) -> (r: Result<Success, DotViewerError>)
        requires
            old(self).wf(),
        ensures
            App::handled(*old(self), *final(self), Key::Backspace, r),
    {
        proof {
            assert(self.tabs.tabs@[self.tabs.state as int].wf());
        }
        match self.mode {
            Mode::Command => {
                self.input.delete();
                Ok(Success::Silent)
            },
            Mode::Search(smode) => {
                self.input.delete();
                let view = self.tabs.selected();
                Self::lift(view.search_backward(matcher_for(smode), &self.input.key))
            },
            _ => Err(DotViewerError::KeyUnhandled(Key::Backspace)),
        }
    }

    fn esc(&mut self) -> (r: Result<Success, DotViewerError>)
        requires
            old(self).wf(),
        ensures
            App::handled(*old(self), *final(self), Key::Esc, r),
    {
        match self.mode {
            Mode::Normal => Err(DotViewerError::KeyUnhandled(Key::Esc)),
            _ => {
                self.set_normal_mode();
                Ok(Success::Silent)
            },
        }
    }

    fn tab(&mut self) -> (r: Result<Success, DotViewerError>)
        requires
            old(self).wf(),
        ensures
            App::handled(*old(self), *final(self), Key::Tab, r),
    {
        match self.mode {
            Mode::Normal => {
                self.tabs.next();
                Ok(Success::Silent)
            },
            Mode::Command => {
                self.autocomplete_command();
                Ok(Success::Silent)
            },
            Mode::Search(smode) => Self::lift(self.autocomplete_search(smode)),
            Mode::Popup(_) => Err(DotViewerError::KeyUnhandled(Key::Tab)),
        }
    }

    fn backtab(&mut self) -> (r: Result<Success, DotViewerError>)
        requires
            old(self).wf(),
        ensures
            App::handled(*old(self), *final(self), Key::BackTab, r),
    {
        match self.mode {
            Mode::Normal => {
                self.tabs.previous();
                Ok(Success::Silent)
            },
            _ => Err(DotViewerError::KeyUnhandled(Key::BackTab)),
        }
    }

    /// Handles one key press: exactly one handler runs, chosen by the mode
    /// (and, for movement keys in Normal mode, by the active tab's focus).
    /// Its outcome is recorded in `result`; an unbound key changes nothing
    /// else.
    pub fn key(&mut self, key: Key)
        requires
            old(self).wf(),
        ensures
            final(self).wf(),
            final(self).lookback == Some(key),
            final(self).mode == mode_after(old(self).mode, key, old(self).input.key@, final(self).result is Ok),
            final(self).quit == (old(self).quit || quits(old(self).mode, key)),
            is_bound(old(self).mode, key) ==> not_unhandled(final(self).result),
            !is_bound(old(self).mode, key) ==> final(self).same_state(*old(self)) && final(self).result
                == Err::<Success, DotViewerError>(DotViewerError::KeyUnhandled(key)),
            key_effect(*old(self), *final(self), key, final(self).result),
    {
        let r = match key {
            Key::Char(c) => match self.mode {
                Mode::Normal => self.char_normal(c),
                Mode::Command => self.char_command(c),
                Mode::Search(smode) => self.char_search(smode, c),
                Mode::Popup(pmode) => self.char_popup(pmode, c),
            },
            Key::Enter => self.enter(),
            Key::Backspace => self.backspace(),
            Key::Esc => self.esc(),
            Key::Tab => self.tab(),
            Key::BackTab => self.backtab(),
            Key::Up | Key::Down | Key::Left | Key::Right | Key::Other => Err(DotViewerError::KeyUnhandled(key)),
        };
        self.result = r;
        self.lookback = Some(key);
    }
}

} // verus!

verus! {

/// Starts a session over `graph`: Normal mode, one root tab on the whole
/// graph, nothing typed. The surrounding driver then feeds it keys until
/// `quit` is set.
pub fn launch(graph: Graph, help: Table) -> (r: App)
    requires
        help.wf(),
    ensures
        r.wf(),
        !r.quit,
        r.mode == Mode::Normal,
        r.tabs.tabs@.len() == 1 && r.tabs.state == 0,
        r.active().graph == graph && r.active().title@ == graph.id@,
        r.active().current.state == (if graph.nodes@.len() == 0 { None } else { Some(0usize) }),
        r.input.key@.len() == 0,
{
    App::new(graph, help)
}

} // verus!

verus! {

/// A filter that no node id matches fails and leaves every tab, and so the
/// active tab's node list, as it was: no tab is opened.
pub proof fn lemma_filter_without_match(o: App, n: App, prefix: Seq<char>, r: Result<(), DotViewerError>)
    requires
        filter_post(o, n, prefix, r),
        o.active().filter_spec_no_match(prefix),
    ensures
        r is Err,
        n.tabs == o.tabs,
        n.active().current == o.active().current,
{
}

} // verus!
