use vstd::prelude::*;

use crate::text::same_text;

verus! {

/// A parsed command line.
#[derive(Debug, Clone, PartialEq, Eq)]
pub enum Command {
    /// `filter <prefix>`: open a tab restricted to the nodes with that prefix.
    Filter(Option<String>),
    /// `neighbors <digit>`: export the graph around the selected node, up to
    /// that many edges away.
    Neighbors(Option<usize>),
    /// `help`: show the key bindings.
    Help,
    /// `subgraph`: pick a cluster to open as a tab.
    Subgraph,
    /// `export`: write the active tab's graph out.
    Export,
    /// `xdot`: open the last export in the external viewer.
    Xdot,
    /// Anything else.
    NoMatch,
}

/// Position of the first space in `s`, or its length.
pub open spec fn space_at(s: Seq<char>) -> int
    decreases s.len(),
{
    if s.len() == 0 {
        0
    } else if s[0] == ' ' {
        0
    } else {
        1 + space_at(s.drop_first())
    }
}

/// The command word: everything before the first space.
pub open spec fn command_word(s: Seq<char>) -> Seq<char> {
    s.subrange(0, space_at(s))
}

/// The argument: everything after the first space, if there is one.
pub open spec fn command_arg(s: Seq<char>) -> Option<Seq<char>> {
    if space_at(s) < s.len() {
        Some(s.subrange(space_at(s) + 1, s.len() as int))
    } else {
        None
    }
}

/// The depth that the argument of `s` gives: a single decimal digit.
pub open spec fn depth_arg(s: Seq<char>) -> Option<usize> {
    match command_arg(s) {
        Some(a) => if a.len() == 1 && '0' <= a[0] && a[0] <= '9' {
            Some((a[0] as u32 - '0' as u32) as usize)
        } else {
            None
        },
        None => None,
    }
}

/// `r` is what the command line `s` means.
pub open spec fn parsed_as(s: Seq<char>, r: Command) -> bool {
    let w = command_word(s);
    if w == "filter"@ {
        match r {
            Command::Filter(p) => match command_arg(s) {
                Some(a) => if a.len() > 0 {
                    p matches Some(x) && x@ == a
                } else {
                    p is None
                },
                None => p is None,
            },
            _ => false,
        }
    } else if w == "neighbors"@ {
        r == Command::Neighbors(depth_arg(s))
    } else if w == "help"@ {
        r is Help
    } else if w == "subgraph"@ {
        r is Subgraph
    } else if w == "export"@ {
        r is Export
    } else if w == "xdot"@ {
        r is Xdot
    } else {
        r is NoMatch
    }
}

proof fn lemma_space_at_unique(s: Seq<char>, i: int)
    requires
        0 <= i <= s.len(),
        forall|j: int| 0 <= j < i ==> s[j] != ' ',
        i < s.len() ==> s[i] == ' ',
    ensures
        space_at(s) == i,
    decreases s.len(),
{
    if s.len() > 0 && s[0] != ' ' {
        assert forall|j: int| 0 <= j < i - 1 implies s.drop_first()[j] != ' ' by {
            assert(s[j + 1] != ' ');
        }
        lemma_space_at_unique(s.drop_first(), i - 1);
    }
}

/// The command words differ from one another.
pub proof fn lemma_words_distinct()
    ensures
        "filter"@ != "help"@,
        "filter"@ != "subgraph"@,
        "filter"@ != "export"@,
        "filter"@ != "xdot"@,
        "help"@ != "subgraph"@,
        "help"@ != "export"@,
        "help"@ != "xdot"@,
        "subgraph"@ != "export"@,
        "subgraph"@ != "xdot"@,
        "export"@ != "xdot"@,
        "neighbors"@ != "filter"@,
        "neighbors"@ != "help"@,
        "neighbors"@ != "subgraph"@,
        "neighbors"@ != "export"@,
        "neighbors"@ != "xdot"@,
{
    reveal_strlit("neighbors");
    reveal_strlit("filter");
    reveal_strlit("help");
    reveal_strlit("subgraph");
    reveal_strlit("export");
    reveal_strlit("xdot");
    assert("filter"@[0] != "export"@[0]);
    assert("help"@[0] != "xdot"@[0]);
    assert("neighbors"@[0] != "subgraph"@[0]);
    assert("neighbors"@[0] != "filter"@[0]);
}

impl Command {
    /// Reads a command line: a word, then optionally a space and an argument.
    pub fn parse(line: &String) -> (r: Command)
        ensures
            parsed_as(line@, r),
    {
        let s = line.as_str();
        let n = s.unicode_len();
        let mut i: usize = 0;
        while i < n && s.get_char(i) != ' '
            invariant
                n == s@.len(),
                s@ == line@,
                i <= n,
                forall|j: int| 0 <= j < i ==> s@[j] != ' ',
            decreases n - i,
        {
            i = i + 1;
        }
        proof {
            lemma_space_at_unique(s@, i as int);
            reveal_strlit("filter");
            reveal_strlit("neighbors");
            reveal_strlit("help");
            reveal_strlit("subgraph");
            reveal_strlit("export");
            reveal_strlit("xdot");
        }
        let word = s.substring_char(0, i);
        if same_text(word, "filter") {
            if i < n && i + 1 < n {
                let arg = s.substring_char(i + 1, n).to_owned();
                Command::Filter(Some(arg))
            } else {
                Command::Filter(None)
            }
        } else if same_text(word, "neighbors") {
            if n - i == 2 {
                let c = s.get_char(i + 1);
                if '0' <= c && c <= '9' {
                    Command::Neighbors(Some((c as u32 - '0' as u32) as usize))
                } else {
                    Command::Neighbors(None)
                }
            } else {
                Command::Neighbors(None)
            }
        } else if same_text(word, "help") {
            Command::Help
        } else if same_text(word, "subgraph") {
            Command::Subgraph
        } else if same_text(word, "export") {
            Command::Export
        } else if same_text(word, "xdot") {
            Command::Xdot
        } else {
            Command::NoMatch
        }
    }

    /// Whether the command is a recognised one.
    pub fn is_known(&self) -> (r: bool)
        ensures
            r == !(self is NoMatch),
    {
        match self {
            Command::NoMatch => false,
            _ => true,
        }
    }
}

/// The command words, for completion.
pub fn command_words() -> (r: Vec<String>)
    ensures
        r@.len() == 6,
        r@[0]@ == "filter"@,
        r@[1]@ == "help"@,
        r@[2]@ == "subgraph"@,
        r@[3]@ == "export"@,
        r@[4]@ == "xdot"@,
        r@[5]@ == "neighbors"@,
{
    let mut v: Vec<String> = Vec::new();
    v.push(String::from_str("filter"));
    v.push(String::from_str("help"));
    v.push(String::from_str("subgraph"));
    v.push(String::from_str("export"));
    v.push(String::from_str("xdot"));
    v.push(String::from_str("neighbors"));
    v
}

} // verus!
