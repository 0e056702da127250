use vstd::prelude::*;

verus! {

/// Index reached by one forward step over a list of `n` items.
pub open spec fn step_forward(sel: Option<usize>, n: nat) -> Option<usize> {
    if n == 0 {
        sel
    } else {
        match sel {
            Some(i) => if i + 1 >= n { Some(0usize) } else { Some((i + 1) as usize) },
            None => Some(0usize),
        }
    }
}

/// Index reached by one backward step over a list of `n` items.
pub open spec fn step_back(sel: Option<usize>, n: nat) -> Option<usize> {
    if n == 0 {
        sel
    } else {
        match sel {
            Some(i) => if i == 0 { Some((n - 1) as usize) } else { Some((i - 1) as usize) },
            None => Some(0usize),
        }
    }
}

/// A vertical movement within a list.
#[derive(Debug, Clone, Copy, PartialEq, Eq)]
pub enum Move {
    Up,
    Down,
    First,
    Last,
}

/// Selection after `mv` over a list of `n` items.
pub open spec fn moved(mv: Move, sel: Option<usize>, n: nat) -> Option<usize> {
    match mv {
        Move::Up => step_back(sel, n),
        Move::Down => step_forward(sel, n),
        Move::First => if n == 0 { sel } else { Some(0usize) },
        Move::Last => if n == 0 { sel } else { Some((n - 1) as usize) },
    }
}

/// An ordered sequence with at most one selected position.
pub struct List<T> {
    pub state: Option<usize>,
    pub items: Vec<T>,
}

impl<T> List<T> {
    /// A position is selected exactly when the list is non-empty, and it is
    /// always in range.
    pub open spec fn wf(&self) -> bool {
        match self.state {
            Some(i) => i < self.items.len(),
            None => self.items.len() == 0,
        }
    }

    pub fn with_items(items: Vec<T>) -> (r: Self)
        ensures
            r.wf(),
            r.items@ == items@,
            r.state == (if items@.len() == 0 { None } else { Some(0usize) }),
    {
        let state = if items.len() == 0 { None } else { Some(0) };
        List { state, items }
    }

    pub fn next(&mut self)
        requires
            old(self).wf(),
        ensures
            final(self).wf(),
            final(self).items == old(self).items,
            final(self).state == step_forward(old(self).state, old(self).items@.len()),
    {
        if self.items.len() > 0 {
            let i: usize = match self.state {
                Some(i) => if i >= self.items.len() - 1 { 0 } else { i + 1 },
                None => 0,
            };
            self.state = Some(i);
        }
    }

    pub fn previous(&mut self)
        requires
            old(self).wf(),
        ensures
            final(self).wf(),
            final(self).items == old(self).items,
            final(self).state == step_back(old(self).state, old(self).items@.len()),
    {
        if self.items.len() > 0 {
            let i: usize = match self.state {
                Some(i) => if i == 0 { self.items.len() - 1 } else { i - 1 },
                None => 0,
            };
            self.state = Some(i);
        }
    }

    pub fn select(&mut self, idx: usize)
        requires
            old(self).wf(),
        ensures
            final(self).wf(),
            final(self).items == old(self).items,
            final(self).state == (if idx < old(self).items@.len() {
                Some(idx)
            } else {
                old(self).state
            }),
    {
        if idx < self.items.len() {
            self.state = Some(idx);
        }
    }

    pub fn first(&mut self)
        requires
            old(self).wf(),
        ensures
            final(self).wf(),
            final(self).items == old(self).items,
            final(self).state == (if old(self).items@.len() == 0 {
                None
            } else {
                Some(0usize)
            }),
    {
        if self.items.len() > 0 {
            self.state = Some(0);
        }
    }

    pub fn last(&mut self)
        requires
            old(self).wf(),
        ensures
            final(self).wf(),
            final(self).items == old(self).items,
            final(self).state == (if old(self).items@.len() == 0 {
                None
            } else {
                Some((old(self).items@.len() - 1) as usize)
            }),
    {
        if self.items.len() > 0 {
            self.state = Some(self.items.len() - 1);
        }
    }

    /// Applies one vertical movement.
    pub fn move_by(&mut self, mv: Move)
        requires
            old(self).wf(),
        ensures
            final(self).wf(),
            final(self).items == old(self).items,
            final(self).state == moved(mv, old(self).state, old(self).items@.len()),
    {
        match mv {
            Move::Up => self.previous(),
            Move::Down => self.next(),
            Move::First => self.first(),
            Move::Last => self.last(),
        }
    }

    /// The selected item, if any.
    pub fn selected(&self) -> (r: Option<&T>)
        requires
            self.wf(),
        ensures
            match self.state {
                Some(i) => r == Some(&self.items@[i as int]),
                None => r.is_none(),
            },
    {
        match self.state {
            Some(i) => Some(&self.items[i]),
            None => None,
        }
    }
}

impl List<String> {
    /// Position of the first item equal to `key`.
    pub fn find(&self, key: &String) -> (r: Option<usize>)
        ensures
            match r {
                Some(i) => i < self.items@.len() && self.items@[i as int]@ == key@ && forall|
                    j: int,
                | 0 <= j < i ==> self.items@[j]@ != key@,
                None => forall|j: int| 0 <= j < self.items@.len() ==> self.items@[j]@ != key@,
            },
    {
        let mut k: usize = 0;
        while k < self.items.len()
            invariant
                k <= self.items@.len(),
                forall|j: int| 0 <= j < k ==> self.items@[j]@ != key@,
            decreases self.items@.len() - k,
        {
            if self.items[k] == *key {
                return Some(k);
            }
            k = k + 1;
        }
        None
    }
}

/// One step forward then one step back leaves the selection where it was,
/// and so does the reverse; on an empty list nothing is ever selected.
pub proof fn lemma_step_round_trip<T>(l: List<T>)
    requires
        l.wf(),
    ensures
        step_back(step_forward(l.state, l.items@.len()), l.items@.len()) == l.state,
        step_forward(step_back(l.state, l.items@.len()), l.items@.len()) == l.state,
        l.items@.len() == 1 ==> step_forward(l.state, 1) == l.state && step_back(l.state, 1)
            == l.state,
        l.items@.len() == 0 ==> step_forward(l.state, 0).is_none() && step_back(l.state, 0).is_none(),
{
}

} // verus!
