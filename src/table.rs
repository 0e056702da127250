use vstd::prelude::*;

use crate::list::{step_back, step_forward};

verus! {

/// Rows of text under a header, with at most one selected row.
pub struct Table {
    pub state: Option<usize>,
    pub header: Vec<String>,
    pub rows: Vec<Vec<String>>,
}

/// `a` holds the text of `b`, cell by cell.
pub open spec fn same_cells(a: Seq<String>, b: Seq<&str>) -> bool {
    a.len() == b.len() && forall|j: int| 0 <= j < a.len() ==> #[trigger] a[j]@ == b[j]@
}

fn to_strings(cells: &[&str]) -> (r: Vec<String>)
    ensures
        same_cells(r@, cells@),
{
    let mut out: Vec<String> = Vec::new();
    let mut i: usize = 0;
    while i < cells.len()
        invariant
            i <= cells@.len(),
            out@.len() == i,
            forall|j: int| 0 <= j < i ==> #[trigger] out@[j]@ == cells@[j]@,
        decreases cells@.len() - i,
    {
        out.push(String::from_str(cells[i]));
        i = i + 1;
    }
    out
}

impl Table {
    /// The selected row, if any, is in range; one is selected exactly when
    /// there are rows.
    pub open spec fn wf(&self) -> bool {
        match self.state {
            Some(i) => i < self.rows@.len(),
            None => self.rows@.len() == 0,
        }
    }

    pub fn new(header: &[&str], rows: &[&[&str]]) -> (r: Table)
        ensures
            r.wf(),
            same_cells(r.header@, header@),
            r.rows@.len() == rows@.len(),
            forall|i: int| 0 <= i < rows@.len() ==> same_cells(#[trigger] r.rows@[i]@, rows@[i]@),
            r.state == (if rows@.len() == 0 { None } else { Some(0usize) }),
    {
        let h = to_strings(header);
        let mut out: Vec<Vec<String>> = Vec::new();
        let mut i: usize = 0;
        while i < rows.len()
            invariant
                i <= rows@.len(),
                out@.len() == i,
                forall|k: int| 0 <= k < i ==> same_cells(#[trigger] out@[k]@, rows@[k]@),
            decreases rows@.len() - i,
        {
            let row = to_strings(rows[i]);
            let ghost before = out@;
            out.push(row);
            assert forall|k: int| 0 <= k < i + 1 implies same_cells(#[trigger] out@[k]@, rows@[k]@) by {
                if k < i {
                    assert(out@[k] == before[k]);
                }
            }
            i = i + 1;
        }
        let state = if rows.len() == 0 { None } else { Some(0) };
        Table { state, header: h, rows: out }
    }

    pub fn next(&mut self)
        requires
            old(self).wf(),
        ensures
            final(self).wf(),
            final(self).rows == old(self).rows && final(self).header == old(self).header,
            final(self).state == step_forward(old(self).state, old(self).rows@.len()),
    {
        if self.rows.len() > 0 {
            let i: usize = match self.state {
                Some(i) => if i >= self.rows.len() - 1 { 0 } else { i + 1 },
                None => 0,
            };
            self.state = Some(i);
        }
    }

    pub fn previous(&mut self)
        requires
            old(self).wf(),
        ensures
            final(self).wf(),
            final(self).rows == old(self).rows && final(self).header == old(self).header,
            final(self).state == step_back(old(self).state, old(self).rows@.len()),
    {
        if self.rows.len() > 0 {
            let i: usize = match self.state {
                Some(i) => if i == 0 { self.rows.len() - 1 } else { i - 1 },
                None => 0,
            };
            self.state = Some(i);
        }
    }
}

} // verus!
