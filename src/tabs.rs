use vstd::prelude::*;

use crate::error::DotViewerError;

verus! {

/// An ordered, never empty stack of tabs with one active position. The
/// first tab is the root and cannot be closed.
pub struct Tabs<T> {
    pub state: usize,
    pub tabs: Vec<T>,
}

impl<T> Tabs<T> {
    pub open spec fn wf(&self) -> bool {
        self.state < self.tabs@.len()
    }

    pub fn with_tabs(tabs: Vec<T>) -> (r: Result<Self, DotViewerError>)
        ensures
            tabs@.len() == 0 <==> r is Err,
            r is Err ==> r == Err::<Self, DotViewerError>(DotViewerError::TabBoundary),
            r matches Ok(t) ==> t.wf() && t.state == 0 && t.tabs@ == tabs@,
    {
        if tabs.len() == 0 {
            return Err(DotViewerError::TabBoundary);
        }
        Ok(Tabs { state: 0, tabs })
    }

    pub fn next(&mut self)
        requires
            old(self).wf(),
        ensures
            final(self).wf(),
            final(self).tabs@ == old(self).tabs@,
            final(self).state == (if old(self).state + 1 < old(self).tabs@.len() {
                (old(self).state + 1) as usize
            } else {
                0usize
            }),
    {
        self.state = if self.state < self.tabs.len() - 1 { self.state + 1 } else { 0 };
    }

    pub fn previous(&mut self)
        requires
            old(self).wf(),
        ensures
            final(self).wf(),
            final(self).tabs@ == old(self).tabs@,
            final(self).state == (if old(self).state == 0 {
                (old(self).tabs@.len() - 1) as usize
            } else {
                (old(self).state - 1) as usize
            }),
    {
        self.state = if self.state == 0 { self.tabs.len() - 1 } else { self.state - 1 };
    }

    /// Pushes `tab` and makes it the active one.
    pub fn open(&mut self, tab: T)
        requires
            old(self).wf(),
            old(self).tabs@.len() < usize::MAX,
        ensures
            final(self).wf(),
            final(self).tabs@ == old(self).tabs@.push(tab),
            final(self).state == old(self).tabs@.len(),
    {
        self.tabs.push(tab);
        self.state = self.tabs.len() - 1;
    }

    /// Removes the active tab; the tab before it becomes active. The root
    /// tab is protected.
    pub fn close(&mut self) -> (r: Result<(), DotViewerError>)
        requires
            old(self).wf(),
        ensures
            final(self).wf(),
            old(self).state == 0 <==> r is Err,
            r is Err ==> r == Err::<(), DotViewerError>(DotViewerError::TabBoundary)
                && *final(self) == *old(self),
            r is Ok ==> final(self).tabs@ == old(self).tabs@.remove(old(self).state as int)
                && final(self).state == old(self).state - 1
                && final(self).tabs@[final(self).state as int] == old(self).tabs@[old(
                self).state - 1],
    {
        if self.state == 0 {
            return Err(DotViewerError::TabBoundary);
        }
        self.tabs.remove(self.state);
        self.state = self.state - 1;
        Ok(())
    }

    pub fn select(&mut self, state: usize)
        requires
            old(self).wf(),
        ensures
            final(self).wf(),
            final(self).tabs@ == old(self).tabs@,
            final(self).state == (if state < old(self).tabs@.len() {
                state
            } else {
                old(self).state
            }),
    {
        if state < self.tabs.len() {
            self.state = state;
        }
    }

    /// The active tab, for reading.
    pub fn current(&self) -> (r: &T)
        requires
            self.wf(),
        ensures
            *r == self.tabs@[self.state as int],
    {
        &self.tabs[self.state]
    }

    /// The active tab, for changing in place.
    pub fn selected(&mut self) -> (r: &mut T)
        requires
            old(self).wf(),
        ensures
            *r == old(self).tabs@[old(self).state as int],
            final(self).state == old(self).state,
            final(self).tabs@ == old(self).tabs@.update(old(self).state as int, *final(r)),
    {
        &mut self.tabs[self.state]
    }
}

} // verus!
