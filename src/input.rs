use vstd::prelude::*;

use crate::text::char_string;

verus! {

/// The text being edited in Command and Search mode, with a cursor given
/// as a character offset.
pub struct Input {
    pub key: String,
    pub cursor: usize,
}

/// What inserting `c` does, from `o` to `n`.
pub open spec fn insert_post(o: Input, n: Input, c: char) -> bool {
    &&& n.key@ == o.key@.subrange(0, o.cursor as int).push(c) + o.key@.subrange(o.cursor as int, o.key@.len() as int)
    &&& n.cursor == o.cursor + 1
}

/// What deleting before the cursor does, from `o` to `n`.
pub open spec fn delete_post(o: Input, n: Input) -> bool {
    &&& o.cursor == 0 ==> n == o
    &&& o.cursor > 0 ==> n.key@ == o.key@.remove(o.cursor - 1) && n.cursor == o.cursor - 1
}

impl Input {
    pub open spec fn wf(&self) -> bool {
        self.cursor <= self.key@.len()
    }

    pub fn new() -> (r: Input)
        ensures
            r.wf(),
            r.key@.len() == 0,
            r.cursor == 0,
    {
        Input { key: String::new(), cursor: 0 }
    }

    pub fn clear(&mut self)
        ensures
            final(self).wf(),
            final(self).key@.len() == 0,
            final(self).cursor == 0,
    {
        self.key = String::new();
        self.cursor = 0;
    }

    /// Replaces the text; the cursor goes to its end.
    pub fn set(&mut self, key: String)
        ensures
            final(self).wf(),
            final(self).key@ == key@,
            final(self).cursor == key@.len(),
    {
        self.cursor = key.as_str().unicode_len();
        self.key = key;
    }

    /// Inserts `c` at the cursor and moves the cursor past it.
    pub fn insert(&mut self, c: char)
        requires
            old(self).wf(),
            old(self).key@.len() < usize::MAX,
        ensures
            final(self).wf(),
            insert_post(*old(self), *final(self), c),
    {
        let n = self.key.as_str().unicode_len();
        let front = self.key.as_str().substring_char(0, self.cursor).to_owned();
        let back = self.key.as_str().substring_char(self.cursor, n);
        let ch = char_string(c);
        let key = front.concat(ch.as_str()).concat(back);
        let ghost o = *old(self);
        assert(key@ =~= o.key@.subrange(0, o.cursor as int).push(c) + o.key@.subrange(o.cursor as int, o.key@.len() as int));
        self.key = key;
        self.cursor = self.cursor + 1;
    }

    /// Removes the character before the cursor, if any.
    pub fn delete(&mut self)
        requires
            old(self).wf(),
        ensures
            final(self).wf(),
            delete_post(*old(self), *final(self)),
    {
        if self.cursor > 0 {
            let n = self.key.as_str().unicode_len();
            let front = self.key.as_str().substring_char(0, self.cursor - 1).to_owned();
            let back = self.key.as_str().substring_char(self.cursor, n);
            let key = front.concat(back);
            assert(key@ =~= self.key@.remove(self.cursor - 1));
            self.key = key;
            self.cursor = self.cursor - 1;
        }
    }

    /// Moves the cursor one character right, up to the end.
    pub fn front(&mut self)
        requires
            old(self).wf(),
        ensures
            final(self).wf(),
            final(self).key == old(self).key,
            final(self).cursor == (if old(self).cursor < old(self).key@.len() {
                old(self).cursor + 1
            } else {
                old(self).cursor as int
            }),
    {
        if self.cursor < self.key.as_str().unicode_len() {
            self.cursor = self.cursor + 1;
        }
    }

    /// Moves the cursor one character left, down to the start.
    pub fn back(&mut self)
        requires
            old(self).wf(),
        ensures
            final(self).wf(),
            final(self).key == old(self).key,
            final(self).cursor == (if old(self).cursor > 0 {
                old(self).cursor - 1
            } else {
                0
            }),
    {
        if self.cursor > 0 {
            self.cursor = self.cursor - 1;
        }
    }
}

} // verus!
