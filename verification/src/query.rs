use vstd::prelude::*;

verus! {

/// Relies on std's String::push: appends one character at the end of the
/// string.
pub assume_specification[ String::push ](s: &mut String, ch: char)
    ensures
        final(s)@ == old(s)@.push(ch),
;

/// The in-progress search term: its characters, and the cursor the edit
/// keys move.
pub struct QueryInput {
    chars: Vec<char>,
    cursor: usize,
}

impl View for QueryInput {
    type V = Seq<char>;

    closed spec fn view(&self) -> Seq<char> {
        self.chars@
    }
}

impl QueryInput {
    /// The cursor position, counted in characters from the start of the
    /// term.
    pub closed spec fn spec_cursor(&self) -> int {
        self.cursor as int
    }

    /// The cursor always sits within the term.
    pub open spec fn wf(&self) -> bool {
        0 <= self.spec_cursor() <= self@.len()
    }

    /// An empty term with the cursor at its start.
    pub fn new() -> (r: QueryInput)
        ensures
            r@ =~= Seq::<char>::empty(),
            r.spec_cursor() == 0,
            r.wf(),
    {
        QueryInput { chars: Vec::new(), cursor: 0 }
    }

    /// An independent copy of the term and its cursor.
    pub fn duplicate(&self) -> (r: QueryInput)
        ensures
            r@ =~= self@,
            r.spec_cursor() == self.spec_cursor(),
    {
        let mut chars: Vec<char> = Vec::new();
        let mut i: usize = 0;
        while i < self.chars.len()
            invariant
                i <= self.chars@.len(),
                chars@ =~= self.chars@.subrange(0, i as int),
            decreases self.chars@.len() - i,
        {
            chars.push(self.chars[i]);
            i += 1;
        }
        QueryInput { chars, cursor: self.cursor }
    }

    /// Inserts one character at the cursor and moves the cursor past it.
    pub fn insert_char(&mut self, c: char)
        requires
            old(self).wf(),
        ensures
            final(self)@ == old(self)@.insert(old(self).spec_cursor(), c),
            final(self).spec_cursor() == old(self).spec_cursor() + 1,
            final(self).wf(),
    {
        self.chars.insert(self.cursor, c);
        let n = self.chars.len();
        assert(self.cursor < n);
        self.cursor += 1;
    }

    /// Removes the character before the cursor, if there is one, and moves
    /// the cursor back over it.
    pub fn backspace(&mut self)
        requires
            old(self).wf(),
        ensures
            old(self).spec_cursor() > 0 ==> final(self)@ == old(self)@.remove(
                old(self).spec_cursor() - 1,
            ) && final(self).spec_cursor() == old(self).spec_cursor() - 1,
            old(self).spec_cursor() == 0 ==> *final(self) == *old(self),
            final(self).wf(),
    {
        if self.cursor > 0 {
            self.cursor -= 1;
            self.chars.remove(self.cursor);
        }
    }

    /// Removes the character under the cursor, if there is one; the cursor
    /// stays put.
    pub fn delete_char(&mut self)
        requires
            old(self).wf(),
        ensures
            old(self).spec_cursor() < old(self)@.len() ==> final(self)@ == old(self)@.remove(
                old(self).spec_cursor(),
            ) && final(self).spec_cursor() == old(self).spec_cursor(),
            old(self).spec_cursor() >= old(self)@.len() ==> *final(self) == *old(self),
            final(self).wf(),
    {
        if self.cursor < self.chars.len() {
            self.chars.remove(self.cursor);
        }
    }

    /// Moves the cursor one character left, stopping at the start.
    pub fn move_left(&mut self)
        requires
            old(self).wf(),
        ensures
            final(self)@ == old(self)@,
            final(self).spec_cursor() == (if old(self).spec_cursor() > 0 {
                old(self).spec_cursor() - 1
            } else {
                0
            }),
            final(self).wf(),
    {
        if self.cursor > 0 {
            self.cursor -= 1;
        }
    }

    /// Moves the cursor one character right, stopping at the end.
    pub fn move_right(&mut self)
        requires
            old(self).wf(),
        ensures
            final(self)@ == old(self)@,
            final(self).spec_cursor() == (if old(self).spec_cursor() < old(self)@.len() {
                old(self).spec_cursor() + 1
            } else {
                old(self).spec_cursor()
            }),
            final(self).wf(),
    {
        if self.cursor < self.chars.len() {
            self.cursor += 1;
        }
    }

    /// The term's characters as a string.
    pub fn value(&self) -> (r: String)
        ensures
            r@ == self@,
    {
        let mut s = String::new();
        let mut i: usize = 0;
        while i < self.chars.len()
            invariant
                i <= self.chars@.len(),
                s@ =~= self.chars@.subrange(0, i as int),
            decreases self.chars@.len() - i,
        {
            s.push(self.chars[i]);
            i += 1;
        }
        assert(s@ =~= self.chars@);
        s
    }
}

} // verus!
