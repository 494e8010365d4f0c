//! A single-pass cursor over the characters of one line.

use vstd::prelude::*;

use crate::grammar::char_at;

verus! {

/// The characters of a line and how many of them have been consumed.
pub struct Stream {
    chars: Vec<char>,
    pos: usize,
}

impl Stream {
    /// The characters of the line.
    pub closed spec fn text(&self) -> Seq<char> {
        self.chars@
    }

    /// How many characters have been consumed.
    pub closed spec fn cursor(&self) -> int {
        self.pos as int
    }

    pub open spec fn wf(&self) -> bool {
        0 <= self.cursor() <= self.text().len() <= usize::MAX
    }

    pub fn new(line: &str) -> (r: Stream)
        ensures
            r.text() == line@,
            r.cursor() == 0,
            r.wf(),
    {
        let n = line.unicode_len();
        let mut chars: Vec<char> = Vec::new();
        let mut i: usize = 0;
        while i < n
            invariant
                n == line@.len(),
                i <= n,
                chars@ == line@.subrange(0, i as int),
            decreases n - i,
        {
            chars.push(line.get_char(i));
            i = i + 1;
        }
        assert(chars@ =~= line@);
        Stream { chars, pos: 0 }
    }

    /// The next character, without consuming it.
    pub fn peek(&self) -> (r: Option<char>)
        requires
            self.wf(),
        ensures
            r == char_at(self.text(), self.cursor()),
    {
        if self.pos < self.chars.len() {
            Some(self.chars[self.pos])
        } else {
            None
        }
    }

    /// Consumes and returns the next character, if any.
    pub fn next(&mut self) -> (r: Option<char>)
        requires
            old(self).wf(),
        ensures
            r == char_at(old(self).text(), old(self).cursor()),
            final(self).text() == old(self).text(),
            final(self).wf(),
            final(self).cursor() == if old(self).cursor() < old(self).text().len() {
                old(self).cursor() + 1
            } else {
                old(self).cursor()
            },
    {
        if self.pos < self.chars.len() {
            let c = self.chars[self.pos];
            self.pos = self.pos + 1;
            Some(c)
        } else {
            None
        }
    }

    /// Consumes the rest of the line.
    pub fn skip_rest(&mut self)
        requires
            old(self).wf(),
        ensures
            final(self).text() == old(self).text(),
            final(self).wf(),
            final(self).cursor() == old(self).text().len(),
    {
        self.pos = self.chars.len();
    }

    /// How many characters have been consumed since the stream was made.
    pub fn taken(&self) -> (r: usize)
        requires
            self.wf(),
        ensures
            r == self.cursor(),
    {
        self.pos
    }
}

} // verus!
