//! Walking the lines of a table.

use super::{Entry, Modules};
use crate::range::ByteRange;
use vstd::prelude::*;

verus! {

/// A walk over the lines of a table, each handed out once.
pub struct Iter<'a> {
    entries: &'a Vec<Entry>,
    position: usize,
}

impl<'a> View for Iter<'a> {
    type V = Seq<(Seq<u8>, ByteRange)>;

    /// The lines that are still to come, in order.
    closed spec fn view(&self) -> Seq<(Seq<u8>, ByteRange)> {
        Seq::new(
            if self.position <= self.entries.len() {
                (self.entries.len() - self.position) as nat
            } else {
                0
            },
            |i: int| (self.entries[self.position + i].name@, self.entries[self.position + i].range),
        )
    }
}

impl<'a> Iter<'a> {
    /// A walk that starts at the first line of `table`.
    pub fn new(table: &'a Modules) -> (iter: Iter<'a>)
        ensures
            iter@ == table.lines(),
    {
        let iter = Iter { entries: &table.entries, position: 0 };
        assert(iter@ =~= table.lines());
        iter
    }

    /// The next line, its name and its range, or `None` when every line has
    /// been handed out.
    pub fn next(&mut self) -> (r: Option<(&'a [u8], ByteRange)>)
        ensures
            match r {
                Some((name, range)) => {
                    &&& old(self)@.len() > 0
                    &&& (name@, range) == old(self)@[0]
                    &&& final(self)@ == old(self)@.drop_first()
                },
                None => old(self)@.len() == 0 && final(self)@ == old(self)@,
            },
    {
        let entries: &'a Vec<Entry> = self.entries;
        if self.position < entries.len() {
            let entry: &'a Entry = &entries[self.position];
            let ghost before = self@;
            self.position = self.position + 1;
            assert(self@ =~= before.drop_first());
            Some((entry.name.as_slice(), entry.range))
        } else {
            None
        }
    }
}

} // verus!
