//! The in-memory table: rows in the order they were inserted.

use vstd::prelude::*;
use crate::row::Schema;

verus! {

/// The field values of a row: id, username and email in fixed-width form.
pub type RowView = (u8, Seq<char>, Seq<char>);

/// An ordered, append-only collection of rows.
#[derive(Debug)]
pub struct Table {
    rows: Vec<Schema>,
}

impl View for Table {
    type V = Seq<RowView>;

    closed spec fn view(&self) -> Seq<RowView> {
        self.rows@.map_values(|r: Schema| r@)
    }
}

impl Table {
    /// An empty table.
    pub fn new() -> (t: Table)
        ensures
            t@ == Seq::<RowView>::empty(),
    {
        let t = Table { rows: Vec::new() };
        assert(t@ =~= Seq::<RowView>::empty());
        t
    }

    /// Appends `row` after the rows already stored.
    pub fn insert(&mut self, row: Schema)
        ensures
            final(self)@ == old(self)@.push(row@),
    {
        self.rows.push(row);
        assert(self@ =~= old(self)@.push(row@));
    }

    /// All rows, in insertion order.
    pub fn select_all(&self) -> (r: &[Schema])
        ensures
            r@.map_values(|x: Schema| x@) == self@,
    {
        self.rows.as_slice()
    }

    /// The number of rows.
    pub fn len(&self) -> (n: usize)
        ensures
            n == self@.len(),
    {
        self.rows.len()
    }
}

} // verus!
