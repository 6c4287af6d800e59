//! The table as the statements leave it: a map from the text of an
//! identifier to the one row that is stored under it.

use crate::statement::StatementView;
use vstd::prelude::*;

verus! {

/// A row of the table, without the identifier that it is found by: the
/// RFC 3339 text of its expiry and its payload.
pub struct Row {
    pub expires: Seq<char>,
    pub data: Seq<u8>,
}

/// Whether text `a` sorts strictly before text `b`, character by character;
/// a proper prefix sorts before what it is a prefix of. This is how the
/// table compares the texts of two expiries.
pub open spec fn text_before(a: Seq<char>, b: Seq<char>) -> bool
    decreases a.len(),
{
    if b.len() == 0 {
        false
    } else if a.len() == 0 {
        true
    } else if a[0] != b[0] {
        (a[0] as u32) < (b[0] as u32)
    } else {
        text_before(a.skip(1), b.skip(1))
    }
}

impl StatementView {
    /// The table after the statement, given the table before it.
    pub open spec fn effect(self, table: Map<Seq<char>, Row>) -> Map<Seq<char>, Row> {
        match self {
            StatementView::CreateTable => table,
            StatementView::Upsert { id, expires, data } => table.insert(id, Row { expires, data }),
            StatementView::Select { .. } => table,
            StatementView::DeleteExpired { before } => Map::new(
                |id: Seq<char>| table.dom().contains(id) && !text_before(table[id].expires, before),
                |id: Seq<char>| table[id],
            ),
        }
    }

    /// The row that the statement yields: the one under the identifier that
    /// a lookup names, if the table has it.
    pub open spec fn answer(self, table: Map<Seq<char>, Row>) -> Option<Row> {
        match self {
            StatementView::Select { id } => if table.dom().contains(id) {
                Some(table[id])
            } else {
                None
            },
            _ => None,
        }
    }
}

} // verus!
