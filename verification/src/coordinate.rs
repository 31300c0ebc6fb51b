//! Positions in the circuit grid.

use vstd::prelude::*;
use crate::text::{decimal, push_decimal};

verus! {

/// Position in the circuit grid: a qubit row and a time-slice column.
#[derive(Clone, Copy, PartialEq, Eq, Hash, Structural)]
pub struct Coordinate {
    pub row: usize,
    pub column: usize,
}

/// The debug rendering of a coordinate: `Coord(<row>, <column>)`.
pub open spec fn coordinate_text(row: nat, column: nat) -> Seq<char> {
    seq!['C', 'o', 'o', 'r', 'd', '('] + decimal(row) + seq![',', ' '] + decimal(column) + seq![')']
}

impl Coordinate {
    /// The debug rendering of this coordinate, e.g. `Coord(2, 7)`.
    pub fn debug_string(&self) -> (text: String)
        ensures
            text@ == coordinate_text(self.row as nat, self.column as nat),
    {
        let mut text = String::from_str("Coord(");
        proof {
            reveal_strlit("Coord(");
        }
        push_decimal(&mut text, self.row);
        text.append(", ");
        proof {
            reveal_strlit(", ");
        }
        push_decimal(&mut text, self.column);
        text.append(")");
        proof {
            reveal_strlit(")");
        }
        assert(text@ =~= coordinate_text(self.row as nat, self.column as nat));
        text
    }
}

} // verus!
