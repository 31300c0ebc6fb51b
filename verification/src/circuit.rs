//! The circuit model: grid dimensions, the gates placed on it, the selected
//! gate and the last cell clicked.

use vstd::prelude::*;
use crate::coordinate::Coordinate;
use crate::gate::Gate;
use crate::gate_id::{GateId, GateIdCounter};
use crate::gate_type::GateType;

verus! {

/// The index of the first gate of `gates` that satisfies `p`, if any.
pub open spec fn find_first(gates: Seq<Gate>, p: spec_fn(Gate) -> bool) -> Option<int>
    decreases gates.len(),
{
    if gates.len() == 0 {
        None
    } else {
        match find_first(gates.drop_last(), p) {
            Some(i) => Some(i),
            None => if p(gates.last()) { Some(gates.len() - 1) } else { None },
        }
    }
}

/// `find_first` finds the first match, and finds nothing only where
/// nothing matches.
pub proof fn lemma_find_first(gates: Seq<Gate>, p: spec_fn(Gate) -> bool)
    ensures
        match find_first(gates, p) {
            Some(i) => 0 <= i < gates.len() && p(gates[i]) && forall|j: int|
                0 <= j < i ==> !p(#[trigger] gates[j]),
            None => forall|j: int| 0 <= j < gates.len() ==> !p(#[trigger] gates[j]),
        },
    decreases gates.len(),
{
    if gates.len() > 0 {
        let rest = gates.drop_last();
        lemma_find_first(rest, p);
        assert forall|j: int| 0 <= j < rest.len() implies rest[j] == gates[j] by {}
    }
}

/// A match at `i` with no match before it is what `find_first` finds.
pub proof fn lemma_find_first_at(gates: Seq<Gate>, p: spec_fn(Gate) -> bool, i: int)
    requires
        0 <= i < gates.len(),
        p(gates[i]),
        forall|j: int| 0 <= j < i ==> !p(#[trigger] gates[j]),
    ensures
        find_first(gates, p) == Some(i),
{
    lemma_find_first(gates, p);
    match find_first(gates, p) {
        Some(k) => {
            if k < i {
                assert(!p(gates[k]));
            } else if k > i {
                assert(!p(gates[i]));
            }
        },
        None => {
            assert(!p(gates[i]));
        },
    }
}

/// Whether a gate stands at `c`.
pub open spec fn stands_at(c: Coordinate) -> spec_fn(Gate) -> bool {
    |g: Gate| g.spec_coordinate() == c
}

/// Whether a gate has identity `id`.
pub open spec fn has_id(id: GateId) -> spec_fn(Gate) -> bool {
    |g: Gate| g.spec_id() == id
}

/// The index of the first gate standing at `c`, if any.
pub open spec fn index_at(gates: Seq<Gate>, c: Coordinate) -> Option<int> {
    find_first(gates, stands_at(c))
}

/// The index of the first gate with identity `id`, if any.
pub open spec fn index_of_id(gates: Seq<Gate>, id: GateId) -> Option<int> {
    find_first(gates, has_id(id))
}

/// The row count after one more row is asked for: one more, up to ten.
pub open spec fn rows_after_increase(rows: usize) -> usize {
    if rows < 10 { (rows + 1) as usize } else { rows }
}

/// The row count after one row fewer is asked for: one fewer, down to one.
pub open spec fn rows_after_decrease(rows: usize) -> usize {
    if rows > 1 { (rows - 1) as usize } else { rows }
}

/// Stepping the row count keeps it between one and ten once it is there,
/// and a step down undoes a step up (and the other way round) away from the
/// ends of that range.
pub proof fn lemma_row_steps(rows: usize)
    ensures
        1 <= rows <= 10 ==> 1 <= rows_after_increase(rows) <= 10,
        1 <= rows <= 10 ==> 1 <= rows_after_decrease(rows) <= 10,
        1 <= rows < 10 ==> rows_after_decrease(rows_after_increase(rows)) == rows,
        1 < rows <= 10 ==> rows_after_increase(rows_after_decrease(rows)) == rows,
{
}

/// One step of the row count moves it by exactly one row while it stays
/// within one to ten rows, and leaves it alone at the ends: an increase from
/// below ten adds one row and from ten or more adds none; a decrease from
/// above one removes one row and from one or fewer removes none.
pub proof fn lemma_row_step_sizes(rows: usize)
    ensures
        rows < 10 ==> rows_after_increase(rows) == rows + 1,
        rows >= 10 ==> rows_after_increase(rows) == rows,
        rows > 1 ==> rows_after_decrease(rows) == rows - 1,
        rows <= 1 ==> rows_after_decrease(rows) == rows,
{
}

/// Removing a gate at a cell undoes placing it on that free cell: with no
/// gate at `c` in `gates`, a gate appended at `c` is the one found there,
/// and taking it out gives `gates` back.
pub proof fn lemma_remove_undoes_add(gates: Seq<Gate>, g: Gate, c: Coordinate)
    requires
        index_at(gates, c) is None,
        g.spec_coordinate() == c,
    ensures
        index_at(gates.push(g), c) == Some(gates.len() as int),
        gates.push(g).remove(gates.len() as int) == gates,
{
    lemma_find_first(gates, stands_at(c));
    let after = gates.push(g);
    assert forall|j: int| 0 <= j < gates.len() implies !stands_at(c)(#[trigger] after[j]) by {
        assert(after[j] == gates[j]);
    }
    lemma_find_first_at(after, stands_at(c), gates.len() as int);
    assert(after.remove(gates.len() as int) =~= gates);
}

/// What a grid cell shows: the identity of any gate standing there and
/// whether it is the selected one, or an empty cell at its coordinate.
#[derive(Clone, Copy, PartialEq, Eq, Structural)]
pub enum GridCell {
    Gate { id: GateId, selected: bool },
    Empty { coordinate: Coordinate },
}

/// The circuit model: grid dimensions, the gates on the grid, the selected
/// gate and the last cell clicked.
pub struct Circuit {
    /// The number of qubit rows (`spec_rows` in contracts); `set_rows`,
    /// `increase_rows` and `decrease_rows` change it under a contract, a
    /// direct write under none.
    pub rows: usize,
    /// The number of time-slice columns (`spec_cols` in contracts).
    pub cols: usize,
    gates: Vec<Gate>,
    /// The selected gate's identity (`spec_selected` in contracts);
    /// `select_gate` and `deselect_gate` change it under a contract, a direct
    /// write under none.
    pub selected_gate: Option<GateId>,
    /// The last cell clicked (`spec_last_clicked` in contracts).
    pub last_clicked: Option<Coordinate>,
    ids: GateIdCounter,
}

impl Circuit {
    /// Its gates, in the order they were placed.
    pub closed spec fn spec_gates(self) -> Seq<Gate> {
        self.gates@
    }

    /// The number of qubit rows.
    pub closed spec fn spec_rows(self) -> usize {
        self.rows
    }

    /// The number of time-slice columns.
    pub closed spec fn spec_cols(self) -> usize {
        self.cols
    }

    /// The cell last clicked to place a gate, if recorded.
    pub closed spec fn spec_last_clicked(self) -> Option<Coordinate> {
        self.last_clicked
    }

    /// The selected gate's identity, if any.
    pub closed spec fn spec_selected(self) -> Option<GateId> {
        self.selected_gate
    }

    /// The number the next new gate's identity will carry.
    pub closed spec fn spec_next_id(self) -> u64 {
        self.ids.spec_next()
    }

    /// Every gate acts on a qubit, and no two gates stand on the same cell.
    pub open spec fn wf(self) -> bool {
        &&& forall|i: int| 0 <= i < self.spec_gates().len() ==> (#[trigger] self.spec_gates()[i]).wf()
        &&& forall|i: int, j: int|
            0 <= i < self.spec_gates().len() && 0 <= j < self.spec_gates().len() && i != j
                ==> (#[trigger] self.spec_gates()[i]).spec_coordinate()
                != (#[trigger] self.spec_gates()[j]).spec_coordinate()
    }

    /// Every gate's identity lies below the number the counter hands out next.
    pub open spec fn ids_fresh(self) -> bool {
        forall|i: int| 0 <= i < self.spec_gates().len()
            ==> (#[trigger] self.spec_gates()[i]).spec_id().spec_value() < self.spec_next_id()
    }

    /// No two gates share an identity.
    pub open spec fn ids_distinct(self) -> bool {
        forall|i: int, j: int|
            0 <= i < self.spec_gates().len() && 0 <= j < self.spec_gates().len() && i != j
                ==> (#[trigger] self.spec_gates()[i]).spec_id() != (#[trigger] self.spec_gates()[j]).spec_id()
    }

    /// Whether some gate stands at `c`.
    pub open spec fn has_gate_at(self, c: Coordinate) -> bool {
        index_at(self.spec_gates(), c) is Some
    }

    /// The identity of a gate standing at `c`, if any.
    pub open spec fn spec_gate_at(self, c: Coordinate) -> Option<GateId> {
        match index_at(self.spec_gates(), c) {
            Some(i) => Some(self.spec_gates()[i].spec_id()),
            None => None,
        }
    }

    /// What the cell at `row`, `column` shows.
    pub open spec fn spec_cell(self, row: usize, column: usize) -> GridCell {
        let c = Coordinate { row, column };
        match self.spec_gate_at(c) {
            Some(id) => GridCell::Gate { id, selected: self.spec_selected() == Some(id) },
            None => GridCell::Empty { coordinate: c },
        }
    }

    /// An empty circuit of `rows` qubits and `columns` time slices, with no
    /// selection and no click recorded; gate identities start at `0`.
    pub fn new(rows: usize, columns: usize) -> (circuit: Circuit)
        ensures
            circuit.wf(),
            circuit.ids_fresh(),
            circuit.ids_distinct(),
            circuit.spec_rows() == rows,
            circuit.spec_cols() == columns,
            circuit.spec_gates() == Seq::<Gate>::empty(),
            circuit.spec_selected() is None,
            circuit.spec_last_clicked() is None,
            circuit.spec_next_id() == 0,
    {
        Circuit {
            rows,
            cols: columns,
            gates: Vec::new(),
            selected_gate: None,
            last_clicked: None,
            ids: GateIdCounter::new(),
        }
    }

    /// The position in `gates` of the first gate standing at `c`.
    fn position_at(&self, c: &Coordinate) -> (r: Option<usize>)
        requires
            self.wf(),
        ensures
            match r {
                Some(i) => i < self.spec_gates().len() && index_at(self.spec_gates(), *c) == Some(i as int),
                None => index_at(self.spec_gates(), *c) is None,
            },
    {
        let mut i: usize = 0;
        while i < self.gates.len()
            invariant
                self.wf(),
                i <= self.gates.len(),
                forall|j: int| 0 <= j < i ==> !stands_at(*c)(#[trigger] self.gates@[j]),
            decreases self.gates.len() - i,
        {
            assert(self.gates@[i as int].wf());
            let here = self.gates[i].coordinate();
            if here == *c {
                proof {
                    lemma_find_first_at(self.gates@, stands_at(*c), i as int);
                }
                return Some(i);
            }
            i = i + 1;
        }
        proof {
            lemma_find_first(self.gates@, stands_at(*c));
            if let Some(k) = index_at(self.gates@, *c) {
                assert(!stands_at(*c)(self.gates@[k]));
            }
        }
        None
    }

    /// The position in `gates` of the first gate with identity `id`.
    fn position_of(&self, id: GateId) -> (r: Option<usize>)
        ensures
            match r {
                Some(i) => i < self.spec_gates().len() && index_of_id(self.spec_gates(), id) == Some(i as int),
                None => index_of_id(self.spec_gates(), id) is None,
            },
    {
        let mut i: usize = 0;
        while i < self.gates.len()
            invariant
                i <= self.gates.len(),
                forall|j: int| 0 <= j < i ==> !has_id(id)(#[trigger] self.gates@[j]),
            decreases self.gates.len() - i,
        {
            if self.gates[i].id() == id {
                proof {
                    lemma_find_first_at(self.gates@, has_id(id), i as int);
                }
                return Some(i);
            }
            i = i + 1;
        }
        proof {
            lemma_find_first(self.gates@, has_id(id));
            if let Some(k) = index_of_id(self.gates@, id) {
                assert(!has_id(id)(self.gates@[k]));
            }
        }
        None
    }

    /// The identity of a gate standing at `coordinate`, if any.
    pub fn get_gate_at_coordinate(&self, coordinate: &Coordinate) -> (r: Option<GateId>)
        requires
            self.wf(),
        ensures
            r == self.spec_gate_at(*coordinate),
    {
        match self.position_at(coordinate) {
            Some(i) => Some(self.gates[i].id()),
            None => None,
        }
    }

    /// The first gate with identity `id`, if any.
    pub fn get_gate(&self, id: GateId) -> (r: Option<&Gate>)
        ensures
            match index_of_id(self.spec_gates(), id) {
                Some(i) => 0 <= i < self.spec_gates().len() && r == Some(&self.spec_gates()[i]),
                None => r is None,
            },
    {
        match self.position_of(id) {
            Some(i) => Some(&self.gates[i]),
            None => None,
        }
    }

    /// Places a new single-qubit gate, labelled `U`, on the free cell
    /// `coordinate` and records the cell as the last one clicked; the new
    /// gate's identity is the next one the circuit hands out. Where a gate
    /// already stands at `coordinate`, nothing changes.
    pub fn add_gate(&mut self, coordinate: Coordinate)
        requires
            old(self).wf(),
        ensures
            final(self).wf(),
            final(self).spec_rows() == old(self).spec_rows(),
            final(self).spec_cols() == old(self).spec_cols(),
            final(self).spec_selected() == old(self).spec_selected(),
            old(self).has_gate_at(coordinate) ==> {
                &&& final(self).spec_gates() == old(self).spec_gates()
                &&& final(self).spec_last_clicked() == old(self).spec_last_clicked()
                &&& final(self).spec_next_id() == old(self).spec_next_id()
            },
            !old(self).has_gate_at(coordinate) ==> {
                let g = final(self).spec_gates().last();
                &&& final(self).spec_gates() == old(self).spec_gates().push(g)
                &&& g.spec_id().spec_value() == old(self).spec_next_id()
                &&& g.spec_gate_type() == GateType::SingleQubit
                &&& g.spec_coordinate() == coordinate
                &&& g.spec_qubits() == seq![coordinate.row]
                &&& g.spec_label() == Some(seq!['U'])
                &&& !g.spec_render_latex()
                &&& final(self).spec_last_clicked() == Some(coordinate)
                &&& final(self).spec_gate_at(coordinate) == Some(g.spec_id())
                &&& final(self).spec_next_id() == (if old(self).spec_next_id() == u64::MAX {
                    0
                } else {
                    (old(self).spec_next_id() + 1) as u64
                })
            },
            final(self).spec_gate_at(coordinate) is Some,
            old(self).ids_fresh() && old(self).spec_next_id() < u64::MAX ==> final(self).ids_fresh(),
            old(self).ids_fresh() && old(self).ids_distinct() && old(self).spec_next_id() < u64::MAX
                ==> final(self).ids_distinct(),
    {
        if self.position_at(&coordinate).is_some() {
            return;
        }
        proof {
            lemma_find_first(self.gates@, stands_at(coordinate));
        }
        let ghost before = self.gates@;
        let gate = Gate::new(GateType::SingleQubit, coordinate, &mut self.ids);
        self.gates.push(gate);
        self.last_clicked = Some(coordinate);
        proof {
            let after = self.gates@;
            assert(after == before.push(gate));
            assert forall|i: int| 0 <= i < after.len() implies (#[trigger] after[i]).wf() by {
                if i < before.len() {
                    assert(after[i] == before[i]);
                }
            }
            assert forall|i: int, j: int|
                0 <= i < after.len() && 0 <= j < after.len() && i != j
                    implies (#[trigger] after[i]).spec_coordinate() != (#[trigger] after[j]).spec_coordinate() by {
                if i < before.len() && j < before.len() {
                    assert(after[i] == before[i] && after[j] == before[j]);
                } else if i < before.len() {
                    assert(!stands_at(coordinate)(before[i]));
                } else {
                    assert(!stands_at(coordinate)(before[j]));
                }
            }
            lemma_find_first_at(after, stands_at(coordinate), before.len() as int);
        }
    }

    /// Takes a gate standing at `coordinate` off the grid, if there is one,
    /// and forgets the last click.
    pub fn remove_gate(&mut self, coordinate: &Coordinate)
        requires
            old(self).wf(),
        ensures
            final(self).wf(),
            final(self).spec_gates() == (match index_at(old(self).spec_gates(), *coordinate) {
                Some(i) => old(self).spec_gates().remove(i),
                None => old(self).spec_gates(),
            }),
            final(self).spec_gates().len() == old(self).spec_gates().len() - (if old(self).has_gate_at(
                *coordinate,
            ) {
                1int
            } else {
                0int
            }),
            final(self).spec_gate_at(*coordinate) is None,
            final(self).spec_last_clicked() is None,
            final(self).spec_rows() == old(self).spec_rows(),
            final(self).spec_cols() == old(self).spec_cols(),
            final(self).spec_selected() == old(self).spec_selected(),
            final(self).spec_next_id() == old(self).spec_next_id(),
            old(self).ids_fresh() ==> final(self).ids_fresh(),
            old(self).ids_distinct() ==> final(self).ids_distinct(),
    {
        let ghost before = self.gates@;
        let found = self.position_at(coordinate);
        proof {
            lemma_find_first(before, stands_at(*coordinate));
        }
        match found {
            Some(i) => {
                self.gates.remove(i);
                proof {
                    let after = self.gates@;
                    assert(after == before.remove(i as int));
                    assert forall|k: int| 0 <= k < after.len() implies
                        after[k] == before[if k < i { k } else { k + 1 }] by {}
                    assert forall|k: int| 0 <= k < after.len() implies (#[trigger] after[k]).wf() by {
                        assert(after[k] == before[if k < i { k } else { k + 1 }]);
                    }
                    assert forall|a: int, b: int|
                        0 <= a < after.len() && 0 <= b < after.len() && a != b
                            implies (#[trigger] after[a]).spec_coordinate() != (#[trigger] after[b]).spec_coordinate() by {
                        let a2 = if a < i { a } else { a + 1 };
                        let b2 = if b < i { b } else { b + 1 };
                        assert(after[a] == before[a2] && after[b] == before[b2]);
                    }
                    assert forall|k: int| 0 <= k < after.len() implies !stands_at(*coordinate)(#[trigger] after[k]) by {
                        let k2 = if k < i { k } else { k + 1 };
                        assert(after[k] == before[k2]);
                        assert(k2 != i);
                    }
                    lemma_find_first(after, stands_at(*coordinate));
                    if let Some(k) = index_at(after, *coordinate) {
                        assert(!stands_at(*coordinate)(after[k]));
                    }
                    assert forall|a: int, b: int|
                        0 <= a < after.len() && 0 <= b < after.len() && a != b && old(self).ids_distinct()
                            implies (#[trigger] after[a]).spec_id() != (#[trigger] after[b]).spec_id() by {
                        let a2 = if a < i { a } else { a + 1 };
                        let b2 = if b < i { b } else { b + 1 };
                        assert(after[a] == before[a2] && after[b] == before[b2]);
                    }
                    assert forall|k: int| 0 <= k < after.len() && old(self).ids_fresh() implies
                        (#[trigger] after[k]).spec_id().spec_value() < self.spec_next_id() by {
                        let k2 = if k < i { k } else { k + 1 };
                        assert(after[k] == before[k2]);
                    }
                }
            },
            None => {},
        }
        self.last_clicked = None;
    }

    /// Makes `gate` the selected one. Returns whether a gate equal to it, field
    /// for field, stands on the grid; it is selected by its identity either way.
    pub fn select_gate(&mut self, gate: Gate) -> (found: bool)
        ensures
            found == exists|i: int|
                0 <= i < old(self).spec_gates().len() && Gate::same_gate(
                    #[trigger] old(self).spec_gates()[i],
                    gate,
                ),
            final(self).spec_selected() == Some(gate.spec_id()),
            final(self).spec_gates() == old(self).spec_gates(),
            final(self).spec_rows() == old(self).spec_rows(),
            final(self).spec_cols() == old(self).spec_cols(),
            final(self).spec_last_clicked() == old(self).spec_last_clicked(),
            final(self).spec_next_id() == old(self).spec_next_id(),
    {
        let mut found = false;
        let mut i: usize = 0;
        while i < self.gates.len()
            invariant
                i <= self.gates.len(),
                found == exists|j: int| 0 <= j < i && Gate::same_gate(#[trigger] self.gates@[j], gate),
            decreases self.gates.len() - i,
        {
            if !found && self.gates[i].same_as(&gate) {
                found = true;
            }
            i = i + 1;
        }
        self.selected_gate = Some(gate.id());
        found
    }

    /// Whether a gate with identity `gate_id` is the selected one.
    pub fn is_selected(&self, gate_id: GateId) -> (b: bool)
        ensures
            b == (self.spec_selected() == Some(gate_id)),
    {
        match self.selected_gate {
            Some(selected) => selected == gate_id,
            None => false,
        }
    }

    /// Clears the selection.
    pub fn deselect_gate(&mut self)
        ensures
            final(self).spec_selected() is None,
            final(self).spec_gates() == old(self).spec_gates(),
            final(self).spec_rows() == old(self).spec_rows(),
            final(self).spec_cols() == old(self).spec_cols(),
            final(self).spec_last_clicked() == old(self).spec_last_clicked(),
            final(self).spec_next_id() == old(self).spec_next_id(),
    {
        self.selected_gate = None;
    }

    /// The selected gate: the first gate carrying the selected identity, if
    /// there is a selection and such a gate.
    pub fn selected_gate(&self) -> (r: Option<&Gate>)
        ensures
            match self.spec_selected() {
                Some(id) => match index_of_id(self.spec_gates(), id) {
                    Some(i) => 0 <= i < self.spec_gates().len() && r == Some(&self.spec_gates()[i]),
                    None => r is None,
                },
                None => r is None,
            },
    {
        match self.selected_gate {
            Some(id) => self.get_gate(id),
            None => None,
        }
    }

    /// The selected gate, lent out for editing in place (its label, say).
    pub fn selected_gate_mut(&mut self) -> (r: Option<&mut Gate>)
        ensures
            match old(self).spec_selected() {
                Some(id) => match index_of_id(old(self).spec_gates(), id) {
                    Some(i) => match r {
                        Some(g) => {
                            &&& 0 <= i < old(self).spec_gates().len()
                            &&& *g == old(self).spec_gates()[i]
                            &&& final(self).spec_gates() == old(self).spec_gates().update(i, *final(g))
                            &&& final(self).spec_rows() == old(self).spec_rows()
                            &&& final(self).spec_cols() == old(self).spec_cols()
                            &&& final(self).spec_selected() == old(self).spec_selected()
                            &&& final(self).spec_last_clicked() == old(self).spec_last_clicked()
                            &&& final(self).spec_next_id() == old(self).spec_next_id()
                            &&& (old(self).wf() && final(g).wf() && final(g).spec_coordinate()
                                == (*g).spec_coordinate()) ==> final(self).wf()
                        },
                        None => false,
                    },
                    None => r is None && *final(self) == *old(self),
                },
                None => r is None && *final(self) == *old(self),
            },
    {
        match self.selected_gate {
            Some(id) => match self.position_of(id) {
                Some(i) => Some(&mut self.gates[i]),
                None => None,
            },
            None => None,
        }
    }

    /// Sets the number of qubit rows; a negative count wraps around as an
    /// `as` cast does.
    pub fn set_rows(&mut self, num_rows: i64)
        ensures
            final(self).spec_rows() == num_rows as usize,
            final(self).spec_gates() == old(self).spec_gates(),
            final(self).spec_cols() == old(self).spec_cols(),
            final(self).spec_selected() == old(self).spec_selected(),
            final(self).spec_last_clicked() == old(self).spec_last_clicked(),
            final(self).spec_next_id() == old(self).spec_next_id(),
    {
        self.rows = num_rows as usize;
    }

    /// Adds a qubit row, up to ten rows.
    pub fn increase_rows(&mut self)
        ensures
            final(self).spec_rows() == rows_after_increase(old(self).spec_rows()),
            old(self).spec_rows() < 10 ==> final(self).spec_rows() == old(self).spec_rows() + 1,
            old(self).spec_rows() >= 10 ==> final(self).spec_rows() == old(self).spec_rows(),
            final(self).spec_gates() == old(self).spec_gates(),
            final(self).spec_cols() == old(self).spec_cols(),
            final(self).spec_selected() == old(self).spec_selected(),
            final(self).spec_last_clicked() == old(self).spec_last_clicked(),
            final(self).spec_next_id() == old(self).spec_next_id(),
    {
        if self.rows < 10 {
            self.rows = self.rows + 1;
        }
    }

    /// Removes a qubit row, down to one row.
    pub fn decrease_rows(&mut self)
        ensures
            final(self).spec_rows() == rows_after_decrease(old(self).spec_rows()),
            old(self).spec_rows() > 1 ==> final(self).spec_rows() == old(self).spec_rows() - 1,
            old(self).spec_rows() <= 1 ==> final(self).spec_rows() == old(self).spec_rows(),
            final(self).spec_gates() == old(self).spec_gates(),
            final(self).spec_cols() == old(self).spec_cols(),
            final(self).spec_selected() == old(self).spec_selected(),
            final(self).spec_last_clicked() == old(self).spec_last_clicked(),
            final(self).spec_next_id() == old(self).spec_next_id(),
    {
        if self.rows > 1 {
            self.rows = self.rows - 1;
        }
    }

    /// What every cell of the grid shows, column by column: for each of the
    /// `cols` columns, the cells of its `rows` rows from the top.
    pub fn grid(&self) -> (cells: Vec<Vec<GridCell>>)
        requires
            self.wf(),
        ensures
            cells.len() == self.spec_cols(),
            forall|col: int| 0 <= col < cells.len() ==> (#[trigger] cells@[col]).len() == self.spec_rows(),
            forall|col: int, row: int|
                0 <= col < cells.len() && 0 <= row < self.spec_rows()
                    ==> (#[trigger] cells@[col]@[row]) == self.spec_cell(row as usize, col as usize),
            forall|col: int, row: int|
                0 <= col < cells.len() && 0 <= row < self.spec_rows() ==> match #[trigger] cells@[col]@[row] {
                    GridCell::Gate { id, selected } => {
                        &&& self.spec_gate_at(Coordinate { row: row as usize, column: col as usize }) == Some(id)
                        &&& selected == (self.spec_selected() == Some(id))
                    },
                    GridCell::Empty { coordinate } => {
                        &&& self.spec_gate_at(Coordinate { row: row as usize, column: col as usize }) is None
                        &&& coordinate == Coordinate { row: row as usize, column: col as usize }
                    },
                },
    {
        let mut cells: Vec<Vec<GridCell>> = Vec::new();
        let mut col: usize = 0;
        while col < self.cols
            invariant
                self.wf(),
                col <= self.cols,
                cells.len() == col,
                forall|c: int| 0 <= c < col ==> (#[trigger] cells@[c]).len() == self.rows,
                forall|c: int, r: int|
                    0 <= c < col && 0 <= r < self.rows
                        ==> (#[trigger] cells@[c]@[r]) == self.spec_cell(r as usize, c as usize),
            decreases self.cols - col,
        {
            let mut column: Vec<GridCell> = Vec::new();
            let mut row: usize = 0;
            while row < self.rows
                invariant
                    self.wf(),
                    row <= self.rows,
                    col < self.cols,
                    column.len() == row,
                    forall|r: int| 0 <= r < row ==> (#[trigger] column@[r]) == self.spec_cell(r as usize, col),
                decreases self.rows - row,
            {
                let coordinate = Coordinate { row, column: col };
                let cell = match self.get_gate_at_coordinate(&coordinate) {
                    Some(id) => GridCell::Gate { id, selected: self.is_selected(id) },
                    None => GridCell::Empty { coordinate },
                };
                column.push(cell);
                row = row + 1;
            }
            cells.push(column);
            col = col + 1;
        }
        cells
    }
}

/// A cell that shows a gate names the one standing there, and marks it as
/// selected exactly when that identity is the circuit's selection; a
/// cell shows as empty exactly when no gate stands there, and then names its
/// own coordinate.
pub proof fn lemma_cell_shows_selection(circuit: Circuit, row: usize, column: usize)
    ensures
        match circuit.spec_cell(row, column) {
            GridCell::Gate { id, selected } => {
                &&& circuit.spec_gate_at(Coordinate { row, column }) == Some(id)
                &&& selected == (circuit.spec_selected() == Some(id))
            },
            GridCell::Empty { coordinate } => {
                &&& circuit.spec_gate_at(Coordinate { row, column }) is None
                &&& coordinate == Coordinate { row, column }
            },
        },
{
}

/// What the grid shows depends on the gates and the selection alone: two
/// circuits with the same gates and the same selection show the same cells,
/// whatever cell was clicked last.
pub proof fn lemma_cells_ignore_last_click(a: Circuit, b: Circuit, row: usize, column: usize)
    requires
        a.spec_gates() == b.spec_gates(),
        a.spec_selected() == b.spec_selected(),
    ensures
        a.spec_cell(row, column) == b.spec_cell(row, column),
{
}

/// With distinct identities, at most one cell is highlighted: two cells
/// that both show a selected gate are the same cell.
pub proof fn lemma_one_selected_cell(circuit: Circuit, r1: usize, c1: usize, r2: usize, c2: usize)
    requires
        circuit.wf(),
        circuit.ids_distinct(),
        circuit.spec_cell(r1, c1) matches GridCell::Gate { selected: true, .. },
        circuit.spec_cell(r2, c2) matches GridCell::Gate { selected: true, .. },
    ensures
        r1 == r2 && c1 == c2,
{
    let gates = circuit.spec_gates();
    let x = Coordinate { row: r1, column: c1 };
    let y = Coordinate { row: r2, column: c2 };
    lemma_find_first(gates, stands_at(x));
    lemma_find_first(gates, stands_at(y));
    let i = index_at(gates, x).unwrap();
    let j = index_at(gates, y).unwrap();
    if i != j {
        assert(gates[i].spec_id() != gates[j].spec_id());
    }
}

impl Default for Circuit {
    /// A circuit of ten qubit rows and ten time slices.
    fn default() -> (circuit: Self)
        ensures
            circuit.wf(),
            circuit.ids_fresh(),
            circuit.ids_distinct(),
            circuit.spec_rows() == 10,
            circuit.spec_cols() == 10,
            circuit.spec_gates() == Seq::<Gate>::empty(),
            circuit.spec_selected() is None,
            circuit.spec_last_clicked() is None,
            circuit.spec_next_id() == 0,
    {
        Circuit::new(10, 10)
    }
}

} // verus!