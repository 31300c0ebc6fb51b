//! A gate placed on the circuit grid.

use vstd::prelude::*;
use crate::coordinate::Coordinate;
use crate::gate_id::{GateId, GateIdCounter};
use crate::gate_type::GateType;

verus! {

/// The smallest entry of a non-empty sequence.
pub open spec fn seq_min(s: Seq<usize>) -> usize
    recommends
        s.len() > 0,
    decreases s.len(),
{
    if s.len() <= 1 {
        s[0]
    } else {
        let rest = seq_min(s.drop_last());
        if s.last() < rest { s.last() } else { rest }
    }
}

/// The smallest entry of a non-empty sequence is one of its entries and lies
/// at or below each of them.
pub proof fn lemma_seq_min(s: Seq<usize>)
    requires
        s.len() > 0,
    ensures
        s.contains(seq_min(s)),
        forall|i: int| 0 <= i < s.len() ==> seq_min(s) <= #[trigger] s[i],
    decreases s.len(),
{
    if s.len() > 1 {
        lemma_seq_min(s.drop_last());
        assert(s.drop_last().contains(seq_min(s.drop_last())));
        let k = choose|k: int| 0 <= k < s.drop_last().len() && s.drop_last()[k] == seq_min(s.drop_last());
        assert(s[k] == seq_min(s.drop_last()));
        if s.last() < seq_min(s.drop_last()) {
            assert(s[s.len() - 1] == seq_min(s));
        }
        assert forall|i: int| 0 <= i < s.len() implies seq_min(s) <= #[trigger] s[i] by {
            if i < s.len() - 1 {
                assert(s[i] == s.drop_last()[i]);
            }
        }
    } else {
        assert(s[0] == seq_min(s));
    }
}

/// The view of an optional label: the characters of the label, if any.
pub open spec fn label_view(label: Option<String>) -> Option<Seq<char>> {
    match label {
        Some(text) => Some(text@),
        None => None,
    }
}

/// A gate of the circuit: its identity, kind, time slice, the qubits it acts
/// on, its display label and whether that label is typeset as LaTeX.
pub struct Gate {
    id: GateId,
    /// This gate's kind, which contracts name `spec_gate_type`. A direct
    /// write to the field is described by no contract.
    pub gate_type: GateType,
    slice: usize,
    qubits: Vec<usize>,
    /// This gate's label. `set_label` replaces it and states what becomes
    /// of it; a direct write is not described by any contract.
    pub label: Option<String>,
    render_latex: bool,
}

impl Gate {
    /// This gate's identity.
    pub closed spec fn spec_id(self) -> GateId {
        self.id
    }

    /// This gate's kind.
    pub closed spec fn spec_gate_type(self) -> GateType {
        self.gate_type
    }

    /// This gate's label text, if it has one.
    pub closed spec fn spec_label(self) -> Option<Seq<char>> {
        label_view(self.label)
    }

    /// The time slice (column) this gate stands in.
    pub closed spec fn spec_slice(self) -> usize {
        self.slice
    }

    /// The qubits (rows) this gate acts on.
    pub closed spec fn spec_qubits(self) -> Seq<usize> {
        self.qubits@
    }

    /// Whether the label is typeset as LaTeX.
    pub closed spec fn spec_render_latex(self) -> bool {
        self.render_latex
    }

    /// A gate acts on at least one qubit.
    pub open spec fn wf(self) -> bool {
        self.spec_qubits().len() > 0
    }

    /// The grid position of a gate: its topmost qubit and its time slice.
    pub open spec fn spec_coordinate(self) -> Coordinate {
        Coordinate { row: seq_min(self.spec_qubits()), column: self.spec_slice() }
    }

    /// Field-by-field equality of two gates, labels compared by their text.
    pub open spec fn same_gate(a: Gate, b: Gate) -> bool {
        &&& a.spec_id() == b.spec_id()
        &&& a.spec_gate_type() == b.spec_gate_type()
        &&& a.spec_slice() == b.spec_slice()
        &&& a.spec_qubits() == b.spec_qubits()
        &&& a.spec_label() == b.spec_label()
        &&& a.spec_render_latex() == b.spec_render_latex()
    }

    /// A gate's grid position depends on its slice and qubits alone: two
    /// gates placed alike stand at the same coordinate, whatever their kinds,
    /// labels, identities or display settings.
    pub proof fn lemma_coordinate_follows_placement(a: Gate, b: Gate)
        requires
            a.spec_slice() == b.spec_slice(),
            a.spec_qubits() == b.spec_qubits(),
        ensures
            a.spec_coordinate() == b.spec_coordinate(),
    {
    }

    /// A new gate of the given kind on the single qubit and slice of
    /// `coordinate`, labelled `U`, with its label shown as plain text; its
    /// identity is the next one that `ids` hands out.
    pub fn new(gate_type: GateType, coordinate: Coordinate, ids: &mut GateIdCounter) -> (gate: Gate)
        ensures
            gate.wf(),
            gate.spec_id().spec_value() == old(ids).spec_next(),
            final(ids).spec_next() == (if old(ids).spec_next() == u64::MAX {
                0
            } else {
                (old(ids).spec_next() + 1) as u64
            }),
            gate.spec_gate_type() == gate_type,
            gate.spec_slice() == coordinate.column,
            gate.spec_qubits() == seq![coordinate.row],
            gate.spec_coordinate() == coordinate,
            gate.spec_label() == Some(seq!['U']),
            !gate.spec_render_latex(),
    {
        let label = String::from_str("U");
        proof {
            reveal_strlit("U");
        }
        let mut qubits: Vec<usize> = Vec::new();
        qubits.push(coordinate.row);
        let gate = Gate {
            id: GateId::next(ids),
            gate_type,
            slice: coordinate.column,
            qubits,
            label: Some(label),
            render_latex: false,
        };
        assert(gate.spec_qubits() =~= seq![coordinate.row]);
        assert(label_view(gate.label) =~= Some(seq!['U']));
        gate
    }

    /// This gate's identity.
    pub fn id(&self) -> (id: GateId)
        ensures
            id == self.spec_id(),
    {
        self.id
    }

    /// The grid position of this gate: its topmost qubit and its slice.
    pub fn coordinate(&self) -> (c: Coordinate)
        requires
            self.wf(),
        ensures
            c == self.spec_coordinate(),
    {
        let mut row = self.qubits[0];
        let mut i: usize = 1;
        while i < self.qubits.len()
            invariant
                1 <= i <= self.qubits.len(),
                row == seq_min(self.qubits@.take(i as int)),
            decreases self.qubits.len() - i,
        {
            assert(self.qubits@.take(i as int + 1).drop_last() =~= self.qubits@.take(i as int));
            if self.qubits[i] < row {
                row = self.qubits[i];
            }
            i = i + 1;
        }
        assert(self.qubits@.take(i as int) =~= self.qubits@);
        Coordinate { row, column: self.slice }
    }

    /// Replaces the label text.
    pub fn set_label(&mut self, label: String)
        ensures
            final(self).spec_label() == Some(label@),
            final(self).spec_coordinate() == old(self).spec_coordinate(),
            final(self).spec_id() == old(self).spec_id(),
            final(self).spec_gate_type() == old(self).spec_gate_type(),
            final(self).spec_slice() == old(self).spec_slice(),
            final(self).spec_qubits() == old(self).spec_qubits(),
            final(self).spec_render_latex() == old(self).spec_render_latex(),
    {
        self.label = Some(label);
    }

    /// Whether the label is typeset as LaTeX rather than shown as text.
    pub fn render_latex(&self) -> (b: bool)
        ensures
            b == self.spec_render_latex(),
    {
        self.render_latex
    }

    /// Chooses whether the label is typeset as LaTeX.
    pub fn set_render_latex(&mut self, render_latex: bool)
        ensures
            final(self).spec_render_latex() == render_latex,
            final(self).spec_coordinate() == old(self).spec_coordinate(),
            final(self).spec_id() == old(self).spec_id(),
            final(self).spec_gate_type() == old(self).spec_gate_type(),
            final(self).spec_slice() == old(self).spec_slice(),
            final(self).spec_qubits() == old(self).spec_qubits(),
            final(self).spec_label() == old(self).spec_label(),
    {
        self.render_latex = render_latex;
    }

    /// Whether two gates agree in every field (labels by their text).
    pub fn same_as(&self, other: &Gate) -> (b: bool)
        ensures
            b == Gate::same_gate(*self, *other),
    {
        if self.id != other.id || self.gate_type != other.gate_type || self.slice != other.slice
            || self.render_latex != other.render_latex {
            return false;
        }
        let labels_equal = match (&self.label, &other.label) {
            (Some(a), Some(b)) => *a == *b,
            (None, None) => true,
            _ => false,
        };
        if !labels_equal {
            return false;
        }
        if self.qubits.len() != other.qubits.len() {
            return false;
        }
        let mut i: usize = 0;
        while i < self.qubits.len()
            invariant
                self.qubits.len() == other.qubits.len(),
                i <= self.qubits.len(),
                forall|j: int| 0 <= j < i ==> self.qubits@[j] == other.qubits@[j],
            decreases self.qubits.len() - i,
        {
            if self.qubits[i] != other.qubits[i] {
                return false;
            }
            i = i + 1;
        }
        assert(self.qubits@ =~= other.qubits@);
        true
    }
}

impl Clone for Gate {
    /// A copy of this gate that agrees with it in every field.
    fn clone(&self) -> (copy: Self)
        ensures
            Gate::same_gate(*self, copy),
            copy.wf() == self.wf(),
    {
        let label = match &self.label {
            Some(text) => Some(text.clone()),
            None => None,
        };
        let copy = Gate {
            id: self.id,
            gate_type: self.gate_type,
            slice: self.slice,
            qubits: self.qubits.clone(),
            label,
            render_latex: self.render_latex,
        };
        assert(copy.qubits@ =~= self.qubits@);
        copy
    }
}

} // verus!
