//! The kinds of gate a circuit can hold.

use vstd::prelude::*;

verus! {

/// The kind of a gate.
#[derive(Clone, Copy, Debug, PartialEq, Eq, Structural)]
pub enum GateType {
    SingleQubit,
    TwoQubit,
    CNOT,
    Toffoli,
    MultiQubit,
    Measurement,
    Reset,
}

} // verus!
