//! The reference by which a part is called on a board.

use vstd::prelude::*;

verus! {

/// The class of a part, which gives its reference its letter.
#[derive(Clone, Copy, Debug, PartialEq, Eq, Structural)]
pub enum DesignatorKind {
    Resistor,
    Capacitor,
    Inductor,
    Diode,
    Connector,
    IntegratedCircuit,
    Crystal,
    TestPoint,
}

/// The reference of a part: its class, and its number once it has one.
#[derive(Clone, Copy, Debug, PartialEq, Eq, Structural)]
pub struct Designator {
    pub kind: DesignatorKind,
    pub index: Option<usize>,
}

} // verus!
