//! The pins of a part.

use vstd::prelude::*;
use vstd::string::*;

verus! {

/// What a pin does electrically.
#[derive(Clone, Copy, Debug, PartialEq, Eq, Structural)]
pub enum PinKind {
    Input,
    InputInverted,
    Output,
    OutputInverted,
    TriState,
    Passive,
    PowerSink,
    PowerSource,
    PowerReturn,
    OpenCollector,
    NoConnect,
    Unspecified,
}

/// The side of a part's symbol.
#[derive(Clone, Copy, Debug, PartialEq, Eq, Structural)]
pub enum EdgeLocation {
    North,
    West,
    East,
    South,
}

/// Where a pin sits on a part's symbol: the side, and the offset along it.
#[derive(Clone, Copy, Debug, PartialEq, Eq, Structural)]
pub struct PinLocation {
    pub offset: i32,
    pub edge: EdgeLocation,
}

/// What a pin stands for.
pub struct PinModel {
    pub kind: PinKind,
    pub name: Seq<char>,
    pub location: PinLocation,
}

/// The pin called `name`, of kind `kind`, at `offset` along `edge`.
pub open spec fn pin(name: Seq<char>, kind: PinKind, offset: int, edge: EdgeLocation) -> PinModel {
    PinModel { kind, name, location: PinLocation { offset: offset as i32, edge } }
}

/// One pin of a part.
#[derive(Debug)]
pub struct EPin {
    pub kind: PinKind,
    pub name: String,
    pub location: PinLocation,
}

impl View for EPin {
    type V = PinModel;

    open spec fn view(&self) -> PinModel {
        PinModel { kind: self.kind, name: self.name@, location: self.location }
    }
}

impl EPin {
    /// The pin called `name`, of kind `kind`, at `offset` along `edge`.
    pub fn new(name: &str, kind: PinKind, offset: i32, edge: EdgeLocation) -> (p: EPin)
        ensures
            p@ == pin(name@, kind, offset as int, edge),
    {
        EPin { kind, name: String::from_str(name), location: PinLocation { offset, edge } }
    }
}

/// The pins as values.
pub open spec fn pins_view(pins: Seq<EPin>) -> Seq<PinModel> {
    Seq::new(pins.len(), |i: int| pins[i]@)
}

} // verus!
