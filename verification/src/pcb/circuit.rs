//! What a board is made of.

use vstd::prelude::*;
use std::collections::BTreeMap;
use crate::pcb::bom::{suppliers_view, Manufacturer, SourceModel, Supplier};
use crate::pcb::designator::Designator;
use crate::pcb::epin::{EPin, PinModel};
use crate::pcb::glyph::{glyphs_view, Glyph, GlyphModel};
use crate::pcb::smd::SizeCode;
use crate::pcb::utils::pin_table;

verus! {

/// What a part stands for.
pub struct PartModel {
    pub label: Seq<char>,
    pub manufacturer: SourceModel,
    pub description: Seq<char>,
    pub comment: Seq<char>,
    pub hide_pin_designators: bool,
    pub pins: Map<u64, PinModel>,
    pub outline: Seq<GlyphModel>,
    pub suppliers: Seq<SourceModel>,
    pub designator: Designator,
    pub size: SizeCode,
}

/// All that is known of a part.
#[derive(Debug)]
pub struct PartDetails {
    /// What the drawing calls the part.
    pub label: String,
    pub manufacturer: Manufacturer,
    pub description: String,
    pub comment: String,
    /// Whether the drawing leaves out the pin numbers.
    pub hide_pin_designators: bool,
    /// The pins, by their numbers.
    pub pins: BTreeMap<u64, EPin>,
    /// The shapes of the symbol.
    pub outline: Vec<Glyph>,
    pub suppliers: Vec<Supplier>,
    pub designator: Designator,
    pub size: SizeCode,
}

impl View for PartDetails {
    type V = PartModel;

    open spec fn view(&self) -> PartModel {
        PartModel {
            label: self.label@,
            manufacturer: self.manufacturer@,
            description: self.description@,
            comment: self.comment@,
            hide_pin_designators: self.hide_pin_designators,
            pins: pin_table(self.pins@),
            outline: glyphs_view(self.outline@),
            suppliers: suppliers_view(self.suppliers@),
            designator: self.designator,
            size: self.size,
        }
    }
}

/// What a node of a circuit stands for.
pub enum CircuitModel {
    IntegratedCircuit(PartModel),
    Connector(PartModel),
    Junction,
}

/// One node of a circuit.
#[derive(Debug)]
pub enum CircuitNode {
    IntegratedCircuit(PartDetails),
    Connector(PartDetails),
    Junction,
}

impl View for CircuitNode {
    type V = CircuitModel;

    open spec fn view(&self) -> CircuitModel {
        match self {
            CircuitNode::IntegratedCircuit(p) => CircuitModel::IntegratedCircuit(p@),
            CircuitNode::Connector(p) => CircuitModel::Connector(p@),
            CircuitNode::Junction => CircuitModel::Junction,
        }
    }
}

} // verus!
