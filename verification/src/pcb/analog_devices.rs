//! Parts of Analog Devices.

use vstd::prelude::*;
use vstd::string::*;
use crate::pcb::bom::{Manufacturer, SourceModel};
use crate::pcb::circuit::{CircuitModel, CircuitNode, PartDetails, PartModel};
use crate::pcb::designator::{Designator, DesignatorKind};
use crate::pcb::epin::{pin, pins_view, EPin, EdgeLocation, PinKind, PinModel};
use crate::pcb::glyph::{ic_body, label, make_ic_body, make_label, TextJustification};
use crate::pcb::smd::SizeCode;
use crate::pcb::utils::{numbered, pin_list};

verus! {

/// The pins of the LT3092, in the order of their numbers.
pub open spec fn lt3092_pins() -> Seq<PinModel> {
    seq![
        pin("SET"@, PinKind::Input, -100, EdgeLocation::West),
        pin("OUT_1"@, PinKind::PowerSource, -100, EdgeLocation::East),
        pin("IN"@, PinKind::PowerSink, 200, EdgeLocation::West),
        pin("OUT_2"@, PinKind::PowerSource, 200, EdgeLocation::East),
    ]
}

/// The LT3092 current source under the part number `part_number`.
pub open spec fn lt3092_current_source(part_number: Seq<char>) -> CircuitModel {
    CircuitModel::IntegratedCircuit(
        PartModel {
            label: part_number,
            manufacturer: SourceModel { name: "Analog Devices"@, part_number },
            description: "Programmable Current Source/Limiter"@,
            comment: ""@,
            hide_pin_designators: false,
            pins: numbered(lt3092_pins()),
            outline: seq![
                ic_body(-400, -200, 400, 300),
                label(-400, 300, "U?"@, TextJustification::BottomLeft),
                label(-400, -200, part_number, TextJustification::TopLeft),
            ],
            suppliers: Seq::empty(),
            designator: Designator { kind: DesignatorKind::IntegratedCircuit, index: None },
            size: SizeCode::SOT223,
        },
    )
}

/// The LT3092 current source. The part number begins with `LT3092`.
pub fn make_lt3092_current_source(part_number: &str) -> (node: CircuitNode)
    requires
        "LT3092"@.is_prefix_of(part_number@),
    ensures
        node@ == lt3092_current_source(part_number@),
{
    let pins = vec![
        EPin::new("SET", PinKind::Input, -100, EdgeLocation::West),
        EPin::new("OUT_1", PinKind::PowerSource, -100, EdgeLocation::East),
        EPin::new("IN", PinKind::PowerSink, 200, EdgeLocation::West),
        EPin::new("OUT_2", PinKind::PowerSource, 200, EdgeLocation::East),
    ];
    assert(pins_view(pins@) =~= lt3092_pins());
    let outline = vec![
        make_ic_body(-400, -200, 400, 300),
        make_label(-400, 300, "U?", TextJustification::BottomLeft),
        make_label(-400, -200, part_number, TextJustification::TopLeft),
    ];
    let details = PartDetails {
        label: String::from_str(part_number),
        manufacturer: Manufacturer {
            name: String::from_str("Analog Devices"),
            part_number: String::from_str(part_number),
        },
        description: String::from_str("Programmable Current Source/Limiter"),
        comment: String::from_str(""),
        hide_pin_designators: false,
        pins: pin_list(pins),
        outline,
        suppliers: Vec::new(),
        designator: Designator { kind: DesignatorKind::IntegratedCircuit, index: None },
        size: SizeCode::SOT223,
    };
    proof {
        let model = lt3092_current_source(part_number@)->IntegratedCircuit_0;
        assert(details@.pins =~= model.pins);
        assert(details@.outline =~= model.outline);
        assert(details@.suppliers =~= model.suppliers);
    }
    CircuitNode::IntegratedCircuit(details)
}

} // verus!
