//! Digital isolators.

use vstd::prelude::*;
use vstd::string::*;
use crate::pcb::bom::{Manufacturer, SourceModel};
use crate::pcb::circuit::{CircuitModel, CircuitNode, PartDetails, PartModel};
use crate::pcb::designator::{Designator, DesignatorKind};
use crate::pcb::epin::{pin, pins_view, EPin, EdgeLocation, PinKind, PinModel};
use crate::pcb::glyph::{
    ic_body, label, line, make_ic_body, make_label, make_line, TextJustification,
};
use crate::pcb::smd::SizeCode;
use crate::pcb::utils::{numbered, pin_list};

verus! {

/// The pins of the ISO7741EDWRQ1, in the order of their numbers.
pub open spec fn iso7741edwrq1_pins() -> Seq<PinModel> {
    seq![
        pin("VCC1"@, PinKind::PowerSink, 800, EdgeLocation::West),
        pin("GND1_1"@, PinKind::PowerReturn, -900, EdgeLocation::West),
        pin("INA"@, PinKind::Input, 300, EdgeLocation::West),
        pin("INB"@, PinKind::Input, 100, EdgeLocation::West),
        pin("INC"@, PinKind::Input, -100, EdgeLocation::West),
        pin("OUTD"@, PinKind::Output, -300, EdgeLocation::West),
        pin("EN1"@, PinKind::Input, 600, EdgeLocation::West),
        pin("GND1_2"@, PinKind::PowerReturn, -700, EdgeLocation::West),
        pin("GND2_2"@, PinKind::PowerReturn, -700, EdgeLocation::East),
        pin("EN2"@, PinKind::Input, 600, EdgeLocation::East),
        pin("IND"@, PinKind::Input, -300, EdgeLocation::East),
        pin("OUTC"@, PinKind::Output, -100, EdgeLocation::East),
        pin("OUTB"@, PinKind::Output, 100, EdgeLocation::East),
        pin("OUTA"@, PinKind::Output, 300, EdgeLocation::East),
        pin("GND2_1"@, PinKind::PowerReturn, -900, EdgeLocation::East),
        pin("VCC2"@, PinKind::PowerSink, 800, EdgeLocation::East),
    ]
}

/// The ISO7741EDWRQ1 isolator under the part number `part_number`.
pub open spec fn iso7741edwrq1(part_number: Seq<char>) -> CircuitModel {
    CircuitModel::IntegratedCircuit(
        PartModel {
            label: part_number,
            manufacturer: SourceModel { name: "TI"@, part_number },
            description: "Quad Channel Digital Isolator - Automotive Grade 0"@,
            comment: ""@,
            hide_pin_designators: false,
            pins: numbered(iso7741edwrq1_pins()),
            outline: seq![
                ic_body(-600, -1100, 500, 1000),
                line(-100, 700, -100, -700),
                line(0, 700, 0, -700),
                label(-600, 1000, "U?"@, TextJustification::BottomLeft),
                label(-600, -1100, part_number, TextJustification::TopLeft),
            ],
            suppliers: Seq::empty(),
            designator: Designator { kind: DesignatorKind::IntegratedCircuit, index: None },
            size: SizeCode::SOIC(16),
        },
    )
}

/// The ISO7741EDWRQ1 isolator. The part number is `ISO7741EDWRQ1`.
pub fn make_iso7741edwrq1(part_number: &str) -> (node: CircuitNode)
    requires
        part_number@ == "ISO7741EDWRQ1"@,
    ensures
        node@ == iso7741edwrq1(part_number@),
{
    let pins = vec![
        EPin::new("VCC1", PinKind::PowerSink, 800, EdgeLocation::West),
        EPin::new("GND1_1", PinKind::PowerReturn, -900, EdgeLocation::West),
        EPin::new("INA", PinKind::Input, 300, EdgeLocation::West),
        EPin::new("INB", PinKind::Input, 100, EdgeLocation::West),
        EPin::new("INC", PinKind::Input, -100, EdgeLocation::West),
        EPin::new("OUTD", PinKind::Output, -300, EdgeLocation::West),
        EPin::new("EN1", PinKind::Input, 600, EdgeLocation::West),
        EPin::new("GND1_2", PinKind::PowerReturn, -700, EdgeLocation::West),
        EPin::new("GND2_2", PinKind::PowerReturn, -700, EdgeLocation::East),
        EPin::new("EN2", PinKind::Input, 600, EdgeLocation::East),
        EPin::new("IND", PinKind::Input, -300, EdgeLocation::East),
        EPin::new("OUTC", PinKind::Output, -100, EdgeLocation::East),
        EPin::new("OUTB", PinKind::Output, 100, EdgeLocation::East),
        EPin::new("OUTA", PinKind::Output, 300, EdgeLocation::East),
        EPin::new("GND2_1", PinKind::PowerReturn, -900, EdgeLocation::East),
        EPin::new("VCC2", PinKind::PowerSink, 800, EdgeLocation::East),
    ];
    assert(pins_view(pins@) =~= iso7741edwrq1_pins());
    let outline = vec![
        make_ic_body(-600, -1100, 500, 1000),
        make_line(-100, 700, -100, -700),
        make_line(0, 700, 0, -700),
        make_label(-600, 1000, "U?", TextJustification::BottomLeft),
        make_label(-600, -1100, part_number, TextJustification::TopLeft),
    ];
    let details = PartDetails {
        label: String::from_str(part_number),
        manufacturer: Manufacturer {
            name: String::from_str("TI"),
            part_number: String::from_str(part_number),
        },
        description: String::from_str("Quad Channel Digital Isolator - Automotive Grade 0"),
        comment: String::from_str(""),
        hide_pin_designators: false,
        pins: pin_list(pins),
        outline,
        suppliers: Vec::new(),
        designator: Designator { kind: DesignatorKind::IntegratedCircuit, index: None },
        size: SizeCode::SOIC(16),
    };
    proof {
        let model = iso7741edwrq1(part_number@)->IntegratedCircuit_0;
        assert(details@.pins =~= model.pins);
        assert(details@.outline =~= model.outline);
        assert(details@.suppliers =~= model.suppliers);
    }
    CircuitNode::IntegratedCircuit(details)
}

} // verus!
