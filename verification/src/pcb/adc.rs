//! Analog to digital converters.

use vstd::prelude::*;
use vstd::string::*;
use crate::pcb::bom::{Manufacturer, SourceModel};
use crate::pcb::circuit::{CircuitModel, CircuitNode, PartDetails, PartModel};
use crate::pcb::designator::{Designator, DesignatorKind};
use crate::pcb::epin::{pin, pins_view, EPin, EdgeLocation, PinKind, PinModel};
use crate::pcb::glyph::{ic_body, label, make_ic_body, make_label, TextJustification};
use crate::pcb::smd::SizeCode;
use crate::pcb::utils::{numbered, pin_list};

verus! {

/// The pins of the ADS868x, in the order of their numbers.
pub open spec fn ads868x_pins() -> Seq<PinModel> {
    seq![
        pin("DGND"@, PinKind::PowerReturn, 300, EdgeLocation::South),
        pin("AVDD"@, PinKind::PowerSink, -200, EdgeLocation::North),
        pin("AGND"@, PinKind::PowerReturn, -200, EdgeLocation::South),
        pin("REFIO"@, PinKind::Passive, 0, EdgeLocation::West),
        pin("REFGND"@, PinKind::PowerReturn, -800, EdgeLocation::West),
        pin("REFCAP"@, PinKind::Passive, -300, EdgeLocation::West),
        pin("AIN_P"@, PinKind::Passive, 800, EdgeLocation::West),
        pin("AIN_GND"@, PinKind::Passive, 400, EdgeLocation::West),
        pin("~RST"@, PinKind::InputInverted, -900, EdgeLocation::East),
        pin("SDI"@, PinKind::Input, -700, EdgeLocation::East),
        pin("CONVST/~CS"@, PinKind::InputInverted, -500, EdgeLocation::East),
        pin("SCLK"@, PinKind::Input, -300, EdgeLocation::East),
        pin("SDO-0"@, PinKind::Output, -100, EdgeLocation::East),
        pin("ALARM/SDO-1/GPO"@, PinKind::Output, 400, EdgeLocation::East),
        pin("RVS"@, PinKind::Output, 700, EdgeLocation::East),
        pin("DVDD"@, PinKind::PowerSink, 300, EdgeLocation::North),
    ]
}

/// The ADS868x converter under the part number `part_number`.
pub open spec fn ads868x(part_number: Seq<char>) -> CircuitModel {
    CircuitModel::IntegratedCircuit(
        PartModel {
            label: part_number,
            manufacturer: SourceModel { name: "TI"@, part_number },
            description: "16-bit high-speed single supply SAR ADC"@,
            comment: ""@,
            hide_pin_designators: false,
            pins: numbered(ads868x_pins()),
            outline: seq![
                ic_body(-800, -1400, 900, 1200),
                label(-800, 1200, "U?"@, TextJustification::BottomLeft),
                label(-800, -1400, part_number, TextJustification::TopLeft),
            ],
            suppliers: Seq::empty(),
            designator: Designator { kind: DesignatorKind::IntegratedCircuit, index: None },
            size: SizeCode::TSSOP(16),
        },
    )
}

/// The ADS868x converter. The part number begins with `ADS868` and ends with
/// `IPW`.
pub fn make_ads868x(part_number: &str) -> (node: CircuitNode)
    requires
        "ADS868"@.is_prefix_of(part_number@),
        "IPW"@.is_suffix_of(part_number@),
    ensures
        node@ == ads868x(part_number@),
{
    let pins = vec![
        EPin::new("DGND", PinKind::PowerReturn, 300, EdgeLocation::South),
        EPin::new("AVDD", PinKind::PowerSink, -200, EdgeLocation::North),
        EPin::new("AGND", PinKind::PowerReturn, -200, EdgeLocation::South),
        EPin::new("REFIO", PinKind::Passive, 0, EdgeLocation::West),
        EPin::new("REFGND", PinKind::PowerReturn, -800, EdgeLocation::West),
        EPin::new("REFCAP", PinKind::Passive, -300, EdgeLocation::West),
        EPin::new("AIN_P", PinKind::Passive, 800, EdgeLocation::West),
        EPin::new("AIN_GND", PinKind::Passive, 400, EdgeLocation::West),
        EPin::new("~RST", PinKind::InputInverted, -900, EdgeLocation::East),
        EPin::new("SDI", PinKind::Input, -700, EdgeLocation::East),
        EPin::new("CONVST/~CS", PinKind::InputInverted, -500, EdgeLocation::East),
        EPin::new("SCLK", PinKind::Input, -300, EdgeLocation::East),
        EPin::new("SDO-0", PinKind::Output, -100, EdgeLocation::East),
        EPin::new("ALARM/SDO-1/GPO", PinKind::Output, 400, EdgeLocation::East),
        EPin::new("RVS", PinKind::Output, 700, EdgeLocation::East),
        EPin::new("DVDD", PinKind::PowerSink, 300, EdgeLocation::North),
    ];
    assert(pins_view(pins@) =~= ads868x_pins());
    let outline = vec![
        make_ic_body(-800, -1400, 900, 1200),
        make_label(-800, 1200, "U?", TextJustification::BottomLeft),
        make_label(-800, -1400, part_number, TextJustification::TopLeft),
    ];
    let details = PartDetails {
        label: String::from_str(part_number),
        manufacturer: Manufacturer {
            name: String::from_str("TI"),
            part_number: String::from_str(part_number),
        },
        description: String::from_str("16-bit high-speed single supply SAR ADC"),
        comment: String::from_str(""),
        hide_pin_designators: false,
        pins: pin_list(pins),
        outline,
        suppliers: Vec::new(),
        designator: Designator { kind: DesignatorKind::IntegratedCircuit, index: None },
        size: SizeCode::TSSOP(16),
    };
    proof {
        let model = ads868x(part_number@)->IntegratedCircuit_0;
        assert(details@.pins =~= model.pins);
        assert(details@.outline =~= model.outline);
        assert(details@.suppliers =~= model.suppliers);
    }
    CircuitNode::IntegratedCircuit(details)
}

} // verus!
