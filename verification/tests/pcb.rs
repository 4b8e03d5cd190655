use rust_hdl::pcb::adc::make_ads868x;
use rust_hdl::pcb::analog_devices::make_lt3092_current_source;
use rust_hdl::pcb::circuit::{CircuitNode, PartDetails};
use rust_hdl::pcb::designator::DesignatorKind;
use rust_hdl::pcb::epin::{EPin, EdgeLocation, PinKind};
use rust_hdl::pcb::glyph::{
    make_ic_body, make_label, make_line, Glyph, Point, TextJustification,
};
use rust_hdl::pcb::isolators::make_iso7741edwrq1;
use rust_hdl::pcb::smd::SizeCode;
use rust_hdl::pcb::utils::pin_list;

fn part(node: CircuitNode) -> PartDetails {
    match node {
        CircuitNode::IntegratedCircuit(p) => p,
        _ => panic!("the node is no integrated circuit"),
    }
}

fn check_pin(p: &PartDetails, number: u64, name: &str, kind: PinKind, offset: i32, edge: EdgeLocation) {
    let pin = &p.pins[&number];
    assert_eq!(pin.name, name);
    assert_eq!(pin.kind, kind);
    assert_eq!(pin.location.offset, offset);
    assert_eq!(pin.location.edge, edge);
}

fn check_label(g: &Glyph, x: i32, y: i32, text: &str, justify: TextJustification) {
    match g {
        Glyph::Text(t) => {
            assert_eq!(t.anchor, Point { x, y });
            assert_eq!(t.text, text);
            assert_eq!(t.justify, justify);
        }
        _ => panic!("the shape is no text"),
    }
}

fn check_body(g: &Glyph, x0: i32, y0: i32, x1: i32, y1: i32) {
    match g {
        Glyph::OutlineRect(r) => {
            assert_eq!(r.start, Point { x: x0, y: y0 });
            assert_eq!(r.end, Point { x: x1, y: y1 });
        }
        _ => panic!("the shape is no outline"),
    }
}

fn check_line(g: &Glyph, x0: i32, y0: i32, x1: i32, y1: i32) {
    match g {
        Glyph::Line(l) => {
            assert_eq!(l.start, Point { x: x0, y: y0 });
            assert_eq!(l.end, Point { x: x1, y: y1 });
        }
        _ => panic!("the shape is no line"),
    }
}

#[test]
fn pins_are_numbered_from_one() {
    let none = pin_list(vec![]);
    assert!(none.is_empty());
    let map = pin_list(vec![
        EPin::new("A", PinKind::Input, 100, EdgeLocation::West),
        EPin::new("B", PinKind::Output, -100, EdgeLocation::East),
        EPin::new("C", PinKind::Passive, 0, EdgeLocation::North),
    ]);
    assert_eq!(map.len(), 3);
    assert_eq!(map.keys().copied().collect::<Vec<u64>>(), vec![1, 2, 3]);
    assert_eq!(map[&1].name, "A");
    assert_eq!(map[&2].name, "B");
    assert_eq!(map[&2].location.offset, -100);
    assert_eq!(map[&3].name, "C");
    assert_eq!(map[&3].location.edge, EdgeLocation::North);
}

#[test]
fn shapes_keep_their_points() {
    check_body(&make_ic_body(-1, -2, 3, 4), -1, -2, 3, 4);
    check_line(&make_line(5, 6, -7, -8), 5, 6, -7, -8);
    check_label(&make_label(9, -9, "U?", TextJustification::TopRight), 9, -9, "U?", TextJustification::TopRight);
}

#[test]
fn the_current_source_has_four_pins() {
    let p = part(make_lt3092_current_source("LT3092EST#PBF"));
    assert_eq!(p.label, "LT3092EST#PBF");
    assert_eq!(p.manufacturer.name, "Analog Devices");
    assert_eq!(p.manufacturer.part_number, "LT3092EST#PBF");
    assert_eq!(p.description, "Programmable Current Source/Limiter");
    assert_eq!(p.comment, "");
    assert!(!p.hide_pin_designators);
    assert_eq!(p.pins.len(), 4);
    check_pin(&p, 1, "SET", PinKind::Input, -100, EdgeLocation::West);
    check_pin(&p, 2, "OUT_1", PinKind::PowerSource, -100, EdgeLocation::East);
    check_pin(&p, 3, "IN", PinKind::PowerSink, 200, EdgeLocation::West);
    check_pin(&p, 4, "OUT_2", PinKind::PowerSource, 200, EdgeLocation::East);
    assert_eq!(p.outline.len(), 3);
    check_body(&p.outline[0], -400, -200, 400, 300);
    check_label(&p.outline[1], -400, 300, "U?", TextJustification::BottomLeft);
    check_label(&p.outline[2], -400, -200, "LT3092EST#PBF", TextJustification::TopLeft);
    assert!(p.suppliers.is_empty());
    assert_eq!(p.designator.kind, DesignatorKind::IntegratedCircuit);
    assert_eq!(p.designator.index, None);
    assert_eq!(p.size, SizeCode::SOT223);
}

#[test]
fn the_converter_has_sixteen_pins() {
    let p = part(make_ads868x("ADS8681IPW"));
    assert_eq!(p.label, "ADS8681IPW");
    assert_eq!(p.manufacturer.name, "TI");
    assert_eq!(p.manufacturer.part_number, "ADS8681IPW");
    assert_eq!(p.description, "16-bit high-speed single supply SAR ADC");
    assert_eq!(p.comment, "");
    assert!(!p.hide_pin_designators);
    assert_eq!(p.pins.len(), 16);
    check_pin(&p, 1, "DGND", PinKind::PowerReturn, 300, EdgeLocation::South);
    check_pin(&p, 2, "AVDD", PinKind::PowerSink, -200, EdgeLocation::North);
    check_pin(&p, 3, "AGND", PinKind::PowerReturn, -200, EdgeLocation::South);
    check_pin(&p, 4, "REFIO", PinKind::Passive, 0, EdgeLocation::West);
    check_pin(&p, 5, "REFGND", PinKind::PowerReturn, -800, EdgeLocation::West);
    check_pin(&p, 6, "REFCAP", PinKind::Passive, -300, EdgeLocation::West);
    check_pin(&p, 7, "AIN_P", PinKind::Passive, 800, EdgeLocation::West);
    check_pin(&p, 8, "AIN_GND", PinKind::Passive, 400, EdgeLocation::West);
    check_pin(&p, 9, "~RST", PinKind::InputInverted, -900, EdgeLocation::East);
    check_pin(&p, 10, "SDI", PinKind::Input, -700, EdgeLocation::East);
    check_pin(&p, 11, "CONVST/~CS", PinKind::InputInverted, -500, EdgeLocation::East);
    check_pin(&p, 12, "SCLK", PinKind::Input, -300, EdgeLocation::East);
    check_pin(&p, 13, "SDO-0", PinKind::Output, -100, EdgeLocation::East);
    check_pin(&p, 14, "ALARM/SDO-1/GPO", PinKind::Output, 400, EdgeLocation::East);
    check_pin(&p, 15, "RVS", PinKind::Output, 700, EdgeLocation::East);
    check_pin(&p, 16, "DVDD", PinKind::PowerSink, 300, EdgeLocation::North);
    assert_eq!(p.outline.len(), 3);
    check_body(&p.outline[0], -800, -1400, 900, 1200);
    check_label(&p.outline[1], -800, 1200, "U?", TextJustification::BottomLeft);
    check_label(&p.outline[2], -800, -1400, "ADS8681IPW", TextJustification::TopLeft);
    assert!(p.suppliers.is_empty());
    assert_eq!(p.designator.kind, DesignatorKind::IntegratedCircuit);
    assert_eq!(p.designator.index, None);
    assert_eq!(p.size, SizeCode::TSSOP(16));
}

#[test]
fn the_isolator_has_sixteen_pins() {
    let p = part(make_iso7741edwrq1("ISO7741EDWRQ1"));
    assert_eq!(p.label, "ISO7741EDWRQ1");
    assert_eq!(p.manufacturer.name, "TI");
    assert_eq!(p.manufacturer.part_number, "ISO7741EDWRQ1");
    assert_eq!(p.description, "Quad Channel Digital Isolator - Automotive Grade 0");
    assert_eq!(p.comment, "");
    assert!(!p.hide_pin_designators);
    assert_eq!(p.pins.len(), 16);
    check_pin(&p, 1, "VCC1", PinKind::PowerSink, 800, EdgeLocation::West);
    check_pin(&p, 2, "GND1_1", PinKind::PowerReturn, -900, EdgeLocation::West);
    check_pin(&p, 3, "INA", PinKind::Input, 300, EdgeLocation::West);
    check_pin(&p, 4, "INB", PinKind::Input, 100, EdgeLocation::West);
    check_pin(&p, 5, "INC", PinKind::Input, -100, EdgeLocation::West);
    check_pin(&p, 6, "OUTD", PinKind::Output, -300, EdgeLocation::West);
    check_pin(&p, 7, "EN1", PinKind::Input, 600, EdgeLocation::West);
    check_pin(&p, 8, "GND1_2", PinKind::PowerReturn, -700, EdgeLocation::West);
    check_pin(&p, 9, "GND2_2", PinKind::PowerReturn, -700, EdgeLocation::East);
    check_pin(&p, 10, "EN2", PinKind::Input, 600, EdgeLocation::East);
    check_pin(&p, 11, "IND", PinKind::Input, -300, EdgeLocation::East);
    check_pin(&p, 12, "OUTC", PinKind::Output, -100, EdgeLocation::East);
    check_pin(&p, 13, "OUTB", PinKind::Output, 100, EdgeLocation::East);
    check_pin(&p, 14, "OUTA", PinKind::Output, 300, EdgeLocation::East);
    check_pin(&p, 15, "GND2_1", PinKind::PowerReturn, -900, EdgeLocation::East);
    check_pin(&p, 16, "VCC2", PinKind::PowerSink, 800, EdgeLocation::East);
    assert_eq!(p.outline.len(), 5);
    check_body(&p.outline[0], -600, -1100, 500, 1000);
    check_line(&p.outline[1], -100, 700, -100, -700);
    check_line(&p.outline[2], 0, 700, 0, -700);
    check_label(&p.outline[3], -600, 1000, "U?", TextJustification::BottomLeft);
    check_label(&p.outline[4], -600, -1100, "ISO7741EDWRQ1", TextJustification::TopLeft);
    assert!(p.suppliers.is_empty());
    assert_eq!(p.designator.kind, DesignatorKind::IntegratedCircuit);
    assert_eq!(p.designator.index, None);
    assert_eq!(p.size, SizeCode::SOIC(16));
}
