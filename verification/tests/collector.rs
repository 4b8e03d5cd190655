use rust_hdl::ast::Verilog;
use rust_hdl::atom::{AtomKind, Signal};
use rust_hdl::block::{Block, Child, Design};
use rust_hdl::logic::{logic_connect_fn, Logic};
use rust_hdl::module_defines::{compile, generate_verilog, DesignError, ModuleDefines};
use rust_hdl::probe::Probe;

fn scope(code: Verilog) -> Design {
    Design::Scope(code, vec![])
}

#[test]
fn visits_by_hand_build_the_records() {
    let mut defines = ModuleDefines::default();
    let top = scope(Verilog::Custom("assign y = u_q;".to_string()));
    let child = scope(Verilog::Empty);
    defines.visit_start_scope("top", &top);
    defines.visit_atom("y", &Signal::new(AtomKind::OutputParameter, 1).unwrap());
    defines.visit_start_scope("u", &child);
    defines.visit_start_namespace("bank");
    defines.visit_atom("q", &Signal::new(AtomKind::OutputParameter, 4).unwrap());
    defines.visit_atom("k", &Signal::constant(4, 9).unwrap());
    defines.visit_end_namespace("bank");
    defines.visit_atom("d", &Signal::new(AtomKind::InputParameter, 4).unwrap());
    defines.visit_end_scope("u", &child);
    defines.visit_atom("w", &Signal::new(AtomKind::LocalSignal, 2).unwrap());
    defines.visit_end_scope("top", &top);
    let text = defines.defines();
    let expected = "\n\nmodule top(y);\n    \n    // Module arguments\n    output reg y;\n    \n    // Stub signals\n    wire [3:0] u_bank_q;\n    reg [3:0] u_d;\n    \n    // Local signals\n    wire [1:0] w;\n    \n    // Sub module instances\n    top.u u(.bank_q(u_bank_q),.d(u_d));\n    \n    // Update code (custom)\n    assign y = u_q;\nendmodule // top\n\n\nmodule top.u(bank_q,d);\n    \n    // Module arguments\n    output reg [3:0] bank_q;\n    input [3:0] d;\n    \n    // Constant declarations\n    localparam bank_k = 4'h9;\nendmodule // top.u\n";
    assert_eq!(text, expected);
    let record = defines.details("top.u").unwrap();
    assert_eq!(record.atoms[1].name, "bank_k");
    assert_eq!(record.atoms[1].literal.as_deref(), Some("4'h9"));
    assert_eq!(record.atoms[0].literal, None);
}

#[test]
fn leaving_more_than_was_entered_changes_nothing() {
    let mut defines = ModuleDefines::default();
    let top = scope(Verilog::Empty);
    defines.visit_end_namespace("none");
    defines.visit_end_scope("none", &top);
    assert_eq!(defines.defines(), "");
    defines.visit_start_scope("top", &top);
    defines.visit_end_scope("top", &top);
    defines.visit_end_scope("top", &top);
    assert_eq!(defines.defines(), "\n\nmodule top();\nendmodule // top\n");
}

#[test]
fn modules_are_written_in_the_order_of_their_paths() {
    let mut defines = ModuleDefines::default();
    let node = scope(Verilog::Empty);
    defines.visit_start_scope("top", &node);
    for name in ["zeta", "alpha", "mid"] {
        defines.visit_start_scope(name, &node);
        defines.visit_end_scope(name, &node);
    }
    defines.visit_end_scope("top", &node);
    let text = defines.defines();
    let top = text.find("module top(").unwrap();
    let alpha = text.find("module top.alpha(").unwrap();
    let mid = text.find("module top.mid(").unwrap();
    let zeta = text.find("module top.zeta(").unwrap();
    assert!(top < alpha && alpha < mid && mid < zeta);
    assert!(text.contains("    top.zeta zeta();\n    top.alpha alpha();\n    top.mid mid();\n"));
}

#[test]
fn a_scope_entered_twice_keeps_one_record() {
    let mut defines = ModuleDefines::default();
    let node = scope(Verilog::Empty);
    let later = scope(Verilog::Custom("assign a = b;".to_string()));
    defines.visit_start_scope("top", &node);
    defines.visit_atom("a", &Signal::new(AtomKind::LocalSignal, 1).unwrap());
    defines.visit_end_scope("top", &node);
    defines.visit_start_scope("top", &later);
    defines.visit_atom("b", &Signal::new(AtomKind::LocalSignal, 1).unwrap());
    defines.visit_end_scope("top", &later);
    let record = defines.details("top").unwrap();
    assert_eq!(record.atoms.len(), 2);
    assert!(matches!(record.code, Verilog::Custom(_)));
    assert_eq!(defines.defines().matches("module top(").count(), 1);
}

#[test]
fn blocks_in_a_row_are_named_by_their_place() {
    let mut defines = ModuleDefines::default();
    let top = scope(Verilog::Empty);
    let row = [
        Signal::new(AtomKind::LocalSignal, 1).unwrap(),
        Signal::new(AtomKind::LocalSignal, 2).unwrap(),
        Signal::new(AtomKind::InputParameter, 3).unwrap(),
    ];
    defines.visit_start_scope("top", &top);
    row.accept("lane", &mut defines);
    defines.visit_end_scope("top", &top);
    let record = defines.details("top").unwrap();
    assert_eq!(record.atoms.len(), 3);
    assert_eq!(record.atoms[0].name, "lane_0");
    assert_eq!(record.atoms[1].name, "lane_1");
    assert_eq!(record.atoms[2].name, "lane_2");
    assert_eq!(record.atoms[2].width, 3);
    let outside = defines.details("").unwrap();
    assert_eq!(outside.atoms.len(), 1);
    assert_eq!(outside.atoms[0].name, "top_lane_2");
}

#[test]
fn a_signal_leads_a_visitor_to_itself() {
    let mut defines = ModuleDefines::default();
    let top = scope(Verilog::Empty);
    defines.visit_start_scope("top", &top);
    Signal::new(AtomKind::LocalSignal, 5).unwrap().accept("w", &mut defines);
    defines.visit_end_scope("top", &top);
    let record = defines.details("top").unwrap();
    assert_eq!(record.atoms.len(), 1);
    assert_eq!(record.atoms[0].name, "w");
    assert_eq!(record.atoms[0].width, 5);
}

#[test]
fn a_design_gives_the_behaviour_it_was_given() {
    let design = Design::Scope(Verilog::Custom("assign a = b;".to_string()), vec![]);
    match design.hdl() {
        Verilog::Custom(text) => assert_eq!(text, "assign a = b;"),
        _ => panic!("the behaviour is no custom text"),
    }
    let group = Design::Namespace(vec![Child {
        name: "a".to_string(),
        design: Design::Atom(Signal::new(AtomKind::LocalSignal, 1).unwrap()),
    }]);
    assert!(matches!(group.hdl(), Verilog::Empty));
    let row = [scope(Verilog::Custom("x".to_string())), scope(Verilog::Empty)];
    assert!(matches!(row.hdl(), Verilog::Empty));
    assert!(matches!(Signal::new(AtomKind::LocalSignal, 1).unwrap().hdl(), Verilog::Empty));
}

#[test]
fn wiring_leaves_a_design_as_it_is() {
    let mut design = Design::Scope(
        Verilog::Custom("assign a = b;".to_string()),
        vec![Child {
            name: "a".to_string(),
            design: Design::Atom(Signal::new(AtomKind::LocalSignal, 1).unwrap()),
        }],
    );
    let mut before = ModuleDefines::default();
    design.accept("top", &mut before);
    logic_connect_fn(&mut design);
    design.update();
    let mut after = ModuleDefines::default();
    design.accept("top", &mut after);
    assert_eq!(before.defines(), after.defines());
    let mut row = [scope(Verilog::Empty), scope(Verilog::Empty)];
    logic_connect_fn(&mut row);
    row.update();
    assert!(matches!(row[0], Design::Scope(Verilog::Empty, _)));
}

#[test]
fn a_copy_of_a_design_is_written_as_the_design() {
    let state = Signal::enumerated(
        AtomKind::LocalSignal,
        1,
        "State",
        vec!["Off".to_string(), "On".to_string()],
    )
    .unwrap();
    let design = Design::Scope(
        Verilog::Custom("assign a = b;".to_string()),
        vec![
            Child { name: "state".to_string(), design: Design::Atom(state) },
            Child {
                name: "bank".to_string(),
                design: Design::Namespace(vec![Child {
                    name: "u".to_string(),
                    design: Design::Scope(
                        Verilog::Blackbox("module u(); endmodule".to_string()),
                        vec![Child {
                            name: "k".to_string(),
                            design: Design::Atom(Signal::constant(3, 5).unwrap()),
                        }],
                    ),
                }]),
            },
        ],
    );
    let copy = design.clone();
    let mut first = ModuleDefines::default();
    design.accept("top", &mut first);
    let mut second = ModuleDefines::default();
    copy.accept("top", &mut second);
    assert_eq!(first.defines(), second.defines());
    assert!(first.defines().contains("localparam State_On = 1"));
    assert!(first.defines().ends_with("module u(); endmodule\n"));
}

#[test]
fn a_design_is_checked_before_it_is_walked() {
    let atom = Design::Atom(Signal::new(AtomKind::LocalSignal, 1).unwrap());
    assert!(atom.well_formed());
    assert!(!atom.scoped());
    let loose = Design::Namespace(vec![
        Child { name: "m".to_string(), design: scope(Verilog::Empty) },
        Child { name: "a".to_string(), design: atom },
    ]);
    assert!(loose.well_formed());
    assert!(!loose.scoped());
    let tight = Design::Namespace(vec![
        Child { name: "m".to_string(), design: scope(Verilog::Empty) },
        Child { name: "n".to_string(), design: Design::Namespace(vec![]) },
    ]);
    assert!(tight.scoped());
    let whole = Design::Scope(Verilog::Empty, vec![Child { name: "x".to_string(), design: loose }]);
    assert!(whole.well_formed());
    assert!(whole.scoped());
    assert!(Signal::new(AtomKind::LocalSignal, 7).unwrap().well_formed());
    assert!(Signal::enumerated(AtomKind::LocalSignal, 3, "T", vec![]).unwrap().well_formed());
}

#[test]
fn scopes_in_a_namespace_are_placed_in_the_scope_around_it() {
    let light = |code: &str| {
        Design::Scope(
            Verilog::Custom(code.to_string()),
            vec![Child {
                name: "active".to_string(),
                design: Design::Atom(Signal::new(AtomKind::OutputParameter, 1).unwrap()),
            }],
        )
    };
    let top = Design::Scope(
        Verilog::Empty,
        vec![Child {
            name: "faders".to_string(),
            design: Design::Namespace(vec![
                Child { name: "0".to_string(), design: light("assign active = 0;") },
                Child { name: "1".to_string(), design: light("assign active = 1;") },
            ]),
        }],
    );
    let mut defines = ModuleDefines::default();
    top.accept("top", &mut defines);
    let record = defines.details("top").unwrap();
    assert_eq!(record.sub_modules.len(), 2);
    assert_eq!(record.sub_modules[0].kind, "top.0");
    assert_eq!(record.sub_modules[1].kind, "top.1");
    assert_eq!(record.atoms.len(), 2);
    assert_eq!(record.atoms[0].name, "0_active");
    assert_eq!(record.atoms[1].name, "1_active");
    let text = defines.defines();
    assert!(text.contains("    top.0 0(.active(0_active));\n    top.1 1(.active(1_active));\n"));
    assert!(text.contains("\nmodule top.0(active);\n"));
    assert!(text.contains("\nmodule top.1(active);\n"));
}

#[test]
fn a_design_that_cannot_be_walked_gives_no_text() {
    let atom = Design::Atom(Signal::new(AtomKind::LocalSignal, 1).unwrap());
    assert_eq!(compile(&atom), Err(DesignError::AtomOutsideScope));
    let loose = Design::Namespace(vec![Child {
        name: "a".to_string(),
        design: Design::Atom(Signal::new(AtomKind::LocalSignal, 1).unwrap()),
    }]);
    assert_eq!(compile(&loose), Err(DesignError::AtomOutsideScope));
    let whole = Design::Scope(Verilog::Empty, vec![Child { name: "g".to_string(), design: loose }]);
    assert_eq!(compile(&whole), Ok(generate_verilog(&whole)));
    assert_eq!(
        compile(&whole).unwrap(),
        "\n\nmodule top();\n    \n    // Local signals\n    wire g_a;\nendmodule // top\n"
    );
    assert_eq!(compile(&Design::Namespace(vec![])), Ok(String::new()));
}
