use rust_hdl::ast::{Verilog, VerilogExpression, VerilogStatement};
use rust_hdl::atom::{AtomKind, Signal};
use rust_hdl::block::{Block, Child, Design};
use rust_hdl::module_defines::{generate_verilog, ModuleDefines};

fn port(name: &str, kind: AtomKind, width: usize) -> Child {
    Child { name: name.to_string(), design: Design::Atom(Signal::new(kind, width).unwrap()) }
}

fn adder() -> Design {
    Design::Scope(
        Verilog::Combinatorial(vec![VerilogStatement::Assignment(
            VerilogExpression::Signal("sum".to_string()),
            VerilogExpression::Signal("a".to_string()),
        )]),
        vec![
            port("a", AtomKind::InputParameter, 8),
            port("sum", AtomKind::OutputParameter, 8),
        ],
    )
}

fn collect(design: &Design) -> ModuleDefines {
    let mut defines = ModuleDefines::default();
    design.accept("top", &mut defines);
    defines
}

#[test]
fn one_child_gets_module_stubs_and_instance() {
    let top = Design::Scope(
        Verilog::Empty,
        vec![Child { name: "add1".to_string(), design: adder() }],
    );
    let text = generate_verilog(&top);
    let expected = "\n\nmodule top();\n    \n    // Stub signals\n    reg [7:0] add1_a;\n    wire [7:0] add1_sum;\n    \n    // Sub module instances\n    top.add1 add1(.a(add1_a),.sum(add1_sum));\nendmodule // top\n\n\nmodule top.add1(a,sum);\n    \n    // Module arguments\n    input [7:0] a;\n    output reg [7:0] sum;\n    \n    // Update code\n    always @(*) begin\n        sum = a;\n    end\nendmodule // top.add1\n";
    assert_eq!(text, expected);
}

#[test]
fn one_child_records_ports_and_parent_stubs() {
    let top = Design::Scope(
        Verilog::Empty,
        vec![Child { name: "add1".to_string(), design: adder() }],
    );
    let defines = collect(&top);
    let child = defines.details("top.add1").unwrap();
    assert_eq!(child.atoms.len(), 2);
    assert_eq!(child.atoms[0].name, "a");
    assert_eq!(child.atoms[0].kind, AtomKind::InputParameter);
    assert_eq!(child.atoms[0].width, 8);
    assert_eq!(child.atoms[1].name, "sum");
    assert_eq!(child.atoms[1].kind, AtomKind::OutputParameter);
    assert_eq!(child.atoms[1].width, 8);
    let parent = defines.details("top").unwrap();
    assert_eq!(parent.atoms.len(), 2);
    assert_eq!(parent.atoms[0].name, "add1_a");
    assert_eq!(parent.atoms[0].kind, AtomKind::StubInputSignal);
    assert_eq!(parent.atoms[0].width, 8);
    assert_eq!(parent.atoms[1].name, "add1_sum");
    assert_eq!(parent.atoms[1].kind, AtomKind::StubOutputSignal);
    assert_eq!(parent.atoms[1].width, 8);
    assert_eq!(parent.sub_modules.len(), 1);
    assert_eq!(parent.sub_modules[0].name, "add1");
    assert_eq!(parent.sub_modules[0].kind, "top.add1");
    assert!(defines.details("top.add2").is_none());
}

#[test]
fn enumerable_atom_gives_one_symbol_for_each_named_value() {
    let state = Signal::enumerated(
        AtomKind::LocalSignal,
        2,
        "State",
        vec!["Idle".to_string(), String::new(), "Run".to_string()],
    )
    .unwrap();
    let top = Design::Scope(
        Verilog::Empty,
        vec![Child { name: "state".to_string(), design: Design::Atom(state) }],
    );
    let defines = collect(&top);
    let record = defines.details("top").unwrap();
    assert_eq!(record.enums.len(), 2);
    assert_eq!(record.enums[0].typename, "State");
    assert_eq!(record.enums[0].discriminant, "Idle");
    assert_eq!(record.enums[0].value, 0);
    assert_eq!(record.enums[1].typename, "State");
    assert_eq!(record.enums[1].discriminant, "Run");
    assert_eq!(record.enums[1].value, 2);
    let text = defines.defines();
    let expected = "\n\nmodule top();\n    \n    // Enums\n    localparam State_Idle = 0\n    localparam State_Run = 2\n    \n    // Local signals\n    wire [1:0] state;\nendmodule // top\n";
    assert_eq!(text, expected);
}

#[test]
fn two_atoms_of_one_enumerable_type_define_its_symbols_twice() {
    let names = vec!["Idle".to_string(), "Run".to_string()];
    let first = Signal::enumerated(AtomKind::LocalSignal, 1, "State", names.clone()).unwrap();
    let second = Signal::enumerated(AtomKind::LocalSignal, 1, "State", names).unwrap();
    let top = Design::Scope(
        Verilog::Empty,
        vec![
            Child { name: "now".to_string(), design: Design::Atom(first) },
            Child { name: "next".to_string(), design: Design::Atom(second) },
        ],
    );
    let defines = collect(&top);
    let record = defines.details("top").unwrap();
    assert_eq!(record.enums.len(), 4);
    assert_eq!(record.enums[0].discriminant, "Idle");
    assert_eq!(record.enums[1].discriminant, "Run");
    assert_eq!(record.enums[2].discriminant, "Idle");
    assert_eq!(record.enums[3].discriminant, "Run");
}

#[test]
fn two_instances_of_one_block_get_two_modules() {
    let top = Design::Scope(
        Verilog::Empty,
        vec![
            Child { name: "add1".to_string(), design: adder() },
            Child { name: "add2".to_string(), design: adder() },
        ],
    );
    let text = generate_verilog(&top);
    assert_eq!(text.matches("\nmodule top.add1(a,sum);\n").count(), 1);
    assert_eq!(text.matches("\nmodule top.add2(a,sum);\n").count(), 1);
    assert_eq!(text.matches("endmodule // top.add1\n").count(), 1);
    assert_eq!(text.matches("endmodule // top.add2\n").count(), 1);
    let first = text.find("module top.add1(").unwrap();
    let second = text.find("module top.add2(").unwrap();
    assert!(first < second);
    let body = "    \n    // Module arguments\n    input [7:0] a;\n    output reg [7:0] sum;\n    \n    // Update code\n    always @(*) begin\n        sum = a;\n    end\n";
    assert_eq!(text.matches(body).count(), 2);
    let defines = collect(&top);
    assert!(defines.details("top.add1").is_some());
    assert!(defines.details("top.add2").is_some());
    let parent = defines.details("top").unwrap();
    assert_eq!(parent.atoms.len(), 4);
    assert_eq!(parent.atoms[2].name, "add2_a");
    assert_eq!(parent.atoms[3].name, "add2_sum");
}

#[test]
fn the_same_design_is_written_as_the_same_text() {
    let top = Design::Scope(
        Verilog::Empty,
        vec![Child { name: "add1".to_string(), design: adder() }],
    );
    let first = generate_verilog(&top);
    let second = generate_verilog(&top);
    assert_eq!(first, second);
    let defines = collect(&top);
    assert_eq!(defines.defines(), defines.defines());
    assert_eq!(defines.defines(), first);
}

#[test]
fn black_box_is_not_placed_and_is_written_last() {
    let pll = Design::Scope(
        Verilog::Blackbox("module pll(input clk_in);\nendmodule".to_string()),
        vec![port("clk_in", AtomKind::InputParameter, 1)],
    );
    let ok = Design::Scope(Verilog::Custom("assign x = 1;".to_string()), vec![]);
    let top = Design::Scope(
        Verilog::Empty,
        vec![
            Child { name: "pll".to_string(), design: pll },
            Child { name: "ok".to_string(), design: ok },
        ],
    );
    let text = generate_verilog(&top);
    let expected = "\n\nmodule top();\n    \n    // Stub signals\n    reg pll_clk_in;\n    \n    // Sub module instances\n    top.ok ok();\nendmodule // top\n\n\nmodule top.ok();\n    \n    // Update code (custom)\n    assign x = 1;\nendmodule // top.ok\nmodule pll(input clk_in);\nendmodule\n";
    assert_eq!(text, expected);
    assert_eq!(text.matches("module pll(input clk_in);").count(), 1);
    assert_eq!(text.matches("top.pll").count(), 0);
}

#[test]
fn every_atom_is_declared_before_the_behaviour() {
    let top = Design::Scope(
        Verilog::Custom("assign q = c & w;".to_string()),
        vec![
            port("w", AtomKind::LocalSignal, 1),
            Child {
                name: "c".to_string(),
                design: Design::Atom(Signal::constant(8, 42).unwrap()),
            },
            port("q", AtomKind::OutputParameter, 1),
            port("d", AtomKind::InputParameter, 3),
        ],
    );
    let text = generate_verilog(&top);
    let expected = "\n\nmodule top(q,d);\n    \n    // Module arguments\n    output reg q;\n    input [2:0] d;\n    \n    // Constant declarations\n    localparam c = 8'h2a;\n    \n    // Local signals\n    wire w;\n    \n    // Update code (custom)\n    assign q = c & w;\nendmodule // top\n";
    assert_eq!(text, expected);
    let body = text.find("// Update code").unwrap();
    for decl in ["output reg q;", "input [2:0] d;", "localparam c = 8'h2a;", "wire w;"] {
        assert!(text.find(decl).unwrap() < body);
    }
}

#[test]
fn names_in_a_namespace_are_joined_with_an_underscore() {
    let top = Design::Scope(
        Verilog::Empty,
        vec![Child {
            name: "bus".to_string(),
            design: Design::Namespace(vec![Child {
                name: "lane".to_string(),
                design: Design::Namespace(vec![port("d", AtomKind::LocalSignal, 4)]),
            }]),
        }],
    );
    let defines = collect(&top);
    let record = defines.details("top").unwrap();
    assert_eq!(record.atoms.len(), 1);
    assert_eq!(record.atoms[0].name, "bus_lane_d");
}

#[test]
fn entering_a_scope_starts_the_namespaces_anew() {
    let inner = Design::Scope(Verilog::Empty, vec![port("d", AtomKind::LocalSignal, 1)]);
    let top = Design::Scope(
        Verilog::Empty,
        vec![Child {
            name: "group".to_string(),
            design: Design::Namespace(vec![
                port("before", AtomKind::LocalSignal, 1),
                Child { name: "inner".to_string(), design: inner },
                port("after", AtomKind::LocalSignal, 1),
            ]),
        }],
    );
    let defines = collect(&top);
    let record = defines.details("top").unwrap();
    assert_eq!(record.atoms.len(), 2);
    assert_eq!(record.atoms[0].name, "group_before");
    assert_eq!(record.atoms[1].name, "after");
    let child = defines.details("top.inner").unwrap();
    assert_eq!(child.atoms.len(), 1);
    assert_eq!(child.atoms[0].name, "d");
}

#[test]
fn ports_of_the_root_give_no_declaration_outside_it() {
    let top = Design::Scope(Verilog::Empty, vec![port("clock", AtomKind::InputParameter, 1)]);
    let defines = collect(&top);
    let outside = defines.details("").unwrap();
    assert_eq!(outside.atoms.len(), 1);
    assert_eq!(outside.atoms[0].name, "top_clock");
    assert_eq!(outside.atoms[0].kind, AtomKind::StubInputSignal);
    assert_eq!(outside.sub_modules.len(), 1);
    assert_eq!(outside.sub_modules[0].kind, "top");
    let text = defines.defines();
    let expected = "\n\nmodule top(clock);\n    \n    // Module arguments\n    input clock;\nendmodule // top\n";
    assert_eq!(text, expected);
}

#[test]
fn a_collector_that_visited_nothing_writes_nothing() {
    let defines = ModuleDefines::default();
    assert_eq!(defines.defines(), "");
    assert!(defines.details("top").is_none());
}

#[test]
fn two_ports_of_one_name_give_two_stubs() {
    let child = Design::Scope(
        Verilog::Empty,
        vec![
            port("q", AtomKind::OutputParameter, 2),
            port("q", AtomKind::OutputParameter, 2),
        ],
    );
    let top = Design::Scope(Verilog::Empty, vec![Child { name: "u".to_string(), design: child }]);
    let text = generate_verilog(&top);
    assert_eq!(text.matches("    wire [1:0] u_q;\n").count(), 2);
    let single = Design::Scope(
        Verilog::Empty,
        vec![Child {
            name: "u".to_string(),
            design: Design::Scope(
                Verilog::Empty,
                vec![port("q", AtomKind::OutputParameter, 2), port("r", AtomKind::OutputParameter, 2)],
            ),
        }],
    );
    let text = generate_verilog(&single);
    assert_eq!(text.matches("    wire [1:0] u_q;\n").count(), 1);
    assert_eq!(text.matches("    wire [1:0] u_r;\n").count(), 1);
}
