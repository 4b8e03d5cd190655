use rust_hdl::ast::{
    assign, assign_to, binary, guarded, index, literal_string, paren, signal, Verilog,
    VerilogConditional, VerilogExpression, VerilogLiteral, VerilogOp, VerilogOpUnary,
    VerilogStatement, WidthError,
};
use rust_hdl::atom::{Atom, AtomKind, Signal};
use rust_hdl::module_defines::{decl, verilog_atom_name, AtomDetails};
use rust_hdl::verilog_gen::{verilog_combinatorial, verilog_expression};

fn details(name: &str, kind: AtomKind, width: usize, literal: Option<&str>) -> AtomDetails {
    AtomDetails { name: name.to_string(), kind, width, literal: literal.map(|l| l.to_string()) }
}

#[test]
fn a_single_bit_is_declared_without_a_range() {
    assert_eq!(decl(&details("clock", AtomKind::InputParameter, 1, None)), "input clock;");
    assert_eq!(decl(&details("q", AtomKind::OutputParameter, 1, None)), "output reg q;");
    assert_eq!(decl(&details("u_q", AtomKind::StubOutputSignal, 1, None)), "wire u_q;");
    assert_eq!(decl(&details("u_d", AtomKind::StubInputSignal, 1, None)), "reg u_d;");
    assert_eq!(decl(&details("w", AtomKind::LocalSignal, 1, None)), "wire w;");
}

#[test]
fn more_bits_are_declared_with_the_range_down_from_width_less_one() {
    assert_eq!(decl(&details("a", AtomKind::InputParameter, 2, None)), "input [1:0] a;");
    assert_eq!(decl(&details("sum", AtomKind::OutputParameter, 8, None)), "output reg [7:0] sum;");
    assert_eq!(decl(&details("u_q", AtomKind::StubOutputSignal, 32, None)), "wire [31:0] u_q;");
    assert_eq!(decl(&details("u_d", AtomKind::StubInputSignal, 100, None)), "reg [99:0] u_d;");
    assert_eq!(decl(&details("w", AtomKind::LocalSignal, 11, None)), "wire [10:0] w;");
}

#[test]
fn a_constant_is_declared_by_its_value() {
    assert_eq!(
        decl(&details("threshold", AtomKind::Constant, 32, Some("32'hd0900"))),
        "localparam threshold = 32'hd0900;"
    );
    assert_eq!(decl(&details("one", AtomKind::Constant, 1, Some("1'h1"))), "localparam one = 1'h1;");
    assert_eq!(decl(&details("none", AtomKind::Constant, 4, None)), "localparam none = ;");
}

#[test]
fn each_kind_has_its_words() {
    assert_eq!(verilog_atom_name(&AtomKind::InputParameter), "input");
    assert_eq!(verilog_atom_name(&AtomKind::OutputParameter), "output reg");
    assert_eq!(verilog_atom_name(&AtomKind::StubInputSignal), "reg");
    assert_eq!(verilog_atom_name(&AtomKind::StubOutputSignal), "wire");
    assert_eq!(verilog_atom_name(&AtomKind::Constant), "localparam");
    assert_eq!(verilog_atom_name(&AtomKind::LocalSignal), "wire");
}

#[test]
fn ports_and_stubs_are_told_apart() {
    assert!(AtomKind::InputParameter.is_parameter());
    assert!(AtomKind::OutputParameter.is_parameter());
    assert!(!AtomKind::StubInputSignal.is_parameter());
    assert!(!AtomKind::Constant.is_parameter());
    assert!(!AtomKind::LocalSignal.is_parameter());
    assert!(AtomKind::StubInputSignal.is_stub());
    assert!(AtomKind::StubOutputSignal.is_stub());
    assert!(!AtomKind::OutputParameter.is_stub());
    assert!(!AtomKind::LocalSignal.is_stub());
}

#[test]
fn a_literal_is_written_with_its_width_in_hexadecimal() {
    let l = VerilogLiteral::new(8, 42).unwrap();
    assert_eq!(l.bits(), 8);
    assert_eq!(l.value(), 42);
    assert_eq!(l.to_string(), "8'h2a");
    assert_eq!(VerilogLiteral::new(1, 0).unwrap().to_string(), "1'h0");
    assert_eq!(VerilogLiteral::new(64, u64::MAX).unwrap().to_string(), "64'hffffffffffffffff");
    assert_eq!(VerilogLiteral::new(100, 5).unwrap().to_string(), "100'h5");
}

#[test]
fn a_literal_must_fit_its_width() {
    assert_eq!(VerilogLiteral::new(0, 0), Err(WidthError::ZeroWidth));
    assert_eq!(VerilogLiteral::new(0, 9), Err(WidthError::ZeroWidth));
    assert_eq!(VerilogLiteral::new(1, 2), Err(WidthError::ValueTooWide));
    assert_eq!(VerilogLiteral::new(8, 256), Err(WidthError::ValueTooWide));
    assert!(VerilogLiteral::new(8, 255).is_ok());
    assert!(VerilogLiteral::new(63, (1 << 63) - 1).is_ok());
    assert_eq!(VerilogLiteral::new(63, 1 << 63), Err(WidthError::ValueTooWide));
    assert!(VerilogLiteral::new(64, 1 << 63).is_ok());
}

#[test]
fn a_signal_tells_what_it_is() {
    let s = Signal::new(AtomKind::OutputParameter, 6).unwrap();
    assert_eq!(s.bits(), 6);
    assert_eq!(s.kind(), AtomKind::OutputParameter);
    assert!(!s.is_enum());
    assert_eq!(s.name(0), "");
    assert_eq!(s.typename(), "");
    assert_eq!(s.verilog().to_string(), "6'h0");
    let c = Signal::constant(32, 0xd0900).unwrap();
    assert_eq!(c.bits(), 32);
    assert_eq!(c.kind(), AtomKind::Constant);
    assert_eq!(c.verilog().to_string(), "32'hd0900");
    let e = Signal::enumerated(
        AtomKind::LocalSignal,
        2,
        "State",
        vec!["Idle".to_string(), String::new(), "Run".to_string()],
    )
    .unwrap();
    assert!(e.is_enum());
    assert_eq!(e.typename(), "State");
    assert_eq!(e.name(0), "Idle");
    assert_eq!(e.name(1), "");
    assert_eq!(e.name(2), "Run");
    assert_eq!(e.name(3), "");
    assert_eq!(e.name(4), "");
}

#[test]
fn a_signal_of_no_bits_is_refused() {
    assert_eq!(Signal::new(AtomKind::LocalSignal, 0).err(), Some(WidthError::ZeroWidth));
    assert_eq!(Signal::constant(0, 0).err(), Some(WidthError::ZeroWidth));
    assert_eq!(Signal::constant(4, 16).err(), Some(WidthError::ValueTooWide));
    assert!(Signal::constant(4, 15).is_ok());
    assert_eq!(
        Signal::enumerated(AtomKind::LocalSignal, 0, "T", vec![]).err(),
        Some(WidthError::ZeroWidth)
    );
    let three = vec!["A".to_string(), "B".to_string(), "C".to_string()];
    assert_eq!(
        Signal::enumerated(AtomKind::LocalSignal, 1, "T", three.clone()).err(),
        Some(WidthError::TooManyNames)
    );
    assert!(Signal::enumerated(AtomKind::LocalSignal, 2, "T", three).is_ok());
    assert_eq!(
        Signal::enumerated(AtomKind::LocalSignal, 64, "T", vec![]).err(),
        Some(WidthError::TooManyNames)
    );
    assert_eq!(
        Signal::enumerated(AtomKind::LocalSignal, 200, "T", vec![]).err(),
        Some(WidthError::TooManyNames)
    );
}

fn sig(name: &str) -> VerilogExpression {
    VerilogExpression::Signal(name.to_string())
}

#[test]
fn expressions_are_written_in_their_order() {
    let one = VerilogExpression::Literal(VerilogLiteral::new(32, 1).unwrap());
    let sum = VerilogExpression::Binary(Box::new(sig("counter_q")), VerilogOp::Add, Box::new(one));
    assert_eq!(verilog_expression(&sum), "counter_q + 32'h1");
    let test = VerilogExpression::Binary(
        Box::new(sig("enable")),
        VerilogOp::BitAnd,
        Box::new(VerilogExpression::Paren(Box::new(VerilogExpression::Binary(
            Box::new(sig("counter_q")),
            VerilogOp::Eq,
            Box::new(sig("threshold")),
        )))),
    );
    assert_eq!(verilog_expression(&test), "enable & (counter_q == threshold)");
    let not = VerilogExpression::Unary(VerilogOpUnary::Not, Box::new(sig("a")));
    assert_eq!(verilog_expression(&not), "~a");
    let ops = [
        (VerilogOp::Sub, "-"),
        (VerilogOp::Mul, "*"),
        (VerilogOp::LogicalAnd, "&&"),
        (VerilogOp::LogicalOr, "||"),
        (VerilogOp::BitXor, "^"),
        (VerilogOp::BitOr, "|"),
        (VerilogOp::Shl, "<<"),
        (VerilogOp::Shr, ">>"),
        (VerilogOp::Neq, "!="),
        (VerilogOp::Lt, "<"),
        (VerilogOp::Lte, "<="),
        (VerilogOp::Gt, ">"),
        (VerilogOp::Gte, ">="),
    ];
    for (op, text) in ops {
        let e = VerilogExpression::Binary(Box::new(sig("a")), op, Box::new(sig("b")));
        assert_eq!(verilog_expression(&e), format!("a {} b", text));
    }
    let unary = [
        (VerilogOpUnary::Neg, "-"),
        (VerilogOpUnary::All, "&"),
        (VerilogOpUnary::Any, "|"),
        (VerilogOpUnary::Xor, "^"),
    ];
    for (op, text) in unary {
        let e = VerilogExpression::Unary(op, Box::new(sig("a")));
        assert_eq!(verilog_expression(&e), format!("{}a", text));
    }
}

#[test]
fn a_block_is_written_as_an_always_block() {
    assert_eq!(verilog_combinatorial(&vec![]), "always @(*) begin\nend\n");
    let block = vec![
        VerilogStatement::Comment("count".to_string()),
        VerilogStatement::Assignment(sig("d"), sig("q")),
        VerilogStatement::If(VerilogConditional {
            test: sig("enable"),
            when_true: vec![VerilogStatement::Assignment(
                sig("d"),
                VerilogExpression::Binary(
                    Box::new(sig("q")),
                    VerilogOp::Add,
                    Box::new(VerilogExpression::Literal(VerilogLiteral::new(8, 1).unwrap())),
                ),
            )],
            when_false: vec![],
        }),
        VerilogStatement::If(VerilogConditional {
            test: sig("strobe"),
            when_true: vec![VerilogStatement::If(VerilogConditional {
                test: sig("reset"),
                when_true: vec![VerilogStatement::Assignment(sig("d"), sig("zero"))],
                when_false: vec![],
            })],
            when_false: vec![VerilogStatement::Assignment(sig("e"), sig("f"))],
        }),
    ];
    let expected = "always @(*) begin\n    // count\n    d = q;\n    if (enable) begin\n        d = q + 8'h1;\n    end\n    if (strobe) begin\n        if (reset) begin\n            d = zero;\n        end\n    end else begin\n        e = f;\n    end\nend\n";
    assert_eq!(verilog_combinatorial(&block), expected);
}

#[test]
fn a_copy_of_a_fragment_is_written_as_the_fragment() {
    let block = vec![VerilogStatement::If(VerilogConditional {
        test: sig("a"),
        when_true: vec![VerilogStatement::Assignment(sig("b"), sig("c"))],
        when_false: vec![VerilogStatement::Comment("no".to_string())],
    })];
    let text = verilog_combinatorial(&block);
    let copy = Verilog::Combinatorial(block).clone();
    match copy {
        Verilog::Combinatorial(b) => assert_eq!(verilog_combinatorial(&b), text),
        _ => panic!("the copy is no combinatorial block"),
    }
    match Verilog::Custom("x".to_string()).clone() {
        Verilog::Custom(t) => assert_eq!(t, "x"),
        _ => panic!("the copy is no custom text"),
    }
    match Verilog::Blackbox("y".to_string()).clone() {
        Verilog::Blackbox(t) => assert_eq!(t, "y"),
        _ => panic!("the copy is no black box"),
    }
    assert!(matches!(Verilog::Empty.clone(), Verilog::Empty));
}

#[test]
fn statements_are_built_from_their_parts() {
    let bit = index(signal("local"), VerilogExpression::Literal(VerilogLiteral::new(32, 3).unwrap()));
    assert_eq!(verilog_expression(&bit), "local[32'h3]");
    let sum = binary(signal("a"), VerilogOp::Add, paren(binary(signal("b"), VerilogOp::Mul, signal("c"))));
    assert_eq!(verilog_expression(&sum), "a + (b * c)");
    let block = vec![
        assign("q", sum),
        assign_to(bit, signal("d")),
        guarded(signal("enable"), vec![assign("q", signal("zero"))]),
    ];
    assert_eq!(
        verilog_combinatorial(&block),
        "always @(*) begin\n    q = a + (b * c);\n    local[32'h3] = d;\n    if (enable) begin\n        q = zero;\n    end\nend\n"
    );
    assert_eq!(literal_string(8, 300), "8'h12c");
    assert_eq!(literal_string(0, 0), "0'h0");
}
