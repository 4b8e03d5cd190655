//! Writes a combinatorial block as Verilog text.

use vstd::prelude::*;
use vstd::string::*;
use crate::ast::{
    block_view, lemma_conditional_view, Expression, Statement, VerilogBlock, VerilogExpression,
    VerilogOp, VerilogOpUnary, VerilogStatement,
};
use crate::code_writer::{indentation, layout, CodeWriter};

verus! {

/// How a two-operand operator is written.
pub open spec fn op_text(op: VerilogOp) -> Seq<char> {
    match op {
        VerilogOp::Add => "+"@,
        VerilogOp::Sub => "-"@,
        VerilogOp::Mul => "*"@,
        VerilogOp::LogicalAnd => "&&"@,
        VerilogOp::LogicalOr => "||"@,
        VerilogOp::BitXor => "^"@,
        VerilogOp::BitAnd => "&"@,
        VerilogOp::BitOr => "|"@,
        VerilogOp::Shl => "<<"@,
        VerilogOp::Shr => ">>"@,
        VerilogOp::Eq => "=="@,
        VerilogOp::Neq => "!="@,
        VerilogOp::Lt => "<"@,
        VerilogOp::Lte => "<="@,
        VerilogOp::Gt => ">"@,
        VerilogOp::Gte => ">="@,
    }
}

/// How a one-operand operator is written.
pub open spec fn unary_text(op: VerilogOpUnary) -> Seq<char> {
    match op {
        VerilogOpUnary::Not => "~"@,
        VerilogOpUnary::Neg => "-"@,
        VerilogOpUnary::All => "&"@,
        VerilogOpUnary::Any => "|"@,
        VerilogOpUnary::Xor => "^"@,
    }
}

/// How an expression is written.
pub open spec fn expression_text(e: Expression) -> Seq<char>
    decreases e,
{
    match e {
        Expression::Signal(name) => name,
        Expression::Literal(l) => l.text(),
        Expression::Paren(inner) => "("@ + expression_text(*inner) + ")"@,
        Expression::Binary(l, op, r) => expression_text(*l) + " "@ + op_text(op) + " "@
            + expression_text(*r),
        Expression::Unary(op, inner) => unary_text(op) + expression_text(*inner),
        Expression::Index(value, at) => expression_text(*value) + "["@ + expression_text(*at)
            + "]"@,
    }
}

/// The lines of a statement written at depth `depth`.
pub open spec fn statement_lines(s: Statement, depth: nat) -> Seq<Seq<char>>
    decreases s,
{
    match s {
        Statement::Assignment(target, value) => seq![
            indentation(depth) + (expression_text(target) + " = "@ + expression_text(value)
                + ";"@),
        ],
        Statement::If(test, when_true, when_false) => {
            let opening = seq![
                indentation(depth) + ("if ("@ + expression_text(test) + ") begin"@),
            ];
            let first = statements_lines(when_true, when_true.len(), depth + 1);
            if when_false.len() == 0 {
                opening + first + seq![indentation(depth) + "end"@]
            } else {
                opening + first + seq![indentation(depth) + "end else begin"@] + statements_lines(
                    when_false,
                    when_false.len(),
                    depth + 1,
                ) + seq![indentation(depth) + "end"@]
            }
        },
        Statement::Comment(text) => seq![indentation(depth) + ("// "@ + text)],
    }
}

/// The lines of the first `n` statements of `block`, written at depth `depth`.
pub open spec fn statements_lines(block: Seq<Statement>, n: nat, depth: nat) -> Seq<Seq<char>>
    decreases block, n,
{
    if n == 0 || n > block.len() {
        Seq::empty()
    } else {
        statements_lines(block, (n - 1) as nat, depth) + statement_lines(block[n - 1], depth)
    }
}

/// The lines of a block written at depth `depth`.
pub open spec fn block_lines(block: Seq<Statement>, depth: nat) -> Seq<Seq<char>> {
    statements_lines(block, block.len(), depth)
}

/// A combinatorial block as an `always` block that is sensitive to all its
/// inputs.
pub open spec fn combinatorial_text(block: Seq<Statement>) -> Seq<char> {
    layout(seq!["always @(*) begin"@] + block_lines(block, 1) + seq!["end"@])
}

fn op_str(op: VerilogOp) -> (s: &'static str)
    ensures
        s@ == op_text(op),
{
    match op {
        VerilogOp::Add => "+",
        VerilogOp::Sub => "-",
        VerilogOp::Mul => "*",
        VerilogOp::LogicalAnd => "&&",
        VerilogOp::LogicalOr => "||",
        VerilogOp::BitXor => "^",
        VerilogOp::BitAnd => "&",
        VerilogOp::BitOr => "|",
        VerilogOp::Shl => "<<",
        VerilogOp::Shr => ">>",
        VerilogOp::Eq => "==",
        VerilogOp::Neq => "!=",
        VerilogOp::Lt => "<",
        VerilogOp::Lte => "<=",
        VerilogOp::Gt => ">",
        VerilogOp::Gte => ">=",
    }
}

fn unary_str(op: VerilogOpUnary) -> (s: &'static str)
    ensures
        s@ == unary_text(op),
{
    match op {
        VerilogOpUnary::Not => "~",
        VerilogOpUnary::Neg => "-",
        VerilogOpUnary::All => "&",
        VerilogOpUnary::Any => "|",
        VerilogOpUnary::Xor => "^",
    }
}

/// Writes an expression.
pub fn verilog_expression(e: &VerilogExpression) -> (s: String)
    ensures
        s@ == expression_text(e@),
    decreases e,
{
    match e {
        VerilogExpression::Signal(name) => name.clone(),
        VerilogExpression::Literal(l) => l.to_string(),
        VerilogExpression::Paren(inner) => {
            let mut s = String::from_str("(");
            s.append(verilog_expression(inner).as_str());
            s.append(")");
            s
        },
        VerilogExpression::Binary(l, op, r) => {
            let mut s = verilog_expression(l);
            s.append(" ");
            s.append(op_str(*op));
            s.append(" ");
            s.append(verilog_expression(r).as_str());
            s
        },
        VerilogExpression::Unary(op, inner) => {
            let mut s = String::from_str(unary_str(*op));
            s.append(verilog_expression(inner).as_str());
            s
        },
        VerilogExpression::Index(value, at) => {
            let mut s = verilog_expression(value);
            s.append("[");
            s.append(verilog_expression(at).as_str());
            s.append("]");
            s
        },
    }
}

fn emit_block(io: &mut CodeWriter, block: &VerilogBlock)
    requires
        old(io).wf(),
    ensures
        final(io).wf(),
        final(io)@.depth == old(io)@.depth,
        final(io)@.lines == old(io)@.lines + block_lines(block_view(block@), old(io)@.depth),
    decreases block,
{
    let ghost depth = io@.depth;
    let ghost all = block_view(block@);
    let mut i: usize = 0;
    while i < block.len()
        invariant
            i <= block.len(),
            io.wf(),
            io@.depth == depth,
            depth == old(io)@.depth,
            all == block_view(block@),
            io@.lines == old(io)@.lines + statements_lines(all, i as nat, depth),
        decreases block.len() - i,
    {
        let ghost before = io@.lines;
        match &block[i] {
            VerilogStatement::Assignment(target, value) => {
                let mut line = verilog_expression(target);
                line.append(" = ");
                line.append(verilog_expression(value).as_str());
                line.append(";");
                io.add_line(line.as_str());
            },
            VerilogStatement::If(c) => {
                proof {
                    lemma_conditional_view(*c);
                }
                let mut line = String::from_str("if (");
                line.append(verilog_expression(&c.test).as_str());
                line.append(") begin");
                io.add_line(line.as_str());
                io.push();
                emit_block(io, &c.when_true);
                io.pop();
                if c.when_false.len() == 0 {
                    io.add_line("end");
                } else {
                    io.add_line("end else begin");
                    io.push();
                    emit_block(io, &c.when_false);
                    io.pop();
                    io.add_line("end");
                }
            },
            VerilogStatement::Comment(text) => {
                let mut line = String::from_str("// ");
                line.append(text.as_str());
                io.add_line(line.as_str());
            },
        }
        proof {
            assert(all[i as int] == block@[i as int]@);
            assert(io@.lines =~= before + statement_lines(all[i as int], depth));
            assert(io@.lines =~= old(io)@.lines + statements_lines(all, (i + 1) as nat, depth));
        }
        i = i + 1;
    }
}

/// Writes a combinatorial block as an `always` block.
pub fn verilog_combinatorial(code: &VerilogBlock) -> (s: String)
    ensures
        s@ == combinatorial_text(block_view(code@)),
{
    let mut io = CodeWriter::new();
    io.add_line("always @(*) begin");
    io.push();
    emit_block(&mut io, code);
    io.pop();
    io.add_line("end");
    proof {
        assert(indentation(0) =~= Seq::<char>::empty());
        assert(indentation(0) + "always @(*) begin"@ =~= "always @(*) begin"@);
        assert(indentation(0) + "end"@ =~= "end"@);
        assert(io@.lines =~= seq!["always @(*) begin"@] + block_lines(block_view(code@), 1)
            + seq!["end"@]);
    }
    io.to_string()
}

} // verus!
