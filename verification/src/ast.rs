//! Behaviour fragments: what a block contributes as the body of its module.
//!
//! A fragment is empty, a combinatorial block of structured statements, text
//! to be taken as it is, or the text of a black box that stands outside the
//! generated module structure.

use vstd::prelude::*;
use vstd::string::*;
use vstd::arithmetic::power2::pow2;
use crate::text::{decimal, decimal_string, hexadecimal, hexadecimal_string};

verus! {

/// Why a width or a literal was refused.
#[derive(Clone, Copy, Debug, PartialEq, Eq, Structural)]
pub enum WidthError {
    /// The width is zero.
    ZeroWidth,
    /// The value does not fit in the width.
    ValueTooWide,
    /// More values are named than the width can represent, or the width has
    /// more values than can be counted.
    TooManyNames,
}

/// What a literal stands for: `value` written in `bits` bits.
pub struct Literal {
    pub bits: nat,
    pub value: nat,
}

impl Literal {
    /// The literal as Verilog writes it: width, `'h`, value in hexadecimal.
    pub open spec fn text(self) -> Seq<char> {
        decimal(self.bits) + "'h"@ + hexadecimal(self.value)
    }

    /// Whether `value` can be written in `bits` bits.
    pub open spec fn fits(self) -> bool {
        self.bits >= 1 && self.value < pow2(self.bits)
    }
}

/// A sized numeric literal.
#[derive(Clone, Copy, Debug, PartialEq, Eq)]
pub struct VerilogLiteral {
    bits: usize,
    value: u64,
}

impl View for VerilogLiteral {
    type V = Literal;

    closed spec fn view(&self) -> Literal {
        Literal { bits: self.bits as nat, value: self.value as nat }
    }
}

/// Whether `value` can be written in `bits` bits.
fn value_fits(bits: usize, value: u64) -> (r: bool)
    requires
        bits >= 1,
    ensures
        r == (value < pow2(bits as nat)),
{
    if bits >= 64 {
        proof {
            vstd::arithmetic::power2::lemma2_to64();
            if bits > 64 {
                vstd::arithmetic::power2::lemma_pow2_strictly_increases(64, bits as nat);
            }
        }
        true
    } else {
        let shift: u64 = bits as u64;
        let high: u64 = value >> shift;
        proof {
            vstd::bits::lemma_u64_shr_is_div(value, shift);
            vstd::arithmetic::power2::lemma_pow2_pos(bits as nat);
            let d = pow2(bits as nat) as int;
            if value < d {
                vstd::arithmetic::div_mod::lemma_basic_div(value as int, d);
            } else {
                vstd::arithmetic::div_mod::lemma_div_non_zero(value as int, d);
            }
        }
        high == 0
    }
}

impl VerilogLiteral {
    /// A literal of `bits` bits with the given value; refused where the width
    /// is zero or the value needs more bits.
    pub fn new(bits: usize, value: u64) -> (r: Result<VerilogLiteral, WidthError>)
        ensures
            match r {
                Ok(l) => l@ == (Literal { bits: bits as nat, value: value as nat }) && l@.fits(),
                Err(WidthError::ZeroWidth) => bits == 0,
                Err(WidthError::ValueTooWide) => bits >= 1 && value >= pow2(bits as nat),
                Err(WidthError::TooManyNames) => false,
            },
    {
        if bits == 0 {
            Err(WidthError::ZeroWidth)
        } else if !value_fits(bits, value) {
            Err(WidthError::ValueTooWide)
        } else {
            Ok(VerilogLiteral { bits, value })
        }
    }

    /// The width in bits.
    pub fn bits(&self) -> (b: usize)
        ensures
            b == self@.bits,
    {
        self.bits
    }

    /// The value.
    pub fn value(&self) -> (v: u64)
        ensures
            v == self@.value,
    {
        self.value
    }

    /// The literal as Verilog writes it.
    pub fn to_string(&self) -> (s: String)
        ensures
            s@ == self@.text(),
    {
        literal_string(self.bits, self.value)
    }
}

/// The value `value` in `bits` bits as Verilog writes it, whether it fits or
/// not.
pub fn literal_string(bits: usize, value: u64) -> (s: String)
    ensures
        s@ == (Literal { bits: bits as nat, value: value as nat }).text(),
{
    let mut s = decimal_string(bits);
    s.append("'h");
    s.append(hexadecimal_string(value).as_str());
    s
}

/// A two-operand operator.
#[derive(Clone, Copy, Debug, PartialEq, Eq, Structural)]
pub enum VerilogOp {
    Add,
    Sub,
    Mul,
    LogicalAnd,
    LogicalOr,
    BitXor,
    BitAnd,
    BitOr,
    Shl,
    Shr,
    Eq,
    Neq,
    Lt,
    Lte,
    Gt,
    Gte,
}

/// A one-operand operator.
#[derive(Clone, Copy, Debug, PartialEq, Eq, Structural)]
pub enum VerilogOpUnary {
    Not,
    Neg,
    All,
    Any,
    Xor,
}

/// What an expression stands for.
pub enum Expression {
    Signal(Seq<char>),
    Literal(Literal),
    Paren(Box<Expression>),
    Binary(Box<Expression>, VerilogOp, Box<Expression>),
    Unary(VerilogOpUnary, Box<Expression>),
    Index(Box<Expression>, Box<Expression>),
}

/// What a statement stands for.
pub enum Statement {
    Assignment(Expression, Expression),
    If(Expression, Seq<Statement>, Seq<Statement>),
    Comment(Seq<char>),
}

/// What a behaviour fragment stands for.
pub enum Fragment {
    Empty,
    Combinatorial(Seq<Statement>),
    Custom(Seq<char>),
    Blackbox(Seq<char>),
}

impl Fragment {
    /// Whether the fragment is the text of a black box.
    pub open spec fn is_blackbox(self) -> bool {
        self is Blackbox
    }
}

/// An expression over signals and literals.
#[derive(Debug)]
pub enum VerilogExpression {
    Signal(String),
    Literal(VerilogLiteral),
    Paren(Box<VerilogExpression>),
    Binary(Box<VerilogExpression>, VerilogOp, Box<VerilogExpression>),
    Unary(VerilogOpUnary, Box<VerilogExpression>),
    /// One bit of a value: the value, and the place of the bit.
    Index(Box<VerilogExpression>, Box<VerilogExpression>),
}

/// A test with the statements to run where it holds and where it does not.
#[derive(Debug)]
pub struct VerilogConditional {
    pub test: VerilogExpression,
    pub when_true: VerilogBlock,
    pub when_false: VerilogBlock,
}

/// A statement of a combinatorial block.
#[derive(Debug)]
pub enum VerilogStatement {
    Assignment(VerilogExpression, VerilogExpression),
    If(VerilogConditional),
    Comment(String),
}

/// Statements in the order in which they are written.
pub type VerilogBlock = Vec<VerilogStatement>;

/// The behaviour of one block.
#[derive(Debug)]
pub enum Verilog {
    Empty,
    Combinatorial(VerilogBlock),
    Custom(String),
    Blackbox(String),
}

impl View for VerilogExpression {
    type V = Expression;

    open spec fn view(&self) -> Expression
        decreases self,
    {
        match self {
            VerilogExpression::Signal(name) => Expression::Signal(name@),
            VerilogExpression::Literal(l) => Expression::Literal(l@),
            VerilogExpression::Paren(e) => Expression::Paren(Box::new((**e).view())),
            VerilogExpression::Binary(l, op, r) => Expression::Binary(
                Box::new((**l).view()),
                *op,
                Box::new((**r).view()),
            ),
            VerilogExpression::Unary(op, e) => Expression::Unary(*op, Box::new((**e).view())),
            VerilogExpression::Index(e, at) => Expression::Index(
                Box::new((**e).view()),
                Box::new((**at).view()),
            ),
        }
    }
}

impl View for VerilogStatement {
    type V = Statement;

    open spec fn view(&self) -> Statement {
        statement_view(*self)
    }
}

/// What a statement stands for.
pub open spec fn statement_view(s: VerilogStatement) -> Statement
    decreases s,
{
    match s {
        VerilogStatement::Assignment(target, value) => Statement::Assignment(target@, value@),
        VerilogStatement::If(c) => Statement::If(
            c.test@,
            statements_view(c.when_true@, c.when_true@.len()),
            statements_view(c.when_false@, c.when_false@.len()),
        ),
        VerilogStatement::Comment(text) => Statement::Comment(text@),
    }
}

/// What the first `n` statements of `block` stand for.
pub open spec fn statements_view(block: Seq<VerilogStatement>, n: nat) -> Seq<Statement>
    decreases block, n,
{
    if n == 0 || n > block.len() {
        Seq::empty()
    } else {
        statements_view(block, (n - 1) as nat).push(statement_view(block[n - 1]))
    }
}

/// What a block stands for: its statements, one by one.
pub open spec fn block_view(block: Seq<VerilogStatement>) -> Seq<Statement> {
    Seq::new(block.len(), |i: int| block[i]@)
}

/// The first `n` statements of a block stand for the first `n` of what the
/// block stands for.
pub proof fn lemma_statements_view(block: Seq<VerilogStatement>, n: nat)
    requires
        n <= block.len(),
    ensures
        statements_view(block, n) == block_view(block).take(n as int),
    decreases n,
{
    if n > 0 {
        lemma_statements_view(block, (n - 1) as nat);
    }
    assert(statements_view(block, n) =~= block_view(block).take(n as int));
}

impl View for Verilog {
    type V = Fragment;

    open spec fn view(&self) -> Fragment {
        match self {
            Verilog::Empty => Fragment::Empty,
            Verilog::Combinatorial(block) => Fragment::Combinatorial(block_view(block@)),
            Verilog::Custom(text) => Fragment::Custom(text@),
            Verilog::Blackbox(text) => Fragment::Blackbox(text@),
        }
    }
}

/// The view of a conditional statement, by its parts.
pub proof fn lemma_conditional_view(c: VerilogConditional)
    ensures
        VerilogStatement::If(c)@ == Statement::If(
            c.test@,
            block_view(c.when_true@),
            block_view(c.when_false@),
        ),
{
    lemma_statements_view(c.when_true@, c.when_true@.len());
    lemma_statements_view(c.when_false@, c.when_false@.len());
    assert(block_view(c.when_true@).take(c.when_true@.len() as int) =~= block_view(c.when_true@));
    assert(block_view(c.when_false@).take(c.when_false@.len() as int) =~= block_view(
        c.when_false@,
    ));
}

impl Clone for VerilogExpression {
    fn clone(&self) -> (r: Self)
        ensures
            r@ == self@,
        decreases self,
    {
        match self {
            VerilogExpression::Signal(name) => VerilogExpression::Signal(name.clone()),
            VerilogExpression::Literal(l) => VerilogExpression::Literal(*l),
            VerilogExpression::Paren(e) => VerilogExpression::Paren(Box::new((**e).clone())),
            VerilogExpression::Binary(l, op, r) => VerilogExpression::Binary(
                Box::new((**l).clone()),
                *op,
                Box::new((**r).clone()),
            ),
            VerilogExpression::Unary(op, e) => VerilogExpression::Unary(
                *op,
                Box::new((**e).clone()),
            ),
            VerilogExpression::Index(e, at) => VerilogExpression::Index(
                Box::new((**e).clone()),
                Box::new((**at).clone()),
            ),
        }
    }
}

/// A copy of `block`.
pub fn clone_block(block: &VerilogBlock) -> (r: VerilogBlock)
    ensures
        block_view(r@) == block_view(block@),
    decreases block,
{
    let mut out: VerilogBlock = Vec::new();
    let mut i: usize = 0;
    while i < block.len()
        invariant
            i <= block.len(),
            out.len() == i,
            forall|j: int| 0 <= j < i ==> out[j]@ == block[j]@,
        decreases block.len() - i,
    {
        let copy = match &block[i] {
            VerilogStatement::Assignment(target, value) => VerilogStatement::Assignment(
                target.clone(),
                value.clone(),
            ),
            VerilogStatement::If(c) => {
                let copy = VerilogConditional {
                    test: c.test.clone(),
                    when_true: clone_block(&c.when_true),
                    when_false: clone_block(&c.when_false),
                };
                proof {
                    lemma_conditional_view(copy);
                    lemma_conditional_view(*c);
                }
                VerilogStatement::If(copy)
            },
            VerilogStatement::Comment(text) => VerilogStatement::Comment(text.clone()),
        };
        out.push(copy);
        i = i + 1;
    }
    assert(block_view(out@) =~= block_view(block@));
    out
}

impl Clone for Verilog {
    fn clone(&self) -> (r: Self)
        ensures
            r@ == self@,
    {
        match self {
            Verilog::Empty => Verilog::Empty,
            Verilog::Combinatorial(block) => Verilog::Combinatorial(clone_block(block)),
            Verilog::Custom(text) => Verilog::Custom(text.clone()),
            Verilog::Blackbox(text) => Verilog::Blackbox(text.clone()),
        }
    }
}

/// The expression that reads the signal `name`.
pub fn signal(name: &str) -> (e: VerilogExpression)
    ensures
        e@ == Expression::Signal(name@),
{
    VerilogExpression::Signal(String::from_str(name))
}

/// The expression `left op right`.
pub fn binary(left: VerilogExpression, op: VerilogOp, right: VerilogExpression) -> (e:
    VerilogExpression)
    ensures
        e@ == Expression::Binary(Box::new(left@), op, Box::new(right@)),
{
    VerilogExpression::Binary(Box::new(left), op, Box::new(right))
}

/// The expression `(inner)`.
pub fn paren(inner: VerilogExpression) -> (e: VerilogExpression)
    ensures
        e@ == Expression::Paren(Box::new(inner@)),
{
    VerilogExpression::Paren(Box::new(inner))
}

/// The expression `value[at]`.
pub fn index(value: VerilogExpression, at: VerilogExpression) -> (e: VerilogExpression)
    ensures
        e@ == Expression::Index(Box::new(value@), Box::new(at@)),
{
    VerilogExpression::Index(Box::new(value), Box::new(at))
}

/// The statement that gives `target` the value of `value`.
pub fn assign_to(target: VerilogExpression, value: VerilogExpression) -> (s: VerilogStatement)
    ensures
        s@ == Statement::Assignment(target@, value@),
{
    VerilogStatement::Assignment(target, value)
}

/// The statement that gives the signal `target` the value of `value`.
pub fn assign(target: &str, value: VerilogExpression) -> (s: VerilogStatement)
    ensures
        s@ == Statement::Assignment(Expression::Signal(target@), value@),
{
    VerilogStatement::Assignment(VerilogExpression::Signal(String::from_str(target)), value)
}

/// The statement that runs `body` where `test` holds.
pub fn guarded(test: VerilogExpression, body: VerilogBlock) -> (s: VerilogStatement)
    ensures
        s@ == Statement::If(test@, block_view(body@), Seq::empty()),
{
    let c = VerilogConditional { test, when_true: body, when_false: Vec::new() };
    proof {
        lemma_conditional_view(c);
        assert(block_view(c.when_false@) =~= Seq::empty());
    }
    VerilogStatement::If(c)
}

} // verus!
