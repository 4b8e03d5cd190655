//! A pulse of one clock at a fixed rate.

use vstd::prelude::*;
use vstd::string::*;
use vstd::arithmetic::power2::{lemma2_to64, pow2};
use crate::ast::{
    assign, binary, block_view, paren, signal, guarded, Expression, Fragment, Literal, Statement,
    Verilog, VerilogBlock, VerilogExpression, VerilogLiteral, VerilogOp,
};
use crate::atom::{plain, Atom, AtomKind, Signal};
use crate::bits::{kept, wrapping_add};
use crate::block::{lemma_members, members_wf, walk_members, Block, Hierarchy, Member};
use crate::logic::Logic;
use crate::probe::Probe;
use crate::widgets::dff::DFF;

verus! {

/// The literal one, in thirty-two bits.
pub open spec fn one() -> Expression {
    Expression::Literal(Literal { bits: 32, value: 1 })
}

/// The behaviour of a strobe: the counter runs on the strobe's clock; it
/// counts up while the strobe is enabled; the strobe is raised where the
/// counter has reached the threshold, and then the counter starts again
/// from one.
pub open spec fn strobe_block() -> Seq<Statement> {
    seq![
        Statement::Assignment(Expression::Signal("counter_clk"@), Expression::Signal("clock"@)),
        Statement::Assignment(Expression::Signal("counter_d"@), Expression::Signal("counter_q"@)),
        Statement::If(
            Expression::Signal("enable"@),
            seq![
                Statement::Assignment(
                    Expression::Signal("counter_d"@),
                    Expression::Binary(
                        Box::new(Expression::Signal("counter_q"@)),
                        VerilogOp::Add,
                        Box::new(one()),
                    ),
                ),
            ],
            Seq::empty(),
        ),
        Statement::Assignment(
            Expression::Signal("strobe"@),
            Expression::Binary(
                Box::new(Expression::Signal("enable"@)),
                VerilogOp::BitAnd,
                Box::new(
                    Expression::Paren(
                        Box::new(
                            Expression::Binary(
                                Box::new(Expression::Signal("counter_q"@)),
                                VerilogOp::Eq,
                                Box::new(Expression::Signal("threshold"@)),
                            ),
                        ),
                    ),
                ),
            ),
        ),
        Statement::If(
            Expression::Signal("strobe"@),
            seq![Statement::Assignment(Expression::Signal("counter_d"@), one())],
            Seq::empty(),
        ),
    ]
}

/// The literal one, in thirty-two bits.
pub fn literal_one() -> (e: VerilogExpression)
    ensures
        e@ == one(),
{
    proof {
        lemma2_to64();
    }
    match VerilogLiteral::new(32, 1) {
        Ok(l) => VerilogExpression::Literal(l),
        Err(_) => {
            assert(false);
            signal("")
        },
    }
}

/// Raises `strobe` for one clock each time its counter, of `N` bits, reaches
/// the threshold.
#[derive(Debug)]
pub struct Strobe<const N: usize> {
    pub enable: Signal,
    pub strobe: Signal,
    pub clock: Signal,
    /// The number of clocks from one pulse to the next.
    pub threshold: Signal,
    pub counter: DFF,
}

impl<const N: usize> Strobe<N> {
    /// The parts of a strobe, as its module declares them.
    pub open spec fn members(&self) -> Seq<Member> {
        seq![
            Member { name: "enable"@, node: Hierarchy::Atom(self.enable.info()) },
            Member { name: "strobe"@, node: Hierarchy::Atom(self.strobe.info()) },
            Member { name: "clock"@, node: Hierarchy::Atom(self.clock.info()) },
            Member { name: "threshold"@, node: Hierarchy::Atom(self.threshold.info()) },
            Member { name: "counter"@, node: self.counter.hierarchy() },
        ]
    }

    /// The strobe is one that pulses once every `threshold` clocks, as it is
    /// made.
    pub open spec fn at_rest(&self, threshold: nat) -> bool {
        &&& self.enable.info() == plain(AtomKind::InputParameter, 1, 0)
        &&& self.strobe.info() == plain(AtomKind::OutputParameter, 1, 0)
        &&& self.clock.info() == plain(AtomKind::InputParameter, 1, 0)
        &&& self.threshold.info() == plain(AtomKind::Constant, N as nat, threshold)
        &&& self.counter.at_rest(N as nat, 0)
    }

    /// A strobe that pulses once every `threshold` clocks. The threshold is
    /// above one and fits `N` bits.
    pub fn new(threshold: u64) -> (s: Strobe<N>)
        requires
            1 < threshold < pow2(N as nat),
        ensures
            s.hierarchy().wf(),
            s.at_rest(threshold as nat),
    {
        proof {
            lemma2_to64();
            if N == 0 {
                assert(pow2(0) == 1);
            }
            vstd::arithmetic::power2::lemma_pow2_pos(N as nat);
        }
        let enable = Signal::new(AtomKind::InputParameter, 1).unwrap();
        let strobe = Signal::new(AtomKind::OutputParameter, 1).unwrap();
        let clock = Signal::new(AtomKind::InputParameter, 1).unwrap();
        let limit = Signal::constant(N, threshold).unwrap();
        let counter = DFF::new(N, 0).unwrap();
        let s = Strobe { enable, strobe, clock, threshold: limit, counter };
        proof {
            reveal_with_fuel(members_wf, 6);
            let members = s.members();
            assert(members.len() == 5);
            assert(members_wf(members, 5));
        }
        s
    }
}

impl<const N: usize> Logic for Strobe<N> {
    open spec fn fragment(&self) -> Fragment {
        Fragment::Combinatorial(strobe_block())
    }

    open spec fn connects(&self, after: &Self) -> bool {
        *after == *self
    }

    /// One step: the counter gets the strobe's clock; it keeps its value,
    /// counts up where the strobe is enabled, and starts again from one where
    /// the strobe is raised; the strobe is raised next where it is enabled
    /// and the counter has reached the threshold.
    fn update(&mut self)
        ensures
            final(self).counter.clk.pending() == old(self).clock.value(),
            final(self).counter.d.pending() == if old(self).strobe.value() != 0 {
                1
            } else if old(self).enable.value() != 0 {
                (old(self).counter.q.value() + 1) % pow2(kept(N as nat))
            } else {
                old(self).counter.q.value()
            },
            final(self).strobe.pending() == (old(self).enable.value() as u64 & (if old(
                self,
            ).counter.q.value() == old(self).threshold.value() {
                1u64
            } else {
                0u64
            })),
            final(self).strobe.info() == old(self).strobe.info(),
            final(self).counter.clk.info() == old(self).counter.clk.info(),
            final(self).counter.d.info() == old(self).counter.d.info(),
            final(self).enable == old(self).enable,
            final(self).clock == old(self).clock,
            final(self).threshold == old(self).threshold,
            final(self).counter.q == old(self).counter.q,
            final(self).counter.default == old(self).counter.default,
    {
        // Connect the counter clock to my clock
        self.counter.clk.set_next(self.clock.val());
        // Latch prevention
        self.counter.d.set_next(self.counter.q.val());
        if self.enable.val() != 0 {
            self.counter.d.set_next(wrapping_add(self.counter.q.val(), 1, N));
        }
        let reached: u64 = if self.counter.q.val() == self.threshold.val() {
            1
        } else {
            0
        };
        self.strobe.set_next(self.enable.val() & reached);
        if self.strobe.val() != 0 {
            self.counter.d.set_next(1);
        }
    }

    fn connect(&mut self) {
    }

    fn hdl(&self) -> (code: Verilog) {
        let mut counting: VerilogBlock = Vec::new();
        counting.push(assign("counter_d", binary(signal("counter_q"), VerilogOp::Add, literal_one())));
        let mut restart: VerilogBlock = Vec::new();
        restart.push(assign("counter_d", literal_one()));
        let mut block: VerilogBlock = Vec::new();
        block.push(assign("counter_clk", signal("clock")));
        block.push(assign("counter_d", signal("counter_q")));
        block.push(guarded(signal("enable"), counting));
        block.push(
            assign(
                "strobe",
                binary(
                    signal("enable"),
                    VerilogOp::BitAnd,
                    paren(binary(signal("counter_q"), VerilogOp::Eq, signal("threshold"))),
                ),
            ),
        );
        block.push(guarded(signal("strobe"), restart));
        proof {
            assert(block_view(counting@) =~= strobe_block()[2]->If_1);
            assert(block_view(restart@) =~= strobe_block()[4]->If_1);
            assert(block_view(block@) =~= strobe_block());
        }
        Verilog::Combinatorial(block)
    }
}

impl<const N: usize> Block for Strobe<N> {
    open spec fn hierarchy(&self) -> Hierarchy {
        Hierarchy::Scope(self.fragment(), self.members())
    }

    fn accept<P: Probe>(&self, name: &str, probe: &mut P) {
        let ghost members = self.members();
        proof {
            lemma_members(members, 5, 0);
            lemma_members(members, 5, 1);
            lemma_members(members, 5, 2);
            lemma_members(members, 5, 3);
            lemma_members(members, 5, 4);
        }
        probe.visit_start_scope(name, self);
        let ghost entered = probe@;
        assert(probe@ == walk_members::<P>(entered, members, 0));
        self.enable.accept("enable", probe);
        assert(probe@ == walk_members::<P>(entered, members, 1));
        self.strobe.accept("strobe", probe);
        assert(probe@ == walk_members::<P>(entered, members, 2));
        self.clock.accept("clock", probe);
        assert(probe@ == walk_members::<P>(entered, members, 3));
        self.threshold.accept("threshold", probe);
        assert(probe@ == walk_members::<P>(entered, members, 4));
        self.counter.accept("counter", probe);
        assert(probe@ == walk_members::<P>(entered, members, 5));
        probe.visit_end_scope(name, self);
    }
}

} // verus!
