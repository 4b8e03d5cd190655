//! A pulse width modulator.

use vstd::prelude::*;
use vstd::string::*;
use vstd::arithmetic::power2::pow2;
use crate::ast::{
    assign, binary, block_view, paren, signal, Expression, Fragment, Statement, Verilog,
    VerilogBlock, VerilogOp, WidthError,
};
use crate::atom::{plain, Atom, AtomKind, Signal};
use crate::bits::{kept, wrapping_add};
use crate::block::{lemma_members, members_wf, walk_members, Block, Hierarchy, Member};
use crate::logic::Logic;
use crate::probe::Probe;
use crate::widgets::dff::DFF;
use crate::widgets::strobe::{literal_one, one};

verus! {

/// The behaviour of a pulse width modulator: a counter that runs free on the
/// modulator's clock, and an output that is high while the modulator is
/// enabled and the counter is below the threshold.
pub open spec fn pwm_block() -> Seq<Statement> {
    seq![
        Statement::Assignment(Expression::Signal("counter_clk"@), Expression::Signal("clock"@)),
        Statement::Assignment(
            Expression::Signal("counter_d"@),
            Expression::Binary(
                Box::new(Expression::Signal("counter_q"@)),
                VerilogOp::Add,
                Box::new(one()),
            ),
        ),
        Statement::Assignment(
            Expression::Signal("active"@),
            Expression::Binary(
                Box::new(Expression::Signal("enable"@)),
                VerilogOp::LogicalAnd,
                Box::new(
                    Expression::Paren(
                        Box::new(
                            Expression::Binary(
                                Box::new(Expression::Signal("counter_q"@)),
                                VerilogOp::Lt,
                                Box::new(Expression::Signal("threshold"@)),
                            ),
                        ),
                    ),
                ),
            ),
        ),
    ]
}

/// A pulse whose width follows a threshold of `N` bits.
#[derive(Debug)]
pub struct PulseWidthModulator<const N: usize> {
    pub enable: Signal,
    pub threshold: Signal,
    pub clock: Signal,
    pub active: Signal,
    pub counter: DFF,
}

impl<const N: usize> PulseWidthModulator<N> {
    /// The parts of a modulator, as its module declares them.
    pub open spec fn members(&self) -> Seq<Member> {
        seq![
            Member { name: "enable"@, node: Hierarchy::Atom(self.enable.info()) },
            Member { name: "threshold"@, node: Hierarchy::Atom(self.threshold.info()) },
            Member { name: "clock"@, node: Hierarchy::Atom(self.clock.info()) },
            Member { name: "active"@, node: Hierarchy::Atom(self.active.info()) },
            Member { name: "counter"@, node: self.counter.hierarchy() },
        ]
    }

    /// The modulator is as it is made.
    pub open spec fn at_rest(&self) -> bool {
        &&& self.enable.info() == plain(AtomKind::InputParameter, 1, 0)
        &&& self.threshold.info() == plain(AtomKind::InputParameter, N as nat, 0)
        &&& self.clock.info() == plain(AtomKind::InputParameter, 1, 0)
        &&& self.active.info() == plain(AtomKind::OutputParameter, 1, 0)
        &&& self.counter.at_rest(N as nat, 0)
    }

    /// A modulator at rest; refused where `N` is zero.
    pub fn new() -> (r: Result<PulseWidthModulator<N>, WidthError>)
        ensures
            match r {
                Ok(m) => {
                    &&& N >= 1
                    &&& m.hierarchy().wf()
                    &&& m.at_rest()
                },
                Err(e) => N == 0 && e == WidthError::ZeroWidth,
            },
    {
        if N == 0 {
            return Err(WidthError::ZeroWidth);
        }
        proof {
            vstd::arithmetic::power2::lemma_pow2_pos(N as nat);
        }
        let enable = Signal::new(AtomKind::InputParameter, 1).unwrap();
        let threshold = Signal::new(AtomKind::InputParameter, N).unwrap();
        let clock = Signal::new(AtomKind::InputParameter, 1).unwrap();
        let active = Signal::new(AtomKind::OutputParameter, 1).unwrap();
        let counter = DFF::new(N, 0).unwrap();
        let m = PulseWidthModulator { enable, threshold, clock, active, counter };
        proof {
            reveal_with_fuel(members_wf, 6);
            assert(m.members().len() == 5);
            assert(members_wf(m.members(), 5));
        }
        Ok(m)
    }
}

impl<const N: usize> Logic for PulseWidthModulator<N> {
    open spec fn fragment(&self) -> Fragment {
        Fragment::Combinatorial(pwm_block())
    }

    open spec fn connects(&self, after: &Self) -> bool {
        *after == *self
    }

    /// One step: the counter gets the modulator's clock and counts up; the
    /// output is high next where the modulator is enabled and the counter is
    /// below the threshold.
    fn update(&mut self)
        ensures
            final(self).counter.clk.pending() == old(self).clock.value(),
            final(self).counter.d.pending() == (old(self).counter.q.value() + 1) % pow2(
                kept(N as nat),
            ),
            final(self).active.pending() == if old(self).enable.value() != 0 && old(
                self,
            ).counter.q.value() < old(self).threshold.value() {
                1nat
            } else {
                0nat
            },
            final(self).active.info() == old(self).active.info(),
            final(self).counter.clk.info() == old(self).counter.clk.info(),
            final(self).counter.d.info() == old(self).counter.d.info(),
            final(self).enable == old(self).enable,
            final(self).threshold == old(self).threshold,
            final(self).clock == old(self).clock,
            final(self).counter.q == old(self).counter.q,
            final(self).counter.default == old(self).counter.default,
    {
        self.counter.clk.set_next(self.clock.val());
        self.counter.d.set_next(wrapping_add(self.counter.q.val(), 1, N));
        let high: u64 = if self.enable.val() != 0 && self.counter.q.val() < self.threshold.val() {
            1
        } else {
            0
        };
        self.active.set_next(high);
    }

    fn connect(&mut self) {
    }

    fn hdl(&self) -> (code: Verilog) {
        let mut block: VerilogBlock = Vec::new();
        block.push(assign("counter_clk", signal("clock")));
        block.push(assign("counter_d", binary(signal("counter_q"), VerilogOp::Add, literal_one())));
        block.push(
            assign(
                "active",
                binary(
                    signal("enable"),
                    VerilogOp::LogicalAnd,
                    paren(binary(signal("counter_q"), VerilogOp::Lt, signal("threshold"))),
                ),
            ),
        );
        assert(block_view(block@) =~= pwm_block());
        Verilog::Combinatorial(block)
    }
}

impl<const N: usize> Block for PulseWidthModulator<N> {
    open spec fn hierarchy(&self) -> Hierarchy {
        Hierarchy::Scope(self.fragment(), self.members())
    }

    fn accept<P: Probe>(&self, name: &str, probe: &mut P) {
        let ghost members = self.members();
        proof {
            lemma_members(members, 5, 0);
            lemma_members(members, 5, 1);
            lemma_members(members, 5, 2);
            lemma_members(members, 5, 3);
            lemma_members(members, 5, 4);
        }
        probe.visit_start_scope(name, self);
        let ghost entered = probe@;
        assert(probe@ == walk_members::<P>(entered, members, 0));
        self.enable.accept("enable", probe);
        assert(probe@ == walk_members::<P>(entered, members, 1));
        self.threshold.accept("threshold", probe);
        assert(probe@ == walk_members::<P>(entered, members, 2));
        self.clock.accept("clock", probe);
        assert(probe@ == walk_members::<P>(entered, members, 3));
        self.active.accept("active", probe);
        assert(probe@ == walk_members::<P>(entered, members, 4));
        self.counter.accept("counter", probe);
        assert(probe@ == walk_members::<P>(entered, members, 5));
        probe.visit_end_scope(name, self);
    }
}

} // verus!
