//! Eight lights that breathe out of step, behind a phase locked loop.

use vstd::prelude::*;
use vstd::string::*;
use vstd::arithmetic::power2::lemma2_to64;
use crate::ast::{
    assign, assign_to, block_view, index, signal, Expression, Fragment, Literal, Statement, Verilog,
    VerilogBlock, VerilogExpression, VerilogLiteral, VerilogStatement,
};
use crate::atom::{plain, Atom, AtomKind, Signal};
use crate::block::{
    lemma_members, members_wf, row_members, walk_members, Block, Hierarchy, Member,
};
use crate::logic::Logic;
use crate::probe::Probe;
use crate::text::{decimal, decimal_string};
use crate::widgets::fader::{wire, FaderWithSyncROM};

verus! {

/// A phase locked loop: a black box that makes one clock from another.
#[derive(Debug)]
pub struct Pll {
    pub clock_in: Signal,
    pub clock_out: Signal,
    /// The Verilog text of the loop.
    pub text: String,
}

impl Pll {
    /// The parts of the loop, as a parent sees them.
    pub open spec fn members(&self) -> Seq<Member> {
        seq![
            Member { name: "clock_in"@, node: Hierarchy::Atom(self.clock_in.info()) },
            Member { name: "clock_out"@, node: Hierarchy::Atom(self.clock_out.info()) },
        ]
    }

    /// The phase locked loop with the Verilog text `text`.
    pub fn new(text: &str) -> (pll: Pll)
        ensures
            pll.hierarchy().wf(),
            pll.text@ == text@,
            pll.clock_in.info() == plain(AtomKind::InputParameter, 1, 0),
            pll.clock_out.info() == plain(AtomKind::OutputParameter, 1, 0),
    {
        let clock_in = Signal::new(AtomKind::InputParameter, 1).unwrap();
        let clock_out = Signal::new(AtomKind::OutputParameter, 1).unwrap();
        let pll = Pll { clock_in, clock_out, text: String::from_str(text) };
        proof {
            reveal_with_fuel(members_wf, 3);
            assert(pll.members().len() == 2);
            assert(members_wf(pll.members(), 2));
        }
        pll
    }
}

impl Logic for Pll {
    open spec fn fragment(&self) -> Fragment {
        Fragment::Blackbox(self.text@)
    }

    open spec fn connects(&self, after: &Self) -> bool {
        *after == *self
    }

    fn update(&mut self) {
    }

    fn connect(&mut self) {
    }

    fn hdl(&self) -> (code: Verilog) {
        Verilog::Blackbox(self.text.clone())
    }
}

impl Block for Pll {
    open spec fn hierarchy(&self) -> Hierarchy {
        Hierarchy::Scope(self.fragment(), self.members())
    }

    fn accept<P: Probe>(&self, name: &str, probe: &mut P) {
        let ghost members = self.members();
        proof {
            lemma_members(members, 2, 0);
            lemma_members(members, 2, 1);
        }
        probe.visit_start_scope(name, self);
        let ghost entered = probe@;
        assert(probe@ == walk_members::<P>(entered, members, 0));
        self.clock_in.accept("clock_in", probe);
        assert(probe@ == walk_members::<P>(entered, members, 1));
        self.clock_out.accept("clock_out", probe);
        assert(probe@ == walk_members::<P>(entered, members, 2));
        probe.visit_end_scope(name, self);
    }
}

/// `value` with bit `at` replaced by the lowest bit of `bit`.
pub open spec fn with_bit(value: u64, at: u64, bit: u64) -> u64 {
    (value & !(1u64 << at)) | ((bit & 1) << at)
}

/// `value` with bit `at` replaced by the lowest bit of `bit`.
pub fn replace_bit(value: u64, at: u64, bit: u64) -> (r: u64)
    requires
        at < 64,
    ensures
        r == with_bit(value, at, bit),
{
    (value & !(1u64 << at)) | ((bit & 1) << at)
}

/// The statements that give light `i` its clock and enable it.
pub open spec fn clocking(i: nat) -> Seq<Statement> {
    seq![
        wire(decimal(i) + "_clock"@, "pll_clock_out"@),
        Statement::Assignment(
            Expression::Signal(decimal(i) + "_enable"@),
            Expression::Literal(Literal { bits: 1, value: 1 }),
        ),
    ]
}

/// The statements that clock and enable the first `n` lights.
pub open spec fn clockings(n: nat) -> Seq<Statement>
    decreases n,
{
    if n == 0 {
        Seq::empty()
    } else {
        clockings((n - 1) as nat) + clocking((n - 1) as nat)
    }
}

/// The statement that takes bit `i` of the outputs from light `i`.
pub open spec fn gathering(i: nat) -> Statement {
    Statement::Assignment(
        Expression::Index(
            Box::new(Expression::Signal("local"@)),
            Box::new(Expression::Literal(Literal { bits: 32, value: i })),
        ),
        Expression::Signal(decimal(i) + "_active"@),
    )
}

/// The statements that take the outputs of the first `n` lights.
pub open spec fn gatherings(n: nat) -> Seq<Statement>
    decreases n,
{
    if n == 0 {
        Seq::empty()
    } else {
        gatherings((n - 1) as nat).push(gathering((n - 1) as nat))
    }
}

/// The behaviour of the whole: the phase locked loop gets the clock; each
/// light gets the loop's clock and is enabled; the outputs of the lights are
/// gathered bit by bit and given to the pins.
pub open spec fn pwm_vec_block() -> Seq<Statement> {
    seq![wire("pll_clock_in"@, "clock"@)] + clockings(8) + seq![
        Statement::Assignment(
            Expression::Signal("local"@),
            Expression::Literal(Literal { bits: 8, value: 0 }),
        ),
    ] + gatherings(8) + seq![wire("leds"@, "local"@)]
}

/// A literal that is known to fit.
fn literal(bits: usize, value: u64) -> (e: VerilogExpression)
    requires
        bits == 1 && value == 1 || bits == 8 && value == 0 || bits == 32 && value < 8,
    ensures
        e@ == Expression::Literal(Literal { bits: bits as nat, value: value as nat }),
{
    proof {
        lemma2_to64();
    }
    match VerilogLiteral::new(bits, value) {
        Ok(l) => VerilogExpression::Literal(l),
        Err(_) => {
            assert(false);
            signal("")
        },
    }
}

/// A block with one more statement stands for one more statement.
proof fn lemma_block_push(block: Seq<VerilogStatement>, s: VerilogStatement)
    ensures
        block_view(block.push(s)) == block_view(block).push(s@),
{
    assert(block_view(block.push(s)) =~= block_view(block).push(s@));
}

/// Eight lights on a board: the clock pin, the pins of the lights, the wires
/// that gather the outputs, the lights themselves, and the phase locked loop
/// that makes their clock.
#[derive(Debug)]
pub struct AlchitryCuPWMVecSyncROM<const P: usize> {
    pub clock: Signal,
    pub leds: Signal,
    pub local: Signal,
    pub faders: [FaderWithSyncROM; 8],
    pub pll: Pll,
}

impl<const P: usize> AlchitryCuPWMVecSyncROM<P> {
    /// The parts of the whole, as its module declares them.
    pub open spec fn members(&self) -> Seq<Member> {
        seq![
            Member { name: "clock"@, node: Hierarchy::Atom(self.clock.info()) },
            Member { name: "leds"@, node: Hierarchy::Atom(self.leds.info()) },
            Member { name: "local"@, node: Hierarchy::Atom(self.local.info()) },
            Member { name: "faders"@, node: self.faders.hierarchy() },
            Member { name: "pll"@, node: self.pll.hierarchy() },
        ]
    }

    /// The lights on a board that gives the clock pin, the pins of the lights
    /// and the phase locked loop.
    pub fn new(clock: Signal, leds: Signal, faders: [FaderWithSyncROM; 8], pll: Pll) -> (r: Self)
        requires
            clock.info().wf(),
            leds.info().wf(),
            faders.hierarchy().wf(),
            pll.hierarchy().wf(),
        ensures
            r.hierarchy().wf(),
            r.clock == clock,
            r.leds == leds,
            r.faders == faders,
            r.pll == pll,
            r.local.info() == plain(AtomKind::LocalSignal, 8, 0),
    {
        let local = Signal::new(AtomKind::LocalSignal, 8).unwrap();
        let r = AlchitryCuPWMVecSyncROM { clock, leds, local, faders, pll };
        proof {
            reveal_with_fuel(members_wf, 6);
            assert(r.members().len() == 5);
            assert(members_wf(r.members(), 5));
        }
        r
    }
}

impl<const P: usize> Logic for AlchitryCuPWMVecSyncROM<P> {
    open spec fn fragment(&self) -> Fragment {
        Fragment::Combinatorial(pwm_vec_block())
    }

    open spec fn connects(&self, after: &Self) -> bool {
        *after == *self
    }

    /// One step: the phase locked loop gets the clock; every light gets the
    /// loop's clock and is enabled; the gathering wires get their value with
    /// the bit of the last light replaced; the pins get the gathering wires.
    #[verifier::rlimit(40)]
    fn update(&mut self)
        ensures
            final(self).pll.clock_in.pending() == old(self).clock.value(),
            forall|i: int|
                0 <= i < 8 ==> {
                    &&& (#[trigger] final(self).faders[i]).clock.pending() == old(
                        self,
                    ).pll.clock_out.value()
                    &&& final(self).faders[i].enable.pending() == 1
                    &&& final(self).faders[i].hierarchy() == old(self).faders[i].hierarchy()
                    &&& final(self).faders[i].active == old(self).faders[i].active
                },
            final(self).local.pending() == with_bit(
                old(self).local.value() as u64,
                7,
                old(self).faders[7].active.value() as u64,
            ),
            final(self).leds.pending() == old(self).local.value(),
            final(self).hierarchy() == old(self).hierarchy(),
            final(self).clock == old(self).clock,
    {
        self.pll.clock_in.set_next(self.clock.val());
        let mut i: usize = 0;
        while i < 8
            invariant
                i <= 8,
                self.clock == old(self).clock,
                self.leds == old(self).leds,
                self.local == old(self).local,
                self.pll.clock_out == old(self).pll.clock_out,
                self.pll.text == old(self).pll.text,
                self.pll.clock_in.info() == old(self).pll.clock_in.info(),
                self.pll.clock_in.pending() == old(self).clock.value(),
                forall|j: int|
                    0 <= j < i ==> {
                        &&& (#[trigger] self.faders[j]).clock.pending() == old(
                            self,
                        ).pll.clock_out.value()
                        &&& self.faders[j].enable.pending() == 1
                        &&& self.faders[j].hierarchy() == old(self).faders[j].hierarchy()
                        &&& self.faders[j].active == old(self).faders[j].active
                    },
                forall|j: int| i <= j < 8 ==> (#[trigger] self.faders[j]) == old(self).faders[j],
            decreases 8 - i,
        {
            let ghost before = self.faders[i as int];
            self.faders[i].clock.set_next(self.pll.clock_out.val());
            self.faders[i].enable.set_next(1);
            proof {
                assert(self.faders[i as int].members() =~= before.members());
            }
            i = i + 1;
        }
        self.local.set_next(0x00);
        let mut k: u64 = 0;
        while k < 8
            invariant
                k <= 8,
                self.clock == old(self).clock,
                self.leds == old(self).leds,
                self.pll.clock_out == old(self).pll.clock_out,
                self.pll.text == old(self).pll.text,
                self.pll.clock_in.info() == old(self).pll.clock_in.info(),
                self.pll.clock_in.pending() == old(self).clock.value(),
                self.local.info() == old(self).local.info(),
                k > 0 ==> self.local.pending() == with_bit(
                    old(self).local.value() as u64,
                    (k - 1) as u64,
                    old(self).faders[k - 1].active.value() as u64,
                ),
                forall|j: int|
                    0 <= j < 8 ==> {
                        &&& (#[trigger] self.faders[j]).clock.pending() == old(
                            self,
                        ).pll.clock_out.value()
                        &&& self.faders[j].enable.pending() == 1
                        &&& self.faders[j].hierarchy() == old(self).faders[j].hierarchy()
                        &&& self.faders[j].active == old(self).faders[j].active
                    },
            decreases 8 - k,
        {
            let bit = self.faders[k as usize].active.val();
            self.local.set_next(replace_bit(self.local.val(), k, bit));
            k = k + 1;
        }
        self.leds.set_next(self.local.val());
        proof {
            assert(row_members(self.faders@) =~= row_members(old(self).faders@));
            assert(self.pll.members() =~= old(self).pll.members());
            assert(self.members() =~= old(self).members());
        }
    }

    fn connect(&mut self) {
    }

    #[verifier::rlimit(40)]
    fn hdl(&self) -> (code: Verilog) {
        let mut block: VerilogBlock = Vec::new();
        block.push(assign("pll_clock_in", signal("clock")));
        let ghost head = block_view(block@);
        assert(head =~= seq![wire("pll_clock_in"@, "clock"@)]);
        let mut i: usize = 0;
        assert(block_view(block@) =~= head + clockings(0));
        while i < 8
            invariant
                i <= 8,
                block_view(block@) == head + clockings(i as nat),
            decreases 8 - i,
        {
            let mut clock = decimal_string(i);
            clock.append("_clock");
            let mut enable = decimal_string(i);
            enable.append("_enable");
            let ghost before = block@;
            let first = assign(clock.as_str(), signal("pll_clock_out"));
            let second = assign(enable.as_str(), literal(1, 1));
            proof {
                lemma_block_push(before, first);
                lemma_block_push(before.push(first), second);
                assert(head + clockings((i + 1) as nat) =~= (head + clockings(i as nat)).push(
                    first@,
                ).push(second@));
            }
            block.push(first);
            block.push(second);
            i = i + 1;
        }
        let ghost clocked = block_view(block@);
        let reset = assign("local", literal(8, 0));
        proof {
            lemma_block_push(block@, reset);
        }
        block.push(reset);
        let ghost cleared = block_view(block@);
        let mut k: usize = 0;
        assert(block_view(block@) =~= cleared + gatherings(0));
        while k < 8
            invariant
                k <= 8,
                block_view(block@) == cleared + gatherings(k as nat),
            decreases 8 - k,
        {
            let mut active = decimal_string(k);
            active.append("_active");
            let one = assign_to(index(signal("local"), literal(32, k as u64)), signal(active.as_str()));
            proof {
                lemma_block_push(block@, one);
                assert(cleared + gatherings((k + 1) as nat) =~= (cleared + gatherings(
                    k as nat,
                )).push(one@));
            }
            block.push(one);
            k = k + 1;
        }
        let last = assign("leds", signal("local"));
        proof {
            lemma_block_push(block@, last);
            assert((cleared + gatherings(8)).push(last@) =~= pwm_vec_block());
        }
        block.push(last);
        Verilog::Combinatorial(block)
    }
}

impl<const W: usize> Block for AlchitryCuPWMVecSyncROM<W> {
    open spec fn hierarchy(&self) -> Hierarchy {
        Hierarchy::Scope(self.fragment(), self.members())
    }

    fn accept<P: Probe>(&self, name: &str, probe: &mut P) {
        let ghost members = self.members();
        proof {
            lemma_members(members, 5, 0);
            lemma_members(members, 5, 1);
            lemma_members(members, 5, 2);
            lemma_members(members, 5, 3);
            lemma_members(members, 5, 4);
        }
        probe.visit_start_scope(name, self);
        let ghost entered = probe@;
        assert(probe@ == walk_members::<P>(entered, members, 0));
        self.clock.accept("clock", probe);
        assert(probe@ == walk_members::<P>(entered, members, 1));
        self.leds.accept("leds", probe);
        assert(probe@ == walk_members::<P>(entered, members, 2));
        self.local.accept("local", probe);
        assert(probe@ == walk_members::<P>(entered, members, 3));
        self.faders.accept("faders", probe);
        assert(probe@ == walk_members::<P>(entered, members, 4));
        self.pll.accept("pll", probe);
        assert(probe@ == walk_members::<P>(entered, members, 5));
        probe.visit_end_scope(name, self);
    }
}

} // verus!
