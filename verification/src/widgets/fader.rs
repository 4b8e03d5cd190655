//! A light that breathes: its brightness follows a table, step by step.

use vstd::prelude::*;
use vstd::string::*;
use vstd::arithmetic::power2::{lemma2_to64, pow2};
use crate::ast::{
    assign, binary, block_view, signal, Expression, Fragment, Statement, Verilog, VerilogBlock,
    VerilogOp,
};
use crate::atom::{plain, Atom, AtomKind, Signal};
use crate::bits::wrapping_add;
use crate::block::{lemma_members, members_wf, walk_members, Block, Hierarchy, Member};
use crate::logic::Logic;
use crate::probe::Probe;
use crate::widgets::dff::DFF;
use crate::widgets::pwm::PulseWidthModulator;
use crate::widgets::strobe::Strobe;
use crate::widgets::sync_rom::SyncROM;

verus! {

/// The statement that gives the signal `target` the value of the signal
/// `source`.
pub open spec fn wire(target: Seq<char>, source: Seq<char>) -> Statement {
    Statement::Assignment(Expression::Signal(target), Expression::Signal(source))
}

/// The behaviour of a light: all parts run on the light's clock; a counter
/// that steps at each strobe is the address of the table; the entry read is
/// the threshold of the pulse width modulator, whose pulse is the output.
pub open spec fn fader_block() -> Seq<Statement> {
    seq![
        wire("strobe_clock"@, "clock"@),
        wire("pwm_clock"@, "clock"@),
        wire("counter_clk"@, "clock"@),
        wire("rom_clock"@, "clock"@),
        wire("rom_address"@, "counter_q"@),
        Statement::Assignment(
            Expression::Signal("counter_d"@),
            Expression::Binary(
                Box::new(Expression::Signal("counter_q"@)),
                VerilogOp::Add,
                Box::new(Expression::Signal("strobe_strobe"@)),
            ),
        ),
        wire("strobe_enable"@, "enable"@),
        wire("pwm_enable"@, "enable"@),
        wire("active"@, "pwm_active"@),
        wire("pwm_threshold"@, "rom_data"@),
    ]
}

/// A light whose brightness steps through a table of 256 entries of six
/// bits.
#[derive(Debug)]
pub struct FaderWithSyncROM {
    pub clock: Signal,
    pub active: Signal,
    pub enable: Signal,
    pub strobe: Strobe<32>,
    pub pwm: PulseWidthModulator<6>,
    pub rom: SyncROM,
    pub counter: DFF,
}

impl FaderWithSyncROM {
    /// The parts of a light, as its module declares them.
    pub open spec fn members(&self) -> Seq<Member> {
        seq![
            Member { name: "clock"@, node: Hierarchy::Atom(self.clock.info()) },
            Member { name: "active"@, node: Hierarchy::Atom(self.active.info()) },
            Member { name: "enable"@, node: Hierarchy::Atom(self.enable.info()) },
            Member { name: "strobe"@, node: self.strobe.hierarchy() },
            Member { name: "pwm"@, node: self.pwm.hierarchy() },
            Member { name: "rom"@, node: self.rom.hierarchy() },
            Member { name: "counter"@, node: self.counter.hierarchy() },
        ]
    }

    /// The light is one that steps through `levels` once every `step`
    /// clocks, as it is made.
    pub open spec fn at_rest(&self, levels: Seq<u64>, step: nat) -> bool {
        &&& self.clock.info() == plain(AtomKind::InputParameter, 1, 0)
        &&& self.active.info() == plain(AtomKind::OutputParameter, 1, 0)
        &&& self.enable.info() == plain(AtomKind::InputParameter, 1, 0)
        &&& self.strobe.at_rest(step)
        &&& self.pwm.at_rest()
        &&& self.rom.at_rest(8, 6, levels)
        &&& self.counter.at_rest(8, 0)
    }

    /// A light that steps through `levels` once every `step` clocks. The
    /// number of clocks is above one and fits thirty-two bits.
    pub fn new(levels: Vec<u64>, step: u64) -> (f: FaderWithSyncROM)
        requires
            1 < step < 0x1_0000_0000,
        ensures
            f.hierarchy().wf(),
            f.at_rest(levels@, step as nat),
    {
        proof {
            lemma2_to64();
        }
        let clock = Signal::new(AtomKind::InputParameter, 1).unwrap();
        let active = Signal::new(AtomKind::OutputParameter, 1).unwrap();
        let enable = Signal::new(AtomKind::InputParameter, 1).unwrap();
        let strobe = Strobe::<32>::new(step);
        let pwm = PulseWidthModulator::<6>::new().unwrap();
        let rom = SyncROM::new(8, 6, levels).unwrap();
        let counter = DFF::new(8, 0).unwrap();
        let f = FaderWithSyncROM { clock, active, enable, strobe, pwm, rom, counter };
        proof {
            reveal_with_fuel(members_wf, 8);
            assert(f.members().len() == 7);
            assert(members_wf(f.members(), 7));
        }
        f
    }
}

impl Logic for FaderWithSyncROM {
    open spec fn fragment(&self) -> Fragment {
        Fragment::Combinatorial(fader_block())
    }

    open spec fn connects(&self, after: &Self) -> bool {
        *after == *self
    }

    /// One step: every part gets the light's clock; the table gets the
    /// counter as its address; the counter steps by the strobe; the strobe and
    /// the modulator are enabled with the light; the light is active with the
    /// modulator; the modulator's threshold is the entry read from the table.
    fn update(&mut self)
        ensures
            final(self).strobe.clock.pending() == old(self).clock.value(),
            final(self).pwm.clock.pending() == old(self).clock.value(),
            final(self).counter.clk.pending() == old(self).clock.value(),
            final(self).rom.clock.pending() == old(self).clock.value(),
            final(self).rom.address.pending() == old(self).counter.q.value(),
            final(self).counter.d.pending() == (old(self).counter.q.value() + old(
                self,
            ).strobe.strobe.value()) % pow2(8),
            final(self).strobe.enable.pending() == old(self).enable.value(),
            final(self).pwm.enable.pending() == old(self).enable.value(),
            final(self).active.pending() == old(self).pwm.active.value(),
            final(self).pwm.threshold.pending() == old(self).rom.data.value(),
            final(self).hierarchy() == old(self).hierarchy(),
            final(self).clock == old(self).clock,
            final(self).enable == old(self).enable,
            final(self).counter.q == old(self).counter.q,
            final(self).strobe.strobe == old(self).strobe.strobe,
            final(self).pwm.active == old(self).pwm.active,
            final(self).rom.data == old(self).rom.data,
            final(self).rom.table == old(self).rom.table,
    {
        self.strobe.clock.set_next(self.clock.val());
        self.pwm.clock.set_next(self.clock.val());
        self.counter.clk.set_next(self.clock.val());
        self.rom.clock.set_next(self.clock.val());
        self.rom.address.set_next(self.counter.q.val());
        self.counter.d.set_next(wrapping_add(self.counter.q.val(), self.strobe.strobe.val(), 8));
        self.strobe.enable.set_next(self.enable.val());
        self.pwm.enable.set_next(self.enable.val());
        self.active.set_next(self.pwm.active.val());
        self.pwm.threshold.set_next(self.rom.data.val());
        assert(self.members() =~= old(self).members());
    }

    fn connect(&mut self) {
    }

    fn hdl(&self) -> (code: Verilog) {
        let mut block: VerilogBlock = Vec::new();
        block.push(assign("strobe_clock", signal("clock")));
        block.push(assign("pwm_clock", signal("clock")));
        block.push(assign("counter_clk", signal("clock")));
        block.push(assign("rom_clock", signal("clock")));
        block.push(assign("rom_address", signal("counter_q")));
        block.push(
            assign("counter_d", binary(signal("counter_q"), VerilogOp::Add, signal("strobe_strobe"))),
        );
        block.push(assign("strobe_enable", signal("enable")));
        block.push(assign("pwm_enable", signal("enable")));
        block.push(assign("active", signal("pwm_active")));
        block.push(assign("pwm_threshold", signal("rom_data")));
        assert(block_view(block@) =~= fader_block());
        Verilog::Combinatorial(block)
    }
}

impl Block for FaderWithSyncROM {
    open spec fn hierarchy(&self) -> Hierarchy {
        Hierarchy::Scope(self.fragment(), self.members())
    }

    fn accept<P: Probe>(&self, name: &str, probe: &mut P) {
        let ghost members = self.members();
        proof {
            lemma_members(members, 7, 0);
            lemma_members(members, 7, 1);
            lemma_members(members, 7, 2);
            lemma_members(members, 7, 3);
            lemma_members(members, 7, 4);
            lemma_members(members, 7, 5);
            lemma_members(members, 7, 6);
        }
        probe.visit_start_scope(name, self);
        let ghost entered = probe@;
        assert(probe@ == walk_members::<P>(entered, members, 0));
        self.clock.accept("clock", probe);
        assert(probe@ == walk_members::<P>(entered, members, 1));
        self.active.accept("active", probe);
        assert(probe@ == walk_members::<P>(entered, members, 2));
        self.enable.accept("enable", probe);
        assert(probe@ == walk_members::<P>(entered, members, 3));
        self.strobe.accept("strobe", probe);
        assert(probe@ == walk_members::<P>(entered, members, 4));
        self.pwm.accept("pwm", probe);
        assert(probe@ == walk_members::<P>(entered, members, 5));
        self.rom.accept("rom", probe);
        assert(probe@ == walk_members::<P>(entered, members, 6));
        self.counter.accept("counter", probe);
        assert(probe@ == walk_members::<P>(entered, members, 7));
        probe.visit_end_scope(name, self);
    }
}

} // verus!
