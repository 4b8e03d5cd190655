//! A register.

use vstd::prelude::*;
use vstd::string::*;
use crate::ast::{Fragment, Literal, Verilog, VerilogLiteral, WidthError};
use crate::atom::{plain, Atom, AtomKind, Signal};
use crate::block::{lemma_members, members_wf, walk_members, Block, Hierarchy, Member};
use crate::logic::Logic;
use crate::probe::Probe;

verus! {

/// The behaviour of a register that starts with the value `init`.
pub open spec fn dff_text(init: Literal) -> Seq<char> {
    "initial begin\n   q = "@ + init.text() + ";\nend\n\nalways @(posedge clk) q <= d;"@
}

/// A register: `q` takes the value of `d` where the clock rises.
#[derive(Debug)]
pub struct DFF {
    /// The value to take.
    pub d: Signal,
    /// The value held.
    pub q: Signal,
    /// The clock.
    pub clk: Signal,
    /// The value that the register starts with.
    pub default: VerilogLiteral,
}

impl DFF {
    /// The parts of a register, as its module declares them.
    pub open spec fn members(&self) -> Seq<Member> {
        seq![
            Member { name: "d"@, node: Hierarchy::Atom(self.d.info()) },
            Member { name: "q"@, node: Hierarchy::Atom(self.q.info()) },
            Member { name: "clk"@, node: Hierarchy::Atom(self.clk.info()) },
        ]
    }

    /// The register is one of `bits` bits that starts with `init`, as it is
    /// made.
    pub open spec fn at_rest(&self, bits: nat, init: nat) -> bool {
        &&& self.default@ == (Literal { bits, value: init })
        &&& self.d.info() == plain(AtomKind::InputParameter, bits, 0)
        &&& self.q.info() == plain(AtomKind::OutputParameter, bits, 0)
        &&& self.clk.info() == plain(AtomKind::InputParameter, 1, 0)
    }

    /// A register of `bits` bits that starts with the value `init`; refused
    /// where the width is zero or the value needs more bits.
    pub fn new(bits: usize, init: u64) -> (r: Result<DFF, WidthError>)
        ensures
            match r {
                Ok(dff) => {
                    &&& dff.hierarchy().wf()
                    &&& dff.at_rest(bits as nat, init as nat)
                },
                Err(WidthError::ZeroWidth) => bits == 0,
                Err(WidthError::ValueTooWide) => bits >= 1 && init >= vstd::arithmetic::power2::pow2(
                    bits as nat,
                ),
                Err(WidthError::TooManyNames) => false,
            },
    {
        let default = match VerilogLiteral::new(bits, init) {
            Ok(l) => l,
            Err(e) => {
                return Err(e);
            },
        };
        let d = match Signal::new(AtomKind::InputParameter, bits) {
            Ok(s) => s,
            Err(e) => {
                return Err(WidthError::ZeroWidth);
            },
        };
        let q = match Signal::new(AtomKind::OutputParameter, bits) {
            Ok(s) => s,
            Err(e) => {
                return Err(WidthError::ZeroWidth);
            },
        };
        let clk = match Signal::new(AtomKind::InputParameter, 1) {
            Ok(s) => s,
            Err(e) => {
                assert(false);
                return Err(WidthError::ZeroWidth);
            },
        };
        let dff = DFF { d, q, clk, default };
        proof {
            reveal_with_fuel(members_wf, 4);
            assert(dff.members().len() == 3);
            assert(members_wf(dff.members(), 3));
        }
        Ok(dff)
    }
}

impl Logic for DFF {
    open spec fn fragment(&self) -> Fragment {
        Fragment::Custom(dff_text(self.default@))
    }

    open spec fn connects(&self, after: &Self) -> bool {
        *after == *self
    }

    /// Where the clock has risen, `q` takes the value of `d` next.
    fn update(&mut self)
        ensures
            final(self).q.pending() == if old(self).clk.pos_edge() {
                old(self).d.value()
            } else {
                old(self).q.pending()
            },
            final(self).q.info() == old(self).q.info(),
            final(self).q.earlier() == old(self).q.earlier(),
            final(self).d == old(self).d,
            final(self).clk == old(self).clk,
            final(self).default == old(self).default,
    {
        if self.clk.pos_edge() {
            self.q.set_next(self.d.val());
        }
    }

    fn connect(&mut self) {
    }

    fn hdl(&self) -> (code: Verilog) {
        let mut text = String::from_str("initial begin\n   q = ");
        text.append(self.default.to_string().as_str());
        text.append(";\nend\n\nalways @(posedge clk) q <= d;");
        Verilog::Custom(text)
    }
}

impl Block for DFF {
    open spec fn hierarchy(&self) -> Hierarchy {
        Hierarchy::Scope(self.fragment(), self.members())
    }

    fn accept<P: Probe>(&self, name: &str, probe: &mut P) {
        let ghost members = self.members();
        proof {
            lemma_members(members, 3, 0);
            lemma_members(members, 3, 1);
            lemma_members(members, 3, 2);
        }
        probe.visit_start_scope(name, self);
        let ghost entered = probe@;
        assert(probe@ == walk_members::<P>(entered, members, 0));
        self.d.accept("d", probe);
        assert(probe@ == walk_members::<P>(entered, members, 1));
        self.q.accept("q", probe);
        assert(probe@ == walk_members::<P>(entered, members, 2));
        self.clk.accept("clk", probe);
        assert(probe@ == walk_members::<P>(entered, members, 3));
        probe.visit_end_scope(name, self);
    }
}

} // verus!
