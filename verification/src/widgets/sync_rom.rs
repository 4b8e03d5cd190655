//! A table that is read at the rising edge of a clock.

use vstd::prelude::*;
use vstd::string::*;
use crate::ast::{literal_string, Fragment, Literal, Verilog, WidthError};
use crate::atom::{plain, Atom, AtomKind, Signal};
use crate::block::{lemma_members, members_wf, walk_members, Block, Hierarchy, Member};
use crate::logic::Logic;
use crate::probe::Probe;

verus! {

/// The row of the table for the address `address`.
pub open spec fn rom_row(address: nat, abits: nat, value: nat, dbits: nat) -> Seq<char> {
    "  "@ + (Literal { bits: abits, value: address }).text() + ": data <= "@ + (Literal {
        bits: dbits,
        value,
    }).text() + ";\n"@
}

/// The rows of the first `n` entries of the table, in the order of their
/// addresses.
pub open spec fn rom_rows(table: Seq<u64>, n: nat, abits: nat, dbits: nat) -> Seq<char>
    decreases n,
{
    if n == 0 || n > table.len() {
        Seq::empty()
    } else {
        rom_rows(table, (n - 1) as nat, abits, dbits) + rom_row(
            (n - 1) as nat,
            abits,
            table[n - 1] as nat,
            dbits,
        )
    }
}

/// The behaviour of a table: at each rising edge of the clock the data is
/// the entry at the address, and zero where the table has none.
pub open spec fn rom_text(table: Seq<u64>, abits: nat, dbits: nat) -> Seq<char> {
    "always @(posedge clock) begin\ncase (address)\n"@ + rom_rows(table, table.len(), abits, dbits)
        + "  default: data <= "@ + (Literal { bits: dbits, value: 0 }).text()
        + ";\nendcase\nend"@
}

/// A table of values, read with one clock of delay.
#[derive(Debug)]
pub struct SyncROM {
    pub address: Signal,
    pub clock: Signal,
    pub data: Signal,
    /// The entries, by their addresses from zero on.
    pub table: Vec<u64>,
}

impl SyncROM {
    /// The parts of a table, as its module declares them.
    pub open spec fn members(&self) -> Seq<Member> {
        seq![
            Member { name: "address"@, node: Hierarchy::Atom(self.address.info()) },
            Member { name: "clock"@, node: Hierarchy::Atom(self.clock.info()) },
            Member { name: "data"@, node: Hierarchy::Atom(self.data.info()) },
        ]
    }

    /// The entry at `address`; zero where the table has none.
    pub open spec fn entry(&self, address: nat) -> nat {
        if address < self.table@.len() {
            self.table@[address as int] as nat
        } else {
            0
        }
    }

    /// The table is one with addresses of `abits` bits, entries of `dbits`
    /// bits and the given entries, as it is made.
    pub open spec fn at_rest(&self, abits: nat, dbits: nat, table: Seq<u64>) -> bool {
        &&& self.table@ == table
        &&& self.address.info() == plain(AtomKind::InputParameter, abits, 0)
        &&& self.clock.info() == plain(AtomKind::InputParameter, 1, 0)
        &&& self.data.info() == plain(AtomKind::OutputParameter, dbits, 0)
    }

    /// A table with addresses of `address_bits` bits and entries of
    /// `data_bits` bits; refused where one of the widths is zero.
    pub fn new(address_bits: usize, data_bits: usize, table: Vec<u64>) -> (r: Result<
        SyncROM,
        WidthError,
    >)
        ensures
            match r {
                Ok(rom) => {
                    &&& address_bits >= 1 && data_bits >= 1
                    &&& rom.hierarchy().wf()
                    &&& rom.at_rest(address_bits as nat, data_bits as nat, table@)
                },
                Err(e) => (address_bits == 0 || data_bits == 0) && e == WidthError::ZeroWidth,
            },
    {
        if address_bits == 0 || data_bits == 0 {
            return Err(WidthError::ZeroWidth);
        }
        let address = Signal::new(AtomKind::InputParameter, address_bits).unwrap();
        let clock = Signal::new(AtomKind::InputParameter, 1).unwrap();
        let data = Signal::new(AtomKind::OutputParameter, data_bits).unwrap();
        let rom = SyncROM { address, clock, data, table };
        proof {
            reveal_with_fuel(members_wf, 4);
            assert(rom.members().len() == 3);
            assert(members_wf(rom.members(), 3));
        }
        Ok(rom)
    }
}

impl Logic for SyncROM {
    open spec fn fragment(&self) -> Fragment {
        Fragment::Custom(
            rom_text(self.table@, self.address.info().width, self.data.info().width),
        )
    }

    open spec fn connects(&self, after: &Self) -> bool {
        *after == *self
    }

    /// Where the clock has risen, the data is next the entry at the address.
    fn update(&mut self)
        ensures
            final(self).data.pending() == if old(self).clock.pos_edge() {
                old(self).entry(old(self).address.value())
            } else {
                old(self).data.pending()
            },
            final(self).data.info() == old(self).data.info(),
            final(self).data.earlier() == old(self).data.earlier(),
            final(self).address == old(self).address,
            final(self).clock == old(self).clock,
            final(self).table == old(self).table,
    {
        if self.clock.pos_edge() {
            let address = self.address.val();
            let entry: u64 = if address < self.table.len() as u64 {
                self.table[address as usize]
            } else {
                0
            };
            self.data.set_next(entry);
        }
    }

    fn connect(&mut self) {
    }

    fn hdl(&self) -> (code: Verilog) {
        let abits = self.address.bits();
        let dbits = self.data.bits();
        let mut text = String::from_str("always @(posedge clock) begin\ncase (address)\n");
        let ghost head = text@;
        let mut i: usize = 0;
        assert(text@ =~= head + rom_rows(self.table@, 0, abits as nat, dbits as nat));
        while i < self.table.len()
            invariant
                i <= self.table.len(),
                text@ == head + rom_rows(self.table@, i as nat, abits as nat, dbits as nat),
            decreases self.table.len() - i,
        {
            let ghost before = text@;
            text.append("  ");
            text.append(literal_string(abits, i as u64).as_str());
            text.append(": data <= ");
            text.append(literal_string(dbits, self.table[i]).as_str());
            text.append(";\n");
            assert(text@ =~= before + rom_row(
                i as nat,
                abits as nat,
                self.table@[i as int] as nat,
                dbits as nat,
            ));
            assert(text@ =~= head + rom_rows(
                self.table@,
                (i + 1) as nat,
                abits as nat,
                dbits as nat,
            ));
            i = i + 1;
        }
        text.append("  default: data <= ");
        text.append(literal_string(dbits, 0).as_str());
        text.append(";\nendcase\nend");
        Verilog::Custom(text)
    }
}

impl Block for SyncROM {
    open spec fn hierarchy(&self) -> Hierarchy {
        Hierarchy::Scope(self.fragment(), self.members())
    }

    fn accept<P: Probe>(&self, name: &str, probe: &mut P) {
        let ghost members = self.members();
        proof {
            lemma_members(members, 3, 0);
            lemma_members(members, 3, 1);
            lemma_members(members, 3, 2);
        }
        probe.visit_start_scope(name, self);
        let ghost entered = probe@;
        assert(probe@ == walk_members::<P>(entered, members, 0));
        self.address.accept("address", probe);
        assert(probe@ == walk_members::<P>(entered, members, 1));
        self.clock.accept("clock", probe);
        assert(probe@ == walk_members::<P>(entered, members, 2));
        self.data.accept("data", probe);
        assert(probe@ == walk_members::<P>(entered, members, 3));
        probe.visit_end_scope(name, self);
    }
}

} // verus!
