//! The behaviour of a block: how it is wired, how it steps, and what it
//! contributes to its module.

use vstd::prelude::*;
use crate::ast::{Fragment, Verilog};

verus! {

/// What every block of a design can do.
pub trait Logic {
    /// The behaviour fragment of the block.
    spec fn fragment(&self) -> Fragment;

    /// Whether `after` is the block once its own signals are wired.
    spec fn connects(&self, after: &Self) -> bool;

    /// One step of the block's behaviour.
    fn update(&mut self);

    /// Wires the signals that the block itself drives.
    fn connect(&mut self)
        ensures
            old(self).connects(final(self)),
    ;

    /// The behaviour fragment of the block.
    fn hdl(&self) -> (code: Verilog)
        ensures
            code@ == self.fragment(),
    ;
}

/// Wires the signals that `x` itself drives.
pub fn logic_connect_fn<L: Logic>(x: &mut L)
    ensures
        old(x).connects(final(x)),
{
    x.connect();
}

/// Blocks in a row have no behaviour of their own, and nothing to wire.
impl<L: Logic, const P: usize> Logic for [L; P] {
    open spec fn fragment(&self) -> Fragment {
        Fragment::Empty
    }

    open spec fn connects(&self, after: &Self) -> bool {
        *after == *self
    }

    fn update(&mut self) {
    }

    fn connect(&mut self) {
    }

    fn hdl(&self) -> (code: Verilog) {
        Verilog::Empty
    }
}

} // verus!
