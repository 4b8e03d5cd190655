//! The traversal protocol: what a design tells a visitor, and in what order.
//!
//! A block that is a scope announces itself, then lets each of its members
//! speak, then announces its end. A namespace groups members under a name
//! without opening a scope. An atom is visited once, inside the scope that
//! holds it.

use vstd::prelude::*;
use crate::ast::Fragment;
use crate::atom::{Atom, AtomInfo};
use crate::logic::Logic;

verus! {

/// A visitor of a design. Its view is the state that the visits build up;
/// the spec functions say how each visit changes that state.
pub trait Probe: View {
    /// The states that the visitor can be in.
    spec fn valid(state: Self::V) -> bool;

    /// The number of scopes entered and not yet left.
    spec fn depth(state: Self::V) -> nat;

    /// The state after a scope was entered.
    spec fn start_scope(state: Self::V, name: Seq<char>, code: Fragment) -> Self::V;

    /// The state after a namespace was entered.
    spec fn start_namespace(state: Self::V, name: Seq<char>) -> Self::V;

    /// The state after an atom was visited.
    spec fn atom(state: Self::V, name: Seq<char>, info: AtomInfo) -> Self::V;

    /// The state after a namespace was left.
    spec fn end_namespace(state: Self::V, name: Seq<char>) -> Self::V;

    /// The state after a scope was left.
    spec fn end_scope(state: Self::V, name: Seq<char>) -> Self::V;

    /// Enters the scope of the block `node`, which its parent calls `name`.
    fn visit_start_scope<L: Logic>(&mut self, name: &str, node: &L)
        requires
            Self::valid(old(self)@),
        ensures
            Self::valid(final(self)@),
            final(self)@ == Self::start_scope(old(self)@, name@, node.fragment()),
            Self::depth(final(self)@) == Self::depth(old(self)@) + 1,
    ;

    /// Enters the namespace `name`.
    fn visit_start_namespace(&mut self, name: &str)
        requires
            Self::valid(old(self)@),
        ensures
            Self::valid(final(self)@),
            final(self)@ == Self::start_namespace(old(self)@, name@),
            Self::depth(final(self)@) == Self::depth(old(self)@),
    ;

    /// Visits the atom `signal`, which its holder calls `name`. An atom is
    /// only ever visited inside a scope.
    fn visit_atom<A: Atom>(&mut self, name: &str, signal: &A)
        requires
            Self::valid(old(self)@),
            Self::depth(old(self)@) > 0,
            signal.info().wf(),
        ensures
            Self::valid(final(self)@),
            final(self)@ == Self::atom(old(self)@, name@, signal.info()),
            Self::depth(final(self)@) == Self::depth(old(self)@),
    ;

    /// Leaves the namespace `name`.
    fn visit_end_namespace(&mut self, name: &str)
        requires
            Self::valid(old(self)@),
        ensures
            Self::valid(final(self)@),
            final(self)@ == Self::end_namespace(old(self)@, name@),
            Self::depth(final(self)@) == Self::depth(old(self)@),
    ;

    /// Leaves the scope of the block `node`.
    fn visit_end_scope<L: Logic>(&mut self, name: &str, node: &L)
        requires
            Self::valid(old(self)@),
        ensures
            Self::valid(final(self)@),
            final(self)@ == Self::end_scope(old(self)@, name@),
            Self::depth(final(self)@) == if Self::depth(old(self)@) > 0 {
                Self::depth(old(self)@) - 1
            } else {
                0
            },
    ;
}

} // verus!
