//! Blocks: the parts of a design that a visitor can walk through.

use vstd::prelude::*;
use vstd::string::*;
use crate::ast::{Fragment, Verilog};
use crate::atom::{Atom, AtomInfo, Signal};
use crate::logic::Logic;
use crate::probe::Probe;
use crate::text::{decimal, decimal_string};

verus! {

/// A named part of a namespace or scope.
pub struct Member {
    pub name: Seq<char>,
    pub node: Hierarchy,
}

/// What a block is to a visitor: an atom, a namespace that groups members
/// under a name, or a scope with a behaviour and members of its own.
pub enum Hierarchy {
    Atom(AtomInfo),
    Namespace(Seq<Member>),
    Scope(Fragment, Seq<Member>),
}

impl Hierarchy {
    /// Every atom in the hierarchy is well formed.
    pub open spec fn wf(self) -> bool
        decreases self, 0nat,
    {
        match self {
            Hierarchy::Atom(info) => info.wf(),
            Hierarchy::Namespace(members) => members_wf(members, members.len()),
            Hierarchy::Scope(_, members) => members_wf(members, members.len()),
        }
    }

    /// Every atom in the hierarchy lies inside a scope of the hierarchy.
    pub open spec fn scoped(self) -> bool
        decreases self, 0nat,
    {
        match self {
            Hierarchy::Atom(_) => false,
            Hierarchy::Namespace(members) => members_scoped(members, members.len()),
            Hierarchy::Scope(_, _) => true,
        }
    }
}

/// Every atom in the first `n` members is well formed.
pub open spec fn members_wf(members: Seq<Member>, n: nat) -> bool
    decreases members, n,
{
    if n == 0 || n > members.len() {
        true
    } else {
        members_wf(members, (n - 1) as nat) && members[n - 1].node.wf()
    }
}

/// Every atom in the first `n` members lies inside a scope.
pub open spec fn members_scoped(members: Seq<Member>, n: nat) -> bool
    decreases members, n,
{
    if n == 0 || n > members.len() {
        true
    } else {
        members_scoped(members, (n - 1) as nat) && members[n - 1].node.scoped()
    }
}

/// The state of a visitor after it was led through `h` under the name
/// `name`: an atom is visited; a namespace or a scope is entered, its members
/// are walked in their order, and it is left.
pub open spec fn walk<P: Probe>(state: P::V, name: Seq<char>, h: Hierarchy) -> P::V
    decreases h, 0nat,
{
    match h {
        Hierarchy::Atom(info) => P::atom(state, name, info),
        Hierarchy::Namespace(members) => P::end_namespace(
            walk_members::<P>(P::start_namespace(state, name), members, members.len()),
            name,
        ),
        Hierarchy::Scope(code, members) => P::end_scope(
            walk_members::<P>(P::start_scope(state, name, code), members, members.len()),
            name,
        ),
    }
}

/// The state of a visitor after it was led through the first `n` members.
pub open spec fn walk_members<P: Probe>(state: P::V, members: Seq<Member>, n: nat) -> P::V
    decreases members, n,
{
    if n == 0 || n > members.len() {
        state
    } else {
        walk::<P>(
            walk_members::<P>(state, members, (n - 1) as nat),
            members[n - 1].name,
            members[n - 1].node,
        )
    }
}

/// A part of a design that leads a visitor through itself.
pub trait Block: Logic {
    /// What the block is to a visitor.
    spec fn hierarchy(&self) -> Hierarchy;

    /// Leads `probe` through the block, which its holder calls `name`. An
    /// atom outside any scope of the block itself must lie in a scope that the
    /// visitor has entered already.
    fn accept<P: Probe>(&self, name: &str, probe: &mut P)
        requires
            P::valid(old(probe)@),
            self.hierarchy().wf(),
            P::depth(old(probe)@) > 0 || self.hierarchy().scoped(),
        ensures
            P::valid(final(probe)@),
            final(probe)@ == walk::<P>(old(probe)@, name@, self.hierarchy()),
            P::depth(final(probe)@) == P::depth(old(probe)@),
    ;
}

/// A named part of a design.
#[derive(Debug)]
pub struct Child {
    pub name: String,
    pub design: Design,
}

/// A design given as a tree.
#[derive(Debug)]
pub enum Design {
    /// One signal.
    Atom(Signal),
    /// Parts grouped under a name, in the scope around them.
    Namespace(Vec<Child>),
    /// A module of its own, with its behaviour and its parts.
    Scope(Verilog, Vec<Child>),
}

/// What a design is to a visitor.
pub open spec fn design_view(d: Design) -> Hierarchy
    decreases d, 0nat,
{
    match d {
        Design::Atom(signal) => Hierarchy::Atom(signal.info()),
        Design::Namespace(children) => Hierarchy::Namespace(
            children_view(children@, children@.len()),
        ),
        Design::Scope(code, children) => Hierarchy::Scope(
            code@,
            children_view(children@, children@.len()),
        ),
    }
}

/// What the first `n` parts are to a visitor.
pub open spec fn children_view(children: Seq<Child>, n: nat) -> Seq<Member>
    decreases children, n,
{
    if n == 0 || n > children.len() {
        Seq::empty()
    } else {
        children_view(children, (n - 1) as nat).push(
            Member { name: children[n - 1].name@, node: design_view(children[n - 1].design) },
        )
    }
}

impl View for Design {
    type V = Hierarchy;

    open spec fn view(&self) -> Hierarchy {
        design_view(*self)
    }
}

/// The first `n` parts of a design stand for `n` members, each the view of
/// its part.
pub proof fn lemma_children_view(children: Seq<Child>, n: nat)
    requires
        n <= children.len(),
    ensures
        children_view(children, n).len() == n,
        forall|i: int|
            0 <= i < n ==> (#[trigger] children_view(children, n)[i]) == (Member {
                name: children[i].name@,
                node: children[i].design@,
            }),
    decreases n,
{
    if n > 0 {
        lemma_children_view(children, (n - 1) as nat);
    }
}

/// What holds of all members holds of each.
pub proof fn lemma_members(members: Seq<Member>, n: nat, i: int)
    requires
        0 <= i < n <= members.len(),
    ensures
        members_wf(members, n) ==> members[i].node.wf(),
        members_scoped(members, n) ==> members[i].node.scoped(),
    decreases n,
{
    if i < n - 1 {
        lemma_members(members, (n - 1) as nat, i);
    }
}

/// Whether every signal among `children` is well formed.
fn all_well_formed(children: &Vec<Child>) -> (r: bool)
    ensures
        r == members_wf(children_view(children@, children@.len()), children@.len()),
    decreases children,
{
    let ghost members = children_view(children@, children@.len());
    proof {
        lemma_children_view(children@, children@.len());
    }
    let mut i: usize = 0;
    while i < children.len()
        invariant
            i <= children.len(),
            members == children_view(children@, children@.len()),
            members.len() == children.len(),
            forall|k: int|
                0 <= k < children.len() ==> (#[trigger] members[k]) == (Member {
                    name: children[k].name@,
                    node: children[k].design@,
                }),
            members_wf(members, i as nat),
        decreases children.len() - i,
    {
        if !children[i].design.well_formed() {
            proof {
                if members_wf(members, members.len()) {
                    lemma_members(members, members.len(), i as int);
                }
            }
            return false;
        }
        i = i + 1;
    }
    true
}

/// Whether every signal among `children` lies inside a scope.
fn all_scoped(children: &Vec<Child>) -> (r: bool)
    ensures
        r == members_scoped(children_view(children@, children@.len()), children@.len()),
    decreases children,
{
    let ghost members = children_view(children@, children@.len());
    proof {
        lemma_children_view(children@, children@.len());
    }
    let mut i: usize = 0;
    while i < children.len()
        invariant
            i <= children.len(),
            members == children_view(children@, children@.len()),
            members.len() == children.len(),
            forall|k: int|
                0 <= k < children.len() ==> (#[trigger] members[k]) == (Member {
                    name: children[k].name@,
                    node: children[k].design@,
                }),
            members_scoped(members, i as nat),
        decreases children.len() - i,
    {
        if !children[i].design.scoped() {
            proof {
                if members_scoped(members, members.len()) {
                    lemma_members(members, members.len(), i as int);
                }
            }
            return false;
        }
        i = i + 1;
    }
    true
}

impl Design {
    /// Whether every signal of the design is well formed.
    pub fn well_formed(&self) -> (r: bool)
        ensures
            r == self@.wf(),
        decreases self,
    {
        match self {
            Design::Atom(signal) => signal.well_formed(),
            Design::Namespace(children) => {
                proof {
                    lemma_children_view(children@, children@.len());
                }
                all_well_formed(children)
            },
            Design::Scope(_, children) => {
                proof {
                    lemma_children_view(children@, children@.len());
                }
                all_well_formed(children)
            },
        }
    }

    /// Whether every signal of the design lies inside a scope of the design,
    /// so that the design can be walked from its root.
    pub fn scoped(&self) -> (r: bool)
        ensures
            r == self@.scoped(),
        decreases self,
    {
        match self {
            Design::Atom(_) => false,
            Design::Namespace(children) => {
                proof {
                    lemma_children_view(children@, children@.len());
                }
                all_scoped(children)
            },
            Design::Scope(_, _) => true,
        }
    }
}

/// Copies of `children`.
fn clone_children(children: &Vec<Child>) -> (r: Vec<Child>)
    ensures
        children_view(r@, r@.len()) == children_view(children@, children@.len()),
    decreases children,
{
    let mut out: Vec<Child> = Vec::new();
    let mut i: usize = 0;
    while i < children.len()
        invariant
            i <= children.len(),
            out.len() == i,
            forall|j: int|
                0 <= j < i ==> out[j].name@ == children[j].name@ && out[j].design@
                    == children[j].design@,
        decreases children.len() - i,
    {
        let copy = Child { name: children[i].name.clone(), design: children[i].design.clone() };
        out.push(copy);
        i = i + 1;
    }
    proof {
        lemma_children_view(children@, children@.len());
        lemma_children_view(out@, out@.len());
        assert(children_view(out@, out@.len()) =~= children_view(children@, children@.len()));
    }
    out
}

impl Clone for Design {
    /// A design that is the same to a visitor.
    fn clone(&self) -> (r: Self)
        ensures
            r@ == self@,
        decreases self,
    {
        match self {
            Design::Atom(signal) => Design::Atom(signal.clone()),
            Design::Namespace(children) => Design::Namespace(clone_children(children)),
            Design::Scope(code, children) => Design::Scope(code.clone(), clone_children(children)),
        }
    }
}

impl Logic for Design {
    /// A scope has the behaviour it was given; an atom and a namespace have
    /// none.
    open spec fn fragment(&self) -> Fragment {
        match self {
            Design::Scope(code, _) => code@,
            _ => Fragment::Empty,
        }
    }

    open spec fn connects(&self, after: &Self) -> bool {
        *after == *self
    }

    fn update(&mut self) {
    }

    fn connect(&mut self) {
    }

    fn hdl(&self) -> (code: Verilog) {
        match self {
            Design::Scope(code, _) => code.clone(),
            _ => Verilog::Empty,
        }
    }
}

/// Leads `probe` through `children` in their order.
fn accept_all<P: Probe>(children: &Vec<Child>, probe: &mut P)
    requires
        P::valid(old(probe)@),
        P::depth(old(probe)@) > 0 || members_scoped(
            children_view(children@, children@.len()),
            children@.len(),
        ),
        members_wf(children_view(children@, children@.len()), children@.len()),
    ensures
        P::valid(final(probe)@),
        final(probe)@ == walk_members::<P>(
            old(probe)@,
            children_view(children@, children@.len()),
            children@.len(),
        ),
        P::depth(final(probe)@) == P::depth(old(probe)@),
    decreases children,
{
    let ghost members = children_view(children@, children@.len());
    proof {
        lemma_children_view(children@, children@.len());
    }
    let mut i: usize = 0;
    while i < children.len()
        invariant
            i <= children.len(),
            members == children_view(children@, children@.len()),
            members.len() == children.len(),
            forall|k: int|
                0 <= k < children.len() ==> (#[trigger] members[k]) == (Member {
                    name: children[k].name@,
                    node: children[k].design@,
                }),
            members_wf(members, members.len()),
            P::depth(old(probe)@) > 0 || members_scoped(members, members.len()),
            P::valid(probe@),
            P::depth(probe@) == P::depth(old(probe)@),
            probe@ == walk_members::<P>(old(probe)@, members, i as nat),
        decreases children.len() - i,
    {
        proof {
            lemma_members(members, members.len(), i as int);
            assert(members[i as int].node == children[i as int].design@);
        }
        children[i].design.accept(children[i].name.as_str(), probe);
        i = i + 1;
    }
}

impl Block for Design {
    open spec fn hierarchy(&self) -> Hierarchy {
        self@
    }

    fn accept<P: Probe>(&self, name: &str, probe: &mut P)
        decreases self,
    {
        match self {
            Design::Atom(signal) => {
                probe.visit_atom(name, signal);
            },
            Design::Namespace(children) => {
                proof {
                    lemma_children_view(children@, children@.len());
                }
                probe.visit_start_namespace(name);
                accept_all(children, probe);
                probe.visit_end_namespace(name);
            },
            Design::Scope(_, children) => {
                proof {
                    lemma_children_view(children@, children@.len());
                }
                probe.visit_start_scope(name, self);
                accept_all(children, probe);
                probe.visit_end_scope(name, self);
            },
        }
    }
}

/// A signal has no behaviour of its own, and nothing to wire.
impl Logic for Signal {
    open spec fn fragment(&self) -> Fragment {
        Fragment::Empty
    }

    open spec fn connects(&self, after: &Self) -> bool {
        *after == *self
    }

    fn update(&mut self) {
    }

    fn connect(&mut self) {
    }

    fn hdl(&self) -> (code: Verilog) {
        Verilog::Empty
    }
}

/// A signal is an atom to a visitor.
impl Block for Signal {
    open spec fn hierarchy(&self) -> Hierarchy {
        Hierarchy::Atom(self.info())
    }

    fn accept<P: Probe>(&self, name: &str, probe: &mut P) {
        assert(self.hierarchy() == Hierarchy::Atom(self.info()));
        assert(self.info().wf());
        probe.visit_atom(name, self);
    }
}

/// The blocks of a row as members, each named by its place in the row,
/// counted from zero.
pub open spec fn row_members<B: Block>(row: Seq<B>) -> Seq<Member> {
    Seq::new(row.len(), |i: int| Member { name: decimal(i as nat), node: row[i].hierarchy() })
}

/// Blocks in a row are a namespace to a visitor.
impl<B: Block, const N: usize> Block for [B; N] {
    open spec fn hierarchy(&self) -> Hierarchy {
        Hierarchy::Namespace(row_members(self@))
    }

    fn accept<P: Probe>(&self, name: &str, probe: &mut P) {
        let ghost members = row_members(self@);
        probe.visit_start_namespace(name);
        let ghost entered = probe@;
        let mut i: usize = 0;
        while i < N
            invariant
                i <= N,
                N == self@.len(),
                members == row_members(self@),
                members_wf(members, members.len()),
                P::depth(old(probe)@) > 0 || members_scoped(members, members.len()),
                P::valid(probe@),
                P::depth(probe@) == P::depth(old(probe)@),
                probe@ == walk_members::<P>(entered, members, i as nat),
            decreases N - i,
        {
            proof {
                lemma_members(members, members.len(), i as int);
            }
            self[i].accept(decimal_string(i).as_str(), probe);
            i = i + 1;
        }
        probe.visit_end_namespace(name);
    }
}

} // verus!
