//! Atoms: the named, sized signals that a block is made of.

use vstd::prelude::*;
use vstd::string::*;
use vstd::arithmetic::power2::pow2;
use crate::ast::{Literal, VerilogLiteral, WidthError};
use crate::bits::truncate;

verus! {

/// What an atom is to the scope that holds it.
#[derive(Clone, Copy, Debug, PartialEq, Eq, Structural)]
pub enum AtomKind {
    /// A port that the scope reads.
    InputParameter,
    /// A port that the scope drives.
    OutputParameter,
    /// Stands in a parent for an input port of a child; the parent drives it.
    StubInputSignal,
    /// Stands in a parent for an output port of a child; the parent reads it.
    StubOutputSignal,
    /// A named literal.
    Constant,
    /// A wire inside the scope.
    LocalSignal,
}

impl AtomKind {
    /// Whether the kind is a port.
    pub open spec fn parameter(self) -> bool {
        self == AtomKind::InputParameter || self == AtomKind::OutputParameter
    }

    /// Whether the kind stands for a port of a child.
    pub open spec fn stub(self) -> bool {
        self == AtomKind::StubInputSignal || self == AtomKind::StubOutputSignal
    }

    /// Whether the kind is a port.
    #[verifier::when_used_as_spec(parameter)]
    pub fn is_parameter(self) -> (r: bool)
        ensures
            r == self.parameter(),
    {
        match self {
            AtomKind::InputParameter | AtomKind::OutputParameter => true,
            _ => false,
        }
    }

    /// Whether the kind stands for a port of a child.
    #[verifier::when_used_as_spec(stub)]
    pub fn is_stub(self) -> (r: bool)
        ensures
            r == self.stub(),
    {
        match self {
            AtomKind::StubInputSignal | AtomKind::StubOutputSignal => true,
            _ => false,
        }
    }
}

/// What a traversal learns of an atom.
pub struct AtomInfo {
    /// What the atom is to its scope.
    pub kind: AtomKind,
    /// The number of bits.
    pub width: nat,
    /// The value, as a literal.
    pub literal: Literal,
    /// Whether the atom's type names its values.
    pub enumerable: bool,
    /// The name of the atom's type.
    pub typename: Seq<char>,
    /// The names of the values, by value; an empty name where a value has none.
    pub names: Seq<Seq<char>>,
}

impl AtomInfo {
    /// The name of value `ndx`; empty where it has none.
    pub open spec fn name_of(self, ndx: nat) -> Seq<char> {
        if ndx < self.names.len() {
            self.names[ndx as int]
        } else {
            Seq::empty()
        }
    }

    /// The atom has at least one bit, and where its type names its values they
    /// can be counted.
    pub open spec fn wf(self) -> bool {
        &&& self.width >= 1
        &&& self.enumerable ==> pow2(self.width) <= usize::MAX
    }
}

/// What a traversal learns of a signal of the given kind, width and value
/// whose type names no values.
pub open spec fn plain(kind: AtomKind, width: nat, value: nat) -> AtomInfo {
    AtomInfo {
        kind,
        width,
        literal: Literal { bits: width, value },
        enumerable: false,
        typename: Seq::empty(),
        names: Seq::empty(),
    }
}

/// A leaf of a design: one signal, port or constant.
pub trait Atom {
    /// What a traversal learns of the atom.
    spec fn info(&self) -> AtomInfo;

    /// The number of bits.
    fn bits(&self) -> (w: usize)
        ensures
            w == self.info().width,
    ;

    /// What the atom is to its scope.
    fn kind(&self) -> (k: AtomKind)
        ensures
            k == self.info().kind,
    ;

    /// Whether the atom's type names its values.
    fn is_enum(&self) -> (e: bool)
        ensures
            e == self.info().enumerable,
    ;

    /// The name of value `ndx`; empty where it has none.
    fn name(&self, ndx: usize) -> (s: &str)
        ensures
            s@ == self.info().name_of(ndx as nat),
    ;

    /// The name of the atom's type.
    fn typename(&self) -> (s: &str)
        ensures
            s@ == self.info().typename,
    ;

    /// The value, as a literal.
    fn verilog(&self) -> (l: VerilogLiteral)
        ensures
            l@ == self.info().literal,
    ;
}

/// The views of the names of an enumerable type.
pub open spec fn names_view(names: Seq<String>) -> Seq<Seq<char>> {
    Seq::new(names.len(), |i: int| names[i]@)
}

/// A signal of a design: a port, a wire or a constant, of a given width,
/// and with names for its values where its type has them.
///
/// A signal has a value, the value that it takes at the next tick, and the
/// value that it had before the last tick.
#[derive(Debug)]
pub struct Signal {
    /// The value that the signal takes at the next tick, as far as it fits
    /// the width.
    next: u64,
    kind: AtomKind,
    width: usize,
    /// The value, in the signal's width.
    literal: VerilogLiteral,
    /// The value before the last tick.
    prev: u64,
    enumerable: bool,
    typename: String,
    names: Vec<String>,
}

/// Whether a type of `width` bits has at least `wanted` values that can be
/// counted.
fn countable(width: usize, wanted: usize) -> (r: bool)
    ensures
        r == (pow2(width as nat) <= usize::MAX && wanted <= pow2(width as nat)),
{
    let mut count: usize = 1;
    let mut b: usize = 0;
    proof {
        vstd::arithmetic::power2::lemma2_to64();
    }
    while b < width
        invariant
            b <= width,
            count == pow2(b as nat),
        decreases width - b,
    {
        proof {
            vstd::arithmetic::power2::lemma_pow2_unfold((b + 1) as nat);
            if b + 1 < width {
                vstd::arithmetic::power2::lemma_pow2_strictly_increases(
                    (b + 1) as nat,
                    width as nat,
                );
            }
        }
        if count > usize::MAX / 2 {
            return false;
        }
        count = count * 2;
        b = b + 1;
    }
    wanted <= count
}

impl Signal {
    /// A signal of the given kind and width, with the value zero and no
    /// names for its values; refused where the width is zero.
    pub fn new(kind: AtomKind, width: usize) -> (r: Result<Signal, WidthError>)
        ensures
            match r {
                Ok(s) => s.info().wf() && s.info() == plain(kind, width as nat, 0) && s.pending()
                    == 0 && s.earlier() == 0,
                Err(e) => width == 0 && e == WidthError::ZeroWidth,
            },
    {
        match VerilogLiteral::new(width, 0) {
            Ok(literal) => {
                let s = Signal {
                    next: 0,
                    kind,
                    width,
                    literal,
                    prev: 0,
                    enumerable: false,
                    typename: String::new(),
                    names: Vec::new(),
                };
                assert(s.info().names =~= Seq::empty());
                Ok(s)
            },
            Err(e) => {
                proof {
                    vstd::arithmetic::power2::lemma_pow2_pos(width as nat);
                }
                Err(WidthError::ZeroWidth)
            },
        }
    }

    /// A constant of the given width and value; refused where the width is
    /// zero or the value needs more bits.
    pub fn constant(width: usize, value: u64) -> (r: Result<Signal, WidthError>)
        ensures
            match r {
                Ok(s) => s.info().wf() && s.info() == plain(
                    AtomKind::Constant,
                    width as nat,
                    value as nat,
                ) && s.info().literal.fits() && s.pending() == value && s.earlier() == value,
                Err(WidthError::ZeroWidth) => width == 0,
                Err(WidthError::ValueTooWide) => width >= 1 && value >= pow2(width as nat),
                Err(WidthError::TooManyNames) => false,
            },
    {
        match VerilogLiteral::new(width, value) {
            Ok(literal) => {
                let s = Signal {
                    next: value,
                    kind: AtomKind::Constant,
                    width,
                    literal,
                    prev: value,
                    enumerable: false,
                    typename: String::new(),
                    names: Vec::new(),
                };
                assert(s.info().names =~= Seq::empty());
                Ok(s)
            },
            Err(e) => Err(e),
        }
    }

    /// A signal whose type names its values: `names` holds the name of each
    /// value from zero on, empty where a value has none. Refused where the
    /// width is zero, and where the width has fewer values than there are
    /// names or more than can be counted.
    pub fn enumerated(kind: AtomKind, width: usize, typename: &str, names: Vec<String>) -> (r:
        Result<Signal, WidthError>)
        ensures
            match r {
                Ok(s) => s.info().wf() && s.info() == (AtomInfo {
                    kind,
                    width: width as nat,
                    literal: Literal { bits: width as nat, value: 0 },
                    enumerable: true,
                    typename: typename@,
                    names: names_view(names@),
                }) && s.pending() == 0 && s.earlier() == 0,
                Err(WidthError::ZeroWidth) => width == 0,
                Err(WidthError::TooManyNames) => width >= 1 && !(pow2(width as nat) <= usize::MAX
                    && names.len() <= pow2(width as nat)),
                Err(WidthError::ValueTooWide) => false,
            },
    {
        match VerilogLiteral::new(width, 0) {
            Ok(literal) => {
                if !countable(width, names.len()) {
                    return Err(WidthError::TooManyNames);
                }
                Ok(
                    Signal {
                        next: 0,
                        kind,
                        width,
                        literal,
                        prev: 0,
                        enumerable: true,
                        typename: String::from_str(typename),
                        names,
                    },
                )
            },
            Err(e) => {
                proof {
                    vstd::arithmetic::power2::lemma_pow2_pos(width as nat);
                }
                Err(WidthError::ZeroWidth)
            },
        }
    }
}

impl Signal {
    /// The value of the signal.
    pub open spec fn value(&self) -> nat {
        self.info().literal.value
    }

    /// The value that the signal had before the last tick.
    pub closed spec fn earlier(&self) -> nat {
        self.prev as nat
    }

    /// The value that the signal takes at the next tick, before it is cut to
    /// the width.
    pub closed spec fn pending(&self) -> nat {
        self.next as nat
    }

    /// Sets the value that the signal takes at the next tick.
    pub fn set_next(&mut self, value: u64)
        ensures
            final(self).pending() == value,
            final(self).info() == old(self).info(),
            final(self).earlier() == old(self).earlier(),
    {
        self.next = value;
    }

    /// The value of the signal.
    pub fn val(&self) -> (v: u64)
        ensures
            v == self.value(),
    {
        self.literal.value()
    }

    /// Whether the last tick raised the signal from zero.
    pub open spec fn rose(&self) -> bool {
        self.earlier() == 0 && self.value() != 0
    }

    /// Whether the last tick raised the signal from zero.
    #[verifier::when_used_as_spec(rose)]
    pub fn pos_edge(&self) -> (r: bool)
        ensures
            r == self.rose(),
    {
        self.prev == 0 && self.literal.value() != 0
    }

    /// One tick: the signal takes its next value, as far as that fits the
    /// width, and remembers the value it had.
    pub fn tick(&mut self)
        requires
            old(self).info().width >= 1,
        ensures
            final(self).info() == (AtomInfo {
                literal: Literal {
                    bits: old(self).info().width,
                    value: old(self).pending() % pow2(old(self).info().width),
                },
                ..old(self).info()
            }),
            final(self).pending() == old(self).pending(),
            final(self).earlier() == old(self).value(),
    {
        let low = truncate(self.next, self.width);
        match VerilogLiteral::new(self.width, low) {
            Ok(literal) => {
                self.prev = self.literal.value();
                self.literal = literal;
            },
            Err(_) => {},
        }
    }

    /// Whether the signal has at least one bit and, where its type names its
    /// values, a number of values that can be counted.
    pub fn well_formed(&self) -> (r: bool)
        ensures
            r == self.info().wf(),
    {
        self.width >= 1 && (!self.enumerable || countable(self.width, 0))
    }
}

impl Clone for Signal {
    /// A signal that tells a traversal the same, with the same values.
    fn clone(&self) -> (r: Self)
        ensures
            r.info() == self.info(),
            r.pending() == self.pending(),
            r.earlier() == self.earlier(),
    {
        let mut names: Vec<String> = Vec::new();
        let mut i: usize = 0;
        while i < self.names.len()
            invariant
                i <= self.names.len(),
                names.len() == i,
                forall|j: int| 0 <= j < i ==> names[j]@ == self.names[j]@,
            decreases self.names.len() - i,
        {
            names.push(self.names[i].clone());
            i = i + 1;
        }
        assert(names_view(names@) =~= names_view(self.names@));
        Signal {
            next: self.next,
            kind: self.kind,
            width: self.width,
            literal: self.literal,
            prev: self.prev,
            enumerable: self.enumerable,
            typename: self.typename.clone(),
            names,
        }
    }
}

impl Atom for Signal {
    closed spec fn info(&self) -> AtomInfo {
        AtomInfo {
            kind: self.kind,
            width: self.width as nat,
            literal: self.literal@,
            enumerable: self.enumerable,
            typename: self.typename@,
            names: names_view(self.names@),
        }
    }

    fn bits(&self) -> (w: usize) {
        self.width
    }

    fn kind(&self) -> (k: AtomKind) {
        self.kind
    }

    fn is_enum(&self) -> (e: bool) {
        self.enumerable
    }

    fn name(&self, ndx: usize) -> (s: &str) {
        if ndx < self.names.len() {
            self.names[ndx].as_str()
        } else {
            proof {
                reveal_strlit("");
                assert(""@ =~= Seq::<char>::empty());
            }
            ""
        }
    }

    fn typename(&self) -> (s: &str) {
        self.typename.as_str()
    }

    fn verilog(&self) -> (l: VerilogLiteral) {
        self.literal
    }
}

} // verus!
