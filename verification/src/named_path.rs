//! A path of names from the root of a design down to one of its parts.

use vstd::prelude::*;
use vstd::string::*;
use crate::text::{join, join_first, join_strings, views};

verus! {

/// The text that parts the names of a path written as one string.
pub open spec fn separator() -> Seq<char> {
    "."@
}

/// A path written as one string: its names with the separator between them.
pub open spec fn path_text(names: Seq<Seq<char>>) -> Seq<char> {
    join(names, separator())
}

/// A stack of names.
pub struct NamedPath {
    path: Vec<String>,
}

impl View for NamedPath {
    type V = Seq<Seq<char>>;

    closed spec fn view(&self) -> Seq<Seq<char>> {
        views(self.path@)
    }
}

impl NamedPath {
    /// The empty path.
    pub fn new() -> (p: NamedPath)
        ensures
            p@ == Seq::<Seq<char>>::empty(),
    {
        let p = NamedPath { path: Vec::new() };
        assert(p@ =~= Seq::empty());
        p
    }

    /// Adds `x` as the last name.
    pub fn push(&mut self, x: &str)
        ensures
            final(self)@ == old(self)@.push(x@),
    {
        let name = String::from_str(x);
        assert(views(self.path@.push(name)) =~= views(self.path@).push(x@));
        self.path.push(name);
    }

    /// Takes the last name away; an empty path stays empty.
    pub fn pop(&mut self)
        ensures
            final(self)@ == if old(self)@.len() > 0 {
                old(self)@.drop_last()
            } else {
                old(self)@
            },
    {
        let _ = self.path.pop();
        assert(self@ =~= if old(self)@.len() > 0 {
            old(self)@.drop_last()
        } else {
            old(self)@
        });
    }

    /// The path without its last name, as one string.
    pub fn parent(&self) -> (s: String)
        requires
            self@.len() > 0,
        ensures
            s@ == path_text(self@.drop_last()),
    {
        let n = self.path.len() - 1;
        assert(views(self.path@).take(n as int) =~= self@.drop_last());
        join_first(&self.path, n, ".")
    }

    /// The last name.
    pub fn last(&self) -> (s: String)
        requires
            self@.len() > 0,
        ensures
            s@ == self@.last(),
    {
        self.path[self.path.len() - 1].clone()
    }

    /// Takes all names away.
    pub fn reset(&mut self)
        ensures
            final(self)@ == Seq::<Seq<char>>::empty(),
    {
        self.path.clear();
        assert(self@ =~= Seq::empty());
    }

    /// The names with `sep` between them.
    pub fn flat(&self, sep: &str) -> (s: String)
        ensures
            s@ == join(self@, sep@),
    {
        join_strings(&self.path, sep)
    }

    /// The path as one string.
    pub fn to_string(&self) -> (s: String)
        ensures
            s@ == path_text(self@),
    {
        join_strings(&self.path, ".")
    }

    /// The number of names.
    pub fn len(&self) -> (n: usize)
        ensures
            n == self@.len(),
    {
        self.path.len()
    }
}

} // verus!
