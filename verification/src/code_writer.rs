//! A line-oriented text buffer with a current indentation.

use vstd::prelude::*;
use vstd::string::*;
use crate::text::{split_lines, split_text, views};

verus! {

/// The white space that opens a line at depth `depth`: four spaces a level.
pub open spec fn indentation(depth: nat) -> Seq<char>
    decreases depth,
{
    if depth == 0 {
        Seq::empty()
    } else {
        indentation((depth - 1) as nat) + "    "@
    }
}

/// Each of `texts` behind the indentation of `depth`.
pub open spec fn indented(depth: nat, texts: Seq<Seq<char>>) -> Seq<Seq<char>> {
    Seq::new(texts.len(), |i: int| indentation(depth) + texts[i])
}

/// The lines of `text`, each behind the indentation of `depth`.
pub open spec fn lines_at(depth: nat, text: Seq<char>) -> Seq<Seq<char>> {
    indented(depth, split_lines(text))
}

/// The lines one after another, each closed by a line break.
pub open spec fn layout(lines: Seq<Seq<char>>) -> Seq<char>
    decreases lines.len(),
{
    if lines.len() == 0 {
        Seq::empty()
    } else {
        layout(lines.drop_last()) + lines.last() + "\n"@
    }
}

/// The length of the indentation of `depth`.
pub proof fn lemma_indentation_len(depth: nat)
    ensures
        indentation(depth).len() == 4 * depth,
    decreases depth,
{
    reveal_strlit("    ");
    if depth > 0 {
        lemma_indentation_len((depth - 1) as nat);
    }
}

/// What a writer holds: the finished lines, indentation included, and the
/// depth at which the next line will be written.
pub struct Code {
    pub lines: Seq<Seq<char>>,
    pub depth: nat,
}

/// Collects lines of text, indenting each by the depth current when it is
/// added.
pub struct CodeWriter {
    lines: Vec<String>,
    prefix: String,
}

impl View for CodeWriter {
    type V = Code;

    closed spec fn view(&self) -> Code {
        Code { lines: views(self.lines@), depth: self.prefix@.len() / 4 }
    }
}

impl CodeWriter {
    /// The indentation held is that of the depth.
    pub closed spec fn wf(&self) -> bool {
        self.prefix@ == indentation(self@.depth)
    }

    /// A writer with no lines, at depth zero.
    pub fn new() -> (w: CodeWriter)
        ensures
            w.wf(),
            w@ == (Code { lines: Seq::empty(), depth: 0 }),
    {
        let w = CodeWriter { lines: Vec::new(), prefix: String::new() };
        assert(views(w.lines@) =~= Seq::empty());
        w
    }

    /// Indents what follows one level more.
    pub fn push(&mut self)
        requires
            old(self).wf(),
        ensures
            final(self).wf(),
            final(self)@ == (Code { lines: old(self)@.lines, depth: old(self)@.depth + 1 }),
    {
        proof {
            reveal_strlit("    ");
            lemma_indentation_len(self@.depth);
        }
        self.prefix.append("    ");
    }

    /// Indents what follows one level less.
    pub fn pop(&mut self)
        requires
            old(self).wf(),
            old(self)@.depth > 0,
        ensures
            final(self).wf(),
            final(self)@ == (Code {
                lines: old(self)@.lines,
                depth: (old(self)@.depth - 1) as nat,
            }),
    {
        proof {
            reveal_strlit("    ");
            lemma_indentation_len(self@.depth);
            lemma_indentation_len((self@.depth - 1) as nat);
        }
        let n = self.prefix.as_str().unicode_len();
        let shorter = String::from_str(self.prefix.as_str().substring_char(0, n - 4));
        proof {
            let d = self@.depth;
            assert(indentation(d) == indentation((d - 1) as nat) + "    "@);
            assert(shorter@ =~= indentation((d - 1) as nat));
        }
        self.prefix = shorter;
    }

    /// Adds `val` as one line, whatever it holds.
    pub fn add_line(&mut self, val: &str)
        requires
            old(self).wf(),
        ensures
            final(self).wf(),
            final(self)@ == (Code {
                lines: old(self)@.lines.push(indentation(old(self)@.depth) + val@),
                depth: old(self)@.depth,
            }),
    {
        let mut line = self.prefix.clone();
        line.append(val);
        proof {
            assert(views(self.lines@.push(line)) =~= views(self.lines@).push(line@));
        }
        self.lines.push(line);
    }

    /// Adds the lines of `val`.
    pub fn add(&mut self, val: &str)
        requires
            old(self).wf(),
        ensures
            final(self).wf(),
            final(self)@ == (Code {
                lines: old(self)@.lines + lines_at(old(self)@.depth, val@),
                depth: old(self)@.depth,
            }),
    {
        let pieces = split_text(val);
        let mut i: usize = 0;
        while i < pieces.len()
            invariant
                i <= pieces.len(),
                self.wf(),
                views(pieces@) == split_lines(val@),
                self@.depth == old(self)@.depth,
                self@.lines == old(self)@.lines + lines_at(old(self)@.depth, val@).take(i as int),
            decreases pieces.len() - i,
        {
            proof {
                let all = lines_at(old(self)@.depth, val@);
                assert(all.take(i + 1) =~= all.take(i as int).push(all[i as int]));
                assert(all[i as int] == indentation(old(self)@.depth) + pieces@[i as int]@);
            }
            self.add_line(pieces[i].as_str());
            i = i + 1;
        }
        proof {
            let all = lines_at(old(self)@.depth, val@);
            assert(all.take(i as int) =~= all);
        }
    }

    /// The text collected so far.
    pub fn to_string(&self) -> (s: String)
        ensures
            s@ == layout(self@.lines),
    {
        let mut out = String::new();
        let mut i: usize = 0;
        while i < self.lines.len()
            invariant
                i <= self.lines.len(),
                out@ == layout(views(self.lines@).take(i as int)),
            decreases self.lines.len() - i,
        {
            proof {
                let all = views(self.lines@);
                assert(all.take(i + 1).drop_last() =~= all.take(i as int));
                assert(all.take(i + 1).last() == self.lines@[i as int]@);
            }
            out.append(self.lines[i].as_str());
            out.append("\n");
            i = i + 1;
        }
        assert(views(self.lines@).take(i as int) =~= views(self.lines@));
        out
    }
}

} // verus!
