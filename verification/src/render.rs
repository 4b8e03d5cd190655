//! What the collected records are written as: the text of each module, piece
//! by piece.

use vstd::prelude::*;
use crate::ast::Fragment;
use crate::atom::AtomKind;
use crate::code_writer::{layout, lines_at};
use crate::model::{record_at, AtomRecord, Entry, EnumSymbol, Invocation, Record};
use crate::text::{decimal, join};
use crate::verilog_gen::combinatorial_text;

verus! {

/// The sections in which a module declares its atoms.
#[derive(Clone, Copy, Debug, PartialEq, Eq, Structural)]
pub enum Section {
    /// The ports.
    Arguments,
    /// The constants.
    Constants,
    /// The signals that stand for the ports of child scopes.
    Stubs,
    /// The wires inside the scope.
    Locals,
}

/// Whether atoms of kind `kind` are declared in `section`.
pub open spec fn in_section(kind: AtomKind, section: Section) -> bool {
    match section {
        Section::Arguments => kind.parameter(),
        Section::Constants => kind == AtomKind::Constant,
        Section::Stubs => kind.stub(),
        Section::Locals => kind == AtomKind::LocalSignal,
    }
}

/// The line that opens `section`; it is preceded by an empty line.
pub open spec fn section_title(section: Section) -> Seq<char> {
    match section {
        Section::Arguments => "\n// Module arguments"@,
        Section::Constants => "\n// Constant declarations"@,
        Section::Stubs => "\n// Stub signals"@,
        Section::Locals => "\n// Local signals"@,
    }
}

/// The Verilog words that declare an atom of kind `kind`.
pub open spec fn kind_word(kind: AtomKind) -> Seq<char> {
    match kind {
        AtomKind::InputParameter => "input"@,
        AtomKind::OutputParameter => "output reg"@,
        AtomKind::StubInputSignal => "reg"@,
        AtomKind::StubOutputSignal => "wire"@,
        AtomKind::Constant => "localparam"@,
        AtomKind::LocalSignal => "wire"@,
    }
}

/// The text of an atom's value; empty where it has none.
pub open spec fn literal_text(literal: Option<Seq<char>>) -> Seq<char> {
    match literal {
        Some(text) => text,
        None => Seq::empty(),
    }
}

/// The declaration of an atom. A constant is declared with its value. Any
/// other atom is declared by its kind and name, with the bit range
/// `[width-1:0]` between them unless it has a single bit.
pub open spec fn decl_text(atom: AtomRecord) -> Seq<char> {
    if atom.kind == AtomKind::Constant {
        kind_word(atom.kind) + " "@ + atom.name + " = "@ + literal_text(atom.literal) + ";"@
    } else if atom.width == 1 {
        kind_word(atom.kind) + " "@ + atom.name + ";"@
    } else {
        kind_word(atom.kind) + " ["@ + decimal((atom.width - 1) as nat) + ":0] "@ + atom.name
            + ";"@
    }
}

/// The atoms among the first `n` of `atoms` that are declared in `section`, in
/// their order.
pub open spec fn selected(atoms: Seq<AtomRecord>, n: nat, section: Section) -> Seq<AtomRecord>
    decreases n,
{
    if n == 0 || n > atoms.len() {
        Seq::empty()
    } else {
        let before = selected(atoms, (n - 1) as nat, section);
        if in_section(atoms[n - 1].kind, section) {
            before.push(atoms[n - 1])
        } else {
            before
        }
    }
}

/// The names of `atoms`, in their order.
pub open spec fn names(atoms: Seq<AtomRecord>) -> Seq<Seq<char>> {
    Seq::new(atoms.len(), |i: int| atoms[i].name)
}

/// The ports of a module, as the header lists them.
pub open spec fn port_list(atoms: Seq<AtomRecord>) -> Seq<char> {
    join(names(selected(atoms, atoms.len(), Section::Arguments)), ","@)
}

/// The lines that declare the first `n` of `atoms`, one declaration after
/// another, inside a module.
pub open spec fn decl_lines(atoms: Seq<AtomRecord>, n: nat) -> Seq<Seq<char>>
    decreases n,
{
    if n == 0 || n > atoms.len() {
        Seq::empty()
    } else {
        decl_lines(atoms, (n - 1) as nat) + lines_at(1, decl_text(atoms[n - 1]))
    }
}

/// The lines of one section, as far as the first `n` of `atoms` go: nothing
/// where none of them belongs to the section, else the title and the
/// declarations.
pub open spec fn section_lines(atoms: Seq<AtomRecord>, n: nat, section: Section) -> Seq<Seq<char>> {
    let members = selected(atoms, n, section);
    if members.len() == 0 {
        Seq::empty()
    } else {
        lines_at(1, section_title(section)) + decl_lines(members, members.len())
    }
}

/// The text that defines a named value as a constant.
pub open spec fn enum_text(symbol: EnumSymbol) -> Seq<char> {
    "localparam "@ + symbol.typename + "_"@ + symbol.discriminant + " = "@ + decimal(symbol.value)
}

/// The lines that define the first `n` of `symbols`.
pub open spec fn enum_decl_lines(symbols: Seq<EnumSymbol>, n: nat) -> Seq<Seq<char>>
    decreases n,
{
    if n == 0 || n > symbols.len() {
        Seq::empty()
    } else {
        enum_decl_lines(symbols, (n - 1) as nat) + lines_at(1, enum_text(symbols[n - 1]))
    }
}

/// The section of the named values: nothing where there are none.
pub open spec fn enum_lines(symbols: Seq<EnumSymbol>) -> Seq<Seq<char>> {
    if symbols.len() == 0 {
        Seq::empty()
    } else {
        lines_at(1, "\n// Enums"@) + enum_decl_lines(symbols, symbols.len())
    }
}

/// One port of a child wired to its stub in the parent.
pub open spec fn connection_text(instance: Seq<char>, port: Seq<char>) -> Seq<char> {
    "."@ + port + "("@ + instance + "_"@ + port + ")"@
}

/// The connections of an instance: one for each of the given ports.
pub open spec fn connections(instance: Seq<char>, ports: Seq<AtomRecord>) -> Seq<Seq<char>> {
    Seq::new(ports.len(), |i: int| connection_text(instance, ports[i].name))
}

/// The text that places a child in its parent: the child's module, the name
/// of the instance, and each port of the child wired to its stub.
pub open spec fn instance_text(sub: Invocation, child: Record) -> Seq<char> {
    sub.kind + " "@ + sub.name + "("@ + join(
        connections(sub.name, selected(child.atoms, child.atoms.len(), Section::Arguments)),
        ","@,
    ) + ");"@
}

/// The lines that place the first `n` of the child scopes `subs`. A child
/// whose behaviour is a black box is not placed.
pub open spec fn instance_decl_lines(entries: Seq<Entry>, subs: Seq<Invocation>, n: nat) -> Seq<
    Seq<char>,
>
    decreases n,
{
    if n == 0 || n > subs.len() {
        Seq::empty()
    } else {
        let before = instance_decl_lines(entries, subs, (n - 1) as nat);
        let child = record_at(entries, subs[n - 1].kind);
        if child.code.is_blackbox() {
            before
        } else {
            before + lines_at(1, instance_text(subs[n - 1], child))
        }
    }
}

/// The section of the child scopes: nothing where there are none.
pub open spec fn instance_lines(entries: Seq<Entry>, subs: Seq<Invocation>) -> Seq<Seq<char>> {
    if subs.len() == 0 {
        Seq::empty()
    } else {
        lines_at(1, "\n// Sub module instances"@) + instance_decl_lines(entries, subs, subs.len())
    }
}

/// The lines of a module's behaviour: a combinatorial block is written out,
/// text is taken as it is, an empty fragment and a black box give nothing.
pub open spec fn body_lines(code: Fragment) -> Seq<Seq<char>> {
    match code {
        Fragment::Combinatorial(block) => lines_at(1, "\n// Update code"@) + lines_at(
            1,
            combinatorial_text(block),
        ),
        Fragment::Custom(text) => lines_at(1, "\n// Update code (custom)"@) + lines_at(1, text),
        Fragment::Blackbox(_) => Seq::empty(),
        Fragment::Empty => Seq::empty(),
    }
}

/// The header of a module: two empty lines, then the name and the ports.
pub open spec fn header_lines(path: Seq<char>, record: Record) -> Seq<Seq<char>> {
    lines_at(0, "\n\nmodule "@ + path + "("@ + port_list(record.atoms) + ");"@)
}

/// All declarations of a module: ports, constants, named values, stubs and
/// local signals, in this order.
pub open spec fn declaration_lines(record: Record) -> Seq<Seq<char>> {
    let n = record.atoms.len();
    section_lines(record.atoms, n, Section::Arguments) + section_lines(
        record.atoms,
        n,
        Section::Constants,
    ) + enum_lines(record.enums) + section_lines(record.atoms, n, Section::Stubs) + section_lines(
        record.atoms,
        n,
        Section::Locals,
    )
}

/// The line that closes a module.
pub open spec fn footer_lines(path: Seq<char>) -> Seq<Seq<char>> {
    lines_at(0, "endmodule // "@ + path)
}

/// The lines of one module: header, declarations, child scopes, behaviour,
/// footer.
pub open spec fn module_lines(entries: Seq<Entry>, entry: Entry) -> Seq<Seq<char>> {
    header_lines(entry.path, entry.record) + declaration_lines(entry.record) + instance_lines(
        entries,
        entry.record.sub_modules,
    ) + body_lines(entry.record.code) + footer_lines(entry.path)
}

/// Whether an entry is written as a module: it has a path, and its behaviour
/// is no black box.
pub open spec fn structured(entry: Entry) -> bool {
    entry.path.len() != 0 && !entry.record.code.is_blackbox()
}

/// The lines of the modules among the first `n` entries, in their order.
pub open spec fn modules_lines(entries: Seq<Entry>, n: nat) -> Seq<Seq<char>>
    decreases n,
{
    if n == 0 || n > entries.len() {
        Seq::empty()
    } else {
        let before = modules_lines(entries, (n - 1) as nat);
        if structured(entries[n - 1]) {
            before + module_lines(entries, entries[n - 1])
        } else {
            before
        }
    }
}

/// The lines of a black box: its text; nothing for any other behaviour.
pub open spec fn blackbox_text_lines(code: Fragment) -> Seq<Seq<char>> {
    match code {
        Fragment::Blackbox(text) => lines_at(0, text),
        _ => Seq::empty(),
    }
}

/// The lines of the black boxes among the first `n` entries, in their order.
pub open spec fn blackbox_lines(entries: Seq<Entry>, n: nat) -> Seq<Seq<char>>
    decreases n,
{
    if n == 0 || n > entries.len() {
        Seq::empty()
    } else {
        blackbox_lines(entries, (n - 1) as nat) + blackbox_text_lines(entries[n - 1].record.code)
    }
}

/// All lines: the modules in the order of their paths, then the black boxes in
/// the order of theirs.
pub open spec fn rendered_lines(entries: Seq<Entry>) -> Seq<Seq<char>> {
    modules_lines(entries, entries.len()) + blackbox_lines(entries, entries.len())
}

/// The text that the records are written as.
pub open spec fn rendered(entries: Seq<Entry>) -> Seq<char> {
    layout(rendered_lines(entries))
}

/// The declarations of the first atoms do not depend on what follows them.
pub proof fn lemma_decl_lines_push(atoms: Seq<AtomRecord>, atom: AtomRecord, n: nat)
    requires
        n <= atoms.len(),
    ensures
        decl_lines(atoms.push(atom), n) == decl_lines(atoms, n),
    decreases n,
{
    if n > 0 {
        lemma_decl_lines_push(atoms, atom, (n - 1) as nat);
        assert(atoms.push(atom)[n - 1] == atoms[n - 1]);
    }
}

/// One more member of a section adds its declaration to the section, behind
/// the title where it is the first.
pub proof fn lemma_section_grows(atoms: Seq<AtomRecord>, n: nat, section: Section)
    requires
        n < atoms.len(),
    ensures
        in_section(atoms[n as int].kind, section) ==> section_lines(atoms, n + 1, section) == (if selected(
            atoms,
            n,
            section,
        ).len() == 0 {
            lines_at(1, section_title(section))
        } else {
            section_lines(atoms, n, section)
        }) + lines_at(1, decl_text(atoms[n as int])),
        !in_section(atoms[n as int].kind, section) ==> section_lines(atoms, n + 1, section)
            == section_lines(atoms, n, section),
{
    let before = selected(atoms, n, section);
    if in_section(atoms[n as int].kind, section) {
        let after = before.push(atoms[n as int]);
        assert(selected(atoms, n + 1, section) == after);
        lemma_decl_lines_push(before, atoms[n as int], before.len());
        assert(decl_lines(after, after.len()) == decl_lines(after, before.len()) + lines_at(
            1,
            decl_text(atoms[n as int]),
        ));
        if before.len() == 0 {
            assert(lines_at(1, section_title(section)) + decl_lines(after, after.len())
                =~= lines_at(1, section_title(section)) + lines_at(1, decl_text(atoms[n as int])));
        } else {
            assert(lines_at(1, section_title(section)) + decl_lines(after, after.len())
                =~= section_lines(atoms, n, section) + lines_at(1, decl_text(atoms[n as int])));
        }
    }
}

} // verus!
