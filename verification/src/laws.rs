//! What holds of every design: laws of the collector and of the text it
//! writes, each proved from the model.

use vstd::prelude::*;
use vstd::arithmetic::power2::pow2;
use crate::ast::Fragment;
use crate::atom::{AtomInfo, AtomKind};
use crate::block::{lemma_members, members_wf, walk, walk_members, Hierarchy, Member};
use crate::code_writer::{indentation, layout, lines_at};
use crate::model::{
    add_atom, add_code, add_enum, add_submodule, declared, enum_symbols, holds, lemma_atom_wf,
    lemma_start_scope_wf, lemma_store_other, lemma_store_same, record_at, sorted, store,
    stub_for, stub_kind, AtomRecord, Collected, Entry, EnumSymbol, Invocation,
};
use crate::module_defines::{collected, ModuleDefines};
use crate::named_path::path_text;
use crate::render::{
    blackbox_lines, body_lines, decl_text, declaration_lines, enum_lines, footer_lines,
    header_lines, in_section, instance_decl_lines, instance_lines, kind_word,
    lemma_section_grows, module_lines, modules_lines, rendered, rendered_lines, section_lines,
    section_title, selected, structured, Section,
};
use crate::text::{
    decimal, first_break, join, lemma_first_break, lemma_lex_irreflexive, split_lines,
};

verus! {

/// Whether `block` stands somewhere in `lines`, whole and unbroken.
pub open spec fn occurs(block: Seq<Seq<char>>, lines: Seq<Seq<char>>) -> bool {
    exists|k: int|
        0 <= k && k + block.len() <= lines.len() && #[trigger] lines.subrange(
            k,
            k + block.len(),
        ) == block
}

/// What stands in some lines stands in them with more lines before and after.
pub proof fn lemma_occurs_within(
    block: Seq<Seq<char>>,
    before: Seq<Seq<char>>,
    lines: Seq<Seq<char>>,
    after: Seq<Seq<char>>,
)
    requires
        occurs(block, lines),
    ensures
        occurs(block, before + lines + after),
{
    let k = choose|k: int|
        0 <= k && k + block.len() <= lines.len() && #[trigger] lines.subrange(
            k,
            k + block.len(),
        ) == block;
    let all = before + lines + after;
    assert(all.subrange(before.len() + k, before.len() + k + block.len()) =~= block);
}

/// Lines stand in themselves.
pub proof fn lemma_occurs_self(block: Seq<Seq<char>>)
    ensures
        occurs(block, block),
{
    assert(block.subrange(0, 0 + block.len() as int) =~= block);
}

/// The section in which atoms of kind `kind` are declared.
pub open spec fn section_of(kind: AtomKind) -> Section {
    match kind {
        AtomKind::InputParameter => Section::Arguments,
        AtomKind::OutputParameter => Section::Arguments,
        AtomKind::StubInputSignal => Section::Stubs,
        AtomKind::StubOutputSignal => Section::Stubs,
        AtomKind::Constant => Section::Constants,
        AtomKind::LocalSignal => Section::Locals,
    }
}

/// The declaration of each atom of a section stands in the lines of that
/// section.
pub proof fn lemma_declared_in_section(atoms: Seq<AtomRecord>, n: nat, section: Section, j: int)
    requires
        0 <= j < n <= atoms.len(),
        in_section(atoms[j].kind, section),
    ensures
        occurs(lines_at(1, decl_text(atoms[j])), section_lines(atoms, n, section)),
    decreases n,
{
    let block = lines_at(1, decl_text(atoms[j]));
    let m = (n - 1) as nat;
    lemma_section_grows(atoms, m, section);
    if j == n - 1 {
        let head = if selected(atoms, m, section).len() == 0 {
            lines_at(1, section_title(section))
        } else {
            section_lines(atoms, m, section)
        };
        lemma_occurs_self(block);
        lemma_occurs_within(block, head, block, Seq::empty());
        assert(head + block + Seq::<Seq<char>>::empty() =~= head + block);
    } else {
        lemma_declared_in_section(atoms, m, section, j);
        if in_section(atoms[m as int].kind, section) {
            // an earlier member exists, so the section had its title already
            lemma_selected_member(atoms, m, section, j);
            let tail = lines_at(1, decl_text(atoms[m as int]));
            lemma_occurs_within(block, Seq::empty(), section_lines(atoms, m, section), tail);
            assert(Seq::<Seq<char>>::empty() + section_lines(atoms, m, section) + tail
                =~= section_lines(atoms, m, section) + tail);
        }
    }
}

/// Where an atom of a section is among the first `n`, that section has
/// members among them.
pub proof fn lemma_selected_member(atoms: Seq<AtomRecord>, n: nat, section: Section, j: int)
    requires
        0 <= j < n <= atoms.len(),
        in_section(atoms[j].kind, section),
    ensures
        selected(atoms, n, section).len() > 0,
    decreases n,
{
    if j < n - 1 {
        lemma_selected_member(atoms, (n - 1) as nat, section, j);
    }
}

/// Every atom of a scope is declared before the scope's behaviour: the
/// lines of a module are its header, declarations and child scopes, then its
/// behaviour, then its footer; and the declaration of each atom in the
/// scope's record stands among the declarations.
pub proof fn law_declared_before_behaviour(entries: Seq<Entry>, entry: Entry, j: int)
    requires
        0 <= j < entry.record.atoms.len(),
    ensures
        module_lines(entries, entry) == (header_lines(entry.path, entry.record)
            + declaration_lines(entry.record) + instance_lines(entries, entry.record.sub_modules))
            + body_lines(entry.record.code) + footer_lines(entry.path),
        occurs(
            lines_at(1, decl_text(entry.record.atoms[j])),
            declaration_lines(entry.record),
        ),
{
    let atoms = entry.record.atoms;
    let n = atoms.len();
    let block = lines_at(1, decl_text(atoms[j]));
    let arguments = section_lines(atoms, n, Section::Arguments);
    let constants = section_lines(atoms, n, Section::Constants);
    let enums = enum_lines(entry.record.enums);
    let stubs = section_lines(atoms, n, Section::Stubs);
    let locals = section_lines(atoms, n, Section::Locals);
    let section = section_of(atoms[j].kind);
    lemma_declared_in_section(atoms, n, section, j);
    match section {
        Section::Arguments => {
            lemma_occurs_within(block, Seq::empty(), arguments, constants + enums + stubs + locals);
            assert(Seq::<Seq<char>>::empty() + arguments + (constants + enums + stubs + locals)
                =~= declaration_lines(entry.record));
        },
        Section::Constants => {
            lemma_occurs_within(block, arguments, constants, enums + stubs + locals);
            assert(arguments + constants + (enums + stubs + locals) =~= declaration_lines(
                entry.record,
            ));
        },
        Section::Stubs => {
            lemma_occurs_within(block, arguments + constants + enums, stubs, locals);
            assert((arguments + constants + enums) + stubs + locals =~= declaration_lines(
                entry.record,
            ));
        },
        Section::Locals => {
            lemma_occurs_within(
                block,
                arguments + constants + enums + stubs,
                locals,
                Seq::empty(),
            );
            assert((arguments + constants + enums + stubs) + locals + Seq::<Seq<char>>::empty()
                =~= declaration_lines(entry.record));
        },
    }
}

/// An atom of a single bit is declared without a bit range; an atom of more
/// bits is declared with the range from `width - 1` down to zero. A constant
/// is declared by its value instead.
pub proof fn law_bit_range_by_width(atom: AtomRecord)
    requires
        atom.width >= 1,
        atom.kind != AtomKind::Constant,
    ensures
        atom.width == 1 ==> decl_text(atom) == kind_word(atom.kind) + " "@ + atom.name + ";"@,
        atom.width > 1 ==> decl_text(atom) == kind_word(atom.kind) + " ["@ + decimal(
            (atom.width - 1) as nat,
        ) + ":0] "@ + atom.name + ";"@,
{
}

/// Whether `c` is among the characters of `text`.
pub open spec fn has_char(text: Seq<char>, c: char) -> bool {
    exists|i: int| 0 <= i < text.len() && text[i] == c
}

/// The declaration of an atom of a single bit holds no opening bracket,
/// unless the atom's name holds one.
pub proof fn law_single_bit_has_no_range(atom: AtomRecord)
    requires
        atom.width == 1,
        atom.kind != AtomKind::Constant,
        !has_char(atom.name, '['),
    ensures
        !has_char(decl_text(atom), '['),
{
    reveal_strlit("input");
    reveal_strlit("output reg");
    reveal_strlit("reg");
    reveal_strlit("wire");
    reveal_strlit("localparam");
    reveal_strlit(" ");
    reveal_strlit(";");
    let word = kind_word(atom.kind);
    let text = decl_text(atom);
    assert(text == word + " "@ + atom.name + ";"@);
    assert forall|i: int| 0 <= i < text.len() implies text[i] != '[' by {
        if i < word.len() {
            assert(text[i] == word[i]);
        } else if i == word.len() {
        } else if i < word.len() + 1 + atom.name.len() {
            assert(text[i] == atom.name[i - word.len() - 1]);
        } else {
        }
    }
}

/// A child scope that is a black box is left out where its parent places its
/// children: the lines are those of the other children alone.
pub proof fn law_blackbox_not_placed(entries: Seq<Entry>, subs: Seq<Invocation>, i: int)
    requires
        0 <= i < subs.len(),
        record_at(entries, subs[i].kind).code.is_blackbox(),
    ensures
        instance_decl_lines(entries, subs, subs.len()) == instance_decl_lines(
            entries,
            subs.remove(i),
            (subs.len() - 1) as nat,
        ),
{
    lemma_blackbox_skipped(entries, subs, i, subs.len());
}

/// The lines that place the first `n` children do not change when a black box
/// among them is taken out of the row.
proof fn lemma_blackbox_skipped(entries: Seq<Entry>, subs: Seq<Invocation>, i: int, n: nat)
    requires
        0 <= i < n <= subs.len(),
        record_at(entries, subs[i].kind).code.is_blackbox(),
    ensures
        instance_decl_lines(entries, subs, n) == instance_decl_lines(
            entries,
            subs.remove(i),
            (n - 1) as nat,
        ),
    decreases n,
{
    let rest = subs.remove(i);
    if n - 1 == i {
        lemma_placed_prefix(entries, subs, rest, (n - 1) as nat);
    } else {
        lemma_blackbox_skipped(entries, subs, i, (n - 1) as nat);
        assert(rest[n - 2] == subs[n - 1]);
    }
}

/// The lines that place the first `n` children depend on those children alone.
proof fn lemma_placed_prefix(
    entries: Seq<Entry>,
    subs: Seq<Invocation>,
    other: Seq<Invocation>,
    n: nat,
)
    requires
        n <= subs.len(),
        n <= other.len(),
        forall|k: int| 0 <= k < n ==> subs[k] == other[k],
    ensures
        instance_decl_lines(entries, subs, n) == instance_decl_lines(entries, other, n),
    decreases n,
{
    if n > 0 {
        lemma_placed_prefix(entries, subs, other, (n - 1) as nat);
    }
}

/// Lines written one after another are their layouts one after another.
pub proof fn lemma_layout_concat(a: Seq<Seq<char>>, b: Seq<Seq<char>>)
    ensures
        layout(a + b) == layout(a) + layout(b),
    decreases b.len(),
{
    if b.len() == 0 {
        assert(a + b =~= a);
        assert(layout(a) + layout(b) =~= layout(a));
    } else {
        lemma_layout_concat(a, b.drop_last());
        assert((a + b).drop_last() =~= a + b.drop_last());
        assert((a + b).last() == b.last());
        assert(layout(a + b) =~= layout(a) + layout(b));
    }
}

/// One line laid out is the line and a line break.
pub proof fn lemma_layout_one(line: Seq<char>)
    ensures
        layout(seq![line]) == line + "\n"@,
{
    let s = seq![line];
    assert(s.drop_last() =~= Seq::<Seq<char>>::empty());
    assert(layout(Seq::<Seq<char>>::empty()) =~= Seq::<char>::empty());
    assert(layout(s) =~= line + "\n"@);
}

/// A text closed by a line break: the text itself where it is empty or ends
/// in one, else the text and a line break.
pub open spec fn closed_text(text: Seq<char>) -> Seq<char> {
    if text.len() == 0 || text.last() == '\n' {
        text
    } else {
        text + "\n"@
    }
}

/// The lines of a text, laid out again, are the text, closed by a line break.
pub proof fn lemma_layout_of_lines(text: Seq<char>)
    ensures
        layout(split_lines(text)) == closed_text(text),
    decreases text.len(),
{
    reveal_strlit("\n");
    if text.len() == 0 {
    } else {
        lemma_first_break(text);
        let k = first_break(text);
        if k < text.len() {
            let rest = text.skip(k + 1);
            lemma_layout_of_lines(rest);
            lemma_layout_concat(seq![text.take(k)], split_lines(rest));
            lemma_layout_one(text.take(k));
            if rest.len() == 0 {
                assert(text =~= text.take(k) + "\n"@);
                assert(layout(split_lines(text)) =~= text);
            } else {
                assert(text.last() == rest.last());
                assert(text =~= text.take(k) + "\n"@ + rest);
                if rest.last() == '\n' {
                    assert(layout(split_lines(text)) =~= text);
                } else {
                    assert(layout(split_lines(text)) =~= text + "\n"@);
                }
            }
        } else {
            lemma_layout_one(text);
            assert(text.last() != '\n');
        }
    }
}

/// The black boxes among the entries from `from` up to `to`, as text.
pub open spec fn blackbox_range(entries: Seq<Entry>, from: int, to: int) -> Seq<char> {
    layout(blackbox_lines(entries.subrange(from, to), (to - from) as nat))
}

/// The lines of the black boxes among the first `n` entries are those among
/// the first `i`, then those among the rest.
proof fn lemma_blackbox_split(entries: Seq<Entry>, i: int, n: int)
    requires
        0 <= i <= n <= entries.len(),
    ensures
        blackbox_lines(entries, n as nat) == blackbox_lines(entries, i as nat) + blackbox_lines(
            entries.subrange(i, n),
            (n - i) as nat,
        ),
    decreases n - i,
{
    if i == n {
        assert(blackbox_lines(entries, i as nat) + Seq::<Seq<char>>::empty() =~= blackbox_lines(
            entries,
            i as nat,
        ));
    } else {
        lemma_blackbox_split(entries, i, n - 1);
        lemma_blackbox_prefix(entries.subrange(i, n - 1), entries.subrange(i, n), (n - 1 - i) as nat);
        assert(entries.subrange(i, n)[n - i - 1] == entries[n - 1]);
        assert(blackbox_lines(entries, n as nat) =~= blackbox_lines(entries, i as nat)
            + blackbox_lines(entries.subrange(i, n), (n - i) as nat));
    }
}

/// The lines of the black boxes among the first `n` entries depend on those
/// entries alone.
proof fn lemma_blackbox_prefix(entries: Seq<Entry>, other: Seq<Entry>, n: nat)
    requires
        n <= entries.len(),
        n <= other.len(),
        forall|k: int| 0 <= k < n ==> entries[k] == other[k],
    ensures
        blackbox_lines(entries, n) == blackbox_lines(other, n),
    decreases n,
{
    if n > 0 {
        lemma_blackbox_prefix(entries, other, (n - 1) as nat);
    }
}

/// A black box is written once, as it is, behind all modules: the whole text
/// is the modules, then the black boxes before this one, then its own text
/// closed by a line break, then the black boxes after it. It is none of the
/// modules.
#[verifier::rlimit(40)]
pub proof fn law_blackbox_written_once(entries: Seq<Entry>, i: int, text: Seq<char>)
    requires
        0 <= i < entries.len(),
        entries[i].record.code == Fragment::Blackbox(text),
    ensures
        !structured(entries[i]),
        rendered(entries) == layout(modules_lines(entries, entries.len())) + blackbox_range(
            entries,
            0,
            i,
        ) + closed_text(text) + blackbox_range(entries, i + 1, entries.len() as int),
{
    let n = entries.len() as int;
    let modules = modules_lines(entries, entries.len());
    let before = blackbox_lines(entries, i as nat);
    let own = lines_at(0, text);
    let after = blackbox_lines(entries.subrange(i + 1, n), (n - i - 1) as nat);
    lemma_blackbox_split(entries, i + 1, n);
    assert(blackbox_lines(entries, (i + 1) as nat) == before + own);
    lemma_blackbox_prefix(entries, entries.subrange(0, i), i as nat);
    assert(indentation(0) =~= Seq::<char>::empty());
    assert(own =~= split_lines(text)) by {
        assert forall|k: int| 0 <= k < own.len() implies own[k] == split_lines(text)[k] by {
            assert(indentation(0) + split_lines(text)[k] =~= split_lines(text)[k]);
        }
    }
    lemma_layout_of_lines(text);
    lemma_layout_concat(modules, before + own + after);
    lemma_layout_concat(before + own, after);
    lemma_layout_concat(before, own);
    assert(rendered_lines(entries) =~= modules + (before + own + after));
}

/// The text of a design depends on nothing but the design: two designs that
/// are the same to a visitor are written as the same text.
pub proof fn law_same_design_same_text(a: Hierarchy, b: Hierarchy)
    requires
        a == b,
    ensures
        rendered(collected(a).records) == rendered(collected(b).records),
{
}

/// How often `x` stands among `atoms`.
pub open spec fn tally(atoms: Seq<AtomRecord>, x: AtomRecord) -> nat
    decreases atoms.len(),
{
    if atoms.len() == 0 {
        0
    } else {
        tally(atoms.drop_last(), x) + if atoms.last() == x {
            1nat
        } else {
            0nat
        }
    }
}

/// How often `x` stands among the atoms that `state` holds for the scope
/// `path`.
pub open spec fn held(state: Collected, path: Seq<char>, x: AtomRecord) -> nat {
    tally(record_at(state.records, path).atoms, x)
}

/// One more atom is counted once where it is the one asked for.
pub proof fn lemma_tally_push(atoms: Seq<AtomRecord>, atom: AtomRecord, x: AtomRecord)
    ensures
        tally(atoms.push(atom), x) == tally(atoms, x) + if atom == x {
            1nat
        } else {
            0nat
        },
{
    assert(atoms.push(atom).drop_last() =~= atoms);
}

/// What is counted at least once stands somewhere.
pub proof fn lemma_tally_found(atoms: Seq<AtomRecord>, x: AtomRecord)
    requires
        tally(atoms, x) > 0,
    ensures
        exists|j: int| 0 <= j < atoms.len() && atoms[j] == x,
    decreases atoms.len(),
{
    if atoms.last() == x {
        assert(atoms[atoms.len() - 1] == x);
    } else {
        lemma_tally_found(atoms.drop_last(), x);
        let j = choose|j: int| 0 <= j < atoms.drop_last().len() && atoms.drop_last()[j] == x;
        assert(atoms[j] == x);
    }
}

/// What the records hold for each scope after one more atom was added.
proof fn lemma_add_atom_held(
    entries: Seq<Entry>,
    path: Seq<char>,
    atom: AtomRecord,
    p: Seq<char>,
    x: AtomRecord,
)
    requires
        sorted(entries),
    ensures
        sorted(add_atom(entries, path, atom)),
        tally(record_at(add_atom(entries, path, atom), p).atoms, x) == tally(
            record_at(entries, p).atoms,
            x,
        ) + if p == path && atom == x {
            1nat
        } else {
            0nat
        },
{
    let record = record_at(entries, path).with_atom(atom);
    lemma_store_same(entries, path, record);
    if p != path {
        lemma_store_other(entries, path, record, p);
    } else {
        lemma_tally_push(record_at(entries, path).atoms, atom, x);
    }
}

/// Added named values leave the atoms of every scope as they were.
proof fn lemma_add_enum_held(
    entries: Seq<Entry>,
    path: Seq<char>,
    symbols: Seq<EnumSymbol>,
    p: Seq<char>,
)
    requires
        sorted(entries),
    ensures
        sorted(add_enum(entries, path, symbols)),
        record_at(add_enum(entries, path, symbols), p).atoms == record_at(entries, p).atoms,
{
    let record = record_at(entries, path).with_enums(symbols);
    lemma_store_same(entries, path, record);
    if p != path {
        lemma_store_other(entries, path, record, p);
    }
}

/// Placing a child scope and keeping its behaviour leave the atoms of every
/// scope as they were.
proof fn lemma_place_held(
    entries: Seq<Entry>,
    parent: Seq<char>,
    sub: Invocation,
    code: Fragment,
    p: Seq<char>,
)
    requires
        sorted(entries),
    ensures
        record_at(add_code(add_submodule(entries, parent, sub), sub.kind, code), p).atoms
            == record_at(entries, p).atoms,
{
    let first = record_at(entries, parent).with_submodule(sub);
    let placed = store(entries, parent, first);
    lemma_store_same(entries, parent, first);
    if p != parent {
        lemma_store_other(entries, parent, first, p);
    }
    let second = record_at(placed, sub.kind).with_code(code);
    lemma_store_same(placed, sub.kind, second);
    if p != sub.kind {
        lemma_store_other(placed, sub.kind, second, p);
    }
}

/// A visit of an atom: what each scope holds afterwards. The scope of the
/// atom holds its declaration once more; where the atom is a port, the
/// parent scope holds its stub once more; nothing else changes.
pub proof fn lemma_atom_held(
    state: Collected,
    name: Seq<char>,
    info: AtomInfo,
    p: Seq<char>,
    x: AtomRecord,
)
    requires
        state.wf(),
    ensures
        held(state.atom(name, info), p, x) == held(state, p, x) + (if info.kind.parameter() && p
            == state.parent_scope() && x == stub_for(
            state.path.last(),
            declared(state.namespace, name, info),
        ) {
            1nat
        } else {
            0nat
        }) + (if p == state.scope() && x == declared(state.namespace, name, info) {
            1nat
        } else {
            0nat
        }),
{
    let port = declared(state.namespace, name, info);
    let stub = stub_for(state.path.last(), port);
    let stubbed = if info.kind.parameter() {
        add_atom(state.records, state.parent_scope(), stub)
    } else {
        state.records
    };
    if info.kind.parameter() {
        lemma_add_atom_held(state.records, state.parent_scope(), stub, p, x);
    }
    let named = if info.enumerable {
        add_enum(stubbed, state.scope(), enum_symbols(info, pow2(info.width)))
    } else {
        stubbed
    };
    if info.enumerable {
        lemma_add_enum_held(
            stubbed,
            state.scope(),
            enum_symbols(info, pow2(info.width)),
            p,
        );
    }
    lemma_add_atom_held(named, state.scope(), port, p, x);
}

/// A port gives the parent of its scope exactly one stub: after the visit the
/// parent holds, once more than before, an atom named by the instance, `_`
/// and the port's name, of the port's width, and of the stub kind that
/// answers the port's kind.
pub proof fn law_port_gives_one_stub(state: Collected, name: Seq<char>, info: AtomInfo)
    requires
        state.wf(),
        state.path.len() > 0,
        info.kind.parameter(),
    ensures
        ({
            let port = declared(state.namespace, name, info);
            let stub = stub_for(state.path.last(), port);
            &&& stub.name == state.path.last() + "_"@ + port.name
            &&& stub.width == info.width
            &&& info.kind == AtomKind::InputParameter ==> stub.kind == AtomKind::StubInputSignal
            &&& info.kind == AtomKind::OutputParameter ==> stub.kind == AtomKind::StubOutputSignal
            &&& held(state.atom(name, info), state.parent_scope(), stub) == held(
                state,
                state.parent_scope(),
                stub,
            ) + 1
        }),
{
    let port = declared(state.namespace, name, info);
    let stub = stub_for(state.path.last(), port);
    lemma_atom_held(state, name, info, state.parent_scope(), stub);
    assert(port.kind != stub.kind);
}

/// A walk through a design keeps the state sound, leaves the path of open
/// scopes as it was, leaves the namespaces as they were or none, and takes
/// no atom away from any scope.
pub proof fn lemma_walk(state: Collected, name: Seq<char>, h: Hierarchy, p: Seq<char>, x: AtomRecord)
    requires
        state.wf(),
        h.wf(),
    ensures
        walk::<ModuleDefines>(state, name, h).wf(),
        walk::<ModuleDefines>(state, name, h).path == state.path,
        walk::<ModuleDefines>(state, name, h).namespace == state.namespace || walk::<
            ModuleDefines,
        >(state, name, h).namespace == Seq::<Seq<char>>::empty(),
        held(walk::<ModuleDefines>(state, name, h), p, x) >= held(state, p, x),
    decreases h, 0nat,
{
    match h {
        Hierarchy::Atom(info) => {
            lemma_atom_wf(state, name, info);
            lemma_atom_held(state, name, info, p, x);
        },
        Hierarchy::Namespace(members) => {
            let entered = state.start_namespace(name);
            lemma_walk_members(entered, members, members.len(), p, x);
            let walked = walk_members::<ModuleDefines>(entered, members, members.len());
            assert(entered.namespace.drop_last() =~= state.namespace);
        },
        Hierarchy::Scope(code, members) => {
            let entered = state.start_scope(name, code);
            lemma_start_scope_wf(state, name, code);
            lemma_place_held(
                state.records,
                state.scope(),
                Invocation { kind: path_text(state.path.push(name)), name },
                code,
                p,
            );
            lemma_walk_members(entered, members, members.len(), p, x);
            assert(entered.path.drop_last() =~= state.path);
        },
    }
}

/// A walk through the first `n` members of a row: as `lemma_walk`.
pub proof fn lemma_walk_members(
    state: Collected,
    members: Seq<Member>,
    n: nat,
    p: Seq<char>,
    x: AtomRecord,
)
    requires
        state.wf(),
        n <= members.len(),
        members_wf(members, members.len()),
    ensures
        walk_members::<ModuleDefines>(state, members, n).wf(),
        walk_members::<ModuleDefines>(state, members, n).path == state.path,
        walk_members::<ModuleDefines>(state, members, n).namespace == state.namespace
            || walk_members::<ModuleDefines>(state, members, n).namespace == Seq::<
            Seq<char>,
        >::empty(),
        held(walk_members::<ModuleDefines>(state, members, n), p, x) >= held(state, p, x),
    decreases members, n,
{
    if n > 0 {
        lemma_walk_members(state, members, (n - 1) as nat, p, x);
        lemma_members(members, members.len(), n - 1);
        lemma_walk(
            walk_members::<ModuleDefines>(state, members, (n - 1) as nat),
            members[n - 1].name,
            members[n - 1].node,
            p,
            x,
        );
    }
}

/// The members from `from` on take no atom away from any scope.
proof fn lemma_walk_rest(
    state: Collected,
    members: Seq<Member>,
    from: nat,
    n: nat,
    p: Seq<char>,
    x: AtomRecord,
)
    requires
        state.wf(),
        from <= n <= members.len(),
        members_wf(members, members.len()),
    ensures
        held(walk_members::<ModuleDefines>(state, members, n), p, x) >= held(
            walk_members::<ModuleDefines>(state, members, from),
            p,
            x,
        ),
    decreases n - from,
{
    if from < n {
        lemma_walk_rest(state, members, from, (n - 1) as nat, p, x);
        lemma_walk_members(state, members, (n - 1) as nat, p, x);
        lemma_members(members, members.len(), n - 1);
        lemma_walk(
            walk_members::<ModuleDefines>(state, members, (n - 1) as nat),
            members[n - 1].name,
            members[n - 1].node,
            p,
            x,
        );
    }
}

/// The stub that a parent gets for the port `port` of width `width` and kind
/// `kind` of the child scope entered as `instance`.
pub open spec fn stub_of(instance: Seq<char>, port: Seq<char>, kind: AtomKind, width: nat) -> AtomRecord {
    AtomRecord { name: instance + "_"@ + port, kind: stub_kind(kind), width, literal: None }
}

/// Where a scope entered as `instance` has a port among its members, the
/// scope around it holds, once the scope was walked, the stub of that port:
/// named by the instance, `_` and the port's name, of the port's width, a
/// stub input for an input port and a stub output for an output port. The
/// declaration of the stub stands among the declarations of the scope around
/// it.
pub proof fn law_port_has_stub_in_parent(
    state: Collected,
    instance: Seq<char>,
    code: Fragment,
    members: Seq<Member>,
    i: int,
    info: AtomInfo,
)
    requires
        state.wf(),
        Hierarchy::Scope(code, members).wf(),
        0 <= i < members.len(),
        members[i].node == Hierarchy::Atom(info),
        info.kind.parameter(),
    ensures
        ({
            let after = walk::<ModuleDefines>(state, instance, Hierarchy::Scope(code, members));
            let stub = stub_of(instance, members[i].name, info.kind, info.width);
            let parent = record_at(after.records, state.scope());
            &&& info.kind == AtomKind::OutputParameter ==> stub.kind == AtomKind::StubOutputSignal
            &&& info.kind == AtomKind::InputParameter ==> stub.kind == AtomKind::StubInputSignal
            &&& held(after, state.scope(), stub) >= held(state, state.scope(), stub) + 1
            &&& exists|j: int| 0 <= j < parent.atoms.len() && parent.atoms[j] == stub
            &&& occurs(lines_at(1, decl_text(stub)), declaration_lines(parent))
        }),
{
    let h = Hierarchy::Scope(code, members);
    let after = walk::<ModuleDefines>(state, instance, h);
    let stub = stub_of(instance, members[i].name, info.kind, info.width);
    let outer = state.scope();
    let entered = state.start_scope(instance, code);
    lemma_start_scope_wf(state, instance, code);
    lemma_place_held(
        state.records,
        outer,
        Invocation { kind: path_text(state.path.push(instance)), name: instance },
        code,
        outer,
    );
    let before = walk_members::<ModuleDefines>(entered, members, i as nat);
    lemma_walk_members(entered, members, i as nat, outer, stub);
    assert(before.path == state.path.push(instance));
    assert(before.path.drop_last() =~= state.path);
    assert(before.namespace =~= Seq::<Seq<char>>::empty());
    assert(join(before.namespace, "_"@) =~= Seq::<char>::empty());
    let port = declared(before.namespace, members[i].name, info);
    assert(port.name == members[i].name);
    assert(stub_for(before.path.last(), port) == stub);
    law_port_gives_one_stub(before, members[i].name, info);
    let visited = walk_members::<ModuleDefines>(entered, members, (i + 1) as nat);
    assert(visited == walk::<ModuleDefines>(before, members[i].name, members[i].node));
    assert(walk::<ModuleDefines>(before, members[i].name, Hierarchy::Atom(info)) == before.atom(
        members[i].name,
        info,
    ));
    lemma_walk_rest(entered, members, (i + 1) as nat, members.len(), outer, stub);
    let parent = record_at(after.records, outer);
    lemma_tally_found(parent.atoms, stub);
    let j = choose|j: int| 0 <= j < parent.atoms.len() && parent.atoms[j] == stub;
    law_declared_before_behaviour(after.records, Entry { path: outer, record: parent }, j);
}

/// Where a walk stands: the scopes and the namespaces that are open.
pub struct Position {
    pub path: Seq<Seq<char>>,
    pub namespace: Seq<Seq<char>>,
}

/// Where the collector stands.
pub open spec fn position(state: Collected) -> Position {
    Position { path: state.path, namespace: state.namespace }
}

/// Where a walk stands once it has entered the scope `name`.
pub open spec fn in_scope(pos: Position, name: Seq<char>) -> Position {
    Position { path: pos.path.push(name), namespace: Seq::empty() }
}

/// Where a walk stands once it has entered the namespace `name`.
pub open spec fn in_namespace(pos: Position, name: Seq<char>) -> Position {
    Position { path: pos.path, namespace: pos.namespace.push(name) }
}

/// Where a walk stands once it has left a scope.
pub open spec fn out_of_scope(pos: Position) -> Position {
    if pos.path.len() > 0 {
        Position { path: pos.path.drop_last(), namespace: pos.namespace }
    } else {
        pos
    }
}

/// Where a walk stands once it has left a namespace.
pub open spec fn out_of_namespace(pos: Position) -> Position {
    if pos.namespace.len() > 0 {
        Position { path: pos.path, namespace: pos.namespace.drop_last() }
    } else {
        pos
    }
}

/// Where a walk stands after `h`.
pub open spec fn position_after(pos: Position, name: Seq<char>, h: Hierarchy) -> Position
    decreases h, 0nat,
{
    match h {
        Hierarchy::Atom(_) => pos,
        Hierarchy::Namespace(members) => out_of_namespace(
            position_after_members(in_namespace(pos, name), members, members.len()),
        ),
        Hierarchy::Scope(_, members) => out_of_scope(
            position_after_members(in_scope(pos, name), members, members.len()),
        ),
    }
}

/// Where a walk stands after the first `n` members.
pub open spec fn position_after_members(pos: Position, members: Seq<Member>, n: nat) -> Position
    decreases members, n,
{
    if n == 0 || n > members.len() {
        pos
    } else {
        position_after(
            position_after_members(pos, members, (n - 1) as nat),
            members[n - 1].name,
            members[n - 1].node,
        )
    }
}

/// How often the visit of one atom gives the scope `p` the atom `x`: once
/// as the stub of a port whose scope lies in `p`, once as the declaration of
/// an atom that lies in `p` itself.
pub open spec fn given_by_visit(
    pos: Position,
    name: Seq<char>,
    info: AtomInfo,
    p: Seq<char>,
    x: AtomRecord,
) -> nat {
    let port = declared(pos.namespace, name, info);
    (if info.kind.parameter() && p == path_text(pos.path.drop_last()) && x == stub_for(
        pos.path.last(),
        port,
    ) {
        1nat
    } else {
        0nat
    }) + (if p == path_text(pos.path) && x == port {
        1nat
    } else {
        0nat
    })
}

/// How often a walk through `h` gives the scope `p` the atom `x`.
pub open spec fn given(
    pos: Position,
    name: Seq<char>,
    h: Hierarchy,
    p: Seq<char>,
    x: AtomRecord,
) -> nat
    decreases h, 0nat,
{
    match h {
        Hierarchy::Atom(info) => given_by_visit(pos, name, info, p, x),
        Hierarchy::Namespace(members) => given_by_members(
            in_namespace(pos, name),
            members,
            members.len(),
            p,
            x,
        ),
        Hierarchy::Scope(_, members) => given_by_members(
            in_scope(pos, name),
            members,
            members.len(),
            p,
            x,
        ),
    }
}

/// How often a walk through the first `n` members gives the scope `p` the
/// atom `x`.
pub open spec fn given_by_members(
    pos: Position,
    members: Seq<Member>,
    n: nat,
    p: Seq<char>,
    x: AtomRecord,
) -> nat
    decreases members, n,
{
    if n == 0 || n > members.len() {
        0
    } else {
        given_by_members(pos, members, (n - 1) as nat, p, x) + given(
            position_after_members(pos, members, (n - 1) as nat),
            members[n - 1].name,
            members[n - 1].node,
            p,
            x,
        )
    }
}

/// What each scope holds after a walk: what it held before, and what the
/// visits of the walk gave it, no more and no less.
pub proof fn law_walk_gives(
    state: Collected,
    name: Seq<char>,
    h: Hierarchy,
    p: Seq<char>,
    x: AtomRecord,
)
    requires
        state.wf(),
        h.wf(),
    ensures
        walk::<ModuleDefines>(state, name, h).wf(),
        position(walk::<ModuleDefines>(state, name, h)) == position_after(
            position(state),
            name,
            h,
        ),
        held(walk::<ModuleDefines>(state, name, h), p, x) == held(state, p, x) + given(
            position(state),
            name,
            h,
            p,
            x,
        ),
    decreases h, 0nat,
{
    match h {
        Hierarchy::Atom(info) => {
            lemma_atom_wf(state, name, info);
            lemma_atom_held(state, name, info, p, x);
        },
        Hierarchy::Namespace(members) => {
            let entered = state.start_namespace(name);
            law_walk_members_give(entered, members, members.len(), p, x);
        },
        Hierarchy::Scope(code, members) => {
            let entered = state.start_scope(name, code);
            lemma_start_scope_wf(state, name, code);
            lemma_place_held(
                state.records,
                state.scope(),
                Invocation { kind: path_text(state.path.push(name)), name },
                code,
                p,
            );
            law_walk_members_give(entered, members, members.len(), p, x);
        },
    }
}

/// What each scope holds after a walk through the first `n` members of a
/// row: as `law_walk_gives`.
pub proof fn law_walk_members_give(
    state: Collected,
    members: Seq<Member>,
    n: nat,
    p: Seq<char>,
    x: AtomRecord,
)
    requires
        state.wf(),
        n <= members.len(),
        members_wf(members, members.len()),
    ensures
        walk_members::<ModuleDefines>(state, members, n).wf(),
        position(walk_members::<ModuleDefines>(state, members, n)) == position_after_members(
            position(state),
            members,
            n,
        ),
        held(walk_members::<ModuleDefines>(state, members, n), p, x) == held(state, p, x)
            + given_by_members(position(state), members, n, p, x),
    decreases members, n,
{
    if n > 0 {
        law_walk_members_give(state, members, (n - 1) as nat, p, x);
        lemma_members(members, members.len(), n - 1);
        law_walk_gives(
            walk_members::<ModuleDefines>(state, members, (n - 1) as nat),
            members[n - 1].name,
            members[n - 1].node,
            p,
            x,
        );
    }
}

/// After the walk of a design from the root, a scope holds the stub `x`
/// exactly once where exactly one visit of the walk gives it that stub.
pub proof fn law_stub_counted(h: Hierarchy, p: Seq<char>, x: AtomRecord)
    requires
        h.wf(),
        given(position(Collected::empty()), "top"@, h, p, x) == 1,
    ensures
        held(collected(h), p, x) == 1,
{
    law_walk_gives(Collected::empty(), "top"@, h, p, x);
    assert(!holds(Collected::empty().records, p));
}

/// Whether all of `members` are atoms.
pub open spec fn all_atoms(members: Seq<Member>) -> bool {
    forall|i: int| 0 <= i < members.len() ==> (#[trigger] members[i]).node is Atom
}

/// Whether no two of `members` have the same name.
pub open spec fn distinct_names(members: Seq<Member>) -> bool {
    forall|i: int, j: int|
        0 <= i < j < members.len() ==> (#[trigger] members[i]).name != (#[trigger] members[j]).name
}

/// A path with one more name, which is not empty, is written as another text.
pub proof fn lemma_longer_path(path: Seq<Seq<char>>, name: Seq<char>)
    requires
        name.len() > 0,
    ensures
        path_text(path.push(name)) != path_text(path),
{
    reveal_strlit(".");
    let longer = path.push(name);
    assert(longer.drop_last() =~= path);
    assert(longer.last() == name);
    if path.len() == 0 {
        assert(path_text(longer) == name);
        assert(path_text(path).len() == 0);
    } else {
        assert(path_text(longer).len() == path_text(path).len() + 1 + name.len());
    }
}

/// A walk through atoms alone stays where it is.
proof fn lemma_flat_position(pos: Position, members: Seq<Member>, n: nat)
    requires
        all_atoms(members),
        n <= members.len(),
    ensures
        position_after_members(pos, members, n) == pos,
    decreases n,
{
    if n > 0 {
        lemma_flat_position(pos, members, (n - 1) as nat);
        assert(members[n - 1].node is Atom);
        let info = members[n - 1].node->Atom_0;
        assert(members[n - 1].node == Hierarchy::Atom(info));
        assert(position_after(pos, members[n - 1].name, Hierarchy::Atom(info)) == pos);
    }
}

/// Among atoms of different names in one scope, only the port itself gives
/// the scope around it the stub of that port.
proof fn lemma_flat_given(
    pos: Position,
    members: Seq<Member>,
    n: nat,
    i: int,
    info: AtomInfo,
)
    requires
        all_atoms(members),
        distinct_names(members),
        n <= members.len(),
        0 <= i < members.len(),
        members[i].node == Hierarchy::Atom(info),
        info.kind.parameter(),
        pos.namespace == Seq::<Seq<char>>::empty(),
        pos.path.len() > 0,
        path_text(pos.path) != path_text(pos.path.drop_last()),
    ensures
        given_by_members(
            pos,
            members,
            n,
            path_text(pos.path.drop_last()),
            stub_of(pos.path.last(), members[i].name, info.kind, info.width),
        ) == if i < n {
            1nat
        } else {
            0nat
        },
    decreases n,
{
    if n > 0 {
        let k = n - 1;
        let last = pos.path.last();
        let x = stub_of(last, members[i].name, info.kind, info.width);
        lemma_flat_given(pos, members, k as nat, i, info);
        lemma_flat_position(pos, members, k as nat);
        assert(members[k].node is Atom);
        let other = members[k].node->Atom_0;
        assert(members[k].node == Hierarchy::Atom(other));
        assert(join(pos.namespace, "_"@) =~= Seq::<char>::empty());
        let port = declared(pos.namespace, members[k].name, other);
        assert(port.name == members[k].name);
        let parent = path_text(pos.path.drop_last());
        assert(given(pos, members[k].name, Hierarchy::Atom(other), parent, x) == given_by_visit(
            pos,
            members[k].name,
            other,
            parent,
            x,
        ));
        if k != i {
            if stub_for(last, port) == x {
                let a = last + "_"@ + members[k].name;
                let b = last + "_"@ + members[i].name;
                assert(a == b);
                assert(members[k].name =~= a.skip((last.len() + "_"@.len()) as int));
                assert(members[i].name =~= b.skip((last.len() + "_"@.len()) as int));
                assert(false);
            }
        }
    }
}

/// In a scope that holds nothing but atoms of different names, each port has
/// exactly one stub in the scope around it: where that scope held no such
/// stub before the walk, it holds exactly one after it.
pub proof fn law_port_has_one_stub_in_parent(
    state: Collected,
    instance: Seq<char>,
    code: Fragment,
    members: Seq<Member>,
    i: int,
    info: AtomInfo,
)
    requires
        state.wf(),
        Hierarchy::Scope(code, members).wf(),
        instance.len() > 0,
        all_atoms(members),
        distinct_names(members),
        0 <= i < members.len(),
        members[i].node == Hierarchy::Atom(info),
        info.kind.parameter(),
        held(state, state.scope(), stub_of(instance, members[i].name, info.kind, info.width))
            == 0,
    ensures
        held(
            walk::<ModuleDefines>(state, instance, Hierarchy::Scope(code, members)),
            state.scope(),
            stub_of(instance, members[i].name, info.kind, info.width),
        ) == 1,
{
    let h = Hierarchy::Scope(code, members);
    let x = stub_of(instance, members[i].name, info.kind, info.width);
    let inside = in_scope(position(state), instance);
    law_walk_gives(state, instance, h, state.scope(), x);
    lemma_longer_path(state.path, instance);
    assert(inside.path.drop_last() =~= state.path);
    lemma_flat_given(inside, members, members.len(), i, info);
}

/// The named values of an atom's type are exactly the values that have a
/// name: each symbol carries the non-empty name of its value, the values
/// rise, and no value with a name is left out.
pub proof fn law_enum_symbols(info: AtomInfo, n: nat)
    ensures
        forall|k: int|
            0 <= k < enum_symbols(info, n).len() ==> {
                let symbol = #[trigger] enum_symbols(info, n)[k];
                &&& symbol.typename == info.typename
                &&& symbol.value < n
                &&& symbol.discriminant == info.name_of(symbol.value)
                &&& symbol.discriminant.len() > 0
            },
        forall|j: int, k: int|
            0 <= j < k < enum_symbols(info, n).len() ==> (#[trigger] enum_symbols(
                info,
                n,
            )[j]).value < (#[trigger] enum_symbols(info, n)[k]).value,
        forall|v: nat|
            v < n && info.name_of(v).len() > 0 ==> exists|k: int|
                0 <= k < enum_symbols(info, n).len() && (#[trigger] enum_symbols(
                    info,
                    n,
                )[k]).value == v,
    decreases n,
{
    if n > 0 {
        let m = (n - 1) as nat;
        law_enum_symbols(info, m);
        let before = enum_symbols(info, m);
        let after = enum_symbols(info, n);
        assert forall|v: nat| v < n && info.name_of(v).len() > 0 implies exists|k: int|
            0 <= k < after.len() && (#[trigger] after[k]).value == v by {
            if v < m {
                let k = choose|k: int| 0 <= k < before.len() && (#[trigger] before[k]).value == v;
                assert(after[k] == before[k]);
            } else {
                assert(after[after.len() - 1].value == v);
            }
        }
    }
}

/// Each scope path has one record: in records that are in order no path
/// occurs twice, so no two modules have the same name.
pub proof fn law_one_record_for_each_path(entries: Seq<Entry>, i: int, j: int)
    requires
        sorted(entries),
        0 <= i < entries.len(),
        0 <= j < entries.len(),
        i != j,
    ensures
        entries[i].path != entries[j].path,
{
    lemma_lex_irreflexive(entries[i].path);
    if i < j {
        assert(crate::text::lex_lt(entries[i].path, entries[j].path));
    } else {
        assert(crate::text::lex_lt(entries[j].path, entries[i].path));
    }
}

} // verus!
