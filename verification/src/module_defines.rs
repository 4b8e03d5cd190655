//! The collector: a visitor that gathers, scope by scope, what a design
//! declares, and writes the gathered records as Verilog modules.

use vstd::prelude::*;
use vstd::string::*;
use vstd::arithmetic::power2::{lemma_pow2_strictly_increases, lemma_pow2_unfold, pow2};
use crate::ast::{Fragment, Verilog};
use crate::atom::{Atom, AtomInfo, AtomKind};
use crate::block::{walk, Block, Design, Hierarchy};
use crate::code_writer::{lines_at, CodeWriter};
use crate::logic::Logic;
use crate::model::{
    add_atom, add_code, add_enum, add_submodule, declared, enum_symbols, holds, lemma_atom_wf,
    lemma_place_wf, lemma_rank_is, lemma_rank_of_member, lemma_start_scope_wf,
    lemma_store_again, lemma_store_same, mangled, rank, record_at, records_wf, sorted, store,
    stub_for, AtomRecord, Collected, Entry, EnumSymbol, Invocation, Record,
};
use crate::named_path::{path_text, NamedPath};
use crate::probe::Probe;
use crate::render::{
    blackbox_lines, body_lines, connection_text, connections, decl_text, declaration_lines,
    enum_decl_lines, enum_lines, enum_text, footer_lines, header_lines, in_section,
    instance_decl_lines, instance_lines, instance_text, kind_word, lemma_section_grows,
    module_lines, modules_lines, names, port_list, rendered, section_lines, section_title,
    selected, Section,
};
use crate::text::{decimal_string, join, lemma_lex_total, lex_lt, text_lt};
use crate::verilog_gen::verilog_combinatorial;

verus! {

/// One child scope placed in a parent.
#[derive(Debug)]
pub struct SubModuleInvocation {
    /// The scope path of the child, which names its module.
    pub kind: String,
    /// The name of the instance in the parent.
    pub name: String,
}

/// One named value of an enumerable type.
#[derive(Debug)]
pub struct EnumDefinition {
    pub typename: String,
    pub discriminant: String,
    pub value: usize,
}

/// One atom as a scope declares it.
#[derive(Debug)]
pub struct AtomDetails {
    /// The name within the scope, namespaces included.
    pub name: String,
    /// What the atom is to the scope.
    pub kind: AtomKind,
    /// The number of bits.
    pub width: usize,
    /// The text of the value; present only for constants.
    pub literal: Option<String>,
}

/// What one scope has collected.
#[derive(Debug)]
pub struct ModuleDetails {
    pub atoms: Vec<AtomDetails>,
    pub sub_modules: Vec<SubModuleInvocation>,
    pub enums: Vec<EnumDefinition>,
    pub code: Verilog,
}

impl View for SubModuleInvocation {
    type V = Invocation;

    open spec fn view(&self) -> Invocation {
        Invocation { kind: self.kind@, name: self.name@ }
    }
}

impl View for EnumDefinition {
    type V = EnumSymbol;

    open spec fn view(&self) -> EnumSymbol {
        EnumSymbol {
            typename: self.typename@,
            discriminant: self.discriminant@,
            value: self.value as nat,
        }
    }
}

impl View for AtomDetails {
    type V = AtomRecord;

    open spec fn view(&self) -> AtomRecord {
        AtomRecord {
            name: self.name@,
            kind: self.kind,
            width: self.width as nat,
            literal: match self.literal {
                Some(text) => Some(text@),
                None => None,
            },
        }
    }
}

/// The atoms as the model sees them.
pub open spec fn atoms_view(atoms: Seq<AtomDetails>) -> Seq<AtomRecord> {
    Seq::new(atoms.len(), |i: int| atoms[i]@)
}

/// The child scopes as the model sees them.
pub open spec fn invocations_view(subs: Seq<SubModuleInvocation>) -> Seq<Invocation> {
    Seq::new(subs.len(), |i: int| subs[i]@)
}

/// The named values as the model sees them.
pub open spec fn enums_view(enums: Seq<EnumDefinition>) -> Seq<EnumSymbol> {
    Seq::new(enums.len(), |i: int| enums[i]@)
}

impl View for ModuleDetails {
    type V = Record;

    open spec fn view(&self) -> Record {
        Record {
            atoms: atoms_view(self.atoms@),
            sub_modules: invocations_view(self.sub_modules@),
            enums: enums_view(self.enums@),
            code: self.code@,
        }
    }
}

impl ModuleDetails {
    /// The record of a scope to which nothing was contributed.
    pub fn new() -> (r: ModuleDetails)
        ensures
            r@ == Record::empty(),
    {
        let r = ModuleDetails {
            atoms: Vec::new(),
            sub_modules: Vec::new(),
            enums: Vec::new(),
            code: Verilog::Empty,
        };
        assert(r@.atoms =~= Seq::empty());
        assert(r@.sub_modules =~= Seq::empty());
        assert(r@.enums =~= Seq::empty());
        r
    }
}

/// The records as the model sees them.
pub open spec fn entries_view(details: Seq<(String, ModuleDetails)>) -> Seq<Entry> {
    Seq::new(details.len(), |i: int| Entry { path: details[i].0@, record: details[i].1@ })
}

/// The Verilog words that declare an atom of kind `x`.
pub fn verilog_atom_name(x: &AtomKind) -> (s: &'static str)
    ensures
        s@ == kind_word(*x),
{
    match x {
        AtomKind::InputParameter => "input",
        AtomKind::OutputParameter => "output reg",
        AtomKind::StubInputSignal => "reg",
        AtomKind::StubOutputSignal => "wire",
        AtomKind::Constant => "localparam",
        AtomKind::LocalSignal => "wire",
    }
}

/// The declaration of an atom. An atom that is no constant has at least one
/// bit.
pub fn decl(x: &AtomDetails) -> (s: String)
    requires
        x.kind == AtomKind::Constant || x.width >= 1,
    ensures
        s@ == decl_text(x@),
{
    let mut s = String::from_str(verilog_atom_name(&x.kind));
    if x.kind == AtomKind::Constant {
        s.append(" ");
        s.append(x.name.as_str());
        s.append(" = ");
        match &x.literal {
            Some(text) => {
                s.append(text.as_str());
            },
            None => {
                assert(s@ + Seq::<char>::empty() =~= s@);
            },
        }
        s.append(";");
    } else if x.width == 1 {
        s.append(" ");
        s.append(x.name.as_str());
        s.append(";");
    } else {
        s.append(" [");
        s.append(decimal_string(x.width - 1).as_str());
        s.append(":0] ");
        s.append(x.name.as_str());
        s.append(";");
    }
    s
}

/// Finds the record for `module`, opening an empty one where there is none,
/// and says where it stands.
#[verifier::rlimit(40)]
fn slot(details: &mut Vec<(String, ModuleDetails)>, module: &str) -> (i: usize)
    requires
        sorted(entries_view(old(details)@)),
    ensures
        i == rank(entries_view(old(details)@), module@),
        i < final(details).len(),
        final(details)[i as int].0@ == module@,
        final(details)[i as int].1@ == record_at(entries_view(old(details)@), module@),
        entries_view(final(details)@) == store(
            entries_view(old(details)@),
            module@,
            record_at(entries_view(old(details)@), module@),
        ),
{
    let ghost before = entries_view(details@);
    let mut i: usize = 0;
    while i < details.len() && text_lt(details[i].0.as_str(), module)
        invariant
            i <= details.len(),
            *details == *old(details),
            before == entries_view(details@),
            forall|j: int| 0 <= j < i ==> lex_lt(#[trigger] before[j].path, module@),
        decreases details.len() - i,
    {
        assert(before[i as int].path == details[i as int].0@);
        i = i + 1;
    }
    proof {
        lemma_rank_is(before, module@, i as int);
    }
    let found = i < details.len() && !text_lt(module, details[i].0.as_str());
    proof {
        if i < details.len() {
            lemma_lex_total(module@, before[i as int].path);
        }
        assert(found == holds(before, module@));
    }
    if !found {
        details.insert(i, (String::from_str(module), ModuleDetails::new()));
        assert(entries_view(details@) =~= before.insert(
            i as int,
            Entry { path: module@, record: Record::empty() },
        ));
    } else {
        assert(entries_view(details@) =~= before.update(
            i as int,
            Entry { path: module@, record: before[i as int].record },
        ));
    }
    i
}

/// Collects, scope by scope, what a design declares.
///
/// The records are kept in the order of their scope paths, each path once, so
/// that the text written from them does not depend on the order of the visits
/// to different scopes.
pub struct ModuleDefines {
    /// The scopes entered and not yet left.
    path: NamedPath,
    /// The namespaces entered and not yet left within the current scope.
    namespace: NamedPath,
    /// The records with their scope paths, in the order of the paths.
    details: Vec<(String, ModuleDetails)>,
}

impl View for ModuleDefines {
    type V = Collected;

    closed spec fn view(&self) -> Collected {
        Collected {
            path: self.path@,
            namespace: self.namespace@,
            records: entries_view(self.details@),
        }
    }
}

impl Default for ModuleDefines {
    /// A collector that has visited nothing.
    fn default() -> (d: ModuleDefines)
        ensures
            d@ == Collected::empty(),
            d@.wf(),
    {
        let d = ModuleDefines {
            path: NamedPath::new(),
            namespace: NamedPath::new(),
            details: Vec::new(),
        };
        assert(entries_view(d.details@) =~= Seq::empty());
        d
    }
}

impl ModuleDefines {
    /// Adds an atom to the record of the scope `module`.
    fn add_atom(&mut self, module: &str, atom: AtomDetails)
        requires
            sorted(old(self)@.records),
        ensures
            final(self)@ == (Collected {
                records: add_atom(old(self)@.records, module@, atom@),
                ..old(self)@
            }),
    {
        let ghost before = self@.records;
        let ghost first = record_at(before, module@);
        let i = slot(&mut self.details, module);
        self.details[i].1.atoms.push(atom);
        proof {
            assert(self.details[i as int].1@.atoms =~= first.atoms.push(atom@));
            assert(entries_view(self.details@) =~= store(before, module@, first).update(
                i as int,
                Entry { path: module@, record: first.with_atom(atom@) },
            ));
            lemma_store_again(before, module@, first, first.with_atom(atom@));
        }
    }

    /// Places the child scope `kind` as the instance `name` in the record of
    /// the scope `module`.
    fn add_submodule(&mut self, module: &str, name: &str, kind: &str)
        requires
            sorted(old(self)@.records),
        ensures
            final(self)@ == (Collected {
                records: add_submodule(
                    old(self)@.records,
                    module@,
                    Invocation { kind: kind@, name: name@ },
                ),
                ..old(self)@
            }),
    {
        let ghost before = self@.records;
        let ghost first = record_at(before, module@);
        let ghost sub = Invocation { kind: kind@, name: name@ };
        let i = slot(&mut self.details, module);
        self.details[i].1.sub_modules.push(
            SubModuleInvocation { kind: String::from_str(kind), name: String::from_str(name) },
        );
        proof {
            assert(self.details[i as int].1@.sub_modules =~= first.sub_modules.push(sub));
            assert(entries_view(self.details@) =~= store(before, module@, first).update(
                i as int,
                Entry { path: module@, record: first.with_submodule(sub) },
            ));
            lemma_store_again(before, module@, first, first.with_submodule(sub));
        }
    }

    /// Adds the named values of the type of `signal` to the record of the
    /// scope `module`: one for each value that has a name, in rising order.
    #[verifier::rlimit(40)]
    fn add_enum<A: Atom>(&mut self, module: &str, signal: &A)
        requires
            sorted(old(self)@.records),
            pow2(signal.info().width) <= usize::MAX,
        ensures
            final(self)@ == (Collected {
                records: add_enum(
                    old(self)@.records,
                    module@,
                    enum_symbols(signal.info(), pow2(signal.info().width)),
                ),
                ..old(self)@
            }),
    {
        let ghost before = self@.records;
        let ghost first = record_at(before, module@);
        let ghost info = signal.info();
        let i = slot(&mut self.details, module);
        let bits = signal.bits();
        // the number of values of the atom's type
        let mut count: usize = 1;
        let mut b: usize = 0;
        proof {
            vstd::arithmetic::power2::lemma2_to64();
        }
        while b < bits
            invariant
                b <= bits,
                bits == info.width,
                count == pow2(b as nat),
                pow2(info.width) <= usize::MAX,
            decreases bits - b,
        {
            proof {
                lemma_pow2_unfold((b + 1) as nat);
                if b + 1 < bits {
                    lemma_pow2_strictly_increases((b + 1) as nat, bits as nat);
                }
            }
            count = count * 2;
            b = b + 1;
        }
        let enum_name = signal.typename();
        let mut x: usize = 0;
        while x < count
            invariant
                x <= count,
                i < self.details.len(),
                info == signal.info(),
                enum_name@ == info.typename,
                self.path == old(self).path,
                self.namespace == old(self).namespace,
                entries_view(self.details@) == store(
                    before,
                    module@,
                    first.with_enums(enum_symbols(info, x as nat)),
                ),
                self.details[i as int].0@ == module@,
                self.details[i as int].1@ == first.with_enums(enum_symbols(info, x as nat)),
                i == rank(before, module@),
                sorted(before),
            decreases count - x,
        {
            let discriminant = signal.name(x);
            if discriminant.unicode_len() != 0 {
                let ghost symbol = EnumSymbol {
                    typename: info.typename,
                    discriminant: discriminant@,
                    value: x as nat,
                };
                let ghost held = first.with_enums(enum_symbols(info, x as nat));
                let ghost prev = self.details[i as int].1.enums@;
                self.details[i].1.enums.push(
                    EnumDefinition {
                        typename: String::from_str(enum_name),
                        discriminant: String::from_str(discriminant),
                        value: x,
                    },
                );
                proof {
                    let next = first.with_enums(enum_symbols(info, (x + 1) as nat));
                    assert(enum_symbols(info, (x + 1) as nat) == enum_symbols(info, x as nat).push(
                        symbol,
                    ));
                    assert(self.details[i as int].1.enums@ == prev.push(
                        self.details[i as int].1.enums@.last(),
                    ));
                    assert(self.details[i as int].1.enums@.last()@ == symbol);
                    assert(enums_view(self.details[i as int].1.enums@) =~= enums_view(prev).push(
                        symbol,
                    ));
                    assert(next.enums =~= held.enums.push(symbol));
                    assert(self.details[i as int].1@.enums =~= next.enums);
                    assert(self.details[i as int].1@ == next);
                    assert(entries_view(self.details@) =~= store(before, module@, held).update(
                        i as int,
                        Entry { path: module@, record: next },
                    ));
                    lemma_store_again(before, module@, held, next);
                }
            }
            x = x + 1;
        }
    }

    /// Makes `code` the behaviour in the record of the scope `module`.
    fn add_code(&mut self, module: &str, code: Verilog)
        requires
            sorted(old(self)@.records),
        ensures
            final(self)@ == (Collected {
                records: add_code(old(self)@.records, module@, code@),
                ..old(self)@
            }),
    {
        let ghost before = self@.records;
        let ghost first = record_at(before, module@);
        let i = slot(&mut self.details, module);
        self.details[i].1.code = code;
        proof {
            assert(entries_view(self.details@) =~= store(before, module@, first).update(
                i as int,
                Entry { path: module@, record: first.with_code(code@) },
            ));
            lemma_store_again(before, module@, first, first.with_code(code@));
        }
    }
}

impl Probe for ModuleDefines {
    open spec fn valid(state: Collected) -> bool {
        state.wf()
    }

    open spec fn depth(state: Collected) -> nat {
        state.path.len()
    }

    open spec fn start_scope(state: Collected, name: Seq<char>, code: Fragment) -> Collected {
        state.start_scope(name, code)
    }

    open spec fn start_namespace(state: Collected, name: Seq<char>) -> Collected {
        state.start_namespace(name)
    }

    open spec fn atom(state: Collected, name: Seq<char>, info: AtomInfo) -> Collected {
        state.atom(name, info)
    }

    open spec fn end_namespace(state: Collected, name: Seq<char>) -> Collected {
        state.end_namespace()
    }

    open spec fn end_scope(state: Collected, name: Seq<char>) -> Collected {
        state.end_scope()
    }

    fn visit_start_scope<L: Logic>(&mut self, name: &str, node: &L) {
        proof {
            lemma_start_scope_wf(self@, name@, node.fragment());
            lemma_place_wf(
                self@.records,
                self@.scope(),
                Invocation { kind: path_text(self@.path.push(name@)), name: name@ },
                node.fragment(),
            );
        }
        let top_level = self.path.to_string();
        self.path.push(name);
        self.namespace.reset();
        let here = self.path.to_string();
        self.add_submodule(top_level.as_str(), name, here.as_str());
        self.add_code(here.as_str(), node.hdl());
    }

    fn visit_start_namespace(&mut self, name: &str) {
        self.namespace.push(name);
    }

    #[verifier::rlimit(40)]
    fn visit_atom<A: Atom>(&mut self, name: &str, signal: &A) {
        let ghost info = signal.info();
        let ghost start = self@;
        proof {
            lemma_atom_wf(start, name@, info);
        }
        let scope_path = self.path.to_string();
        let module_name = self.path.last();
        let namespace = self.namespace.flat("_");
        let mut full = String::new();
        if namespace.as_str().unicode_len() != 0 {
            full.append(namespace.as_str());
            full.append("_");
        }
        full.append(name);
        assert(full@ =~= mangled(start.namespace, name@));
        let kind = signal.kind();
        let width = signal.bits();
        let literal = if kind == AtomKind::Constant {
            Some(signal.verilog().to_string())
        } else {
            None
        };
        let param = AtomDetails { name: full, kind, width, literal };
        assert(param@ == declared(start.namespace, name@, info));
        if kind.is_parameter() {
            let stub = if kind == AtomKind::InputParameter {
                AtomKind::StubInputSignal
            } else {
                AtomKind::StubOutputSignal
            };
            let mut stub_name = module_name;
            stub_name.append("_");
            stub_name.append(param.name.as_str());
            let parent_param = AtomDetails { name: stub_name, kind: stub, width, literal: None };
            assert(parent_param@ == stub_for(start.path.last(), param@));
            let parent_name = self.path.parent();
            self.add_atom(parent_name.as_str(), parent_param);
            proof {
                lemma_store_same(
                    start.records,
                    start.parent_scope(),
                    record_at(start.records, start.parent_scope()).with_atom(parent_param@),
                );
            }
        }
        if signal.is_enum() {
            let ghost held = self@.records;
            self.add_enum(scope_path.as_str(), signal);
            proof {
                lemma_store_same(
                    held,
                    start.scope(),
                    record_at(held, start.scope()).with_enums(
                        enum_symbols(info, pow2(info.width)),
                    ),
                );
            }
        }
        self.add_atom(scope_path.as_str(), param);
    }

    fn visit_end_namespace(&mut self, name: &str) {
        self.namespace.pop();
    }

    fn visit_end_scope<L: Logic>(&mut self, name: &str, node: &L) {
        self.path.pop();
    }
}

/// Whether atoms of kind `kind` are declared in `section`.
fn belongs(kind: AtomKind, section: Section) -> (r: bool)
    ensures
        r == in_section(kind, section),
{
    match section {
        Section::Arguments => kind.is_parameter(),
        Section::Constants => kind == AtomKind::Constant,
        Section::Stubs => kind.is_stub(),
        Section::Locals => kind == AtomKind::LocalSignal,
    }
}

/// The line that opens `section`.
fn title(section: Section) -> (s: &'static str)
    ensures
        s@ == section_title(section),
{
    match section {
        Section::Arguments => "\n// Module arguments",
        Section::Constants => "\n// Constant declarations",
        Section::Stubs => "\n// Stub signals",
        Section::Locals => "\n// Local signals",
    }
}

/// Writes one section of declarations.
fn emit_section(io: &mut CodeWriter, atoms: &Vec<AtomDetails>, section: Section)
    requires
        old(io).wf(),
        old(io)@.depth == 1,
        forall|j: int| 0 <= j < atoms.len() ==> (#[trigger] atoms[j]).width >= 1,
    ensures
        final(io).wf(),
        final(io)@.depth == 1,
        final(io)@.lines == old(io)@.lines + section_lines(
            atoms_view(atoms@),
            atoms.len() as nat,
            section,
        ),
{
    let ghost all = atoms_view(atoms@);
    let mut seen = false;
    let mut i: usize = 0;
    assert(io@.lines =~= old(io)@.lines + section_lines(all, 0, section));
    while i < atoms.len()
        invariant
            i <= atoms.len(),
            io.wf(),
            io@.depth == 1,
            all == atoms_view(atoms@),
            seen == (selected(all, i as nat, section).len() > 0),
            io@.lines == old(io)@.lines + section_lines(all, i as nat, section),
            forall|j: int| 0 <= j < atoms.len() ==> (#[trigger] atoms[j]).width >= 1,
        decreases atoms.len() - i,
    {
        proof {
            lemma_section_grows(all, i as nat, section);
            assert(all[i as int] == atoms[i as int]@);
        }
        let ghost before = io@.lines;
        if belongs(atoms[i].kind, section) {
            if !seen {
                io.add(title(section));
                seen = true;
            }
            io.add(decl(&atoms[i]).as_str());
            assert(io@.lines =~= old(io)@.lines + section_lines(all, (i + 1) as nat, section));
        }
        i = i + 1;
    }
}

/// The names of the ports, with commas between them.
fn port_names(atoms: &Vec<AtomDetails>) -> (s: String)
    ensures
        s@ == port_list(atoms_view(atoms@)),
{
    let ghost all = atoms_view(atoms@);
    let mut out = String::new();
    let mut first = true;
    let mut i: usize = 0;
    while i < atoms.len()
        invariant
            i <= atoms.len(),
            all == atoms_view(atoms@),
            first == (selected(all, i as nat, Section::Arguments).len() == 0),
            out@ == join(names(selected(all, i as nat, Section::Arguments)), ","@),
        decreases atoms.len() - i,
    {
        if atoms[i].kind.is_parameter() {
            proof {
                let before = selected(all, i as nat, Section::Arguments);
                let after = selected(all, (i + 1) as nat, Section::Arguments);
                assert(all[i as int] == atoms[i as int]@);
                assert(after == before.push(all[i as int]));
                assert(names(after).drop_last() =~= names(before));
                assert(names(after).last() == atoms[i as int].name@);
                if first {
                    assert(out@ + atoms[i as int].name@ =~= atoms[i as int].name@);
                }
            }
            if !first {
                out.append(",");
            }
            out.append(atoms[i].name.as_str());
            first = false;
        }
        i = i + 1;
    }
    out
}

/// Writes the section of the named values.
fn emit_enums(io: &mut CodeWriter, enums: &Vec<EnumDefinition>)
    requires
        old(io).wf(),
        old(io)@.depth == 1,
    ensures
        final(io).wf(),
        final(io)@.depth == 1,
        final(io)@.lines == old(io)@.lines + enum_lines(enums_view(enums@)),
{
    let ghost all = enums_view(enums@);
    if enums.len() == 0 {
        assert(io@.lines =~= old(io)@.lines + enum_lines(all));
        return ;
    }
    io.add("\n// Enums");
    let mut i: usize = 0;
    assert(io@.lines =~= old(io)@.lines + lines_at(1, "\n// Enums"@) + enum_decl_lines(all, 0));
    while i < enums.len()
        invariant
            i <= enums.len(),
            io.wf(),
            io@.depth == 1,
            all == enums_view(enums@),
            io@.lines == old(io)@.lines + lines_at(1, "\n// Enums"@) + enum_decl_lines(
                all,
                i as nat,
            ),
        decreases enums.len() - i,
    {
        let x = &enums[i];
        let mut line = String::from_str("localparam ");
        line.append(x.typename.as_str());
        line.append("_");
        line.append(x.discriminant.as_str());
        line.append(" = ");
        line.append(decimal_string(x.value).as_str());
        assert(all[i as int] == enums[i as int]@);
        assert(line@ == enum_text(all[i as int]));
        io.add(line.as_str());
        assert(io@.lines =~= old(io)@.lines + lines_at(1, "\n// Enums"@) + enum_decl_lines(
            all,
            (i + 1) as nat,
        ));
        i = i + 1;
    }
    assert(io@.lines =~= old(io)@.lines + enum_lines(all));
}

/// Where the record for `module` stands, if there is one.
fn find(details: &Vec<(String, ModuleDetails)>, module: &str) -> (r: Option<usize>)
    ensures
        match r {
            Some(i) => holds(entries_view(details@), module@) && i == rank(
                entries_view(details@),
                module@,
            ),
            None => !holds(entries_view(details@), module@),
        },
{
    let ghost all = entries_view(details@);
    let mut i: usize = 0;
    while i < details.len() && text_lt(details[i].0.as_str(), module)
        invariant
            i <= details.len(),
            all == entries_view(details@),
            forall|j: int| 0 <= j < i ==> lex_lt(#[trigger] all[j].path, module@),
        decreases details.len() - i,
    {
        assert(all[i as int].path == details[i as int].0@);
        i = i + 1;
    }
    proof {
        lemma_rank_is(all, module@, i as int);
        if i < details.len() {
            lemma_lex_total(module@, all[i as int].path);
        }
    }
    if i < details.len() && !text_lt(module, details[i].0.as_str()) {
        Some(i)
    } else {
        None
    }
}

/// The ports of a child, each wired to its stub, with commas between them.
fn wiring(instance: &str, atoms: &Vec<AtomDetails>) -> (s: String)
    ensures
        s@ == join(
            connections(
                instance@,
                selected(atoms_view(atoms@), atoms.len() as nat, Section::Arguments),
            ),
            ","@,
        ),
{
    let ghost all = atoms_view(atoms@);
    let mut out = String::new();
    let mut first = true;
    let mut i: usize = 0;
    while i < atoms.len()
        invariant
            i <= atoms.len(),
            all == atoms_view(atoms@),
            first == (selected(all, i as nat, Section::Arguments).len() == 0),
            out@ == join(
                connections(instance@, selected(all, i as nat, Section::Arguments)),
                ","@,
            ),
        decreases atoms.len() - i,
    {
        if atoms[i].kind.is_parameter() {
            proof {
                let before = selected(all, i as nat, Section::Arguments);
                let after = selected(all, (i + 1) as nat, Section::Arguments);
                assert(all[i as int] == atoms[i as int]@);
                assert(after == before.push(all[i as int]));
                assert(connections(instance@, after).drop_last() =~= connections(
                    instance@,
                    before,
                ));
                assert(connections(instance@, after).last() == connection_text(
                    instance@,
                    atoms[i as int].name@,
                ));
            }
            let mut piece = String::from_str(".");
            piece.append(atoms[i].name.as_str());
            piece.append("(");
            piece.append(instance);
            piece.append("_");
            piece.append(atoms[i].name.as_str());
            piece.append(")");
            proof {
                if first {
                    assert(out@ + piece@ =~= piece@);
                }
            }
            if !first {
                out.append(",");
            }
            out.append(piece.as_str());
            first = false;
        }
        i = i + 1;
    }
    out
}

/// Writes the section of the child scopes.
#[verifier::rlimit(40)]
fn emit_instances(
    io: &mut CodeWriter,
    details: &Vec<(String, ModuleDetails)>,
    submodules: &Vec<SubModuleInvocation>,
)
    requires
        old(io).wf(),
        old(io)@.depth == 1,
        forall|j: int|
            0 <= j < submodules.len() ==> holds(
                entries_view(details@),
                (#[trigger] submodules[j]).kind@,
            ),
    ensures
        final(io).wf(),
        final(io)@.depth == 1,
        final(io)@.lines == old(io)@.lines + instance_lines(
            entries_view(details@),
            invocations_view(submodules@),
        ),
{
    let ghost all = entries_view(details@);
    let ghost subs = invocations_view(submodules@);
    if submodules.len() == 0 {
        assert(io@.lines =~= old(io)@.lines + instance_lines(all, subs));
        return ;
    }
    io.add("\n// Sub module instances");
    let ghost opening = lines_at(1, "\n// Sub module instances"@);
    let mut i: usize = 0;
    assert(io@.lines =~= old(io)@.lines + opening + instance_decl_lines(all, subs, 0));
    while i < submodules.len()
        invariant
            i <= submodules.len(),
            io.wf(),
            io@.depth == 1,
            all == entries_view(details@),
            subs == invocations_view(submodules@),
            opening == lines_at(1, "\n// Sub module instances"@),
            io@.lines == old(io)@.lines + opening + instance_decl_lines(all, subs, i as nat),
            forall|j: int|
                0 <= j < submodules.len() ==> holds(all, (#[trigger] submodules[j]).kind@),
        decreases submodules.len() - i,
    {
        let child = &submodules[i];
        assert(subs[i as int] == child@);
        assert(holds(all, child.kind@));
        match find(details, child.kind.as_str()) {
            Some(at) => {
                let entry = &details[at].1;
                assert(all[at as int].record == entry@);
                let boxed = match &entry.code {
                    Verilog::Blackbox(_) => true,
                    _ => false,
                };
                if !boxed {
                    let mut line = child.kind.clone();
                    line.append(" ");
                    line.append(child.name.as_str());
                    line.append("(");
                    line.append(wiring(child.name.as_str(), &entry.atoms).as_str());
                    line.append(");");
                    assert(line@ == instance_text(child@, entry@));
                    io.add(line.as_str());
                }
                assert(io@.lines =~= old(io)@.lines + opening + instance_decl_lines(
                    all,
                    subs,
                    (i + 1) as nat,
                ));
            },
            None => {
                assert(false);
            },
        }
        i = i + 1;
    }
    assert(io@.lines =~= old(io)@.lines + instance_lines(all, subs));
}

/// Writes the behaviour of a module.
fn emit_body(io: &mut CodeWriter, code: &Verilog)
    requires
        old(io).wf(),
        old(io)@.depth == 1,
    ensures
        final(io).wf(),
        final(io)@.depth == 1,
        final(io)@.lines == old(io)@.lines + body_lines(code@),
{
    match code {
        Verilog::Combinatorial(block) => {
            io.add("\n// Update code");
            io.add(verilog_combinatorial(block).as_str());
            assert(io@.lines =~= old(io)@.lines + body_lines(code@));
        },
        Verilog::Custom(text) => {
            io.add("\n// Update code (custom)");
            io.add(text.as_str());
            assert(io@.lines =~= old(io)@.lines + body_lines(code@));
        },
        Verilog::Blackbox(_) => {
            assert(io@.lines =~= old(io)@.lines + body_lines(code@));
        },
        Verilog::Empty => {
            assert(io@.lines =~= old(io)@.lines + body_lines(code@));
        },
    }
}

/// In sound records every atom of every record has at least one bit, and
/// every child scope named has a record.
proof fn lemma_member_sound(details: Seq<(String, ModuleDetails)>, at: int)
    requires
        records_wf(entries_view(details)),
        0 <= at < details.len(),
    ensures
        forall|j: int| 0 <= j < details[at].1.atoms.len() ==> (#[trigger] details[at].1.atoms[j]).width >= 1,
        forall|j: int|
            0 <= j < details[at].1.sub_modules.len() ==> holds(
                entries_view(details),
                (#[trigger] details[at].1.sub_modules[j]).kind@,
            ),
{
    let all = entries_view(details);
    let record = details[at].1;
    lemma_rank_of_member(all, at);
    assert(record_at(all, all[at].path) == record@);
    assert forall|j: int| 0 <= j < record.atoms.len() implies (#[trigger] record.atoms[j]).width
        >= 1 by {
        assert(record@.atoms[j] == record.atoms[j]@);
        assert(record_at(all, all[at].path).atoms[j].width >= 1);
    }
    assert forall|j: int| 0 <= j < record.sub_modules.len() implies holds(
        all,
        (#[trigger] record.sub_modules[j]).kind@,
    ) by {
        assert(record@.sub_modules[j] == record.sub_modules[j]@);
        assert(holds(all, record_at(all, all[at].path).sub_modules[j].kind));
    }
}

/// Writes the declarations of a module.
fn emit_declarations(io: &mut CodeWriter, record: &ModuleDetails)
    requires
        old(io).wf(),
        old(io)@.depth == 1,
        forall|j: int| 0 <= j < record.atoms.len() ==> (#[trigger] record.atoms[j]).width >= 1,
    ensures
        final(io).wf(),
        final(io)@.depth == 1,
        final(io)@.lines == old(io)@.lines + declaration_lines(record@),
{
    emit_section(io, &record.atoms, Section::Arguments);
    emit_section(io, &record.atoms, Section::Constants);
    emit_enums(io, &record.enums);
    emit_section(io, &record.atoms, Section::Stubs);
    emit_section(io, &record.atoms, Section::Locals);
    assert(io@.lines =~= old(io)@.lines + declaration_lines(record@));
}

/// Writes one module.
#[verifier::rlimit(40)]
fn emit_module(io: &mut CodeWriter, details: &Vec<(String, ModuleDetails)>, at: usize)
    requires
        old(io).wf(),
        old(io)@.depth == 0,
        at < details.len(),
        forall|j: int|
            0 <= j < details[at as int].1.atoms.len() ==> (
            #[trigger] details[at as int].1.atoms[j]).width >= 1,
        forall|j: int|
            0 <= j < details[at as int].1.sub_modules.len() ==> holds(
                entries_view(details@),
                (#[trigger] details[at as int].1.sub_modules[j]).kind@,
            ),
    ensures
        final(io).wf(),
        final(io)@.depth == 0,
        final(io)@.lines == old(io)@.lines + module_lines(
            entries_view(details@),
            entries_view(details@)[at as int],
        ),
{
    let ghost all = entries_view(details@);
    let ghost entry = all[at as int];
    let name = &details[at].0;
    let record = &details[at].1;
    assert(entry.path == name@ && entry.record == record@);
    let mut header = String::from_str("\n\nmodule ");
    header.append(name.as_str());
    header.append("(");
    header.append(port_names(&record.atoms).as_str());
    header.append(");");
    io.add(header.as_str());
    io.push();
    let ghost opened = io@.lines;
    assert(opened == old(io)@.lines + header_lines(entry.path, entry.record));
    emit_declarations(io, record);
    let ghost declared = io@.lines;
    emit_instances(io, details, &record.sub_modules);
    let ghost placed = io@.lines;
    emit_body(io, &record.code);
    let ghost filled = io@.lines;
    io.pop();
    let mut footer = String::from_str("endmodule // ");
    footer.append(name.as_str());
    io.add(footer.as_str());
    assert(io@.lines == filled + footer_lines(entry.path));
    assert(io@.lines =~= old(io)@.lines + module_lines(all, entry));
}

impl ModuleDefines {
    /// What was collected for the scope `module`, if anything.
    pub fn details(&self, module: &str) -> (r: Option<&ModuleDetails>)
        ensures
            match r {
                Some(d) => holds(self@.records, module@) && d@ == record_at(
                    self@.records,
                    module@,
                ),
                None => !holds(self@.records, module@),
            },
    {
        match find(&self.details, module) {
            Some(at) => Some(&self.details[at].1),
            None => None,
        }
    }

    /// The Verilog text of everything collected: one module for each scope
    /// that has a path and is no black box, in the order of the paths; then
    /// the text of each black box, in the order of the paths.
    ///
    /// A collector that was led through a design is sound: each child scope
    /// placed in a record has a record of its own, so no lookup of a child can
    /// fail.
    pub fn defines(&self) -> (text: String)
        requires
            self@.wf(),
        ensures
            text@ == rendered(self@.records),
    {
        let ghost all = entries_view(self.details@);
        let mut io = CodeWriter::new();
        let mut i: usize = 0;
        assert(io@.lines =~= modules_lines(all, 0));
        while i < self.details.len()
            invariant
                i <= self.details.len(),
                io.wf(),
                io@.depth == 0,
                all == entries_view(self.details@),
                records_wf(all),
                io@.lines == modules_lines(all, i as nat),
            decreases self.details.len() - i,
        {
            let boxed = match &self.details[i].1.code {
                Verilog::Blackbox(_) => true,
                _ => false,
            };
            assert(all[i as int].path == self.details[i as int].0@);
            assert(all[i as int].record == self.details[i as int].1@);
            if self.details[i].0.as_str().unicode_len() != 0 && !boxed {
                proof {
                    lemma_member_sound(self.details@, i as int);
                }
                emit_module(&mut io, &self.details, i);
            }
            i = i + 1;
        }
        let ghost modules = io@.lines;
        let mut k: usize = 0;
        assert(io@.lines =~= modules + blackbox_lines(all, 0));
        while k < self.details.len()
            invariant
                k <= self.details.len(),
                io.wf(),
                io@.depth == 0,
                all == entries_view(self.details@),
                io@.lines == modules + blackbox_lines(all, k as nat),
            decreases self.details.len() - k,
        {
            assert(all[k as int].record == self.details[k as int].1@);
            match &self.details[k].1.code {
                Verilog::Blackbox(b) => {
                    io.add(b.as_str());
                },
                _ => {},
            }
            assert(io@.lines =~= modules + blackbox_lines(all, (k + 1) as nat));
            k = k + 1;
        }
        io.to_string()
    }
}

/// What a collector holds after it was led through `h` from the root, which
/// it enters under the name `top`.
pub open spec fn collected(h: Hierarchy) -> Collected {
    walk::<ModuleDefines>(Collected::empty(), "top"@, h)
}

/// The Verilog text of the design `uut`: the design is walked once from its
/// root, under the name `top`, and what was collected is written out.
pub fn generate_verilog<U: Block>(uut: &U) -> (text: String)
    requires
        uut.hierarchy().wf(),
        uut.hierarchy().scoped(),
    ensures
        text@ == rendered(collected(uut.hierarchy()).records),
{
    let mut defines = ModuleDefines::default();
    uut.accept("top", &mut defines);
    defines.defines()
}

/// Why a design cannot be written as Verilog.
#[derive(Clone, Copy, Debug, PartialEq, Eq, Structural)]
pub enum DesignError {
    /// An atom of the design has no bits, or its type has more values than
    /// can be counted.
    InvalidAtom,
    /// An atom of the design lies outside any scope.
    AtomOutsideScope,
}

/// The Verilog text of `design`, or why there is none: a design with an
/// invalid atom, or with an atom outside any scope, gives no text at all.
pub fn compile(design: &Design) -> (r: Result<String, DesignError>)
    ensures
        match r {
            Ok(text) => design@.wf() && design@.scoped() && text@ == rendered(
                collected(design@).records,
            ),
            Err(DesignError::InvalidAtom) => !design@.wf(),
            Err(DesignError::AtomOutsideScope) => design@.wf() && !design@.scoped(),
        },
{
    if !design.well_formed() {
        Err(DesignError::InvalidAtom)
    } else if !design.scoped() {
        Err(DesignError::AtomOutsideScope)
    } else {
        Ok(generate_verilog(design))
    }
}

} // verus!
