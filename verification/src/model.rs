//! The mathematical model of what a traversal collects: one record for each
//! scope path, kept in the order of the paths.

use vstd::prelude::*;
use vstd::arithmetic::power2::pow2;
use crate::ast::Fragment;
use crate::atom::{AtomInfo, AtomKind};
use crate::named_path::path_text;
use crate::text::join;
use crate::text::{lemma_lex_asymmetric, lemma_lex_irreflexive, lemma_lex_total, lemma_lex_transitive, lex_lt};

verus! {

/// One atom as a scope declares it.
pub struct AtomRecord {
    /// The name within the scope, namespaces included.
    pub name: Seq<char>,
    /// What the atom is to the scope.
    pub kind: AtomKind,
    /// The number of bits.
    pub width: nat,
    /// The text of the value; present only for constants.
    pub literal: Option<Seq<char>>,
}

/// One child scope placed in a parent.
pub struct Invocation {
    /// The scope path of the child, which names its module.
    pub kind: Seq<char>,
    /// The name of the instance in the parent.
    pub name: Seq<char>,
}

/// One named value of an enumerable type.
pub struct EnumSymbol {
    pub typename: Seq<char>,
    pub discriminant: Seq<char>,
    pub value: nat,
}

/// What one scope has collected.
pub struct Record {
    /// The atoms, in the order in which they were visited.
    pub atoms: Seq<AtomRecord>,
    /// The child scopes, in the order in which they were entered.
    pub sub_modules: Seq<Invocation>,
    /// The named values of the scope's enumerable atoms.
    pub enums: Seq<EnumSymbol>,
    /// The behaviour of the scope.
    pub code: Fragment,
}

impl Record {
    /// The record of a scope to which nothing was contributed.
    pub open spec fn empty() -> Record {
        Record {
            atoms: Seq::empty(),
            sub_modules: Seq::empty(),
            enums: Seq::empty(),
            code: Fragment::Empty,
        }
    }

    /// The record with one more atom.
    pub open spec fn with_atom(self, atom: AtomRecord) -> Record {
        Record { atoms: self.atoms.push(atom), ..self }
    }

    /// The record with one more child scope.
    pub open spec fn with_submodule(self, sub: Invocation) -> Record {
        Record { sub_modules: self.sub_modules.push(sub), ..self }
    }

    /// The record with more named values.
    pub open spec fn with_enums(self, symbols: Seq<EnumSymbol>) -> Record {
        Record { enums: self.enums + symbols, ..self }
    }

    /// The record with its behaviour replaced.
    pub open spec fn with_code(self, code: Fragment) -> Record {
        Record { code, ..self }
    }
}

/// A scope path with its record.
pub struct Entry {
    pub path: Seq<char>,
    pub record: Record,
}

/// The number of leading entries whose path comes before `path`: where
/// `path` stands, or would stand, among entries kept in order.
pub open spec fn rank(entries: Seq<Entry>, path: Seq<char>) -> nat
    decreases entries.len(),
{
    if entries.len() == 0 || !lex_lt(entries[0].path, path) {
        0
    } else {
        1 + rank(entries.drop_first(), path)
    }
}

/// The paths come in strictly rising order, so none occurs twice.
pub open spec fn sorted(entries: Seq<Entry>) -> bool {
    forall|i: int, j: int|
        0 <= i < j < entries.len() ==> lex_lt(#[trigger] entries[i].path, #[trigger] entries[j].path)
}

/// Whether there is a record for `path`.
pub open spec fn holds(entries: Seq<Entry>, path: Seq<char>) -> bool {
    rank(entries, path) < entries.len() && entries[rank(entries, path) as int].path == path
}

/// The record for `path`; the empty record where there is none yet.
pub open spec fn record_at(entries: Seq<Entry>, path: Seq<char>) -> Record {
    if holds(entries, path) {
        entries[rank(entries, path) as int].record
    } else {
        Record::empty()
    }
}

/// The entries with `record` as the record for `path`, in its place in the
/// order.
pub open spec fn store(entries: Seq<Entry>, path: Seq<char>, record: Record) -> Seq<Entry> {
    if holds(entries, path) {
        entries.update(rank(entries, path) as int, Entry { path, record })
    } else {
        entries.insert(rank(entries, path) as int, Entry { path, record })
    }
}

/// `rank` is the one position that parts the entries before `path` from the
/// rest.
pub proof fn lemma_rank_is(entries: Seq<Entry>, path: Seq<char>, k: int)
    requires
        0 <= k <= entries.len(),
        forall|j: int| 0 <= j < k ==> lex_lt(#[trigger] entries[j].path, path),
        k < entries.len() ==> !lex_lt(entries[k].path, path),
    ensures
        rank(entries, path) == k,
    decreases entries.len(),
{
    if entries.len() == 0 || !lex_lt(entries[0].path, path) {
        if k > 0 {
            assert(lex_lt(entries[0].path, path));
        }
    } else {
        let rest = entries.drop_first();
        assert(k > 0);
        assert forall|j: int| 0 <= j < k - 1 implies lex_lt(#[trigger] rest[j].path, path) by {
            assert(rest[j] == entries[j + 1]);
        }
        lemma_rank_is(rest, path, k - 1);
    }
}

/// What `rank` says of the entries around it.
pub proof fn lemma_rank(entries: Seq<Entry>, path: Seq<char>)
    ensures
        rank(entries, path) <= entries.len(),
        forall|j: int| 0 <= j < rank(entries, path) ==> lex_lt(#[trigger] entries[j].path, path),
        rank(entries, path) < entries.len() ==> !lex_lt(
            entries[rank(entries, path) as int].path,
            path,
        ),
    decreases entries.len(),
{
    if entries.len() == 0 || !lex_lt(entries[0].path, path) {
    } else {
        let rest = entries.drop_first();
        lemma_rank(rest, path);
        assert forall|j: int| 0 <= j < rank(entries, path) implies lex_lt(
            #[trigger] entries[j].path,
            path,
        ) by {
            if j > 0 {
                assert(entries[j] == rest[j - 1]);
            }
        }
        if rank(entries, path) < entries.len() {
            assert(entries[rank(entries, path) as int] == rest[rank(rest, path) as int]);
        }
    }
}

/// Among entries in order, each stands at the rank of its own path.
pub proof fn lemma_rank_of_member(entries: Seq<Entry>, i: int)
    requires
        sorted(entries),
        0 <= i < entries.len(),
    ensures
        rank(entries, entries[i].path) == i,
        holds(entries, entries[i].path),
        record_at(entries, entries[i].path) == entries[i].record,
{
    lemma_lex_irreflexive(entries[i].path);
    lemma_rank_is(entries, entries[i].path, i);
}

/// Storing a record keeps the order, and the record is then found under its
/// path.
pub proof fn lemma_store_same(entries: Seq<Entry>, path: Seq<char>, record: Record)
    requires
        sorted(entries),
    ensures
        sorted(store(entries, path, record)),
        holds(store(entries, path, record), path),
        record_at(store(entries, path, record), path) == record,
        rank(store(entries, path, record), path) == rank(entries, path),
{
    let k = rank(entries, path) as int;
    let after = store(entries, path, record);
    lemma_rank(entries, path);
    if holds(entries, path) {
        assert forall|i: int, j: int| 0 <= i < j < after.len() implies lex_lt(
            #[trigger] after[i].path,
            #[trigger] after[j].path,
        ) by {
            assert(after[i].path == entries[i].path);
            assert(after[j].path == entries[j].path);
        }
    } else {
        assert forall|i: int, j: int| 0 <= i < j < after.len() implies lex_lt(
            #[trigger] after[i].path,
            #[trigger] after[j].path,
        ) by {
            if j < k {
                assert(after[i] == entries[i] && after[j] == entries[j]);
            } else if j == k {
                assert(after[i] == entries[i]);
            } else if i < k {
                assert(after[i] == entries[i] && after[j] == entries[j - 1]);
            } else if i == k {
                assert(after[j] == entries[j - 1]);
                lemma_lex_total(entries[k].path, path);
                if j - 1 > k {
                    lemma_lex_transitive(path, entries[k].path, entries[j - 1].path);
                }
            } else {
                assert(after[i] == entries[i - 1] && after[j] == entries[j - 1]);
            }
        }
    }
    lemma_rank_of_member(after, k);
}

/// Storing a record leaves the records of all other paths as they were.
#[verifier::rlimit(40)]
pub proof fn lemma_store_other(
    entries: Seq<Entry>,
    path: Seq<char>,
    record: Record,
    other: Seq<char>,
)
    requires
        sorted(entries),
        other != path,
    ensures
        holds(store(entries, path, record), other) == holds(entries, other),
        record_at(store(entries, path, record), other) == record_at(entries, other),
{
    let k = rank(entries, path) as int;
    let after = store(entries, path, record);
    lemma_rank(entries, path);
    lemma_rank(entries, other);
    let r = rank(entries, other) as int;
    if holds(entries, path) {
        assert forall|j: int| 0 <= j < r implies lex_lt(#[trigger] after[j].path, other) by {
            assert(after[j].path == entries[j].path);
        }
        if r < entries.len() {
            assert(after[r].path == entries[r].path);
        }
        lemma_rank_is(after, other, r);
    } else {
        lemma_lex_total(path, other);
        if lex_lt(path, other) {
            // the new entry stands before the place of `other`
            if r < k {
                lemma_lex_total(entries[r].path, other);
                if entries[r].path == other {
                    lemma_lex_asymmetric(path, other);
                } else {
                    lemma_lex_transitive(path, other, entries[r].path);
                    lemma_lex_asymmetric(path, entries[r].path);
                }
                assert(false);
            }
            assert forall|j: int| 0 <= j < r + 1 implies lex_lt(#[trigger] after[j].path, other) by {
                if j < k {
                    assert(after[j] == entries[j]);
                } else if j == k {
                } else {
                    assert(after[j] == entries[j - 1]);
                }
            }
            if r + 1 < after.len() {
                assert(after[r + 1] == entries[r]);
            }
            lemma_rank_is(after, other, r + 1);
        } else {
            lemma_lex_asymmetric(other, path);
            if r > k {
                assert(lex_lt(entries[k].path, other));
                lemma_lex_total(entries[k].path, path);
                lemma_lex_transitive(entries[k].path, other, path);
                assert(false);
            }
            assert forall|j: int| 0 <= j < r implies lex_lt(#[trigger] after[j].path, other) by {
                assert(after[j] == entries[j]);
            }
            if r < k {
                assert(after[r] == entries[r]);
            } else {
                assert(after[r].path == path);
            }
            lemma_rank_is(after, other, r);
            if r == k && r < entries.len() {
                // `other` comes before `path`, which comes before what stood here
                lemma_lex_total(entries[k].path, path);
                lemma_lex_transitive(other, path, entries[k].path);
                lemma_lex_irreflexive(other);
            }
        }
    }
}

/// Storing a record at a path that was opened before is storing it at once.
pub proof fn lemma_store_again(entries: Seq<Entry>, path: Seq<char>, first: Record, record: Record)
    requires
        sorted(entries),
    ensures
        store(entries, path, first).update(rank(entries, path) as int, Entry { path, record })
            == store(entries, path, record),
{
    lemma_rank(entries, path);
    assert(store(entries, path, first).update(rank(entries, path) as int, Entry { path, record })
        =~= store(entries, path, record));
}

/// The records are in order; every atom in them has at least one bit; and
/// every child scope that a record names has a record of its own.
pub open spec fn records_wf(entries: Seq<Entry>) -> bool {
    &&& sorted(entries)
    &&& forall|p: Seq<char>, j: int|
        0 <= j < record_at(entries, p).atoms.len() ==> (#[trigger] record_at(
            entries,
            p,
        ).atoms[j]).width >= 1
    &&& forall|p: Seq<char>, j: int|
        0 <= j < record_at(entries, p).sub_modules.len() ==> holds(
            entries,
            (#[trigger] record_at(entries, p).sub_modules[j]).kind,
        )
}

/// Storing a record whose atoms have at least one bit, and whose child scopes
/// have records or are the path itself, keeps the records sound.
pub proof fn lemma_store_wf(entries: Seq<Entry>, path: Seq<char>, record: Record)
    requires
        records_wf(entries),
        forall|j: int| 0 <= j < record.atoms.len() ==> (#[trigger] record.atoms[j]).width >= 1,
        forall|j: int|
            0 <= j < record.sub_modules.len() ==> {
                ||| holds(entries, (#[trigger] record.sub_modules[j]).kind)
                ||| record.sub_modules[j].kind == path
            },
    ensures
        records_wf(store(entries, path, record)),
{
    let after = store(entries, path, record);
    lemma_store_same(entries, path, record);
    assert forall|p: Seq<char>, j: int| 0 <= j < record_at(after, p).atoms.len() implies (
    #[trigger] record_at(after, p).atoms[j]).width >= 1 by {
        if p != path {
            lemma_store_other(entries, path, record, p);
        }
    }
    assert forall|p: Seq<char>, j: int| 0 <= j < record_at(after, p).sub_modules.len() implies holds(
        after,
        (#[trigger] record_at(after, p).sub_modules[j]).kind,
    ) by {
        if p != path {
            lemma_store_other(entries, path, record, p);
        }
        let kind = record_at(after, p).sub_modules[j].kind;
        if kind != path {
            lemma_store_other(entries, path, record, kind);
        }
    }
}

/// The entries with one more atom in the record for `path`.
pub open spec fn add_atom(entries: Seq<Entry>, path: Seq<char>, atom: AtomRecord) -> Seq<Entry> {
    store(entries, path, record_at(entries, path).with_atom(atom))
}

/// The entries with one more child scope in the record for `path`.
pub open spec fn add_submodule(entries: Seq<Entry>, path: Seq<char>, sub: Invocation) -> Seq<
    Entry,
> {
    store(entries, path, record_at(entries, path).with_submodule(sub))
}

/// The entries with more named values in the record for `path`.
pub open spec fn add_enum(entries: Seq<Entry>, path: Seq<char>, symbols: Seq<EnumSymbol>) -> Seq<
    Entry,
> {
    store(entries, path, record_at(entries, path).with_enums(symbols))
}

/// The entries with `code` as the behaviour in the record for `path`.
pub open spec fn add_code(entries: Seq<Entry>, path: Seq<char>, code: Fragment) -> Seq<Entry> {
    store(entries, path, record_at(entries, path).with_code(code))
}

/// The named values among the first `n` values of an atom's type: one
/// symbol for each value that has a name, in rising order of the values.
pub open spec fn enum_symbols(info: AtomInfo, n: nat) -> Seq<EnumSymbol>
    decreases n,
{
    if n == 0 {
        Seq::empty()
    } else {
        let before = enum_symbols(info, (n - 1) as nat);
        let name = info.name_of((n - 1) as nat);
        if name.len() == 0 {
            before
        } else {
            before.push(
                EnumSymbol {
                    typename: info.typename,
                    discriminant: name,
                    value: (n - 1) as nat,
                },
            )
        }
    }
}

/// The name of an atom within its scope: behind the namespaces, joined by
/// `_`, where they give any text.
pub open spec fn mangled(namespace: Seq<Seq<char>>, name: Seq<char>) -> Seq<char> {
    let prefix = join(namespace, "_"@);
    if prefix.len() == 0 {
        name
    } else {
        prefix + "_"@ + name
    }
}

/// The kind of the stub that stands in a parent for a port of kind `kind`.
pub open spec fn stub_kind(kind: AtomKind) -> AtomKind {
    if kind == AtomKind::InputParameter {
        AtomKind::StubInputSignal
    } else {
        AtomKind::StubOutputSignal
    }
}

/// The text of an atom's value as its record keeps it: present only for
/// constants.
pub open spec fn literal_of(info: AtomInfo) -> Option<Seq<char>> {
    if info.kind == AtomKind::Constant {
        Some(info.literal.text())
    } else {
        None
    }
}

/// What a scope declares for an atom visited under `name`.
pub open spec fn declared(namespace: Seq<Seq<char>>, name: Seq<char>, info: AtomInfo) -> AtomRecord {
    AtomRecord {
        name: mangled(namespace, name),
        kind: info.kind,
        width: info.width,
        literal: literal_of(info),
    }
}

/// The stub that the parent of the scope entered as `instance` gets for a
/// port: named by the instance, `_` and the port's name, of the port's width.
pub open spec fn stub_for(instance: Seq<char>, port: AtomRecord) -> AtomRecord {
    AtomRecord {
        name: instance + "_"@ + port.name,
        kind: stub_kind(port.kind),
        width: port.width,
        literal: None,
    }
}

/// The state of a collecting traversal.
pub struct Collected {
    /// The names of the scopes entered and not yet left, outermost first.
    pub path: Seq<Seq<char>>,
    /// The names of the namespaces entered and not yet left within the
    /// current scope.
    pub namespace: Seq<Seq<char>>,
    /// The records, in the order of their scope paths.
    pub records: Seq<Entry>,
}

impl Collected {
    /// The state before anything was visited.
    pub open spec fn empty() -> Collected {
        Collected { path: Seq::empty(), namespace: Seq::empty(), records: Seq::empty() }
    }

    /// The path of the current scope.
    pub open spec fn scope(self) -> Seq<char> {
        path_text(self.path)
    }

    /// The path of the scope that holds the current one.
    pub open spec fn parent_scope(self) -> Seq<char> {
        path_text(self.path.drop_last())
    }

    /// The records are in order and sound.
    pub open spec fn wf(self) -> bool {
        records_wf(self.records)
    }

    /// The state after the scope `name` with behaviour `code` was entered:
    /// the scope is placed in the record of the scope around it, under its
    /// full path; the namespaces start anew; the behaviour is kept under the
    /// new path.
    pub open spec fn start_scope(self, name: Seq<char>, code: Fragment) -> Collected {
        let path = self.path.push(name);
        let placed = add_submodule(
            self.records,
            self.scope(),
            Invocation { kind: path_text(path), name },
        );
        Collected {
            path,
            namespace: Seq::empty(),
            records: add_code(placed, path_text(path), code),
        }
    }

    /// The state after the namespace `name` was entered.
    pub open spec fn start_namespace(self, name: Seq<char>) -> Collected {
        Collected { namespace: self.namespace.push(name), ..self }
    }

    /// The state after a namespace was left.
    pub open spec fn end_namespace(self) -> Collected {
        if self.namespace.len() > 0 {
            Collected { namespace: self.namespace.drop_last(), ..self }
        } else {
            self
        }
    }

    /// The state after a scope was left.
    pub open spec fn end_scope(self) -> Collected {
        if self.path.len() > 0 {
            Collected { path: self.path.drop_last(), ..self }
        } else {
            self
        }
    }

    /// The state after an atom was visited under `name` in the current scope:
    /// a port first gives the parent scope its stub; an atom of an enumerable
    /// type gives the current scope its named values; then the current scope
    /// declares the atom.
    pub open spec fn atom(self, name: Seq<char>, info: AtomInfo) -> Collected {
        let param = declared(self.namespace, name, info);
        let stubbed = if info.kind.parameter() {
            add_atom(self.records, self.parent_scope(), stub_for(self.path.last(), param))
        } else {
            self.records
        };
        let named = if info.enumerable {
            add_enum(stubbed, self.scope(), enum_symbols(info, pow2(info.width)))
        } else {
            stubbed
        };
        Collected { records: add_atom(named, self.scope(), param), ..self }
    }
}

/// One more atom of at least one bit keeps the records sound.
pub proof fn lemma_add_atom_wf(entries: Seq<Entry>, path: Seq<char>, atom: AtomRecord)
    requires
        records_wf(entries),
        atom.width >= 1,
    ensures
        records_wf(add_atom(entries, path, atom)),
{
    lemma_store_wf(entries, path, record_at(entries, path).with_atom(atom));
}

/// More named values keep the records sound.
pub proof fn lemma_add_enum_wf(entries: Seq<Entry>, path: Seq<char>, symbols: Seq<EnumSymbol>)
    requires
        records_wf(entries),
    ensures
        records_wf(add_enum(entries, path, symbols)),
{
    lemma_store_wf(entries, path, record_at(entries, path).with_enums(symbols));
}

/// Placing a child scope and giving it its behaviour keeps the records sound.
#[verifier::rlimit(40)]
pub proof fn lemma_place_wf(
    entries: Seq<Entry>,
    parent: Seq<char>,
    sub: Invocation,
    code: Fragment,
)
    requires
        records_wf(entries),
    ensures
        sorted(add_submodule(entries, parent, sub)),
        records_wf(add_code(add_submodule(entries, parent, sub), sub.kind, code)),
{
    let first = record_at(entries, parent).with_submodule(sub);
    let placed = store(entries, parent, first);
    lemma_store_same(entries, parent, first);
    let second = record_at(placed, sub.kind).with_code(code);
    let after = store(placed, sub.kind, second);
    lemma_store_same(placed, sub.kind, second);
    assert forall|p: Seq<char>, j: int| 0 <= j < record_at(after, p).atoms.len() implies (
    #[trigger] record_at(after, p).atoms[j]).width >= 1 by {
        if p != sub.kind {
            lemma_store_other(placed, sub.kind, second, p);
        }
        if p != parent {
            lemma_store_other(entries, parent, first, p);
        }
    }
    assert forall|p: Seq<char>, j: int| 0 <= j < record_at(after, p).sub_modules.len() implies holds(
        after,
        (#[trigger] record_at(after, p).sub_modules[j]).kind,
    ) by {
        if p != sub.kind {
            lemma_store_other(placed, sub.kind, second, p);
        }
        if p != parent {
            lemma_store_other(entries, parent, first, p);
        }
        let kind = record_at(after, p).sub_modules[j].kind;
        if kind != sub.kind {
            lemma_store_other(placed, sub.kind, second, kind);
            if kind != parent {
                lemma_store_other(entries, parent, first, kind);
            }
        }
    }
}

/// Entering a scope keeps the state sound.
pub proof fn lemma_start_scope_wf(state: Collected, name: Seq<char>, code: Fragment)
    requires
        state.wf(),
    ensures
        state.start_scope(name, code).wf(),
{
    lemma_place_wf(
        state.records,
        state.scope(),
        Invocation { kind: path_text(state.path.push(name)), name },
        code,
    );
}

/// Visiting an atom of at least one bit keeps the state sound.
pub proof fn lemma_atom_wf(state: Collected, name: Seq<char>, info: AtomInfo)
    requires
        state.wf(),
        info.width >= 1,
    ensures
        state.atom(name, info).wf(),
{
    let param = declared(state.namespace, name, info);
    let stubbed = if info.kind.parameter() {
        add_atom(state.records, state.parent_scope(), stub_for(state.path.last(), param))
    } else {
        state.records
    };
    if info.kind.parameter() {
        lemma_add_atom_wf(state.records, state.parent_scope(), stub_for(state.path.last(), param));
    }
    let named = if info.enumerable {
        add_enum(stubbed, state.scope(), enum_symbols(info, pow2(info.width)))
    } else {
        stubbed
    };
    if info.enumerable {
        lemma_add_enum_wf(stubbed, state.scope(), enum_symbols(info, pow2(info.width)));
    }
    lemma_add_atom_wf(named, state.scope(), param);
}

} // verus!
