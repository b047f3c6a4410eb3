//! From the parsed header of a module to what the orchestrator needs of
//! it: the ids of the module and of its imports, the names it exposes, and
//! the scope that its imports put identifiers into.

use vstd::prelude::*;
use crate::arena::List;
use crate::ast::CommentOrNewline;
use crate::region::{Located, Region};
use crate::registry::{
    bytes_to_vec, lemma_symbol_unique, names_of, IdentId, IdentIds, ModuleId, ModuleIds, Symbol,
};

verus! {

/// An entry of the list of what a module exposes, or of what is imported
/// from a module by name.
#[derive(Clone, Copy, Debug, PartialEq)]
pub enum ExposesEntry<'a> {
    /// `foo` or `Foo`
    Ident(&'a [u8]),
    SpaceBefore(&'a ExposesEntry<'a>, &'a [CommentOrNewline<'a>]),
    SpaceAfter(&'a ExposesEntry<'a>, &'a [CommentOrNewline<'a>]),
}

/// An entry of the list of imports.
#[derive(Clone, Copy, Debug, PartialEq)]
pub enum ImportsEntry<'a> {
    /// `Task` or `Task.{ Task, after }`: the module's name, and the
    /// identifiers imported from it by name.
    Module(&'a [u8], List<'a, Located<ExposesEntry<'a>>>),
    SpaceBefore(&'a ImportsEntry<'a>, &'a [CommentOrNewline<'a>]),
    SpaceAfter(&'a ImportsEntry<'a>, &'a [CommentOrNewline<'a>]),
}

/// The header of an interface module, as parsed.
#[derive(Clone, Copy, Debug, PartialEq)]
pub struct InterfaceHeader<'a> {
    pub name: Located<&'a [u8]>,
    pub exposes: List<'a, Located<ExposesEntry<'a>>>,
    pub imports: List<'a, Located<ImportsEntry<'a>>>,
}

/// The identifier that an entry names, whatever white space is around it.
pub open spec fn exposed_name(entry: ExposesEntry) -> Seq<u8>
    decreases entry,
{
    match entry {
        ExposesEntry::Ident(name) => name@,
        ExposesEntry::SpaceBefore(inner, _) => exposed_name(*inner),
        ExposesEntry::SpaceAfter(inner, _) => exposed_name(*inner),
    }
}

/// The identifiers that the entries of a list name, in their order.
pub open spec fn exposed_names(list: List<Located<ExposesEntry>>) -> Seq<Seq<u8>>
    decreases list,
{
    match list {
        List::Nil => Seq::empty(),
        List::Cons(head, tail) => seq![exposed_name(head.value)].add(exposed_names(*tail)),
    }
}

/// The name of the module that an import names.
pub open spec fn import_name(entry: ImportsEntry) -> Seq<u8>
    decreases entry,
{
    match entry {
        ImportsEntry::Module(name, _) => name@,
        ImportsEntry::SpaceBefore(inner, _) => import_name(*inner),
        ImportsEntry::SpaceAfter(inner, _) => import_name(*inner),
    }
}

/// The identifiers that an import brings in by name.
pub open spec fn import_exposed(entry: ImportsEntry) -> Seq<Seq<u8>>
    decreases entry,
{
    match entry {
        ImportsEntry::Module(_, exposes) => exposed_names(exposes),
        ImportsEntry::SpaceBefore(inner, _) => import_exposed(*inner),
        ImportsEntry::SpaceAfter(inner, _) => import_exposed(*inner),
    }
}

/// The identifier that an entry names. Spaces are ignored.
pub fn ident_from_exposed(entry: &ExposesEntry<'_>) -> (name: Vec<u8>)
    ensures
        name@ == exposed_name(*entry),
    decreases *entry,
{
    match *entry {
        ExposesEntry::Ident(name) => bytes_to_vec(name),
        ExposesEntry::SpaceBefore(inner, _) => ident_from_exposed(inner),
        ExposesEntry::SpaceAfter(inner, _) => ident_from_exposed(inner),
    }
}

/// The identifiers that the entries of a list name.
pub fn idents_from_exposed(list: List<'_, Located<ExposesEntry<'_>>>) -> (names: Vec<Vec<u8>>)
    ensures
        names_of(names@) == exposed_names(list),
{
    let mut names: Vec<Vec<u8>> = Vec::new();
    let mut rest = list;
    loop
        invariant
            names_of(names@).add(exposed_names(rest)) == exposed_names(list),
        decreases rest,
    {
        match rest {
            List::Nil => {
                assert(names_of(names@).add(exposed_names(rest)) =~= names_of(names@));
                return names;
            },
            List::Cons(head, tail) => {
                let ghost before = names_of(names@);
                let name = ident_from_exposed(&head.value);
                names.push(name);
                proof {
                    assert(names_of(names@) =~= before.push(exposed_name(head.value)));
                    assert(before.push(exposed_name(head.value)).add(exposed_names(*tail))
                        =~= before.add(exposed_names(rest)));
                }
                rest = *tail;
            },
        }
    }
}

/// The name of the module that an import names, and the identifiers that
/// it brings in by name. Spaces are ignored.
pub fn exposed_from_import(entry: &ImportsEntry<'_>) -> (r: (Vec<u8>, Vec<Vec<u8>>))
    ensures
        r.0@ == import_name(*entry),
        names_of(r.1@) == import_exposed(*entry),
    decreases *entry,
{
    match *entry {
        ImportsEntry::Module(module_name, exposes) => (
            bytes_to_vec(module_name),
            idents_from_exposed(exposes),
        ),
        ImportsEntry::SpaceBefore(inner, _) => exposed_from_import(inner),
        ImportsEntry::SpaceAfter(inner, _) => exposed_from_import(inner),
    }
}

/// An identifier that an import put into the scope of a module: its
/// name, the symbol it stands for, and the region of the import.
#[derive(Debug)]
pub struct ScopeEntry {
    pub ident: Vec<u8>,
    pub symbol: Symbol,
    pub region: Region,
}

/// Adds the identifiers `exposed`, which an import in `region` brings in
/// from the module `module_id`, to `scope`. Each is interned in `ident_ids`,
/// the identifiers of that module, under the next free id.
pub fn add_exposed_to_scope(
    module_id: ModuleId,
    scope: &mut Vec<ScopeEntry>,
    exposed: Vec<Vec<u8>>,
    ident_ids: &mut IdentIds,
    region: Region,
)
    requires
        old(ident_ids).names().len() + exposed@.len() <= u32::MAX,
    ensures
        final(ident_ids).names() == old(ident_ids).names().add(names_of(exposed@)),
        final(scope)@.len() == old(scope)@.len() + exposed@.len(),
        forall|k: int| 0 <= k < old(scope)@.len() ==> final(scope)@[k] == old(scope)@[k],
        forall|k: int|
            0 <= k < exposed@.len() ==> {
                let entry = #[trigger] final(scope)@[old(scope)@.len() + k];
                &&& entry.ident@ == exposed@[k]@
                &&& entry.symbol == Symbol::pack(
                    module_id,
                    IdentId((old(ident_ids).names().len() + k) as u32),
                )
                &&& entry.region == region
            },
{
    let ghost names0 = ident_ids.names();
    let ghost scope0 = scope@;
    let mut i: usize = 0;
    while i < exposed.len()
        invariant
            i <= exposed@.len(),
            names0.len() + exposed@.len() <= u32::MAX,
            ident_ids.names() == names0.add(names_of(exposed@).subrange(0, i as int)),
            scope@.len() == scope0.len() + i,
            forall|k: int| 0 <= k < scope0.len() ==> scope@[k] == scope0[k],
            forall|k: int|
                0 <= k < i ==> {
                    let entry = #[trigger] scope@[scope0.len() + k];
                    &&& entry.ident@ == exposed@[k]@
                    &&& entry.symbol == Symbol::pack(module_id, IdentId((names0.len() + k) as u32))
                    &&& entry.region == region
                },
        decreases exposed@.len() - i,
    {
        // Since this value is exposed, add it to the module's scope.
        let ghost before = ident_ids.names();
        let name: &Vec<u8> = &exposed[i];
        match ident_ids.add(name.as_slice()) {
            Some(ident_id) => {
                let symbol = Symbol::new(module_id, ident_id);
                scope.push(ScopeEntry { ident: bytes_to_vec(name.as_slice()), symbol, region });
            },
            None => {
                assert(false);
            },
        }
        proof {
            assert(names_of(exposed@).subrange(0, i + 1) =~= names_of(exposed@).subrange(
                0,
                i as int,
            ).push(exposed@[i as int]@));
            assert(ident_ids.names() =~= names0.add(names_of(exposed@).subrange(0, i + 1)));
        }
        i = i + 1;
    }
    proof {
        assert(names_of(exposed@).subrange(0, exposed@.len() as int) =~= names_of(exposed@));
    }
}

/// The identifiers exposed by each module, as far as imports have named
/// them: the table at index `i` belongs to the module with id `i`.
#[derive(Debug)]
pub struct ExposedIdents {
    pub tables: Vec<IdentIds>,
}

impl ExposedIdents {
    /// The identifiers of module `m`, in the order of their ids.
    pub open spec fn of(&self, m: ModuleId) -> Seq<Seq<u8>> {
        if m.0 < self.tables@.len() {
            self.tables@[m.0 as int].names()
        } else {
            Seq::empty()
        }
    }

    pub fn new() -> (r: ExposedIdents)
        ensures
            forall|m: ModuleId| r.of(m).len() == 0,
    {
        ExposedIdents { tables: Vec::new() }
    }

    /// How many identifiers module `m` has.
    pub fn count(&self, m: ModuleId) -> (n: usize)
        ensures
            n == self.of(m).len(),
    {
        if (m.0 as usize) < self.tables.len() {
            self.tables[m.0 as usize].len()
        } else {
            0
        }
    }

    /// Adds the identifiers `exposed`, which an import in `region` brings
    /// in from the module `m`, to `scope`, and interns them for `m`.
    pub fn expose(&mut self, m: ModuleId, scope: &mut Vec<ScopeEntry>, exposed: Vec<Vec<u8>>, region: Region)
        requires
            old(self).of(m).len() + exposed@.len() <= u32::MAX,
        ensures
            final(self).of(m) == old(self).of(m).add(names_of(exposed@)),
            forall|other: ModuleId| other != m ==> final(self).of(other) == old(self).of(other),
            final(scope)@.len() == old(scope)@.len() + exposed@.len(),
            forall|k: int| 0 <= k < old(scope)@.len() ==> final(scope)@[k] == old(scope)@[k],
            forall|k: int|
                0 <= k < exposed@.len() ==> {
                    let entry = #[trigger] final(scope)@[old(scope)@.len() + k];
                    &&& entry.ident@ == exposed@[k]@
                    &&& entry.symbol == Symbol::pack(
                        m,
                        IdentId((old(self).of(m).len() + k) as u32),
                    )
                    &&& entry.region == region
                },
    {
        let ghost before = *self;
        // Make sure that the module has a table.
        while self.tables.len() as u64 <= m.0 as u64
            invariant
                forall|other: ModuleId| self.of(other) =~= before.of(other),
            decreases m.0 + 1 - self.tables@.len(),
        {
            self.tables.push(IdentIds::new());
        }
        let at: usize = m.0 as usize;
        let ghost grown = *self;
        let mut table = IdentIds::new();
        let ghost at_len = self.tables@.len();
        std::mem::swap(&mut table, &mut self.tables[at]);
        add_exposed_to_scope(m, scope, exposed, &mut table, region);
        std::mem::swap(&mut table, &mut self.tables[at]);
        proof {
            assert forall|other: ModuleId| other != m implies self.of(other) == before.of(other) by {
                assert(grown.of(other) =~= before.of(other));
                if other.0 < self.tables@.len() {
                    assert(self.tables@[other.0 as int] == grown.tables@[other.0 as int]);
                }
            }
            assert(grown.of(m) =~= before.of(m));
        }
    }
}

/// What the orchestrator is told of a module once its header is read.
#[derive(Debug)]
pub struct ModuleHeader {
    pub module_id: ModuleId,
    pub module_name: Vec<u8>,
    /// The imports, each with the id of the module it names.
    pub deps_by_name: Vec<(Vec<u8>, ModuleId)>,
    /// The identifiers that the module exposes.
    pub exposes: Vec<Vec<u8>>,
    /// The scope that the module starts with: what its imports bring in
    /// by name.
    pub exposed_imports: Vec<ScopeEntry>,
    /// The text of the module, which is still to be parsed.
    pub src: Vec<u8>,
}

/// How many identifiers the imports of a list bring in by name.
pub open spec fn total_exposed(imports: Seq<Located<ImportsEntry>>) -> nat
    decreases imports.len(),
{
    if imports.len() == 0 {
        0
    } else {
        import_exposed(imports[0].value).len() + total_exposed(imports.drop_first())
    }
}

/// `entry` is an identifier that the import `import`, which names the
/// module with id `dep`, brings in: it bears the region of the import, its
/// name is among those the import lists, and its symbol is the symbol of
/// that name in the module `dep`.
pub open spec fn brought_in_by(
    entry: ScopeEntry,
    import: Located<ImportsEntry>,
    dep: ModuleId,
    idents: ExposedIdents,
) -> bool {
    &&& entry.region == import.region
    &&& import_exposed(import.value).contains(entry.ident@)
    &&& entry.symbol.module() == dep
    &&& entry.symbol.ident().0 < idents.of(dep).len()
    &&& idents.of(dep)[entry.symbol.ident().0 as int] == entry.ident@
}

/// `later` holds every name of `earlier` under the id it had there.
pub open spec fn keeps_ids(earlier: Seq<Seq<u8>>, later: Seq<Seq<u8>>) -> bool {
    earlier.len() <= later.len() && later.subrange(0, earlier.len() as int) == earlier
}

proof fn lemma_total_exposed_step(imports: Seq<Located<ImportsEntry>>, i: int)
    requires
        0 <= i < imports.len(),
    ensures
        total_exposed(imports.subrange(i, imports.len() as int)) == import_exposed(
            imports[i].value,
        ).len() + total_exposed(imports.subrange(i + 1, imports.len() as int)),
{
    let rest = imports.subrange(i, imports.len() as int);
    assert(rest[0] == imports[i]);
    assert(rest.drop_first() =~= imports.subrange(i + 1, imports.len() as int));
}

/// The id that `name` has in a table that holds the names `names`.
pub open spec fn id_in(names: Seq<Seq<u8>>, name: Seq<u8>) -> Option<ModuleId> {
    if names.contains(name) {
        Some(ModuleId(names.index_of(name) as u32))
    } else {
        None
    }
}

/// The names of a table after `name` is interned in it: a new name goes to
/// the end, a name that is held changes nothing.
pub open spec fn interned(names: Seq<Seq<u8>>, name: Seq<u8>) -> Seq<Seq<u8>> {
    if names.contains(name) {
        names
    } else {
        names.push(name)
    }
}

/// The names of a table after the modules that the first `n` of `imports`
/// name are interned in it, one after the other.
pub open spec fn names_after(
    names: Seq<Seq<u8>>,
    imports: Seq<Located<ImportsEntry>>,
    n: int,
) -> Seq<Seq<u8>>
    decreases n,
{
    if n <= 0 {
        names
    } else {
        interned(names_after(names, imports, n - 1), import_name(imports[n - 1].value))
    }
}

/// The identifiers that the first `n` of `imports` bring in from the
/// module `m`, in their order, where `names` are the names of the table of
/// module ids.
pub open spec fn brought_in(
    names: Seq<Seq<u8>>,
    m: ModuleId,
    imports: Seq<Located<ImportsEntry>>,
    n: int,
) -> Seq<Seq<u8>>
    decreases n,
{
    if n <= 0 {
        Seq::empty()
    } else if id_in(names, import_name(imports[n - 1].value)) == Some(m) {
        brought_in(names, m, imports, n - 1).add(import_exposed(imports[n - 1].value))
    } else {
        brought_in(names, m, imports, n - 1)
    }
}

/// What an entry of a scope holds: the identifier, the symbol it stands
/// for, and the region of the import.
pub open spec fn entry_view(entry: ScopeEntry) -> (Seq<u8>, Symbol, Region) {
    (entry.ident@, entry.symbol, entry.region)
}

/// What the entries of a scope hold, in their order.
pub open spec fn scope_views(scope: Seq<ScopeEntry>) -> Seq<(Seq<u8>, Symbol, Region)> {
    Seq::new(scope.len(), |k: int| entry_view(scope[k]))
}

/// The entries that an import in `region` makes of the identifiers
/// `exposed` of the module `dep`, which had `base` identifiers before: each
/// gets the next free identifier id of that module.
pub open spec fn scope_of_import(
    exposed: Seq<Seq<u8>>,
    dep: ModuleId,
    base: nat,
    region: Region,
) -> Seq<(Seq<u8>, Symbol, Region)> {
    Seq::new(
        exposed.len(),
        |k: int| (exposed[k], Symbol::pack(dep, IdentId((base + k) as u32)), region),
    )
}

/// The module that the import at `k` names, by its id in a table that
/// holds the names `names`.
pub open spec fn dep_of(
    names: Seq<Seq<u8>>,
    imports: Seq<Located<ImportsEntry>>,
    k: int,
) -> ModuleId {
    match id_in(names, import_name(imports[k].value)) {
        Some(id) => id,
        None => ModuleId(0),
    }
}

/// The scope that the first `n` of `imports` make, where `names` are the
/// names of the table of module ids and `before` the identifiers that
/// each module had before: the identifiers of the first import in their
/// order, then those of the second, and so on.
pub open spec fn scope_after(
    names: Seq<Seq<u8>>,
    before: ExposedIdents,
    imports: Seq<Located<ImportsEntry>>,
    n: int,
) -> Seq<(Seq<u8>, Symbol, Region)>
    decreases n,
{
    if n <= 0 {
        Seq::empty()
    } else {
        let dep = dep_of(names, imports, n - 1);
        scope_after(names, before, imports, n - 1).add(
            scope_of_import(
                import_exposed(imports[n - 1].value),
                dep,
                before.of(dep).len() + brought_in(names, dep, imports, n - 1).len(),
                imports[n - 1].region,
            ),
        )
    }
}

/// A name keeps its id when further names are interned.
proof fn lemma_id_in_stable(before: Seq<Seq<u8>>, after: Seq<Seq<u8>>, name: Seq<u8>)
    requires
        after.no_duplicates(),
        before.len() <= after.len(),
        after.subrange(0, before.len() as int) == before,
        before.contains(name),
    ensures
        id_in(after, name) == id_in(before, name),
{
    let i = before.index_of(name);
    assert(after.subrange(0, before.len() as int)[i] == after[i]);
    assert(after.contains(name));
    let j = after.index_of(name);
    assert(after[j] == name);
}

/// What the first `n` imports brought in does not change when further
/// names are interned, as long as the modules that they name were interned
/// before.
proof fn lemma_brought_in_stable(
    before: Seq<Seq<u8>>,
    after: Seq<Seq<u8>>,
    m: ModuleId,
    imports: Seq<Located<ImportsEntry>>,
    n: int,
)
    requires
        after.no_duplicates(),
        before.len() <= after.len(),
        after.subrange(0, before.len() as int) == before,
        0 <= n <= imports.len(),
        forall|k: int| 0 <= k < n ==> before.contains(import_name(#[trigger] imports[k].value)),
    ensures
        brought_in(after, m, imports, n) == brought_in(before, m, imports, n),
    decreases n,
{
    if n > 0 {
        lemma_brought_in_stable(before, after, m, imports, n - 1);
        assert(before.contains(import_name(imports[n - 1].value)));
        lemma_id_in_stable(before, after, import_name(imports[n - 1].value));
    }
}

/// The scope that the first `n` imports made does not change when further
/// names are interned, as long as the modules that they name were interned
/// before.
proof fn lemma_scope_after_stable(
    before: Seq<Seq<u8>>,
    after: Seq<Seq<u8>>,
    idents: ExposedIdents,
    imports: Seq<Located<ImportsEntry>>,
    n: int,
)
    requires
        after.no_duplicates(),
        before.len() <= after.len(),
        after.subrange(0, before.len() as int) == before,
        0 <= n <= imports.len(),
        forall|k: int| 0 <= k < n ==> before.contains(import_name(#[trigger] imports[k].value)),
    ensures
        scope_after(after, idents, imports, n) == scope_after(before, idents, imports, n),
    decreases n,
{
    if n > 0 {
        lemma_scope_after_stable(before, after, idents, imports, n - 1);
        assert(before.contains(import_name(imports[n - 1].value)));
        lemma_id_in_stable(before, after, import_name(imports[n - 1].value));
        let dep = dep_of(before, imports, n - 1);
        assert(dep_of(after, imports, n - 1) == dep);
        lemma_brought_in_stable(before, after, dep, imports, n - 1);
    }
}

/// Makes of the parsed header of a module what the orchestrator is told of
/// it. Interns the module's name and the names of its imports in
/// `module_ids`, without disturbing the ids given before, and interns the
/// identifiers that the imports bring in by name, each for the module it
/// is imported from. An identifier brought in stands for the symbol of
/// that name in the module it comes from.
pub fn interface_header(
    header: &InterfaceHeader<'_>,
    src: &[u8],
    module_ids: &mut ModuleIds,
    idents: &mut ExposedIdents,
) -> (h: ModuleHeader)
    requires
        old(module_ids).wf(),
        old(module_ids).names().len() + header.imports@.len() + 1 <= u32::MAX,
        forall|m: ModuleId| #[trigger]
            old(idents).of(m).len() + total_exposed(header.imports@) <= u32::MAX,
    ensures
        final(module_ids).wf(),
        keeps_ids(old(module_ids).names(), final(module_ids).names()),
        forall|m: ModuleId| keeps_ids(old(idents).of(m), #[trigger] final(idents).of(m)),
        h.module_name@ == header.name.value@,
        final(module_ids).id_of(header.name.value@) == Some(h.module_id),
        h.src@ == src@,
        names_of(h.exposes@) == exposed_names(header.exposes),
        h.deps_by_name@.len() == header.imports@.len(),
        forall|k: int|
            0 <= k < header.imports@.len() ==> {
                let dep = #[trigger] h.deps_by_name@[k];
                &&& dep.0@ == import_name(header.imports@[k].value)
                &&& final(module_ids).id_of(dep.0@) == Some(dep.1)
            },
        h.exposed_imports@.len() == total_exposed(header.imports@),
        forall|j: int|
            0 <= j < h.exposed_imports@.len() ==> exists|k: int|
                0 <= k < header.imports@.len() && brought_in_by(
                    #[trigger] h.exposed_imports@[j],
                    header.imports@[k],
                    h.deps_by_name@[k].1,
                    *final(idents),
                ),
        final(module_ids).names() == names_after(
            interned(old(module_ids).names(), header.name.value@),
            header.imports@,
            header.imports@.len() as int,
        ),
        forall|m: ModuleId|
            #[trigger] final(idents).of(m) == old(idents).of(m).add(
                brought_in(
                    final(module_ids).names(),
                    m,
                    header.imports@,
                    header.imports@.len() as int,
                ),
            ),
        scope_views(h.exposed_imports@) == scope_after(
            final(module_ids).names(),
            *old(idents),
            header.imports@,
            header.imports@.len() as int,
        ),
{
    let ghost ids0 = module_ids.names();
    let ghost first = interned(ids0, header.name.value@);
    let ghost idents0 = *idents;
    let ghost imports = header.imports@;
    let declared = bytes_to_vec(header.name.value);
    let module_id = match module_ids.get_or_insert(declared.as_slice()) {
        Some(id) => id,
        None => {
            assert(false);
            ModuleId(0)
        },
    };
    proof {
        assert(module_ids.names().subrange(0, ids0.len() as int) =~= ids0);
    }
    let exposes = idents_from_exposed(header.exposes);
    let mut deps_by_name: Vec<(Vec<u8>, ModuleId)> = Vec::new();
    let mut scope: Vec<ScopeEntry> = Vec::new();
    let mut rest = header.imports;
    let mut i: usize = 0;
    proof {
        assert(imports.subrange(0, imports.len() as int) =~= imports);
        assert forall|m: ModuleId| keeps_ids(idents0.of(m), #[trigger] idents.of(m)) by {
            assert(idents.of(m).subrange(0, idents0.of(m).len() as int) =~= idents0.of(m));
        }
        assert forall|m: ModuleId| #[trigger] idents.of(m) == idents0.of(m).add(
            brought_in(module_ids.names(), m, imports, 0),
        ) by {
            assert(idents0.of(m).add(Seq::empty()) =~= idents0.of(m));
        }
        assert(scope_views(scope@) =~= scope_after(module_ids.names(), idents0, imports, 0));
    }
    loop
        invariant
            imports == header.imports@,
            first == interned(ids0, header.name.value@),
            module_ids.names() == names_after(first, imports, i as int),
            forall|k: int|
                0 <= k < i ==> module_ids.names().contains(
                    import_name(#[trigger] imports[k].value),
                ),
            forall|m: ModuleId|
                #[trigger] idents.of(m) == idents0.of(m).add(
                    brought_in(module_ids.names(), m, imports, i as int),
                ),
            scope_views(scope@) == scope_after(module_ids.names(), idents0, imports, i as int),
            i <= imports.len(),
            rest@ == imports.subrange(i as int, imports.len() as int),
            module_ids.wf(),
            module_ids.names().len() <= ids0.len() + 1 + i,
            ids0.len() + imports.len() + 1 <= u32::MAX,
            keeps_ids(ids0, module_ids.names()),
            module_ids.id_of(header.name.value@) == Some(module_id),
            forall|m: ModuleId| keeps_ids(idents0.of(m), #[trigger] idents.of(m)),
            forall|m: ModuleId| #[trigger]
                idents.of(m).len() + total_exposed(rest@) <= u32::MAX,
            deps_by_name@.len() == i,
            forall|k: int|
                0 <= k < i ==> {
                    let dep = #[trigger] deps_by_name@[k];
                    &&& dep.0@ == import_name(imports[k].value)
                    &&& module_ids.id_of(dep.0@) == Some(dep.1)
                },
            scope@.len() + total_exposed(rest@) == total_exposed(imports),
            forall|j: int|
                0 <= j < scope@.len() ==> exists|k: int|
                    0 <= k < i && brought_in_by(
                        #[trigger] scope@[j],
                        imports[k],
                        deps_by_name@[k].1,
                        *idents,
                    ),
        ensures
            i == imports.len(),
        decreases rest,
    {
        match rest {
            List::Nil => {
                proof {
                    assert(rest@.len() == 0);
                    assert(i == imports.len());
                }
                break ;
            },
            List::Cons(head, tail) => {
                proof {
                    assert(rest@ == seq![*head].add(tail@));
                    assert(rest@[0] == *head);
                    assert(imports[i as int] == *head);
                    assert(tail@ =~= rest@.subrange(1, rest@.len() as int));
                    assert(tail@ =~= imports.subrange(i + 1, imports.len() as int));
                    lemma_total_exposed_step(imports, i as int);
                }
                let ghost ids_before = *module_ids;
                let ghost idents_before = *idents;
                let ghost scope_before = scope@;
                let ghost deps_before = deps_by_name@;
                let (name, exposed) = exposed_from_import(&head.value);
                // Make sure the module has an id, and write it down.
                let dep_id = match module_ids.get_or_insert(name.as_slice()) {
                    Some(id) => id,
                    None => {
                        assert(false);
                        ModuleId(0)
                    },
                };
                proof {
                    let before = ids_before.names();
                    let after = module_ids.names();
                    assert(after.subrange(0, before.len() as int) =~= before);
                    assert(after.subrange(0, ids0.len() as int) =~= before.subrange(
                        0,
                        ids0.len() as int,
                    ));
                    crate::registry::lemma_module_ids_stable(
                        ids_before,
                        *module_ids,
                        header.name.value@,
                    );
                    assert forall|k: int| 0 <= k < i implies module_ids.id_of(
                        (#[trigger] deps_before[k]).0@,
                    ) == Some(deps_before[k].1) by {
                        crate::registry::lemma_module_ids_stable(
                            ids_before,
                            *module_ids,
                            deps_before[k].0@,
                        );
                    }
                }
                deps_by_name.push((name, dep_id));
                let ghost exposed_view = names_of(exposed@);
                let ghost from = idents.of(dep_id).len();
                if exposed.len() > 0 {
                    idents.expose(dep_id, &mut scope, exposed, head.region);
                }
                proof {
                    assert forall|m: ModuleId| keeps_ids(idents0.of(m), #[trigger] idents.of(m)) by {
                        assert(keeps_ids(idents0.of(m), idents_before.of(m)));
                        if m == dep_id && exposed_view.len() > 0 {
                            assert(idents.of(m).subrange(0, idents0.of(m).len() as int)
                                =~= idents_before.of(m).subrange(0, idents0.of(m).len() as int));
                        }
                    }
                    assert forall|j: int| 0 <= j < scope@.len() implies exists|k: int|
                        0 <= k < i + 1 && brought_in_by(
                            #[trigger] scope@[j],
                            imports[k],
                            deps_by_name@[k].1,
                            *idents,
                        ) by {
                        if j < scope_before.len() {
                            assert(scope@[j] == scope_before[j]);
                            let k = choose|k: int|
                                0 <= k < i && brought_in_by(
                                    scope_before[j],
                                    imports[k],
                                    deps_before[k].1,
                                    idents_before,
                                );
                            assert(deps_by_name@[k] == deps_before[k]);
                            let owner = deps_before[k].1;
                            if owner == dep_id && exposed_view.len() > 0 {
                                let at = scope_before[j].symbol.ident().0 as int;
                                assert(idents.of(owner)[at] == idents_before.of(owner)[at]);
                            }
                            assert(brought_in_by(scope@[j], imports[k], deps_by_name@[k].1, *idents));
                        } else {
                            let t = j - scope_before.len();
                            let entry = scope@[scope_before.len() + t];
                            lemma_symbol_unique(
                                dep_id,
                                IdentId((from + t) as u32),
                                dep_id,
                                IdentId((from + t) as u32),
                            );
                            assert(exposed_view[t] == entry.ident@);
                            assert(import_exposed(head.value).contains(entry.ident@));
                            assert(idents.of(dep_id)[from + t] == exposed_view[t]);
                            assert(brought_in_by(
                                scope@[j],
                                imports[i as int],
                                deps_by_name@[i as int].1,
                                *idents,
                            ));
                        }
                    }
                }
                proof {
                    let before = ids_before.names();
                    let after = module_ids.names();
                    let name_i = import_name(imports[i as int].value);
                    let exposed_i = import_exposed(imports[i as int].value);
                    assert(after == interned(before, name_i));
                    assert(after == names_after(first, imports, i + 1));
                    assert(id_in(after, name_i) == Some(dep_id));
                    assert(dep_of(after, imports, i as int) == dep_id);
                    assert forall|k: int| 0 <= k < i + 1 implies after.contains(
                        import_name(#[trigger] imports[k].value),
                    ) by {
                        if k < i {
                            assert(before.contains(import_name(imports[k].value)));
                            lemma_id_in_stable(before, after, import_name(imports[k].value));
                        }
                    }
                    assert forall|m: ModuleId| #[trigger] idents.of(m) == idents0.of(m).add(
                        brought_in(after, m, imports, i + 1),
                    ) by {
                        lemma_brought_in_stable(before, after, m, imports, i as int);
                        assert(idents_before.of(m) == idents0.of(m).add(
                            brought_in(before, m, imports, i as int),
                        ));
                        if m == dep_id {
                            assert(idents.of(m) =~= idents_before.of(m).add(exposed_i));
                            assert(idents.of(m) =~= idents0.of(m).add(
                                brought_in(after, m, imports, i + 1),
                            ));
                        } else {
                            assert(idents.of(m) == idents_before.of(m));
                        }
                    }
                    lemma_scope_after_stable(before, after, idents0, imports, i as int);
                    lemma_brought_in_stable(before, after, dep_id, imports, i as int);
                    let base = idents0.of(dep_id).len() + brought_in(
                        after,
                        dep_id,
                        imports,
                        i as int,
                    ).len();
                    assert(base == idents_before.of(dep_id).len());
                    let added = scope_of_import(exposed_i, dep_id, base, imports[i as int].region);
                    assert(scope_views(scope@) =~= scope_views(scope_before).add(added)) by {
                        assert(scope@.len() == scope_before.len() + exposed_i.len());
                        assert forall|j: int| 0 <= j < scope@.len() implies scope_views(scope@)[j]
                            == scope_views(scope_before).add(added)[j] by {
                            if j < scope_before.len() {
                                assert(scope@[j] == scope_before[j]);
                            } else {
                                let t = j - scope_before.len();
                                assert(scope@[scope_before.len() + t].ident@ == exposed_i[t]);
                            }
                        }
                    }
                    assert(scope_views(scope@) == scope_after(after, idents0, imports, i + 1));
                }
                rest = *tail;
                i = i + 1;
            },
        }
    }
    ModuleHeader {
        module_id,
        module_name: declared,
        deps_by_name,
        exposes,
        exposed_imports: scope,
        src: bytes_to_vec(src),
    }
}

/// The symbols that the identifiers `exposes` of the module `module_id`
/// stand for: the identifier at position `k` has the identifier id `k`.
pub open spec fn symbols_of(module_id: ModuleId, exposes: Seq<Vec<u8>>) -> Seq<Symbol> {
    Seq::new(exposes.len(), |k: int| Symbol::pack(module_id, IdentId(k as u32)))
}

/// What the arrival of a header publishes of its module: the identifiers
/// that the module exposes, interned in a table of their own in the order
/// in which the header names them, and the symbol of each.
pub fn exposed_symbols(module_id: ModuleId, exposes: &Vec<Vec<u8>>) -> (r: (IdentIds, Vec<Symbol>))
    requires
        exposes@.len() <= u32::MAX,
    ensures
        r.0.wf(),
        r.0.names() == names_of(exposes@),
        r.1@ == symbols_of(module_id, exposes@),
{
    let mut ids = IdentIds::new();
    let mut symbols: Vec<Symbol> = Vec::new();
    let mut i: usize = 0;
    while i < exposes.len()
        invariant
            i <= exposes@.len() <= u32::MAX,
            ids.wf(),
            ids.names() == names_of(exposes@.subrange(0, i as int)),
            symbols@ == symbols_of(module_id, exposes@.subrange(0, i as int)),
        decreases exposes@.len() - i,
    {
        let ghost before = ids.names();
        // Write the identifier down in the table and among the symbols.
        match ids.add(exposes[i].as_slice()) {
            Some(ident_id) => {
                symbols.push(Symbol::new(module_id, ident_id));
            },
            None => {
                assert(false);
            },
        }
        proof {
            assert(names_of(exposes@.subrange(0, i + 1)) =~= before.push(exposes@[i as int]@));
            assert(symbols@ =~= symbols_of(module_id, exposes@.subrange(0, i + 1)));
        }
        i = i + 1;
    }
    proof {
        assert(exposes@.subrange(0, exposes@.len() as int) =~= exposes@);
    }
    (ids, symbols)
}

/// Of the symbols that a module refers to, those of other modules, in
/// their order: the ones whose types the solver must be told.
pub fn foreign_references(home: ModuleId, references: &Vec<Symbol>) -> (foreign: Vec<Symbol>)
    ensures
        foreign@ == references@.filter(|s: Symbol| s.module() != home),
{
    let mut foreign: Vec<Symbol> = Vec::new();
    let mut i: usize = 0;
    while i < references.len()
        invariant
            i <= references@.len(),
            foreign@ == references@.subrange(0, i as int).filter(|s: Symbol| s.module() != home),
        decreases references@.len() - i,
    {
        let symbol = references[i];
        proof {
            let keep = |s: Symbol| s.module() != home;
            let head = references@.subrange(0, i as int);
            assert(references@.subrange(0, i + 1) =~= head.push(symbol));
            lemma_filter_push(head, symbol, keep);
        }
        // We have constraints for our own symbols already.
        if symbol.module_id() != home {
            foreign.push(symbol);
        }
        i = i + 1;
    }
    proof {
        assert(references@.subrange(0, references@.len() as int) =~= references@);
    }
    foreign
}

/// Filtering a sequence with one more element at its end.
pub(crate) proof fn lemma_filter_push<T>(s: Seq<T>, x: T, keep: spec_fn(T) -> bool)
    ensures
        s.push(x).filter(keep) == if keep(x) {
            s.filter(keep).push(x)
        } else {
            s.filter(keep)
        },
{
    reveal(Seq::filter);
    assert(s.push(x).drop_last() =~= s);
    assert(s.push(x).last() == x);
}

/// Every module whose types a module needs is one that it waited for: if
/// the types of all the imports of the module are published, and every
/// foreign symbol it refers to belongs to an import, then the types of the
/// module of every such symbol are published.
pub proof fn lemma_foreign_types_published(
    t: crate::load_model::Table,
    home: ModuleId,
    references: Seq<Symbol>,
    s: Symbol,
)
    requires
        crate::load_model::deps_have_types(t, home),
        forall|k: int|
            0 <= k < references.len() && references[k].module() != home ==> #[trigger] t[home].deps.contains(
                references[k].module(),
            ),
        references.filter(|s: Symbol| s.module() != home).contains(s),
    ensures
        t[s.module()].types_exposed,
{
    let keep = |s: Symbol| s.module() != home;
    references.lemma_filter_contains_rev(keep, s);
    let k = choose|k: int| 0 <= k < references.len() && references[k] == s;
    assert(t[home].deps.contains(references[k].module()));
}

pub const MODULE_SEPARATOR: u8 = 46;

/// The parts of a module's name, which are what stands between its dots:
/// `Foo.Bar.Baz` has the parts `Foo`, `Bar` and `Baz`. Joined by dots they
/// give the name back, and none of them holds a dot.
pub open spec fn name_parts(name: Seq<u8>) -> Seq<Seq<u8>>
    decreases name.len(),
{
    if name.len() == 0 {
        seq![Seq::empty()]
    } else {
        let init = name_parts(name.drop_last());
        if name.last() == MODULE_SEPARATOR {
            init.push(Seq::empty())
        } else {
            init.drop_last().push(init.last().push(name.last()))
        }
    }
}

/// The parts of a module's name. The file of the module `Foo.Bar.Baz` is
/// found by going from the source directory into `Foo`, then into `Bar`,
/// to the file `Baz` with the extension of source files.
pub fn module_name_parts(name: &[u8]) -> (parts: Vec<Vec<u8>>)
    ensures
        names_of(parts@) == name_parts(name@),
{
    let mut parts: Vec<Vec<u8>> = Vec::new();
    let mut current: Vec<u8> = Vec::new();
    let mut i: usize = 0;
    proof {
        assert(name@.subrange(0, 0) =~= Seq::empty());
        assert(names_of(parts@).push(current@) =~= seq![Seq::<u8>::empty()]);
    }
    while i < name.len()
        invariant
            i <= name@.len(),
            names_of(parts@).push(current@) == name_parts(name@.subrange(0, i as int)),
        decreases name@.len() - i,
    {
        let b: u8 = name[i];
        let ghost before_parts = names_of(parts@);
        let ghost before_current = current@;
        proof {
            let next = name@.subrange(0, i + 1);
            assert(next.drop_last() =~= name@.subrange(0, i as int));
            assert(next.last() == b);
            assert(before_parts.push(before_current).last() == before_current);
            assert(before_parts.push(before_current).drop_last() =~= before_parts);
        }
        if b == MODULE_SEPARATOR {
            parts.push(current);
            current = Vec::new();
            proof {
                assert(names_of(parts@) =~= before_parts.push(before_current));
            }
        } else {
            current.push(b);
        }
        i = i + 1;
    }
    proof {
        assert(name@.subrange(0, name@.len() as int) =~= name@);
    }
    let ghost before = names_of(parts@);
    let ghost last = current@;
    parts.push(current);
    proof {
        assert(names_of(parts@) =~= before.push(last));
    }
    parts
}

} // verus!
