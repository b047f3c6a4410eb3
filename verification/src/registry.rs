//! Interned module names and identifiers, and the symbols made of them.

use vstd::prelude::*;

verus! {

/// The dense number a module name was interned under.
#[derive(Clone, Copy, Debug, PartialEq, Eq, Hash, Structural)]
pub struct ModuleId(pub u32);

/// The dense number an identifier was interned under, within one module.
#[derive(Clone, Copy, Debug, PartialEq, Eq, Hash, Structural)]
pub struct IdentId(pub u32);

/// A module id and an identifier id packed into one number, which names a
/// definition uniquely across a whole program.
#[derive(Clone, Copy, Debug, PartialEq, Eq, Hash, Structural)]
pub struct Symbol(pub u64);

impl Symbol {
    /// The packing: the module id in the upper half, the identifier id in
    /// the lower half.
    pub open spec fn pack(module_id: ModuleId, ident_id: IdentId) -> Symbol {
        Symbol((module_id.0 as int * 0x1_0000_0000 + ident_id.0 as int) as u64)
    }

    pub open spec fn module(self) -> ModuleId {
        ModuleId((self.0 as int / 0x1_0000_0000) as u32)
    }

    pub open spec fn ident(self) -> IdentId {
        IdentId((self.0 as int % 0x1_0000_0000) as u32)
    }

    pub fn new(module_id: ModuleId, ident_id: IdentId) -> (s: Symbol)
        ensures
            s == Symbol::pack(module_id, ident_id),
            s.module() == module_id,
            s.ident() == ident_id,
    {
        let high: u64 = module_id.0 as u64;
        let low: u64 = ident_id.0 as u64;
        Symbol(high * 0x1_0000_0000 + low)
    }

    pub fn module_id(&self) -> (m: ModuleId)
        ensures
            m == self.module(),
    {
        ModuleId((self.0 / 0x1_0000_0000) as u32)
    }

    pub fn ident_id(&self) -> (i: IdentId)
        ensures
            i == self.ident(),
    {
        IdentId((self.0 % 0x1_0000_0000) as u32)
    }
}

/// Packing is injective, and unpacking undoes it: two symbols are equal
/// exactly when they were made of the same module and identifier.
pub proof fn lemma_symbol_unique(m1: ModuleId, i1: IdentId, m2: ModuleId, i2: IdentId)
    ensures
        Symbol::pack(m1, i1).module() == m1,
        Symbol::pack(m1, i1).ident() == i1,
        Symbol::pack(m1, i1) == Symbol::pack(m2, i2) <==> m1 == m2 && i1 == i2,
{
}

/// Every symbol is the packing of its own two halves.
pub proof fn lemma_symbol_repack(s: Symbol)
    ensures
        Symbol::pack(s.module(), s.ident()) == s,
{
}

/// Whether two byte strings hold the same bytes.
pub fn bytes_eq(a: &[u8], b: &[u8]) -> (same: bool)
    ensures
        same == (a@ == b@),
{
    if a.len() != b.len() {
        return false;
    }
    let mut i: usize = 0;
    while i < a.len()
        invariant
            a@.len() == b@.len(),
            i <= a@.len(),
            forall|k: int| 0 <= k < i ==> a@[k] == b@[k],
        decreases a@.len() - i,
    {
        if a[i] != b[i] {
            return false;
        }
        i = i + 1;
    }
    assert(a@ =~= b@);
    true
}

/// An owned copy of a byte string.
pub fn bytes_to_vec(a: &[u8]) -> (v: Vec<u8>)
    ensures
        v@ == a@,
{
    let mut v: Vec<u8> = Vec::new();
    let mut i: usize = 0;
    while i < a.len()
        invariant
            i <= a@.len(),
            v@ == a@.subrange(0, i as int),
        decreases a@.len() - i,
    {
        v.push(a[i]);
        assert(v@ =~= a@.subrange(0, i + 1));
        i = i + 1;
    }
    assert(a@.subrange(0, a@.len() as int) =~= a@);
    v
}

/// The names held by a table, in the order of their ids.
pub open spec fn names_of(table: Seq<Vec<u8>>) -> Seq<Seq<u8>> {
    table.map_values(|name: Vec<u8>| name@)
}

/// The position of the first entry of `table` that equals `name`.
fn find_first(table: &Vec<Vec<u8>>, name: &[u8]) -> (found: Option<usize>)
    ensures
        match found {
            Some(i) => i < table@.len() && names_of(table@)[i as int] == name@ && !names_of(
                table@,
            ).subrange(0, i as int).contains(name@),
            None => !names_of(table@).contains(name@),
        },
{
    let mut i: usize = 0;
    while i < table.len()
        invariant
            i <= table@.len(),
            forall|k: int| 0 <= k < i ==> names_of(table@)[k] != name@,
        decreases table@.len() - i,
    {
        if bytes_eq(table[i].as_slice(), name) {
            return Some(i);
        }
        i = i + 1;
    }
    None
}

/// The position of the last entry of `table` that equals `name`.
fn find_last(table: &Vec<Vec<u8>>, name: &[u8]) -> (found: Option<usize>)
    ensures
        match found {
            Some(i) => i < table@.len() && names_of(table@)[i as int] == name@ && forall|k: int|
                i < k < table@.len() ==> names_of(table@)[k] != name@,
            None => !names_of(table@).contains(name@),
        },
{
    let mut i: usize = table.len();
    while i > 0
        invariant
            i <= table@.len(),
            forall|k: int| i <= k < table@.len() ==> names_of(table@)[k] != name@,
        decreases i,
    {
        i = i - 1;
        if bytes_eq(table[i].as_slice(), name) {
            return Some(i);
        }
    }
    None
}

/// The interning table of module names. A name keeps the id it was first
/// given for as long as the table lives.
#[derive(Debug)]
pub struct ModuleIds {
    pub by_id: Vec<Vec<u8>>,
}

impl ModuleIds {
    /// The interned names; the name at index `i` has id `i`.
    pub open spec fn names(&self) -> Seq<Seq<u8>> {
        names_of(self.by_id@)
    }

    /// No name is held twice, and every index fits an id.
    pub open spec fn wf(&self) -> bool {
        &&& self.names().no_duplicates()
        &&& self.names().len() <= u32::MAX
    }

    /// The id of `name` in this table, where it has one.
    pub open spec fn id_of(&self, name: Seq<u8>) -> Option<ModuleId> {
        if self.names().contains(name) {
            Some(ModuleId(self.names().index_of(name) as u32))
        } else {
            None
        }
    }

    pub fn new() -> (ids: ModuleIds)
        ensures
            ids.wf(),
            ids.names().len() == 0,
    {
        ModuleIds { by_id: Vec::new() }
    }

    pub fn len(&self) -> (n: usize)
        ensures
            n == self.names().len(),
    {
        self.by_id.len()
    }

    /// The id of `name`, interning it first if it is new. Ids already given
    /// out stay as they are. `None` when the name is new and the table has
    /// no id left to give.
    pub fn get_or_insert(&mut self, name: &[u8]) -> (id: Option<ModuleId>)
        requires
            old(self).wf(),
        ensures
            final(self).wf(),
            old(self).names().contains(name@) ==> final(self).names() == old(self).names() && id
                == old(self).id_of(name@),
            !old(self).names().contains(name@) && old(self).names().len() < u32::MAX ==> final(self).names() == old(self).names().push(name@) && id == Some(
                ModuleId(old(self).names().len() as u32),
            ),
            !old(self).names().contains(name@) && old(self).names().len() >= u32::MAX ==> final(self).names() == old(self).names() && id.is_none(),
            id == final(self).id_of(name@),
    {
        match find_first(&self.by_id, name) {
            Some(i) => {
                proof {
                    let names = self.names();
                    let j = names.index_of(name@);
                    assert(names[i as int] == name@);
                    assert(names.contains(name@));
                    assert(names[j] == name@);
                }
                Some(ModuleId(i as u32))
            },
            None => {
                let n: usize = self.by_id.len();
                if n >= u32::MAX as usize {
                    return None;
                }
                let ghost before = self.names();
                self.by_id.push(bytes_to_vec(name));
                proof {
                    let names = self.names();
                    assert(names =~= before.push(name@));
                    assert(names[n as int] == name@);
                    assert(names.contains(name@));
                    let j = names.index_of(name@);
                    assert(names[j] == name@);
                    assert(j == n) by {
                        if j != n {
                            assert(before[j] == name@);
                        }
                    }
                }
                Some(ModuleId(n as u32))
            },
        }
    }

    /// The id of `name`, if it has been interned.
    pub fn get_id(&self, name: &[u8]) -> (id: Option<ModuleId>)
        requires
            self.wf(),
        ensures
            id == self.id_of(name@),
    {
        match find_first(&self.by_id, name) {
            Some(i) => {
                proof {
                    let names = self.names();
                    assert(names[i as int] == name@);
                    let j = names.index_of(name@);
                    assert(names[j] == name@);
                }
                Some(ModuleId(i as u32))
            },
            None => None,
        }
    }

    /// The name that was interned under `id`.
    pub fn get_name(&self, id: ModuleId) -> (name: Option<&Vec<u8>>)
        ensures
            match name {
                Some(n) => id.0 < self.names().len() && n@ == self.names()[id.0 as int],
                None => id.0 >= self.names().len(),
            },
    {
        if (id.0 as usize) < self.by_id.len() {
            Some(&self.by_id[id.0 as usize])
        } else {
            None
        }
    }
}

/// An id once given is never given to another name, nor a name a second
/// id: interning further names leaves every earlier id of the table
/// pointing at the same name.
pub proof fn lemma_module_ids_stable(before: ModuleIds, after: ModuleIds, name: Seq<u8>)
    requires
        before.wf(),
        after.wf(),
        before.names().len() <= after.names().len(),
        after.names().subrange(0, before.names().len() as int) == before.names(),
        before.names().contains(name),
    ensures
        after.id_of(name) == before.id_of(name),
{
    let i = before.names().index_of(name);
    assert(after.names().subrange(0, before.names().len() as int)[i] == after.names()[i]);
    assert(after.names().contains(name));
    let j = after.names().index_of(name);
    assert(after.names()[j] == name);
}

/// The identifiers interned for one module. Unlike module names, an
/// identifier may be added more than once; a lookup finds the latest.
#[derive(Debug)]
pub struct IdentIds {
    pub by_id: Vec<Vec<u8>>,
}

impl IdentIds {
    pub open spec fn names(&self) -> Seq<Seq<u8>> {
        names_of(self.by_id@)
    }

    /// Every index fits an id.
    pub open spec fn wf(&self) -> bool {
        self.names().len() <= u32::MAX
    }

    pub fn new() -> (ids: IdentIds)
        ensures
            ids.wf(),
            ids.names().len() == 0,
    {
        IdentIds { by_id: Vec::new() }
    }

    pub fn len(&self) -> (n: usize)
        ensures
            n == self.names().len(),
    {
        self.by_id.len()
    }

    /// Interns `name` under the next free id, whether or not it is already
    /// held. `None`, and nothing added, when no id is left.
    pub fn add(&mut self, name: &[u8]) -> (id: Option<IdentId>)
        ensures
            old(self).wf() ==> final(self).wf(),
            old(self).names().len() < u32::MAX ==> final(self).names() == old(self).names().push(
                name@,
            ) && id == Some(IdentId(old(self).names().len() as u32)),
            old(self).names().len() >= u32::MAX ==> final(self).names() == old(self).names()
                && id.is_none(),
    {
        let n: usize = self.by_id.len();
        if n >= u32::MAX as usize {
            return None;
        }
        let ghost before = self.names();
        self.by_id.push(bytes_to_vec(name));
        assert(self.names() =~= before.push(name@));
        Some(IdentId(n as u32))
    }

    /// The latest id that `name` was added under.
    pub fn get_id(&self, name: &[u8]) -> (id: Option<IdentId>)
        requires
            self.wf(),
        ensures
            match id {
                Some(i) => i.0 < self.names().len() && self.names()[i.0 as int] == name@
                    && forall|k: int| i.0 < k < self.names().len() ==> self.names()[k] != name@,
                None => !self.names().contains(name@),
            },
    {
        match find_last(&self.by_id, name) {
            Some(i) => Some(IdentId(i as u32)),
            None => None,
        }
    }

    /// The name that was interned under `id`.
    pub fn get_name(&self, id: IdentId) -> (name: Option<&Vec<u8>>)
        ensures
            match name {
                Some(n) => id.0 < self.names().len() && n@ == self.names()[id.0 as int],
                None => id.0 >= self.names().len(),
            },
    {
        if (id.0 as usize) < self.by_id.len() {
            Some(&self.by_id[id.0 as usize])
        } else {
            None
        }
    }
}

} // verus!
