//! The orchestrator's table of modules, and the steps it takes when a
//! header, a constrained module or a solved module arrives. Each step
//! updates the table and returns what has to be done next; doing it
//! (reading files, running workers, sending messages) is left to the
//! caller.

use vstd::prelude::*;
use crate::load_model::{
    blank, constrained_action, constrained_record, constrained_step, deps_have_idents,
    deps_have_types, expects_header, header_action, header_record, header_step, is_void,
    lacking_idents, lacking_types, lemma_constrained_keeps_inv, lemma_header_keeps_inv,
    lemma_solved_keeps_inv, solved_action, solved_record, solved_step, table_inv, Action,
    ModuleModel, Phase, Table,
};
use crate::registry::{ModuleId, Symbol};

verus! {

/// The set of the ids that a sequence holds.
pub open spec fn ids(v: Seq<ModuleId>) -> Set<ModuleId> {
    Set::new(|m: ModuleId| v.contains(m))
}

/// Whether `m` is among `v`.
pub fn contains_id(v: &Vec<ModuleId>, m: ModuleId) -> (found: bool)
    ensures
        found == ids(v@).contains(m),
{
    let mut i: usize = 0;
    while i < v.len()
        invariant
            i <= v@.len(),
            forall|k: int| 0 <= k < i ==> v@[k] != m,
        decreases v@.len() - i,
    {
        if v[i] == m {
            return true;
        }
        i = i + 1;
    }
    false
}

/// A copy of `v`.
pub fn copy_ids(v: &Vec<ModuleId>) -> (r: Vec<ModuleId>)
    ensures
        r@ == v@,
{
    let mut r: Vec<ModuleId> = Vec::new();
    let mut i: usize = 0;
    while i < v.len()
        invariant
            i <= v@.len(),
            r@ == v@.subrange(0, i as int),
        decreases v@.len() - i,
    {
        r.push(v[i]);
        assert(r@ =~= v@.subrange(0, i + 1));
        i = i + 1;
    }
    assert(v@.subrange(0, v@.len() as int) =~= v@);
    r
}

/// The members of `v` other than `m`, in their order.
pub fn without_id(v: &Vec<ModuleId>, m: ModuleId) -> (r: Vec<ModuleId>)
    ensures
        r@ == v@.filter(|x: ModuleId| x != m),
        ids(r@) == ids(v@).remove(m),
{
    let mut r: Vec<ModuleId> = Vec::new();
    let mut i: usize = 0;
    proof {
        reveal(Seq::filter);
        assert(v@.subrange(0, 0) =~= Seq::<ModuleId>::empty());
        assert(Seq::<ModuleId>::empty().filter(|x: ModuleId| x != m) =~= Seq::<ModuleId>::empty());
    }
    while i < v.len()
        invariant
            i <= v@.len(),
            r@ == v@.subrange(0, i as int).filter(|x: ModuleId| x != m),
            forall|x: ModuleId| r@.contains(x) <==> x != m && v@.subrange(0, i as int).contains(x),
        decreases v@.len() - i,
    {
        let ghost before = r@;
        let x0 = v[i];
        if x0 != m {
            r.push(x0);
        }
        proof {
            lemma_filter_step(v@, i as int, before, r@, x0 != m, |x: ModuleId| x != m);
            assert(v@.subrange(0, i + 1) =~= v@.subrange(0, i as int).push(x0));
            crate::header::lemma_filter_push(
                v@.subrange(0, i as int),
                x0,
                |x: ModuleId| x != m,
            );
        }
        i = i + 1;
    }
    proof {
        assert(v@.subrange(0, v@.len() as int) =~= v@);
        assert(ids(r@) =~= ids(v@).remove(m));
    }
    r
}

/// What the table holds of one module.
#[derive(Debug)]
pub struct ModuleRecord {
    pub loading_started: bool,
    pub idents_exposed: bool,
    pub types_exposed: bool,
    pub phase: Phase,
    pub deps: Vec<ModuleId>,
    pub awaits_headers: Vec<ModuleId>,
    pub awaits_solves: Vec<ModuleId>,
}

impl ModuleRecord {
    pub open spec fn view(&self) -> ModuleModel {
        ModuleModel {
            loading_started: self.loading_started,
            idents_exposed: self.idents_exposed,
            types_exposed: self.types_exposed,
            phase: self.phase,
            deps: ids(self.deps@),
            awaits_headers: ids(self.awaits_headers@),
            awaits_solves: ids(self.awaits_solves@),
        }
    }

    /// The record of a module nothing is known of.
    pub fn unseen() -> (r: ModuleRecord)
        ensures
            r@ == blank(),
            r.deps@.len() == 0,
    {
        let r = ModuleRecord {
            loading_started: false,
            idents_exposed: false,
            types_exposed: false,
            phase: Phase::Unseen,
            deps: Vec::new(),
            awaits_headers: Vec::new(),
            awaits_solves: Vec::new(),
        };
        proof {
            assert(r@.deps =~= Set::empty());
            assert(r@.awaits_headers =~= Set::empty());
            assert(r@.awaits_solves =~= Set::empty());
        }
        r
    }
}

/// A sequence holds no id exactly when it is empty.
pub proof fn lemma_void_is_empty(v: Seq<ModuleId>)
    ensures
        is_void(ids(v)) <==> v.len() == 0,
{
    if v.len() > 0 {
        assert(v.contains(v[0]));
        assert(ids(v).contains(v[0]));
    }
}

/// The orchestrator's state: which module is the root, whether the session
/// has ended, and the table of modules, indexed by module id.
#[derive(Debug)]
pub struct LoadState {
    pub root: ModuleId,
    pub finished: bool,
    pub records: Vec<ModuleRecord>,
}

impl LoadState {
    /// The table: the record of each module that has one, and a blank
    /// entry for every other id.
    pub open spec fn view(&self) -> Table {
        Map::total(
            |m: ModuleId|
                if m.0 < self.records@.len() {
                    self.records@[m.0 as int]@
                } else {
                    blank()
                },
        )
    }

    /// The table's invariant holds, the solved modules but the root have
    /// their types published, and every record's index is an id.
    pub open spec fn wf(&self) -> bool {
        &&& table_inv(self@)
        &&& crate::load_model::solved_are_published(self@, self.root)
        &&& self.records@.len() <= 0x1_0000_0000
    }

    /// The imports of `m` in the order in which its header gave them;
    /// none as long as its header is not in.
    pub open spec fn imports_of(&self, m: ModuleId) -> Seq<ModuleId> {
        if m.0 < self.records@.len() {
            self.records@[m.0 as int].deps@
        } else {
            Seq::empty()
        }
    }

    /// Extends the table with blank records until it has one for `m`.
    fn cover(&mut self, m: ModuleId)
        requires
            old(self).records@.len() <= 0x1_0000_0000,
        ensures
            final(self)@ == old(self)@,
            final(self).root == old(self).root,
            final(self).finished == old(self).finished,
            final(self).records@.len() <= 0x1_0000_0000,
            final(self).records@.len() >= old(self).records@.len(),
            final(self).records@.len() > m.0,
            forall|k: int| 0 <= k < old(self).records@.len() ==> final(self).records@[k] == old(self).records@[k],
            forall|j: ModuleId| #[trigger] final(self).imports_of(j) =~= old(self).imports_of(j),
    {
        let ghost pre = self@;
        let ghost first = self.records@;
        while self.records.len() as u64 <= m.0 as u64
            invariant
                self@ =~= pre,
                self.root == old(self).root,
                self.finished == old(self).finished,
                self.records@.len() <= 0x1_0000_0000,
                self.records@.len() >= first.len(),
                forall|k: int| 0 <= k < first.len() ==> self.records@[k] == first[k],
                forall|k: int|
                    first.len() <= k < self.records@.len() ==> (#[trigger] self.records@[k]).deps@.len()
                        == 0,
            decreases 0x1_0000_0000 - self.records@.len(),
        {
            self.records.push(ModuleRecord::unseen());
        }
    }

    /// Extends the table until it has a record for every member of `v`.
    fn cover_all(&mut self, v: &Vec<ModuleId>)
        requires
            old(self).records@.len() <= 0x1_0000_0000,
        ensures
            final(self)@ == old(self)@,
            final(self).root == old(self).root,
            final(self).finished == old(self).finished,
            final(self).records@.len() <= 0x1_0000_0000,
            final(self).records@.len() >= old(self).records@.len(),
            forall|d: ModuleId| ids(v@).contains(d) ==> d.0 < final(self).records@.len(),
            forall|j: ModuleId| #[trigger] final(self).imports_of(j) =~= old(self).imports_of(j),
    {
        let mut i: usize = 0;
        while i < v.len()
            invariant
                i <= v@.len(),
                forall|j: ModuleId| #[trigger] self.imports_of(j) =~= old(self).imports_of(j),
                self@ == old(self)@,
                self.root == old(self).root,
                self.finished == old(self).finished,
                self.records@.len() <= 0x1_0000_0000,
                self.records@.len() >= old(self).records@.len(),
                forall|k: int| 0 <= k < i ==> v@[k].0 < self.records@.len(),
            decreases v@.len() - i,
        {
            self.cover(v[i]);
            i = i + 1;
        }
    }

    /// A table in which only `root` has been asked to load, the members of
    /// `idents_ready` have their identifiers published, and the members of
    /// `types_ready` their types.
    pub fn new(root: ModuleId, idents_ready: &Vec<ModuleId>, types_ready: &Vec<ModuleId>) -> (s: LoadState)
        ensures
            s.wf(),
            s.root == root,
            !s.finished,
            forall|m: ModuleId| #[trigger]
                s@[m] == (ModuleModel {
                    loading_started: m == root,
                    idents_exposed: ids(idents_ready@).contains(m),
                    types_exposed: ids(types_ready@).contains(m),
                    ..blank()
                }),
            forall|m: ModuleId| #[trigger] s.imports_of(m).len() == 0,
    {
        let mut sized = LoadState { root, finished: false, records: Vec::new() };
        sized.cover(root);
        sized.cover_all(idents_ready);
        sized.cover_all(types_ready);
        let n: usize = sized.records.len();
        let mut records: Vec<ModuleRecord> = Vec::new();
        let mut i: usize = 0;
        while i < n
            invariant
                i <= n,
                n <= 0x1_0000_0000,
                records@.len() == i,
                forall|k: int| 0 <= k < i ==> (#[trigger] records@[k]).deps@.len() == 0,
                forall|k: int|
                    0 <= k < i ==> #[trigger] records@[k]@ == (ModuleModel {
                        loading_started: k == root.0,
                        idents_exposed: ids(idents_ready@).contains(ModuleId(k as u32)),
                        types_exposed: ids(types_ready@).contains(ModuleId(k as u32)),
                        ..blank()
                    }),
            decreases n - i,
        {
            let id = ModuleId(i as u32);
            let mut record = ModuleRecord::unseen();
            record.loading_started = i == root.0 as usize;
            record.idents_exposed = contains_id(idents_ready, id);
            record.types_exposed = contains_id(types_ready, id);
            records.push(record);
            i = i + 1;
        }
        let s = LoadState { root, finished: false, records };
        proof {
            assert forall|m: ModuleId| #[trigger]
                s@[m] == (ModuleModel {
                    loading_started: m == root,
                    idents_exposed: ids(idents_ready@).contains(m),
                    types_exposed: ids(types_ready@).contains(m),
                    ..blank()
                }) by {
                if m.0 < n {
                    assert(s@[m] == s.records@[m.0 as int]@);
                    assert(ModuleId(m.0 as int as u32) == m);
                }
            }
            assert(s@.dom() =~= Set::full());
            assert forall|m: ModuleId| crate::load_model::module_inv(s@, m) by {
                assert(s@[m].phase is Unseen);
            }
        }
        s
    }

    /// The number of modules the table has a record for.
    pub fn len(&self) -> (n: usize)
        ensures
            n == self.records@.len(),
    {
        self.records.len()
    }

    pub fn phase_of(&self, m: ModuleId) -> (p: Phase)
        ensures
            p == self@[m].phase,
    {
        if (m.0 as usize) < self.records.len() {
            self.records[m.0 as usize].phase
        } else {
            Phase::Unseen
        }
    }

    pub fn loading_started(&self, m: ModuleId) -> (b: bool)
        ensures
            b == self@[m].loading_started,
    {
        (m.0 as usize) < self.records.len() && self.records[m.0 as usize].loading_started
    }

    pub fn idents_exposed(&self, m: ModuleId) -> (b: bool)
        ensures
            b == self@[m].idents_exposed,
    {
        (m.0 as usize) < self.records.len() && self.records[m.0 as usize].idents_exposed
    }

    pub fn types_exposed(&self, m: ModuleId) -> (b: bool)
        ensures
            b == self@[m].types_exposed,
    {
        (m.0 as usize) < self.records.len() && self.records[m.0 as usize].types_exposed
    }

    /// Whether the header of `m` may arrive now.
    pub fn accepts_header(&self, m: ModuleId) -> (b: bool)
        ensures
            b == (!self.finished && expects_header(self@, m)),
    {
        !self.finished && self.loading_started(m) && matches!(self.phase_of(m), Phase::Unseen)
    }

    /// Whether the constrained module `m` may arrive now.
    pub fn accepts_constrained(&self, m: ModuleId) -> (b: bool)
        ensures
            b == (!self.finished && self@[m].phase is Constraining),
    {
        !self.finished && matches!(self.phase_of(m), Phase::Constraining)
    }

    /// Whether the solved module `m` may arrive now.
    pub fn accepts_solved(&self, m: ModuleId) -> (b: bool)
        ensures
            b == (!self.finished && self@[m].phase is Solving),
    {
        !self.finished && matches!(self.phase_of(m), Phase::Solving)
    }

    /// The imports of `m`, as its header gave them.
    pub fn deps_of(&self, m: ModuleId) -> (deps: Vec<ModuleId>)
        ensures
            deps@ == self.imports_of(m),
            ids(deps@) == self@[m].deps,
    {
        if (m.0 as usize) < self.records.len() {
            copy_ids(&self.records[m.0 as usize].deps)
        } else {
            let deps: Vec<ModuleId> = Vec::new();
            assert(ids(deps@) =~= Set::empty());
            deps
        }
    }

    /// The members of `deps` whose identifiers are not published.
    fn without_idents(&self, deps: &Vec<ModuleId>) -> (r: Vec<ModuleId>)
        ensures
            ids(r@) == lacking_idents(self@, ids(deps@)),
    {
        let mut r: Vec<ModuleId> = Vec::new();
        let mut i: usize = 0;
        while i < deps.len()
            invariant
                i <= deps@.len(),
                forall|x: ModuleId|
                    r@.contains(x) <==> !self@[x].idents_exposed && deps@.subrange(0, i as int).contains(x),
            decreases deps@.len() - i,
        {
            let ghost before = r@;
            let x0 = deps[i];
            let keep = !self.idents_exposed(x0);
            if keep {
                r.push(x0);
            }
            proof {
                lemma_filter_step(deps@, i as int, before, r@, keep, |x: ModuleId| !self@[x].idents_exposed);
            }
            i = i + 1;
        }
        proof {
            assert(deps@.subrange(0, deps@.len() as int) =~= deps@);
            assert(ids(r@) =~= lacking_idents(self@, ids(deps@)));
        }
        r
    }

    /// The members of `deps` whose types are not published.
    fn without_types(&self, deps: &Vec<ModuleId>) -> (r: Vec<ModuleId>)
        ensures
            ids(r@) == lacking_types(self@, ids(deps@)),
    {
        let mut r: Vec<ModuleId> = Vec::new();
        let mut i: usize = 0;
        while i < deps.len()
            invariant
                i <= deps@.len(),
                forall|x: ModuleId|
                    r@.contains(x) <==> !self@[x].types_exposed && deps@.subrange(0, i as int).contains(x),
            decreases deps@.len() - i,
        {
            let ghost before = r@;
            let x0 = deps[i];
            let keep = !self.types_exposed(x0);
            if keep {
                r.push(x0);
            }
            proof {
                lemma_filter_step(deps@, i as int, before, r@, keep, |x: ModuleId| !self@[x].types_exposed);
            }
            i = i + 1;
        }
        proof {
            assert(deps@.subrange(0, deps@.len() as int) =~= deps@);
            assert(ids(r@) =~= lacking_types(self@, ids(deps@)));
        }
        r
    }
}

impl LoadState {
    /// What the arrival of the header of `m` makes of the record at `i`,
    /// and the action it causes for that module.
    fn header_one(&self, i: usize, m: ModuleId, deps: &Vec<ModuleId>, needed: &Vec<ModuleId>) -> (out: (
        ModuleRecord,
        Option<Action>,
    ))
        requires
            i < self.records@.len() <= 0x1_0000_0000,
            ids(needed@) == lacking_idents(self@, ids(deps@)),
        ensures
            out.0@ == header_record(self@, ModuleId(i as u32), m, ids(deps@)),
            out.1 == header_action(self@, ModuleId(i as u32), m, ids(deps@)),
            out.0.deps@ == if ModuleId(i as u32) == m {
                deps@
            } else {
                self.records@[i as int].deps@
            },
    {
        let id = ModuleId(i as u32);
        let now = &self.records[i];
        let in_deps = contains_id(deps, id);
        let started = now.loading_started || in_deps;
        proof {
            assert(self@[id] == now@);
            lemma_void_is_empty(needed@);
        }
        let record = if id == m {
            if needed.len() == 0 {
                let r = ModuleRecord {
                    loading_started: started,
                    idents_exposed: true,
                    types_exposed: now.types_exposed,
                    phase: Phase::Constraining,
                    deps: copy_ids(deps),
                    awaits_headers: Vec::new(),
                    awaits_solves: self.without_types(deps),
                };
                assert(r@.awaits_headers =~= Set::empty());
                r
            } else {
                let r = ModuleRecord {
                    loading_started: started,
                    idents_exposed: true,
                    types_exposed: now.types_exposed,
                    phase: Phase::AwaitingHeaders,
                    deps: copy_ids(deps),
                    awaits_headers: copy_ids(needed),
                    awaits_solves: copy_ids(&now.awaits_solves),
                };
                r
            }
        } else if matches!(now.phase, Phase::AwaitingHeaders) && contains_id(&now.awaits_headers, m) {
            let rest = without_id(&now.awaits_headers, m);
            proof {
                lemma_void_is_empty(rest@);
            }
            if rest.len() == 0 {
                let r = ModuleRecord {
                    loading_started: started,
                    idents_exposed: now.idents_exposed,
                    types_exposed: now.types_exposed,
                    phase: Phase::Constraining,
                    deps: copy_ids(&now.deps),
                    awaits_headers: Vec::new(),
                    awaits_solves: self.without_types(&now.deps),
                };
                assert(r@.awaits_headers =~= Set::empty());
                r
            } else {
                ModuleRecord {
                    loading_started: started,
                    idents_exposed: now.idents_exposed,
                    types_exposed: now.types_exposed,
                    phase: now.phase,
                    deps: copy_ids(&now.deps),
                    awaits_headers: rest,
                    awaits_solves: copy_ids(&now.awaits_solves),
                }
            }
        } else {
            ModuleRecord {
                loading_started: started,
                idents_exposed: now.idents_exposed,
                types_exposed: now.types_exposed,
                phase: now.phase,
                deps: copy_ids(&now.deps),
                awaits_headers: copy_ids(&now.awaits_headers),
                awaits_solves: copy_ids(&now.awaits_solves),
            }
        };
        let action = if matches!(record.phase, Phase::Constraining) && !matches!(
            now.phase,
            Phase::Constraining
        ) {
            Some(Action::ParseAndConstrain(id))
        } else if in_deps && !now.loading_started {
            Some(Action::Load(id))
        } else {
            None
        };
        (record, action)
    }

    /// The header of module `m` has arrived, and `deps` are the modules it
    /// imports. Publishes the identifiers of `m`; hands every module that
    /// waited for this header alone to the worker that parses and
    /// constrains; asks for the load of each import that no load was asked
    /// for yet; and hands `m` itself on if the headers of all its imports
    /// are in, or else parks it until they are.
    ///
    /// The actions come in the order of the module ids they are about.
    pub fn on_header(&mut self, m: ModuleId, deps: &Vec<ModuleId>) -> (actions: Vec<Action>)
        requires
            old(self).wf(),
            expects_header(old(self)@, m),
        ensures
            final(self).wf(),
            final(self).root == old(self).root,
            final(self).finished == old(self).finished,
            final(self)@ == header_step(old(self)@, m, ids(deps@)),
            forall|a: Action|
                actions@.contains(a) <==> header_action(old(self)@, a.module(), m, ids(deps@))
                    == Some(a),
            actions@.no_duplicates(),
            in_order_of_ids(actions@),
            forall|j: ModuleId| #[trigger]
                final(self).imports_of(j) =~= if j == m {
                    deps@
                } else {
                    old(self).imports_of(j)
                },
            forall|i: ModuleId|
                actions@.contains(Action::ParseAndConstrain(i)) ==> deps_have_idents(
                    final(self)@,
                    i,
                ),
    {
        let ghost pre = self@;
        let ghost d = ids(deps@);
        self.cover(m);
        self.cover_all(deps);
        let needed = self.without_idents(deps);
        let n: usize = self.records.len();
        let ghost covered = *self;
        proof {
            assert forall|j: ModuleId| #[trigger]
                covered.imports_of(j) =~= old(self).imports_of(j) by {}
        }
        let mut records: Vec<ModuleRecord> = Vec::new();
        let mut actions: Vec<Action> = Vec::new();
        let mut i: usize = 0;
        while i < n
            invariant
                i <= n,
                n == self.records@.len(),
                self.records@ == covered.records@,
                n <= 0x1_0000_0000,
                self@ == pre,
                d == ids(deps@),
                ids(needed@) == lacking_idents(pre, d),
                records@.len() == i,
                forall|k: int|
                    0 <= k < i ==> (#[trigger] records@[k]).deps@ == if k == m.0 {
                        deps@
                    } else {
                        self.records@[k].deps@
                    },
                forall|k: int|
                    0 <= k < i ==> #[trigger] records@[k]@ == header_record(
                        pre,
                        ModuleId(k as u32),
                        m,
                        d,
                    ),
                forall|a: Action|
                    actions@.contains(a) <==> a.module().0 < i && header_action(
                        pre,
                        a.module(),
                        m,
                        d,
                    ) == Some(a),
                actions@.no_duplicates(),
                in_order_of_ids(actions@),
            decreases n - i,
        {
            let (record, action) = self.header_one(i, m, deps, &needed);
            records.push(record);
            let ghost before = actions@;
            match action {
                Some(a) => {
                    actions.push(a);
                },
                None => {},
            }
            proof {
                lemma_action_step(
                    before,
                    actions@,
                    i as int,
                    action,
                    |j: ModuleId| header_action(pre, j, m, d),
                );
            }
            i = i + 1;
        }
        self.records = records;
        proof {
            assert forall|j: ModuleId| #[trigger]
                self.imports_of(j) =~= if j == m {
                    deps@
                } else {
                    old(self).imports_of(j)
                } by {
                assert(covered.imports_of(j) =~= old(self).imports_of(j));
                if j.0 < n {
                    assert(self.records@[j.0 as int].deps@ == if j.0 as int == m.0 {
                        deps@
                    } else {
                        covered.records@[j.0 as int].deps@
                    });
                }
            }
            assert forall|j: ModuleId| #[trigger] self@[j] == header_record(pre, j, m, d) by {
                if j.0 < n {
                    assert(ModuleId(j.0 as int as u32) == j);
                } else {
                    assert(pre[j] == blank());
                    assert(!d.contains(j));
                }
            }
            assert(self@ =~= header_step(pre, m, d));
            lemma_header_keeps_inv(pre, m, d);
            crate::load_model::lemma_steps_keep_published(pre, self.root, m, d);
            assert forall|a: Action|
                actions@.contains(a) <==> header_action(pre, a.module(), m, d) == Some(a) by {
                let j = a.module();
                if j.0 >= n {
                    assert(pre[j] == blank());
                    assert(!d.contains(j));
                }
            }
            assert forall|j: ModuleId|
                actions@.contains(Action::ParseAndConstrain(j)) implies deps_have_idents(
                self@,
                j,
            ) by {
                assert(header_action(pre, j, m, d) == Some(Action::ParseAndConstrain(j)));
                assert(crate::load_model::module_inv(self@, j));
            }
        }
        actions
    }

    /// The worker that parses and constrains has handed back module `m`.
    /// Drops from what `m` waits for every import that has been solved in
    /// the meantime, and hands `m` to the solver if nothing is left, or else
    /// parks it.
    pub fn on_constrained(&mut self, m: ModuleId) -> (actions: Vec<Action>)
        requires
            old(self).wf(),
            old(self)@[m].phase is Constraining,
        ensures
            final(self).wf(),
            final(self).root == old(self).root,
            final(self).finished == old(self).finished,
            final(self)@ == constrained_step(old(self)@, m),
            actions@ == match constrained_action(old(self)@, m, m) {
                Some(a) => seq![a],
                None => Seq::empty(),
            },
            forall|j: ModuleId| #[trigger] final(self).imports_of(j) =~= old(self).imports_of(j),
            forall|i: ModuleId|
                actions@.contains(Action::Solve(i)) ==> deps_have_types(final(self)@, i),
    {
        let ghost pre = self@;
        let at: usize = m.0 as usize;
        let now = &self.records[at];
        proof {
            assert(pre[m] == now@);
        }
        let rest = self.without_types(&now.awaits_solves);
        proof {
            lemma_void_is_empty(rest@);
        }
        let mut actions: Vec<Action> = Vec::new();
        let record = if rest.len() == 0 {
            actions.push(Action::Solve(m));
            let r = ModuleRecord {
                loading_started: now.loading_started,
                idents_exposed: now.idents_exposed,
                types_exposed: now.types_exposed,
                phase: Phase::Solving,
                deps: copy_ids(&now.deps),
                awaits_headers: copy_ids(&now.awaits_headers),
                awaits_solves: Vec::new(),
            };
            assert(r@.awaits_solves =~= Set::empty());
            r
        } else {
            ModuleRecord {
                loading_started: now.loading_started,
                idents_exposed: now.idents_exposed,
                types_exposed: now.types_exposed,
                phase: Phase::AwaitingSolves,
                deps: copy_ids(&now.deps),
                awaits_headers: copy_ids(&now.awaits_headers),
                awaits_solves: rest,
            }
        };
        assert(record@ == constrained_record(pre, m, m));
        self.records.set(at, record);
        proof {
            assert forall|j: ModuleId| #[trigger] self@[j] == constrained_record(pre, j, m) by {
                if j.0 < self.records@.len() && j != m {
                    assert(self.records@[j.0 as int] == old(self).records@[j.0 as int]);
                }
            }
            assert(self@ =~= constrained_step(pre, m));
            lemma_constrained_keeps_inv(pre, m);
            crate::load_model::lemma_steps_keep_published(pre, self.root, m, Set::empty());
            if rest.len() == 0 {
                assert(actions@ =~= seq![Action::Solve(m)]);
                assert(crate::load_model::module_inv(self@, m));
                assert forall|j: ModuleId|
                    actions@.contains(Action::Solve(j)) implies deps_have_types(self@, j) by {
                    assert(actions@[0] == Action::Solve(m));
                }
            } else {
                assert(actions@ =~= Seq::empty());
            }
        }
        actions
    }

    /// What the arrival of the solved module `m` makes of the record at
    /// `i`, and the action it causes for that module.
    fn solved_one(&self, i: usize, m: ModuleId) -> (out: (ModuleRecord, Option<Action>))
        requires
            i < self.records@.len() <= 0x1_0000_0000,
        ensures
            out.0@ == solved_record(self@, self.root, ModuleId(i as u32), m),
            out.1 == solved_action(self@, self.root, ModuleId(i as u32), m),
            out.0.deps@ == self.records@[i as int].deps@,
    {
        let id = ModuleId(i as u32);
        let now = &self.records[i];
        proof {
            assert(self@[id] == now@);
        }
        if id == m {
            let record = ModuleRecord {
                loading_started: now.loading_started,
                idents_exposed: now.idents_exposed,
                types_exposed: now.types_exposed || m != self.root,
                phase: Phase::Solved,
                deps: copy_ids(&now.deps),
                awaits_headers: copy_ids(&now.awaits_headers),
                awaits_solves: copy_ids(&now.awaits_solves),
            };
            let action = if m == self.root {
                Some(Action::Finish(id))
            } else {
                None
            };
            (record, action)
        } else if m != self.root && matches!(now.phase, Phase::AwaitingSolves) && contains_id(
            &now.awaits_solves,
            m,
        ) {
            let rest = without_id(&now.awaits_solves, m);
            proof {
                lemma_void_is_empty(rest@);
            }
            if rest.len() == 0 {
                let record = ModuleRecord {
                    loading_started: now.loading_started,
                    idents_exposed: now.idents_exposed,
                    types_exposed: now.types_exposed,
                    phase: Phase::Solving,
                    deps: copy_ids(&now.deps),
                    awaits_headers: copy_ids(&now.awaits_headers),
                    awaits_solves: Vec::new(),
                };
                assert(record@.awaits_solves =~= Set::empty());
                (record, Some(Action::Solve(id)))
            } else {
                let record = ModuleRecord {
                    loading_started: now.loading_started,
                    idents_exposed: now.idents_exposed,
                    types_exposed: now.types_exposed,
                    phase: now.phase,
                    deps: copy_ids(&now.deps),
                    awaits_headers: copy_ids(&now.awaits_headers),
                    awaits_solves: rest,
                };
                (record, None)
            }
        } else {
            let record = ModuleRecord {
                loading_started: now.loading_started,
                idents_exposed: now.idents_exposed,
                types_exposed: now.types_exposed,
                phase: now.phase,
                deps: copy_ids(&now.deps),
                awaits_headers: copy_ids(&now.awaits_headers),
                awaits_solves: copy_ids(&now.awaits_solves),
            };
            (record, None)
        }
    }

    /// The solver has handed back module `m`. If `m` is the root, the
    /// session ends. Otherwise publishes the types of `m` and hands every
    /// module that waited for this solving alone to the solver.
    ///
    /// The actions come in the order of the module ids they are about.
    pub fn on_solved(&mut self, m: ModuleId) -> (actions: Vec<Action>)
        requires
            old(self).wf(),
            old(self)@[m].phase is Solving,
        ensures
            final(self).wf(),
            final(self).root == old(self).root,
            final(self).finished == (old(self).finished || m == old(self).root),
            final(self)@ == solved_step(old(self)@, old(self).root, m),
            forall|a: Action|
                actions@.contains(a) <==> solved_action(old(self)@, old(self).root, a.module(), m)
                    == Some(a),
            actions@.no_duplicates(),
            in_order_of_ids(actions@),
            forall|j: ModuleId| #[trigger] final(self).imports_of(j) =~= old(self).imports_of(j),
            forall|i: ModuleId|
                actions@.contains(Action::Solve(i)) ==> deps_have_types(final(self)@, i),
    {
        let ghost pre = self@;
        let root = self.root;
        let n: usize = self.records.len();
        let mut records: Vec<ModuleRecord> = Vec::new();
        let mut actions: Vec<Action> = Vec::new();
        let mut i: usize = 0;
        while i < n
            invariant
                i <= n,
                n == self.records@.len(),
                n <= 0x1_0000_0000,
                self@ == pre,
                self.root == root,
                self.finished == old(self).finished,
                records@.len() == i,
                self.records@ == old(self).records@,
                forall|k: int|
                    0 <= k < i ==> (#[trigger] records@[k]).deps@ == self.records@[k].deps@,
                forall|k: int|
                    0 <= k < i ==> #[trigger] records@[k]@ == solved_record(
                        pre,
                        root,
                        ModuleId(k as u32),
                        m,
                    ),
                forall|a: Action|
                    actions@.contains(a) <==> a.module().0 < i && solved_action(
                        pre,
                        root,
                        a.module(),
                        m,
                    ) == Some(a),
                actions@.no_duplicates(),
                in_order_of_ids(actions@),
            decreases n - i,
        {
            let (record, action) = self.solved_one(i, m);
            records.push(record);
            let ghost before = actions@;
            match action {
                Some(a) => {
                    actions.push(a);
                },
                None => {},
            }
            proof {
                lemma_action_step(
                    before,
                    actions@,
                    i as int,
                    action,
                    |j: ModuleId| solved_action(pre, root, j, m),
                );
            }
            i = i + 1;
        }
        self.records = records;
        if m == root {
            self.finished = true;
        }
        proof {
            assert forall|j: ModuleId| #[trigger] self@[j] == solved_record(pre, root, j, m) by {
                if j.0 < n {
                    assert(ModuleId(j.0 as int as u32) == j);
                } else {
                    assert(pre[j] == blank());
                }
            }
            assert(self@ =~= solved_step(pre, root, m));
            lemma_solved_keeps_inv(pre, root, m);
            crate::load_model::lemma_steps_keep_published(pre, root, m, Set::empty());
            assert forall|a: Action|
                actions@.contains(a) <==> solved_action(pre, root, a.module(), m) == Some(a) by {
                let j = a.module();
                if j.0 >= n {
                    assert(pre[j] == blank());
                }
            }
            assert forall|j: ModuleId|
                actions@.contains(Action::Solve(j)) implies deps_have_types(self@, j) by {
                assert(solved_action(pre, root, j, m) == Some(Action::Solve(j)));
                assert(crate::load_model::module_inv(self@, j));
            }
        }
        actions
    }
}

/// The actions are about one module each and come in the order of the
/// ids of their modules.
pub open spec fn in_order_of_ids(actions: Seq<Action>) -> bool {
    forall|j: int, k: int|
        0 <= j < k < actions.len() ==> actions[j].module().0 < actions[k].module().0
}

/// One round of a loop that collects the actions of the modules in the
/// order of their ids: `after` is `before` with the action of module `i`
/// appended, if it has one.
proof fn lemma_action_step(
    before: Seq<Action>,
    after: Seq<Action>,
    i: int,
    action: Option<Action>,
    of: spec_fn(ModuleId) -> Option<Action>,
)
    requires
        0 <= i < 0x1_0000_0000,
        forall|a: Action| before.contains(a) <==> a.module().0 < i && of(a.module()) == Some(a),
        before.no_duplicates(),
        in_order_of_ids(before),
        action == of(ModuleId(i as u32)),
        action is Some ==> action->0.module() == ModuleId(i as u32),
        after == match action {
            Some(a) => before.push(a),
            None => before,
        },
    ensures
        forall|a: Action| after.contains(a) <==> a.module().0 < i + 1 && of(a.module()) == Some(a),
        after.no_duplicates(),
        in_order_of_ids(after),
{
    let id = ModuleId(i as u32);
    assert forall|j: int, k: int| 0 <= j < k < after.len() implies after[j].module().0
        < after[k].module().0 by {
        assert(before[j] == after[j]);
        assert(before.contains(after[j]));
        if k < before.len() {
            assert(before[k] == after[k]);
        }
    }
    assert forall|a: Action| after.contains(a) <==> a.module().0 < i + 1 && of(a.module()) == Some(
        a,
    ) by {
        if after.contains(a) {
            let k = choose|k: int| 0 <= k < after.len() && after[k] == a;
            if k < before.len() {
                assert(before[k] == a);
                assert(before.contains(a));
            }
        }
        if a.module().0 < i + 1 && of(a.module()) == Some(a) {
            if a.module().0 < i {
                assert(before.contains(a));
                let k = choose|k: int| 0 <= k < before.len() && before[k] == a;
                assert(after[k] == a);
            } else {
                assert(a.module() == id);
                assert(after[after.len() - 1] == a);
            }
        }
    }
    assert forall|p: int, q: int| 0 <= p < after.len() && 0 <= q < after.len() && p != q implies after[p]
        != after[q] by {
        if p >= before.len() {
            assert(before[q] == after[q]);
            assert(before.contains(after[q]));
        } else if q >= before.len() {
            assert(before[p] == after[p]);
            assert(before.contains(after[p]));
        }
    }
}

/// One round of a loop that keeps the members of `v` for which `keep`
/// holds: if the kept ones of the first `i` were `before`, and the member at
/// `i` was appended exactly when it is to be kept, then `after` holds the
/// kept ones of the first `i + 1`.
proof fn lemma_filter_step(
    v: Seq<ModuleId>,
    i: int,
    before: Seq<ModuleId>,
    after: Seq<ModuleId>,
    kept: bool,
    keep: spec_fn(ModuleId) -> bool,
)
    requires
        0 <= i < v.len(),
        forall|x: ModuleId| before.contains(x) <==> keep(x) && v.subrange(0, i).contains(x),
        kept == keep(v[i]),
        after == if kept { before.push(v[i]) } else { before },
    ensures
        forall|x: ModuleId| after.contains(x) <==> keep(x) && v.subrange(0, i + 1).contains(x),
{
    let head = v.subrange(0, i);
    let next = v.subrange(0, i + 1);
    assert(next =~= head.push(v[i]));
    assert forall|x: ModuleId| after.contains(x) <==> keep(x) && next.contains(x) by {
        if after.contains(x) {
            let k = choose|k: int| 0 <= k < after.len() && after[k] == x;
            if k < before.len() {
                assert(before[k] == x);
                assert(before.contains(x));
                let j = choose|j: int| 0 <= j < head.len() && head[j] == x;
                assert(next[j] == x);
            } else {
                assert(next[i] == x);
            }
        }
        if keep(x) && next.contains(x) {
            let j = choose|j: int| 0 <= j < next.len() && next[j] == x;
            if j < i {
                assert(head[j] == x);
                assert(before.contains(x));
                let k = choose|k: int| 0 <= k < before.len() && before[k] == x;
                assert(after[k] == x);
            } else {
                assert(after[after.len() - 1] == x);
            }
        }
    }
}

/// What the orchestrator reads of a module that is canonicalized and
/// constrained: its id, and the symbols that it refers to.
#[derive(Debug)]
pub struct Module {
    pub module_id: ModuleId,
    pub references: Vec<Symbol>,
}

impl Module {
    /// The symbols of other modules that the module refers to, in their
    /// order: the ones whose types the solver must be told before it
    /// solves the module.
    pub fn foreign_references(&self) -> (foreign: Vec<Symbol>)
        ensures
            foreign@ == self.references@.filter(|s: Symbol| s.module() != self.module_id),
    {
        crate::header::foreign_references(self.module_id, &self.references)
    }
}

/// A problem found while building, with the file it concerns.
#[derive(Debug)]
pub enum BuildProblem<'a> {
    FileNotFound(&'a str),
}

/// `std::io::ErrorKind`, the kind of an error of input or output,
/// declared as an opaque type: it is carried through, and nothing is said
/// of it.
#[verifier::external_type_specification]
#[verifier::external_body]
pub struct ExErrorKind(std::io::ErrorKind);

/// Why the header of a module could not be read: what the parser was
/// started for, and where it failed.
#[derive(Clone, Copy, Debug, PartialEq, Eq, Structural)]
pub struct Fail {
    pub attempting: crate::ast::Attempting,
    pub line: u32,
    pub column: u16,
}

/// Why a load session failed.
#[derive(Debug)]
pub enum LoadingProblem {
    /// A file could not be read.
    FileProblem { filename: String, error: std::io::ErrorKind },
    /// The header of a file could not be parsed.
    ParsingFailed { filename: String, fail: Fail },
    /// The channel ended before the root module was solved.
    MsgChannelDied,
}

impl LoadState {
    /// The channel has ended. That is in order if the session has
    /// finished, and is the failure `MsgChannelDied` if it has not.
    pub fn on_channel_closed(&self) -> (r: Result<(), LoadingProblem>)
        ensures
            r is Ok <==> self.finished,
            r matches Err(problem) ==> problem is MsgChannelDied,
    {
        if self.finished {
            Ok(())
        } else {
            Err(LoadingProblem::MsgChannelDied)
        }
    }
}

} // verus!
