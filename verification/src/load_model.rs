//! The protocol by which modules are loaded, constrained and solved, as a
//! table of per-module states and the three steps that messages cause.
//!
//! A module starts `Unseen`. When its header arrives it either waits for the
//! headers of its imports (`AwaitingHeaders`) or goes straight to the worker
//! that parses and constrains it (`Constraining`). When that worker reports
//! back, the module either waits for its imports to be solved
//! (`AwaitingSolves`) or goes to the solver (`Solving`), and ends `Solved`.

use vstd::prelude::*;
use crate::registry::ModuleId;

verus! {

/// How far one module has come in a load session.
#[derive(Clone, Copy, Debug, PartialEq, Eq, Structural)]
pub enum Phase {
    Unseen,
    AwaitingHeaders,
    Constraining,
    AwaitingSolves,
    Solving,
    Solved,
}

impl Phase {
    /// The single steps a module can take.
    pub open spec fn steps_to(self, next: Phase) -> bool {
        match self {
            Phase::Unseen => next is AwaitingHeaders || next is Constraining,
            Phase::AwaitingHeaders => next is Constraining,
            Phase::Constraining => next is AwaitingSolves || next is Solving,
            Phase::AwaitingSolves => next is Solving,
            Phase::Solving => next is Solved,
            Phase::Solved => false,
        }
    }

    /// The stage of the pipeline a phase belongs to: 0 before the header,
    /// 1 once the header is in, 2 once constrained, 3 once solved.
    pub open spec fn stage(self) -> nat {
        match self {
            Phase::Unseen => 0,
            Phase::AwaitingHeaders | Phase::Constraining => 1,
            Phase::AwaitingSolves | Phase::Solving => 2,
            Phase::Solved => 3,
        }
    }
}

/// What the orchestrator asks its surroundings to do next.
#[derive(Clone, Copy, Debug, PartialEq, Eq, Structural)]
pub enum Action {
    /// Read the module's file and parse its header, in the background.
    Load(ModuleId),
    /// Hand the module to the worker that parses and constrains it.
    ParseAndConstrain(ModuleId),
    /// Hand the module to the solver.
    Solve(ModuleId),
    /// The root module is solved: close the channel and return.
    Finish(ModuleId),
}

impl Action {
    /// The module an action is about.
    pub open spec fn module(self) -> ModuleId {
        match self {
            Action::Load(m) => m,
            Action::ParseAndConstrain(m) => m,
            Action::Solve(m) => m,
            Action::Finish(m) => m,
        }
    }
}

/// What is known of one module.
pub struct ModuleModel {
    /// A read of the module's file has been asked for.
    pub loading_started: bool,
    /// The module's exposed identifiers are published.
    pub idents_exposed: bool,
    /// The module's solved types are published.
    pub types_exposed: bool,
    pub phase: Phase,
    /// The modules it imports, known once its header is in.
    pub deps: Set<ModuleId>,
    /// The imports whose headers it still waits for.
    pub awaits_headers: Set<ModuleId>,
    /// The imports whose solving it still waits for.
    pub awaits_solves: Set<ModuleId>,
}

/// The table of all modules, total over module ids.
pub type Table = Map<ModuleId, ModuleModel>;

pub open spec fn is_void(s: Set<ModuleId>) -> bool {
    forall|d: ModuleId| !s.contains(d)
}

/// A module nothing is known of.
pub open spec fn blank() -> ModuleModel {
    ModuleModel {
        loading_started: false,
        idents_exposed: false,
        types_exposed: false,
        phase: Phase::Unseen,
        deps: Set::empty(),
        awaits_headers: Set::empty(),
        awaits_solves: Set::empty(),
    }
}

/// The members of `deps` whose identifiers are not yet published.
pub open spec fn lacking_idents(t: Table, deps: Set<ModuleId>) -> Set<ModuleId> {
    Set::new(|d: ModuleId| deps.contains(d) && !t[d].idents_exposed)
}

/// The members of `deps` whose types are not yet published.
pub open spec fn lacking_types(t: Table, deps: Set<ModuleId>) -> Set<ModuleId> {
    Set::new(|d: ModuleId| deps.contains(d) && !t[d].types_exposed)
}

/// The state of a module as it is handed to the worker that parses and
/// constrains it: from now on it waits for the solving of those imports
/// that are not solved yet.
pub open spec fn sent_to_constrain(t: Table, module: ModuleModel) -> ModuleModel {
    ModuleModel {
        phase: Phase::Constraining,
        awaits_headers: Set::empty(),
        awaits_solves: lacking_types(t, module.deps),
        ..module
    }
}

/// The state of a module as it is handed to the solver.
pub open spec fn sent_to_solve(module: ModuleModel) -> ModuleModel {
    ModuleModel { phase: Phase::Solving, awaits_solves: Set::empty(), ..module }
}

/// What the arrival of the header of `m`, which imports `deps`, makes of
/// module `i`.
pub open spec fn header_record(t: Table, i: ModuleId, m: ModuleId, deps: Set<ModuleId>) -> ModuleModel {
    let started = ModuleModel { loading_started: t[i].loading_started || deps.contains(i), ..t[i] };
    if i == m {
        let arrived = ModuleModel { idents_exposed: true, deps, ..started };
        if is_void(lacking_idents(t, deps)) {
            sent_to_constrain(t, arrived)
        } else {
            ModuleModel {
                phase: Phase::AwaitingHeaders,
                awaits_headers: lacking_idents(t, deps),
                ..arrived
            }
        }
    } else if t[i].phase is AwaitingHeaders && t[i].awaits_headers.contains(m) {
        if is_void(t[i].awaits_headers.remove(m)) {
            sent_to_constrain(t, started)
        } else {
            ModuleModel { awaits_headers: t[i].awaits_headers.remove(m), ..started }
        }
    } else {
        started
    }
}

/// The action that the arrival of the header of `m` causes for module `i`.
pub open spec fn header_action(t: Table, i: ModuleId, m: ModuleId, deps: Set<ModuleId>) -> Option<Action> {
    if header_record(t, i, m, deps).phase is Constraining && !(t[i].phase is Constraining) {
        Some(Action::ParseAndConstrain(i))
    } else if deps.contains(i) && !t[i].loading_started {
        Some(Action::Load(i))
    } else {
        None
    }
}

/// The table after the header of `m` has arrived.
pub open spec fn header_step(t: Table, m: ModuleId, deps: Set<ModuleId>) -> Table {
    Map::total(|i: ModuleId| header_record(t, i, m, deps))
}

/// What the arrival of the constrained module `m` makes of module `i`.
pub open spec fn constrained_record(t: Table, i: ModuleId, m: ModuleId) -> ModuleModel {
    if i == m {
        if is_void(lacking_types(t, t[i].awaits_solves)) {
            sent_to_solve(t[i])
        } else {
            ModuleModel {
                phase: Phase::AwaitingSolves,
                awaits_solves: lacking_types(t, t[i].awaits_solves),
                ..t[i]
            }
        }
    } else {
        t[i]
    }
}

pub open spec fn constrained_action(t: Table, i: ModuleId, m: ModuleId) -> Option<Action> {
    if i == m && constrained_record(t, i, m).phase is Solving {
        Some(Action::Solve(i))
    } else {
        None
    }
}

pub open spec fn constrained_step(t: Table, m: ModuleId) -> Table {
    Map::total(|i: ModuleId| constrained_record(t, i, m))
}

/// What the arrival of the solved module `m` makes of module `i`. The
/// solving of the root ends the session: its types are not published and
/// nothing else moves.
pub open spec fn solved_record(t: Table, root: ModuleId, i: ModuleId, m: ModuleId) -> ModuleModel {
    if i == m {
        ModuleModel { phase: Phase::Solved, types_exposed: t[i].types_exposed || m != root, ..t[i] }
    } else if m != root && t[i].phase is AwaitingSolves && t[i].awaits_solves.contains(m) {
        if is_void(t[i].awaits_solves.remove(m)) {
            sent_to_solve(t[i])
        } else {
            ModuleModel { awaits_solves: t[i].awaits_solves.remove(m), ..t[i] }
        }
    } else {
        t[i]
    }
}

pub open spec fn solved_action(t: Table, root: ModuleId, i: ModuleId, m: ModuleId) -> Option<Action> {
    if i == m {
        if m == root {
            Some(Action::Finish(i))
        } else {
            None
        }
    } else if solved_record(t, root, i, m).phase is Solving && !(t[i].phase is Solving) {
        Some(Action::Solve(i))
    } else {
        None
    }
}

pub open spec fn solved_step(t: Table, root: ModuleId, m: ModuleId) -> Table {
    Map::total(|i: ModuleId| solved_record(t, root, i, m))
}

/// Every import has its identifiers published.
pub open spec fn deps_have_idents(t: Table, i: ModuleId) -> bool {
    forall|d: ModuleId| #[trigger] t[i].deps.contains(d) ==> t[d].idents_exposed
}

/// Every import has its types published.
pub open spec fn deps_have_types(t: Table, i: ModuleId) -> bool {
    forall|d: ModuleId| #[trigger] t[i].deps.contains(d) ==> t[d].types_exposed
}

/// What holds of module `i` between any two messages.
pub open spec fn module_inv(t: Table, i: ModuleId) -> bool {
    let r = t[i];
    match r.phase {
        Phase::Unseen => true,
        Phase::AwaitingHeaders => {
            &&& r.loading_started
            &&& r.idents_exposed
            &&& !is_void(r.awaits_headers)
            &&& forall|w: ModuleId| #[trigger]
                r.awaits_headers.contains(w) ==> r.deps.contains(w) && (w == i
                    || !t[w].idents_exposed)
            &&& forall|d: ModuleId| #[trigger]
                r.deps.contains(d) ==> t[d].loading_started && (t[d].idents_exposed
                    || r.awaits_headers.contains(d))
        },
        Phase::Constraining => {
            &&& r.loading_started
            &&& r.idents_exposed
            &&& deps_have_idents(t, i)
            &&& forall|w: ModuleId| #[trigger] r.awaits_solves.contains(w) ==> r.deps.contains(w)
            &&& forall|d: ModuleId| #[trigger]
                r.deps.contains(d) ==> t[d].loading_started && (t[d].types_exposed
                    || r.awaits_solves.contains(d))
        },
        Phase::AwaitingSolves => {
            &&& r.loading_started
            &&& r.idents_exposed
            &&& deps_have_idents(t, i)
            &&& !is_void(r.awaits_solves)
            &&& forall|w: ModuleId| #[trigger]
                r.awaits_solves.contains(w) ==> r.deps.contains(w) && !t[w].types_exposed
            &&& forall|d: ModuleId| #[trigger]
                r.deps.contains(d) ==> t[d].loading_started && (t[d].types_exposed
                    || r.awaits_solves.contains(d))
        },
        Phase::Solving | Phase::Solved => {
            &&& r.loading_started
            &&& r.idents_exposed
            &&& deps_have_idents(t, i)
            &&& deps_have_types(t, i)
        },
    }
}

/// What holds of the whole table between any two messages.
pub open spec fn table_inv(t: Table) -> bool {
    &&& t.dom() =~= Set::full()
    &&& forall|i: ModuleId| module_inv(t, i)
}

/// The header of `m` may arrive: its load was asked for and no header of it
/// has come before.
pub open spec fn expects_header(t: Table, m: ModuleId) -> bool {
    t[m].loading_started && t[m].phase is Unseen
}

/// The arrival of a header keeps the table's invariant.
pub proof fn lemma_header_keeps_inv(t: Table, m: ModuleId, deps: Set<ModuleId>)
    requires
        table_inv(t),
        expects_header(t, m),
    ensures
        table_inv(header_step(t, m, deps)),
{
    let t2 = header_step(t, m, deps);
    assert forall|i: ModuleId| module_inv(t2, i) by {
        assert(module_inv(t, i));
        assert(t2[i] == header_record(t, i, m, deps));
        assert forall|d: ModuleId| t2[d].idents_exposed == (t[d].idents_exposed || d == m) by {
            assert(t2[d] == header_record(t, d, m, deps));
        }
        assert forall|d: ModuleId| t2[d].types_exposed == t[d].types_exposed by {
            assert(t2[d] == header_record(t, d, m, deps));
        }
        assert forall|d: ModuleId|
            t2[d].loading_started == (t[d].loading_started || deps.contains(d)) by {
            assert(t2[d] == header_record(t, d, m, deps));
        }
        if i == m {
            if is_void(lacking_idents(t, deps)) {
                assert forall|d: ModuleId| #[trigger] t2[i].deps.contains(d) implies t2[d].idents_exposed by {
                    assert(!lacking_idents(t, deps).contains(d));
                }
                assert forall|d: ModuleId| #[trigger]
                    t2[i].deps.contains(d) implies t2[d].loading_started && (t2[d].types_exposed
                    || t2[i].awaits_solves.contains(d)) by {
                    if !t[d].types_exposed {
                        assert(lacking_types(t, deps).contains(d));
                    }
                }
            } else {
                assert forall|d: ModuleId| #[trigger]
                    t2[i].deps.contains(d) implies t2[d].loading_started && (t2[d].idents_exposed
                    || t2[i].awaits_headers.contains(d)) by {
                    if !t[d].idents_exposed {
                        assert(lacking_idents(t, deps).contains(d));
                    }
                }
            }
        } else if t[i].phase is AwaitingHeaders && t[i].awaits_headers.contains(m) {
            let rest = t[i].awaits_headers.remove(m);
            if is_void(rest) {
                assert forall|d: ModuleId| #[trigger] t2[i].deps.contains(d) implies t2[d].idents_exposed by {
                    if !t[d].idents_exposed && d != m {
                        assert(t[i].awaits_headers.contains(d));
                        assert(rest.contains(d));
                    }
                }
                assert forall|d: ModuleId| #[trigger]
                    t2[i].deps.contains(d) implies t2[d].loading_started && (t2[d].types_exposed
                    || t2[i].awaits_solves.contains(d)) by {
                    if !t[d].types_exposed {
                        assert(lacking_types(t, t[i].deps).contains(d));
                    }
                }
            } else {
                assert forall|w: ModuleId| #[trigger]
                    t2[i].awaits_headers.contains(w) implies t2[i].deps.contains(w) && (w == i
                    || !t2[w].idents_exposed) by {
                    assert(t[i].awaits_headers.contains(w));
                }
                assert forall|d: ModuleId| #[trigger]
                    t2[i].deps.contains(d) implies t2[d].loading_started && (t2[d].idents_exposed
                    || t2[i].awaits_headers.contains(d)) by {
                    if !t2[d].idents_exposed {
                        assert(t[i].awaits_headers.contains(d));
                        assert(rest.contains(d));
                    }
                }
            }
        } else {
            match t[i].phase {
                Phase::AwaitingHeaders => {
                    assert forall|w: ModuleId| #[trigger]
                        t2[i].awaits_headers.contains(w) implies t2[i].deps.contains(w) && (w == i
                        || !t2[w].idents_exposed) by {
                        assert(t[i].awaits_headers.contains(w));
                    }
                },
                _ => {},
            }
        }
    }
}

/// The arrival of a constrained module keeps the table's invariant.
pub proof fn lemma_constrained_keeps_inv(t: Table, m: ModuleId)
    requires
        table_inv(t),
        t[m].phase is Constraining,
    ensures
        table_inv(constrained_step(t, m)),
{
    let t2 = constrained_step(t, m);
    assert forall|i: ModuleId| module_inv(t2, i) by {
        assert(module_inv(t, i));
        assert(t2[i] == constrained_record(t, i, m));
        assert forall|d: ModuleId|
            t2[d].idents_exposed == t[d].idents_exposed && t2[d].types_exposed
                == t[d].types_exposed && t2[d].loading_started == t[d].loading_started by {
            assert(t2[d] == constrained_record(t, d, m));
        }
        if i == m {
            let rest = lacking_types(t, t[i].awaits_solves);
            if is_void(rest) {
                assert forall|d: ModuleId| #[trigger] t2[i].deps.contains(d) implies t2[d].types_exposed by {
                    if !t[d].types_exposed {
                        assert(t[i].awaits_solves.contains(d));
                        assert(rest.contains(d));
                    }
                }
            } else {
                assert forall|d: ModuleId| #[trigger]
                    t2[i].deps.contains(d) implies t2[d].loading_started && (t2[d].types_exposed
                    || t2[i].awaits_solves.contains(d)) by {
                    if !t[d].types_exposed {
                        assert(t[i].awaits_solves.contains(d));
                        assert(rest.contains(d));
                    }
                }
                assert forall|w: ModuleId| #[trigger]
                    t2[i].awaits_solves.contains(w) implies t2[i].deps.contains(w)
                    && !t2[w].types_exposed by {
                    assert(rest.contains(w));
                    assert(t[i].awaits_solves.contains(w));
                }
            }
        }
    }
}

/// The arrival of a solved module keeps the table's invariant.
pub proof fn lemma_solved_keeps_inv(t: Table, root: ModuleId, m: ModuleId)
    requires
        table_inv(t),
        t[m].phase is Solving,
    ensures
        table_inv(solved_step(t, root, m)),
{
    let t2 = solved_step(t, root, m);
    assert forall|i: ModuleId| module_inv(t2, i) by {
        assert(module_inv(t, i));
        assert(t2[i] == solved_record(t, root, i, m));
        assert forall|d: ModuleId|
            t2[d].idents_exposed == t[d].idents_exposed && t2[d].loading_started
                == t[d].loading_started && t2[d].types_exposed == (t[d].types_exposed || (d == m
                && m != root)) by {
            assert(t2[d] == solved_record(t, root, d, m));
        }
        if i != m && m != root && t[i].phase is AwaitingSolves && t[i].awaits_solves.contains(m) {
            let rest = t[i].awaits_solves.remove(m);
            if is_void(rest) {
                assert forall|d: ModuleId| #[trigger] t2[i].deps.contains(d) implies t2[d].types_exposed by {
                    if !t[d].types_exposed && d != m {
                        assert(t[i].awaits_solves.contains(d));
                        assert(rest.contains(d));
                    }
                }
            } else {
                assert forall|w: ModuleId| #[trigger]
                    t2[i].awaits_solves.contains(w) implies t2[i].deps.contains(w)
                    && !t2[w].types_exposed by {
                    assert(t[i].awaits_solves.contains(w));
                }
                assert forall|d: ModuleId| #[trigger]
                    t2[i].deps.contains(d) implies t2[d].loading_started && (t2[d].types_exposed
                    || t2[i].awaits_solves.contains(d)) by {
                    if !t2[d].types_exposed {
                        assert(t[i].awaits_solves.contains(d));
                        assert(rest.contains(d));
                    }
                }
            }
        } else if i != m {
            match t[i].phase {
                Phase::AwaitingSolves => {
                    assert forall|w: ModuleId| #[trigger]
                        t2[i].awaits_solves.contains(w) implies t2[i].deps.contains(w)
                        && !t2[w].types_exposed by {
                        assert(t[i].awaits_solves.contains(w));
                    }
                },
                _ => {},
            }
        }
    }
}

/// One message moves no module backwards and lets none skip a phase: each
/// module either stays in its phase or takes one of the single steps, so a
/// module that ends `Solved` has had its header, then been constrained,
/// then been solved, in that order.
pub proof fn lemma_phases_in_order(t: Table, root: ModuleId, m: ModuleId, deps: Set<ModuleId>, i: ModuleId)
    requires
        table_inv(t),
    ensures
        expects_header(t, m) ==> {
            let next = header_step(t, m, deps)[i].phase;
            next == t[i].phase || t[i].phase.steps_to(next)
        },
        t[m].phase is Constraining ==> {
            let next = constrained_step(t, m)[i].phase;
            next == t[i].phase || t[i].phase.steps_to(next)
        },
        t[m].phase is Solving ==> {
            let next = solved_step(t, root, m)[i].phase;
            next == t[i].phase || t[i].phase.steps_to(next)
        },
{
}

/// A step of the pipeline never lowers a module's stage, and raises it by
/// one at most.
pub proof fn lemma_stage_rises_by_one(from: Phase, to: Phase)
    requires
        from.steps_to(to),
    ensures
        from.stage() <= to.stage() <= from.stage() + 1,
{
}

/// No module is handed to the worker that parses and constrains it before
/// the identifiers of every module it imports are published: whenever a
/// header's arrival causes such a hand-over, all the imports of the module
/// handed over have their identifiers in the table that results.
pub proof fn lemma_constrain_waits_for_idents(t: Table, m: ModuleId, deps: Set<ModuleId>, i: ModuleId)
    requires
        table_inv(t),
        expects_header(t, m),
        header_action(t, i, m, deps) == Some(Action::ParseAndConstrain(i)),
    ensures
        deps_have_idents(header_step(t, m, deps), i),
        header_step(t, m, deps)[i].idents_exposed,
{
    lemma_header_keeps_inv(t, m, deps);
    let t2 = header_step(t, m, deps);
    assert(module_inv(t2, i));
}

/// No module is handed to the solver before the types of every module it
/// imports are published: whenever the arrival of a constrained or of a
/// solved module causes such a hand-over, all the imports of the module
/// handed over have their types in the table that results.
pub proof fn lemma_solve_waits_for_types(t: Table, root: ModuleId, m: ModuleId, i: ModuleId)
    requires
        table_inv(t),
    ensures
        t[m].phase is Constraining && constrained_action(t, i, m) == Some(Action::Solve(i))
            ==> deps_have_types(constrained_step(t, m), i),
        t[m].phase is Solving && solved_action(t, root, i, m) == Some(Action::Solve(i))
            ==> deps_have_types(solved_step(t, root, m), i),
{
    if t[m].phase is Constraining && constrained_action(t, i, m) == Some(Action::Solve(i)) {
        lemma_constrained_keeps_inv(t, m);
        assert(module_inv(constrained_step(t, m), i));
    }
    if t[m].phase is Solving && solved_action(t, root, i, m) == Some(Action::Solve(i)) {
        lemma_solved_keeps_inv(t, root, m);
        assert(module_inv(solved_step(t, root, m), i));
    }
}

/// A module that waits is waited on by work that is under way: every
/// import it waits for has had its load asked for, so a message about that
/// import is still to come or has come.
pub proof fn lemma_waiting_on_started(t: Table, i: ModuleId, w: ModuleId)
    requires
        table_inv(t),
        (t[i].phase is AwaitingHeaders && t[i].awaits_headers.contains(w)) || (t[i].phase is AwaitingSolves
            && t[i].awaits_solves.contains(w)),
    ensures
        t[w].loading_started,
{
    assert(module_inv(t, i));
}

/// Publication only grows: a step never takes back published identifiers
/// or types, nor a load that was asked for.
pub proof fn lemma_published_stays(t: Table, root: ModuleId, m: ModuleId, deps: Set<ModuleId>, i: ModuleId)
    ensures
        t[i].idents_exposed ==> header_step(t, m, deps)[i].idents_exposed && constrained_step(
            t,
            m,
        )[i].idents_exposed && solved_step(t, root, m)[i].idents_exposed,
        t[i].types_exposed ==> header_step(t, m, deps)[i].types_exposed && constrained_step(
            t,
            m,
        )[i].types_exposed && solved_step(t, root, m)[i].types_exposed,
        t[i].loading_started ==> header_step(t, m, deps)[i].loading_started && constrained_step(
            t,
            m,
        )[i].loading_started && solved_step(t, root, m)[i].loading_started,
{
}

// ---- the session does not get stuck ----

/// Every module that is solved, but for the root, has its types
/// published.
pub open spec fn solved_are_published(t: Table, root: ModuleId) -> bool {
    forall|i: ModuleId| #[trigger] t[i].phase is Solved && i != root ==> t[i].types_exposed
}

/// Every step keeps the types of the solved modules published.
pub proof fn lemma_steps_keep_published(t: Table, root: ModuleId, m: ModuleId, deps: Set<ModuleId>)
    requires
        solved_are_published(t, root),
    ensures
        solved_are_published(header_step(t, m, deps), root),
        solved_are_published(constrained_step(t, m), root),
        solved_are_published(solved_step(t, root, m), root),
{
    let t1 = header_step(t, m, deps);
    let t2 = constrained_step(t, m);
    let t3 = solved_step(t, root, m);
    assert forall|i: ModuleId| #[trigger] t1[i].phase is Solved && i != root implies t1[i].types_exposed by {
        assert(t1[i] == header_record(t, i, m, deps));
        assert(t[i].phase is Solved);
    }
    assert forall|i: ModuleId| #[trigger] t2[i].phase is Solved && i != root implies t2[i].types_exposed by {
        assert(t2[i] == constrained_record(t, i, m));
        assert(t[i].phase is Solved);
    }
    assert forall|i: ModuleId| #[trigger] t3[i].phase is Solved && i != root implies t3[i].types_exposed by {
        assert(t3[i] == solved_record(t, root, i, m));
        if i != m {
            assert(t[i].phase is Solved);
        }
    }
}

/// A worker is busy with the module: its file is being read, or it is
/// being constrained, or it is being solved. A message about it is still
/// to come.
pub open spec fn with_worker(t: Table, i: ModuleId) -> bool {
    (t[i].loading_started && t[i].phase is Unseen) || t[i].phase is Constraining
        || t[i].phase is Solving
}

/// The imports are free of cycles: the modules can be ranked so that every
/// module ranks above all that it imports.
pub open spec fn ranked(t: Table, rank: spec_fn(ModuleId) -> nat) -> bool {
    forall|i: ModuleId, d: ModuleId| #[trigger] t[i].deps.contains(d) ==> rank(d) < rank(i)
}

/// A module that waits, waits for work that is under way: if the imports
/// are free of cycles and the root is not solved, then whenever a module is
/// parked, a worker is busy with some module.
pub proof fn lemma_waiting_leads_to_work(
    t: Table,
    root: ModuleId,
    rank: spec_fn(ModuleId) -> nat,
    i: ModuleId,
)
    requires
        table_inv(t),
        solved_are_published(t, root),
        ranked(t, rank),
        !(t[root].phase is Solved),
        t[i].phase is AwaitingHeaders || t[i].phase is AwaitingSolves,
    ensures
        exists|w: ModuleId| with_worker(t, w),
    decreases rank(i),
{
    assert(module_inv(t, i));
    if t[i].phase is AwaitingHeaders {
        let w = choose|w: ModuleId| t[i].awaits_headers.contains(w);
        assert(t[i].deps.contains(w));
        assert(rank(w) < rank(i));
        assert(module_inv(t, w));
        assert(with_worker(t, w));
    } else {
        let w = choose|w: ModuleId| t[i].awaits_solves.contains(w);
        assert(t[i].deps.contains(w));
        assert(rank(w) < rank(i));
        assert(module_inv(t, w));
        if t[w].phase is AwaitingHeaders || t[w].phase is AwaitingSolves {
            lemma_waiting_leads_to_work(t, root, rank, w);
        } else {
            assert(with_worker(t, w));
        }
    }
}

/// The session does not get stuck: if the imports are free of cycles,
/// then as long as the root has been asked for and is not solved, a worker
/// is busy with some module, so that a message is still to come.
pub proof fn lemma_never_stuck(t: Table, root: ModuleId, rank: spec_fn(ModuleId) -> nat)
    requires
        table_inv(t),
        solved_are_published(t, root),
        ranked(t, rank),
        t[root].loading_started,
        !(t[root].phase is Solved),
    ensures
        exists|w: ModuleId| with_worker(t, w),
{
    if t[root].phase is AwaitingHeaders || t[root].phase is AwaitingSolves {
        lemma_waiting_leads_to_work(t, root, rank, root);
    } else {
        assert(with_worker(t, root));
    }
}

/// How far a module has come, as a number: each single step raises it.
pub open spec fn progress_of(phase: Phase) -> nat {
    match phase {
        Phase::Unseen => 0,
        Phase::AwaitingHeaders => 1,
        Phase::Constraining => 2,
        Phase::AwaitingSolves => 3,
        Phase::Solving => 4,
        Phase::Solved => 5,
    }
}

/// Every message moves the module it is about forward, and moves no
/// module back: so no module is the subject of more than three messages,
/// and a session over finitely many modules takes finitely many steps.
pub proof fn lemma_messages_move_forward(t: Table, root: ModuleId, m: ModuleId, deps: Set<ModuleId>, i: ModuleId)
    requires
        table_inv(t),
    ensures
        expects_header(t, m) ==> progress_of(t[m].phase) < progress_of(
            header_step(t, m, deps)[m].phase,
        ) && progress_of(t[i].phase) <= progress_of(header_step(t, m, deps)[i].phase),
        t[m].phase is Constraining ==> progress_of(t[m].phase) < progress_of(
            constrained_step(t, m)[m].phase,
        ) && progress_of(t[i].phase) <= progress_of(constrained_step(t, m)[i].phase),
        t[m].phase is Solving ==> progress_of(t[m].phase) < progress_of(
            solved_step(t, root, m)[m].phase,
        ) && progress_of(t[i].phase) <= progress_of(solved_step(t, root, m)[i].phase),
{
}

// ---- imports that run in a circle ----

/// The modules of `s` hold one another up: none of them is solved or being
/// solved, the types of none are published, and each whose imports are
/// known imports a member of `s`.
pub open spec fn knot(t: Table, s: Set<ModuleId>) -> bool {
    forall|i: ModuleId| #[trigger]
        s.contains(i) ==> {
            &&& !t[i].types_exposed
            &&& !(t[i].phase is Solving)
            &&& !(t[i].phase is Solved)
            &&& !(t[i].phase is Unseen) ==> exists|w: ModuleId|
                s.contains(w) && #[trigger] t[i].deps.contains(w)
        }
}

/// Modules of which nothing is known yet, and whose types are not
/// published, hold one another up, whatever they will turn out to import.
pub proof fn lemma_unseen_are_a_knot(t: Table, s: Set<ModuleId>)
    requires
        forall|i: ModuleId| #[trigger] s.contains(i) ==> t[i].phase is Unseen && !t[i].types_exposed,
    ensures
        knot(t, s),
{
}

/// Imports that run in a circle are never solved. If the modules of `s`
/// hold one another up, and the header of a member, when it arrives, names
/// a member among its imports, then the modules of `s` hold one another up
/// after every message: none of them is ever handed to the solver. With
/// the root among them the session never finishes.
pub proof fn lemma_knot_stays(
    t: Table,
    root: ModuleId,
    s: Set<ModuleId>,
    m: ModuleId,
    deps: Set<ModuleId>,
)
    requires
        table_inv(t),
        knot(t, s),
    ensures
        expects_header(t, m) && (s.contains(m) ==> exists|w: ModuleId|
            s.contains(w) && deps.contains(w)) ==> knot(header_step(t, m, deps), s),
        t[m].phase is Constraining ==> knot(constrained_step(t, m), s),
        t[m].phase is Solving ==> knot(solved_step(t, root, m), s),
{
    if expects_header(t, m) && (s.contains(m) ==> exists|w: ModuleId|
        s.contains(w) && deps.contains(w)) {
        let t1 = header_step(t, m, deps);
        assert forall|i: ModuleId| #[trigger] s.contains(i) implies {
            &&& !t1[i].types_exposed
            &&& !(t1[i].phase is Solving)
            &&& !(t1[i].phase is Solved)
            &&& !(t1[i].phase is Unseen) ==> exists|w: ModuleId|
                s.contains(w) && #[trigger] t1[i].deps.contains(w)
        } by {
            assert(t1[i] == header_record(t, i, m, deps));
            if i == m {
                let w = choose|w: ModuleId| s.contains(w) && deps.contains(w);
                assert(t1[i].deps == deps);
                assert(s.contains(w) && t1[i].deps.contains(w));
            } else if !(t1[i].phase is Unseen) {
                assert(!(t[i].phase is Unseen));
                let w = choose|w: ModuleId| s.contains(w) && #[trigger] t[i].deps.contains(w);
                assert(t1[i].deps == t[i].deps);
                assert(s.contains(w) && t1[i].deps.contains(w));
            }
        }
    }
    if t[m].phase is Constraining {
        let t2 = constrained_step(t, m);
        assert forall|i: ModuleId| #[trigger] s.contains(i) implies {
            &&& !t2[i].types_exposed
            &&& !(t2[i].phase is Solving)
            &&& !(t2[i].phase is Solved)
            &&& !(t2[i].phase is Unseen) ==> exists|w: ModuleId|
                s.contains(w) && #[trigger] t2[i].deps.contains(w)
        } by {
            assert(t2[i] == constrained_record(t, i, m));
            assert(module_inv(t, i));
            if !(t[i].phase is Unseen) {
                let w = choose|w: ModuleId| s.contains(w) && #[trigger] t[i].deps.contains(w);
                assert(t2[i].deps == t[i].deps);
                assert(s.contains(w) && t2[i].deps.contains(w));
                if i == m {
                    assert(!t[w].types_exposed);
                    assert(t[i].awaits_solves.contains(w));
                    assert(lacking_types(t, t[i].awaits_solves).contains(w));
                }
            }
        }
    }
    if t[m].phase is Solving {
        let t3 = solved_step(t, root, m);
        assert forall|i: ModuleId| #[trigger] s.contains(i) implies {
            &&& !t3[i].types_exposed
            &&& !(t3[i].phase is Solving)
            &&& !(t3[i].phase is Solved)
            &&& !(t3[i].phase is Unseen) ==> exists|w: ModuleId|
                s.contains(w) && #[trigger] t3[i].deps.contains(w)
        } by {
            assert(t3[i] == solved_record(t, root, i, m));
            assert(module_inv(t, i));
            assert(i != m);
            if !(t[i].phase is Unseen) {
                let w = choose|w: ModuleId| s.contains(w) && #[trigger] t[i].deps.contains(w);
                assert(t3[i].deps == t[i].deps);
                assert(s.contains(w) && t3[i].deps.contains(w));
                assert(w != m);
                if t[i].phase is AwaitingSolves {
                    assert(!t[w].types_exposed);
                    assert(t[i].awaits_solves.contains(w));
                    assert(t[i].awaits_solves.remove(m).contains(w));
                }
            }
        }
    }
}

} // verus!
