use roc_front::load::{LoadState, LoadingProblem, Module};
use roc_front::load_model::{Action, Phase};
use roc_front::registry::{IdentId, ModuleId, Symbol};

const A: ModuleId = ModuleId(0);
const B: ModuleId = ModuleId(1);
const C: ModuleId = ModuleId(2);

#[test]
fn root_with_shared_import_loads_each_module_once() {
    // A imports B and C; C imports B.
    let mut state = LoadState::new(A, &vec![], &vec![]);
    assert!(state.accepts_header(A));
    assert!(!state.accepts_header(B));

    let actions = state.on_header(A, &vec![B, C]);
    assert_eq!(actions, vec![Action::Load(B), Action::Load(C)]);
    assert_eq!(state.phase_of(A), Phase::AwaitingHeaders);

    // The header of C arrives first: B is not asked for a second time.
    let actions = state.on_header(C, &vec![B]);
    assert_eq!(actions, vec![]);
    assert_eq!(state.phase_of(C), Phase::AwaitingHeaders);
    assert!(state.loading_started(B));

    // Only the header of B lets A and C be constrained.
    let actions = state.on_header(B, &vec![]);
    assert_eq!(
        actions,
        vec![
            Action::ParseAndConstrain(A),
            Action::ParseAndConstrain(B),
            Action::ParseAndConstrain(C)
        ]
    );
    assert!(state.idents_exposed(B) && state.idents_exposed(C));

    // A and C are constrained before B is solved: they wait.
    assert_eq!(state.on_constrained(A), vec![]);
    assert_eq!(state.phase_of(A), Phase::AwaitingSolves);
    assert_eq!(state.on_constrained(C), vec![]);
    assert_eq!(state.on_constrained(B), vec![Action::Solve(B)]);

    // The solving of B frees C, which waited for B alone, and not A.
    assert_eq!(state.on_solved(B), vec![Action::Solve(C)]);
    assert!(state.types_exposed(B));
    assert_eq!(state.phase_of(A), Phase::AwaitingSolves);
    assert_eq!(state.on_solved(C), vec![Action::Solve(A)]);

    assert!(!state.finished);
    assert!(matches!(state.on_channel_closed(), Err(LoadingProblem::MsgChannelDied)));
    assert_eq!(state.on_solved(A), vec![Action::Finish(A)]);
    assert!(state.finished);
    assert!(state.on_channel_closed().is_ok());
    // The types of the root are not published.
    assert!(!state.types_exposed(A));
    assert_eq!(state.phase_of(A), Phase::Solved);
}

#[test]
fn module_without_imports_goes_straight_through() {
    let mut state = LoadState::new(A, &vec![], &vec![]);
    assert_eq!(state.on_header(A, &vec![]), vec![Action::ParseAndConstrain(A)]);
    assert_eq!(state.phase_of(A), Phase::Constraining);
    assert!(state.accepts_constrained(A));
    assert_eq!(state.on_constrained(A), vec![Action::Solve(A)]);
    assert!(state.accepts_solved(A));
    assert_eq!(state.on_solved(A), vec![Action::Finish(A)]);
}

#[test]
fn imports_that_are_ready_are_not_waited_for() {
    // B has its identifiers and its types published from the start.
    let mut state = LoadState::new(A, &vec![B], &vec![B]);
    assert!(state.idents_exposed(B));
    assert!(state.types_exposed(B));
    // No header of B is needed, but its load is still asked for.
    assert_eq!(
        state.on_header(A, &vec![B]),
        vec![Action::ParseAndConstrain(A), Action::Load(B)]
    );
    assert_eq!(state.on_constrained(A), vec![Action::Solve(A)]);
}

#[test]
fn import_solved_while_constraining_is_dropped_from_the_wait() {
    let mut state = LoadState::new(A, &vec![], &vec![]);
    state.on_header(A, &vec![B]);
    assert_eq!(
        state.on_header(B, &vec![]),
        vec![Action::ParseAndConstrain(A), Action::ParseAndConstrain(B)]
    );
    // B is constrained and solved before A comes back.
    assert_eq!(state.on_constrained(B), vec![Action::Solve(B)]);
    assert_eq!(state.on_solved(B), vec![]);
    assert_eq!(state.on_constrained(A), vec![Action::Solve(A)]);
}

#[test]
fn duplicate_imports_are_loaded_once() {
    let mut state = LoadState::new(A, &vec![], &vec![]);
    assert_eq!(state.on_header(A, &vec![B, B]), vec![Action::Load(B)]);
    assert_eq!(state.deps_of(A), vec![B, B]);
    assert_eq!(state.len(), 2);
}

#[test]
fn module_that_imports_itself_waits_for_ever() {
    let mut state = LoadState::new(A, &vec![], &vec![]);
    assert_eq!(state.on_header(A, &vec![A]), vec![]);
    assert_eq!(state.phase_of(A), Phase::AwaitingHeaders);
    assert!(!state.accepts_header(A));
    assert!(!state.accepts_constrained(A));
}

#[test]
fn imports_in_a_circle_are_never_solved() {
    // A imports B; B imports C; C imports B.
    let mut state = LoadState::new(A, &vec![], &vec![]);
    assert_eq!(state.on_header(A, &vec![B]), vec![Action::Load(B)]);
    assert_eq!(
        state.on_header(B, &vec![C]),
        vec![Action::ParseAndConstrain(A), Action::Load(C)]
    );
    assert_eq!(
        state.on_header(C, &vec![B]),
        vec![Action::ParseAndConstrain(B), Action::ParseAndConstrain(C)]
    );
    assert_eq!(state.on_constrained(A), vec![]);
    assert_eq!(state.on_constrained(B), vec![]);
    assert_eq!(state.on_constrained(C), vec![]);
    for m in [A, B, C] {
        assert_eq!(state.phase_of(m), Phase::AwaitingSolves);
        assert!(!state.accepts_header(m));
        assert!(!state.accepts_constrained(m));
        assert!(!state.accepts_solved(m));
    }
    assert!(!state.finished);
    assert!(matches!(state.on_channel_closed(), Err(LoadingProblem::MsgChannelDied)));
}

#[test]
fn module_names_the_symbols_of_other_modules() {
    let here = Symbol::new(B, IdentId(0));
    let there = Symbol::new(A, IdentId(3));
    let elsewhere = Symbol::new(C, IdentId(1));
    let module = Module { module_id: B, references: vec![there, here, elsewhere, there] };
    assert_eq!(module.foreign_references(), vec![there, elsewhere, there]);
    let alone = Module { module_id: B, references: vec![here] };
    assert_eq!(alone.foreign_references(), vec![]);
}
