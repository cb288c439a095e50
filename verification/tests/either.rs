use either_query::{
    resolve_priority, AccessSet, ComponentFetch, ComponentState, Either, EitherBothState,
    EitherFetch, Group, PriorityBinding, QueryFetch, QueryState,
};

const A: u64 = 1;
const B: u64 = 2;

// 0 = no component, 1 = A only, 2 = B only, 3 = both A and B; the fixed
// cyclic pattern assigning each entity one of the four choices.
const PATTERN: [u8; 33] = [
    0, 1, 2, 3, 0, 1, 2, 0, 3, 1, 2, 0, 1, 3, 2, 0, 1, 0, 2, 3, 1, 0, 2, 1, 3, 0, 2, 1, 0, 3, 2,
    1, 0,
];

// Build the four storage groups the pattern populates, one per component
// set, and report how many entities carry A only, B only, and both.
fn push_entities() -> (Vec<Group>, u32, u32, u32) {
    let mut none_rows: usize = 0;
    let mut left_vals: Vec<u64> = Vec::new();
    let mut right_vals: Vec<u64> = Vec::new();
    let mut both_a: Vec<u64> = Vec::new();
    let mut both_b: Vec<u64> = Vec::new();
    let mut left_count = 0u32;
    let mut right_count = 0u32;
    let mut both_count = 0u32;
    for (k, &c) in PATTERN.iter().enumerate() {
        match c {
            0 => none_rows += 1,
            1 => {
                left_vals.push(k as u64);
                left_count += 1;
            }
            2 => {
                right_vals.push(k as u64);
                right_count += 1;
            }
            _ => {
                both_a.push(k as u64);
                both_b.push(100 + k as u64);
                both_count += 1;
            }
        }
    }
    let groups = vec![
        Group { components: vec![], columns: vec![], rows: none_rows },
        Group { components: vec![A], columns: vec![left_vals.clone()], rows: left_vals.len() },
        Group { components: vec![B], columns: vec![right_vals.clone()], rows: right_vals.len() },
        Group {
            components: vec![A, B],
            columns: vec![both_a.clone(), both_b],
            rows: both_a.len(),
        },
    ];
    (groups, left_count, right_count, both_count)
}

#[test]
fn either_test_eitherboth() {
    let (groups, real_left_count, real_right_count, real_both_count) = push_entities();
    let state =
        EitherBothState::init(ComponentState::init(A, false), ComponentState::init(B, false));
    let mut fetch =
        EitherFetch::init(ComponentFetch::init(A, true), ComponentFetch::init(B, true));
    let mut l = 0u32;
    let mut r = 0u32;
    for g in &groups {
        if state.matches_archetype(g) {
            fetch.set_archetype(&state, g);
            for row in 0..g.rows {
                match fetch.archetype_fetch(row) {
                    Either::Left(_) => {
                        l += 1;
                    }
                    Either::Right(_) => {
                        r += 1;
                    }
                }
            }
        }
    }
    assert_eq!(l, real_left_count + real_both_count);
    assert_eq!(r, real_right_count);
}

#[test]
fn either_table_counts_match_archetype_counts() {
    let (groups, real_left_count, real_right_count, real_both_count) = push_entities();
    let state =
        EitherBothState::init(ComponentState::init(A, false), ComponentState::init(B, false));
    let mut fetch =
        EitherFetch::init(ComponentFetch::init(A, true), ComponentFetch::init(B, true));
    let mut l = 0u32;
    let mut r = 0u32;
    for g in &groups {
        if state.matches_table(g) {
            fetch.set_table(&state, g);
            for row in 0..g.rows {
                match fetch.table_fetch(row) {
                    Either::Left(_) => {
                        l += 1;
                    }
                    Either::Right(_) => {
                        r += 1;
                    }
                }
            }
        }
    }
    assert_eq!(l, real_left_count + real_both_count);
    assert_eq!(r, real_right_count);
}

#[test]
fn either_resolve_priority_policy() {
    assert_eq!(resolve_priority(true, false), Ok(PriorityBinding::Left));
    assert_eq!(resolve_priority(true, true), Ok(PriorityBinding::Left));
    assert_eq!(resolve_priority(false, true), Ok(PriorityBinding::Right));
    assert!(resolve_priority(false, false).is_err());
}

#[test]
fn either_prefers_first_when_both_match() {
    let g = Group {
        components: vec![A, B],
        columns: vec![vec![10, 11], vec![20, 21]],
        rows: 2,
    };
    let state =
        EitherBothState::init(ComponentState::init(A, false), ComponentState::init(B, false));
    let mut fetch =
        EitherFetch::init(ComponentFetch::init(A, true), ComponentFetch::init(B, true));
    fetch.set_archetype(&state, &g);
    assert_eq!(fetch.binding, PriorityBinding::Left);
    assert_eq!(fetch.archetype_fetch(0), Either::Left(10));
    assert_eq!(fetch.archetype_fetch(1), Either::Left(11));
}

#[test]
fn either_binding_stable_between_rebindings() {
    let g = Group { components: vec![B], columns: vec![vec![7, 8, 9]], rows: 3 };
    let state =
        EitherBothState::init(ComponentState::init(A, false), ComponentState::init(B, false));
    let mut fetch =
        EitherFetch::init(ComponentFetch::init(A, true), ComponentFetch::init(B, true));
    fetch.set_archetype(&state, &g);
    assert_eq!(fetch.binding, PriorityBinding::Right);
    for row in 0..3 {
        let it = fetch.archetype_fetch(row);
        assert_eq!(it, Either::Right(7 + row as u64));
        assert_eq!(fetch.binding, PriorityBinding::Right);
    }
}

#[test]
fn either_repeated_runs_identical() {
    let (groups, _, _, _) = push_entities();
    let state =
        EitherBothState::init(ComponentState::init(A, false), ComponentState::init(B, false));
    let mut first_run: Vec<Either<u64, u64>> = Vec::new();
    let mut second_run: Vec<Either<u64, u64>> = Vec::new();
    for out in [&mut first_run, &mut second_run] {
        let mut fetch =
            EitherFetch::init(ComponentFetch::init(A, true), ComponentFetch::init(B, true));
        for g in &groups {
            if state.matches_archetype(g) {
                fetch.set_archetype(&state, g);
                for row in 0..g.rows {
                    out.push(fetch.archetype_fetch(row));
                }
            }
        }
    }
    assert_eq!(first_run, second_run);
}

#[test]
fn either_is_dense_requires_both() {
    let dense =
        EitherFetch::init(ComponentFetch::init(A, true), ComponentFetch::init(B, true));
    assert!(dense.is_dense());
    let sparse_left =
        EitherFetch::init(ComponentFetch::init(A, false), ComponentFetch::init(B, true));
    assert!(!sparse_left.is_dense());
    let sparse_right =
        EitherFetch::init(ComponentFetch::init(A, true), ComponentFetch::init(B, false));
    assert!(!sparse_right.is_dense());
}

#[test]
fn either_nests_inside_either() {
    const C: u64 = 3;
    let g = Group { components: vec![B, C], columns: vec![vec![40], vec![50]], rows: 1 };
    let inner_state =
        EitherBothState::init(ComponentState::init(A, false), ComponentState::init(B, false));
    let state = EitherBothState::init(inner_state, ComponentState::init(C, false));
    let inner =
        EitherFetch::init(ComponentFetch::init(A, true), ComponentFetch::init(B, true));
    let mut fetch = EitherFetch::init(inner, ComponentFetch::init(C, true));
    assert!(state.matches_archetype(&g));
    fetch.set_archetype(&state, &g);
    assert_eq!(fetch.archetype_fetch(0), Either::Left(Either::Right(40)));
}

#[test]
fn either_state_access_is_union() {
    let state =
        EitherBothState::init(ComponentState::init(A, false), ComponentState::init(B, true));
    let mut access = AccessSet::new();
    state.update_component_access(&mut access);
    assert!(access.has_read(A));
    assert!(access.has_read(B));
    assert!(!access.has_write(A));
    assert!(access.has_write(B));
}
