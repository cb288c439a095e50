use either_query::{
    resolve_overlap, AccessSet, ComponentFetch, ComponentState, EitherBoth, EitherBothFetch,
    EitherBothState, Group, OverlapBinding, QueryFetch, QueryState,
};

const A: u64 = 1;
const B: u64 = 2;

// 0 = no component, 1 = A only, 2 = B only, 3 = both A and B; the fixed
// cyclic pattern assigning each entity one of the four choices.
const PATTERN: [u8; 33] = [
    0, 1, 2, 3, 0, 1, 2, 0, 3, 1, 2, 0, 1, 3, 2, 0, 1, 0, 2, 3, 1, 0, 2, 1, 3, 0, 2, 1, 0, 3, 2,
    1, 0,
];

// Build the four storage groups the pattern populates, one per component
// set, and report how many entities carry A only, B only, and both.
fn push_entities() -> (Vec<Group>, u32, u32, u32) {
    let mut none_rows: usize = 0;
    let mut left_vals: Vec<u64> = Vec::new();
    let mut right_vals: Vec<u64> = Vec::new();
    let mut both_a: Vec<u64> = Vec::new();
    let mut both_b: Vec<u64> = Vec::new();
    let mut left_count = 0u32;
    let mut right_count = 0u32;
    let mut both_count = 0u32;
    for (k, &c) in PATTERN.iter().enumerate() {
        match c {
            0 => none_rows += 1,
            1 => {
                left_vals.push(k as u64);
                left_count += 1;
            }
            2 => {
                right_vals.push(k as u64);
                right_count += 1;
            }
            _ => {
                both_a.push(k as u64);
                both_b.push(100 + k as u64);
                both_count += 1;
            }
        }
    }
    let groups = vec![
        Group { components: vec![], columns: vec![], rows: none_rows },
        Group { components: vec![A], columns: vec![left_vals.clone()], rows: left_vals.len() },
        Group { components: vec![B], columns: vec![right_vals.clone()], rows: right_vals.len() },
        Group {
            components: vec![A, B],
            columns: vec![both_a.clone(), both_b],
            rows: both_a.len(),
        },
    ];
    (groups, left_count, right_count, both_count)
}

#[test]
fn either_both_test_eitherboth() {
    let (groups, real_left_count, real_right_count, real_both_count) = push_entities();
    let state =
        EitherBothState::init(ComponentState::init(A, false), ComponentState::init(B, false));
    let mut fetch =
        EitherBothFetch::init(ComponentFetch::init(A, true), ComponentFetch::init(B, true));
    let mut l = 0u32;
    let mut r = 0u32;
    let mut b = 0u32;
    for g in &groups {
        if state.matches_archetype(g) {
            fetch.set_archetype(&state, g);
            for row in 0..g.rows {
                match fetch.archetype_fetch(row) {
                    EitherBoth::Left(_) => {
                        l += 1;
                    }
                    EitherBoth::Right(_) => {
                        r += 1;
                    }
                    EitherBoth::Both(_, _) => {
                        b += 1;
                    }
                }
            }
        }
    }
    assert_eq!(l, real_left_count);
    assert_eq!(r, real_right_count);
    assert_eq!(b, real_both_count);
}

#[test]
fn either_both_covers_every_matching_entity() {
    let (groups, real_left_count, real_right_count, real_both_count) = push_entities();
    let state =
        EitherBothState::init(ComponentState::init(A, false), ComponentState::init(B, false));
    let mut fetch =
        EitherBothFetch::init(ComponentFetch::init(A, true), ComponentFetch::init(B, true));
    let mut total = 0u32;
    for g in &groups {
        if state.matches_table(g) {
            fetch.set_table(&state, g);
            total += g.rows as u32;
        }
    }
    assert_eq!(total, real_left_count + real_right_count + real_both_count);
}

#[test]
fn either_both_resolve_overlap_policy() {
    assert_eq!(resolve_overlap(true, false), Ok(OverlapBinding::Left));
    assert_eq!(resolve_overlap(false, true), Ok(OverlapBinding::Right));
    assert_eq!(resolve_overlap(true, true), Ok(OverlapBinding::Both));
    assert!(resolve_overlap(false, false).is_err());
}

#[test]
fn either_both_pairs_values_in_both_case() {
    let g = Group {
        components: vec![A, B],
        columns: vec![vec![10, 11], vec![20, 21]],
        rows: 2,
    };
    let state =
        EitherBothState::init(ComponentState::init(A, false), ComponentState::init(B, false));
    let mut fetch =
        EitherBothFetch::init(ComponentFetch::init(A, true), ComponentFetch::init(B, true));
    fetch.set_archetype(&state, &g);
    assert_eq!(fetch.binding, OverlapBinding::Both);
    assert_eq!(fetch.archetype_fetch(0), EitherBoth::Both(10, 20));
    assert_eq!(fetch.archetype_fetch(1), EitherBoth::Both(11, 21));
    assert_eq!(fetch.binding, OverlapBinding::Both);
}

#[test]
fn either_both_single_sides() {
    let left_only = Group { components: vec![A], columns: vec![vec![5]], rows: 1 };
    let right_only = Group { components: vec![B], columns: vec![vec![6]], rows: 1 };
    let state =
        EitherBothState::init(ComponentState::init(A, false), ComponentState::init(B, false));
    let mut fetch =
        EitherBothFetch::init(ComponentFetch::init(A, true), ComponentFetch::init(B, true));
    fetch.set_archetype(&state, &left_only);
    assert_eq!(fetch.binding, OverlapBinding::Left);
    assert_eq!(fetch.archetype_fetch(0), EitherBoth::Left(5));
    fetch.set_archetype(&state, &right_only);
    assert_eq!(fetch.binding, OverlapBinding::Right);
    assert_eq!(fetch.archetype_fetch(0), EitherBoth::Right(6));
}

#[test]
fn either_both_group_access_only_for_carried_components() {
    let left_only = Group { components: vec![A], columns: vec![vec![5]], rows: 1 };
    let state =
        EitherBothState::init(ComponentState::init(A, true), ComponentState::init(B, true));
    let mut access = AccessSet::new();
    state.update_archetype_component_access(&left_only, &mut access);
    assert!(access.has_read(A));
    assert!(access.has_write(A));
    assert!(!access.has_read(B));
    assert!(!access.has_write(B));
}

#[test]
fn either_both_is_dense_requires_both() {
    let dense =
        EitherBothFetch::init(ComponentFetch::init(A, true), ComponentFetch::init(B, true));
    assert!(dense.is_dense());
    let sparse =
        EitherBothFetch::init(ComponentFetch::init(A, true), ComponentFetch::init(B, false));
    assert!(!sparse.is_dense());
}
