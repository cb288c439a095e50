use either_query::{
    ComponentFetch, ComponentState, EitherManyFetch, EitherManyState, Group, QueryFetch,
    QueryState,
};

const A: u64 = 1;
const B: u64 = 2;
const C: u64 = 3;

// 0 = no component, 1 = A only, 2 = B only, 3 = both A and B; the fixed
// cyclic pattern assigning each entity one of the four choices.
const PATTERN: [u8; 33] = [
    0, 1, 2, 3, 0, 1, 2, 0, 3, 1, 2, 0, 1, 3, 2, 0, 1, 0, 2, 3, 1, 0, 2, 1, 3, 0, 2, 1, 0, 3, 2,
    1, 0,
];

// Build the four storage groups the pattern populates, one per component
// set, and report how many entities carry A only, B only, and both.
fn push_entities() -> (Vec<Group>, u32, u32, u32) {
    let mut none_rows: usize = 0;
    let mut left_vals: Vec<u64> = Vec::new();
    let mut right_vals: Vec<u64> = Vec::new();
    let mut both_a: Vec<u64> = Vec::new();
    let mut both_b: Vec<u64> = Vec::new();
    let mut left_count = 0u32;
    let mut right_count = 0u32;
    let mut both_count = 0u32;
    for (k, &c) in PATTERN.iter().enumerate() {
        match c {
            0 => none_rows += 1,
            1 => {
                left_vals.push(k as u64);
                left_count += 1;
            }
            2 => {
                right_vals.push(k as u64);
                right_count += 1;
            }
            _ => {
                both_a.push(k as u64);
                both_b.push(100 + k as u64);
                both_count += 1;
            }
        }
    }
    let groups = vec![
        Group { components: vec![], columns: vec![], rows: none_rows },
        Group { components: vec![A], columns: vec![left_vals.clone()], rows: left_vals.len() },
        Group { components: vec![B], columns: vec![right_vals.clone()], rows: right_vals.len() },
        Group {
            components: vec![A, B],
            columns: vec![both_a.clone(), both_b],
            rows: both_a.len(),
        },
    ];
    (groups, left_count, right_count, both_count)
}

#[test]
fn main() {
    let (groups, real_left_count, real_right_count, real_both_count) = push_entities();
    let state = EitherManyState::init(vec![
        ComponentState::init(A, false),
        ComponentState::init(B, false),
    ]);
    let mut fetch = EitherManyFetch::init(vec![
        ComponentFetch::init(A, true),
        ComponentFetch::init(B, true),
    ]);
    let mut l = 0u32;
    let mut r = 0u32;
    for g in &groups {
        if state.matches_archetype(g) {
            fetch.set_archetype(&state, g);
            for row in 0..g.rows {
                match fetch.archetype_fetch(row).index {
                    0 => {
                        l += 1;
                    }
                    _ => {
                        r += 1;
                    }
                }
            }
        }
    }
    assert_eq!(l, real_left_count + real_both_count);
    assert_eq!(r, real_right_count);
}

#[test]
fn either_many_earliest_declared_wins() {
    let g = Group {
        components: vec![B, C],
        columns: vec![vec![20, 21], vec![30, 31]],
        rows: 2,
    };
    let state = EitherManyState::init(vec![
        ComponentState::init(A, false),
        ComponentState::init(B, false),
        ComponentState::init(C, false),
    ]);
    let mut fetch = EitherManyFetch::init(vec![
        ComponentFetch::init(A, true),
        ComponentFetch::init(B, true),
        ComponentFetch::init(C, true),
    ]);
    assert!(state.matches_archetype(&g));
    fetch.set_archetype(&state, &g);
    assert_eq!(fetch.binding, 1);
    let it = fetch.archetype_fetch(0);
    assert_eq!(it.index, 1);
    assert_eq!(it.item, 20);
    let it = fetch.archetype_fetch(1);
    assert_eq!(it.index, 1);
    assert_eq!(it.item, 21);
    assert_eq!(fetch.binding, 1);
}

#[test]
fn either_many_table_path() {
    let g = Group { components: vec![C], columns: vec![vec![77]], rows: 1 };
    let state = EitherManyState::init(vec![
        ComponentState::init(A, false),
        ComponentState::init(B, false),
        ComponentState::init(C, false),
    ]);
    let mut fetch = EitherManyFetch::init(vec![
        ComponentFetch::init(A, true),
        ComponentFetch::init(B, true),
        ComponentFetch::init(C, true),
    ]);
    assert!(state.matches_table(&g));
    fetch.set_table(&state, &g);
    assert_eq!(fetch.binding, 2);
    let it = fetch.table_fetch(0);
    assert_eq!(it.index, 2);
    assert_eq!(it.item, 77);
}

#[test]
fn either_many_no_participant_matches() {
    let g = Group { components: vec![9], columns: vec![vec![0]], rows: 1 };
    let state = EitherManyState::init(vec![
        ComponentState::init(A, false),
        ComponentState::init(B, false),
    ]);
    assert!(!state.matches_archetype(&g));
    assert!(!state.matches_table(&g));
}

#[test]
fn either_many_is_dense_when_any_is() {
    let all_sparse = EitherManyFetch::init(vec![
        ComponentFetch::init(A, false),
        ComponentFetch::init(B, false),
    ]);
    assert!(!all_sparse.is_dense());
    let one_dense = EitherManyFetch::init(vec![
        ComponentFetch::init(A, false),
        ComponentFetch::init(B, true),
    ]);
    assert!(one_dense.is_dense());
}

#[test]
fn either_many_repeated_runs_identical() {
    let (groups, _, _, _) = push_entities();
    let state = EitherManyState::init(vec![
        ComponentState::init(A, false),
        ComponentState::init(B, false),
    ]);
    let mut first_run: Vec<(usize, u64)> = Vec::new();
    let mut second_run: Vec<(usize, u64)> = Vec::new();
    for out in [&mut first_run, &mut second_run] {
        let mut fetch = EitherManyFetch::init(vec![
            ComponentFetch::init(A, true),
            ComponentFetch::init(B, true),
        ]);
        for g in &groups {
            if state.matches_archetype(g) {
                fetch.set_archetype(&state, g);
                for row in 0..g.rows {
                    let it = fetch.archetype_fetch(row);
                    out.push((it.index, it.item));
                }
            }
        }
    }
    assert_eq!(first_run, second_run);
}
