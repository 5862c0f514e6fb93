use dice_encounter::averager::{merge, preview, Blend, WEIGHT_FRESH, WEIGHT_STORED};

fn blend(plan: &[Blend], fresh: &[(u8, f32)], stored: &[(u8, f32)]) -> Vec<(u8, f32)> {
    let new = WEIGHT_FRESH as f32;
    let old = WEIGHT_STORED as f32;
    plan.iter()
        .map(|entry| match entry {
            Blend::Fresh { value, fresh: at } => (*value, fresh[*at].1),
            Blend::Stored { value, stored: at } => (*value, stored[*at].1),
            Blend::Both { value, fresh: at, stored: other } => {
                (*value, (fresh[*at].1 * new + stored[*other].1 * old) / (new + old))
            }
        })
        .collect()
}

fn values(heights: &[(u8, f32)]) -> Vec<u8> {
    heights.iter().map(|(value, _)| *value).collect()
}

#[test]
fn weights_are_one_to_twenty() {
    assert_eq!(WEIGHT_FRESH, 1);
    assert_eq!(WEIGHT_STORED, 20);
}

#[test]
fn merge_of_one_shared_value_blends_it() {
    let fresh = [(3u8, 0.5f32)];
    let stored = [(3u8, 1.0f32)];
    let plan = merge(&values(&fresh), &values(&stored));
    assert_eq!(plan, vec![Blend::Both { value: 3, fresh: 0, stored: 0 }]);
    let merged = blend(&plan, &fresh, &stored);
    assert_eq!(merged, vec![(3, (0.5f32 * 1.0 + 1.0 * 20.0) / 21.0)]);
}

#[test]
fn merge_passes_through_what_only_one_side_has() {
    let plan = merge(&[1, 4, 6], &[2, 4, 9]);
    assert_eq!(
        plan,
        vec![
            Blend::Fresh { value: 1, fresh: 0 },
            Blend::Stored { value: 2, stored: 0 },
            Blend::Both { value: 4, fresh: 1, stored: 1 },
            Blend::Fresh { value: 6, fresh: 2 },
            Blend::Stored { value: 9, stored: 2 },
        ]
    );
}

#[test]
fn merge_with_an_empty_side_keeps_the_other() {
    assert_eq!(
        merge(&[], &[2, 5]),
        vec![Blend::Stored { value: 2, stored: 0 }, Blend::Stored { value: 5, stored: 1 }]
    );
    assert_eq!(
        merge(&[2, 5], &[]),
        vec![Blend::Fresh { value: 2, fresh: 0 }, Blend::Fresh { value: 5, fresh: 1 }]
    );
    assert!(merge(&[], &[]).is_empty());
}

#[test]
fn merge_keeps_heights_of_unshared_values_unchanged() {
    let fresh = [(2u8, 0.25f32), (5, 1.0)];
    let stored = [(3u8, 0.75f32), (5, 0.5)];
    let plan = merge(&values(&fresh), &values(&stored));
    let merged = blend(&plan, &fresh, &stored);
    assert_eq!(
        merged,
        vec![(2, 0.25), (3, 0.75), (5, (1.0f32 * 1.0 + 0.5 * 20.0) / 21.0)]
    );
}

#[test]
fn merge_result_ascends_and_uses_every_entry() {
    let fresh = [0u8, 3, 7, 8, 200, 255];
    let stored = [1u8, 3, 4, 8, 9, 10, 255];
    let plan = merge(&fresh, &stored);
    for window in plan.windows(2) {
        assert!(window[0].value() < window[1].value());
    }
    let mut from_fresh = Vec::new();
    let mut from_stored = Vec::new();
    for entry in plan.iter() {
        match entry {
            Blend::Fresh { value, fresh: at } => {
                assert_eq!(fresh[*at], *value);
                assert!(!stored.contains(value));
                from_fresh.push(*at);
            }
            Blend::Stored { value, stored: at } => {
                assert_eq!(stored[*at], *value);
                assert!(!fresh.contains(value));
                from_stored.push(*at);
            }
            Blend::Both { value, fresh: at, stored: other } => {
                assert_eq!(fresh[*at], *value);
                assert_eq!(stored[*other], *value);
                from_fresh.push(*at);
                from_stored.push(*other);
            }
        }
    }
    assert_eq!(from_fresh, (0..fresh.len()).collect::<Vec<usize>>());
    assert_eq!(from_stored, (0..stored.len()).collect::<Vec<usize>>());
}

#[test]
fn preview_right_after_a_change_is_not_blended() {
    let plan = preview(&[2, 3], &[3, 4], true);
    assert_eq!(
        plan,
        vec![Blend::Fresh { value: 2, fresh: 0 }, Blend::Fresh { value: 3, fresh: 1 }]
    );
}

#[test]
fn preview_otherwise_is_the_merge() {
    let plan = preview(&[2, 3], &[3, 4], false);
    assert_eq!(plan, merge(&[2, 3], &[3, 4]));
    assert_eq!(
        plan,
        vec![
            Blend::Fresh { value: 2, fresh: 0 },
            Blend::Both { value: 3, fresh: 1, stored: 0 },
            Blend::Stored { value: 4, stored: 1 },
        ]
    );
}

#[test]
fn blended_height_moves_slowly_towards_the_fresh_one() {
    // History dominates: after one frame a bar of 1.0 that now samples at 0.0
    // still stands at twenty twenty-firsts.
    let fresh = [(6u8, 0.0f32)];
    let stored = [(6u8, 1.0f32)];
    let plan = merge(&values(&fresh), &values(&stored));
    let merged = blend(&plan, &fresh, &stored);
    assert_eq!(merged, vec![(6, 20.0f32 / 21.0)]);
}
