use casper_core::key::{EraId, Key};
use casper_core::purge::{calculate_purge_eras, generate_range_by_index};

#[test]
fn calculation_is_safe_with_invalid_input() {
    assert_eq!(calculate_purge_eras(EraId::new(0), 0, 0, 0,), None);
    assert_eq!(calculate_purge_eras(EraId::new(u64::MAX), 0, 0, 0,), None);
    assert_eq!(
        calculate_purge_eras(EraId::new(u64::MAX), 1, u64::MAX, u64::MAX),
        None
    );
}
#[test]
fn calculation_is_lazy() {
    assert!(calculate_purge_eras(EraId::new(u64::MAX), 0, u64::MAX, 100,).is_none(),);
    assert_eq!(
        calculate_purge_eras(EraId::new(u64::MAX), 1, 100, 100,)
            .unwrap()
            .len(),
        100
    );
}
#[test]
fn should_calculate_prune_eras() {
    let activation_height = 50;
    let current_height = 50;
    const ACTIVATION_POINT_ERA_ID: EraId = EraId(5);

    // batch size 1

    assert_eq!(
        calculate_purge_eras(
            ACTIVATION_POINT_ERA_ID,
            activation_height,
            current_height,
            1
        ),
        Some(vec![Key::EraInfo(EraId::new(0))])
    );
    assert_eq!(
        calculate_purge_eras(
            ACTIVATION_POINT_ERA_ID,
            activation_height,
            current_height + 1,
            1
        ),
        Some(vec![Key::EraInfo(EraId::new(1))])
    );
    assert_eq!(
        calculate_purge_eras(
            ACTIVATION_POINT_ERA_ID,
            activation_height,
            current_height + 2,
            1
        ),
        Some(vec![Key::EraInfo(EraId::new(2))])
    );
    assert_eq!(
        calculate_purge_eras(
            ACTIVATION_POINT_ERA_ID,
            activation_height,
            current_height + 3,
            1
        ),
        Some(vec![Key::EraInfo(EraId::new(3))])
    );
    assert_eq!(
        calculate_purge_eras(
            ACTIVATION_POINT_ERA_ID,
            activation_height,
            current_height + 4,
            1
        ),
        Some(vec![Key::EraInfo(EraId::new(4))])
    );
    assert_eq!(
        calculate_purge_eras(
            ACTIVATION_POINT_ERA_ID,
            activation_height,
            current_height + 5,
            1
        ),
        None,
    );
    assert_eq!(
        calculate_purge_eras(ACTIVATION_POINT_ERA_ID, activation_height, u64::MAX, 1),
        None,
    );

    // batch size 2

    assert_eq!(
        calculate_purge_eras(
            ACTIVATION_POINT_ERA_ID,
            activation_height,
            current_height,
            2
        ),
        Some(vec![
            Key::EraInfo(EraId::new(0)),
            Key::EraInfo(EraId::new(1))
        ])
    );
    assert_eq!(
        calculate_purge_eras(
            ACTIVATION_POINT_ERA_ID,
            activation_height,
            current_height + 1,
            2
        ),
        Some(vec![
            Key::EraInfo(EraId::new(2)),
            Key::EraInfo(EraId::new(3))
        ])
    );
    assert_eq!(
        calculate_purge_eras(
            ACTIVATION_POINT_ERA_ID,
            activation_height,
            current_height + 2,
            2
        ),
        Some(vec![Key::EraInfo(EraId::new(4))])
    );
    assert_eq!(
        calculate_purge_eras(
            ACTIVATION_POINT_ERA_ID,
            activation_height,
            current_height + 3,
            2
        ),
        None
    );
    assert_eq!(
        calculate_purge_eras(ACTIVATION_POINT_ERA_ID, activation_height, u64::MAX, 2),
        None,
    );

    // batch size 3

    assert_eq!(
        calculate_purge_eras(
            ACTIVATION_POINT_ERA_ID,
            activation_height,
            current_height,
            3
        ),
        Some(vec![
            Key::EraInfo(EraId::new(0)),
            Key::EraInfo(EraId::new(1)),
            Key::EraInfo(EraId::new(2)),
        ])
    );
    assert_eq!(
        calculate_purge_eras(
            ACTIVATION_POINT_ERA_ID,
            activation_height,
            current_height + 1,
            3
        ),
        Some(vec![
            Key::EraInfo(EraId::new(3)),
            Key::EraInfo(EraId::new(4)),
        ])
    );

    assert_eq!(
        calculate_purge_eras(
            ACTIVATION_POINT_ERA_ID,
            activation_height,
            current_height + 2,
            3
        ),
        None
    );
    assert_eq!(
        calculate_purge_eras(ACTIVATION_POINT_ERA_ID, activation_height, u64::MAX, 3),
        None,
    );

    // batch size 4

    assert_eq!(
        calculate_purge_eras(
            ACTIVATION_POINT_ERA_ID,
            activation_height,
            current_height,
            4
        ),
        Some(vec![
            Key::EraInfo(EraId::new(0)),
            Key::EraInfo(EraId::new(1)),
            Key::EraInfo(EraId::new(2)),
            Key::EraInfo(EraId::new(3)),
        ])
    );
    assert_eq!(
        calculate_purge_eras(
            ACTIVATION_POINT_ERA_ID,
            activation_height,
            current_height + 1,
            4
        ),
        Some(vec![Key::EraInfo(EraId::new(4)),])
    );

    assert_eq!(
        calculate_purge_eras(
            ACTIVATION_POINT_ERA_ID,
            activation_height,
            current_height + 2,
            4
        ),
        None
    );
    assert_eq!(
        calculate_purge_eras(ACTIVATION_POINT_ERA_ID, activation_height, u64::MAX, 4),
        None,
    );

    // batch size 5

    assert_eq!(
        calculate_purge_eras(
            ACTIVATION_POINT_ERA_ID,
            activation_height,
            current_height,
            5
        ),
        Some(vec![
            Key::EraInfo(EraId::new(0)),
            Key::EraInfo(EraId::new(1)),
            Key::EraInfo(EraId::new(2)),
            Key::EraInfo(EraId::new(3)),
            Key::EraInfo(EraId::new(4)),
        ])
    );
    assert_eq!(
        calculate_purge_eras(
            ACTIVATION_POINT_ERA_ID,
            activation_height,
            current_height + 1,
            5
        ),
        None,
    );

    assert_eq!(
        calculate_purge_eras(
            ACTIVATION_POINT_ERA_ID,
            activation_height,
            current_height + 2,
            5
        ),
        None
    );
    assert_eq!(
        calculate_purge_eras(ACTIVATION_POINT_ERA_ID, activation_height, u64::MAX, 5),
        None,
    );

    // batch size 6

    assert_eq!(
        calculate_purge_eras(
            ACTIVATION_POINT_ERA_ID,
            activation_height,
            current_height,
            6
        ),
        Some(vec![
            Key::EraInfo(EraId::new(0)),
            Key::EraInfo(EraId::new(1)),
            Key::EraInfo(EraId::new(2)),
            Key::EraInfo(EraId::new(3)),
            Key::EraInfo(EraId::new(4)),
        ])
    );
    assert_eq!(
        calculate_purge_eras(
            ACTIVATION_POINT_ERA_ID,
            activation_height,
            current_height + 1,
            6
        ),
        None,
    );

    assert_eq!(
        calculate_purge_eras(
            ACTIVATION_POINT_ERA_ID,
            activation_height,
            current_height + 2,
            6
        ),
        None
    );
    assert_eq!(
        calculate_purge_eras(ACTIVATION_POINT_ERA_ID, activation_height, u64::MAX, 6),
        None,
    );

    // batch size max

    assert_eq!(
        calculate_purge_eras(
            ACTIVATION_POINT_ERA_ID,
            activation_height,
            current_height,
            u64::MAX,
        ),
        Some(vec![
            Key::EraInfo(EraId::new(0)),
            Key::EraInfo(EraId::new(1)),
            Key::EraInfo(EraId::new(2)),
            Key::EraInfo(EraId::new(3)),
            Key::EraInfo(EraId::new(4)),
        ])
    );
    assert_eq!(
        calculate_purge_eras(
            ACTIVATION_POINT_ERA_ID,
            activation_height,
            current_height + 1,
            u64::MAX,
        ),
        None,
    );

    assert_eq!(
        calculate_purge_eras(
            ACTIVATION_POINT_ERA_ID,
            activation_height,
            current_height + 2,
            u64::MAX,
        ),
        None
    );
    assert_eq!(
        calculate_purge_eras(
            ACTIVATION_POINT_ERA_ID,
            activation_height,
            u64::MAX,
            u64::MAX,
        ),
        None,
    );
}

#[test]
fn purge_batches_of_two_walk_the_history() {
    assert_eq!(
        calculate_purge_eras(EraId::new(5), 50, 50, 2),
        Some(vec![Key::EraInfo(EraId::new(0)), Key::EraInfo(EraId::new(1))])
    );
    assert_eq!(
        calculate_purge_eras(EraId::new(5), 50, 51, 2),
        Some(vec![Key::EraInfo(EraId::new(2)), Key::EraInfo(EraId::new(3))])
    );
    assert_eq!(
        calculate_purge_eras(EraId::new(5), 50, 52, 2),
        Some(vec![Key::EraInfo(EraId::new(4))])
    );
    assert_eq!(calculate_purge_eras(EraId::new(5), 50, 53, 2), None);
}

#[test]
fn zero_batch_size_never_purges() {
    for (era, activation, current) in [
        (0u64, 0u64, 0u64),
        (5, 50, 50),
        (u64::MAX, 0, u64::MAX),
        (u64::MAX, u64::MAX, u64::MAX),
    ] {
        assert_eq!(calculate_purge_eras(EraId::new(era), activation, current, 0), None);
    }
}

#[test]
fn no_history_never_purges() {
    for (activation, current, batch) in [(0u64, 0u64, 1u64), (50, 50, 2), (0, 3, u64::MAX)] {
        assert_eq!(calculate_purge_eras(EraId::new(0), activation, current, batch), None);
    }
}

#[test]
fn height_before_activation_purges_nothing() {
    assert_eq!(calculate_purge_eras(EraId::new(5), 50, 49, 2), None);
}

#[test]
fn range_by_index_is_clamped_and_guarded() {
    assert_eq!(generate_range_by_index(5, 2, 0), Some(0..2));
    assert_eq!(generate_range_by_index(5, 2, 2), Some(4..5));
    assert_eq!(generate_range_by_index(5, 2, 3), Some(6..5));
    assert_eq!(generate_range_by_index(u64::MAX, 2, u64::MAX / 2), None);
    assert_eq!(generate_range_by_index(u64::MAX, u64::MAX, 1), None);
}

#[test]
fn era_successor_saturates() {
    assert_eq!(EraId::new(4).successor(), EraId::new(5));
    assert_eq!(EraId::new(u64::MAX).successor(), EraId::new(u64::MAX));
    assert_eq!(EraId::new(7).value(), 7);
}

#[test]
fn consecutive_batches_cover_the_history_once() {
    let mut all: Vec<Key> = Vec::new();
    for height in 20..30u64 {
        if let Some(keys) = calculate_purge_eras(EraId::new(10), 20, height, 3) {
            all.extend(keys);
        }
    }
    let expected: Vec<Key> = (0..10u64).map(|e| Key::EraInfo(EraId::new(e))).collect();
    assert_eq!(all, expected);
}
