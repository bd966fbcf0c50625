use ball_game::config::{DIRECTION_ONE, ENEMY_SIZE, PLAYER_SIZE, STAR_SIZE};
use ball_game::confinement::{get_confinement, Confinement, ConfinementError, Window};
use ball_game::math::{isqrt, mul_div, saturate_i32};
use ball_game::vec2::Vec2;

#[test]
fn isqrt_rounds_down() {
    assert_eq!(isqrt(0), 0);
    assert_eq!(isqrt(1), 1);
    assert_eq!(isqrt(2), 1);
    assert_eq!(isqrt(3), 1);
    assert_eq!(isqrt(4), 2);
    assert_eq!(isqrt(24), 4);
    assert_eq!(isqrt(25), 5);
    assert_eq!(isqrt(2_000_000_000_000), 1_414_213);
    assert_eq!(isqrt(u128::MAX), u64::MAX);
}

#[test]
fn isqrt_brackets_every_small_number() {
    for n in 0u128..5_000 {
        let r = isqrt(n) as u128;
        assert!(r * r <= n && n < (r + 1) * (r + 1));
    }
}

#[test]
fn mul_div_rounds_toward_zero() {
    assert_eq!(mul_div(7, 3, 2), 10);
    assert_eq!(mul_div(-7, 3, 2), -10);
    assert_eq!(mul_div(0, 3, 2), 0);
    assert_eq!(mul_div(i32::MIN, 1, 1), i32::MIN as i128);
}

#[test]
fn saturate_keeps_small_values_and_clips_large_ones() {
    assert_eq!(saturate_i32(5), 5);
    assert_eq!(saturate_i32(-5), -5);
    assert_eq!(saturate_i32(i32::MAX as i128 + 1), i32::MAX);
    assert_eq!(saturate_i32(i32::MIN as i128 - 1), i32::MIN);
}

#[test]
fn confinement_of_the_example_window() {
    let window = Window { width: 800_000, height: 600_000 };
    assert_eq!(
        get_confinement(&window, ENEMY_SIZE),
        Ok(Confinement { x_min: 32_000, x_max: 768_000, y_min: 32_000, y_max: 568_000 })
    );
    assert_eq!(
        get_confinement(&window, PLAYER_SIZE),
        Ok(Confinement { x_min: 32_000, x_max: 768_000, y_min: 32_000, y_max: 568_000 })
    );
    assert_eq!(
        get_confinement(&window, STAR_SIZE),
        Ok(Confinement { x_min: 15_000, x_max: 785_000, y_min: 15_000, y_max: 585_000 })
    );
}

#[test]
fn confinement_halves_an_odd_size_downward() {
    let window = Window { width: 10, height: 20 };
    assert_eq!(
        get_confinement(&window, 5),
        Ok(Confinement { x_min: 2, x_max: 8, y_min: 2, y_max: 18 })
    );
}

#[test]
fn confinement_rejects_a_negative_size() {
    let window = Window { width: 800_000, height: 600_000 };
    assert_eq!(get_confinement(&window, -1), Err(ConfinementError::NegativeSize));
}

#[test]
fn confinement_rejects_a_window_as_wide_as_the_entity() {
    let window = Window { width: 64_000, height: 600_000 };
    assert_eq!(get_confinement(&window, 64_000), Err(ConfinementError::WindowTooNarrow));
    let narrow = Window { width: -5, height: 600_000 };
    assert_eq!(get_confinement(&narrow, 0), Err(ConfinementError::WindowTooNarrow));
}

#[test]
fn confinement_rejects_a_window_as_high_as_the_entity() {
    let window = Window { width: 800_000, height: 64_000 };
    assert_eq!(get_confinement(&window, 64_000), Err(ConfinementError::WindowTooLow));
}

#[test]
fn confinement_accepts_a_window_one_unit_larger() {
    let window = Window { width: 64_001, height: 64_001 };
    assert_eq!(
        get_confinement(&window, 64_000),
        Ok(Confinement { x_min: 32_000, x_max: 32_001, y_min: 32_000, y_max: 32_001 })
    );
}

#[test]
fn clamping_moves_each_coordinate_to_the_nearest_wall() {
    let rect = Confinement { x_min: 32_000, x_max: 768_000, y_min: 32_000, y_max: 568_000 };
    assert_eq!(rect.clamp_point(Vec2 { x: 0, y: 0 }), Vec2 { x: 32_000, y: 32_000 });
    assert_eq!(rect.clamp_point(Vec2 { x: 900_000, y: 100_000 }), Vec2 { x: 768_000, y: 100_000 });
    assert_eq!(rect.clamp_point(Vec2 { x: 100_000, y: 700_000 }), Vec2 { x: 100_000, y: 568_000 });
    assert_eq!(rect.clamp_point(Vec2 { x: 100_000, y: 200_000 }), Vec2 { x: 100_000, y: 200_000 });
}

#[test]
fn clamping_twice_is_clamping_once() {
    let rect = Confinement { x_min: 32_000, x_max: 768_000, y_min: 32_000, y_max: 568_000 };
    for point in [
        Vec2 { x: -7, y: 1_000_000 },
        Vec2 { x: 32_000, y: 568_000 },
        Vec2 { x: i32::MAX, y: i32::MIN },
        Vec2 { x: 400_000, y: 300_000 },
    ] {
        let once = rect.clamp_point(point);
        assert!(rect.contains_point(&once));
        assert_eq!(rect.clamp_point(once), once);
    }
}

#[test]
fn contains_point_counts_the_walls() {
    let rect = Confinement { x_min: 1, x_max: 3, y_min: 1, y_max: 3 };
    assert!(rect.contains_point(&Vec2 { x: 1, y: 3 }));
    assert!(!rect.contains_point(&Vec2 { x: 0, y: 3 }));
    assert!(!rect.contains_point(&Vec2 { x: 1, y: 4 }));
}

#[test]
fn normalizing_scales_to_length_one() {
    assert_eq!(Vec2 { x: 0, y: 0 }.normalize_or_zero(), Vec2 { x: 0, y: 0 });
    assert_eq!(Vec2 { x: 3, y: 4 }.normalize_or_zero(), Vec2 { x: 600_000, y: 800_000 });
    assert_eq!(Vec2 { x: -3, y: 4 }.normalize_or_zero(), Vec2 { x: -600_000, y: 800_000 });
    assert_eq!(Vec2 { x: 1, y: 0 }.normalize_or_zero(), Vec2 { x: DIRECTION_ONE, y: 0 });
    assert_eq!(Vec2 { x: 0, y: -250 }.normalize_or_zero(), Vec2 { x: 0, y: -DIRECTION_ONE });
    assert_eq!(Vec2 { x: 1, y: 1 }.normalize_or_zero(), Vec2 { x: 707_107, y: 707_107 });
    assert_eq!(Vec2 { x: -1, y: 1 }.normalize_or_zero(), Vec2 { x: -707_107, y: 707_107 });
}

#[test]
fn normalizing_keeps_length_one_within_rounding() {
    let low = (DIRECTION_ONE as i64 - 2) * (DIRECTION_ONE as i64 - 2);
    let high = (DIRECTION_ONE as i64 + 1) * (DIRECTION_ONE as i64 + 1);
    for vector in [
        Vec2 { x: 1, y: 2 },
        Vec2 { x: -17, y: 5 },
        Vec2 { x: 123_456, y: -654_321 },
        Vec2 { x: i32::MAX, y: i32::MAX },
        Vec2 { x: i32::MIN, y: i32::MIN },
        Vec2 { x: i32::MIN, y: 1 },
        Vec2 { x: 1, y: i32::MAX },
    ] {
        let unit = vector.normalize_or_zero();
        let squared = unit.x as i64 * unit.x as i64 + unit.y as i64 * unit.y as i64;
        assert!(low <= squared && squared <= high);
    }
}

#[test]
fn is_within_distance_counts_the_boundary() {
    let origin = Vec2 { x: 0, y: 0 };
    assert!(origin.is_within_distance(&Vec2 { x: 64_000, y: 0 }, 64_000));
    assert!(!origin.is_within_distance(&Vec2 { x: 64_001, y: 0 }, 64_000));
    assert!(origin.is_within_distance(&Vec2 { x: 38_400, y: 51_200 }, 64_000));
    assert!(!origin.is_within_distance(&Vec2 { x: 38_400, y: 51_201 }, 64_000));
    assert!(origin.is_within_distance(&origin, 0));
    assert!(!origin.is_within_distance(&origin, -1));
}

#[test]
fn is_within_distance_takes_the_farthest_points() {
    let low = Vec2 { x: i32::MIN, y: i32::MIN };
    let high = Vec2 { x: i32::MAX, y: i32::MAX };
    assert!(!low.is_within_distance(&high, i32::MAX));
    assert!(high.is_within_distance(&high, 0));
}

#[test]
fn advancing_covers_speed_times_time() {
    let start = Vec2 { x: 100, y: 200 };
    let right = Vec2 { x: DIRECTION_ONE, y: 0 };
    assert_eq!(start.advance(right, 200_000, 1_000_000), Vec2 { x: 200_100, y: 200 });
    assert_eq!(start.advance(right, 200_000, 16_667), Vec2 { x: 3_433, y: 200 });
    let down_left = Vec2 { x: -707_107, y: -707_107 };
    assert_eq!(start.advance(down_left, 200_000, 1_000_000), Vec2 { x: -141_321, y: -141_221 });
    assert_eq!(start.advance(Vec2 { x: 0, y: 0 }, 200_000, 1_000_000), start);
    assert_eq!(start.advance(right, 200_000, 0), start);
}

#[test]
fn advancing_stops_at_the_end_of_the_coordinates() {
    let start = Vec2 { x: 0, y: 0 };
    let direction = Vec2 { x: DIRECTION_ONE, y: -DIRECTION_ONE };
    assert_eq!(
        start.advance(direction, u32::MAX, u64::MAX),
        Vec2 { x: i32::MAX, y: i32::MIN }
    );
    let wild = Vec2 { x: i32::MAX, y: i32::MIN };
    assert_eq!(start.advance(wild, u32::MAX, u64::MAX), Vec2 { x: i32::MAX, y: i32::MIN });
}

#[test]
fn translating_saturates() {
    let point = Vec2 { x: i32::MAX - 1, y: i32::MIN + 1 };
    assert_eq!(point.translate(5, -5), Vec2 { x: i32::MAX, y: i32::MIN });
    assert_eq!(point.translate(-1, 1), Vec2 { x: i32::MAX - 2, y: i32::MIN + 2 });
    assert_eq!(point.translate(i128::MAX, i128::MIN), Vec2 { x: i32::MAX, y: i32::MIN });
    assert_eq!(point.translate(i128::MIN, i128::MAX), Vec2 { x: i32::MIN, y: i32::MAX });
}

#[test]
fn unit_from_points_toward_the_first_point() {
    let player = Vec2 { x: 0, y: 0 };
    let enemy = Vec2 { x: 30_000, y: 40_000 };
    assert_eq!(player.unit_from(&enemy), Vec2 { x: -600_000, y: -800_000 });
    assert_eq!(enemy.unit_from(&player), Vec2 { x: 600_000, y: 800_000 });
    assert_eq!(player.unit_from(&player), Vec2 { x: 0, y: 0 });
}

#[test]
fn scaling_stretches_a_direction() {
    assert_eq!(Vec2 { x: -600_000, y: 800_000 }.scale(50_000), Vec2 { x: -30_000, y: 40_000 });
    assert_eq!(Vec2 { x: 707_107, y: 707_107 }.scale(50_000), Vec2 { x: 35_355, y: 35_355 });
    assert_eq!(Vec2 { x: 0, y: 0 }.scale(50_000), Vec2 { x: 0, y: 0 });
    assert_eq!(Vec2::origin(), Vec2 { x: 0, y: 0 });
}
