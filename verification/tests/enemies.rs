use ball_game::config::{DIRECTION_ONE, NUMBER_OF_ENEMIES};
use ball_game::confinement::{Confinement, ConfinementError, Window};
use ball_game::enemy::{
    confine_enemy_movement, despawn_enemies, enemy_movement, enemy_redirection, spawn_enemies,
    spawn_enemy_at, Enemy,
};
use ball_game::session::Session;
use ball_game::vec2::Vec2;

fn example_window() -> Window {
    Window { width: 800_000, height: 600_000 }
}

fn sampled_directions() -> Vec<Vec2> {
    let mut directions = Vec::new();
    for x in [-1, 0, 1] {
        for y in [-1, 0, 1] {
            let step = if x != 0 && y != 0 { 707_107 } else { DIRECTION_ONE };
            directions.push(Vec2 { x: x * step, y: y * step });
        }
    }
    directions
}

#[test]
fn the_initial_enemies_lie_in_their_rectangle() {
    let mut session = Session::new();
    assert_eq!(spawn_enemies(&mut session, &example_window()), Ok(()));
    assert_eq!(session.enemies.len(), 4);
    assert_eq!(session.enemies.len(), NUMBER_OF_ENEMIES);
    for enemy in &session.enemies {
        assert!(32_000 <= enemy.position.x && enemy.position.x <= 768_000);
        assert!(32_000 <= enemy.position.y && enemy.position.y <= 568_000);
        assert_eq!(enemy.direction, Vec2 { x: 0, y: 0 });
    }
    assert!(session.player.is_none());
    assert!(session.stars.is_empty());
    assert_eq!(session.score.value, 0);
}

#[test]
fn spawning_enemies_keeps_those_that_are_there() {
    let mut session = Session::new();
    let first = Enemy { position: Vec2 { x: 1, y: 2 }, direction: Vec2 { x: DIRECTION_ONE, y: 0 } };
    session.enemies.push(first);
    assert_eq!(spawn_enemies(&mut session, &example_window()), Ok(()));
    assert_eq!(session.enemies.len(), 5);
    assert_eq!(session.enemies[0], first);
}

#[test]
fn spawning_enemies_in_a_degenerate_window_is_reported() {
    let mut session = Session::new();
    let window = Window { width: 800_000, height: 64_000 };
    assert_eq!(spawn_enemies(&mut session, &window), Err(ConfinementError::WindowTooLow));
    assert!(session.enemies.is_empty());
}

#[test]
fn random_positions_differ() {
    let mut session = Session::new();
    for _ in 0..25 {
        assert_eq!(spawn_enemies(&mut session, &example_window()), Ok(()));
    }
    let first = session.enemies[0].position;
    assert!(session.enemies.iter().any(|enemy| enemy.position.x != first.x));
    assert!(session.enemies.iter().any(|enemy| enemy.position.y != first.y));
    assert!(session.enemies.iter().any(|enemy| enemy.position.x != 32_000));
    assert!(session.enemies.iter().any(|enemy| enemy.position.y != 32_000));
}

#[test]
fn an_enemy_spawned_at_a_point_rests_there() {
    let mut session = Session::new();
    spawn_enemy_at(&mut session, Vec2 { x: 5, y: 6 });
    assert_eq!(
        session.enemies,
        vec![Enemy { position: Vec2 { x: 5, y: 6 }, direction: Vec2 { x: 0, y: 0 } }]
    );
    assert_eq!(Enemy::new(Vec2 { x: 5, y: 6 }), session.enemies[0]);
}

#[test]
fn despawning_enemies_removes_all_and_can_be_repeated() {
    let mut session = Session::new();
    assert_eq!(spawn_enemies(&mut session, &example_window()), Ok(()));
    session.score.value = 3;
    despawn_enemies(&mut session);
    assert!(session.enemies.is_empty());
    despawn_enemies(&mut session);
    assert!(session.enemies.is_empty());
    assert_eq!(session.score.value, 3);
}

#[test]
fn redirection_draws_from_the_nine_directions() {
    let mut session = Session::new();
    for i in 0..300 {
        spawn_enemy_at(&mut session, Vec2 { x: i, y: -i });
    }
    enemy_redirection(&mut session);
    let allowed = sampled_directions();
    assert_eq!(session.enemies.len(), 300);
    for (i, enemy) in session.enemies.iter().enumerate() {
        assert_eq!(enemy.position, Vec2 { x: i as i32, y: -(i as i32) });
        assert!(allowed.contains(&enemy.direction));
        let squared = enemy.direction.x as i64 * enemy.direction.x as i64
            + enemy.direction.y as i64 * enemy.direction.y as i64;
        let one = DIRECTION_ONE as i64;
        assert!(squared == 0 || ((one - 2) * (one - 2) <= squared && squared <= (one + 1) * (one + 1)));
    }
    let first = session.enemies[0].direction;
    assert!(session.enemies.iter().any(|enemy| enemy.direction != first));
}

#[test]
fn redirection_replaces_the_old_direction() {
    let mut session = Session::new();
    let odd = Vec2 { x: 123, y: -456 };
    for _ in 0..50 {
        session.enemies.push(Enemy { position: Vec2 { x: 0, y: 0 }, direction: odd });
    }
    enemy_redirection(&mut session);
    assert!(session.enemies.iter().all(|enemy| enemy.direction != odd));
}

#[test]
fn redirection_without_enemies_does_nothing() {
    let mut session = Session::new();
    enemy_redirection(&mut session);
    assert!(session.enemies.is_empty());
}

#[test]
fn redirect_scales_the_samples() {
    let enemy = Enemy::new(Vec2 { x: 9, y: 9 });
    assert_eq!(enemy.redirect(1, -1).direction, Vec2 { x: 707_107, y: -707_107 });
    assert_eq!(enemy.redirect(0, 1).direction, Vec2 { x: 0, y: DIRECTION_ONE });
    assert_eq!(enemy.redirect(0, 0).direction, Vec2 { x: 0, y: 0 });
    assert_eq!(enemy.redirect(-1, 0).position, Vec2 { x: 9, y: 9 });
}

#[test]
fn enemies_move_along_their_directions() {
    let mut session = Session::new();
    session.enemies.push(Enemy {
        position: Vec2 { x: 100_000, y: 100_000 },
        direction: Vec2 { x: DIRECTION_ONE, y: 0 },
    });
    session.enemies.push(Enemy {
        position: Vec2 { x: 100_000, y: 100_000 },
        direction: Vec2 { x: -707_107, y: 707_107 },
    });
    session.enemies.push(Enemy::new(Vec2 { x: 7, y: 8 }));
    enemy_movement(&mut session, 500_000);
    assert_eq!(session.enemies[0].position, Vec2 { x: 200_000, y: 100_000 });
    assert_eq!(session.enemies[0].direction, Vec2 { x: DIRECTION_ONE, y: 0 });
    assert_eq!(session.enemies[1].position, Vec2 { x: 29_290, y: 170_710 });
    assert_eq!(session.enemies[2].position, Vec2 { x: 7, y: 8 });
    assert_eq!(session.enemies[0].advance(0), session.enemies[0]);
}

#[test]
fn an_enemy_left_of_the_wall_is_reflected() {
    let mut session = Session::new();
    session.enemies.push(Enemy {
        position: Vec2 { x: 31_999, y: 300_000 },
        direction: Vec2 { x: -707_107, y: 707_107 },
    });
    assert_eq!(confine_enemy_movement(&mut session, &example_window()), Ok(1));
    assert_eq!(
        session.enemies[0],
        Enemy {
            position: Vec2 { x: 32_000, y: 300_000 },
            direction: Vec2 { x: 707_107, y: 707_107 },
        }
    );
}

#[test]
fn an_enemy_beyond_each_wall_is_put_on_it() {
    let mut session = Session::new();
    let direction = Vec2 { x: 707_107, y: -707_107 };
    session.enemies.push(Enemy { position: Vec2 { x: 800_000, y: 300_000 }, direction });
    session.enemies.push(Enemy { position: Vec2 { x: 400_000, y: 0 }, direction });
    session.enemies.push(Enemy { position: Vec2 { x: 400_000, y: 600_000 }, direction });
    session.enemies.push(Enemy { position: Vec2 { x: 400_000, y: 300_000 }, direction });
    assert_eq!(confine_enemy_movement(&mut session, &example_window()), Ok(3));
    assert_eq!(session.enemies[0].position, Vec2 { x: 768_000, y: 300_000 });
    assert_eq!(session.enemies[0].direction, Vec2 { x: -707_107, y: -707_107 });
    assert_eq!(session.enemies[1].position, Vec2 { x: 400_000, y: 32_000 });
    assert_eq!(session.enemies[1].direction, Vec2 { x: 707_107, y: 707_107 });
    assert_eq!(session.enemies[2].position, Vec2 { x: 400_000, y: 568_000 });
    assert_eq!(session.enemies[2].direction, Vec2 { x: 707_107, y: 707_107 });
    assert_eq!(session.enemies[3].position, Vec2 { x: 400_000, y: 300_000 });
    assert_eq!(session.enemies[3].direction, direction);
}

#[test]
fn a_corner_bounce_counts_once() {
    let mut session = Session::new();
    session.enemies.push(Enemy {
        position: Vec2 { x: -5, y: 700_000 },
        direction: Vec2 { x: -707_107, y: 707_107 },
    });
    assert_eq!(confine_enemy_movement(&mut session, &example_window()), Ok(1));
    assert_eq!(session.enemies[0].position, Vec2 { x: 32_000, y: 568_000 });
    assert_eq!(session.enemies[0].direction, Vec2 { x: 707_107, y: -707_107 });
}

#[test]
fn an_enemy_on_the_wall_does_not_bounce() {
    let mut session = Session::new();
    let enemy = Enemy {
        position: Vec2 { x: 32_000, y: 568_000 },
        direction: Vec2 { x: -DIRECTION_ONE, y: 0 },
    };
    session.enemies.push(enemy);
    assert_eq!(confine_enemy_movement(&mut session, &example_window()), Ok(0));
    assert_eq!(session.enemies[0], enemy);
}

#[test]
fn confining_enemies_twice_is_confining_once() {
    let mut session = Session::new();
    session.enemies.push(Enemy {
        position: Vec2 { x: -5, y: 700_000 },
        direction: Vec2 { x: -707_107, y: 707_107 },
    });
    session.enemies.push(Enemy {
        position: Vec2 { x: 900_000, y: 1 },
        direction: Vec2 { x: DIRECTION_ONE, y: 0 },
    });
    assert_eq!(confine_enemy_movement(&mut session, &example_window()), Ok(2));
    let once = session.enemies.clone();
    assert_eq!(confine_enemy_movement(&mut session, &example_window()), Ok(0));
    assert_eq!(session.enemies, once);
}

#[test]
fn confining_enemies_in_a_degenerate_window_is_reported() {
    let mut session = Session::new();
    let enemy = Enemy::new(Vec2 { x: -5, y: -5 });
    session.enemies.push(enemy);
    let window = Window { width: 64_000, height: 64_000 };
    assert_eq!(
        confine_enemy_movement(&mut session, &window),
        Err(ConfinementError::WindowTooNarrow)
    );
    assert_eq!(session.enemies[0], enemy);
}

#[test]
fn the_least_direction_component_reverses_to_the_greatest() {
    let rect = Confinement { x_min: 0, x_max: 10, y_min: 0, y_max: 10 };
    let enemy = Enemy { position: Vec2 { x: -1, y: 11 }, direction: Vec2 { x: i32::MIN, y: 5 } };
    let (confined, bounced) = enemy.confine(&rect);
    assert!(bounced);
    assert_eq!(confined.position, Vec2 { x: 0, y: 10 });
    assert_eq!(confined.direction, Vec2 { x: i32::MAX, y: -5 });
}
