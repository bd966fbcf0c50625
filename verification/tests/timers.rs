use ball_game::config::{ENEMY_SPAWN_TIME, STAR_SPAWN_TIME};
use ball_game::confinement::{ConfinementError, Window};
use ball_game::enemy::{spawn_enemies_over_time, tick_enemy_spawn_timer};
use ball_game::session::Session;
use ball_game::star::{spawn_stars_over_time, tick_star_spawn_timer};
use ball_game::timer::{EnemySpawnTimer, SpawnTimer, StarSpawnTimer};

#[test]
fn a_timer_of_interval_zero_does_not_exist() {
    assert!(SpawnTimer::repeating(0).is_none());
    assert!(SpawnTimer::repeating(1).is_some());
}

#[test]
fn a_fresh_timer_has_not_fired() {
    let timer = SpawnTimer::repeating(1_000).unwrap();
    assert_eq!(timer.interval(), 1_000);
    assert_eq!(timer.elapsed(), 0);
    assert_eq!(timer.times_finished_this_tick(), 0);
    assert!(!timer.finished());
}

#[test]
fn frames_that_sum_to_one_interval_fire_once_and_reset() {
    let mut timer = SpawnTimer::repeating(1_000).unwrap();
    let mut firings = 0;
    for dt in [400, 350, 250] {
        timer.tick(dt);
        if timer.finished() {
            firings += 1;
        }
    }
    assert_eq!(firings, 1);
    assert!(timer.finished());
    assert_eq!(timer.elapsed(), 0);
}

#[test]
fn frames_that_sum_to_two_intervals_fire_twice() {
    let mut timer = SpawnTimer::repeating(1_000).unwrap();
    let mut firings = 0;
    let mut completed = 0;
    for dt in [700, 700, 100, 500] {
        completed += timer.tick(dt);
        if timer.finished() {
            firings += 1;
        }
    }
    assert_eq!(firings, 2);
    assert_eq!(completed, 2);
    assert_eq!(timer.elapsed(), 0);
}

#[test]
fn one_long_frame_completes_several_intervals() {
    let mut timer = SpawnTimer::repeating(1_000).unwrap();
    assert_eq!(timer.tick(2_000), 2);
    assert!(timer.finished());
    assert_eq!(timer.times_finished_this_tick(), 2);
    assert_eq!(timer.elapsed(), 0);
    assert_eq!(timer.tick(3_999), 3);
    assert_eq!(timer.elapsed(), 999);
    assert_eq!(timer.tick(0), 0);
    assert!(!timer.finished());
    assert_eq!(timer.elapsed(), 999);
}

#[test]
fn a_tick_keeps_what_is_left_over() {
    let mut timer = SpawnTimer::repeating(1_000).unwrap();
    assert_eq!(timer.tick(999), 0);
    assert_eq!(timer.elapsed(), 999);
    assert_eq!(timer.tick(2), 1);
    assert_eq!(timer.elapsed(), 1);
}

#[test]
fn the_longest_frame_does_not_overflow() {
    let mut timer = SpawnTimer::repeating(1).unwrap();
    assert_eq!(timer.tick(u64::MAX), u64::MAX);
    assert_eq!(timer.elapsed(), 0);
    let mut slow = SpawnTimer::repeating(u64::MAX).unwrap();
    assert_eq!(slow.tick(u64::MAX - 1), 0);
    assert_eq!(slow.tick(u64::MAX), 1);
    assert_eq!(slow.elapsed(), u64::MAX - 1);
}

#[test]
fn the_default_timers_have_the_configured_intervals() {
    let stars = StarSpawnTimer::default();
    assert_eq!(stars.timer.interval(), STAR_SPAWN_TIME);
    assert_eq!(stars.timer.elapsed(), 0);
    assert!(!stars.timer.finished());
    let enemies = EnemySpawnTimer::default();
    assert_eq!(enemies.timer.interval(), ENEMY_SPAWN_TIME);
    assert_eq!(enemies.timer.elapsed(), 0);
    assert!(!enemies.timer.finished());
}

#[test]
fn a_star_appears_once_per_interval() {
    let window = Window { width: 800_000, height: 600_000 };
    let mut session = Session::new();
    let mut spawned = 0;
    for _ in 0..4 {
        tick_star_spawn_timer(&mut session, STAR_SPAWN_TIME / 2);
        if spawn_stars_over_time(&mut session, &window) == Ok(true) {
            spawned += 1;
        }
    }
    assert_eq!(spawned, 2);
    assert_eq!(session.stars.len(), 2);
    for star in &session.stars {
        assert!(15_000 <= star.position.x && star.position.x <= 785_000);
        assert!(15_000 <= star.position.y && star.position.y <= 585_000);
    }
    assert!(session.enemies.is_empty());
}

#[test]
fn no_star_appears_before_the_interval_ends() {
    let window = Window { width: 800_000, height: 600_000 };
    let mut session = Session::new();
    assert_eq!(spawn_stars_over_time(&mut session, &window), Ok(false));
    tick_star_spawn_timer(&mut session, STAR_SPAWN_TIME - 1);
    assert_eq!(spawn_stars_over_time(&mut session, &window), Ok(false));
    assert!(session.stars.is_empty());
    tick_star_spawn_timer(&mut session, 1);
    assert_eq!(spawn_stars_over_time(&mut session, &window), Ok(true));
    assert_eq!(session.stars.len(), 1);
    tick_star_spawn_timer(&mut session, 1);
    assert_eq!(spawn_stars_over_time(&mut session, &window), Ok(false));
    assert_eq!(session.stars.len(), 1);
}

#[test]
fn an_enemy_appears_once_per_interval() {
    let window = Window { width: 800_000, height: 600_000 };
    let mut session = Session::new();
    assert_eq!(spawn_enemies_over_time(&mut session, &window), Ok(false));
    tick_enemy_spawn_timer(&mut session, ENEMY_SPAWN_TIME - 1);
    assert_eq!(spawn_enemies_over_time(&mut session, &window), Ok(false));
    tick_enemy_spawn_timer(&mut session, 1);
    assert_eq!(spawn_enemies_over_time(&mut session, &window), Ok(true));
    assert_eq!(session.enemies.len(), 1);
    let enemy = session.enemies[0];
    assert_eq!(enemy.direction.x, 0);
    assert_eq!(enemy.direction.y, 0);
    assert!(32_000 <= enemy.position.x && enemy.position.x <= 768_000);
    assert!(32_000 <= enemy.position.y && enemy.position.y <= 568_000);
    assert!(session.stars.is_empty());
}

#[test]
fn the_two_timers_tick_apart() {
    let mut session = Session::new();
    tick_star_spawn_timer(&mut session, 10);
    assert_eq!(session.star_spawn_timer.timer.elapsed(), 10);
    assert_eq!(session.enemy_spawn_timer.timer.elapsed(), 0);
    tick_enemy_spawn_timer(&mut session, 7);
    assert_eq!(session.star_spawn_timer.timer.elapsed(), 10);
    assert_eq!(session.enemy_spawn_timer.timer.elapsed(), 7);
}

#[test]
fn a_degenerate_window_is_reported_only_when_the_timer_fired() {
    let window = Window { width: 10, height: 600_000 };
    let mut session = Session::new();
    assert_eq!(spawn_stars_over_time(&mut session, &window), Ok(false));
    assert_eq!(spawn_enemies_over_time(&mut session, &window), Ok(false));
    tick_star_spawn_timer(&mut session, STAR_SPAWN_TIME);
    tick_enemy_spawn_timer(&mut session, ENEMY_SPAWN_TIME);
    assert_eq!(
        spawn_stars_over_time(&mut session, &window),
        Err(ConfinementError::WindowTooNarrow)
    );
    assert_eq!(
        spawn_enemies_over_time(&mut session, &window),
        Err(ConfinementError::WindowTooNarrow)
    );
    assert!(session.stars.is_empty());
    assert!(session.enemies.is_empty());
}
