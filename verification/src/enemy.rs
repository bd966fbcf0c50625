//! Enemies: they roam in straight lines, bounce off the walls and change
//! their direction at random from time to time.

use vstd::prelude::*;
use crate::config::{ENEMY_SIZE, ENEMY_SPEED, NUMBER_OF_ENEMIES};
use crate::confinement::{confinement, get_confinement, Confinement, ConfinementError, Window};
use crate::filters::lemma_filter_none;
use crate::math::negate;
use crate::random::{choose_one, gen_range};
use crate::session::{Session, SessionView};
use crate::vec2::{lemma_normalized_is_unit, lemma_sampled_directions, Vec2};

verus! {

/// A roaming enemy.
#[derive(Clone, Copy, Debug, PartialEq, Eq, Structural)]
pub struct Enemy {
    pub position: Vec2,
    pub direction: Vec2,
}

/// Whether `sample` is one of the three values that a direction is drawn
/// from.
pub open spec fn is_sample(sample: i32) -> bool {
    sample == -1 || sample == 0 || sample == 1
}

impl Enemy {
    /// An enemy at rest at the given position.
    pub open spec fn at(position: Vec2) -> Enemy {
        Enemy { position, direction: Vec2::zero() }
    }

    /// The enemy after moving along its direction for `dt` microseconds.
    pub open spec fn moved(self, dt: u64) -> Enemy {
        Enemy {
            position: self.position.moved(self.direction, ENEMY_SPEED, dt),
            direction: self.direction,
        }
    }

    /// Whether the enemy lies outside the rectangle, and so bounces off a
    /// wall.
    pub open spec fn bounces(self, rect: Confinement) -> bool {
        !rect.contains(self.position)
    }

    /// The enemy put back into the rectangle: on each axis along which it
    /// lay outside, its position is moved to the wall and its direction is
    /// reversed.
    pub open spec fn confined(self, rect: Confinement) -> Enemy {
        Enemy {
            position: rect.clamped(self.position),
            direction: Vec2 {
                x: if rect.misses_x(self.position) {
                    negate(self.direction.x)
                } else {
                    self.direction.x
                },
                y: if rect.misses_y(self.position) {
                    negate(self.direction.y)
                } else {
                    self.direction.y
                },
            },
        }
    }

    /// The enemy with the direction that the two samples give: the vector of
    /// the samples, scaled to length one.
    pub open spec fn redirected(self, x_sample: i32, y_sample: i32) -> Enemy {
        Enemy {
            position: self.position,
            direction: Vec2 { x: x_sample, y: y_sample }.normalized(),
        }
    }

    /// Whether the enemy's direction is one that a redirection can give.
    pub open spec fn has_sampled_direction(self) -> bool {
        exists|x: i32, y: i32|
            is_sample(x) && is_sample(y) && self.direction == (Vec2 { x, y }).normalized()
    }

    /// An enemy at rest at the given position.
    pub fn new(position: Vec2) -> (r: Enemy)
        ensures
            r == Enemy::at(position),
    {
        Enemy { position, direction: Vec2 { x: 0, y: 0 } }
    }

    /// Moves the enemy along its direction for `dt` microseconds.
    pub fn advance(self, dt: u64) -> (r: Enemy)
        ensures
            r == self.moved(dt),
    {
        Enemy {
            position: self.position.advance(self.direction, ENEMY_SPEED, dt),
            direction: self.direction,
        }
    }

    /// Puts the enemy back into the rectangle, and tells whether it bounced.
    pub fn confine(self, rect: &Confinement) -> (r: (Enemy, bool))
        ensures
            r.0 == self.confined(*rect),
            r.1 == self.bounces(*rect),
    {
        let mut position = self.position;
        let mut direction = self.direction;
        let mut changed_direction: bool = false;
        if position.x < rect.x_min {
            position.x = rect.x_min;
            direction.x = reverse(direction.x);
            changed_direction = true;
        } else if position.x > rect.x_max {
            position.x = rect.x_max;
            direction.x = reverse(direction.x);
            changed_direction = true;
        }
        if position.y < rect.y_min {
            position.y = rect.y_min;
            direction.y = reverse(direction.y);
            changed_direction = true;
        } else if position.y > rect.y_max {
            position.y = rect.y_max;
            direction.y = reverse(direction.y);
            changed_direction = true;
        }
        (Enemy { position, direction }, changed_direction)
    }

    /// Gives the enemy the direction of the two samples, scaled to length
    /// one.
    pub fn redirect(self, x_sample: i32, y_sample: i32) -> (r: Enemy)
        ensures
            r == self.redirected(x_sample, y_sample),
    {
        Enemy {
            position: self.position,
            direction: (Vec2 { x: x_sample, y: y_sample }).normalize_or_zero(),
        }
    }
}

/// The test for an enemy that bounces off a wall of the rectangle.
pub open spec fn bounces_off(rect: Confinement) -> spec_fn(Enemy) -> bool {
    |enemy: Enemy| enemy.bounces(rect)
}

/// The step that puts an enemy back into the rectangle.
pub open spec fn confine_to(rect: Confinement) -> spec_fn(Enemy) -> Enemy {
    |enemy: Enemy| enemy.confined(rect)
}

/// The step that moves an enemy for `dt` microseconds.
pub open spec fn move_for(dt: u64) -> spec_fn(Enemy) -> Enemy {
    |enemy: Enemy| enemy.moved(dt)
}

impl SessionView {
    /// The session after every enemy moved for `dt` microseconds.
    pub open spec fn enemies_moved(self, dt: u64) -> SessionView {
        SessionView { enemies: self.enemies.map_values(move_for(dt)), ..self }
    }

    /// The session after every enemy was put back into the rectangle.
    pub open spec fn enemies_confined(self, rect: Confinement) -> SessionView {
        SessionView { enemies: self.enemies.map_values(confine_to(rect)), ..self }
    }

    /// The number of enemies that lie outside the rectangle.
    pub open spec fn bounce_count(self, rect: Confinement) -> nat {
        self.enemies.filter(bounces_off(rect)).len()
    }

    /// The session without any enemy.
    pub open spec fn enemies_despawned(self) -> SessionView {
        SessionView { enemies: Seq::empty(), ..self }
    }

    /// The session with one more enemy, behind the others.
    pub open spec fn with_enemy(self, enemy: Enemy) -> SessionView {
        SessionView { enemies: self.enemies.push(enemy), ..self }
    }

    /// The session after `dt` more microseconds on the enemies' spawn timer.
    pub open spec fn enemy_timer_ticked(self, dt: u64) -> SessionView {
        SessionView { enemy_timer: self.enemy_timer.ticked(dt as nat), ..self }
    }

    /// Whether `later` is this session with `count` more enemies behind the
    /// others, each at rest at a point of the rectangle.
    pub open spec fn gained_enemies(self, later: SessionView, count: nat, rect: Confinement) -> bool {
        &&& later == (SessionView { enemies: later.enemies, ..self })
        &&& later.enemies.len() == self.enemies.len() + count
        &&& later.enemies.take(self.enemies.len() as int) == self.enemies
        &&& forall|i: int|
            self.enemies.len() <= i < later.enemies.len() ==> {
                &&& (#[trigger] later.enemies[i]).direction == Vec2::zero()
                &&& rect.contains(later.enemies[i].position)
            }
    }
}

/// Puts one more enemy, at rest at the given position, behind the others.
pub fn spawn_enemy_at(session: &mut Session, position: Vec2)
    ensures
        final(session)@ == old(session)@.with_enemy(Enemy::at(position)),
{
    session.enemies.push(Enemy::new(position));
}

/// Places the initial enemies, each at rest at a random point of the
/// enemies' confinement rectangle. Where the window admits no such
/// rectangle, nothing is placed and the reason is returned.
pub fn spawn_enemies(session: &mut Session, window: &Window) -> (r: Result<(), ConfinementError>)
    ensures
        match confinement(*window, ENEMY_SIZE) {
            Ok(rect) => r is Ok && old(session)@.gained_enemies(
                final(session)@,
                NUMBER_OF_ENEMIES as nat,
                rect,
            ),
            Err(error) => r == Err::<(), ConfinementError>(error) && final(session)@ == old(
                session,
            )@,
        },
{
    let rect = match get_confinement(window, ENEMY_SIZE) {
        Ok(rect) => rect,
        Err(error) => {
            return Err(error);
        },
    };
    let ghost before = session@;
    let mut rng = rand::thread_rng();
    let mut spawned: usize = 0;
    assert(before.enemies.take(before.enemies.len() as int) =~= before.enemies);
    while spawned < NUMBER_OF_ENEMIES
        invariant
            spawned <= NUMBER_OF_ENEMIES,
            rect.is_valid(),
            before.gained_enemies(session@, spawned as nat, rect),
        decreases NUMBER_OF_ENEMIES - spawned,
    {
        let x_position: i32 = gen_range(&mut rng, rect.x_min, rect.x_max);
        let y_position: i32 = gen_range(&mut rng, rect.y_min, rect.y_max);
        let ghost previous = session@;
        spawn_enemy_at(session, Vec2 { x: x_position, y: y_position });
        proof {
            assert(session@.enemies.take(before.enemies.len() as int) =~= previous.enemies.take(
                before.enemies.len() as int,
            ));
        }
        spawned += 1;
    }
    Ok(())
}

/// Removes every enemy.
pub fn despawn_enemies(session: &mut Session)
    ensures
        final(session)@ == old(session)@.enemies_despawned(),
{
    session.enemies.clear();
}

/// Gives every enemy a new direction: for each axis one of -1, 0 and 1 is
/// drawn at random, and the vector of the two is scaled to length one. The
/// enemies stay where they are.
pub fn enemy_redirection(session: &mut Session)
    ensures
        final(session)@ == (SessionView { enemies: final(session)@.enemies, ..old(session)@ }),
        final(session)@.enemies.len() == old(session)@.enemies.len(),
        forall|i: int|
            0 <= i < old(session)@.enemies.len() ==> {
                &&& (#[trigger] final(session)@.enemies[i]).position == old(
                    session,
                )@.enemies[i].position
                &&& final(session)@.enemies[i].has_sampled_direction()
            },
{
    let ghost before = session@;
    let mut sample_directions: Vec<i32> = Vec::new();
    sample_directions.push(-1);
    sample_directions.push(0);
    sample_directions.push(1);
    let mut rng = rand::thread_rng();
    let count: usize = session.enemies.len();
    let mut i: usize = 0;
    while i < count
        invariant
            i <= count,
            count == before.enemies.len(),
            sample_directions@ == seq![-1i32, 0i32, 1i32],
            session@ == (SessionView { enemies: session@.enemies, ..before }),
            session@.enemies.len() == count,
            forall|j: int|
                0 <= j < i ==> {
                    &&& (#[trigger] session@.enemies[j]).position == before.enemies[j].position
                    &&& session@.enemies[j].has_sampled_direction()
                },
            forall|j: int| i <= j < count ==> session@.enemies[j] == before.enemies[j],
        decreases count - i,
    {
        let x_random: i32 = draw_sample(&mut rng, &sample_directions);
        let y_random: i32 = draw_sample(&mut rng, &sample_directions);
        let enemy: Enemy = session.enemies[i].redirect(x_random, y_random);
        session.enemies.set(i, enemy);
        i += 1;
    }
}

/// Draws one of the three samples.
fn draw_sample(rng: &mut rand::rngs::ThreadRng, sample_directions: &Vec<i32>) -> (r: i32)
    requires
        sample_directions@ == seq![-1i32, 0i32, 1i32],
    ensures
        is_sample(r),
{
    match choose_one(rng, sample_directions.as_slice()) {
        Some(sample) => {
            assert(sample_directions@.contains(sample));
            sample
        },
        None => 0,
    }
}

/// Moves every enemy along its direction for `dt` microseconds.
pub fn enemy_movement(session: &mut Session, dt: u64)
    ensures
        final(session)@ == old(session)@.enemies_moved(dt),
{
    let ghost before = session@;
    let count: usize = session.enemies.len();
    let mut i: usize = 0;
    while i < count
        invariant
            i <= count,
            count == before.enemies.len(),
            session@ == (SessionView { enemies: session@.enemies, ..before }),
            session@.enemies.len() == count,
            forall|j: int| 0 <= j < i ==> session@.enemies[j] == before.enemies[j].moved(dt),
            forall|j: int| i <= j < count ==> session@.enemies[j] == before.enemies[j],
        decreases count - i,
    {
        let enemy: Enemy = session.enemies[i].advance(dt);
        session.enemies.set(i, enemy);
        i += 1;
    }
    assert(session@.enemies =~= before.enemies.map_values(move_for(dt)));
}

/// Puts every enemy back into the enemies' confinement rectangle: an enemy
/// that lies outside along an axis is moved to the wall and has its
/// direction reversed on that axis. Returns the number of enemies that
/// bounced, one wall hit for each, however many walls it touched. Where the
/// window admits no such rectangle, nothing changes and the reason is
/// returned.
pub fn confine_enemy_movement(session: &mut Session, window: &Window) -> (r: Result<
    usize,
    ConfinementError,
>)
    ensures
        match confinement(*window, ENEMY_SIZE) {
            Ok(rect) => r == Ok::<usize, ConfinementError>(
                old(session)@.bounce_count(rect) as usize,
            ) && final(session)@ == old(session)@.enemies_confined(rect),
            Err(error) => r == Err::<usize, ConfinementError>(error) && final(session)@ == old(
                session,
            )@,
        },
{
    let rect = match get_confinement(window, ENEMY_SIZE) {
        Ok(rect) => rect,
        Err(error) => {
            return Err(error);
        },
    };
    let ghost before = session@;
    let count: usize = session.enemies.len();
    let mut wall_hits: usize = 0;
    let mut i: usize = 0;
    while i < count
        invariant
            i <= count,
            count == before.enemies.len(),
            session@ == (SessionView { enemies: session@.enemies, ..before }),
            session@.enemies.len() == count,
            forall|j: int| 0 <= j < i ==> session@.enemies[j] == before.enemies[j].confined(rect),
            forall|j: int| i <= j < count ==> session@.enemies[j] == before.enemies[j],
            wall_hits == before.enemies.take(i as int).filter(bounces_off(rect)).len(),
            wall_hits <= i,
        decreases count - i,
    {
        let (enemy, changed_direction) = session.enemies[i].confine(&rect);
        session.enemies.set(i, enemy);
        proof {
            before.enemies.lemma_take_succ_push(i as int);
            before.enemies.take(i as int).lemma_filter_len_push(
                bounces_off(rect),
                before.enemies[i as int],
            );
        }
        if changed_direction {
            wall_hits += 1;
        }
        i += 1;
    }
    proof {
        before.enemies.lemma_take_len();
        assert(session@.enemies =~= before.enemies.map_values(confine_to(rect)));
    }
    Ok(wall_hits)
}

/// Lets `dt` microseconds go by on the enemies' spawn timer.
pub fn tick_enemy_spawn_timer(session: &mut Session, dt: u64)
    ensures
        final(session)@ == old(session)@.enemy_timer_ticked(dt),
{
    session.enemy_spawn_timer.timer.tick(dt);
}

/// Spawns one enemy if an interval of the enemies' spawn timer ended during
/// its latest tick, and tells whether it did. The enemy appears at rest at a
/// random point of the enemies' confinement rectangle. Where no interval
/// ended, nothing happens, whatever the window; where one ended and the
/// window admits no such rectangle, nothing is spawned and the reason is
/// returned.
pub fn spawn_enemies_over_time(session: &mut Session, window: &Window) -> (r: Result<
    bool,
    ConfinementError,
>)
    ensures
        !old(session)@.enemy_timer.finished() ==> r == Ok::<bool, ConfinementError>(false)
            && final(session)@ == old(session)@,
        old(session)@.enemy_timer.finished() ==> match confinement(*window, ENEMY_SIZE) {
            Ok(rect) => r == Ok::<bool, ConfinementError>(true) && old(session)@.gained_enemies(
                final(session)@,
                1,
                rect,
            ),
            Err(error) => r == Err::<bool, ConfinementError>(error) && final(session)@ == old(
                session,
            )@,
        },
{
    if !session.enemy_spawn_timer.timer.finished() {
        return Ok(false);
    }
    let rect = match get_confinement(window, ENEMY_SIZE) {
        Ok(rect) => rect,
        Err(error) => {
            return Err(error);
        },
    };
    let mut rng = rand::thread_rng();
    let x_position: i32 = gen_range(&mut rng, rect.x_min, rect.x_max);
    let y_position: i32 = gen_range(&mut rng, rect.y_min, rect.y_max);
    spawn_enemy_at(session, Vec2 { x: x_position, y: y_position });
    proof {
        assert(session@.enemies.take(old(session)@.enemies.len() as int) =~= old(
            session,
        )@.enemies);
    }
    Ok(true)
}

/// A redirection gives an enemy a direction that is zero or of length one,
/// made of nothing but the two samples.
pub proof fn lemma_redirected_direction(enemy: Enemy, x_sample: i32, y_sample: i32)
    requires
        is_sample(x_sample),
        is_sample(y_sample),
    ensures
        enemy.redirected(x_sample, y_sample).has_sampled_direction(),
        enemy.redirected(x_sample, y_sample).position == enemy.position,
        x_sample == 0 && y_sample == 0 ==> enemy.redirected(x_sample, y_sample).direction
            == Vec2::zero(),
        x_sample != 0 || y_sample != 0 ==> enemy.redirected(x_sample, y_sample).direction.is_unit(),
{
    if x_sample != 0 || y_sample != 0 {
        lemma_normalized_is_unit(Vec2 { x: x_sample, y: y_sample });
    }
}

/// A direction that a redirection can give is the zero vector or has length
/// one.
pub proof fn lemma_sampled_direction_is_unit_or_zero(enemy: Enemy)
    requires
        enemy.has_sampled_direction(),
    ensures
        enemy.direction == Vec2::zero() || enemy.direction.is_unit(),
{
    let (x, y) = choose|x: i32, y: i32|
        is_sample(x) && is_sample(y) && enemy.direction == (Vec2 { x, y }).normalized();
    lemma_redirected_direction(enemy, x, y);
}

/// Moving and bouncing keep a direction among those that a redirection can
/// give.
pub proof fn lemma_sampled_direction_is_kept(enemy: Enemy, rect: Confinement, dt: u64)
    requires
        enemy.has_sampled_direction(),
    ensures
        enemy.moved(dt).has_sampled_direction(),
        enemy.confined(rect).has_sampled_direction(),
{
    let (x, y) = choose|x: i32, y: i32|
        is_sample(x) && is_sample(y) && enemy.direction == (Vec2 { x, y }).normalized();
    lemma_sampled_directions(x, y);
    let flipped_x: i32 = if rect.misses_x(enemy.position) {
        (-x) as i32
    } else {
        x
    };
    let flipped_y: i32 = if rect.misses_y(enemy.position) {
        (-y) as i32
    } else {
        y
    };
    lemma_sampled_directions(flipped_x, flipped_y);
    assert(is_sample(flipped_x) && is_sample(flipped_y));
    assert(enemy.confined(rect).direction == (Vec2 { x: flipped_x, y: flipped_y }).normalized());
}

/// An enemy beyond the left or the right wall, and between the other two, is
/// put on that wall with the x component of its direction reversed; its y
/// coordinate and the y component of its direction stay as they are.
pub proof fn lemma_reflection(enemy: Enemy, rect: Confinement)
    requires
        rect.is_valid(),
        rect.misses_x(enemy.position),
        !rect.misses_y(enemy.position),
        enemy.direction.x != i32::MIN,
    ensures
        enemy.bounces(rect),
        enemy.position.x < rect.x_min ==> enemy.confined(rect).position.x == rect.x_min,
        enemy.position.x > rect.x_max ==> enemy.confined(rect).position.x == rect.x_max,
        enemy.confined(rect).direction.x == -enemy.direction.x,
        enemy.confined(rect).position.y == enemy.position.y,
        enemy.confined(rect).direction.y == enemy.direction.y,
{
}

/// A confined enemy lies in the rectangle, so confining it once more changes
/// nothing and is no bounce; and an enemy in the rectangle is left as it is.
pub proof fn lemma_confined_enemy_stays(enemy: Enemy, rect: Confinement)
    requires
        rect.is_valid(),
    ensures
        !enemy.confined(rect).bounces(rect),
        enemy.confined(rect).confined(rect) == enemy.confined(rect),
        !enemy.bounces(rect) ==> enemy.confined(rect) == enemy,
{
}

/// Confining the enemies twice is confining them once: the second pass moves
/// no enemy and counts no bounce.
pub proof fn lemma_enemy_confinement_is_idempotent(session: SessionView, rect: Confinement)
    requires
        rect.is_valid(),
    ensures
        session.enemies_confined(rect).enemies_confined(rect) == session.enemies_confined(rect),
        session.enemies_confined(rect).bounce_count(rect) == 0,
{
    let once = session.enemies_confined(rect);
    assert forall|i: int| 0 <= i < once.enemies.len() implies !bounces_off(rect)(
        #[trigger] once.enemies[i],
    ) && once.enemies[i].confined(rect) == once.enemies[i] by {
        lemma_confined_enemy_stays(session.enemies[i], rect);
    }
    lemma_filter_none(once.enemies, bounces_off(rect));
    assert(once.enemies.map_values(confine_to(rect)) =~= once.enemies);
}

/// Removing all enemies once more changes nothing.
pub proof fn lemma_despawning_is_idempotent(session: SessionView)
    ensures
        session.enemies_despawned().enemies_despawned() == session.enemies_despawned(),
        session.stars_despawned().stars_despawned() == session.stars_despawned(),
{
}

/// Reverses a direction component.
fn reverse(component: i32) -> (r: i32)
    ensures
        r == negate(component),
{
    if component == i32::MIN {
        i32::MAX
    } else {
        -component
    }
}

} // verus!
