//! The player: movement from input, confinement, collisions and death.

use vstd::prelude::*;
use crate::config::{
    COLLISION_DISTANCE, COLLISION_REBOUND_STRENGTH, DIRECTION_ONE, PLAYER_SIZE, PLAYER_SPEED,
    PLAYER_START_HEALTH,
};
use crate::confinement::{confinement, get_confinement, Confinement, ConfinementError, Window};
use crate::enemy::Enemy;
use crate::filters::{lemma_filter_all, lemma_filter_none, lemma_filter_partition};
use crate::math::{lemma_div_toward_zero_bounds, saturate};
use crate::score::Score;
use crate::session::{Session, SessionView};
use crate::star::Star;
use crate::vec2::{
    displacement, lemma_normalized_in_range, lemma_sampled_directions, stretched, Vec2,
};

verus! {

/// The health points that a player has left.
#[derive(Clone, Copy, Debug, PartialEq, Eq, Structural)]
pub struct Health {
    pub current: u32,
}

/// The entity that the user steers.
#[derive(Clone, Copy, Debug, PartialEq, Eq, Structural)]
pub struct Player {
    pub position: Vec2,
    pub health: Health,
}

/// Which of the four directions the user asks for in this frame.
#[derive(Clone, Copy, Debug, PartialEq, Eq, Structural)]
pub struct DirectionalInput {
    pub left: bool,
    pub right: bool,
    pub down: bool,
    pub up: bool,
}

impl DirectionalInput {
    /// The sum of the directions asked for, one step each.
    pub open spec fn sum(self) -> Vec2 {
        Vec2 {
            x: ((if self.right {
                1int
            } else {
                0int
            }) - (if self.left {
                1int
            } else {
                0int
            })) as i32,
            y: ((if self.up {
                1int
            } else {
                0int
            }) - (if self.down {
                1int
            } else {
                0int
            })) as i32,
        }
    }

    /// The direction in which the player moves: the sum of the directions
    /// asked for, scaled to length one.
    pub open spec fn direction(self) -> Vec2 {
        self.sum().normalized()
    }

    /// Computes the direction in which the player moves.
    pub fn heading(&self) -> (r: Vec2)
        ensures
            r == self.direction(),
    {
        let mut x: i32 = 0;
        let mut y: i32 = 0;
        if self.left {
            x = x - 1;
        }
        if self.right {
            x = x + 1;
        }
        if self.down {
            y = y - 1;
        }
        if self.up {
            y = y + 1;
        }
        (Vec2 { x, y }).normalize_or_zero()
    }
}

/// Whether something at `other` touches the player at `player`.
pub open spec fn collides(player: Vec2, other: Vec2) -> bool {
    player.is_within(other, COLLISION_DISTANCE as int)
}

/// The displacement that a collision with an enemy at `enemy` gives to the
/// player at `player`: the rebound strength along the unit vector from the
/// enemy to the player. The enemy is displaced by the opposite.
pub open spec fn rebound(player: Vec2, enemy: Vec2) -> Vec2 {
    player.direction_from(enemy).scaled(COLLISION_REBOUND_STRENGTH)
}

/// The test for an enemy that touches the player at `player`.
pub open spec fn hits(player: Vec2) -> spec_fn(Enemy) -> bool {
    |enemy: Enemy| collides(player, enemy.position)
}

/// The step that pushes an enemy away from the player at `player`, if it
/// touches the player.
pub open spec fn push_from(player: Vec2) -> spec_fn(Enemy) -> Enemy {
    |enemy: Enemy| enemy.pushed_from(player)
}

/// The test for a star that the player at `player` does not reach.
pub open spec fn out_of_reach(player: Vec2) -> spec_fn(Star) -> bool {
    |star: Star| !collides(player, star.position)
}

/// The test for a star that the player at `player` reaches.
pub open spec fn in_reach(player: Vec2) -> spec_fn(Star) -> bool {
    |star: Star| collides(player, star.position)
}

/// The displacement along the x axis that the enemies which touch the player
/// give it, all together.
pub open spec fn total_rebound_x(player: Vec2, enemies: Seq<Enemy>) -> int
    decreases enemies.len(),
{
    if enemies.len() == 0 {
        0
    } else {
        total_rebound_x(player, enemies.drop_last()) + if collides(
            player,
            enemies.last().position,
        ) {
            rebound(player, enemies.last().position).x as int
        } else {
            0
        }
    }
}

/// The displacement along the y axis that the enemies which touch the player
/// give it, all together.
pub open spec fn total_rebound_y(player: Vec2, enemies: Seq<Enemy>) -> int
    decreases enemies.len(),
{
    if enemies.len() == 0 {
        0
    } else {
        total_rebound_y(player, enemies.drop_last()) + if collides(
            player,
            enemies.last().position,
        ) {
            rebound(player, enemies.last().position).y as int
        } else {
            0
        }
    }
}

impl Health {
    /// The health after `hits` hits: one point less for each, but never less
    /// than none.
    pub open spec fn after_hits(self, hits: nat) -> Health {
        Health {
            current: if hits >= self.current {
                0
            } else {
                (self.current - hits) as u32
            },
        }
    }
}

impl Score {
    /// The score after `stars` more stars, kept within `u32`.
    pub open spec fn after_stars(self, stars: nat) -> Score {
        Score {
            value: if self.value + stars > u32::MAX {
                u32::MAX
            } else {
                (self.value + stars) as u32
            },
        }
    }
}

impl Enemy {
    /// The enemy after its encounter with the player at `player`: pushed
    /// away by the rebound if the two touch, and as before if not.
    pub open spec fn pushed_from(self, player: Vec2) -> Enemy {
        if collides(player, self.position) {
            Enemy {
                position: self.position.translated(
                    -rebound(player, self.position).x,
                    -rebound(player, self.position).y,
                ),
                direction: self.direction,
            }
        } else {
            self
        }
    }
}

impl Player {
    /// A fresh player in the middle of the window.
    pub open spec fn spawned_in(window: Window) -> Player {
        Player {
            position: Vec2 { x: (window.width / 2) as i32, y: (window.height / 2) as i32 },
            health: Health { current: PLAYER_START_HEALTH },
        }
    }

    /// The player after moving for `dt` microseconds as the input asks.
    pub open spec fn moved(self, input: DirectionalInput, dt: u64) -> Player {
        Player {
            position: self.position.moved(input.direction(), PLAYER_SPEED, dt),
            health: self.health,
        }
    }

    /// The player with its position clamped to the rectangle.
    pub open spec fn confined(self, rect: Confinement) -> Player {
        Player { position: rect.clamped(self.position), health: self.health }
    }

    /// The player after its encounter with the given enemies: displaced by
    /// the rebounds of all that touch it, with one health point less for
    /// each of them.
    pub open spec fn after_collisions(self, enemies: Seq<Enemy>) -> Player {
        Player {
            position: self.position.translated(
                total_rebound_x(self.position, enemies),
                total_rebound_y(self.position, enemies),
            ),
            health: self.health.after_hits(enemies.filter(hits(self.position)).len()),
        }
    }
}

impl SessionView {
    /// The session with a fresh player in the middle of the window.
    pub open spec fn player_spawned(self, window: Window) -> SessionView {
        SessionView { player: Some(Player::spawned_in(window)), ..self }
    }

    /// The session after the player, if there is one, moved for `dt`
    /// microseconds as the input asks.
    pub open spec fn player_moved(self, input: DirectionalInput, dt: u64) -> SessionView {
        match self.player {
            Some(player) => SessionView { player: Some(player.moved(input, dt)), ..self },
            None => self,
        }
    }

    /// The session after the player, if there is one, was clamped to the
    /// rectangle.
    pub open spec fn player_confined(self, rect: Confinement) -> SessionView {
        match self.player {
            Some(player) => SessionView { player: Some(player.confined(rect)), ..self },
            None => self,
        }
    }

    /// The number of enemies that touch the player.
    pub open spec fn collision_count(self) -> nat {
        match self.player {
            Some(player) => self.enemies.filter(hits(player.position)).len(),
            None => 0,
        }
    }

    /// The session after the collisions between the player and the enemies
    /// were resolved. Every enemy is held against the position that the
    /// player had before any of them was, so the order of the enemies is of
    /// no account.
    pub open spec fn enemies_hit(self) -> SessionView {
        match self.player {
            Some(player) => SessionView {
                player: Some(player.after_collisions(self.enemies)),
                enemies: self.enemies.map_values(push_from(player.position)),
                ..self
            },
            None => self,
        }
    }

    /// The number of stars that the player reaches.
    pub open spec fn collected_count(self) -> nat {
        match self.player {
            Some(player) => self.stars.filter(in_reach(player.position)).len(),
            None => 0,
        }
    }

    /// The session after the player collected the stars that it reaches:
    /// they are gone, and each counts one point.
    pub open spec fn stars_collected(self) -> SessionView {
        match self.player {
            Some(player) => SessionView {
                stars: self.stars.filter(out_of_reach(player.position)),
                score: self.score.after_stars(self.collected_count()),
                ..self
            },
            None => self,
        }
    }

    /// The session with the player, if there is one, at the given position.
    pub open spec fn player_at(self, position: Vec2) -> SessionView {
        match self.player {
            Some(player) => SessionView {
                player: Some(Player { position, health: player.health }),
                ..self
            },
            None => self,
        }
    }

    /// The session after the player went to each position of `path` in turn
    /// and collected there the stars that it reached.
    pub open spec fn collected_along(self, path: Seq<Vec2>) -> SessionView
        decreases path.len(),
    {
        if path.len() == 0 {
            self
        } else {
            self.collected_along(path.drop_last()).player_at(path.last()).stars_collected()
        }
    }

    /// Whether there is a player without health.
    pub open spec fn player_is_dead(self) -> bool {
        self.player matches Some(player) && player.health.current == 0
    }

    /// The session after a player without health was taken out.
    pub open spec fn dead_player_removed(self) -> SessionView {
        if self.player_is_dead() {
            SessionView { player: None, ..self }
        } else {
            self
        }
    }
}

/// Puts a fresh player in the middle of the window, in place of any player
/// there was. Where the window admits no confinement rectangle for the
/// player, nothing changes and the reason is returned.
pub fn spawn_player(session: &mut Session, window: &Window) -> (r: Result<(), ConfinementError>)
    ensures
        match confinement(*window, PLAYER_SIZE) {
            Ok(rect) => r is Ok && final(session)@ == old(session)@.player_spawned(*window),
            Err(error) => r == Err::<(), ConfinementError>(error) && final(session)@ == old(
                session,
            )@,
        },
{
    match get_confinement(window, PLAYER_SIZE) {
        Ok(_) => {
            session.player = Some(
                Player {
                    position: Vec2 { x: window.width / 2, y: window.height / 2 },
                    health: Health { current: PLAYER_START_HEALTH },
                },
            );
            Ok(())
        },
        Err(error) => Err(error),
    }
}

/// Moves the player, if there is one, for `dt` microseconds in the direction
/// that the input asks for. Opposite directions cancel, and a diagonal is
/// scaled to length one.
pub fn player_movement(session: &mut Session, input: &DirectionalInput, dt: u64)
    ensures
        final(session)@ == old(session)@.player_moved(*input, dt),
{
    match session.player {
        Some(player) => {
            let direction = input.heading();
            session.player = Some(
                Player {
                    position: player.position.advance(direction, PLAYER_SPEED, dt),
                    health: player.health,
                },
            );
        },
        None => {},
    }
}

/// Clamps the player's position to the player's confinement rectangle.
/// Without a player nothing happens, whatever the window. Where there is a
/// player and the window admits no such rectangle, nothing changes and the
/// reason is returned.
pub fn confine_player_movement(session: &mut Session, window: &Window) -> (r: Result<
    (),
    ConfinementError,
>)
    ensures
        old(session)@.player is None ==> r is Ok && final(session)@ == old(session)@,
        old(session)@.player is Some ==> match confinement(*window, PLAYER_SIZE) {
            Ok(rect) => r is Ok && final(session)@ == old(session)@.player_confined(rect),
            Err(error) => r == Err::<(), ConfinementError>(error) && final(session)@ == old(
                session,
            )@,
        },
{
    match session.player {
        Some(player) => {
            let rect = match get_confinement(window, PLAYER_SIZE) {
                Ok(rect) => rect,
                Err(error) => {
                    return Err(error);
                },
            };
            session.player = Some(
                Player { position: rect.clamp_point(player.position), health: player.health },
            );
            Ok(())
        },
        None => Ok(()),
    }
}

/// Resolves the collisions between the player and the enemies, and returns
/// their number. Each enemy that touches the player is pushed away from it
/// by the rebound, the player is pushed the other way, and the player loses
/// one health point, as long as it has any. Without a player nothing
/// happens.
pub fn player_hit_enemy(session: &mut Session) -> (collisions: usize)
    ensures
        final(session)@ == old(session)@.enemies_hit(),
        collisions == old(session)@.collision_count(),
{
    let player = match session.player {
        Some(player) => player,
        None => {
            return 0;
        },
    };
    let ghost before = session@;
    let count: usize = session.enemies.len();
    let mut collisions: usize = 0;
    let mut push_x: i128 = 0;
    let mut push_y: i128 = 0;
    let mut i: usize = 0;
    while i < count
        invariant
            i <= count,
            count == before.enemies.len(),
            before.player == Some(player),
            session@ == (SessionView { enemies: session@.enemies, ..before }),
            session@.enemies.len() == count,
            forall|j: int|
                0 <= j < i ==> session@.enemies[j] == before.enemies[j].pushed_from(
                    player.position,
                ),
            forall|j: int| i <= j < count ==> session@.enemies[j] == before.enemies[j],
            collisions == before.enemies.take(i as int).filter(hits(player.position)).len(),
            collisions <= i,
            push_x == total_rebound_x(player.position, before.enemies.take(i as int)),
            push_y == total_rebound_y(player.position, before.enemies.take(i as int)),
            -(i * COLLISION_REBOUND_STRENGTH) <= push_x <= i * COLLISION_REBOUND_STRENGTH,
            -(i * COLLISION_REBOUND_STRENGTH) <= push_y <= i * COLLISION_REBOUND_STRENGTH,
        decreases count - i,
    {
        let enemy: Enemy = session.enemies[i];
        proof {
            before.enemies.lemma_take_succ_push(i as int);
            before.enemies.take(i as int).lemma_filter_len_push(
                hits(player.position),
                before.enemies[i as int],
            );
            assert(before.enemies.take(i + 1).drop_last() =~= before.enemies.take(i as int));
            lemma_rebound_in_range(player.position, enemy.position);
            assert(i * COLLISION_REBOUND_STRENGTH + COLLISION_REBOUND_STRENGTH == (i + 1)
                * COLLISION_REBOUND_STRENGTH) by (nonlinear_arith);
            assert(i * COLLISION_REBOUND_STRENGTH <= 0xffff_ffff_ffff_ffff * 50_000)
                by (nonlinear_arith)
                requires
                    i <= 0xffff_ffff_ffff_ffff,
            ;
        }
        if player.position.is_within_distance(&enemy.position, COLLISION_DISTANCE) {
            let push: Vec2 = player.position.unit_from(&enemy.position).scale(
                COLLISION_REBOUND_STRENGTH,
            );
            let pushed = Enemy {
                position: enemy.position.translate(-(push.x as i128), -(push.y as i128)),
                direction: enemy.direction,
            };
            session.enemies.set(i, pushed);
            push_x = push_x + push.x as i128;
            push_y = push_y + push.y as i128;
            collisions += 1;
        }
        i += 1;
    }
    proof {
        before.enemies.lemma_take_len();
        assert(session@.enemies =~= before.enemies.map_values(push_from(player.position)));
    }
    let health: u32 = if collisions >= player.health.current as usize {
        0
    } else {
        player.health.current - collisions as u32
    };
    session.player = Some(
        Player {
            position: player.position.translate(push_x, push_y),
            health: Health { current: health },
        },
    );
    collisions
}

/// Lets the player collect the stars that it reaches, and returns their
/// number. Each of them is removed and counts one point. Without a player
/// nothing happens.
pub fn player_hit_star(session: &mut Session) -> (collected: usize)
    ensures
        final(session)@ == old(session)@.stars_collected(),
        collected == old(session)@.collected_count(),
{
    let player = match session.player {
        Some(player) => player,
        None => {
            return 0;
        },
    };
    let ghost before = session@;
    let count: usize = session.stars.len();
    let mut remaining: Vec<Star> = Vec::new();
    let mut collected: usize = 0;
    let mut i: usize = 0;
    while i < count
        invariant
            i <= count,
            count == before.stars.len(),
            session@ == before,
            before.player == Some(player),
            remaining@ == before.stars.take(i as int).filter(out_of_reach(player.position)),
            collected == before.stars.take(i as int).filter(in_reach(player.position)).len(),
            collected <= i,
        decreases count - i,
    {
        let star: Star = session.stars[i];
        proof {
            before.stars.lemma_take_succ_push(i as int);
            before.stars.take(i as int).lemma_filter_push(star, out_of_reach(player.position));
            before.stars.take(i as int).lemma_filter_len_push(in_reach(player.position), star);
        }
        if player.position.is_within_distance(&star.position, COLLISION_DISTANCE) {
            collected += 1;
        } else {
            remaining.push(star);
        }
        i += 1;
    }
    proof {
        before.stars.lemma_take_len();
    }
    session.stars = remaining;
    let value: u32 = if collected > (u32::MAX - session.score.value) as usize {
        u32::MAX
    } else {
        session.score.value + collected as u32
    };
    session.score = Score { value };
    collected
}

/// Takes the player out if it has no health left, and tells whether it did:
/// that is the moment the game is over. Without a player, or with one that
/// has health, nothing happens.
pub fn kill_player_without_health(session: &mut Session) -> (game_over: bool)
    ensures
        final(session)@ == old(session)@.dead_player_removed(),
        game_over == old(session)@.player_is_dead(),
{
    match session.player {
        Some(player) => {
            if player.health.current > 0 {
                return false;
            }
            session.player = None;
            true
        },
        None => false,
    }
}

/// Neither component of a rebound is longer than the rebound strength.
pub proof fn lemma_rebound_in_range(player: Vec2, enemy: Vec2)
    ensures
        -COLLISION_REBOUND_STRENGTH <= rebound(player, enemy).x <= COLLISION_REBOUND_STRENGTH,
        -COLLISION_REBOUND_STRENGTH <= rebound(player, enemy).y <= COLLISION_REBOUND_STRENGTH,
        rebound(player, enemy).x == stretched(
            player.direction_from(enemy).x,
            COLLISION_REBOUND_STRENGTH,
        ),
        rebound(player, enemy).y == stretched(
            player.direction_from(enemy).y,
            COLLISION_REBOUND_STRENGTH,
        ),
{
    let unit = player.direction_from(enemy);
    lemma_normalized_in_range(
        Vec2 {
            x: saturate(player.x - enemy.x),
            y: saturate(player.y - enemy.y),
        },
    );
    lemma_stretched_in_range(unit.x);
    lemma_stretched_in_range(unit.y);
}

/// A direction component of at most one, stretched to the rebound strength,
/// is at most that long.
proof fn lemma_stretched_in_range(component: i32)
    requires
        -DIRECTION_ONE <= component <= DIRECTION_ONE,
    ensures
        -COLLISION_REBOUND_STRENGTH <= stretched(component, COLLISION_REBOUND_STRENGTH)
            <= COLLISION_REBOUND_STRENGTH,
{
    let product: int = component * COLLISION_REBOUND_STRENGTH;
    assert(product == component * 50_000);
    lemma_div_toward_zero_bounds(product, DIRECTION_ONE as int);
}

/// Clamping the player twice is clamping it once, and a player in the
/// rectangle stays where it is.
pub proof fn lemma_player_confinement_is_idempotent(session: SessionView, rect: Confinement)
    requires
        rect.is_valid(),
    ensures
        session.player_confined(rect).player_confined(rect) == session.player_confined(rect),
        session.player matches Some(player) && rect.contains(player.position)
            ==> session.player_confined(rect) == session,
{
}

/// Moving up and right at once is as fast as moving up. Over `dt`
/// microseconds "up" covers `straight` units along the y axis and none along
/// the x axis, and "up and right" covers `diagonal` units along each axis,
/// where the diagonal path is as long as the straight one, up to one unit of
/// rounding and one part in a million.
pub proof fn lemma_diagonal_speed(dt: u64)
    ensures
        ({
            let up = DirectionalInput { left: false, right: false, down: false, up: true };
            let up_right = DirectionalInput { left: false, right: true, down: false, up: true };
            let straight = displacement(up.direction().y, PLAYER_SPEED, dt);
            let diagonal = displacement(up_right.direction().x, PLAYER_SPEED, dt);
            &&& displacement(up.direction().x, PLAYER_SPEED, dt) == 0
            &&& displacement(up_right.direction().y, PLAYER_SPEED, dt) == diagonal
            &&& 0 <= diagonal <= straight
            &&& 2 * ((diagonal + 1) * (diagonal + 1)) > straight * straight
            &&& 1_000_000 * (2 * (diagonal * diagonal)) <= 1_000_001 * ((straight + 1) * (straight
                + 1))
        }),
{
    let up = DirectionalInput { left: false, right: false, down: false, up: true };
    let up_right = DirectionalInput { left: false, right: true, down: false, up: true };
    lemma_sampled_directions(0, 1);
    lemma_sampled_directions(1, 1);
    assert(up.sum() == Vec2 { x: 0, y: 1 });
    assert(up_right.sum() == Vec2 { x: 1, y: 1 });
    assert(up.direction() == Vec2 { x: 0, y: 1_000_000 });
    assert(up_right.direction() == Vec2 { x: 707_107, y: 707_107 });
    let t: int = PLAYER_SPEED * dt;
    assert(t >= 0) by (nonlinear_arith)
        requires
            t == PLAYER_SPEED * dt,
    ;
    let s = (1_000_000 * t) / 1_000_000_000_000;
    let c = (707_107 * t) / 1_000_000_000_000;
    assert(0int * t == 0);
    assert(0int / 1_000_000_000_000 == 0) by (nonlinear_arith);
    assert(displacement(up.direction().y, PLAYER_SPEED, dt) == s);
    assert(displacement(up_right.direction().x, PLAYER_SPEED, dt) == c);
    lemma_diagonal_bounds(t, s, c);
}

/// The arithmetic of `lemma_diagonal_speed`.
proof fn lemma_diagonal_bounds(t: int, s: int, c: int)
    requires
        t >= 0,
        s == (1_000_000 * t) / 1_000_000_000_000,
        c == (707_107 * t) / 1_000_000_000_000,
    ensures
        0 <= c <= s,
        2 * ((c + 1) * (c + 1)) > s * s,
        1_000_000 * (2 * (c * c)) <= 1_000_001 * ((s + 1) * (s + 1)),
{
    // s * 10^6 <= t < (s + 1) * 10^6, and c * 10^12 <= 707107 * t < (c + 1) * 10^12
    assert(1_000_000 * (c + 1) > 707_107 * s && 1_000_000 * c < 707_107 * (s + 1));
    let lower = 1_000_000 * (c + 1);
    let upper = 707_107 * (s + 1);
    assert(lower * lower > (707_107 * s) * (707_107 * s)) by (nonlinear_arith)
        requires
            lower > 707_107 * s,
            s >= 0,
    ;
    assert(lower * lower == 1_000_000_000_000 * ((c + 1) * (c + 1))) by (nonlinear_arith)
        requires
            lower == 1_000_000 * (c + 1),
    ;
    assert((707_107 * s) * (707_107 * s) == 500_000_309_449 * (s * s)) by (nonlinear_arith);
    assert(s * s >= 0) by (nonlinear_arith);
    assert((1_000_000 * c) * (1_000_000 * c) <= upper * upper) by (nonlinear_arith)
        requires
            0 <= 1_000_000 * c < upper,
    ;
    assert((1_000_000 * c) * (1_000_000 * c) == 1_000_000_000_000 * (c * c))
        by (nonlinear_arith);
    assert(upper * upper == 500_000_309_449 * ((s + 1) * (s + 1))) by (nonlinear_arith)
        requires
            upper == 707_107 * (s + 1),
    ;
    assert((s + 1) * (s + 1) >= 0) by (nonlinear_arith);
}

/// A player at the origin and one enemy that touches it are pushed apart by
/// the same displacement in opposite directions, along the line between
/// them, and the player loses exactly one health point.
pub proof fn lemma_collision_symmetry(session: SessionView, health: Health, enemy: Enemy)
    requires
        session.player == Some(Player { position: Vec2::zero(), health }),
        session.enemies == seq![enemy],
        collides(Vec2::zero(), enemy.position),
        health.current >= 1,
    ensures
        ({
            let after = session.enemies_hit();
            let push = rebound(Vec2::zero(), enemy.position);
            &&& session.collision_count() == 1
            &&& after.player == Some(
                Player { position: push, health: Health { current: (health.current - 1) as u32 } },
            )
            &&& after.enemies.len() == 1
            &&& after.enemies[0].position.x - enemy.position.x == -push.x
            &&& after.enemies[0].position.y - enemy.position.y == -push.y
            &&& after.enemies[0].direction == enemy.direction
            &&& push == Vec2::zero().direction_from(enemy.position).scaled(
                COLLISION_REBOUND_STRENGTH,
            )
        }),
{
    let origin = Vec2::zero();
    let none = Seq::<Enemy>::empty();
    assert(session.enemies =~= none.push(enemy));
    assert(session.enemies.drop_last() =~= none);
    none.lemma_filter_len_push(hits(origin), enemy);
    lemma_filter_none(none, hits(origin));
    assert(total_rebound_x(origin, none) == 0);
    assert(total_rebound_y(origin, none) == 0);
    lemma_rebound_in_range(origin, enemy.position);
    let x = enemy.position.x as int;
    let y = enemy.position.y as int;
    assert(-64_000 <= x <= 64_000 && -64_000 <= y <= 64_000) by (nonlinear_arith)
        requires
            (0 - x) * (0 - x) + (0 - y) * (0 - y) <= 64_000 * 64_000,
    ;
}

/// The rebounds of two runs of enemies add up, and so do their hits.
proof fn lemma_collisions_add_up(player: Vec2, a: Seq<Enemy>, b: Seq<Enemy>)
    ensures
        total_rebound_x(player, a + b) == total_rebound_x(player, a) + total_rebound_x(player, b),
        total_rebound_y(player, a + b) == total_rebound_y(player, a) + total_rebound_y(player, b),
        (a + b).filter(hits(player)).len() == a.filter(hits(player)).len() + b.filter(
            hits(player),
        ).len(),
        (a + b).map_values(push_from(player)) == a.map_values(push_from(player)) + b.map_values(
            push_from(player),
        ),
    decreases b.len(),
{
    Seq::filter_distributes_over_add(a, b, hits(player));
    assert((a + b).map_values(push_from(player)) =~= a.map_values(push_from(player))
        + b.map_values(push_from(player)));
    if b.len() == 0 {
        assert(a + b =~= a);
    } else {
        lemma_collisions_add_up(player, a, b.drop_last());
        assert((a + b).drop_last() =~= a + b.drop_last());
        assert((a + b).last() == b.last());
    }
}

/// The order of the enemies is of no account to what the collisions do:
/// with two neighbouring runs of enemies exchanged, the player ends up at the
/// same place with the same health, as many collisions are counted, and each
/// enemy is pushed as it was before.
pub proof fn lemma_collisions_ignore_order(
    session: SessionView,
    before: Seq<Enemy>,
    first: Seq<Enemy>,
    second: Seq<Enemy>,
    after: Seq<Enemy>,
)
    requires
        session.enemies == before + first + second + after,
    ensures
        ({
            let exchanged = SessionView { enemies: before + second + first + after, ..session };
            &&& exchanged.enemies_hit().player == session.enemies_hit().player
            &&& exchanged.collision_count() == session.collision_count()
            &&& session.player matches Some(player) ==> {
                &&& session.enemies_hit().enemies == before.map_values(push_from(player.position))
                    + first.map_values(push_from(player.position)) + second.map_values(
                    push_from(player.position),
                ) + after.map_values(push_from(player.position))
                &&& exchanged.enemies_hit().enemies == before.map_values(
                    push_from(player.position),
                ) + second.map_values(push_from(player.position)) + first.map_values(
                    push_from(player.position),
                ) + after.map_values(push_from(player.position))
            }
        }),
{
    match session.player {
        Some(player) => {
            let at = player.position;
            lemma_collisions_add_up(at, before, first);
            lemma_collisions_add_up(at, before + first, second);
            lemma_collisions_add_up(at, before + first + second, after);
            lemma_collisions_add_up(at, before, second);
            lemma_collisions_add_up(at, before + second, first);
            lemma_collisions_add_up(at, before + second + first, after);
        },
        None => {},
    }
}

/// Collecting removes exactly the stars that the player reaches and counts
/// one point for each: the score never falls, it rises by the number of
/// stars that went unless it ran into the end of `u32`, no star that is left
/// is within reach, and collecting once more changes nothing.
pub proof fn lemma_score_counts_stars(session: SessionView)
    ensures
        session.stars_collected().stars.len() + session.collected_count() == session.stars.len(),
        session.stars_collected().score.value >= session.score.value,
        session.score.value + session.collected_count() <= u32::MAX
            ==> session.stars_collected().score.value == session.score.value
            + session.collected_count(),
        session.stars_collected().collected_count() == 0,
        session.stars_collected().stars_collected() == session.stars_collected(),
        session.player matches Some(player) ==> forall|i: int|
            0 <= i < session.stars_collected().stars.len() ==> !collides(
                player.position,
                (#[trigger] session.stars_collected().stars[i]).position,
            ),
{
    match session.player {
        Some(player) => {
            let kept = session.stars.filter(out_of_reach(player.position));
            lemma_filter_partition(
                session.stars,
                in_reach(player.position),
                out_of_reach(player.position),
            );
            assert forall|i: int| 0 <= i < kept.len() implies !in_reach(player.position)(
                #[trigger] kept[i],
            ) && out_of_reach(player.position)(kept[i]) by {
                session.stars.lemma_filter_pred(out_of_reach(player.position), i);
            }
            lemma_filter_none(kept, in_reach(player.position));
            lemma_filter_all(kept, out_of_reach(player.position));
        },
        None => {},
    }
}

/// However the player moves from frame to frame, as long as the score fits
/// in `u32` it rises by exactly the number of stars that are gone.
pub proof fn lemma_score_over_frames(session: SessionView, path: Seq<Vec2>)
    requires
        session.score.value + session.stars.len() <= u32::MAX,
    ensures
        session.collected_along(path).stars.len() <= session.stars.len(),
        session.collected_along(path).score.value == session.score.value + (session.stars.len()
            - session.collected_along(path).stars.len()),
    decreases path.len(),
{
    if path.len() > 0 {
        lemma_score_over_frames(session, path.drop_last());
        let before = session.collected_along(path.drop_last()).player_at(path.last());
        lemma_score_counts_stars(before);
    }
}

/// Death is final. When a player without health is taken out, the game is
/// over once: afterwards there is no player, taking it out again does
/// nothing and reports nothing, and no update that concerns the player
/// changes the session any more.
pub proof fn lemma_death_is_terminal(
    session: SessionView,
    input: DirectionalInput,
    dt: u64,
    rect: Confinement,
)
    requires
        session.player_is_dead(),
    ensures
        ({
            let after = session.dead_player_removed();
            &&& after.player is None
            &&& !after.player_is_dead()
            &&& after.dead_player_removed() == after
            &&& after.player_moved(input, dt) == after
            &&& after.player_confined(rect) == after
            &&& after.enemies_hit() == after
            &&& after.collision_count() == 0
            &&& after.stars_collected() == after
            &&& after.collected_count() == 0
        }),
{
}

} // verus!
