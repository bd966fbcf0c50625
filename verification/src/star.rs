//! Stars: what the player collects.

use vstd::prelude::*;
use crate::config::{NUMBER_OF_STARS, STAR_SIZE};
use crate::confinement::{confinement, get_confinement, Confinement, ConfinementError, Window};
use crate::random::gen_range;
use crate::session::{Session, SessionView};
use crate::vec2::Vec2;

verus! {

/// A star waiting to be collected.
#[derive(Clone, Copy, Debug, PartialEq, Eq, Structural)]
pub struct Star {
    pub position: Vec2,
}

impl SessionView {
    /// The session without any star.
    pub open spec fn stars_despawned(self) -> SessionView {
        SessionView { stars: Seq::empty(), ..self }
    }

    /// The session with one more star, behind the others.
    pub open spec fn with_star(self, star: Star) -> SessionView {
        SessionView { stars: self.stars.push(star), ..self }
    }

    /// The session after `dt` more microseconds on the stars' spawn timer.
    pub open spec fn star_timer_ticked(self, dt: u64) -> SessionView {
        SessionView { star_timer: self.star_timer.ticked(dt as nat), ..self }
    }

    /// Whether `later` is this session with `count` more stars behind the
    /// others, each at a point of the rectangle.
    pub open spec fn gained_stars(self, later: SessionView, count: nat, rect: Confinement) -> bool {
        &&& later == (SessionView { stars: later.stars, ..self })
        &&& later.stars.len() == self.stars.len() + count
        &&& later.stars.take(self.stars.len() as int) == self.stars
        &&& forall|i: int|
            self.stars.len() <= i < later.stars.len() ==> rect.contains(
                (#[trigger] later.stars[i]).position,
            )
    }
}

/// Puts one more star, at the given position, behind the others.
pub fn spawn_star_at(session: &mut Session, position: Vec2)
    ensures
        final(session)@ == old(session)@.with_star(Star { position }),
{
    session.stars.push(Star { position });
}

/// Places the initial stars, each at a random point of the stars'
/// confinement rectangle. Where the window admits no such rectangle, nothing
/// is placed and the reason is returned.
pub fn spawn_stars(session: &mut Session, window: &Window) -> (r: Result<(), ConfinementError>)
    ensures
        match confinement(*window, STAR_SIZE) {
            Ok(rect) => r is Ok && old(session)@.gained_stars(
                final(session)@,
                NUMBER_OF_STARS as nat,
                rect,
            ),
            Err(error) => r == Err::<(), ConfinementError>(error) && final(session)@ == old(
                session,
            )@,
        },
{
    let rect = match get_confinement(window, STAR_SIZE) {
        Ok(rect) => rect,
        Err(error) => {
            return Err(error);
        },
    };
    let ghost before = session@;
    let mut rng = rand::thread_rng();
    let mut spawned: usize = 0;
    assert(before.stars.take(before.stars.len() as int) =~= before.stars);
    while spawned < NUMBER_OF_STARS
        invariant
            spawned <= NUMBER_OF_STARS,
            rect.is_valid(),
            before.gained_stars(session@, spawned as nat, rect),
        decreases NUMBER_OF_STARS - spawned,
    {
        let x_position: i32 = gen_range(&mut rng, rect.x_min, rect.x_max);
        let y_position: i32 = gen_range(&mut rng, rect.y_min, rect.y_max);
        let ghost previous = session@;
        spawn_star_at(session, Vec2 { x: x_position, y: y_position });
        proof {
            assert(session@.stars.take(before.stars.len() as int) =~= previous.stars.take(
                before.stars.len() as int,
            ));
        }
        spawned += 1;
    }
    Ok(())
}

/// Lets `dt` microseconds go by on the stars' spawn timer.
pub fn tick_star_spawn_timer(session: &mut Session, dt: u64)
    ensures
        final(session)@ == old(session)@.star_timer_ticked(dt),
{
    session.star_spawn_timer.timer.tick(dt);
}

/// Spawns one star if an interval of the stars' spawn timer ended during its
/// latest tick, and tells whether it did. The star appears at a random point
/// of the stars' confinement rectangle. Where no interval ended, nothing
/// happens, whatever the window; where one ended and the window admits no
/// such rectangle, nothing is spawned and the reason is returned.
pub fn spawn_stars_over_time(session: &mut Session, window: &Window) -> (r: Result<
    bool,
    ConfinementError,
>)
    ensures
        !old(session)@.star_timer.finished() ==> r == Ok::<bool, ConfinementError>(false)
            && final(session)@ == old(session)@,
        old(session)@.star_timer.finished() ==> match confinement(*window, STAR_SIZE) {
            Ok(rect) => r == Ok::<bool, ConfinementError>(true) && old(session)@.gained_stars(
                final(session)@,
                1,
                rect,
            ),
            Err(error) => r == Err::<bool, ConfinementError>(error) && final(session)@ == old(
                session,
            )@,
        },
{
    if !session.star_spawn_timer.timer.finished() {
        return Ok(false);
    }
    let rect = match get_confinement(window, STAR_SIZE) {
        Ok(rect) => rect,
        Err(error) => {
            return Err(error);
        },
    };
    let mut rng = rand::thread_rng();
    let x_position: i32 = gen_range(&mut rng, rect.x_min, rect.x_max);
    let y_position: i32 = gen_range(&mut rng, rect.y_min, rect.y_max);
    spawn_star_at(session, Vec2 { x: x_position, y: y_position });
    proof {
        assert(session@.stars.take(old(session)@.stars.len() as int) =~= old(session)@.stars);
    }
    Ok(true)
}

/// Removes every star.
pub fn despawn_stars(session: &mut Session)
    ensures
        final(session)@ == old(session)@.stars_despawned(),
{
    session.stars.clear();
}

} // verus!
