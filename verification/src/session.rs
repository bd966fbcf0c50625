//! The state of one play-through, held in one place and handed to every
//! update function.

use vstd::prelude::*;
use crate::config::{ENEMY_SPAWN_TIME, STAR_SPAWN_TIME};
use crate::enemy::Enemy;
use crate::player::Player;
use crate::score::Score;
use crate::star::Star;
use crate::timer::{EnemySpawnTimer, StarSpawnTimer, TimerView};

verus! {

/// Everything that one play-through holds: the player, if alive, the
/// enemies, the stars, the score and the two spawn timers.
#[derive(Clone, Debug)]
pub struct Session {
    pub player: Option<Player>,
    pub enemies: Vec<Enemy>,
    pub stars: Vec<Star>,
    pub score: Score,
    pub star_spawn_timer: StarSpawnTimer,
    pub enemy_spawn_timer: EnemySpawnTimer,
}

/// What a `Session` stands for.
#[verifier::ext_equal]
pub struct SessionView {
    pub player: Option<Player>,
    pub enemies: Seq<Enemy>,
    pub stars: Seq<Star>,
    pub score: Score,
    pub star_timer: TimerView,
    pub enemy_timer: TimerView,
}

impl View for Session {
    type V = SessionView;

    open spec fn view(&self) -> SessionView {
        SessionView {
            player: self.player,
            enemies: self.enemies@,
            stars: self.stars@,
            score: self.score,
            star_timer: self.star_spawn_timer.timer@,
            enemy_timer: self.enemy_spawn_timer.timer@,
        }
    }
}

impl SessionView {
    /// The state before anything is spawned: nobody there, no score, and no
    /// time gone by on either timer.
    pub open spec fn empty() -> SessionView {
        SessionView {
            player: None,
            enemies: Seq::empty(),
            stars: Seq::empty(),
            score: Score { value: 0 },
            star_timer: TimerView::fresh(STAR_SPAWN_TIME as nat),
            enemy_timer: TimerView::fresh(ENEMY_SPAWN_TIME as nat),
        }
    }
}

impl Session {
    /// A session before anything is spawned.
    pub fn new() -> (r: Session)
        ensures
            r@ == SessionView::empty(),
    {
        Session {
            player: None,
            enemies: Vec::new(),
            stars: Vec::new(),
            score: Score { value: 0 },
            star_spawn_timer: StarSpawnTimer::default(),
            enemy_spawn_timer: EnemySpawnTimer::default(),
        }
    }
}

} // verus!
