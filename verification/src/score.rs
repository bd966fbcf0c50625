//! The score of a session, and the numbers that the heads-up display shows.

use vstd::prelude::*;
use crate::config::{NUMBER_OF_ENEMIES, PLAYER_START_HEALTH};
use crate::session::{Session, SessionView};

verus! {

/// The number of stars collected in this session.
#[derive(Clone, Copy, Debug, PartialEq, Eq, Structural)]
pub struct Score {
    pub value: u32,
}

/// The numbers on display: the score, the player's health and the number of
/// enemies.
#[derive(Clone, Copy, Debug, PartialEq, Eq, Structural)]
pub struct GameHud {
    pub score: u32,
    pub health: u32,
    pub enemies: usize,
}

impl SessionView {
    /// The numbers that the display shows of this session. A player that is
    /// gone has no health.
    pub open spec fn hud(self) -> GameHud {
        GameHud {
            score: self.score.value,
            health: match self.player {
                Some(player) => player.health.current,
                None => 0,
            },
            enemies: self.enemies.len() as usize,
        }
    }
}

/// The display at the start of a session: no score, full health and the
/// initial number of enemies.
pub fn spawn_game_hud() -> (hud: GameHud)
    ensures
        hud == (GameHud { score: 0, health: PLAYER_START_HEALTH, enemies: NUMBER_OF_ENEMIES }),
{
    GameHud { score: 0, health: PLAYER_START_HEALTH, enemies: NUMBER_OF_ENEMIES }
}

/// Brings the score on display up to date, and tells whether it changed: the
/// text is to be drawn again only then.
pub fn update_score(hud: &mut GameHud, score: &Score) -> (changed: bool)
    ensures
        *final(hud) == (GameHud { score: score.value, ..*old(hud) }),
        changed == (old(hud).score != score.value),
{
    let changed = hud.score != score.value;
    hud.score = score.value;
    changed
}

/// Brings every number on display up to date, and tells whether any of them
/// changed.
pub fn update_hud(hud: &mut GameHud, session: &Session) -> (changed: bool)
    ensures
        *final(hud) == session@.hud(),
        changed == (*old(hud) != session@.hud()),
{
    let health: u32 = match session.player {
        Some(player) => player.health.current,
        None => 0,
    };
    let enemies: usize = session.enemies.len();
    let changed = hud.score != session.score.value || hud.health != health || hud.enemies
        != enemies;
    hud.score = session.score.value;
    hud.health = health;
    hud.enemies = enemies;
    changed
}

} // verus!
