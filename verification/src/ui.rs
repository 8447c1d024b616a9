//! The two counters that the scoreboard shows.

use vstd::prelude::*;
use crate::states::{GameStates, World, WorldView};

verus! {

/// How many lives a play session starts with.
pub const STARTING_LIVES: usize = 3;

/// The number of asteroids shot down in the running play session.
#[derive(Clone, Copy, Debug, PartialEq, Eq, Structural)]
pub struct Score(pub usize);

impl Score {
    /// Sets the score back to zero.
    pub fn clear(&mut self)
        ensures
            final(self).0 == 0,
    {
        self.0 = 0
    }
}

impl Default for Score {
    fn default() -> (s: Score)
        ensures
            s.0 == 0,
    {
        Score(0)
    }
}

/// The number of lives the player has left.
#[derive(Clone, Copy, Debug, PartialEq, Eq, Structural)]
pub struct PlayerLives(pub usize);

impl PlayerLives {
    /// Gives the player the lives a play session starts with.
    pub fn reset(&mut self)
        ensures
            final(self).0 == STARTING_LIVES,
    {
        self.0 = STARTING_LIVES
    }
}

impl Default for PlayerLives {
    fn default() -> (l: PlayerLives)
        ensures
            l.0 == 0,
    {
        PlayerLives(0)
    }
}

/// The size of the menu button's text: 18.
pub const BUTTON_FONT_SIZE: i64 = 18_000_000;

/// The size of the menu button's text while the pointer is over it: 22.
pub const HOVERED_FONT_SIZE: i64 = 22_000_000;

/// What the pointer does to the menu button.
#[derive(Clone, Copy, Debug, PartialEq, Eq, Structural)]
pub enum Interaction {
    Pressed,
    Hovered,
    Idle,
}

/// The size of the button's text under the given interaction.
pub open spec fn button_font_size(interaction: Interaction) -> i64 {
    match interaction {
        Interaction::Hovered => HOVERED_FONT_SIZE,
        _ => BUTTON_FONT_SIZE,
    }
}

/// Answers the pointer on the menu button: a press puts the game into the
/// playing state. Returns the size the button's text is to have.
pub fn main_menu(world: &mut World, interaction: Interaction) -> (font_size: i64)
    ensures
        font_size == button_font_size(interaction),
        interaction == Interaction::Pressed ==> final(world)@ == (WorldView {
            state: GameStates::Playing,
            ..old(world)@
        }),
        interaction != Interaction::Pressed ==> final(world)@ == old(world)@,
{
    match interaction {
        Interaction::Pressed => {
            world.state = GameStates::Playing;
            BUTTON_FONT_SIZE
        },
        Interaction::Hovered => HOVERED_FONT_SIZE,
        Interaction::Idle => BUTTON_FONT_SIZE,
    }
}

} // verus!
