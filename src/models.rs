//! The records that the storage of games holds.

use vstd::prelude::*;

verus! {

/// A game to be stored: its tonality's text.
pub struct NewGame {
    pub tonality: String,
}

/// A stored snapshot of a session.
pub struct GameState {
    pub id: i32,
    pub tonality: String,
    pub exercise: i32,
    /// The asked note's text, or empty where none is asked.
    pub note: String,
    /// The texts of the pool's notes, joined by commas.
    pub notes: String,
    pub right_count: i32,
    pub total_count: i32,
    pub game_id: i32,
}

/// A snapshot to be stored for a game.
pub struct NewGameState {
    pub tonality: String,
    pub exercise: i32,
    pub note: String,
    pub notes: String,
    pub right_count: i32,
    pub total_count: i32,
    pub game_id: i32,
}

/// The fields of a snapshot that a session fills in.
pub struct GameStateChangeset {
    pub tonality: String,
    pub exercise: i32,
    pub note: String,
    pub notes: String,
    pub right_count: i32,
    pub total_count: i32,
}

impl GameStateChangeset {
    /// The record that stores these fields for a game.
    pub fn for_game(self, game_id: i32) -> (r: NewGameState)
        ensures
            r.tonality == self.tonality,
            r.exercise == self.exercise,
            r.note == self.note,
            r.notes == self.notes,
            r.right_count == self.right_count,
            r.total_count == self.total_count,
            r.game_id == game_id,
    {
        NewGameState {
            tonality: self.tonality,
            exercise: self.exercise,
            note: self.note,
            notes: self.notes,
            right_count: self.right_count,
            total_count: self.total_count,
            game_id,
        }
    }
}

} // verus!
