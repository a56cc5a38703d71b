//! A word-guessing game for a single session: a secret word is drawn from a
//! word list, the players have five attempts, and every guess is answered
//! with one mark per letter.
pub mod feedback;
pub mod game;
pub mod session;
pub mod text;
pub mod words;
