//! The game itself: its state, the two moves that change it, and the event
//! with which each move answers.
use vstd::prelude::*;
use crate::feedback::{evaluate_letters, feedback, Mark};
use crate::text::{
    all_letters, begins_with, chars_of, equal_ignoring_case, is_all_letters, same_ignoring_case,
    starts_with, tail, text_of, trim, trimmed,
};
use crate::words::{
    all_empty, contains_word, list_contains, listed, select_random_word, texts, SourceError,
    WordSource,
};

verus! {

/// The attempts with which a game starts.
pub const MAX_ATTEMPTS: u8 = 5;

/// The number of letters that a guess must have.
pub const WORD_LENGTH: usize = 5;

/// The state of the one game that a session holds.
///
/// Every move takes the state by `&mut`, so no two moves ever see the same
/// state at once: where tasks share a state, they hold it behind a lock and
/// keep the lock for the whole move.
#[derive(Clone, Debug, PartialEq, Eq)]
pub enum GameState {
    /// No game is being played.
    Idle,
    /// A game is being played.
    InProgress {
        /// The word to be guessed.
        secret_word: String,
        /// The wrong guesses that the players can still afford.
        attempts_remaining: u8,
    },
}

/// What a move answers.
#[derive(Clone, Debug, PartialEq, Eq)]
pub enum Event {
    /// A secret word was drawn and a game has begun.
    GameStarted,
    /// No secret word could be drawn; no game has begun.
    StartFailed(SourceError),
    /// A game was already being played; it goes on as it was.
    StartRejected,
    /// A guess came while no game was being played.
    NoGameInProgress,
    /// The guess holds a character that is not a letter.
    InvalidCharacters,
    /// The guess does not have five letters.
    InvalidLength,
    /// The guess is not a word of the word list.
    NotInDictionary,
    /// The guess is the secret word; the game is over.
    Won,
    /// The last attempt was a wrong guess; the game is over, and this was
    /// the secret word.
    LostRevealWord(String),
    /// A wrong guess: the attempts that are left, and the marks of the guess.
    IncorrectGuess(u8, Vec<Mark>),
}

/// A game state as a mathematical value.
pub enum StateView {
    Idle,
    InProgress { secret_word: Seq<char>, attempts_remaining: u8 },
}

/// An event as a mathematical value.
pub enum EventView {
    GameStarted,
    StartFailed(SourceError),
    StartRejected,
    NoGameInProgress,
    InvalidCharacters,
    InvalidLength,
    NotInDictionary,
    Won,
    LostRevealWord(Seq<char>),
    IncorrectGuess(u8, Seq<Mark>),
}

impl View for GameState {
    type V = StateView;

    open spec fn view(&self) -> StateView {
        match self {
            GameState::Idle => StateView::Idle,
            GameState::InProgress { secret_word, attempts_remaining } => StateView::InProgress {
                secret_word: secret_word@,
                attempts_remaining: *attempts_remaining,
            },
        }
    }
}

impl View for Event {
    type V = EventView;

    open spec fn view(&self) -> EventView {
        match self {
            Event::GameStarted => EventView::GameStarted,
            Event::StartFailed(reason) => EventView::StartFailed(*reason),
            Event::StartRejected => EventView::StartRejected,
            Event::NoGameInProgress => EventView::NoGameInProgress,
            Event::InvalidCharacters => EventView::InvalidCharacters,
            Event::InvalidLength => EventView::InvalidLength,
            Event::NotInDictionary => EventView::NotInDictionary,
            Event::Won => EventView::Won,
            Event::LostRevealWord(word) => EventView::LostRevealWord(word@),
            Event::IncorrectGuess(left, marks) => EventView::IncorrectGuess(*left, marks@),
        }
    }
}

impl StateView {
    /// The invariant of a game state: a game that is being played has
    /// between one and five attempts left.
    pub open spec fn wf(self) -> bool {
        match self {
            StateView::Idle => true,
            StateView::InProgress { attempts_remaining, .. } => 1 <= attempts_remaining
                <= MAX_ATTEMPTS,
        }
    }

    /// The attempts that are left: none while no game is being played.
    pub open spec fn attempts(self) -> int {
        match self {
            StateView::Idle => 0,
            StateView::InProgress { attempts_remaining, .. } => attempts_remaining as int,
        }
    }
}

/// The guess that a message holds: the message without the command `!guess`
/// at its start, where it begins with it, and without the white space around
/// what is left.
pub open spec fn guess_text(raw: Seq<char>) -> Seq<char> {
    if begins_with(raw, "!guess"@) {
        trimmed(raw.skip("!guess"@.len() as int))
    } else {
        trimmed(raw)
    }
}

/// The state after a start and the event that answers it, where `drawn` is
/// what drawing a secret word gave.
pub open spec fn after_start(state: StateView, drawn: Result<Seq<char>, SourceError>) -> (
    StateView,
    EventView,
) {
    match state {
        StateView::InProgress { .. } => (state, EventView::StartRejected),
        StateView::Idle => match drawn {
            Ok(word) => (
                StateView::InProgress { secret_word: word, attempts_remaining: MAX_ATTEMPTS },
                EventView::GameStarted,
            ),
            Err(reason) => (StateView::Idle, EventView::StartFailed(reason)),
        },
    }
}

/// The state after the message `raw` was taken as a guess and the event that
/// answers it, where `words` is the word list against which guesses are
/// checked.
pub open spec fn after_guess(state: StateView, raw: Seq<char>, words: Seq<Seq<char>>) -> (
    StateView,
    EventView,
) {
    match state {
        StateView::Idle => (state, EventView::NoGameInProgress),
        StateView::InProgress { secret_word, attempts_remaining } => {
            let guess = guess_text(raw);
            if !all_letters(guess) {
                (state, EventView::InvalidCharacters)
            } else if guess.len() != WORD_LENGTH {
                (state, EventView::InvalidLength)
            } else if !listed(words, guess) {
                (state, EventView::NotInDictionary)
            } else if same_ignoring_case(guess, secret_word) {
                (StateView::Idle, EventView::Won)
            } else if attempts_remaining <= 1 {
                (StateView::Idle, EventView::LostRevealWord(secret_word))
            } else {
                let left = (attempts_remaining - 1) as u8;
                (
                    StateView::InProgress { secret_word, attempts_remaining: left },
                    EventView::IncorrectGuess(left, feedback(secret_word, guess)),
                )
            }
        },
    }
}

/// What a start may lead to: from the state `before` and the word source to
/// the state `after` and the event.
///
/// A start while a game is being played changes nothing. From `Idle`, a
/// source without a word with a letter fails the start, and any other source
/// starts a game on one of its words, with five attempts.
pub open spec fn start_outcome(
    before: StateView,
    source: &WordSource,
    after: StateView,
    event: EventView,
) -> bool {
    match before {
        StateView::InProgress { .. } => after == before && event == EventView::StartRejected,
        StateView::Idle => match source.word_list() {
            Err(reason) => after == StateView::Idle && event == EventView::StartFailed(reason),
            Ok(words) => if all_empty(words) {
                after == StateView::Idle && event == EventView::StartFailed(
                    SourceError::EmptyListError,
                )
            } else {
                &&& event == EventView::GameStarted
                &&& after matches StateView::InProgress { secret_word, attempts_remaining }
                &&& attempts_remaining == MAX_ATTEMPTS
                &&& words.contains(secret_word)
            },
        },
    }
}

impl EventView {
    /// Whether the event is one of the seven that answer a guess.
    pub open spec fn answers_guess(self) -> bool {
        match self {
            EventView::Won
            | EventView::LostRevealWord(_)
            | EventView::IncorrectGuess(_, _)
            | EventView::InvalidCharacters
            | EventView::InvalidLength
            | EventView::NotInDictionary
            | EventView::NoGameInProgress => true,
            _ => false,
        }
    }
}

/// A guess never takes the attempts below zero, and it is answered with one
/// of the seven events that answer a guess.
///
/// More exactly: a wrong guess that is not the last costs one attempt, and
/// every other guess leaves either the attempts as they were or no game.
pub proof fn lemma_guess_costs_at_most_one(
    state: StateView,
    raw: Seq<char>,
    words: Seq<Seq<char>>,
)
    ensures
        ({
            let (next, event) = after_guess(state, raw, words);
            &&& event.answers_guess()
            &&& 0 <= next.attempts() <= state.attempts()
            &&& event is IncorrectGuess ==> next.attempts() == state.attempts() - 1
            &&& next is InProgress && !(event is IncorrectGuess) ==> next == state
        }),
{
}

/// A start while a game is being played is rejected: the secret word and
/// the attempts stay as they were, whatever could have been drawn.
pub proof fn lemma_start_in_progress_rejected(
    state: StateView,
    drawn: Result<Seq<char>, SourceError>,
)
    requires
        state is InProgress,
    ensures
        after_start(state, drawn) == (state, EventView::StartRejected),
{
}

/// Both moves keep the invariant of the state: a game that is being played
/// has between one and five attempts left, and its secret word stays.
pub proof fn lemma_moves_keep_invariant(
    state: StateView,
    drawn: Result<Seq<char>, SourceError>,
    raw: Seq<char>,
    words: Seq<Seq<char>>,
)
    requires
        state.wf(),
    ensures
        after_start(state, drawn).0.wf(),
        after_guess(state, raw, words).0.wf(),
        state matches StateView::InProgress { secret_word, .. } ==> (after_guess(
            state,
            raw,
            words,
        ).0 matches StateView::InProgress { secret_word: kept, .. } ==> kept == secret_word),
{
}

/// A game ends exactly when it is won or lost: from a game that is being
/// played a guess leads to `Idle` if and only if the event is `Won` or
/// `LostRevealWord`, and the word that a lost game reveals is its secret
/// word.
pub proof fn lemma_game_ends_when_won_or_lost(
    state: StateView,
    raw: Seq<char>,
    words: Seq<Seq<char>>,
)
    requires
        state is InProgress,
    ensures
        ({
            let (next, event) = after_guess(state, raw, words);
            &&& next is Idle <==> event is Won || event is LostRevealWord
            &&& event matches EventView::LostRevealWord(word) ==> word == state->secret_word
        }),
{
}

/// Takes the guess out of a message.
pub fn extract_guess(raw_guess: &str) -> (guess: Vec<char>)
    ensures
        guess@ == guess_text(raw_guess@),
{
    let raw = chars_of(raw_guess);
    let command = chars_of("!guess");
    if starts_with(&raw, &command) {
        let rest = tail(&raw, command.len());
        trim(&rest)
    } else {
        trim(&raw)
    }
}

/// Whether a guess has the form of a word: letters only, and five of them.
pub open spec fn well_formed(guess: Seq<char>) -> bool {
    all_letters(guess) && guess.len() == WORD_LENGTH
}

/// Tells whether a guess has the form of a word.
pub fn is_well_formed(guess: &Vec<char>) -> (r: bool)
    ensures
        r == well_formed(guess@),
{
    is_all_letters(guess) && guess.len() == WORD_LENGTH
}

/// Checks the form of a guess, the characters before the length: the event
/// that rejects it, or `None` for a guess of five letters.
fn form_fault(guess: &Vec<char>) -> (fault: Option<Event>)
    ensures
        well_formed(guess@) <==> fault is None,
        fault matches Some(event) ==> event@ == if !all_letters(guess@) {
            EventView::InvalidCharacters
        } else {
            EventView::InvalidLength
        },
{
    if !is_all_letters(guess) {
        Some(Event::InvalidCharacters)
    } else if guess.len() != WORD_LENGTH {
        Some(Event::InvalidLength)
    } else {
        None
    }
}

impl Default for GameState {
    fn default() -> (state: GameState)
        ensures
            state@ == StateView::Idle,
    {
        GameState::Idle
    }
}

impl GameState {
    /// The state in which a session begins: no game is being played.
    pub fn new() -> (state: GameState)
        ensures
            state@ == StateView::Idle,
    {
        GameState::Idle
    }

    /// Tells whether no game is being played.
    pub fn is_idle(&self) -> (r: bool)
        ensures
            r == (self@ == StateView::Idle),
    {
        match self {
            GameState::Idle => true,
            GameState::InProgress { .. } => false,
        }
    }

    /// Starts a game with the secret word that was drawn, or fails with the
    /// reason why none was. While a game is being played nothing changes.
    pub fn start_with(&mut self, drawn: Result<String, SourceError>) -> (event: Event)
        ensures
            old(self)@.wf() ==> final(self)@.wf(),
            (final(self)@, event@) == after_start(
                old(self)@,
                match drawn {
                    Ok(word) => Ok(word@),
                    Err(reason) => Err(reason),
                },
            ),
    {
        if !self.is_idle() {
            return Event::StartRejected;
        }
        match drawn {
            Ok(word) => {
                *self = GameState::InProgress {
                    secret_word: word,
                    attempts_remaining: MAX_ATTEMPTS,
                };
                Event::GameStarted
            },
            Err(reason) => Event::StartFailed(reason),
        }
    }

    /// Starts a game: draws the secret word from the word source and gives
    /// the players five attempts.
    ///
    /// While a game is being played the start is rejected: no word is drawn
    /// and the game goes on as it was. Where no word can be drawn no game
    /// begins, and the event says why.
    pub fn start_game(&mut self, source: &WordSource) -> (event: Event)
        ensures
            start_outcome(old(self)@, source, final(self)@, event@),
            old(self)@ is InProgress ==> final(self)@ == old(self)@ && event@
                == EventView::StartRejected,
            old(self)@.wf() ==> final(self)@.wf(),
    {
        if !self.is_idle() {
            return Event::StartRejected;
        }
        let drawn = select_random_word(source);
        self.start_with(drawn)
    }

    /// Settles a guess of five letters: `is_listed` says whether it is a
    /// word of the word list.
    fn settle(&mut self, guess: &Vec<char>, is_listed: bool) -> (event: Event)
        ensures
            (final(self)@, event@) == (match old(self)@ {
                StateView::Idle => (StateView::Idle, EventView::NoGameInProgress),
                StateView::InProgress { secret_word, attempts_remaining } => {
                    if !is_listed {
                        (old(self)@, EventView::NotInDictionary)
                    } else if same_ignoring_case(guess@, secret_word) {
                        (StateView::Idle, EventView::Won)
                    } else if attempts_remaining <= 1 {
                        (StateView::Idle, EventView::LostRevealWord(secret_word))
                    } else {
                        let left = (attempts_remaining - 1) as u8;
                        (
                            StateView::InProgress { secret_word, attempts_remaining: left },
                            EventView::IncorrectGuess(left, feedback(secret_word, guess@)),
                        )
                    }
                },
            }),
    {
        let mut state = GameState::Idle;
        std::mem::swap(self, &mut state);
        match state {
            GameState::Idle => Event::NoGameInProgress,
            GameState::InProgress { secret_word, attempts_remaining } => {
                let secret = chars_of(secret_word.as_str());
                if !is_listed {
                    *self = GameState::InProgress { secret_word, attempts_remaining };
                    Event::NotInDictionary
                } else if equal_ignoring_case(guess, &secret) {
                    Event::Won
                } else if attempts_remaining <= 1 {
                    Event::LostRevealWord(secret_word)
                } else {
                    let left: u8 = attempts_remaining - 1;
                    let marks = evaluate_letters(&secret, guess);
                    *self = GameState::InProgress { secret_word, attempts_remaining: left };
                    Event::IncorrectGuess(left, marks)
                }
            },
        }
    }

    /// Takes a message as a guess and checks it against the given word list.
    pub fn guess_with(&mut self, raw_guess: &str, words: &Vec<String>) -> (event: Event)
        ensures
            (final(self)@, event@) == after_guess(old(self)@, raw_guess@, texts(words@)),
            event@.answers_guess(),
            0 <= final(self)@.attempts() <= old(self)@.attempts(),
            old(self)@.wf() ==> final(self)@.wf(),
    {
        if self.is_idle() {
            return Event::NoGameInProgress;
        }
        let guess = extract_guess(raw_guess);
        match form_fault(&guess) {
            Some(fault) => fault,
            None => {
                let is_listed = list_contains(words, text_of(&guess).as_str());
                self.settle(&guess, is_listed)
            },
        }
    }

    /// Takes a message as a guess and checks it against the word source.
    ///
    /// In this order: while no game is being played the guess is turned
    /// away; a guess with a character that is not a letter, one that does
    /// not have five letters and one that is not in the word list are
    /// rejected and cost nothing; the secret word, in whatever case, wins and
    /// ends the game; any other guess costs an attempt, ends the game where
    /// it was the last, and is answered with its marks where it was not.
    pub fn submit_guess(&mut self, raw_guess: &str, source: &WordSource) -> (event: Event)
        ensures
            (final(self)@, event@) == after_guess(old(self)@, raw_guess@, source.dictionary()),
            event@.answers_guess(),
            0 <= final(self)@.attempts() <= old(self)@.attempts(),
            old(self)@.wf() ==> final(self)@.wf(),
    {
        if self.is_idle() {
            return Event::NoGameInProgress;
        }
        let guess = extract_guess(raw_guess);
        match form_fault(&guess) {
            Some(fault) => fault,
            None => {
                let is_listed = contains_word(source, text_of(&guess).as_str());
                self.settle(&guess, is_listed)
            },
        }
    }
}

} // verus!
