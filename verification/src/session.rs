//! A session: the messages that reach the game, the move that each of them
//! asks for, and the reply that goes back.
use vstd::prelude::*;
use vstd::string::StringExecFns;
use crate::feedback::{render_feedback, rendering};
use crate::game::{
    after_guess, extract_guess, guess_text, is_well_formed, start_outcome, well_formed, Event,
    EventView, GameState, StateView,
};
use crate::text::{begins_with, chars_of, same_text, starts_with};
use crate::words::WordSource;

verus! {

/// What a message asks for.
#[derive(Clone, Copy, Debug, PartialEq, Eq, Structural)]
pub enum Command {
    /// The message `!wordle`: start a game.
    Start,
    /// A message that begins with `!guess`: take it as a guess.
    Guess,
    /// Any other message: it is not for the game.
    Other,
}

/// The command that the message `content` gives.
pub open spec fn command_of(content: Seq<char>) -> Command {
    if content == "!wordle"@ {
        Command::Start
    } else if begins_with(content, "!guess"@) {
        Command::Guess
    } else {
        Command::Other
    }
}

/// Reads the command that a message gives.
pub fn parse_command(content: &str) -> (command: Command)
    ensures
        command == command_of(content@),
{
    let text = chars_of(content);
    let start = chars_of("!wordle");
    let guess = chars_of("!guess");
    if same_text(&text, &start) {
        Command::Start
    } else if starts_with(&text, &guess) {
        Command::Guess
    } else {
        Command::Other
    }
}

/// The decimal digit that stands for `d`: the character `0` for zero, and
/// the characters after it for one to nine.
pub open spec fn digit(d: int) -> char {
    ((48 + d) as u8) as char
}

/// `n` written in decimal digits, without leading zeros.
pub open spec fn decimal(n: nat) -> Seq<char>
    decreases n,
{
    if n < 10 {
        seq![digit(n as int)]
    } else {
        decimal(n / 10).push(digit((n % 10) as int))
    }
}

/// Writes a number in decimal digits.
pub fn write_decimal(n: u8) -> (r: String)
    ensures
        r@ == decimal(n as nat),
{
    let mut r = String::new();
    let zero: u8 = 48;
    if n >= 100 {
        r.push((zero + n / 100) as char);
    }
    if n >= 10 {
        r.push((zero + (n / 10) % 10) as char);
    }
    r.push((zero + n % 10) as char);
    proof {
        reveal_with_fuel(decimal, 3);
        assert(r@ =~= decimal(n as nat));
    }
    r
}

/// The reply to an event; `None` for an event that is passed over in
/// silence.
pub open spec fn reply_text(event: EventView) -> Option<Seq<char>> {
    match event {
        EventView::GameStarted => Some(
            "Wordle game started! You have 5 attempts. Make a guess using `!guess <word>`."@,
        ),
        EventView::StartFailed(_) => None,
        EventView::StartRejected => None,
        EventView::NoGameInProgress => Some(
            "No Wordle game is currently in progress. Start a game with `!wordle`."@,
        ),
        EventView::InvalidCharacters => Some(
            ":skull: Invalid guess. Please provide a word containing only letters. :skull:"@,
        ),
        EventView::InvalidLength => Some(
            ":angry: Invalid guess length. Please provide a 5-letter word. :angry:"@,
        ),
        EventView::NotInDictionary => Some(
            ":man_facepalming: Invalid guess. The word is not in the wordle dictionary. :man_facepalming:"@,
        ),
        EventView::Won => Some(
            "Congratulations! You guessed the word correctly! \n:green_square: :green_square: :green_square: :green_square: :green_square:"@,
        ),
        EventView::LostRevealWord(word) => Some("Out of attempts! The correct word was: "@ + word),
        EventView::IncorrectGuess(left, marks) => Some(
            "Incorrect guess. Attempts remaining: "@ + decimal(left as nat) + "\n"@ + rendering(
                marks,
            ),
        ),
    }
}

/// The view of a reply.
pub open spec fn reply_view(reply: Option<String>) -> Option<Seq<char>> {
    match reply {
        Some(text) => Some(text@),
        None => None,
    }
}

/// Writes the reply to an event.
pub fn reply(event: &Event) -> (r: Option<String>)
    ensures
        reply_view(r) == reply_text(event@),
{
    match event {
        Event::GameStarted => Some(
            "Wordle game started! You have 5 attempts. Make a guess using `!guess <word>`.".to_owned(),
        ),
        Event::StartFailed(_) => None,
        Event::StartRejected => None,
        Event::NoGameInProgress => Some(
            "No Wordle game is currently in progress. Start a game with `!wordle`.".to_owned(),
        ),
        Event::InvalidCharacters => Some(
            ":skull: Invalid guess. Please provide a word containing only letters. :skull:".to_owned(),
        ),
        Event::InvalidLength => Some(
            ":angry: Invalid guess length. Please provide a 5-letter word. :angry:".to_owned(),
        ),
        Event::NotInDictionary => Some(
            ":man_facepalming: Invalid guess. The word is not in the wordle dictionary. :man_facepalming:".to_owned(),
        ),
        Event::Won => Some(
            "Congratulations! You guessed the word correctly! \n:green_square: :green_square: :green_square: :green_square: :green_square:".to_owned(),
        ),
        Event::LostRevealWord(word) => {
            let mut text = "Out of attempts! The correct word was: ".to_owned();
            text.append(word.as_str());
            Some(text)
        },
        Event::IncorrectGuess(left, marks) => {
            let mut text = "Incorrect guess. Attempts remaining: ".to_owned();
            text.append(write_decimal(*left).as_str());
            text.append("\n");
            text.append(render_feedback(marks).as_str());
            Some(text)
        },
    }
}

/// Whether the move that the message `content` asks for, in the state
/// `state`, looks at the word source: a start does while no game is being
/// played, and a guess does once it has five letters and nothing else.
pub open spec fn consults(state: StateView, content: Seq<char>) -> bool {
    match command_of(content) {
        Command::Start => state is Idle,
        Command::Guess => state is InProgress && well_formed(guess_text(content)),
        Command::Other => false,
    }
}

/// A guess that does not look at the word source has the same outcome
/// whatever the word list holds.
pub proof fn lemma_guess_without_source(
    state: StateView,
    content: Seq<char>,
    words: Seq<Seq<char>>,
    others: Seq<Seq<char>>,
)
    requires
        command_of(content) == Command::Guess,
        !consults(state, content),
    ensures
        after_guess(state, content, words) == after_guess(state, content, others),
{
}

/// A start that does not look at the word source is rejected whatever the
/// source holds.
pub proof fn lemma_start_without_source(
    state: StateView,
    content: Seq<char>,
    source: &WordSource,
    after: StateView,
    event: EventView,
)
    requires
        command_of(content) == Command::Start,
        !consults(state, content),
    ensures
        start_outcome(state, source, after, event) <==> after == state && event
            == EventView::StartRejected,
{
}

impl GameState {
    /// Tells whether the word source has to be read before the message is
    /// handed to the game.
    pub fn consults_source(&self, content: &str) -> (r: bool)
        ensures
            r == consults(self@, content@),
    {
        match parse_command(content) {
            Command::Start => self.is_idle(),
            Command::Guess => {
                if self.is_idle() {
                    false
                } else {
                    is_well_formed(&extract_guess(content))
                }
            },
            Command::Other => false,
        }
    }

    /// Hands a message to the game: `!wordle` starts a game, a message that
    /// begins with `!guess` is a guess, and any other message changes
    /// nothing and has no event.
    pub fn handle_message(&mut self, content: &str, source: &WordSource) -> (event: Option<Event>)
        ensures
            match command_of(content@) {
                Command::Start => event matches Some(e) && start_outcome(
                    old(self)@,
                    source,
                    final(self)@,
                    e@,
                ),
                Command::Guess => event matches Some(e) && (final(self)@, e@) == after_guess(
                    old(self)@,
                    content@,
                    source.dictionary(),
                ),
                Command::Other => event is None && final(self)@ == old(self)@,
            },
    {
        match parse_command(content) {
            Command::Start => Some(self.start_game(source)),
            Command::Guess => Some(self.submit_guess(content, source)),
            Command::Other => None,
        }
    }
}

} // verus!
