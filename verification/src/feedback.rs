//! The answer to a guess: one mark per letter, and its rendering as text.
use vstd::prelude::*;
use vstd::string::StringExecFns;
use crate::text::chars_of;

verus! {

/// The verdict on one letter of a guess.
#[derive(Clone, Copy, Debug, PartialEq, Eq, Structural)]
pub enum Mark {
    /// The letter stands at this position of the secret word.
    Hit,
    /// The letter occurs somewhere in the secret word.
    Present,
    /// The letter does not occur in the secret word.
    Miss,
}

/// The mark of the letter at position `i` of `guess`.
///
/// A letter of the secret word is not used up by a mark: one occurrence in
/// `secret` marks every occurrence of that letter in `guess`.
pub open spec fn mark_at(secret: Seq<char>, guess: Seq<char>, i: int) -> Mark {
    if i < secret.len() && secret[i] == guess[i] {
        Mark::Hit
    } else if secret.contains(guess[i]) {
        Mark::Present
    } else {
        Mark::Miss
    }
}

/// The marks of `guess` against `secret`: one per letter of `guess`, in the
/// order of its letters.
pub open spec fn feedback(secret: Seq<char>, guess: Seq<char>) -> Seq<Mark> {
    Seq::new(guess.len(), |i: int| mark_at(secret, guess, i))
}

/// `n` marks, each of them `m`.
pub open spec fn uniform(n: nat, m: Mark) -> Seq<Mark> {
    Seq::new(n, |i: int| m)
}

/// Whether no letter of `a` occurs in `b`.
pub open spec fn disjoint_letters(a: Seq<char>, b: Seq<char>) -> bool {
    forall|i: int, j: int| 0 <= i < a.len() && 0 <= j < b.len() ==> a[i] != b[j]
}

/// A word guessed against itself is marked `Hit` at every position.
pub proof fn lemma_same_word_all_hits(w: Seq<char>)
    ensures
        feedback(w, w) == uniform(w.len(), Mark::Hit),
{
    assert(feedback(w, w) =~= uniform(w.len(), Mark::Hit));
}

/// A guess that shares no letter with the secret word is marked `Miss` at
/// every position.
pub proof fn lemma_disjoint_all_misses(secret: Seq<char>, guess: Seq<char>)
    requires
        disjoint_letters(guess, secret),
    ensures
        feedback(secret, guess) == uniform(guess.len(), Mark::Miss),
{
    assert forall|i: int| 0 <= i < guess.len() implies mark_at(secret, guess, i)
        == Mark::Miss by {
        if secret.contains(guess[i]) {
            let j = choose|j: int| 0 <= j < secret.len() && secret[j] == guess[i];
            assert(guess[i] != secret[j]);
        }
    }
    assert(feedback(secret, guess) =~= uniform(guess.len(), Mark::Miss));
}

/// Tells whether `c` is one of the characters of `s`.
pub fn occurs_in(s: &Vec<char>, c: char) -> (r: bool)
    ensures
        r == s@.contains(c),
{
    for i in 0..s.len()
        invariant
            forall|j: int| 0 <= j < i ==> s@[j] != c,
    {
        if s[i] == c {
            return true;
        }
    }
    false
}

/// Marks the letters of `guess` against `secret`, both given by their
/// characters.
pub fn evaluate_letters(secret: &Vec<char>, guess: &Vec<char>) -> (marks: Vec<Mark>)
    ensures
        marks@ == feedback(secret@, guess@),
{
    let mut marks: Vec<Mark> = Vec::new();
    for i in 0..guess.len()
        invariant
            marks@.len() == i,
            forall|j: int| 0 <= j < i ==> marks@[j] == mark_at(secret@, guess@, j),
    {
        let letter = guess[i];
        let mark = if i < secret.len() && secret[i] == letter {
            Mark::Hit
        } else if occurs_in(secret, letter) {
            Mark::Present
        } else {
            Mark::Miss
        };
        marks.push(mark);
    }
    assert(marks@ =~= feedback(secret@, guess@));
    marks
}

/// Marks the letters of `guess` against `secret`.
///
/// Letters are compared as they stand: an upper-case letter and its
/// lower-case form are different letters.
pub fn evaluate_guess(secret: &str, guess: &str) -> (marks: Vec<Mark>)
    ensures
        marks@ == feedback(secret@, guess@),
{
    let secret_letters = chars_of(secret);
    let guess_letters = chars_of(guess);
    evaluate_letters(&secret_letters, &guess_letters)
}

/// The text that stands for one mark.
pub open spec fn token(m: Mark) -> Seq<char> {
    match m {
        Mark::Hit => ":green_square: "@,
        Mark::Present => ":yellow_square: "@,
        Mark::Miss => ":red_square: "@,
    }
}

/// The tokens of `marks`, one after the other.
pub open spec fn rendering(marks: Seq<Mark>) -> Seq<char>
    decreases marks.len(),
{
    if marks.len() == 0 {
        Seq::empty()
    } else {
        rendering(marks.drop_last()) + token(marks.last())
    }
}

/// Renders marks as text, one token per mark.
pub fn render_feedback(marks: &Vec<Mark>) -> (r: String)
    ensures
        r@ == rendering(marks@),
{
    let mut r = String::new();
    for i in 0..marks.len()
        invariant
            r@ == rendering(marks@.take(i as int)),
    {
        proof {
            assert(marks@.take(i + 1).drop_last() =~= marks@.take(i as int));
        }
        match marks[i] {
            Mark::Hit => r.append(":green_square: "),
            Mark::Present => r.append(":yellow_square: "),
            Mark::Miss => r.append(":red_square: "),
        }
    }
    assert(marks@.take(marks@.len() as int) =~= marks@);
    r
}

/// Marks the letters of `guess` against `secret` and renders the marks as
/// text.
pub fn check_guess(secret_word: &str, guessed_word: &str) -> (r: String)
    ensures
        r@ == rendering(feedback(secret_word@, guessed_word@)),
{
    let marks = evaluate_guess(secret_word, guessed_word);
    render_feedback(&marks)
}

} // verus!
