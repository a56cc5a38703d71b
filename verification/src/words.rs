//! The word source: a JSON array of strings, read anew for every use, from
//! which the secret word is drawn and against which guesses are checked.
use vstd::prelude::*;
use crate::text::{
    chars_of, equal_ignoring_case, keep_letters, letters_of, same_ignoring_case, text_of, trim,
    trim_quotes, trimmed, unquoted,
};

verus! {

/// The error with which `serde_json` rejects a document.
#[verifier::external_type_specification]
#[verifier::external_body]
pub struct ExJsonError(serde_json::Error);

/// Why no word could be drawn from a word source.
#[derive(Clone, Copy, Debug, PartialEq, Eq, Structural)]
pub enum SourceError {
    /// The source could not be read.
    ReadError,
    /// What was read is not a JSON array of strings.
    ParseError,
    /// The word list holds no word with a letter.
    EmptyListError,
}

/// What reading the word source gave.
#[derive(Debug, PartialEq, Eq)]
pub enum WordSource {
    /// The source could not be read.
    Unreadable,
    /// The bytes that the source holds.
    Content(Vec<u8>),
}

/// The strings of the JSON array that `bytes` encode, in the array's order;
/// `None` where `bytes` are not a JSON document, or a document that is not an
/// array of strings.
pub uninterp spec fn json_string_array(bytes: Seq<u8>) -> Option<Seq<Seq<char>>>;

/// The views of `words`, in order.
pub open spec fn texts(words: Seq<String>) -> Seq<Seq<char>> {
    Seq::new(words.len(), |i: int| words[i]@)
}

/// `serde_json::from_slice`, asked for a `Vec<String>`: it succeeds on a JSON
/// array whose elements are all strings and hands out those strings in order,
/// and fails on every other input. The contract only names what it hands out.
#[verifier::external_body]
fn parse_string_array(bytes: &[u8]) -> (r: Result<Vec<String>, serde_json::Error>)
    ensures
        match r {
            Ok(entries) => json_string_array(bytes@) == Some(texts(entries@)),
            Err(_) => json_string_array(bytes@) is None,
        },
{
    serde_json::from_slice::<Vec<String>>(bytes)
}

/// `rand::seq::SliceRandom::shuffle`, with the generator of the calling
/// thread, reorders the words in place: whatever order comes out, the same
/// words are there, each as often as before.
#[verifier::external_body]
fn shuffle_words(words: &mut Vec<String>)
    ensures
        final(words)@.to_multiset() == old(words)@.to_multiset(),
{
    let mut rng = rand::thread_rng();
    rand::seq::SliceRandom::shuffle(words.as_mut_slice(), &mut rng);
}

/// The entries with every character that is not a letter left out.
pub open spec fn normalized(entries: Seq<Seq<char>>) -> Seq<Seq<char>> {
    Seq::new(entries.len(), |i: int| letters_of(entries[i]))
}

/// Whether no word of the list has a letter: so for the empty list.
pub open spec fn all_empty(words: Seq<Seq<char>>) -> bool {
    forall|i: int| 0 <= i < words.len() ==> (#[trigger] words[i]).len() == 0
}

/// `candidate` as it is looked up: without the quotation marks around it,
/// then without the white space around what is left.
pub open spec fn bare(candidate: Seq<char>) -> Seq<char> {
    trimmed(unquoted(candidate))
}

/// Whether `candidate` is one of `words`, up to the case of ASCII letters.
pub open spec fn listed(words: Seq<Seq<char>>, candidate: Seq<char>) -> bool {
    exists|i: int| 0 <= i < words.len() && same_ignoring_case(#[trigger] words[i], bare(candidate))
}

impl SourceError {
    /// The words that say what went wrong.
    pub open spec fn description(self) -> Seq<char> {
        match self {
            SourceError::ReadError => "Cannot read the word list"@,
            SourceError::ParseError => "Error parsing JSON"@,
            SourceError::EmptyListError => "No words found in the file"@,
        }
    }

    /// Says in words what went wrong.
    pub fn message(&self) -> (r: String)
        ensures
            r@ == self.description(),
    {
        match self {
            SourceError::ReadError => "Cannot read the word list".to_owned(),
            SourceError::ParseError => "Error parsing JSON".to_owned(),
            SourceError::EmptyListError => "No words found in the file".to_owned(),
        }
    }
}

impl WordSource {
    /// The word list that the source holds: its entries, normalized, in the
    /// order of the document; or the reason why it holds none.
    pub open spec fn word_list(&self) -> Result<Seq<Seq<char>>, SourceError> {
        match self {
            WordSource::Unreadable => Err(SourceError::ReadError),
            WordSource::Content(bytes) => match json_string_array(bytes@) {
                None => Err(SourceError::ParseError),
                Some(entries) => Ok(normalized(entries)),
            },
        }
    }

    /// The words against which a guess is checked: the word list, or no word
    /// at all where the source holds no list.
    pub open spec fn dictionary(&self) -> Seq<Seq<char>> {
        match self.word_list() {
            Ok(words) => words,
            Err(_) => Seq::empty(),
        }
    }
}

/// Normalizes the entries of a word list: of each entry the letters stay.
pub fn normalize_entries(entries: &Vec<String>) -> (words: Vec<String>)
    ensures
        texts(words@) == normalized(texts(entries@)),
{
    let mut words: Vec<String> = Vec::new();
    for i in 0..entries.len()
        invariant
            words@.len() == i,
            forall|j: int| 0 <= j < i ==> (#[trigger] words@[j])@ == letters_of(entries@[j]@),
    {
        let entry = chars_of(entries[i].as_str());
        let letters = keep_letters(&entry);
        words.push(text_of(&letters));
    }
    assert(texts(words@) =~= normalized(texts(entries@)));
    words
}

/// Reads the word list of a source.
pub fn load_words(source: &WordSource) -> (r: Result<Vec<String>, SourceError>)
    ensures
        match r {
            Ok(words) => source.word_list() matches Ok(list) && list == texts(words@),
            Err(e) => source.word_list() matches Err(reason) && reason == e,
        },
{
    match source {
        WordSource::Unreadable => Err(SourceError::ReadError),
        WordSource::Content(bytes) => match parse_string_array(bytes.as_slice()) {
            Ok(entries) => Ok(normalize_entries(&entries)),
            Err(_) => Err(SourceError::ParseError),
        },
    }
}

/// Tells whether no word of the list has a letter.
pub fn is_all_empty(words: &Vec<String>) -> (r: bool)
    ensures
        r == all_empty(texts(words@)),
{
    for i in 0..words.len()
        invariant
            forall|j: int| 0 <= j < i ==> (#[trigger] texts(words@)[j]).len() == 0,
    {
        if !words[i].as_str().is_empty() {
            assert(texts(words@)[i as int].len() != 0);
            return false;
        }
    }
    true
}

/// Draws the word that stands last in the list, unless the list holds no
/// word with a letter.
pub fn take_last(words: Vec<String>) -> (r: Result<String, SourceError>)
    ensures
        match r {
            Ok(word) => !all_empty(texts(words@)) && word@ == texts(words@).last(),
            Err(e) => all_empty(texts(words@)) && e == SourceError::EmptyListError,
        },
{
    let mut words = words;
    if is_all_empty(&words) {
        return Err(SourceError::EmptyListError);
    }
    match words.pop() {
        Some(word) => Ok(word),
        None => Err(SourceError::EmptyListError),
    }
}

/// Two lists that hold the same words equally often hold the same texts:
/// each word of `a` stands somewhere in `b`.
proof fn lemma_same_words(a: Seq<String>, b: Seq<String>)
    requires
        a.to_multiset() == b.to_multiset(),
    ensures
        a.len() == b.len(),
        forall|i: int| 0 <= i < a.len() ==> texts(b).contains(#[trigger] texts(a)[i]),
{
    a.to_multiset_ensures();
    b.to_multiset_ensures();
    assert forall|i: int| 0 <= i < a.len() implies texts(b).contains(#[trigger] texts(a)[i]) by {
        assert(a.contains(a[i]));
        assert(b.to_multiset().count(a[i]) > 0);
        assert(b.contains(a[i]));
        let j = choose|j: int| 0 <= j < b.len() && b[j] == a[i];
        assert(texts(b)[j] == texts(a)[i]);
    }
}

/// Draws the secret word from a source: one word of its word list, chosen at
/// random.
///
/// The word list is shuffled and the word that then stands last is drawn.
/// A list in which no word has a letter counts as empty; in any other list
/// every word can be drawn, a word without letters too.
pub fn select_random_word(source: &WordSource) -> (r: Result<String, SourceError>)
    ensures
        match r {
            Ok(word) => {
                &&& source.word_list() matches Ok(words)
                &&& !all_empty(words)
                &&& words.contains(word@)
            },
            Err(e) => match source.word_list() {
                Ok(words) => all_empty(words) && e == SourceError::EmptyListError,
                Err(reason) => e == reason,
            },
        },
{
    match load_words(source) {
        Ok(words) => {
            let mut words = words;
            let ghost loaded = words@;
            shuffle_words(&mut words);
            proof {
                lemma_same_words(loaded, words@);
                lemma_same_words(words@, loaded);
                if words@.len() > 0 {
                    assert(texts(words@).last() == texts(words@)[words@.len() - 1]);
                }
                if all_empty(texts(loaded)) {
                    assert forall|i: int| 0 <= i < words@.len() implies (#[trigger] texts(
                        words@,
                    )[i]).len() == 0 by {
                        let j = choose|j: int|
                            0 <= j < loaded.len() && texts(loaded)[j] == texts(words@)[i];
                    }
                }
                if all_empty(texts(words@)) {
                    assert forall|i: int| 0 <= i < loaded.len() implies (#[trigger] texts(
                        loaded,
                    )[i]).len() == 0 by {
                        let j = choose|j: int|
                            0 <= j < words@.len() && texts(words@)[j] == texts(loaded)[i];
                    }
                }
            }
            take_last(words)
        },
        Err(e) => Err(e),
    }
}

/// Tells whether `candidate` is one of `words`, up to the case of ASCII
/// letters and to the quotation marks and white space around it.
pub fn list_contains(words: &Vec<String>, candidate: &str) -> (r: bool)
    ensures
        r == listed(texts(words@), candidate@),
{
    let given = chars_of(candidate);
    let unquoted = trim_quotes(&given);
    let sought = trim(&unquoted);
    for i in 0..words.len()
        invariant
            sought@ == bare(candidate@),
            forall|j: int|
                0 <= j < i ==> !same_ignoring_case(#[trigger] texts(words@)[j], bare(candidate@)),
    {
        let word = chars_of(words[i].as_str());
        if equal_ignoring_case(&word, &sought) {
            assert(same_ignoring_case(texts(words@)[i as int], bare(candidate@)));
            return true;
        }
    }
    false
}

/// Tells whether `candidate` is a word of the source's word list.
///
/// A source that cannot be read, or that holds no word list, contains no
/// word: the answer is then `false`, and no error.
pub fn contains_word(source: &WordSource, candidate: &str) -> (r: bool)
    ensures
        r == listed(source.dictionary(), candidate@),
{
    match load_words(source) {
        Ok(words) => list_contains(&words, candidate),
        Err(_) => false,
    }
}

} // verus!
