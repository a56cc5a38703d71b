//! Characters and character sequences: letters, white space, ASCII case
//! folding, trimming and prefixes.
//!
//! Every text is modelled by its view, a `Seq<char>`. The executable
//! functions work on `Vec<char>`, which `chars_of` and `text_of` convert from
//! and to strings.
use vstd::prelude::*;

verus! {

/// Whether `c` has Unicode's `Alphabetic` property, as `char::is_alphabetic`
/// reports it.
pub uninterp spec fn alphabetic(c: char) -> bool;

/// Whether `c` has Unicode's `White_Space` property, as `char::is_whitespace`
/// reports it.
pub uninterp spec fn whitespace(c: char) -> bool;

/// `char::is_alphabetic` looks the character up in the tables of the Unicode
/// character database; the contract only gives that answer its name.
pub assume_specification[ char::is_alphabetic ](c: char) -> (r: bool)
    ensures
        r == alphabetic(c),
;

/// `char::is_whitespace` looks the character up in the tables of the Unicode
/// character database; the contract only gives that answer its name.
pub assume_specification[ char::is_whitespace ](c: char) -> (r: bool)
    ensures
        r == whitespace(c),
;

/// `String::push` appends one character to the end of the string.
pub assume_specification[ String::push ](s: &mut String, c: char)
    ensures
        final(s)@ == old(s)@.push(c),
;

/// The characters of `s`, in order.
pub fn chars_of(s: &str) -> (r: Vec<char>)
    ensures
        r@ == s@,
{
    let mut r: Vec<char> = Vec::new();
    for c in it: s.chars()
        invariant
            it.seq() == s@,
            r@ == s@.take(it.index()),
    {
        r.push(c);
        assert(s@.take(it.index() + 1) =~= s@.take(it.index()).push(c));
    }
    assert(s@.take(s@.len() as int) =~= s@);
    r
}

/// The string made of `chars`, in order.
pub fn text_of(chars: &Vec<char>) -> (r: String)
    ensures
        r@ == chars@,
{
    let mut r = String::new();
    for i in 0..chars.len()
        invariant
            r@ == chars@.take(i as int),
    {
        r.push(chars[i]);
        assert(chars@.take(i + 1) =~= chars@.take(i as int).push(chars@[i as int]));
    }
    assert(chars@.take(chars@.len() as int) =~= chars@);
    r
}

/// `c` with an upper-case ASCII letter replaced by its lower-case form, and
/// any other character kept.
pub open spec fn lower(c: char) -> char {
    if 'A' <= c && c <= 'Z' {
        ((c as u8) + 32) as char
    } else {
        c
    }
}

/// `s` with each character folded by `lower`.
pub open spec fn folded(s: Seq<char>) -> Seq<char> {
    Seq::new(s.len(), |i: int| lower(s[i]))
}

/// Whether `a` and `b` are the same text up to the case of ASCII letters.
pub open spec fn same_ignoring_case(a: Seq<char>, b: Seq<char>) -> bool {
    folded(a) == folded(b)
}

/// Whether every character of `s` is a letter.
pub open spec fn all_letters(s: Seq<char>) -> bool {
    forall|i: int| 0 <= i < s.len() ==> alphabetic(#[trigger] s[i])
}

/// The letters of `s`, in order, with every other character left out.
pub open spec fn letters_of(s: Seq<char>) -> Seq<char> {
    s.filter(|c: char| alphabetic(c))
}

/// `s` without the characters at its start that `drop` holds of.
pub open spec fn without_leading(s: Seq<char>, drop: spec_fn(char) -> bool) -> Seq<char>
    decreases s.len(),
{
    if s.len() > 0 && drop(s[0]) {
        without_leading(s.drop_first(), drop)
    } else {
        s
    }
}

/// `s` without the characters at its end that `drop` holds of.
pub open spec fn without_trailing(s: Seq<char>, drop: spec_fn(char) -> bool) -> Seq<char>
    decreases s.len(),
{
    if s.len() > 0 && drop(s.last()) {
        without_trailing(s.drop_last(), drop)
    } else {
        s
    }
}

/// `s` without the characters at its start and at its end that `drop` holds
/// of.
pub open spec fn stripped(s: Seq<char>, drop: spec_fn(char) -> bool) -> Seq<char> {
    without_trailing(without_leading(s, drop), drop)
}

/// The predicate that holds of white space.
pub open spec fn space() -> spec_fn(char) -> bool {
    |c: char| whitespace(c)
}

/// The predicate that holds of the quotation mark `"`.
pub open spec fn quote() -> spec_fn(char) -> bool {
    |c: char| c == '"'
}

/// `s` without the white space at its start and at its end.
pub open spec fn trimmed(s: Seq<char>) -> Seq<char> {
    stripped(s, space())
}

/// `s` without the quotation marks at its start and at its end.
pub open spec fn unquoted(s: Seq<char>) -> Seq<char> {
    stripped(s, quote())
}

/// Whether `s` begins with `prefix`.
pub open spec fn begins_with(s: Seq<char>, prefix: Seq<char>) -> bool {
    prefix.len() <= s.len() && s.take(prefix.len() as int) == prefix
}

/// Folds one character: an upper-case ASCII letter becomes lower-case.
pub fn to_lower(c: char) -> (r: char)
    ensures
        r == lower(c),
{
    if 'A' <= c && c <= 'Z' {
        let b: u8 = c as u8;
        (b + 32) as char
    } else {
        c
    }
}

/// Compares two texts up to the case of ASCII letters.
pub fn equal_ignoring_case(a: &Vec<char>, b: &Vec<char>) -> (r: bool)
    ensures
        r == same_ignoring_case(a@, b@),
{
    if a.len() != b.len() {
        assert(folded(a@).len() != folded(b@).len());
        return false;
    }
    for i in 0..a.len()
        invariant
            a.len() == b.len(),
            forall|j: int| 0 <= j < i ==> lower(a@[j]) == lower(b@[j]),
    {
        if to_lower(a[i]) != to_lower(b[i]) {
            assert(folded(a@)[i as int] != folded(b@)[i as int]);
            return false;
        }
    }
    assert(folded(a@) =~= folded(b@));
    true
}

/// Tells whether a text is made of letters only.
pub fn is_all_letters(s: &Vec<char>) -> (r: bool)
    ensures
        r == all_letters(s@),
{
    for i in 0..s.len()
        invariant
            forall|j: int| 0 <= j < i ==> alphabetic(#[trigger] s@[j]),
    {
        if !s[i].is_alphabetic() {
            return false;
        }
    }
    true
}

/// Keeps the letters of a text and drops every other character.
pub fn keep_letters(s: &Vec<char>) -> (r: Vec<char>)
    ensures
        r@ == letters_of(s@),
{
    let mut r: Vec<char> = Vec::new();
    proof {
        reveal(Seq::filter);
    }
    for i in 0..s.len()
        invariant
            r@ == letters_of(s@.take(i as int)),
    {
        proof {
            reveal(Seq::filter);
            assert(s@.take(i + 1).drop_last() =~= s@.take(i as int));
        }
        if s[i].is_alphabetic() {
            r.push(s[i]);
        }
    }
    assert(s@.take(s@.len() as int) =~= s@);
    r
}

/// `without_leading` drops a prefix: what stays is `s` from some index on.
proof fn lemma_without_leading_skip(s: Seq<char>, drop: spec_fn(char) -> bool, i: int)
    requires
        0 <= i <= s.len(),
        forall|j: int| 0 <= j < i ==> drop(#[trigger] s[j]),
    ensures
        without_leading(s, drop) == without_leading(s.skip(i), drop),
    decreases i,
{
    if i == 0 {
        assert(s.skip(0) =~= s);
    } else {
        assert(drop(s[0]));
        assert(s.drop_first().skip(i - 1) =~= s.skip(i));
        assert forall|j: int| 0 <= j < i - 1 implies drop(#[trigger] s.drop_first()[j]) by {
            assert(s.drop_first()[j] == s[j + 1]);
        }
        lemma_without_leading_skip(s.drop_first(), drop, i - 1);
    }
}

/// `without_trailing` drops a suffix: what stays is `s` up to some index.
proof fn lemma_without_trailing_take(s: Seq<char>, drop: spec_fn(char) -> bool, n: int)
    requires
        0 <= n <= s.len(),
        forall|j: int| n <= j < s.len() ==> drop(#[trigger] s[j]),
    ensures
        without_trailing(s, drop) == without_trailing(s.take(n), drop),
    decreases s.len() - n,
{
    if n == s.len() {
        assert(s.take(n) =~= s);
    } else {
        assert(drop(s.last()));
        assert(s.drop_last().take(n) =~= s.take(n));
        lemma_without_trailing_take(s.drop_last(), drop, n);
    }
}

/// `stripped` is the part of `s` between the first and the last character
/// that `drop` does not hold of.
pub proof fn lemma_stripped_is_subrange(
    s: Seq<char>,
    drop: spec_fn(char) -> bool,
    start: int,
    end: int,
)
    requires
        0 <= start <= end <= s.len(),
        forall|j: int| 0 <= j < start ==> drop(#[trigger] s[j]),
        forall|j: int| end <= j < s.len() ==> drop(#[trigger] s[j]),
        start < s.len() ==> !drop(s[start]),
        start < end ==> !drop(s[end - 1]),
    ensures
        stripped(s, drop) == s.subrange(start, end),
{
    let rest = s.skip(start);
    let kept = s.subrange(start, end);
    lemma_without_leading_skip(s, drop, start);
    assert(without_leading(s, drop) == rest) by {
        if start < s.len() {
            assert(rest[0] == s[start]);
        }
    }
    assert forall|j: int| end - start <= j < rest.len() implies drop(#[trigger] rest[j]) by {
        assert(rest[j] == s[j + start]);
    }
    lemma_without_trailing_take(rest, drop, end - start);
    assert(rest.take(end - start) =~= kept);
    assert(without_trailing(kept, drop) == kept) by {
        if start < end {
            assert(kept.last() == s[end - 1]);
        }
    }
}

/// The part of a text from index `start` up to index `end`.
pub fn slice(s: &Vec<char>, start: usize, end: usize) -> (r: Vec<char>)
    requires
        start <= end <= s.len(),
    ensures
        r@ == s@.subrange(start as int, end as int),
{
    let mut r: Vec<char> = Vec::new();
    for i in start..end
        invariant
            start <= end <= s.len(),
            r@ == s@.subrange(start as int, i as int),
    {
        r.push(s[i]);
        assert(s@.subrange(start as int, i + 1) =~= s@.subrange(start as int, i as int).push(
            s@[i as int],
        ));
    }
    r
}

/// Removes the white space at both ends of a text.
pub fn trim(s: &Vec<char>) -> (r: Vec<char>)
    ensures
        r@ == trimmed(s@),
{
    let mut start: usize = 0;
    while start < s.len() && s[start].is_whitespace()
        invariant
            start <= s.len(),
            forall|j: int| 0 <= j < start ==> whitespace(#[trigger] s@[j]),
        decreases s.len() - start,
    {
        start += 1;
    }
    let mut end: usize = s.len();
    while end > start && s[end - 1].is_whitespace()
        invariant
            start <= end <= s.len(),
            forall|j: int| end <= j < s.len() ==> whitespace(#[trigger] s@[j]),
        decreases end,
    {
        end -= 1;
    }
    proof {
        lemma_stripped_is_subrange(s@, space(), start as int, end as int);
    }
    slice(s, start, end)
}

/// Removes the quotation marks at both ends of a text.
pub fn trim_quotes(s: &Vec<char>) -> (r: Vec<char>)
    ensures
        r@ == unquoted(s@),
{
    let mut start: usize = 0;
    while start < s.len() && s[start] == '"'
        invariant
            start <= s.len(),
            forall|j: int| 0 <= j < start ==> #[trigger] s@[j] == '"',
        decreases s.len() - start,
    {
        start += 1;
    }
    let mut end: usize = s.len();
    while end > start && s[end - 1] == '"'
        invariant
            start <= end <= s.len(),
            forall|j: int| end <= j < s.len() ==> #[trigger] s@[j] == '"',
        decreases end,
    {
        end -= 1;
    }
    proof {
        lemma_stripped_is_subrange(s@, quote(), start as int, end as int);
    }
    slice(s, start, end)
}

/// Tells whether two texts are the same.
pub fn same_text(a: &Vec<char>, b: &Vec<char>) -> (r: bool)
    ensures
        r == (a@ == b@),
{
    if a.len() != b.len() {
        return false;
    }
    for i in 0..a.len()
        invariant
            a.len() == b.len(),
            forall|j: int| 0 <= j < i ==> a@[j] == b@[j],
    {
        if a[i] != b[i] {
            return false;
        }
    }
    assert(a@ =~= b@);
    true
}

/// Tells whether a text begins with another.
pub fn starts_with(s: &Vec<char>, prefix: &Vec<char>) -> (r: bool)
    ensures
        r == begins_with(s@, prefix@),
{
    if prefix.len() > s.len() {
        return false;
    }
    for i in 0..prefix.len()
        invariant
            prefix.len() <= s.len(),
            forall|j: int| 0 <= j < i ==> s@[j] == prefix@[j],
    {
        if s[i] != prefix[i] {
            assert(s@.take(prefix@.len() as int)[i as int] != prefix@[i as int]);
            return false;
        }
    }
    assert(s@.take(prefix@.len() as int) =~= prefix@);
    true
}

/// The part of a text from index `from` on.
pub fn tail(s: &Vec<char>, from: usize) -> (r: Vec<char>)
    requires
        from <= s.len(),
    ensures
        r@ == s@.skip(from as int),
{
    assert(s@.subrange(from as int, s@.len() as int) =~= s@.skip(from as int));
    slice(s, from, s.len())
}

} // verus!
