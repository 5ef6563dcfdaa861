//! Text patterns with wildcards, as SQLite compares them: `%` stands for any
//! text, `_` for any one character, every other character for itself.
use crate::text::{characters, lower, lowered_char};
use vstd::prelude::*;
use vstd::utf8::encode_utf8;

verus! {

/// The most bytes that a pattern may have.
pub const MAX_PATTERN_BYTES: usize = 50000;

/// Whether a text fits a pattern.
pub open spec fn like(text: Seq<char>, pattern: Seq<char>) -> bool
    decreases text.len() + pattern.len(),
{
    if pattern.len() == 0 {
        text.len() == 0
    } else if pattern[0] == '%' {
        like(text, pattern.skip(1)) || (text.len() > 0 && like(text.skip(1), pattern))
    } else {
        text.len() > 0 && (pattern[0] == '_' || pattern[0] == text[0]) && like(
            text.skip(1),
            pattern.skip(1),
        )
    }
}

/// A character as it is compared: an ASCII letter in lower case, and each of the
/// two noncharacters at the end of the basic plane as the replacement character.
pub open spec fn folded(c: char) -> char {
    if c == '\u{FFFE}' || c == '\u{FFFF}' {
        '\u{FFFD}'
    } else {
        lower(c)
    }
}

/// A text as it is compared: up to its first NUL, each character folded.
pub open spec fn compared(text: Seq<char>) -> Seq<char>
    decreases text.len(),
{
    if text.len() == 0 || text[0] == '\0' {
        Seq::empty()
    } else {
        seq![folded(text[0])] + compared(text.skip(1))
    }
}

/// The pattern for texts that hold a part which fits a pattern. A NUL in the
/// pattern ends it, and the wildcard behind it with it.
pub open spec fn within(pattern: Seq<char>) -> Seq<char> {
    compared(seq!['%'] + pattern + seq!['%'])
}

/// Whether a part of a text fits a pattern, ASCII letters of either case alike.
pub open spec fn holds_like(text: Seq<char>, pattern: Seq<char>) -> bool {
    like(compared(text), within(pattern))
}

/// Whether a pattern is too long to be looked for, with the wildcards around it.
pub open spec fn is_too_long(pattern: Seq<char>) -> bool {
    encode_utf8(pattern).len() + 2 > MAX_PATTERN_BYTES
}

/// Decides whether a pattern is too long to be looked for.
pub fn too_long(pattern: &str) -> (yes: bool)
    ensures
        yes == is_too_long(pattern@),
{
    pattern.as_bytes().len() > MAX_PATTERN_BYTES - 2
}

/// Decides whether a text fits a pattern.
pub fn fits(text: &Vec<char>, pattern: &Vec<char>) -> (yes: bool)
    ensures
        yes == like(text@, pattern@),
{
    let size: usize = text.len();
    // Whether what follows each place of the text fits what follows `at` in the
    // pattern.
    let mut row: Vec<bool> = Vec::new();
    let mut i: usize = 0;
    while i < size
        invariant
            i <= size,
            size == text.len(),
            row.len() == i,
            forall|k: int| 0 <= k < i ==> !(#[trigger] row[k]),
        decreases size - i,
    {
        row.push(false);
        i = i + 1;
    }
    row.push(true);
    let mut at: usize = pattern.len();
    assert(pattern@.skip(at as int).len() == 0);
    while at > 0
        invariant
            at <= pattern.len(),
            size == text.len(),
            row.len() == size + 1,
            forall|k: int|
                0 <= k <= size ==> #[trigger] row[k] == like(
                    text@.skip(k),
                    pattern@.skip(at as int),
                ),
        decreases at,
    {
        let ghost rest = pattern@.skip(at as int);
        let ghost whole = pattern@.skip(at - 1);
        let sign = pattern[at - 1];
        assert(whole.skip(1) =~= rest);
        assert(whole[0] == sign);
        let mut next: Vec<bool> = Vec::new();
        let mut back: usize = size + 1;
        // Filled from the end of the text to its start.
        while back > 0
            invariant
                back <= size + 1,
                0 < at <= pattern.len(),
                size == text.len(),
                row.len() == size + 1,
                rest == pattern@.skip(at as int),
                whole == pattern@.skip(at - 1),
                whole.skip(1) == rest,
                whole.len() > 0,
                whole[0] == sign,
                next.len() == size + 1 - back,
                forall|k: int| 0 <= k <= size ==> #[trigger] row[k] == like(text@.skip(k), rest),
                forall|k: int|
                    0 <= k < next.len() ==> #[trigger] next[k] == like(
                        text@.skip(size - k),
                        whole,
                    ),
            decreases back,
        {
            let place: usize = back - 1;
            let ghost tail = text@.skip(place as int);
            if place < size {
                assert(tail.skip(1) =~= text@.skip(place + 1));
                assert(tail[0] == text[place as int]);
            }
            let fit = if sign == '%' {
                row[place] || (place < size && next[size - place - 1])
            } else {
                place < size && (sign == '_' || sign == text[place]) && row[place + 1]
            };
            assert(fit == like(tail, whole));
            next.push(fit);
            back = place;
        }
        let mut flipped: Vec<bool> = Vec::new();
        let mut j: usize = 0;
        while j <= size
            invariant
                j <= size + 1,
                next.len() == size + 1,
                flipped.len() == j,
                forall|k: int| 0 <= k < j ==> #[trigger] flipped[k] == next[size - k],
            decreases size + 1 - j,
        {
            flipped.push(next[size - j]);
            j = j + 1;
        }
        assert forall|k: int| 0 <= k <= size implies #[trigger] flipped[k] == like(
            text@.skip(k),
            whole,
        ) by {
            assert(flipped[k] == next[size - k]);
        }
        row = flipped;
        at = at - 1;
    }
    assert(text@.skip(0) =~= text@);
    assert(pattern@.skip(0) =~= pattern@);
    row[0]
}

/// Folds characters up to the first NUL.
fn fold(text: &Vec<char>) -> (list: Vec<char>)
    ensures
        list@ == compared(text@),
{
    let mut list: Vec<char> = Vec::new();
    let mut i: usize = 0;
    assert(text@.skip(0) =~= text@);
    while i < text.len() && text[i] != '\0'
        invariant
            i <= text.len(),
            compared(text@) =~= list@ + compared(text@.skip(i as int)),
        decreases text.len() - i,
    {
        let ghost rest = text@.skip(i as int);
        assert(rest.skip(1) =~= text@.skip(i + 1));
        assert(rest[0] == text[i as int]);
        let c = text[i];
        let next: char = if c == '\u{FFFE}' || c == '\u{FFFF}' {
            '\u{FFFD}'
        } else {
            lowered_char(c)
        };
        list.push(next);
        i = i + 1;
    }
    list
}

/// Decides whether a part of a text fits a pattern, ASCII letters of either case
/// alike.
pub fn contains_like(text: &str, pattern: &str) -> (yes: bool)
    ensures
        yes == holds_like(text@, pattern@),
{
    let middle = characters(pattern);
    let mut whole: Vec<char> = Vec::new();
    whole.push('%');
    let mut i: usize = 0;
    while i < middle.len()
        invariant
            i <= middle.len(),
            whole@ =~= seq!['%'] + middle@.take(i as int),
        decreases middle.len() - i,
    {
        whole.push(middle[i]);
        i = i + 1;
    }
    assert(middle@.take(i as int) =~= middle@);
    whole.push('%');
    assert(whole@ =~= seq!['%'] + middle@ + seq!['%']);
    fits(&fold(&characters(text)), &fold(&whole))
}

// ----------------------------------------------------------------------------
// What a search finds
// ----------------------------------------------------------------------------

/// Whether a text holds no wildcard.
pub open spec fn is_plain(text: Seq<char>) -> bool {
    forall|i: int| 0 <= i < text.len() ==> (#[trigger] text[i]) != '%' && text[i] != '_'
}

proof fn lemma_any_text(text: Seq<char>)
    ensures
        like(text, seq!['%']),
    decreases text.len(),
{
    let pattern = seq!['%'];
    assert(pattern.skip(1).len() == 0);
    if text.len() > 0 {
        lemma_any_text(text.skip(1));
    } else {
        assert(like(text, pattern.skip(1)));
    }
}

proof fn lemma_begins_with(text: Seq<char>, word: Seq<char>)
    requires
        is_plain(word),
    ensures
        like(text, word + seq!['%']) == (word.len() <= text.len() && text.take(word.len() as int)
            == word),
    decreases word.len(),
{
    let pattern = word + seq!['%'];
    if word.len() == 0 {
        assert(pattern =~= seq!['%']);
        lemma_any_text(text);
        assert(text.take(0) =~= word);
    } else {
        let rest = word.skip(1);
        assert(pattern.skip(1) =~= rest + seq!['%']);
        assert(pattern[0] == word[0]);
        assert forall|i: int| 0 <= i < rest.len() implies (#[trigger] rest[i]) != '%' && rest[i]
            != '_' by {
            assert(rest[i] == word[i + 1]);
        }
        if text.len() > 0 {
            lemma_begins_with(text.skip(1), rest);
            if word.len() <= text.len() {
                let head = text.take(word.len() as int);
                assert(head.skip(1) =~= text.skip(1).take(rest.len() as int));
                if text[0] == word[0] && head.skip(1) == rest {
                    assert forall|i: int| 0 <= i < word.len() implies head[i] == word[i] by {
                        if i > 0 {
                            assert(head[i] == head.skip(1)[i - 1]);
                            assert(word[i] == rest[i - 1]);
                        }
                    }
                    assert(head =~= word);
                }
                if head == word {
                    assert(text[0] == head[0]);
                }
            }
        }
    }
}

/// A search for a word without wildcards finds the texts that hold the word.
pub proof fn law_plain_search(text: Seq<char>, word: Seq<char>)
    requires
        is_plain(word),
    ensures
        like(text, seq!['%'] + word + seq!['%']) == exists|at: int|
            0 <= at <= text.len() - word.len() && #[trigger] text.subrange(
                at,
                at + word.len(),
            ) == word,
    decreases text.len(),
{
    let pattern = seq!['%'] + word + seq!['%'];
    assert(pattern.skip(1) =~= word + seq!['%']);
    lemma_begins_with(text, word);
    if word.len() <= text.len() {
        assert(text.take(word.len() as int) =~= text.subrange(0int, 0int + word.len()));
    }
    if text.len() > 0 {
        let rest = text.skip(1);
        law_plain_search(rest, word);
        if exists|at: int|
            0 <= at <= rest.len() - word.len() && #[trigger] rest.subrange(at, at + word.len())
                == word {
            let at = choose|at: int|
                0 <= at <= rest.len() - word.len() && #[trigger] rest.subrange(
                    at,
                    at + word.len(),
                ) == word;
            assert(text.subrange(at + 1, at + 1 + word.len()) =~= rest.subrange(
                at,
                at + word.len(),
            ));
        }
        if exists|at: int|
            0 <= at <= text.len() - word.len() && #[trigger] text.subrange(at, at + word.len())
                == word {
            let at = choose|at: int|
                0 <= at <= text.len() - word.len() && #[trigger] text.subrange(
                    at,
                    at + word.len(),
                ) == word;
            if at > 0 {
                assert(rest.subrange(at - 1, at - 1 + word.len()) =~= text.subrange(
                    at,
                    at + word.len(),
                ));
            }
        }
    }
}

/// Whether a text holds no NUL.
pub open spec fn is_whole(text: Seq<char>) -> bool {
    forall|i: int| 0 <= i < text.len() ==> (#[trigger] text[i]) != '\0'
}

/// A text without NUL is compared whole.
proof fn lemma_compared_whole(text: Seq<char>)
    requires
        is_whole(text),
    ensures
        compared(text).len() == text.len(),
        forall|i: int| 0 <= i < text.len() ==> (#[trigger] compared(text)[i]) == folded(text[i]),
    decreases text.len(),
{
    if text.len() > 0 {
        let rest = text.skip(1);
        assert forall|i: int| 0 <= i < rest.len() implies (#[trigger] rest[i]) != '\0' by {
            assert(rest[i] == text[i + 1]);
        }
        lemma_compared_whole(rest);
        assert(text[0] != '\0');
        assert forall|i: int| 0 <= i < text.len() implies (#[trigger] compared(text)[i]) == folded(
            text[i],
        ) by {
            if i > 0 {
                assert(compared(text)[i] == compared(rest)[i - 1]);
                assert(rest[i - 1] == text[i]);
            }
        }
    }
}

/// A search for a word without wildcards and NULs finds the texts that hold the
/// word before any NUL, ASCII letters of either case alike.
pub proof fn law_search_finds_word(text: Seq<char>, word: Seq<char>)
    requires
        is_plain(word),
        is_whole(word),
    ensures
        holds_like(text, word) == exists|at: int|
            0 <= at <= compared(text).len() - word.len() && #[trigger] compared(text).subrange(
                at,
                at + word.len(),
            ) == compared(word),
{
    let whole = seq!['%'] + word + seq!['%'];
    let middle = compared(word);
    assert forall|i: int| 0 <= i < whole.len() implies (#[trigger] whole[i]) != '\0' by {
        if 0 < i <= word.len() {
            assert(whole[i] == word[i - 1]);
        }
    }
    lemma_compared_whole(whole);
    lemma_compared_whole(word);
    assert(within(word) =~= seq!['%'] + middle + seq!['%']) by {
        assert forall|i: int| 0 <= i < whole.len() implies #[trigger] within(word)[i] == (seq!['%']
            + middle + seq!['%'])[i] by {
            if 0 < i <= word.len() {
                assert(whole[i] == word[i - 1]);
            }
        }
    }
    assert(is_plain(middle)) by {
        assert forall|i: int| 0 <= i < middle.len() implies (#[trigger] middle[i]) != '%'
            && middle[i] != '_' by {
            assert(word[i] != '%' && word[i] != '_');
        }
    }
    law_plain_search(compared(text), middle);
}

} // verus!
