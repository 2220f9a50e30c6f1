//! Text primitives: lowercase forms, white space, and the words of a title.

use vstd::prelude::*;
use vstd::string::*;

verus! {

/// The lowercase form of a text, as `str::to_lowercase` computes it from the
/// Unicode character database.
pub uninterp spec fn lowercase_of(text: Seq<char>) -> Seq<char>;

/// Whether a character has the Unicode property `White_Space`, as
/// `char::is_whitespace` reports it.
pub uninterp spec fn is_white_space(c: char) -> bool;

/// `str::to_lowercase`: the returned string is the lowercase form of the
/// argument. The form depends on the text alone, so it is given the name
/// [`lowercase_of`]; nothing more is claimed of it.
pub assume_specification[ str::to_lowercase ](text: &str) -> (lowered: String)
    ensures
        lowered@ == lowercase_of(text@),
;

/// `char::is_whitespace`: the answer is the character's `White_Space`
/// property, named [`is_white_space`]; nothing more is claimed of it.
pub assume_specification[ char::is_whitespace ](c: char) -> (white: bool)
    ensures
        white == is_white_space(c),
;

/// The number of characters before the first white space of `text`, or the
/// length of `text` where it holds none.
pub open spec fn word_len(text: Seq<char>) -> nat
    decreases text.len(),
{
    if text.len() == 0 || is_white_space(text[0]) {
        0
    } else {
        1 + word_len(text.drop_first())
    }
}

/// The words of `text`: its maximal runs of characters that are not white
/// space, from left to right.
pub open spec fn words_of(text: Seq<char>) -> Seq<Seq<char>>
    decreases text.len(),
    via words_of_decreases
{
    if text.len() == 0 {
        Seq::empty()
    } else if is_white_space(text[0]) {
        words_of(text.drop_first())
    } else {
        seq![text.take(word_len(text) as int)] + words_of(text.skip(word_len(text) as int))
    }
}

#[via_fn]
proof fn words_of_decreases(text: Seq<char>) {
    if text.len() > 0 && !is_white_space(text[0]) {
        lemma_word_len_bounds(text);
    }
}

/// A word is no longer than its text, and not empty where the text starts
/// with a character that is not white space.
pub proof fn lemma_word_len_bounds(text: Seq<char>)
    ensures
        word_len(text) <= text.len(),
        text.len() > 0 && !is_white_space(text[0]) ==> word_len(text) >= 1,
    decreases text.len(),
{
    if text.len() > 0 && !is_white_space(text[0]) {
        lemma_word_len_bounds(text.drop_first());
    }
}

/// No character of the first word is white space.
proof fn lemma_word_holds_no_space(text: Seq<char>)
    ensures
        forall|k: int| 0 <= k < word_len(text) ==> !is_white_space(#[trigger] text[k]),
    decreases text.len(),
{
    if text.len() > 0 && !is_white_space(text[0]) {
        lemma_word_holds_no_space(text.drop_first());
        lemma_word_len_bounds(text.drop_first());
        assert forall|k: int| 0 <= k < word_len(text) implies !is_white_space(
            #[trigger] text[k],
        ) by {
            if k > 0 {
                assert(text[k] == text.drop_first()[k - 1]);
            }
        }
    }
}

/// Every word of a text holds at least one character, and none that is white
/// space.
pub proof fn lemma_words_hold_no_space(text: Seq<char>)
    ensures
        forall|i: int|
            0 <= i < words_of(text).len() ==> (#[trigger] words_of(text)[i]).len() > 0,
        forall|i: int, k: int|
            0 <= i < words_of(text).len() && 0 <= k < words_of(text)[i].len()
                ==> !is_white_space(#[trigger] words_of(text)[i][k]),
    decreases text.len(),
{
    if text.len() == 0 {
        assert(words_of(text).len() == 0);
    } else if is_white_space(text[0]) {
        lemma_words_hold_no_space(text.drop_first());
        assert(words_of(text) == words_of(text.drop_first()));
    } else {
        let n = word_len(text) as int;
        let first = text.take(n);
        let rest = words_of(text.skip(n));
        lemma_word_len_bounds(text);
        lemma_word_holds_no_space(text);
        lemma_words_hold_no_space(text.skip(n));
        assert(words_of(text) == seq![first] + rest);
        assert forall|i: int| 0 <= i < words_of(text).len() implies (#[trigger] words_of(
            text,
        )[i]).len() > 0 by {
            if i > 0 {
                assert(words_of(text)[i] == rest[i - 1]);
            }
        }
        assert forall|i: int, k: int|
            0 <= i < words_of(text).len() && 0 <= k < words_of(text)[i].len()
                implies !is_white_space(#[trigger] words_of(text)[i][k]) by {
            if i > 0 {
                assert(words_of(text)[i] == rest[i - 1]);
            } else {
                assert(first[k] == text[k]);
            }
        }
    }
}

/// A text without white space has no word where it is empty, and is its own
/// single word otherwise.
pub proof fn lemma_words_of_one_word(text: Seq<char>)
    requires
        forall|k: int| 0 <= k < text.len() ==> !is_white_space(#[trigger] text[k]),
    ensures
        words_of(text) == if text.len() == 0 {
            Seq::<Seq<char>>::empty()
        } else {
            seq![text]
        },
{
    if text.len() > 0 {
        assert(text.skip(0) =~= text);
        lemma_words_take_word(text, 0, text.len() as int);
        assert(text.subrange(0, text.len() as int) =~= text);
        assert(text.skip(text.len() as int) =~= Seq::<char>::empty());
    }
}

/// The views of a sequence of strings.
pub open spec fn texts(strings: Seq<String>) -> Seq<Seq<char>> {
    strings.map_values(|s: String| s@)
}

/// A copy of a list of strings.
pub fn clone_texts(list: &Vec<String>) -> (copy: Vec<String>)
    ensures
        texts(copy@) == texts(list@),
{
    let mut copy: Vec<String> = Vec::new();
    let mut i: usize = 0;
    while i < list.len()
        invariant
            i <= list.len(),
            texts(copy@) == texts(list@.take(i as int)),
        decreases list.len() - i,
    {
        let item = list[i].clone();
        proof {
            assert(list@.take(i + 1) =~= list@.take(i as int).push(list@[i as int]));
            assert(texts(copy@.push(item)) =~= texts(copy@).push(item@));
            assert(texts(list@.take(i as int).push(list@[i as int])) =~= texts(
                list@.take(i as int),
            ).push(list@[i as int]@));
        }
        copy.push(item);
        i += 1;
    }
    assert(list@.take(list.len() as int) =~= list@);
    copy
}

/// Each text of a sequence in its lowercase form.
pub open spec fn lowercase_each(items: Seq<Seq<char>>) -> Seq<Seq<char>> {
    items.map_values(|item: Seq<char>| lowercase_of(item))
}

/// Skipping a white space character at position `i` loses no word.
proof fn lemma_words_skip_space(text: Seq<char>, i: int)
    requires
        0 <= i < text.len(),
        is_white_space(text[i]),
    ensures
        words_of(text.skip(i)) == words_of(text.skip(i + 1)),
{
    assert(text.skip(i).drop_first() =~= text.skip(i + 1));
}

/// A run of characters from `start` to `end` that holds no white space and
/// ends at a white space or at the end of the text is the first word of the
/// text from `start` on.
proof fn lemma_words_take_word(text: Seq<char>, start: int, end: int)
    requires
        0 <= start < end <= text.len(),
        forall|k: int| start <= k < end ==> !is_white_space(#[trigger] text[k]),
        end < text.len() ==> is_white_space(text[end]),
    ensures
        words_of(text.skip(start)) == seq![text.subrange(start, end)] + words_of(text.skip(end)),
{
    lemma_word_len_run(text, start, end);
    let rest = text.skip(start);
    assert(rest.take(end - start) =~= text.subrange(start, end));
    assert(rest.skip(end - start) =~= text.skip(end));
}

/// The word that starts at `start` ends at `end` under the conditions of
/// [`lemma_words_take_word`].
proof fn lemma_word_len_run(text: Seq<char>, start: int, end: int)
    requires
        0 <= start <= end <= text.len(),
        forall|k: int| start <= k < end ==> !is_white_space(#[trigger] text[k]),
        end < text.len() ==> is_white_space(text[end]),
    ensures
        word_len(text.skip(start)) == end - start,
    decreases end - start,
{
    if start < end {
        lemma_word_len_run(text, start + 1, end);
        assert(text.skip(start).drop_first() =~= text.skip(start + 1));
    }
}

/// The lowercase forms of a first item and of the items behind it.
proof fn lemma_lowercase_each_first(first: Seq<char>, rest: Seq<Seq<char>>)
    ensures
        lowercase_each(seq![first] + rest) == seq![lowercase_of(first)] + lowercase_each(rest),
{
    assert(lowercase_each(seq![first] + rest) =~= seq![lowercase_of(first)] + lowercase_each(rest));
}

/// Appends to `words` the lowercase form of the word of `text` that runs from
/// `start` to `end`.
fn push_word(words: &mut Vec<String>, text: &str, start: usize, end: usize)
    requires
        start < end <= text@.len(),
        forall|k: int| start <= k < end ==> !is_white_space(#[trigger] text@[k]),
        end < text@.len() ==> is_white_space(text@[end as int]),
    ensures
        texts(final(words)@) + lowercase_each(words_of(text@.skip(end as int))) == texts(
            old(words)@,
        ) + lowercase_each(words_of(text@.skip(start as int))),
{
    let word = text.substring_char(start, end).to_lowercase();
    proof {
        lemma_words_take_word(text@, start as int, end as int);
        lemma_lowercase_each_first(
            text@.subrange(start as int, end as int),
            words_of(text@.skip(end as int)),
        );
        assert(texts(words@.push(word)) =~= texts(words@) + seq![word@]);
    }
    words.push(word);
}

/// Splits `text` at white space and returns its words in lowercase, from left
/// to right.
pub fn lowercase_words(text: &str) -> (words: Vec<String>)
    ensures
        texts(words@) == lowercase_each(words_of(text@)),
{
    broadcast use vstd::string::group_string_axioms;

    let n: usize = text.unicode_len();
    let mut words: Vec<String> = Vec::new();
    let mut start: usize = 0;
    let mut i: usize = 0;
    assert(text@.skip(0) =~= text@);
    for c in it: text.chars()
        invariant
            it.seq() == text@,
            n == text@.len(),
            i == it.index(),
            start <= i <= n,
            forall|k: int| start <= k < i ==> !is_white_space(#[trigger] text@[k]),
            lowercase_each(words_of(text@)) == texts(words@) + lowercase_each(
                words_of(text@.skip(start as int)),
            ),
    {
        if c.is_whitespace() {
            if start < i {
                push_word(&mut words, text, start, i);
            }
            proof {
                lemma_words_skip_space(text@, i as int);
            }
            start = i + 1;
        }
        i += 1;
    }
    if start < i {
        push_word(&mut words, text, start, i);
    }
    assert(text@.skip(n as int) =~= Seq::<char>::empty());
    words
}

} // verus!
