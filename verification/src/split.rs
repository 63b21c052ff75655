//! Cutting text at separators and putting it together again.

use vstd::prelude::*;

use crate::text;

verus! {

/// The separators that are one of `separators`.
pub open spec fn one_of(separators: Seq<char>) -> spec_fn(char) -> bool {
    |c: char| separators.contains(c)
}

/// The separators that are white space.
pub open spec fn white() -> spec_fn(char) -> bool {
    |c: char| text::white_space(c)
}

/// The parts of `text` between separators, empty parts included: one more than there are
/// separators.
pub open spec fn split(text: Seq<char>, separator: spec_fn(char) -> bool) -> Seq<Seq<char>>
    decreases text.len(),
{
    if text.len() == 0 {
        seq![Seq::empty()]
    } else {
        let before = split(text.drop_last(), separator);
        if separator(text.last()) {
            before.push(Seq::empty())
        } else {
            before.update(before.len() - 1, before.last().push(text.last()))
        }
    }
}

pub proof fn lemma_split_not_empty(text: Seq<char>, separator: spec_fn(char) -> bool)
    ensures
        split(text, separator).len() > 0,
    decreases text.len(),
{
    if text.len() > 0 {
        lemma_split_not_empty(text.drop_last(), separator);
    }
}

/// No part of a split holds a separator, and a text without separators is its only part.
pub proof fn split_parts_hold_no_separator(text: Seq<char>, separator: spec_fn(char) -> bool)
    ensures
        forall|i: int, j: int|
            0 <= i < split(text, separator).len() && 0 <= j < split(text, separator)[i].len()
                ==> !separator(#[trigger] split(text, separator)[i][j]),
        (forall|j: int| 0 <= j < text.len() ==> !separator(#[trigger] text[j])) ==> split(
            text,
            separator,
        ) == seq![text],
    decreases text.len(),
{
    if text.len() > 0 {
        let before = text.drop_last();
        split_parts_hold_no_separator(before, separator);
        lemma_split_not_empty(before, separator);
        if forall|j: int| 0 <= j < text.len() ==> !separator(#[trigger] text[j]) {
            assert(forall|j: int| 0 <= j < before.len() ==> !separator(#[trigger] before[j])) by {
                assert(forall|j: int| 0 <= j < before.len() ==> before[j] == text[j]);
            }
            assert(!separator(text[text.len() - 1]));
            assert(before.push(text.last()) == text);
            assert(split(text, separator) == seq![text]);
        }
    } else {
        assert(text == Seq::<char>::empty());
        assert(split(text, separator) == seq![text]);
    }
}

/// Puts the parts together again, with `glue` between them.
pub open spec fn join(parts: Seq<Seq<char>>, glue: Seq<char>) -> Seq<char>
    decreases parts.len(),
{
    if parts.len() == 0 {
        Seq::empty()
    } else if parts.len() == 1 {
        parts[0]
    } else {
        join(parts.drop_last(), glue) + glue + parts.last()
    }
}

/// Splitting at one separator and joining with it gives the text back.
pub proof fn join_undoes_split(text: Seq<char>, separator: char)
    ensures
        join(split(text, one_of(seq![separator])), seq![separator]) == text,
    decreases text.len(),
{
    let separators = one_of(seq![separator]);
    let parts = split(text, separators);
    if text.len() == 0 {
        assert(parts[0] == text);
    } else {
        let before = split(text.drop_last(), separators);
        join_undoes_split(text.drop_last(), separator);
        lemma_split_not_empty(text.drop_last(), separators);
        assert(text == text.drop_last().push(text.last()));
        if separators(text.last()) {
            assert(seq![separator].contains(text.last()));
            assert(text.last() == separator);
            assert(parts.drop_last() == before);
            assert(join(parts, seq![separator]) == join(before, seq![separator]) + seq![separator]
                + Seq::empty());
            assert(join(parts, seq![separator]) == text);
        } else {
            assert(parts.drop_last() == before.drop_last());
            if before.len() == 1 {
                assert(join(parts, seq![separator]) == text);
            } else {
                assert(join(before.drop_last(), seq![separator]) + seq![separator]
                    + before.last().push(text.last()) == (join(
                    before.drop_last(),
                    seq![separator],
                ) + seq![separator] + before.last()).push(text.last()));
                assert(join(parts, seq![separator]) == text);
            }
        }
    }
}

fn is_one_of(separators: &Vec<char>, c: char) -> (answer: bool)
    ensures
        answer == separators@.contains(c),
{
    let mut i: usize = 0;
    while i < separators.len()
        invariant
            i <= separators@.len(),
            forall|j: int| 0 <= j < i ==> separators@[j] != c,
        decreases separators@.len() - i,
    {
        if separators[i] == c {
            return true;
        }
        i = i + 1;
    }
    false
}

/// The parts of `text` between the characters of `separators`.
pub fn split_at_any(text: &str, separators: &Vec<char>) -> (parts: Vec<String>)
    ensures
        text::views(parts@) == split(text@, one_of(separators@)),
{
    let chars = text::to_chars(text);
    let ghost separator = one_of(separators@);
    let mut parts: Vec<String> = Vec::new();
    let mut current: Vec<char> = Vec::new();
    let mut i: usize = 0;
    assert(chars@.take(0) == Seq::<char>::empty());
    assert(text::views(parts@).push(current@) == split(chars@.take(0), separator));
    while i < chars.len()
        invariant
            i <= chars@.len(),
            separator == one_of(separators@),
            text::views(parts@).push(current@) == split(chars@.take(i as int), separator),
        decreases chars@.len() - i,
    {
        let ghost done = text::views(parts@).push(current@);
        assert(chars@.take(i + 1).drop_last() == chars@.take(i as int));
        if is_one_of(separators, chars[i]) {
            parts.push(text::from_chars(&current));
            assert(text::views(parts@) == done);
            current = Vec::new();
            assert(text::views(parts@).push(current@) == done.push(Seq::empty()));
        } else {
            current.push(chars[i]);
            assert(text::views(parts@).push(current@) == done.update(
                done.len() - 1,
                done.last().push(chars@[i as int]),
            ));
        }
        i = i + 1;
    }
    assert(chars@.take(i as int) == chars@);
    let ghost done = text::views(parts@).push(current@);
    parts.push(text::from_chars(&current));
    assert(text::views(parts@) == done);
    parts
}

/// The parts of `text` that are not empty, cut at white space.
pub open spec fn words(text: Seq<char>) -> Seq<Seq<char>> {
    split(text, white()).filter(|word: Seq<char>| word.len() > 0)
}

/// The words of `text`: its parts between white space, without the empty ones.
pub fn split_words(text: &str) -> (found: Vec<String>)
    ensures
        text::views(found@) == words(text@),
{
    let chars = text::to_chars(text);
    let ghost named = |word: Seq<char>| word.len() > 0;
    let ghost mut all: Seq<Seq<char>> = Seq::empty();
    let mut found: Vec<String> = Vec::new();
    let mut current: Vec<char> = Vec::new();
    let mut i: usize = 0;
    assert(chars@.take(0) == Seq::<char>::empty());
    assert(all.push(current@) == split(chars@.take(0), white()));
    assert(all.filter(named) == text::views(found@)) by {
        reveal(Seq::filter);
    }
    while i < chars.len()
        invariant
            i <= chars@.len(),
            named == |word: Seq<char>| word.len() > 0,
            all.push(current@) == split(chars@.take(i as int), white()),
            all.filter(named) == text::views(found@),
        decreases chars@.len() - i,
    {
        let ghost done = all.push(current@);
        assert(chars@.take(i + 1).drop_last() == chars@.take(i as int));
        if text::is_white_space(chars[i]) {
            proof {
                lemma_filter_push(all, current@, named);
                all = done;
            }
            let ghost before = text::views(found@);
            if current.len() > 0 {
                found.push(text::from_chars(&current));
                assert(text::views(found@) == before.push(current@));
            }
            current = Vec::new();
            assert(all.push(current@) == done.push(Seq::empty()));
        } else {
            current.push(chars[i]);
            assert(all.push(current@) == done.update(
                done.len() - 1,
                done.last().push(chars@[i as int]),
            ));
        }
        i = i + 1;
    }
    assert(chars@.take(i as int) == chars@);
    proof {
        lemma_filter_push(all, current@, named);
    }
    let ghost before = text::views(found@);
    if current.len() > 0 {
        found.push(text::from_chars(&current));
        assert(text::views(found@) == before.push(current@));
    }
    found
}

proof fn lemma_filter_push(all: Seq<Seq<char>>, last: Seq<char>, kept: spec_fn(Seq<char>) -> bool)
    ensures
        all.push(last).filter(kept) == if kept(last) {
            all.filter(kept).push(last)
        } else {
            all.filter(kept)
        },
{
    reveal(Seq::filter);
    assert(all.push(last).drop_last() == all);
}

/// The strings of `parts` with `glue` between them.
pub fn joined(parts: &Vec<String>, glue: &str) -> (text: String)
    ensures
        text@ == join(text::views(parts@), glue@),
{
    let mut text = String::new();
    let mut i: usize = 0;
    let ghost all = text::views(parts@);
    assert(all.take(0) == Seq::<Seq<char>>::empty());
    while i < parts.len()
        invariant
            all == text::views(parts@),
            i <= parts@.len(),
            text@ == join(all.take(i as int), glue@),
        decreases parts@.len() - i,
    {
        assert(all.take(i + 1).drop_last() == all.take(i as int));
        if i > 0 {
            text.append(glue);
        }
        text.append(parts[i].as_str());
        i = i + 1;
        assert(text@ == join(all.take(i as int), glue@));
    }
    assert(all.take(i as int) == all);
    text
}

/// The position of the last `wanted` in `text`, or -1 where there is none.
pub open spec fn last_position(text: Seq<char>, wanted: char) -> int
    decreases text.len(),
{
    if text.len() == 0 {
        -1
    } else if text.last() == wanted {
        text.len() - 1
    } else {
        last_position(text.drop_last(), wanted)
    }
}

pub proof fn lemma_last_position(text: Seq<char>, wanted: char)
    ensures
        -1 <= last_position(text, wanted) < text.len(),
        last_position(text, wanted) >= 0 ==> text[last_position(text, wanted)] == wanted,
        forall|i: int| last_position(text, wanted) < i < text.len() ==> text[i] != wanted,
    decreases text.len(),
{
    if text.len() > 0 && text.last() != wanted {
        let before = text.drop_last();
        lemma_last_position(before, wanted);
        assert forall|i: int| last_position(text, wanted) < i < text.len() implies text[i]
            != wanted by {
            if i < before.len() {
                assert(before[i] == text[i]);
            }
        }
    }
}

fn find_last(chars: &Vec<char>, wanted: char) -> (position: Option<usize>)
    ensures
        match position {
            Some(at) => at == last_position(chars@, wanted),
            None => last_position(chars@, wanted) == -1,
        },
        position is Some ==> position->0 < chars@.len(),
{
    let mut i: usize = chars.len();
    assert(chars@.take(i as int) == chars@);
    while i > 0
        invariant
            i <= chars@.len(),
            last_position(chars@, wanted) == last_position(chars@.take(i as int), wanted),
        decreases i,
    {
        assert(chars@.take(i as int).drop_last() == chars@.take(i - 1));
        if chars[i - 1] == wanted {
            return Some(i - 1);
        }
        i = i - 1;
    }
    None
}

/// The text after the last `wanted`, if there is one.
pub open spec fn after_last(text: Seq<char>, wanted: char) -> Option<Seq<char>> {
    let at = last_position(text, wanted);
    if at >= 0 {
        Some(text.skip(at + 1))
    } else {
        None
    }
}

pub fn text_after_last(text: &str, wanted: char) -> (rest: Option<String>)
    ensures
        match rest {
            Some(rest) => after_last(text@, wanted) == Some(rest@),
            None => after_last(text@, wanted) is None,
        },
{
    let chars = text::to_chars(text);
    let total: usize = chars.len();
    match find_last(&chars, wanted) {
        Some(at) => {
            assert(chars@.skip(at + 1) == chars@.subrange(at + 1, chars@.len() as int));
            Some(text::part(&chars, at + 1, total))
        },
        None => None,
    }
}

/// The text before the last `wanted`, if there is one.
pub fn text_before_last(text: &str, wanted: char) -> (rest: Option<String>)
    ensures
        match rest {
            Some(rest) => last_position(text@, wanted) >= 0 && rest@ == text@.take(
                last_position(text@, wanted),
            ),
            None => last_position(text@, wanted) == -1,
        },
{
    let chars = text::to_chars(text);
    match find_last(&chars, wanted) {
        Some(at) => {
            assert(chars@.take(at as int) == chars@.subrange(0, at as int));
            Some(text::part(&chars, 0, at))
        },
        None => None,
    }
}

// ---------------------------------------------------------------------------
// Laws

/// A separator divides the parts in front of it from those behind it, and is in none of them.
pub proof fn a_separator_divides(
    left: Seq<char>,
    at: char,
    right: Seq<char>,
    separator: spec_fn(char) -> bool,
)
    requires
        separator(at),
    ensures
        split(left + seq![at] + right, separator) == split(left, separator) + split(right, separator),
    decreases right.len(),
{
    let whole = left + seq![at] + right;
    let front = split(left, separator);
    let back = split(right, separator);
    if right.len() == 0 {
        assert(whole.drop_last() == left);
        assert(whole.last() == at);
        assert(front.push(Seq::empty()) == front + back);
    } else {
        let shorter = right.drop_last();
        let fewer = split(shorter, separator);
        a_separator_divides(left, at, shorter, separator);
        lemma_split_not_empty(shorter, separator);
        assert(whole.drop_last() == left + seq![at] + shorter);
        assert(whole.last() == right.last());
        assert((front + fewer).last() == fewer.last());
        if separator(right.last()) {
            assert((front + fewer).push(Seq::empty()) == front + back);
        } else {
            assert((front + fewer).update(
                front.len() + fewer.len() - 1,
                fewer.last().push(right.last()),
            ) == front + back);
        }
    }
}

/// White space divides words, however much of it there is: the words of a text are those in front
/// of it and those behind it, and a text without white space is one word.
pub proof fn white_space_divides_words(left: Seq<char>, at: char, right: Seq<char>, word: Seq<char>)
    requires
        text::white_space(at),
        word.len() > 0,
        forall|i: int| 0 <= i < word.len() ==> !text::white_space(#[trigger] word[i]),
    ensures
        words(left + seq![at] + right) == words(left) + words(right),
        words(word) == seq![word],
        words(Seq::empty()) == Seq::<Seq<char>>::empty(),
{
    let named = |word: Seq<char>| word.len() > 0;
    a_separator_divides(left, at, right, white());
    Seq::filter_distributes_over_add(split(left, white()), split(right, white()), named);
    split_parts_hold_no_separator(word, white());
    reveal(Seq::filter);
    assert(seq![word].drop_last() == Seq::<Seq<char>>::empty());
    assert(Seq::<Seq<char>>::empty().filter(named) == Seq::<Seq<char>>::empty());
    assert(seq![word].filter(named) == seq![word]);
    let nothing = seq![Seq::<char>::empty()];
    assert(nothing.drop_last() == Seq::<Seq<char>>::empty());
    assert(nothing.filter(named) == Seq::<Seq<char>>::empty());
}

/// The last of some parts stands at the end of their joined text, with the glue in front of it.
pub proof fn joining_appends(parts: Seq<Seq<char>>, part: Seq<char>, glue: Seq<char>)
    ensures
        join(parts.push(part), glue) == if parts.len() == 0 {
            part
        } else {
            join(parts, glue) + glue + part
        },
        join(Seq::empty(), glue) == Seq::<char>::empty(),
{
    assert(parts.push(part).drop_last() == parts);
    assert(parts.push(part).last() == part);
}

/// What follows the last of a character is found, and nothing where there is none.
pub proof fn the_end_behind_the_last_is_found(left: Seq<char>, wanted: char, right: Seq<char>)
    requires
        !right.contains(wanted),
    ensures
        after_last(left + seq![wanted] + right, wanted) == Some(right),
        last_position(left + seq![wanted] + right, wanted) == left.len(),
        after_last(right, wanted) is None,
{
    let whole = left + seq![wanted] + right;
    lemma_last_position(whole, wanted);
    lemma_last_position(right, wanted);
    let at = last_position(whole, wanted);
    assert(whole[left.len() as int] == wanted);
    if at > left.len() {
        assert(right[at - left.len() - 1] == wanted);
    }
    assert(whole.skip(left.len() as int + 1) == right);
}

} // verus!
