//! Text as a sequence of characters: the comparisons, searches, case foldings and replacements
//! that every other module states its results with.

use vstd::prelude::*;

verus! {

/// `String::push` appends the given character to the end of the string.
pub assume_specification[ String::push ](string: &mut String, c: char)
    ensures
        final(string)@ == old(string)@.push(c),
;

/// The contents of each string of a list.
pub open spec fn views(texts: Seq<String>) -> Seq<Seq<char>> {
    texts.map_values(|text: String| text@)
}

/// The contents of an optional string.
pub open spec fn view_of(text: Option<String>) -> Option<Seq<char>> {
    match text {
        Some(text) => Some(text@),
        None => None,
    }
}

/// The contents of an optional borrowed string.
pub open spec fn str_view_of(text: Option<&str>) -> Option<Seq<char>> {
    match text {
        Some(text) => Some(text@),
        None => None,
    }
}

/// The contents of a result that is a string either way.
pub open spec fn outcome_view(outcome: Result<String, String>) -> Result<Seq<char>, Seq<char>> {
    match outcome {
        Ok(text) => Ok(text@),
        Err(message) => Err(message@),
    }
}

/// The contents of the message of a check.
pub open spec fn check_view(outcome: Result<(), String>) -> Result<(), Seq<char>> {
    match outcome {
        Ok(_) => Ok(()),
        Err(message) => Err(message@),
    }
}

// ---------------------------------------------------------------------------
// Characters

/// The characters with the Unicode property `White_Space`.
pub open spec fn white_space(c: char) -> bool {
    ||| '\u{9}' <= c <= '\u{d}'
    ||| c == ' '
    ||| c == '\u{85}'
    ||| c == '\u{a0}'
    ||| c == '\u{1680}'
    ||| '\u{2000}' <= c <= '\u{200a}'
    ||| c == '\u{2028}'
    ||| c == '\u{2029}'
    ||| c == '\u{202f}'
    ||| c == '\u{205f}'
    ||| c == '\u{3000}'
}

/// Whether `c` has the Unicode property `White_Space`.
pub fn is_white_space(c: char) -> (answer: bool)
    ensures
        answer == white_space(c),
{
    ('\u{9}' <= c && c <= '\u{d}') || c == ' ' || c == '\u{85}' || c == '\u{a0}' || c == '\u{1680}'
        || ('\u{2000}' <= c && c <= '\u{200a}') || c == '\u{2028}' || c == '\u{2029}' || c
        == '\u{202f}' || c == '\u{205f}' || c == '\u{3000}'
}

pub open spec fn ascii_upper_letter(c: char) -> bool {
    'A' <= c <= 'Z'
}

pub open spec fn ascii_lower_letter(c: char) -> bool {
    'a' <= c <= 'z'
}

pub open spec fn ascii_letter(c: char) -> bool {
    ascii_upper_letter(c) || ascii_lower_letter(c)
}

pub open spec fn ascii_digit(c: char) -> bool {
    '0' <= c <= '9'
}

/// `c` with an ASCII capital replaced by its small letter.
pub open spec fn lower_char(c: char) -> char {
    if ascii_upper_letter(c) {
        (c as u32 + 32) as char
    } else {
        c
    }
}

/// `c` with an ASCII small letter replaced by its capital.
pub open spec fn upper_char(c: char) -> char {
    if ascii_lower_letter(c) {
        (c as u32 - 32) as char
    } else {
        c
    }
}

pub fn to_lower_char(c: char) -> (folded: char)
    ensures
        folded == lower_char(c),
{
    if 'A' <= c && c <= 'Z' {
        ((c as u8) + 32) as char
    } else {
        c
    }
}

pub fn to_upper_char(c: char) -> (folded: char)
    ensures
        folded == upper_char(c),
{
    if 'a' <= c && c <= 'z' {
        ((c as u8) - 32) as char
    } else {
        c
    }
}

// ---------------------------------------------------------------------------
// Between strings and character vectors

pub fn to_chars(text: &str) -> (chars: Vec<char>)
    ensures
        chars@ == text@,
{
    let mut chars: Vec<char> = Vec::new();
    for c in iter: text.chars()
        invariant
            chars@ == text@.take(iter.index() as int),
            iter.seq() == text@,
    {
        chars.push(c);
    }
    chars
}

/// The characters of `chars` from `from` up to `to`, as a string.
pub fn part(chars: &Vec<char>, from: usize, to: usize) -> (text: String)
    requires
        from <= to <= chars@.len(),
    ensures
        text@ == chars@.subrange(from as int, to as int),
{
    let mut text = String::new();
    let mut i: usize = from;
    while i < to
        invariant
            from <= i <= to <= chars@.len(),
            text@ == chars@.subrange(from as int, i as int),
        decreases to - i,
    {
        text.push(chars[i]);
        i = i + 1;
        assert(text@ == chars@.subrange(from as int, i as int));
    }
    text
}

pub fn from_chars(chars: &Vec<char>) -> (text: String)
    ensures
        text@ == chars@,
{
    let text = part(chars, 0, chars.len());
    assert(chars@.subrange(0, chars@.len() as int) == chars@);
    text
}

/// Two texts, one behind the other.
pub fn chained(first: &str, second: &str) -> (text: String)
    ensures
        text@ == first@ + second@,
{
    let mut text = first.to_owned();
    text.append(second);
    text
}

// ---------------------------------------------------------------------------
// Comparison and search

/// Whether the text `needle` stands in `chars` at position `at`.
fn stands_at(chars: &Vec<char>, needle: &Vec<char>, at: usize) -> (answer: bool)
    requires
        at + needle@.len() <= chars@.len(),
    ensures
        answer == (chars@.subrange(at as int, at + needle@.len()) == needle@),
{
    let ghost window = chars@.subrange(at as int, at + needle@.len());
    let total: usize = chars.len();
    let mut i: usize = 0;
    while i < needle.len()
        invariant
            i <= needle@.len(),
            at + needle@.len() <= total == chars@.len(),
            window == chars@.subrange(at as int, at + needle@.len()),
            forall|j: int| 0 <= j < i ==> window[j] == needle@[j],
        decreases needle@.len() - i,
    {
        if chars[at + i] != needle[i] {
            assert(window[i as int] != needle@[i as int]);
            return false;
        }
        i = i + 1;
    }
    assert(window == needle@);
    true
}

/// Whether two strings hold the same characters.
pub fn same_text(left: &str, right: &str) -> (answer: bool)
    ensures
        answer == (left@ == right@),
{
    let left = to_chars(left);
    let right = to_chars(right);
    if left.len() != right.len() {
        return false;
    }
    assert(left@.subrange(0, right@.len() as int) == left@);
    stands_at(&left, &right, 0)
}

/// Whether `text` begins with `prefix`.
pub fn has_prefix(text: &str, prefix: &str) -> (answer: bool)
    ensures
        answer == prefix@.is_prefix_of(text@),
{
    let text = to_chars(text);
    let prefix = to_chars(prefix);
    text.len() >= prefix.len() && stands_at(&text, &prefix, 0)
}

/// Whether `text` ends with `suffix`.
pub fn has_suffix(text: &str, suffix: &str) -> (answer: bool)
    ensures
        answer == suffix@.is_suffix_of(text@),
{
    let text = to_chars(text);
    let suffix = to_chars(suffix);
    text.len() >= suffix.len() && stands_at(&text, &suffix, text.len() - suffix.len())
}

/// `needle` stands in `text` at position `at`.
pub open spec fn occurs_at(text: Seq<char>, needle: Seq<char>, at: int) -> bool {
    0 <= at <= text.len() - needle.len() && text.subrange(at, at + needle.len()) == needle
}

/// `needle` stands somewhere in `text`.
pub open spec fn occurs_in(text: Seq<char>, needle: Seq<char>) -> bool {
    exists|at: int| occurs_at(text, needle, at)
}

/// Whether `needle` stands somewhere in `text`.
pub fn has_text(text: &str, needle: &str) -> (answer: bool)
    ensures
        answer == occurs_in(text@, needle@),
{
    let chars = to_chars(text);
    let wanted = to_chars(needle);
    let mut at: usize = 0;
    while wanted.len() <= chars.len() && at <= chars.len() - wanted.len()
        invariant
            chars@ == text@,
            wanted@ == needle@,
            at <= chars@.len() + 1,
            forall|j: int| 0 <= j < at ==> !occurs_at(text@, needle@, j),
        decreases chars@.len() + 1 - at,
    {
        if stands_at(&chars, &wanted, at) {
            assert(occurs_at(text@, needle@, at as int));
            return true;
        }
        assert(wanted@.len() > 0) by {
            if wanted@.len() == 0 {
                assert(chars@.subrange(at as int, at + wanted@.len()) == wanted@);
            }
        }
        at = at + 1;
    }
    false
}

/// Whether the character `wanted` occurs in `text`.
pub fn has_char(text: &str, wanted: char) -> (answer: bool)
    ensures
        answer == text@.contains(wanted),
{
    let chars = to_chars(text);
    let mut i: usize = 0;
    while i < chars.len()
        invariant
            chars@ == text@,
            i <= chars@.len(),
            forall|j: int| 0 <= j < i ==> chars@[j] != wanted,
        decreases chars@.len() - i,
    {
        if chars[i] == wanted {
            return true;
        }
        i = i + 1;
    }
    false
}

/// `text` without `prefix`, if it begins with it.
pub open spec fn strip_prefix(text: Seq<char>, prefix: Seq<char>) -> Option<Seq<char>> {
    if prefix.is_prefix_of(text) {
        Some(text.skip(prefix.len() as int))
    } else {
        None
    }
}

/// `text` without `suffix`, if it ends with it.
pub open spec fn strip_suffix(text: Seq<char>, suffix: Seq<char>) -> Option<Seq<char>> {
    if suffix.is_suffix_of(text) {
        Some(text.take(text.len() - suffix.len()))
    } else {
        None
    }
}

pub fn without_prefix(text: &str, prefix: &str) -> (rest: Option<String>)
    ensures
        view_of(rest) == strip_prefix(text@, prefix@),
{
    let chars = to_chars(text);
    let prefix = to_chars(prefix);
    if chars.len() >= prefix.len() && stands_at(&chars, &prefix, 0) {
        assert(chars@.skip(prefix@.len() as int) == chars@.subrange(
            prefix@.len() as int,
            chars@.len() as int,
        ));
        Some(part(&chars, prefix.len(), chars.len()))
    } else {
        None
    }
}

pub fn without_suffix(text: &str, suffix: &str) -> (rest: Option<String>)
    ensures
        view_of(rest) == strip_suffix(text@, suffix@),
{
    let chars = to_chars(text);
    let suffix = to_chars(suffix);
    if chars.len() >= suffix.len() && stands_at(&chars, &suffix, chars.len() - suffix.len()) {
        assert(chars@.take(chars@.len() - suffix@.len()) == chars@.subrange(
            0,
            chars@.len() - suffix@.len(),
        ));
        Some(part(&chars, 0, chars.len() - suffix.len()))
    } else {
        None
    }
}

/// How often a character occurs in `text`.
pub open spec fn occurrences(text: Seq<char>, wanted: char) -> nat
    decreases text.len(),
{
    if text.len() == 0 {
        0
    } else {
        occurrences(text.drop_last(), wanted) + if text.last() == wanted {
            1nat
        } else {
            0nat
        }
    }
}

pub fn count_char(text: &str, wanted: char) -> (count: usize)
    ensures
        count == occurrences(text@, wanted),
{
    let chars = to_chars(text);
    let mut count: usize = 0;
    let mut i: usize = 0;
    assert(chars@.take(0) == Seq::<char>::empty());
    while i < chars.len()
        invariant
            chars@ == text@,
            count <= i <= chars@.len(),
            count == occurrences(text@.take(i as int), wanted),
        decreases chars@.len() - i,
    {
        assert(text@.take(i + 1).drop_last() == text@.take(i as int));
        if chars[i] == wanted {
            count = count + 1;
        }
        i = i + 1;
    }
    assert(text@.take(i as int) == text@);
    count
}

// ---------------------------------------------------------------------------
// Order

/// `left` stands before `right` in the order of texts by their characters.
pub open spec fn before(left: Seq<char>, right: Seq<char>) -> bool
    decreases left.len(),
{
    if left.len() == 0 || right.len() == 0 {
        left.len() == 0 && right.len() > 0
    } else if left[0] == right[0] {
        before(left.skip(1), right.skip(1))
    } else {
        left[0] < right[0]
    }
}

/// Whether `left` stands before `right` in the order of texts by their characters.
pub fn is_before(left: &str, right: &str) -> (answer: bool)
    ensures
        answer == before(left@, right@),
{
    let a = to_chars(left);
    let b = to_chars(right);
    let mut i: usize = 0;
    assert(a@.skip(0) == a@ && b@.skip(0) == b@);
    while i < a.len() && i < b.len()
        invariant
            a@ == left@,
            b@ == right@,
            i <= a@.len() && i <= b@.len(),
            before(left@, right@) == before(a@.skip(i as int), b@.skip(i as int)),
        decreases a@.len() - i,
    {
        assert(a@.skip(i as int).skip(1) == a@.skip(i + 1));
        assert(b@.skip(i as int).skip(1) == b@.skip(i + 1));
        if a[i] != b[i] {
            return a[i] < b[i];
        }
        i = i + 1;
    }
    i < b.len()
}

/// The order of texts is total: of two different texts exactly one stands before the other, and
/// what stands before a text stands before all that follow it.
pub proof fn text_order_is_total(left: Seq<char>, middle: Seq<char>, right: Seq<char>)
    ensures
        !before(left, left),
        left != right ==> before(left, right) != before(right, left),
        before(left, middle) && before(middle, right) ==> before(left, right),
    decreases left.len(),
{
    if left.len() == 0 {
        if right.len() == 0 {
            assert(left == right);
        }
    } else {
        assert(left == seq![left[0]] + left.skip(1));
        if right.len() > 0 && middle.len() > 0 {
            assert(right == seq![right[0]] + right.skip(1));
            text_order_is_total(left.skip(1), middle.skip(1), right.skip(1));
        } else if right.len() > 0 {
            assert(right == seq![right[0]] + right.skip(1));
            text_order_is_total(left.skip(1), middle, right.skip(1));
        } else {
            text_order_is_total(left.skip(1), middle, right);
        }
    }
}

/// Whether `text` is one of `names`.
pub fn is_listed(names: &Vec<&str>, text: &str) -> (answer: bool)
    ensures
        answer == (exists|i: int| 0 <= i < names@.len() && #[trigger] names@[i]@ == text@),
{
    let mut i: usize = 0;
    while i < names.len()
        invariant
            i <= names@.len(),
            forall|j: int| 0 <= j < i ==> #[trigger] names@[j]@ != text@,
        decreases names@.len() - i,
    {
        if same_text(names[i], text) {
            return true;
        }
        i = i + 1;
    }
    false
}

/// Whether `text` is one of `texts`.
pub fn holds_text(texts: &Vec<String>, text: &str) -> (answer: bool)
    ensures
        answer == views(texts@).contains(text@),
{
    let mut i: usize = 0;
    while i < texts.len()
        invariant
            i <= texts@.len(),
            forall|j: int| 0 <= j < i ==> views(texts@)[j] != text@,
        decreases texts@.len() - i,
    {
        if same_text(texts[i].as_str(), text) {
            assert(views(texts@)[i as int] == text@);
            return true;
        }
        i = i + 1;
    }
    false
}

// ---------------------------------------------------------------------------
// ASCII case

/// `text` with its ASCII capitals made small.
pub open spec fn lower(text: Seq<char>) -> Seq<char> {
    text.map_values(|c: char| lower_char(c))
}

/// `text` with its ASCII small letters made capital.
pub open spec fn upper(text: Seq<char>) -> Seq<char> {
    text.map_values(|c: char| upper_char(c))
}

pub fn to_lower(text: &str) -> (folded: String)
    ensures
        folded@ == lower(text@),
{
    let chars = to_chars(text);
    let mut folded = String::new();
    let mut i: usize = 0;
    while i < chars.len()
        invariant
            chars@ == text@,
            i <= chars@.len(),
            folded@ == lower(text@).take(i as int),
        decreases chars@.len() - i,
    {
        folded.push(to_lower_char(chars[i]));
        i = i + 1;
        assert(folded@ == lower(text@).take(i as int));
    }
    folded
}

pub fn to_upper(text: &str) -> (folded: String)
    ensures
        folded@ == upper(text@),
{
    let chars = to_chars(text);
    let mut folded = String::new();
    let mut i: usize = 0;
    while i < chars.len()
        invariant
            chars@ == text@,
            i <= chars@.len(),
            folded@ == upper(text@).take(i as int),
        decreases chars@.len() - i,
    {
        folded.push(to_upper_char(chars[i]));
        i = i + 1;
        assert(folded@ == upper(text@).take(i as int));
    }
    folded
}

/// Whether two strings are the same but for the case of ASCII letters.
pub fn same_ignoring_case(left: &str, right: &str) -> (answer: bool)
    ensures
        answer == (lower(left@) == lower(right@)),
{
    let left = to_lower(left);
    let right = to_lower(right);
    same_text(left.as_str(), right.as_str())
}

// ---------------------------------------------------------------------------
// Surrounding white space

pub open spec fn trim_start(text: Seq<char>) -> Seq<char>
    decreases text.len(),
{
    if text.len() > 0 && white_space(text[0]) {
        trim_start(text.skip(1))
    } else {
        text
    }
}

pub open spec fn trim_end(text: Seq<char>) -> Seq<char>
    decreases text.len(),
{
    if text.len() > 0 && white_space(text.last()) {
        trim_end(text.drop_last())
    } else {
        text
    }
}

/// `text` without the white space around it.
pub open spec fn trim(text: Seq<char>) -> Seq<char> {
    trim_end(trim_start(text))
}

/// The position of the first character that is not white space.
fn start_of_text(chars: &Vec<char>) -> (start: usize)
    ensures
        start <= chars@.len(),
        trim_start(chars@) == chars@.skip(start as int),
{
    let mut start: usize = 0;
    assert(chars@.skip(0) == chars@);
    while start < chars.len() && is_white_space(chars[start])
        invariant
            start <= chars@.len(),
            trim_start(chars@) == trim_start(chars@.skip(start as int)),
        decreases chars@.len() - start,
    {
        assert(chars@.skip(start as int).skip(1) == chars@.skip(start + 1));
        start = start + 1;
    }
    start
}

pub fn trimmed_start(text: &str) -> (rest: String)
    ensures
        rest@ == trim_start(text@),
{
    let chars = to_chars(text);
    let start = start_of_text(&chars);
    assert(chars@.skip(start as int) == chars@.subrange(start as int, chars@.len() as int));
    part(&chars, start, chars.len())
}

/// `text` without the white space around it.
pub fn trimmed(text: &str) -> (rest: String)
    ensures
        rest@ == trim(text@),
{
    let chars = to_chars(text);
    let start = start_of_text(&chars);
    let mut end: usize = chars.len();
    assert(chars@.skip(start as int) == chars@.subrange(start as int, end as int));
    while start < end && is_white_space(chars[end - 1])
        invariant
            start <= end <= chars@.len(),
            trim(chars@) == trim_end(chars@.subrange(start as int, end as int)),
        decreases end - start,
    {
        assert(chars@.subrange(start as int, end as int).drop_last() == chars@.subrange(
            start as int,
            end - 1,
        ));
        end = end - 1;
    }
    part(&chars, start, end)
}

/// Trimming leaves a text that begins and ends with something else than white space, and
/// leaves such a text alone.
pub proof fn trimmed_text_has_no_white_border(text: Seq<char>)
    ensures
        trim(text).len() > 0 ==> !white_space(trim(text)[0]) && !white_space(trim(text).last()),
        (text.len() == 0 || (!white_space(text[0]) && !white_space(text.last()))) ==> trim(text)
            == text,
        trim(trim(text)) == trim(text),
{
    lemma_trim_start(text);
    lemma_trim_end(trim_start(text));
}

proof fn lemma_trim_start(text: Seq<char>)
    ensures
        trim_start(text).len() > 0 ==> !white_space(trim_start(text)[0]),
    decreases text.len(),
{
    if text.len() > 0 && white_space(text[0]) {
        lemma_trim_start(text.skip(1));
    }
}

proof fn lemma_trim_end(text: Seq<char>)
    ensures
        trim_end(text).is_prefix_of(text),
        trim_end(text).len() > 0 ==> !white_space(trim_end(text).last()),
        trim_end(text).len() > 0 ==> trim_end(text)[0] == text[0],
    decreases text.len(),
{
    if text.len() > 0 && white_space(text.last()) {
        lemma_trim_end(text.drop_last());
    }
}

// ---------------------------------------------------------------------------
// Replacement

/// `text` with every `old_char` replaced by the text `by`.
pub open spec fn replace_char(text: Seq<char>, old_char: char, by: Seq<char>) -> Seq<char>
    decreases text.len(),
{
    if text.len() == 0 {
        text
    } else if text.last() == old_char {
        replace_char(text.drop_last(), old_char, by) + by
    } else {
        replace_char(text.drop_last(), old_char, by).push(text.last())
    }
}

pub fn replaced(text: &str, old_char: char, by: &str) -> (result: String)
    ensures
        result@ == replace_char(text@, old_char, by@),
{
    let chars = to_chars(text);
    let mut result = String::new();
    let mut i: usize = 0;
    assert(chars@.take(0) == Seq::<char>::empty());
    while i < chars.len()
        invariant
            chars@ == text@,
            i <= chars@.len(),
            result@ == replace_char(text@.take(i as int), old_char, by@),
        decreases chars@.len() - i,
    {
        assert(text@.take(i + 1).drop_last() == text@.take(i as int));
        if chars[i] == old_char {
            result.append(by);
        } else {
            result.push(chars[i]);
        }
        i = i + 1;
    }
    assert(text@.take(i as int) == text@);
    result
}

// ---------------------------------------------------------------------------
// Bytes that may be text

/// `String::from_utf8`: the text that the bytes are the UTF-8 of, and none where they are not UTF-8.
#[verifier::external_body]
pub(crate) fn decoded(bytes: &[u8]) -> (text: Option<String>)
    ensures
        text is Some <==> vstd::utf8::valid_utf8(bytes@),
        text matches Some(text) ==> text@ == vstd::utf8::decode_utf8(bytes@),
{
    String::from_utf8(bytes.to_vec()).ok()
}

/// The text of bytes with replacement characters for what is not UTF-8.
pub uninterp spec fn lossy_text(bytes: Seq<u8>) -> Seq<char>;

/// `String::from_utf8_lossy`: the text of bytes with replacement characters for what is not UTF-8.
#[verifier::external_body]
pub(crate) fn decoded_lossily(bytes: &[u8]) -> (text: String)
    ensures
        text@ == lossy_text(bytes@),
{
    String::from_utf8_lossy(bytes).to_string()
}

// ---------------------------------------------------------------------------
// Laws

/// Folding the case of a letter gives the letter at the same place of the other alphabet, and
/// leaves everything else alone.
pub proof fn case_folding_pairs_letters(c: char)
    ensures
        'A' <= c <= 'Z' ==> lower_char(c) as int - 'a' as int == c as int - 'A' as int,
        'a' <= c <= 'z' ==> upper_char(c) as int - 'A' as int == c as int - 'a' as int,
        !('A' <= c <= 'Z') ==> lower_char(c) == c,
        !('a' <= c <= 'z') ==> upper_char(c) == c,
{
}

/// The case of a text is folded character by character.
pub proof fn case_folding_goes_by_character(text: Seq<char>, at: int)
    requires
        0 <= at < text.len(),
    ensures
        lower(text).len() == text.len(),
        upper(text).len() == text.len(),
        'A' <= text[at] <= 'Z' ==> lower(text)[at] as int == text[at] as int + 32,
        !('A' <= text[at] <= 'Z') ==> lower(text)[at] == text[at],
        'a' <= text[at] <= 'z' ==> upper(text)[at] as int == text[at] as int - 32,
        !('a' <= text[at] <= 'z') ==> upper(text)[at] == text[at],
{
}

/// The code points of white space.
pub proof fn white_space_has_these_code_points(c: char)
    ensures
        white_space(c) <==> {
            let point = c as int;
            ||| 9 <= point <= 13
            ||| point == 32
            ||| point == 133
            ||| point == 160
            ||| point == 5760
            ||| 8192 <= point <= 8202
            ||| point == 8232
            ||| point == 8233
            ||| point == 8239
            ||| point == 8287
            ||| point == 12288
        },
{
}


/// Trimming takes off the white space on both sides, all of it and nothing else: what stands
/// between is what is left.
pub proof fn trimming_leaves_what_stands_between(
    left: Seq<char>,
    middle: Seq<char>,
    right: Seq<char>,
)
    requires
        forall|i: int| 0 <= i < left.len() ==> white_space(#[trigger] left[i]),
        forall|i: int| 0 <= i < right.len() ==> white_space(#[trigger] right[i]),
        middle.len() > 0 ==> !white_space(middle[0]) && !white_space(middle.last()),
    ensures
        trim(left + middle + right) == middle,
        middle.len() > 0 ==> trim_start(left + middle + right) == middle + right,
{
    assert(left + middle + right == left + (middle + right));
    lemma_start_is_dropped(left, middle + right);
    if middle.len() > 0 {
        assert((middle + right)[0] == middle[0]);
        lemma_end_is_dropped(middle, right);
    } else {
        assert(middle + right == right);
        lemma_start_is_dropped(right, middle);
        assert(right + middle == right);
    }
}

proof fn lemma_start_is_dropped(left: Seq<char>, rest: Seq<char>)
    requires
        forall|i: int| 0 <= i < left.len() ==> white_space(#[trigger] left[i]),
    ensures
        trim_start(left + rest) == trim_start(rest),
    decreases left.len(),
{
    if left.len() == 0 {
        assert(left + rest == rest);
    } else {
        assert((left + rest)[0] == left[0]);
        assert((left + rest).skip(1) == left.skip(1) + rest);
        lemma_start_is_dropped(left.skip(1), rest);
    }
}

proof fn lemma_end_is_dropped(rest: Seq<char>, right: Seq<char>)
    requires
        forall|i: int| 0 <= i < right.len() ==> white_space(#[trigger] right[i]),
    ensures
        trim_end(rest + right) == trim_end(rest),
    decreases right.len(),
{
    if right.len() == 0 {
        assert(rest + right == rest);
    } else {
        assert((rest + right).last() == right[right.len() - 1]);
        assert((rest + right).drop_last() == rest + right.drop_last());
        lemma_end_is_dropped(rest, right.drop_last());
    }
}

/// Replacing goes character by character: the parts of a text are replaced by themselves, and of
/// single characters only the given one changes.
pub proof fn replacing_goes_by_character(
    left: Seq<char>,
    right: Seq<char>,
    old_char: char,
    by: Seq<char>,
    other: char,
)
    ensures
        replace_char(left + right, old_char, by) == replace_char(left, old_char, by) + replace_char(
            right,
            old_char,
            by,
        ),
        replace_char(seq![old_char], old_char, by) == by,
        other != old_char ==> replace_char(seq![other], old_char, by) == seq![other],
        replace_char(Seq::empty(), old_char, by) == Seq::<char>::empty(),
    decreases right.len(),
{
    reveal_with_fuel(replace_char, 2);
    assert(seq![old_char].drop_last() == Seq::<char>::empty());
    assert(seq![other].drop_last() == Seq::<char>::empty());
    let front = replace_char(left, old_char, by);
    if right.len() == 0 {
        assert(left + right == left);
        assert(front + replace_char(right, old_char, by) == front);
    } else {
        let shorter = right.drop_last();
        replacing_goes_by_character(left, shorter, old_char, by, other);
        assert((left + right).drop_last() == left + shorter);
        let middle = replace_char(shorter, old_char, by);
        assert((front + middle) + by == front + (middle + by));
        assert((front + middle).push(right.last()) == front + middle.push(right.last()));
    }
}

/// A text without the replaced character stays as it is.
pub proof fn replacing_leaves_the_rest_alone(text: Seq<char>, old_char: char, by: Seq<char>)
    requires
        !text.contains(old_char),
    ensures
        replace_char(text, old_char, by) == text,
    decreases text.len(),
{
    if text.len() > 0 {
        let before = text.drop_last();
        assert(text[text.len() - 1] == text.last());
        if before.contains(old_char) {
            let i = choose|i: int| 0 <= i < before.len() && before[i] == old_char;
            assert(text[i] == old_char);
        }
        replacing_leaves_the_rest_alone(before, old_char, by);
        assert(before.push(text.last()) == text);
    }
}

/// What a prefix or a suffix was put to is what is left when it is taken off, and nothing is taken
/// off where it does not stand.
pub proof fn stripping_undoes_joining(text: Seq<char>, rest: Seq<char>, other: Seq<char>)
    ensures
        strip_prefix(text + rest, text) == Some(rest),
        strip_suffix(rest + text, text) == Some(rest),
        strip_prefix(other, text) matches Some(left) ==> text + left == other,
        strip_suffix(other, text) matches Some(left) ==> left + text == other,
{
    assert((text + rest).subrange(0, text.len() as int) == text);
    assert((text + rest).skip(text.len() as int) == rest);
    let joined = rest + text;
    assert(joined.subrange(rest.len() as int, joined.len() as int) == text);
    assert(joined.take(joined.len() - text.len()) == rest);
    if text.is_prefix_of(other) {
        assert(text + other.skip(text.len() as int) == other);
    }
    if text.is_suffix_of(other) {
        assert(other.take(other.len() - text.len()) + text == other);
    }
}

/// A text occurs in another exactly where that is made of something in front of it, the text, and
/// something behind it.
pub proof fn occurring_is_standing_between(
    front: Seq<char>,
    needle: Seq<char>,
    back: Seq<char>,
    text: Seq<char>,
)
    ensures
        occurs_in(front + needle + back, needle),
        occurs_in(text, needle) ==> exists|left: Seq<char>, right: Seq<char>|
            text == #[trigger] (left + needle + right),
{
    let whole = front + needle + back;
    assert(whole.subrange(front.len() as int, front.len() as int + needle.len()) == needle);
    assert(occurs_at(whole, needle, front.len() as int));
    if occurs_in(text, needle) {
        let at = choose|at: int| occurs_at(text, needle, at);
        let left = text.take(at);
        let right = text.skip(at + needle.len());
        assert(text == left + needle + right);
    }
}

/// The occurrences of a character add up over the parts of a text.
pub proof fn occurrences_add_up(left: Seq<char>, right: Seq<char>, wanted: char, other: char)
    ensures
        occurrences(left + right, wanted) == occurrences(left, wanted) + occurrences(right, wanted),
        occurrences(seq![wanted], wanted) == 1,
        other != wanted ==> occurrences(seq![other], wanted) == 0,
        occurrences(Seq::empty(), wanted) == 0,
    decreases right.len(),
{
    reveal_with_fuel(occurrences, 2);
    if right.len() == 0 {
        assert(left + right == left);
    } else {
        occurrences_add_up(left, right.drop_last(), wanted, other);
        assert((left + right).drop_last() == left + right.drop_last());
    }
}

/// Behind what two texts have in common the first different character decides their order, and a
/// text stands before everything that continues it.
pub proof fn the_first_difference_orders(
    common: Seq<char>,
    first: char,
    second: char,
    left: Seq<char>,
    right: Seq<char>,
)
    ensures
        first != second ==> (before(common + seq![first] + left, common + seq![second] + right)
            <==> first < second),
        before(common, common + seq![first] + left),
        !before(common + seq![first] + left, common),
    decreases common.len(),
{
    let a = common + seq![first] + left;
    let b = common + seq![second] + right;
    if common.len() == 0 {
        assert(a[0] == first && b[0] == second);
    } else {
        let rest = common.skip(1);
        assert(a[0] == common[0] && b[0] == common[0]);
        assert(a.skip(1) == rest + seq![first] + left);
        assert(b.skip(1) == rest + seq![second] + right);
        the_first_difference_orders(rest, first, second, left, right);
    }
}

/// The views of strings are what the strings hold, one for each.
pub proof fn views_hold_each_text(
    texts: Seq<String>,
    optional: Option<String>,
    borrowed: Option<&str>,
    outcome: Result<String, String>,
    check: Result<(), String>,
    at: int,
)
    requires
        0 <= at < texts.len(),
    ensures
        borrowed is Some <==> str_view_of(borrowed) is Some,
        borrowed is Some ==> str_view_of(borrowed)->0 == borrowed->0@,
        outcome is Ok ==> outcome_view(outcome) == Ok::<Seq<char>, Seq<char>>(outcome->Ok_0@),
        outcome is Err ==> outcome_view(outcome) == Err::<Seq<char>, Seq<char>>(outcome->Err_0@),
        check is Ok ==> check_view(check) is Ok,
        check is Err ==> check_view(check) == Err::<(), Seq<char>>(check->Err_0@),
        views(texts).len() == texts.len(),
        views(texts)[at] == texts[at]@,
        optional is Some <==> view_of(optional) is Some,
        optional is Some ==> view_of(optional)->0 == optional->0@,
{
}

} // verus!
