//! JSON text: string literals, and documents as a tree of what the application reads.

use vstd::prelude::*;

use crate::{numbers, text};

verus! {

// ---------------------------------------------------------------------------
// String literals

/// How a character stands in a JSON string: quotes, backslashes and control characters are
/// escaped, everything else stands for itself.
pub open spec fn escaped_char(c: char) -> Seq<char> {
    if c == '"' || c == '\\' {
        seq!['\\', c]
    } else if c == '\u{8}' {
        seq!['\\', 'b']
    } else if c == '\t' {
        seq!['\\', 't']
    } else if c == '\n' {
        seq!['\\', 'n']
    } else if c == '\u{c}' {
        seq!['\\', 'f']
    } else if c == '\r' {
        seq!['\\', 'r']
    } else if c <= '\u{1f}' {
        seq![
            '\\',
            'u',
            '0',
            '0',
            numbers::digit_char((c as nat / 16) as nat, 'a'),
            numbers::digit_char((c as nat % 16) as nat, 'a'),
        ]
    } else {
        seq![c]
    }
}

pub open spec fn escaped(text: Seq<char>) -> Seq<char>
    decreases text.len(),
{
    if text.len() == 0 {
        Seq::empty()
    } else {
        escaped_char(text[0]) + escaped(text.skip(1))
    }
}

/// `text` as a JSON string, quotes included.
pub open spec fn json_literal(text: Seq<char>) -> Seq<char> {
    seq!['"'] + escaped(text) + seq!['"']
}

/// `serde_json::to_string` on a string: it never fails, and gives the JSON string literal of
/// the text. Quotes and backslashes are escaped by a backslash, the control characters with a
/// short form by that form, the other control characters as `\u00` and two small hexadecimal
/// digits; nothing else is escaped.
#[verifier::external_body]
fn serialized_string(text: &str) -> (outcome: Result<String, String>)
    ensures
        outcome is Ok,
        outcome->Ok_0@ == json_literal(text@),
{
    serde_json::to_string(text).map_err(|error| error.to_string())
}

pub fn to_json_literal(text: &str) -> (literal: String)
    ensures
        literal@ == json_literal(text@),
{
    match serialized_string(text) {
        Ok(literal) => literal,
        Err(_) => String::new(),
    }
}

/// The value of a hexadecimal digit.
pub open spec fn hex_digit_value(c: char) -> Option<nat> {
    if '0' <= c <= '9' {
        Some((c as nat - '0' as nat) as nat)
    } else if 'a' <= c <= 'f' {
        Some((c as nat - 'a' as nat + 10) as nat)
    } else if 'A' <= c <= 'F' {
        Some((c as nat - 'A' as nat + 10) as nat)
    } else {
        None
    }
}

/// The character that a JSON string goes on with, and how much text stands for it.
#[verifier::opaque]
pub open spec fn next_char(text: Seq<char>) -> Option<(char, int)> {
    if text.len() == 0 || text[0] == '"' {
        None
    } else if text[0] != '\\' {
        Some((text[0], 1))
    } else if text.len() < 2 {
        None
    } else if text[1] == '"' || text[1] == '\\' || text[1] == '/' {
        Some((text[1], 2))
    } else if text[1] == 'b' {
        Some(('\u{8}', 2))
    } else if text[1] == 't' {
        Some(('\t', 2))
    } else if text[1] == 'n' {
        Some(('\n', 2))
    } else if text[1] == 'f' {
        Some(('\u{c}', 2))
    } else if text[1] == 'r' {
        Some(('\r', 2))
    } else if text[1] == 'u' && text.len() >= 6 {
        match (
            hex_digit_value(text[2]),
            hex_digit_value(text[3]),
            hex_digit_value(text[4]),
            hex_digit_value(text[5]),
        ) {
            (Some(a), Some(b), Some(c), Some(d)) => Some(
                ((a * 4096 + b * 256 + c * 16 + d) as char, 6),
            ),
            _ => None,
        }
    } else {
        None
    }
}

/// What a reader of a JSON string takes, once it is past the opening quote: the value up to the
/// closing quote, and the text that is left.
pub open spec fn read_literal(text: Seq<char>) -> Option<(Seq<char>, Seq<char>)>
    decreases text.len(),
{
    if text.len() > 0 && text[0] == '"' {
        Some((Seq::empty(), text.skip(1)))
    } else {
        match next_char(text) {
            Some((c, length)) if 0 < length <= text.len() => match read_literal(text.skip(length)) {
                Some((value, rest)) => Some((seq![c] + value, rest)),
                None => None,
            },
            _ => None,
        }
    }
}

proof fn lemma_next_char(first: char, after: Seq<char>)
    ensures
        next_char(escaped_char(first) + after) == Some((first, escaped_char(first).len() as int)),
        escaped_char(first).len() > 0,
        escaped_char(first)[0] != '"',
{
    reveal(next_char);
    let head = escaped_char(first);
    let body = head + after;
    assert(body[0] == head[0]);
    if head.len() == 2 {
        assert(body[1] == head[1]);
    }
    if head.len() == 6 {
        let high = (first as nat / 16) as nat;
        let low = (first as nat % 16) as nat;
        assert(body.subrange(0, 6) == head);
        assert(body[1] == 'u' && body[2] == '0' && body[3] == '0');
        assert(body[4] == numbers::digit_char(high, 'a'));
        assert(body[5] == numbers::digit_char(low, 'a'));
        assert(hex_digit_value(body[4]) == Some(high));
        assert(hex_digit_value(body[5]) == Some(low));
        assert(hex_digit_value('0') == Some(0nat));
        assert((0nat * 4096 + 0nat * 256 + high * 16 + low) as char == first);
    }
}

/// The JSON literal of a text reads back as exactly that text, and a reader stops exactly
/// behind it.
pub proof fn json_literal_reads_back(value: Seq<char>, rest: Seq<char>)
    ensures
        (json_literal(value) + rest)[0] == '"',
        read_literal((json_literal(value) + rest).skip(1)) == Some((value, rest)),
    decreases value.len(),
{
    let body = (json_literal(value) + rest).skip(1);
    assert(body == escaped(value) + seq!['"'] + rest);
    if value.len() == 0 {
        assert(body == seq!['"'] + rest);
        assert(body.skip(1) == rest);
        assert(value == Seq::<char>::empty());
    } else {
        let first = value[0];
        let others = value.skip(1);
        json_literal_reads_back(others, rest);
        let after = escaped(others) + seq!['"'] + rest;
        assert((json_literal(others) + rest).skip(1) == after);
        let head = escaped_char(first);
        assert(body == head + after);
        lemma_next_char(first, after);
        assert(body.skip(head.len() as int) == after);
        assert(seq![first] + others == value);
    }
}

// ---------------------------------------------------------------------------
// Documents

/// A document as the application reads it: strings, lists and objects. What it holds beside
/// these is never looked at.
pub enum Tree {
    Other,
    Text(Seq<char>),
    List(Seq<Tree>),
    Object(Seq<(Seq<char>, Tree)>),
}

/// A JSON document as the application reads it.
#[derive(Debug)]
pub enum Json {
    Other,
    Text(String),
    List(Vec<Json>),
    Object(Vec<(String, Json)>),
}

impl Json {
    pub open spec fn tree(self) -> Tree
        decreases self,
    {
        match self {
            Json::Other => Tree::Other,
            Json::Text(text) => Tree::Text(text@),
            Json::List(items) => Tree::List(
                Seq::new(
                    items@.len(),
                    |i: int|
                        if 0 <= i < items@.len() {
                            items@[i].tree()
                        } else {
                            Tree::Other
                        },
                ),
            ),
            Json::Object(fields) => Tree::Object(
                Seq::new(
                    fields@.len(),
                    |i: int|
                        if 0 <= i < fields@.len() {
                            (fields@[i].0@, fields@[i].1.tree())
                        } else {
                            (Seq::empty(), Tree::Other)
                        },
                ),
            ),
        }
    }
}

/// A `serde_json` document.
#[verifier::external_type_specification]
#[verifier::external_body]
pub struct ExValue(serde_json::Value);

/// What a `serde_json` document holds.
pub uninterp spec fn value_tree(value: serde_json::Value) -> Tree;

/// The document that a text stands for, where it is JSON.
pub uninterp spec fn document_of(text: Seq<char>) -> Option<Tree>;

/// The outermost level of a `serde_json` document.
enum Level {
    Other,
    Text(String),
    List(Vec<serde_json::Value>),
    Object(Vec<(String, serde_json::Value)>),
}

spec fn level_tree(level: Level) -> Tree {
    match level {
        Level::Other => Tree::Other,
        Level::Text(text) => Tree::Text(text@),
        Level::List(items) => Tree::List(
            items@.map_values(|item: serde_json::Value| value_tree(item)),
        ),
        Level::Object(fields) => Tree::Object(
            fields@.map_values(|field: (String, serde_json::Value)| (field.0@, value_tree(field.1))),
        ),
    }
}

/// `serde_json::from_str` into a document. Whether a text is JSON, and what document it stands
/// for, depends on the text alone.
#[verifier::external_body]
fn parse_value(text: &str) -> (value: Option<serde_json::Value>)
    ensures
        match value {
            Some(value) => document_of(text@) == Some(value_tree(value)),
            None => document_of(text@) is None,
        },
{
    serde_json::from_str(text).ok()
}

/// The variants of `serde_json::Value`: a string, an array or an object hands over what it
/// holds, in its order.
#[verifier::external_body]
fn open_value(value: serde_json::Value) -> (level: Level)
    ensures
        level_tree(level) == value_tree(value),
{
    match value {
        serde_json::Value::Null => Level::Other,
        serde_json::Value::Bool(_) => Level::Other,
        serde_json::Value::Number(_) => Level::Other,
        serde_json::Value::String(text) => Level::Text(text),
        serde_json::Value::Array(items) => Level::List(items),
        serde_json::Value::Object(fields) => Level::Object(fields.into_iter().collect()),
    }
}

fn value_document(value: serde_json::Value) -> (document: Json)
    ensures
        document.tree() == value_tree(value),
    decreases value_tree(value),
{
    let ghost whole = value_tree(value);
    match open_value(value) {
        Level::Other => Json::Other,
        Level::Text(text) => Json::Text(text),
        Level::List(items) => {
            let ghost values = items@;
            let ghost trees = whole->List_0;
            let mut read: Vec<Json> = Vec::new();
            for item in iter: items.into_iter()
                invariant
                    iter.seq() == values,
                    whole == value_tree(value),
                    whole == Tree::List(trees),
                    trees == values.map_values(|item: serde_json::Value| value_tree(item)),
                    read@.len() == iter.index(),
                    forall|i: int| 0 <= i < read@.len() ==> (#[trigger] read@[i]).tree() == trees[i],
            {
                assert(value_tree(item) == trees[iter.index() as int]);
                assert(decreases_to!(whole => whole->List_0));
                assert(decreases_to!(trees => trees[iter.index() as int]));
                let document = value_document(item);
                read.push(document);
            }
            let document = Json::List(read);
            assert(document.tree()->List_0 == trees);
            document
        },
        Level::Object(fields) => {
            let ghost values = fields@;
            let ghost trees = whole->Object_0;
            let mut read: Vec<(String, Json)> = Vec::new();
            for field in iter: fields.into_iter()
                invariant
                    iter.seq() == values,
                    whole == value_tree(value),
                    whole == Tree::Object(trees),
                    trees == values.map_values(
                        |field: (String, serde_json::Value)| (field.0@, value_tree(field.1)),
                    ),
                    read@.len() == iter.index(),
                    forall|i: int|
                        0 <= i < read@.len() ==> ((#[trigger] read@[i]).0@, read@[i].1.tree())
                            == trees[i],
            {
                let (name, item) = field;
                assert((name@, value_tree(item)) == trees[iter.index() as int]);
                assert(decreases_to!(whole => whole->Object_0));
                assert(decreases_to!(trees => trees[iter.index() as int]));
                assert(decreases_to!(trees[iter.index() as int] => trees[iter.index() as int].1));
                let document = value_document(item);
                read.push((name, document));
            }
            let document = Json::Object(read);
            assert(document.tree()->Object_0 == trees);
            document
        },
    }
}

/// The document of a parsed text, if it was JSON.
pub open spec fn document_tree(document: Option<Json>) -> Option<Tree> {
    match document {
        Some(document) => Some(document.tree()),
        None => None,
    }
}

/// Reads `text` as JSON.
pub fn parse_json(text: &str) -> (document: Option<Json>)
    ensures
        document_tree(document) == document_of(text@),
{
    match parse_value(text) {
        Some(value) => Some(value_document(value)),
        None => None,
    }
}

/// The field of an object with the given name.
pub open spec fn field(fields: Seq<(Seq<char>, Tree)>, name: Seq<char>) -> Option<Tree>
    decreases fields.len(),
{
    if fields.len() == 0 {
        None
    } else if fields[0].0 == name {
        Some(fields[0].1)
    } else {
        field(fields.skip(1), name)
    }
}

/// The field of a document with the given name: only objects have fields.
pub open spec fn member(document: Tree, name: Seq<char>) -> Option<Tree> {
    match document {
        Tree::Object(fields) => field(fields, name),
        _ => None,
    }
}

/// The text of a string, and nothing else.
pub open spec fn string_value(document: Option<Tree>) -> Option<Seq<char>> {
    match document {
        Some(Tree::Text(text)) => Some(text),
        _ => None,
    }
}

impl Json {
    pub fn member(&self, name: &str) -> (found: Option<&Json>)
        ensures
            match found {
                Some(found) => member(self.tree(), name@) == Some(found.tree()),
                None => member(self.tree(), name@) is None,
            },
    {
        match self {
            Json::Object(fields) => {
                let ghost trees = self.tree()->Object_0;
                let mut i: usize = 0;
                assert(trees.skip(0) == trees);
                while i < fields.len()
                    invariant
                        i <= fields@.len(),
                        *self == Json::Object(*fields),
                        trees == self.tree()->Object_0,
                        field(trees, name@) == field(trees.skip(i as int), name@),
                    decreases fields@.len() - i,
                {
                    assert(trees.skip(i as int)[0] == trees[i as int]);
                    assert(trees.skip(i as int).skip(1) == trees.skip(i + 1));
                    if text::same_text(fields[i].0.as_str(), name) {
                        return Some(&fields[i].1);
                    }
                    i = i + 1;
                }
                None
            },
            _ => None,
        }
    }

    pub fn as_text(&self) -> (found: Option<&String>)
        ensures
            match found {
                Some(found) => string_value(Some(self.tree())) == Some(found@),
                None => string_value(Some(self.tree())) is None,
            },
    {
        match self {
            Json::Text(text) => Some(text),
            _ => None,
        }
    }

    pub fn as_list(&self) -> (found: Option<&Vec<Json>>)
        ensures
            match found {
                Some(found) => *self == Json::List(*found),
                None => !(self.tree() is List),
            },
    {
        match self {
            Json::List(items) => Some(items),
            _ => None,
        }
    }
}

// ---------------------------------------------------------------------------
// Laws

/// An object gives the first field with a name, whatever other fields it has; nothing else has
/// fields, and only texts have a text.
pub proof fn objects_give_their_fields(
    before: Seq<(Seq<char>, Tree)>,
    name: Seq<char>,
    value: Tree,
    after: Seq<(Seq<char>, Tree)>,
    items: Seq<Tree>,
    text: Seq<char>,
)
    requires
        forall|i: int| 0 <= i < before.len() ==> (#[trigger] before[i]).0 != name,
    ensures
        member(Tree::Object(before + seq![(name, value)] + after), name) == Some(value),
        member(Tree::Object(before), name) is None,
        member(Tree::List(items), name) is None,
        member(Tree::Text(text), name) is None,
        member(Tree::Other, name) is None,
        string_value(Some(Tree::Text(text))) == Some(text),
        string_value(Some(Tree::List(items))) is None,
        string_value(Some(Tree::Object(before))) is None,
        string_value(Some(Tree::Other)) is None,
        string_value(None) is None,
    decreases before.len(),
{
    let all = before + seq![(name, value)] + after;
    if before.len() == 0 {
        assert(all[0] == (name, value));
    } else {
        let rest = before.skip(1);
        assert(all[0] == before[0]);
        assert(all.skip(1) == rest + seq![(name, value)] + after);
        assert forall|i: int| 0 <= i < rest.len() implies (#[trigger] rest[i]).0 != name by {
            assert(rest[i] == before[i + 1]);
        }
        objects_give_their_fields(rest, name, value, after, items, text);
    }
}

/// The tree of a document shows what it holds, item by item and field by field.
pub proof fn trees_show_their_documents(
    text: String,
    items: Vec<Json>,
    fields: Vec<(String, Json)>,
    at: int,
)
    ensures
        Json::Other.tree() is Other,
        Json::Text(text).tree() == Tree::Text(text@),
        Json::List(items).tree() is List,
        Json::List(items).tree()->List_0.len() == items@.len(),
        0 <= at < items@.len() ==> Json::List(items).tree()->List_0[at] == items@[at].tree(),
        Json::Object(fields).tree() is Object,
        Json::Object(fields).tree()->Object_0.len() == fields@.len(),
        0 <= at < fields@.len() ==> Json::Object(fields).tree()->Object_0[at] == (
            fields@[at].0@,
            fields@[at].1.tree(),
        ),
{
}

} // verus!
