//! Remote addresses: which may be fetched, and how an address is resolved to a tile address.

use vstd::prelude::*;

use crate::json::Json;
use crate::{json, text};

verus! {

/// How long a remote tile may take, in seconds.
pub const REMOTE_TILE_TIMEOUT_SECS: u64 = 8;

/// How long connecting to a remote host may take, in seconds.
pub const REMOTE_TILE_CONNECT_TIMEOUT_SECS: u64 = 4;

/// How long resolving an address may take, in seconds.
pub const URL_RESOLVE_TIMEOUT_SECS: u64 = 15;

/// What the application calls itself in requests.
pub const USER_AGENT: &'static str = "GeoLibre Desktop";

/// What an address is asked for when it is resolved.
pub const RESOLVE_ACCEPT: &'static str = "application/json, text/plain;q=0.9, */*;q=0.8";

// ---------------------------------------------------------------------------
// Addresses

/// An address with the HTTP or HTTPS scheme.
pub open spec fn http_form(url: Seq<char>) -> bool {
    "https://"@.is_prefix_of(url) || "http://"@.is_prefix_of(url)
}

fn has_http_form(url: &str) -> (answer: bool)
    ensures
        answer == http_form(url@),
{
    text::has_prefix(url, "https://") || text::has_prefix(url, "http://")
}

/// `url` if it is an HTTP or HTTPS address.
pub open spec fn http_only(url: Seq<char>) -> Option<Seq<char>> {
    if http_form(url) {
        Some(url)
    } else {
        None
    }
}

/// `url` if it is an HTTP or HTTPS address.
pub fn http_url(url: &str) -> (address: Option<String>)
    ensures
        text::view_of(address) == http_only(url@),
{
    if has_http_form(url) {
        Some(url.to_owned())
    } else {
        None
    }
}

/// A tile address with a place for the zoom level, the column and the row, in plain or in
/// percent-encoded braces of any case.
pub open spec fn xyz_placeholders(url: Seq<char>) -> bool {
    let url = text::lower(url);
    &&& text::occurs_in(url, "{z}"@) || text::occurs_in(url, "%7bz%7d"@)
    &&& text::occurs_in(url, "{x}"@) || text::occurs_in(url, "%7bx%7d"@)
    &&& text::occurs_in(url, "{y}"@) || text::occurs_in(url, "%7by%7d"@)
}

/// Whether `url` has a place for the zoom level, the column and the row of a tile.
pub fn has_xyz_placeholders(url: &str) -> (answer: bool)
    ensures
        answer == xyz_placeholders(url@),
{
    let folded = text::to_lower(url);
    let url = folded.as_str();
    (text::has_text(url, "{z}") || text::has_text(url, "%7bz%7d")) && (text::has_text(url, "{x}")
        || text::has_text(url, "%7bx%7d")) && (text::has_text(url, "{y}") || text::has_text(
        url,
        "%7by%7d",
    ))
}

/// The case of an address's letters does not decide whether it has places for a tile.
pub proof fn placeholders_ignore_case(left: Seq<char>, right: Seq<char>)
    requires
        text::lower(left) == text::lower(right),
    ensures
        xyz_placeholders(left) == xyz_placeholders(right),
{
}

// ---------------------------------------------------------------------------
// The answer of a server

/// A status code that reports success.
pub open spec fn success_code(code: u16) -> bool {
    200 <= code < 300
}

pub fn is_success_code(code: u16) -> (answer: bool)
    ensures
        answer == success_code(code),
{
    200 <= code && code < 300
}

/// The outcome of a request with the given status, where `failure` says what has failed.
pub open spec fn status_outcome(code: u16, status: Seq<char>, failure: Seq<char>) -> Result<
    (),
    Seq<char>,
> {
    if success_code(code) {
        Ok(())
    } else {
        Err(failure + " with status "@ + status)
    }
}

/// Fails for every status but those that report success. `status` is the code with its name.
pub fn check_status(code: u16, status: &str, failure: &str) -> (outcome: Result<(), String>)
    ensures
        text::check_view(outcome) == status_outcome(code, status@, failure@),
{
    if is_success_code(code) {
        Ok(())
    } else {
        let mut message = text::chained(failure, " with status ");
        message.append(status);
        Err(message)
    }
}

/// Refuses to fetch what is not an HTTP or HTTPS address.
pub fn check_fetched_url(url: &str) -> (outcome: Result<(), String>)
    ensures
        text::check_view(outcome) == if http_form(url@) {
            Ok::<(), Seq<char>>(())
        } else {
            Err("Only HTTP and HTTPS URLs can be fetched"@)
        },
{
    if has_http_form(url) {
        Ok(())
    } else {
        Err("Only HTTP and HTTPS URLs can be fetched".to_owned())
    }
}

// ---------------------------------------------------------------------------
// Resolving an address from a body

/// The text of a field, if it is an HTTP or HTTPS address.
pub open spec fn http_field(document: json::Tree, name: Seq<char>) -> Option<Seq<char>> {
    match json::string_value(json::member(document, name)) {
        Some(url) => http_only(url),
        None => None,
    }
}

/// The first item of the list of tile addresses, if it is an HTTP or HTTPS address.
pub open spec fn first_tile(document: json::Tree) -> Option<Seq<char>> {
    match json::member(document, "tiles"@) {
        Some(json::Tree::List(tiles)) => if tiles.len() > 0 {
            match json::string_value(Some(tiles[0])) {
                Some(url) => http_only(url),
                None => None,
            }
        } else {
            None
        },
        _ => None,
    }
}

/// The address that a document names: the document itself where it is a text, else the first
/// of the known fields that holds an HTTP or HTTPS address.
pub open spec fn named_url(document: json::Tree) -> Option<Seq<char>> {
    match document {
        json::Tree::Text(url) => http_only(url),
        json::Tree::Object(_) => if http_field(document, "url"@) is Some {
            http_field(document, "url"@)
        } else if http_field(document, "tileUrl"@) is Some {
            http_field(document, "tileUrl"@)
        } else if http_field(document, "tile_url"@) is Some {
            http_field(document, "tile_url"@)
        } else {
            first_tile(document)
        },
        _ => None,
    }
}

fn http_text(document: Option<&Json>) -> (url: Option<String>)
    ensures
        text::view_of(url) == match document {
            Some(document) => match json::string_value(Some(document.tree())) {
                Some(url) => http_only(url),
                None => None,
            },
            None => None,
        },
{
    match document {
        Some(document) => match document.as_text() {
            Some(url) => http_url(url.as_str()),
            None => None,
        },
        None => None,
    }
}

/// The address that a document names.
pub fn resolved_url_from_json(document: &Json) -> (url: Option<String>)
    ensures
        text::view_of(url) == named_url(document.tree()),
{
    match document {
        Json::Text(url) => http_url(url.as_str()),
        Json::Object(_) => {
            let url = http_text(document.member("url"));
            if url.is_some() {
                return url;
            }
            let url = http_text(document.member("tileUrl"));
            if url.is_some() {
                return url;
            }
            let url = http_text(document.member("tile_url"));
            if url.is_some() {
                return url;
            }
            match document.member("tiles") {
                Some(tiles) => match tiles.as_list() {
                    Some(tiles) => {
                        if tiles.len() > 0 {
                            http_text(Some(&tiles[0]))
                        } else {
                            None
                        }
                    },
                    None => None,
                },
                None => None,
            }
        },
        _ => None,
    }
}

/// The address that a body names: the body itself where it is an address, else the one in the
/// document that it holds.
pub open spec fn body_url(body: Seq<char>, document: Option<json::Tree>) -> Option<Seq<char>> {
    if http_form(body) {
        Some(body)
    } else {
        match document {
            Some(document) => named_url(document),
            None => None,
        }
    }
}

/// The address that a response body names. White space around the body does not count.
pub fn resolved_url_from_body(body: &str) -> (url: Option<String>)
    ensures
        text::view_of(url) == body_url(text::trim(body@), json::document_of(text::trim(body@))),
{
    let body = text::trimmed(body);
    if has_http_form(body.as_str()) {
        return Some(body);
    }
    match json::parse_json(body.as_str()) {
        Some(document) => resolved_url_from_json(&document),
        None => None,
    }
}

/// What a body names is always an HTTP or HTTPS address.
pub proof fn body_urls_are_http(body: Seq<char>, document: Option<json::Tree>)
    ensures
        body_url(body, document) matches Some(url) ==> http_form(url),
        http_form(body) ==> body_url(body, document) == Some(body),
{
}

// ---------------------------------------------------------------------------
// Resolving an address step by step

/// What to do next to resolve an address.
#[derive(Debug)]
pub enum ResolveStep {
    /// Ask for the address itself.
    Get,
    /// Read the body of the response.
    ReadBody,
    /// The address is resolved.
    Resolved(String),
    Failed(String),
}

pub enum ResolveModel {
    Get,
    ReadBody,
    Resolved { url: Seq<char> },
    Failed { message: Seq<char> },
}

impl ResolveStep {
    pub open spec fn model(self) -> ResolveModel {
        match self {
            ResolveStep::Get => ResolveModel::Get,
            ResolveStep::ReadBody => ResolveModel::ReadBody,
            ResolveStep::Resolved(url) => ResolveModel::Resolved { url: url@ },
            ResolveStep::Failed(message) => ResolveModel::Failed { message: message@ },
        }
    }
}

/// Refuses to resolve what is not an HTTP or HTTPS address.
pub fn check_resolved_url(url: &str) -> (outcome: Result<(), String>)
    ensures
        text::check_view(outcome) == if http_form(url@) {
            Ok::<(), Seq<char>>(())
        } else {
            Err("Only HTTP and HTTPS URLs can be resolved"@)
        },
{
    if has_http_form(url) {
        Ok(())
    } else {
        Err("Only HTTP and HTTPS URLs can be resolved".to_owned())
    }
}

/// Where asking for the headers alone has led to a tile address, that is the answer; else the
/// address itself is asked for, whatever became of the first request.
pub open spec fn after_head(reached: Option<Seq<char>>) -> ResolveModel {
    match reached {
        Some(url) => if xyz_placeholders(url) {
            ResolveModel::Resolved { url }
        } else {
            ResolveModel::Get
        },
        None => ResolveModel::Get,
    }
}

/// Where asking for the address has led to a tile address, that is the answer; else the body
/// is.
pub open spec fn after_get(reached: Result<Seq<char>, Seq<char>>) -> ResolveModel {
    match reached {
        Ok(url) => if xyz_placeholders(url) {
            ResolveModel::Resolved { url }
        } else {
            ResolveModel::ReadBody
        },
        Err(error) => ResolveModel::Failed { message: "Request failed: "@ + error },
    }
}

/// The outcome of reading the body, where `found` is the address that it names.
pub open spec fn after_body(
    body: Result<Seq<char>, Seq<char>>,
    found: Option<Seq<char>>,
) -> ResolveModel {
    match body {
        Ok(_) => match found {
            Some(url) => ResolveModel::Resolved { url },
            None => ResolveModel::Failed { message: "Could not resolve URL"@ },
        },
        Err(error) => ResolveModel::Failed { message: "Could not read response body: "@ + error },
    }
}

/// Goes on once the headers were asked for: `reached` is the address that the request ended at,
/// if it was answered.
pub fn head_answered(reached: Option<String>) -> (step: ResolveStep)
    ensures
        step.model() == after_head(text::view_of(reached)),
{
    match reached {
        Some(url) => {
            if has_xyz_placeholders(url.as_str()) {
                ResolveStep::Resolved(url)
            } else {
                ResolveStep::Get
            }
        },
        None => ResolveStep::Get,
    }
}

/// Goes on once the address was asked for: `reached` is the address that the request ended at,
/// or what went wrong.
pub fn get_answered(reached: Result<String, String>) -> (step: ResolveStep)
    ensures
        step.model() == after_get(text::outcome_view(reached)),
{
    match reached {
        Ok(url) => {
            if has_xyz_placeholders(url.as_str()) {
                ResolveStep::Resolved(url)
            } else {
                ResolveStep::ReadBody
            }
        },
        Err(error) => ResolveStep::Failed(text::chained("Request failed: ", error.as_str())),
    }
}

/// The address that a body names, if the body could be read.
pub open spec fn read_url(body: Result<Seq<char>, Seq<char>>) -> Option<Seq<char>> {
    match body {
        Ok(body) => body_url(text::trim(body), json::document_of(text::trim(body))),
        Err(_) => None,
    }
}

/// Ends once the body was read.
pub fn body_read(body: Result<String, String>) -> (step: ResolveStep)
    ensures
        step.model() == after_body(text::outcome_view(body), read_url(text::outcome_view(body))),
{
    match body {
        Ok(body) => match resolved_url_from_body(body.as_str()) {
            Some(url) => ResolveStep::Resolved(url),
            None => ResolveStep::Failed("Could not resolve URL".to_owned()),
        },
        Err(error) => ResolveStep::Failed(
            text::chained("Could not read response body: ", error.as_str()),
        ),
    }
}

/// Resolving ends with a tile address that a request has led to, with an HTTP or HTTPS address
/// that the body names, or with a failure; the last step never asks for another.
pub proof fn resolving_ends_with_an_address(
    head: Option<Seq<char>>,
    get: Result<Seq<char>, Seq<char>>,
    body: Result<Seq<char>, Seq<char>>,
)
    ensures
        after_head(head) matches ResolveModel::Resolved { url } ==> head == Some(url)
            && xyz_placeholders(url),
        after_get(get) matches ResolveModel::Resolved { url } ==> get == Ok::<_, Seq<char>>(url)
            && xyz_placeholders(url),
        after_body(body, read_url(body)) matches ResolveModel::Resolved { url } ==> http_form(url),
        after_head(head) is Resolved || after_head(head) is Get,
        after_get(get) is Resolved || after_get(get) is ReadBody || after_get(get) is Failed,
        after_body(body, read_url(body)) is Resolved || after_body(body, read_url(body)) is Failed,
{
}

// ---------------------------------------------------------------------------
// Laws

/// An address has tile placeholders exactly where it has one for the zoom level, one for the
/// column and one for the row: the letter in braces, or in percent-encoded braces, in any case.
pub proof fn tile_addresses_have_three_placeholders(url: Seq<char>)
    ensures
        xyz_placeholders(url) <==> {
            let folded = text::lower(url);
            &&& text::occurs_in(folded, "{z}"@) || text::occurs_in(folded, "%7bz%7d"@)
            &&& text::occurs_in(folded, "{x}"@) || text::occurs_in(folded, "%7bx%7d"@)
            &&& text::occurs_in(folded, "{y}"@) || text::occurs_in(folded, "%7by%7d"@)
        },
{
}

/// An address is fetched or resolved exactly where it begins with `https://` or `http://`.
pub proof fn only_http_addresses_count(url: Seq<char>)
    ensures
        http_form(url) <==> "https://"@.is_prefix_of(url) || "http://"@.is_prefix_of(url),
        "https://"@.is_prefix_of(url) || "http://"@.is_prefix_of(url) ==> http_only(url) == Some(url),
        !"https://"@.is_prefix_of(url) && !"http://"@.is_prefix_of(url) ==> http_only(url) is None,
{
}

/// What the application calls itself and asks for, and how many seconds it waits.
pub proof fn requests_are_made_in_this_way()
    ensures
        USER_AGENT@ == "GeoLibre Desktop"@,
        RESOLVE_ACCEPT@ == "application/json, text/plain;q=0.9, */*;q=0.8"@,
        REMOTE_TILE_TIMEOUT_SECS == 8,
        REMOTE_TILE_CONNECT_TIMEOUT_SECS == 4,
        URL_RESOLVE_TIMEOUT_SECS == 15,
{
}

/// A status from 200 to 299 is a success, and any other fails with its name.
pub proof fn statuses_of_two_hundred_succeed(code: u16, status: Seq<char>, failure: Seq<char>)
    ensures
        success_code(code) <==> 200 <= code <= 299,
        200 <= code <= 299 ==> status_outcome(code, status, failure) is Ok,
        !(200 <= code <= 299) ==> status_outcome(code, status, failure) == Err::<(), Seq<char>>(
            failure + " with status "@ + status,
        ),
{
}

/// The address in a field of a document, if the field is a text that is an HTTP or HTTPS address.
pub open spec fn address_in(document: json::Tree, name: Seq<char>) -> Option<Seq<char>> {
    match json::member(document, name) {
        Some(json::Tree::Text(url)) => if "https://"@.is_prefix_of(url) || "http://"@.is_prefix_of(
            url,
        ) {
            Some(url)
        } else {
            None
        },
        _ => None,
    }
}

/// The fields of a document that name an address count in this order: `url`, `tileUrl`,
/// `tile_url`, and then the first of `tiles`. A field that is no address is passed over.
pub proof fn documents_name_addresses_in_order(
    fields: Seq<(Seq<char>, json::Tree)>,
    tiles: Seq<json::Tree>,
    first: Seq<char>,
)
    ensures
        ({
            let document = json::Tree::Object(fields);
            let found = named_url(document);
            let none = address_in(document, "url"@) is None && address_in(document, "tileUrl"@)
                is None && address_in(document, "tile_url"@) is None;
            &&& address_in(document, "url"@) is Some ==> found == address_in(document, "url"@)
            &&& address_in(document, "url"@) is None && address_in(document, "tileUrl"@) is Some
                ==> found == address_in(document, "tileUrl"@)
            &&& address_in(document, "url"@) is None && address_in(document, "tileUrl"@) is None
                && address_in(document, "tile_url"@) is Some ==> found == address_in(
                document,
                "tile_url"@,
            )
            &&& none && json::member(document, "tiles"@) == Some(json::Tree::List(tiles)) ==> {
                &&& tiles.len() > 0 && tiles[0] == json::Tree::Text(first) && ("https://"@.is_prefix_of(
                    first,
                ) || "http://"@.is_prefix_of(first)) ==> found == Some(first)
                &&& tiles.len() == 0 ==> found is None
                &&& tiles.len() > 0 && !(tiles[0] is Text) ==> found is None
                &&& tiles.len() > 0 && tiles[0] == json::Tree::Text(first) && !"https://"@.is_prefix_of(
                    first,
                ) && !"http://"@.is_prefix_of(first) ==> found is None
            }
            &&& none && !(json::member(document, "tiles"@) matches Some(json::Tree::List(_)))
                ==> found is None
        }),
        "https://"@.is_prefix_of(first) || "http://"@.is_prefix_of(first) ==> named_url(
            json::Tree::Text(first),
        ) == Some(first),
        !"https://"@.is_prefix_of(first) && !"http://"@.is_prefix_of(first) ==> named_url(
            json::Tree::Text(first),
        ) is None,
        named_url(json::Tree::List(tiles)) is None,
        named_url(json::Tree::Other) is None,
{
}

/// A body that is an address itself names that address, without the white space around it; any
/// other names what its document does.
pub proof fn bodies_name_themselves_or_their_document(body: Seq<char>)
    ensures
        ({
            let inner = text::trim(body);
            let found = read_url(Ok(body));
            if "https://"@.is_prefix_of(inner) || "http://"@.is_prefix_of(inner) {
                found == Some(inner)
            } else if json::document_of(inner) is Some {
                found == named_url(json::document_of(inner)->0)
            } else {
                found is None
            }
        }),
        body_url(text::trim(body), json::document_of(text::trim(body))) == read_url(Ok(body)),
        read_url(Err(body)) is None,
{
}

/// An address that a request has led to is the answer exactly where it has tile placeholders;
/// else the next request is made, and at last the body is read.
pub proof fn redirects_to_tiles_are_the_answer(reached: String, error: String)
    ensures
        ({
            let folded = text::lower(reached@);
            let tiles = (text::occurs_in(folded, "{z}"@) || text::occurs_in(folded, "%7bz%7d"@)) && (
            text::occurs_in(folded, "{x}"@) || text::occurs_in(folded, "%7bx%7d"@)) && (
            text::occurs_in(folded, "{y}"@) || text::occurs_in(folded, "%7by%7d"@));
            &&& after_head(text::view_of(Some(reached))) == if tiles {
                ResolveModel::Resolved { url: reached@ }
            } else {
                ResolveModel::Get
            }
            &&& after_get(text::outcome_view(Ok(reached))) == if tiles {
                ResolveModel::Resolved { url: reached@ }
            } else {
                ResolveModel::ReadBody
            }
        }),
        after_head(text::view_of(None)) is Get,
        after_get(text::outcome_view(Err(error))) == (ResolveModel::Failed {
            message: "Request failed: "@ + error@,
        }),
{
}

/// A body that names an address resolves to it; one that names none, or that could not be read,
/// fails with its own message.
pub proof fn bodies_resolve_or_fail(body: String, error: String)
    ensures
        ({
            let read = text::outcome_view(Ok(body));
            let found = read_url(read);
            &&& found is Some ==> after_body(read, found) == (ResolveModel::Resolved {
                url: found->0,
            })
            &&& found is None ==> after_body(read, found) == (ResolveModel::Failed {
                message: "Could not resolve URL"@,
            })
            &&& found == read_url(Ok(body@))
        }),
        ({
            let failed = text::outcome_view(Err(error));
            after_body(failed, read_url(failed)) == (ResolveModel::Failed {
                message: "Could not read response body: "@ + error@,
            })
        }),
{
}

/// A step shows the address or the message that it ends with.
pub proof fn resolve_steps_show_their_answer(answer: String)
    ensures
        ResolveStep::Get.model() is Get,
        ResolveStep::ReadBody.model() is ReadBody,
        ResolveStep::Resolved(answer).model() == (ResolveModel::Resolved { url: answer@ }),
        ResolveStep::Failed(answer).model() == (ResolveModel::Failed { message: answer@ }),
{
}

/// An address with its braces percent-encoded, as clients of HTTP write it.
pub open spec fn braces_encoded(url: Seq<char>) -> Seq<char> {
    text::replace_char(text::replace_char(url, '{', "%7B"@), '}', "%7D"@)
}

/// Percent-encoding the braces of an address keeps its placeholders. It adds none, unless the
/// braces around a letter were encoded on one side alone: an address has the placeholders of its
/// encoded form exactly where it has each of them in plain, encoded or half encoded braces.
pub proof fn encoding_braces_keeps_placeholders(url: Seq<char>)
    ensures
        xyz_placeholders(url) ==> xyz_placeholders(braces_encoded(url)),
        xyz_placeholders(braces_encoded(url)) <==> {
            let folded = text::lower(url);
            let held = |letter: char|
                {
                    ||| text::occurs_in(folded, seq!['{', letter, '}'])
                    ||| text::occurs_in(folded, seq!['%', '7', 'b', letter, '%', '7', 'd'])
                    ||| text::occurs_in(folded, seq!['{', letter, '%', '7', 'd'])
                    ||| text::occurs_in(folded, seq!['%', '7', 'b', letter, '}'])
                };
            held('z') && held('x') && held('y')
        },
{
    reveal_strlit("{z}");
    reveal_strlit("{x}");
    reveal_strlit("{y}");
    reveal_strlit("%7bz%7d");
    reveal_strlit("%7bx%7d");
    reveal_strlit("%7by%7d");
    assert("{z}"@ == seq!['{', 'z', '}'] && "%7bz%7d"@ == seq!['%', '7', 'b', 'z', '%', '7', 'd']);
    assert("{x}"@ == seq!['{', 'x', '}'] && "%7bx%7d"@ == seq!['%', '7', 'b', 'x', '%', '7', 'd']);
    assert("{y}"@ == seq!['{', 'y', '}'] && "%7by%7d"@ == seq!['%', '7', 'b', 'y', '%', '7', 'd']);
    lemma_encoded_placeholder(url, 'z');
    lemma_encoded_placeholder(url, 'x');
    lemma_encoded_placeholder(url, 'y');
}

/// A text in small letters with its braces percent-encoded in small letters.
spec fn small_encoded(text: Seq<char>) -> Seq<char>
    decreases text.len(),
{
    if text.len() == 0 {
        Seq::empty()
    } else {
        small_encoded(text.drop_last()) + small_block(text.last())
    }
}

spec fn small_block(c: char) -> Seq<char> {
    if c == '{' {
        seq!['%', '7', 'b']
    } else if c == '}' {
        seq!['%', '7', 'd']
    } else {
        seq![c]
    }
}

proof fn lemma_small_encoded(url: Seq<char>)
    ensures
        text::lower(braces_encoded(url)) == small_encoded(text::lower(url)),
    decreases url.len(),
{
    reveal_strlit("%7B");
    reveal_strlit("%7D");
    if url.len() == 0 {
        assert(braces_encoded(url) == Seq::<char>::empty());
        assert(text::lower(braces_encoded(url)) == small_encoded(text::lower(url)));
    } else {
        let before = url.drop_last();
        let last = url.last();
        lemma_small_encoded(before);
        let opened = text::replace_char(before, '{', "%7B"@);
        let block = if last == '{' {
            "%7B"@
        } else {
            seq![last]
        };
        assert(text::replace_char(url, '{', "%7B"@) == opened + block);
        text::replacing_goes_by_character(opened, block, '}', "%7D"@, last);
        if last == '{' {
            assert(!block.contains('}'));
            text::replacing_leaves_the_rest_alone(block, '}', "%7D"@);
        }
        let closed = text::replace_char(block, '}', "%7D"@);
        assert(braces_encoded(url) == braces_encoded(before) + closed);
        assert(text::lower(braces_encoded(url)) == text::lower(braces_encoded(before))
            + text::lower(closed));
        assert(text::lower(url).drop_last() == text::lower(before));
        assert(text::lower(url).last() == text::lower_char(last));
        assert(text::lower(closed) == small_block(text::lower_char(last)));
    }
}

proof fn lemma_parts_encoded(left: Seq<char>, right: Seq<char>)
    ensures
        small_encoded(left + right) == small_encoded(left) + small_encoded(right),
    decreases right.len(),
{
    if right.len() == 0 {
        assert(left + right == left);
        assert(small_encoded(left) + small_encoded(right) == small_encoded(left));
    } else {
        assert((left + right).drop_last() == left + right.drop_last());
        lemma_parts_encoded(left, right.drop_last());
        assert(small_encoded(left + right) == small_encoded(left) + small_encoded(right));
    }
}

/// The block of the character at `i` begins at `at`.
spec fn block_begins(text: Seq<char>, i: int, at: int) -> bool {
    0 <= i <= text.len() && small_encoded(text.take(i)).len() == at
}

proof fn lemma_block(text: Seq<char>, i: int, at: int)
    requires
        block_begins(text, i, at),
        at < small_encoded(text).len(),
    ensures
        i < text.len(),
        at + small_block(text[i]).len() <= small_encoded(text).len(),
        forall|k: int|
            0 <= k < small_block(text[i]).len() ==> small_encoded(text)[at + k] == #[trigger] small_block(
                text[i],
            )[k],
        block_begins(text, i + 1, (at + small_block(text[i]).len()) as int),
{
    if i == text.len() {
        assert(text.take(i) == text);
    } else {
        let first = text.take(i + 1);
        assert(first.drop_last() == text.take(i));
        lemma_parts_encoded(first, text.skip(i + 1));
        assert(first + text.skip(i + 1) == text);
    }
}

proof fn lemma_percent_begins_a_block(text: Seq<char>, at: int) -> (i: int)
    requires
        0 <= at < small_encoded(text).len(),
        small_encoded(text)[at] == '%',
    ensures
        block_begins(text, i, at),
    decreases text.len(),
{
    let before = text.drop_last();
    let start = small_encoded(before).len();
    if at < start {
        let i = lemma_percent_begins_a_block(before, at);
        assert(before.take(i) == text.take(i));
        i
    } else {
        assert(text.take(text.len() - 1) == before);
        assert(small_block(text.last())[at - start] == '%');
        text.len() - 1
    }
}

/// Behind an opening brace, plain or encoded, which begins at `start`.
proof fn lemma_opening(folded: Seq<char>, start: int, at: int) -> (middle: int)
    requires
        block_begins(folded, start, at),
        0 <= at,
        at + 3 <= small_encoded(folded).len(),
        small_encoded(folded)[at] == '%',
        small_encoded(folded)[at + 1] == '7',
        small_encoded(folded)[at + 2] == 'b',
    ensures
        block_begins(folded, middle, at + 3),
        0 <= start < middle,
        folded.subrange(start, middle) == seq!['{'] || folded.subrange(start, middle) == seq![
            '%',
            '7',
            'b',
        ],
{
    lemma_block(folded, start, at);
    assert(small_block(folded[start])[0] == '%');
    if folded[start] == '%' {
        lemma_block(folded, start + 1, at + 1);
        assert(small_block(folded[start + 1])[0] == '7');
        lemma_block(folded, start + 2, at + 2);
        assert(small_block(folded[start + 2])[0] == 'b');
        assert(folded.subrange(start, start + 3) == seq!['%', '7', 'b']);
        start + 3
    } else {
        assert(small_block(folded[start])[2] == 'b');
        assert(folded.subrange(start, start + 1) == seq!['{']);
        start + 1
    }
}

/// Behind a closing brace, plain or encoded, which begins at `start`.
proof fn lemma_closing(folded: Seq<char>, start: int, at: int) -> (end: int)
    requires
        block_begins(folded, start, at),
        0 <= at,
        at + 3 <= small_encoded(folded).len(),
        small_encoded(folded)[at] == '%',
        small_encoded(folded)[at + 1] == '7',
        small_encoded(folded)[at + 2] == 'd',
    ensures
        start < end <= folded.len(),
        folded.subrange(start, end) == seq!['}'] || folded.subrange(start, end) == seq![
            '%',
            '7',
            'd',
        ],
{
    lemma_block(folded, start, at);
    assert(small_block(folded[start])[0] == '%');
    if folded[start] == '%' {
        lemma_block(folded, start + 1, at + 1);
        assert(small_block(folded[start + 1])[0] == '7');
        lemma_block(folded, start + 2, at + 2);
        assert(small_block(folded[start + 2])[0] == 'd');
        assert(folded.subrange(start, start + 3) == seq!['%', '7', 'd']);
        start + 3
    } else {
        assert(small_block(folded[start])[2] == 'd');
        assert(folded.subrange(start, start + 1) == seq!['}']);
        start + 1
    }
}

/// A placeholder of the encoded form was one in any mix of plain and encoded braces.
proof fn lemma_mixed_placeholder(folded: Seq<char>, letter: char, at: int)
    requires
        letter == 'z' || letter == 'x' || letter == 'y',
        text::occurs_at(
            small_encoded(folded),
            seq!['%', '7', 'b', letter, '%', '7', 'd'],
            at,
        ),
    ensures
        ({
            ||| text::occurs_in(folded, seq!['{', letter, '}'])
            ||| text::occurs_in(folded, seq!['%', '7', 'b', letter, '%', '7', 'd'])
            ||| text::occurs_in(folded, seq!['{', letter, '%', '7', 'd'])
            ||| text::occurs_in(folded, seq!['%', '7', 'b', letter, '}'])
        }),
{
    let coded = small_encoded(folded);
    let wanted = seq!['%', '7', 'b', letter, '%', '7', 'd'];
    let window = coded.subrange(at, at + 7);
    assert(window == wanted);
    assert(coded[at] == window[0] && coded[at + 1] == window[1] && coded[at + 2] == window[2]);
    assert(coded[at + 3] == window[3]);
    assert(coded[at + 4] == window[4] && coded[at + 5] == window[5] && coded[at + 6] == window[6]);
    let start = lemma_percent_begins_a_block(folded, at);
    let middle = lemma_opening(folded, start, at);
    lemma_block(folded, middle, at + 3);
    assert(small_block(folded[middle])[0] == letter);
    let end = lemma_closing(folded, middle + 1, at + 4);
    let opening = folded.subrange(start, middle);
    let closing = folded.subrange(middle + 1, end);
    let found = folded.subrange(start, end);
    assert(found == opening + seq![letter] + closing);
    assert(text::occurs_at(folded, found, start));
    let plain = seq!['{'];
    if opening == plain {
        if closing == seq!['}'] {
            assert(found == seq!['{', letter, '}']);
        } else {
            assert(found == seq!['{', letter, '%', '7', 'd']);
        }
    } else {
        if closing == seq!['}'] {
            assert(found == seq!['%', '7', 'b', letter, '}']);
        } else {
            assert(found == wanted);
        }
    }
}

/// What occurs in a text occurs encoded in the encoded text.
proof fn lemma_encoded_occurs(folded: Seq<char>, needle: Seq<char>)
    requires
        text::occurs_in(folded, needle),
    ensures
        text::occurs_in(small_encoded(folded), small_encoded(needle)),
{
    text::occurring_is_standing_between(folded, needle, folded, folded);
    let (left, right) = choose|left: Seq<char>, right: Seq<char>|
        folded == #[trigger] (left + needle + right);
    lemma_parts_encoded(left + needle, right);
    lemma_parts_encoded(left, needle);
    text::occurring_is_standing_between(
        small_encoded(left),
        small_encoded(needle),
        small_encoded(right),
        folded,
    );
}

proof fn lemma_encoded_placeholder(url: Seq<char>, letter: char)
    requires
        letter == 'z' || letter == 'x' || letter == 'y',
    ensures
        ({
            let coded = text::lower(braces_encoded(url));
            let folded = text::lower(url);
            &&& !text::occurs_in(coded, seq!['{', letter, '}'])
            &&& text::occurs_in(coded, seq!['%', '7', 'b', letter, '%', '7', 'd']) <==> {
                ||| text::occurs_in(folded, seq!['{', letter, '}'])
                ||| text::occurs_in(folded, seq!['%', '7', 'b', letter, '%', '7', 'd'])
                ||| text::occurs_in(folded, seq!['{', letter, '%', '7', 'd'])
                ||| text::occurs_in(folded, seq!['%', '7', 'b', letter, '}'])
            }
        }),
{
    let folded = text::lower(url);
    let coded = small_encoded(folded);
    let wanted = seq!['%', '7', 'b', letter, '%', '7', 'd'];
    lemma_small_encoded(url);
    lemma_no_brace(folded);
    if text::occurs_in(coded, seq!['{', letter, '}']) {
        let at = choose|at: int| text::occurs_at(coded, seq!['{', letter, '}'], at);
        assert(coded.subrange(at, at + 3)[0] == coded[at]);
    }
    let both = seq!['{', letter, '}'];
    let front = seq!['{', letter, '%', '7', 'd'];
    let back = seq!['%', '7', 'b', letter, '}'];
    reveal_with_fuel(small_encoded, 9);
    assert(small_encoded(both) == wanted);
    assert(small_encoded(wanted) == wanted);
    assert(small_encoded(front) == wanted);
    assert(small_encoded(back) == wanted);
    if text::occurs_in(folded, both) {
        lemma_encoded_occurs(folded, both);
    }
    if text::occurs_in(folded, wanted) {
        lemma_encoded_occurs(folded, wanted);
    }
    if text::occurs_in(folded, front) {
        lemma_encoded_occurs(folded, front);
    }
    if text::occurs_in(folded, back) {
        lemma_encoded_occurs(folded, back);
    }
    if text::occurs_in(coded, wanted) {
        let at = choose|at: int| text::occurs_at(coded, wanted, at);
        lemma_mixed_placeholder(folded, letter, at);
    }
}

proof fn lemma_no_brace(folded: Seq<char>)
    ensures
        forall|i: int| 0 <= i < small_encoded(folded).len() ==> #[trigger] small_encoded(folded)[i] != '{',
    decreases folded.len(),
{
    if folded.len() > 0 {
        lemma_no_brace(folded.drop_last());
        let before = small_encoded(folded.drop_last());
        let block = small_block(folded.last());
        assert forall|i: int| 0 <= i < small_encoded(folded).len() implies #[trigger] small_encoded(
            folded,
        )[i] != '{' by {
            if i < before.len() {
                assert(small_encoded(folded)[i] == before[i]);
            } else {
                assert(small_encoded(folded)[i] == block[i - before.len()]);
            }
        }
    }
}

} // verus!
