//! Reading archives and compressed data that are held in memory.
//!
//! The formats are read by the `zip`, `tar` and `flate2` crates. What they make of given bytes
//! depends on the bytes alone, so each result has a name that contracts can speak of.

use std::io::{Cursor, Read};

use flate2::read::{GzDecoder, ZlibDecoder};
use vstd::prelude::*;

use crate::text;

verus! {

/// The names of a listing, or the error of reading it.
pub open spec fn listing_view(listing: Result<Vec<String>, String>) -> Result<
    Seq<Seq<char>>,
    Seq<char>,
> {
    match listing {
        Ok(names) => Ok(text::views(names@)),
        Err(error) => Err(error@),
    }
}

/// The outcomes for the entries of a listing.
pub open spec fn outcomes_view(entries: Seq<Result<String, String>>) -> Seq<
    Result<Seq<char>, Seq<char>>,
> {
    entries.map_values(|entry: Result<String, String>| text::outcome_view(entry))
}

/// The outcome for each entry of a listing, or the error of reading it.
pub open spec fn entries_view(entries: Result<Vec<Result<String, String>>, String>) -> Result<
    Seq<Result<Seq<char>, Seq<char>>>,
    Seq<char>,
> {
    match entries {
        Ok(entries) => Ok(outcomes_view(entries@)),
        Err(error) => Err(error@),
    }
}

/// The path of each entry of a listing or its error, or the error of reading the listing.
pub open spec fn paths_view(paths: Result<Vec<Result<Vec<u8>, String>>, String>) -> Result<
    Seq<Result<Seq<u8>, Seq<char>>>,
    Seq<char>,
> {
    match paths {
        Ok(paths) => Ok(paths@.map_values(|path: Result<Vec<u8>, String>| content_view(path))),
        Err(error) => Err(error@),
    }
}

/// The text of an entry, the error of reading it, or the error of looking it up.
pub open spec fn entry_view(entry: Result<Result<String, String>, String>) -> Result<
    Result<Seq<char>, Seq<char>>,
    Seq<char>,
> {
    match entry {
        Ok(content) => Ok(text::outcome_view(content)),
        Err(error) => Err(error@),
    }
}

/// The bytes of a content, or the error of reading it.
pub open spec fn content_view(content: Result<Vec<u8>, String>) -> Result<Seq<u8>, Seq<char>> {
    match content {
        Ok(bytes) => Ok(bytes@),
        Err(error) => Err(error@),
    }
}

/// The bytes of a content, or the error of reading it, if there is one.
pub open spec fn optional_content_view(content: Option<Result<Vec<u8>, String>>) -> Option<
    Result<Seq<u8>, Seq<char>>,
> {
    match content {
        Some(content) => Some(content_view(content)),
        None => None,
    }
}

/// The bytes of an optional content.
pub open spec fn optional_content(content: Option<Vec<u8>>) -> Option<Seq<u8>> {
    match content {
        Some(bytes) => Some(bytes@),
        None => None,
    }
}

// ---------------------------------------------------------------------------
// Zip archives

/// The names of the entries of a zip archive, in its order, or why it is none.
pub uninterp spec fn zip_listing(archive: Seq<u8>) -> Result<Seq<Seq<char>>, Seq<char>>;

/// The name of the entry of a zip archive at an index, or why it cannot be opened.
pub uninterp spec fn zip_entry_name(archive: Seq<u8>, index: int) -> Result<Seq<char>, Seq<char>>;

/// The content of the entry of a zip archive at an index, or why it cannot be read.
pub uninterp spec fn zip_entry_content(archive: Seq<u8>, index: int) -> Result<Seq<u8>, Seq<char>>;

/// The entry of a zip archive with a name, read as text up to a number of bytes: its text, why
/// that cannot be read, or why the entry cannot be opened.
pub uninterp spec fn zip_entry_text(archive: Seq<u8>, name: Seq<char>, limit: int) -> Result<
    Result<Seq<char>, Seq<char>>,
    Seq<char>,
>;

/// `zip::ZipArchive::new` and `ZipArchive::file_names`: the names of the entries, in the order
/// of the archive's directory, or the text of the error with which it is refused.
#[verifier::external_body]
pub(crate) fn list_zip(archive: &[u8]) -> (listing: Result<Vec<String>, String>)
    ensures
        listing_view(listing) == zip_listing(archive@),
{
    match zip::ZipArchive::new(Cursor::new(archive)) {
        Ok(archive) => Ok(archive.file_names().map(|name| name.to_string()).collect()),
        Err(error) => Err(error.to_string()),
    }
}

/// `zip::ZipArchive::by_index` and `ZipFile::name`: the name of the entry at `index`, which is
/// the one that stands there in the listing, or the text of the error with which the entry is
/// refused.
#[verifier::external_body]
pub(crate) fn name_in_zip(archive: &[u8], index: usize) -> (name: Result<String, String>)
    ensures
        text::outcome_view(name) == zip_entry_name(archive@, index as int),
        name matches Ok(name) ==> (zip_listing(archive@) matches Ok(names) && index < names.len()
            && names[index as int] == name@),
{
    let mut archive = zip::ZipArchive::new(Cursor::new(archive)).map_err(|e| e.to_string())?;
    let file = archive.by_index(index).map_err(|e| e.to_string())?;
    Ok(file.name().to_string())
}

/// `zip::ZipArchive::by_index` and reading the `ZipFile` to its end: the content of the entry at
/// `index`, or the text of the error.
#[verifier::external_body]
pub(crate) fn content_in_zip(archive: &[u8], index: usize) -> (content: Result<Vec<u8>, String>)
    ensures
        content_view(content) == zip_entry_content(archive@, index as int),
{
    let mut archive = zip::ZipArchive::new(Cursor::new(archive)).map_err(|e| e.to_string())?;
    let mut file = archive.by_index(index).map_err(|e| e.to_string())?;
    let mut content = Vec::new();
    match file.read_to_end(&mut content) {
        Ok(_) => Ok(content),
        Err(error) => Err(error.to_string()),
    }
}

/// `zip::ZipArchive::by_name` and reading the `ZipFile` as UTF-8 text, at most `limit` bytes of
/// it. Only an entry of the listing can be opened.
#[verifier::external_body]
pub(crate) fn text_in_zip(archive: &[u8], name: &str, limit: u64) -> (entry: Result<
    Result<String, String>,
    String,
>)
    ensures
        entry_view(entry) == zip_entry_text(archive@, name@, limit as int),
        entry is Ok ==> (zip_listing(archive@) matches Ok(names) && names.contains(name@)),
{
    let mut archive = zip::ZipArchive::new(Cursor::new(archive)).map_err(|e| e.to_string())?;
    let mut file = archive.by_name(name).map_err(|e| e.to_string())?.take(limit);
    let mut content = String::new();
    match file.read_to_string(&mut content) {
        Ok(_) => Ok(Ok(content)),
        Err(error) => Ok(Err(error.to_string())),
    }
}

// ---------------------------------------------------------------------------
// Compressed tar archives

/// The bytes of the paths of the entries of a gzip-compressed tar archive, in its order. Where an
/// entry is not readable its error takes its place and is the last item.
pub uninterp spec fn tar_gz_listing(archive: Seq<u8>) -> Result<
    Seq<Result<Seq<u8>, Seq<char>>>,
    Seq<char>,
>;

/// The content of the entry of a gzip-compressed tar archive at an index, or why it cannot be
/// read, if there is such an entry.
pub uninterp spec fn tar_gz_entry_content(archive: Seq<u8>, index: int) -> Option<
    Result<Seq<u8>, Seq<char>>,
>;

/// `tar::Archive::entries` over a `flate2::read::GzDecoder`, and `Entry::path_bytes`: the bytes of
/// the path of each entry, or the text of the error.
#[verifier::external_body]
pub(crate) fn list_tar_gz(archive: &[u8]) -> (paths: Result<Vec<Result<Vec<u8>, String>>, String>)
    ensures
        paths_view(paths) == tar_gz_listing(archive@),
{
    let mut archive = tar::Archive::new(GzDecoder::new(Cursor::new(archive)));
    let entries = archive.entries().map_err(|e| e.to_string())?;
    Ok(entries.map(|entry| match entry {
        Ok(entry) => Ok(entry.path_bytes().to_vec()),
        Err(error) => Err(error.to_string()),
    }).collect())
}

/// `tar::Archive::entries` over a `flate2::read::GzDecoder`, and reading the `Entry` at `index`
/// to its end: its content, or the text of the error, for each index of the listing.
#[verifier::external_body]
pub(crate) fn content_in_tar_gz(archive: &[u8], index: usize) -> (content: Option<
    Result<Vec<u8>, String>,
>)
    ensures
        optional_content_view(content) == tar_gz_entry_content(archive@, index as int),
        content is Some <==> (tar_gz_listing(archive@) matches Ok(entries) && index
            < entries.len()),
{
    let mut archive = tar::Archive::new(GzDecoder::new(Cursor::new(archive)));
    let mut content = Vec::new();
    match archive.entries().ok()?.nth(index)? {
        Ok(mut entry) => match entry.read_to_end(&mut content) {
            Ok(_) => Some(Ok(content)),
            Err(error) => Some(Err(error.to_string())),
        },
        Err(error) => Some(Err(error.to_string())),
    }
}

// ---------------------------------------------------------------------------
// Compressed data

/// What gzip data expands to, or why it cannot be expanded.
pub uninterp spec fn gunzipped(data: Seq<u8>) -> Result<Seq<u8>, Seq<char>>;

/// What zlib data expands to, if it can be expanded.
pub uninterp spec fn inflated(data: Seq<u8>) -> Option<Seq<u8>>;

/// Reading a `flate2::read::GzDecoder` to its end: what `data` expands to, or the text of the
/// error.
#[verifier::external_body]
pub(crate) fn gunzip(data: &[u8]) -> (content: Result<Vec<u8>, String>)
    ensures
        content_view(content) == gunzipped(data@),
{
    let mut content = Vec::new();
    match GzDecoder::new(data).read_to_end(&mut content) {
        Ok(_) => Ok(content),
        Err(error) => Err(error.to_string()),
    }
}

/// Reading a `flate2::read::ZlibDecoder` to its end: what `data` expands to, if it can be
/// expanded.
#[verifier::external_body]
pub(crate) fn inflate(data: &[u8]) -> (content: Option<Vec<u8>>)
    ensures
        optional_content(content) == inflated(data@),
{
    let mut content = Vec::new();
    match ZlibDecoder::new(data).read_to_end(&mut content) {
        Ok(_) => Some(content),
        Err(_) => None,
    }
}

/// What an archive or a file gave is shown as it is.
pub proof fn outcomes_are_shown(
    names: Vec<String>,
    entries: Vec<Result<String, String>>,
    paths: Vec<Result<Vec<u8>, String>>,
    text: Result<String, String>,
    content: Vec<u8>,
    error: String,
    at: int,
)
    ensures
        listing_view(Ok(names)) == Ok::<Seq<Seq<char>>, Seq<char>>(text::views(names@)),
        listing_view(Err(error)) == Err::<Seq<Seq<char>>, Seq<char>>(error@),
        outcomes_view(entries@).len() == entries@.len(),
        0 <= at < entries@.len() ==> outcomes_view(entries@)[at] == text::outcome_view(entries@[at]),
        entries_view(Ok(entries)) == Ok::<Seq<Result<Seq<char>, Seq<char>>>, Seq<char>>(
            outcomes_view(entries@),
        ),
        entries_view(Err(error)) == Err::<Seq<Result<Seq<char>, Seq<char>>>, Seq<char>>(error@),
        paths_view(Ok(paths)) is Ok,
        paths_view(Ok(paths))->Ok_0.len() == paths@.len(),
        0 <= at < paths@.len() ==> paths_view(Ok(paths))->Ok_0[at] == content_view(paths@[at]),
        paths_view(Err(error)) == Err::<Seq<Result<Seq<u8>, Seq<char>>>, Seq<char>>(error@),
        entry_view(Ok(text)) == Ok::<Result<Seq<char>, Seq<char>>, Seq<char>>(
            text::outcome_view(text),
        ),
        entry_view(Err(error)) == Err::<Result<Seq<char>, Seq<char>>, Seq<char>>(error@),
        content_view(Ok(content)) == Ok::<Seq<u8>, Seq<char>>(content@),
        content_view(Err(error)) == Err::<Seq<u8>, Seq<char>>(error@),
        optional_content(Some(content)) == Some(content@),
        optional_content(None) is None,
        optional_content_view(Some(Ok(content))) == Some(Ok::<Seq<u8>, Seq<char>>(content@)),
        optional_content_view(Some(Err(error))) == Some(Err::<Seq<u8>, Seq<char>>(error@)),
        optional_content_view(None) is None,
{
}

} // verus!
