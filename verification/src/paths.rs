//! File names and paths: which local files may be read, which belong together, and how
//! directories are told apart.

use std::path::Path;

use vstd::prelude::*;

use crate::{split, text};

verus! {

// ---------------------------------------------------------------------------
// File names

pub open spec fn separator(c: char) -> bool {
    c == '/' || c == '\\'
}

/// A path that begins like the address of another host.
pub open spec fn network_form(path: Seq<char>) -> bool {
    path.len() >= 2 && separator(path[0]) && separator(path[1])
}

/// A path that begins with the name of a drive: a letter and a colon.
pub open spec fn drive_form(path: Seq<char>) -> bool {
    path.len() >= 2 && text::ascii_letter(path[0]) && path[1] == ':'
}

/// Paths are divided at `/` alone.
pub open spec fn slash() -> spec_fn(char) -> bool {
    |c: char| c == '/'
}

/// Paths are divided at `\\` alone.
pub open spec fn backslash() -> spec_fn(char) -> bool {
    |c: char| c == '\\'
}

/// Paths are divided at separators of either kind.
pub open spec fn either() -> spec_fn(char) -> bool {
    |c: char| separator(c)
}

/// A path without what stands for nothing at its end: separators, and dots behind a separator.
pub open spec fn without_end(path: Seq<char>, divides: spec_fn(char) -> bool) -> Seq<char>
    decreases path.len(),
{
    if path.len() > 0 && divides(path.last()) {
        without_end(path.drop_last(), divides)
    } else if path.len() >= 2 && path.last() == '.' && divides(path[path.len() - 2]) {
        without_end(path.drop_last(), divides)
    } else {
        path
    }
}

/// The position of the last separator, or -1 where there is none.
pub open spec fn last_divider(path: Seq<char>, divides: spec_fn(char) -> bool) -> int
    decreases path.len(),
{
    if path.len() == 0 {
        -1
    } else if divides(path.last()) {
        path.len() - 1
    } else {
        last_divider(path.drop_last(), divides)
    }
}

/// The last part of a path between separators.
pub open spec fn end_part(path: Seq<char>, divides: spec_fn(char) -> bool) -> Seq<char> {
    let whole = without_end(path, divides);
    whole.skip(last_divider(whole, divides) + 1)
}

/// The file name of a path that is divided in the given way: its last part, unless that stands
/// for this directory or for the parent directory.
pub open spec fn end_name(path: Seq<char>, divides: spec_fn(char) -> bool) -> Option<Seq<char>> {
    let part = end_part(path, divides);
    if part.len() == 0 || part == "."@ || part == ".."@ {
        None
    } else {
        Some(part)
    }
}

/// How many characters stand in front of the first separator.
pub open spec fn first_part_length(path: Seq<char>) -> nat
    decreases path.len(),
{
    if path.len() == 0 || separator(path[0]) {
        0
    } else {
        1 + first_part_length(path.skip(1))
    }
}

/// What follows the host and the share in the address of a file on another host.
pub open spec fn behind_share(path: Seq<char>) -> Option<Seq<char>> {
    let address = path.skip(2);
    let host = first_part_length(address);
    let shared = address.skip(host as int + 1);
    let share = first_part_length(shared);
    if network_form(path) && 0 < host < address.len() && address.take(host as int) != "?"@
        && address.take(host as int) != "."@ && 0 < share < shared.len() {
        Some(shared.skip(share as int + 1))
    } else {
        None
    }
}

/// What is left of a path on Windows behind the drive, or the host and the share, that it may begin
/// with. Nothing is said of a path that begins with two separators but is no address of a file in a
/// share.
pub open spec fn windows_rest(path: Seq<char>) -> Option<Seq<char>> {
    if network_form(path) {
        behind_share(path)
    } else if drive_form(path) {
        Some(path.skip(2))
    } else {
        Some(path)
    }
}

/// The file name that Windows gives a path, where `windows_rest` says what is left of the path.
pub open spec fn windows_name(path: Seq<char>) -> Option<Option<Seq<char>>> {
    match windows_rest(path) {
        Some(rest) => Some(end_name(rest, either())),
        None => None,
    }
}

/// What holds of the file name that Windows gives a path. Where a path begins with two separators
/// but is no address of a file in a share, its whole text may name a host, a share or a device, or
/// only backslashes may divide it: the name is then one of three.
pub open spec fn windows_name_fits(path: Seq<char>, name: Option<Seq<char>>) -> bool {
    match windows_name(path) {
        Some(told) => name == told,
        None => {
            ||| name is None
            ||| name == end_name(path, either())
            ||| name == end_name(path, backslash())
        },
    }
}

/// The file name that every platform gives a path, if they give it the same one.
pub open spec fn plain_file_name(path: Seq<char>) -> Option<Seq<char>> {
    if windows_name(path) == Some(end_name(path, slash())) {
        end_name(path, slash())
    } else {
        None
    }
}

/// What holds on every platform of the file name of a path: it is the one of a path divided at
/// slashes, or one that Windows may give the path. It stands in the path and is not empty.
pub open spec fn file_name_fits(path: Seq<char>, name: Option<Seq<char>>) -> bool {
    &&& name == end_name(path, slash()) || windows_name_fits(path, name)
    &&& name matches Some(name) ==> name.len() > 0 && text::occurs_in(path, name)
}

/// `std::path::Path::file_name`, on a path that is given as text: the last part of the path,
/// where separators and single dots at its end do not count, and none for the parent directory.
/// What divides a path depends on the platform: a slash does everywhere, a backslash on Windows,
/// where a path may also begin with a drive or with a host and a share, which are no part of the
/// name. So the name is one of two. Left unsaid is which of three names Windows gives a path that
/// begins with two separators but does not lead to a file in a share.
#[verifier::external_body]
pub(crate) fn file_name(path: &str) -> (name: Option<String>)
    ensures
        file_name_fits(path@, text::view_of(name)),
{
    Path::new(path).file_name().and_then(|name| name.to_str()).map(|name| name.to_string())
}

/// The text behind the last separator of either kind, once the end of the path is taken off.
pub open spec fn last_part(path: Seq<char>) -> Seq<char> {
    let segment = end_part(path, slash());
    segment.skip(split::last_position(segment, '\\') + 1)
}

/// The last part of a path that is plainly a name, whichever separators divide the path.
pub open spec fn plain_part(path: Seq<char>) -> Option<Seq<char>> {
    let part = last_part(path);
    if network_form(path) || part.len() == 0 || (drive_form(path) && part.contains(':')) || part
        == "."@ || part == ".."@ {
        None
    } else {
        Some(part)
    }
}

/// Of a path whose last part is plainly a name, one platform takes that part for the file name,
/// and the other the text behind the last slash, which ends in that part.
pub proof fn plain_parts_are_names(path: Seq<char>)
    requires
        plain_part(path) is Some,
    ensures
        windows_name(path) == Some(plain_part(path)),
        end_name(path, slash()) == Some(end_part(path, slash())),
        plain_part(path)->0.is_suffix_of(end_part(path, slash())),
{
    reveal_strlit(".");
    reveal_strlit("..");
    let whole = without_end(path, slash());
    let segment = end_part(path, slash());
    let part = last_part(path);
    let a = last_divider(whole, slash());
    let b = split::last_position(segment, '\\');
    lemma_without_end(path);
    lemma_last_divider(whole, slash());
    lemma_last_divider(whole, either());
    split::lemma_last_position(segment, '\\');
    assert(part.last() == whole.last());
    assert(whole.last() == segment.last());
    assert(!separator(whole.last())) by {
        if whole.last() == '\\' {
            assert(segment[segment.len() - 1] == '\\');
        }
    }
    if whole.len() >= 2 && whole.last() == '.' && whole[whole.len() - 2] == '\\' {
        assert(segment.len() >= 2);
        assert(segment[segment.len() - 2] == '\\');
        assert(b == segment.len() - 2);
        assert(part == "."@);
    }
    assert(without_end(whole, either()) == whole);
    let c = last_divider(whole, either());
    assert(c == a + 1 + b) by {
        if b >= 0 {
            assert(whole[a + 1 + b] == segment[b]);
        }
        if c > a + 1 + b {
            if whole[c] == '\\' {
                assert(segment[c - a - 1] == '\\');
            }
        }
    }
    assert(whole.skip(c + 1) == part);
    if drive_form(path) {
        lemma_without_drive(path, part);
    }
    assert(segment.subrange(segment.len() - part.len(), segment.len() as int) == part);
    assert(segment.len() >= part.len());
    if segment == "."@ || segment == ".."@ {
        assert(b == -1);
        assert(part == segment);
    }
}

proof fn lemma_without_end(path: Seq<char>)
    ensures
        without_end(path, either()) == without_end(without_end(path, slash()), either()),
        ({
            let whole = without_end(path, slash());
            &&& whole.len() > 0 ==> whole.last() != '/'
            &&& whole.len() >= 2 && whole.last() == '.' ==> whole[whole.len() - 2] != '/'
        }),
    decreases path.len(),
{
    if path.len() > 0 && (path.last() == '/' || (path.len() >= 2 && path.last() == '.'
        && path[path.len() - 2] == '/')) {
        lemma_without_end(path.drop_last());
    }
}

/// The drive that a path begins with has no share in its last part, unless it stands there.
proof fn lemma_without_drive(path: Seq<char>, part: Seq<char>)
    requires
        drive_form(path),
        part == end_part(path, either()),
        !part.contains(':'),
    ensures
        end_part(path.skip(2), either()) == part,
{
    let whole = without_end(path, either());
    let rest = whole.skip(2);
    lemma_end_behind_drive(path);
    lemma_last_divider(whole, either());
    lemma_last_divider(rest, either());
    let a = last_divider(whole, either());
    let b = last_divider(rest, either());
    if a < 1 {
        assert(part[1 - (a + 1)] == ':');
    }
    assert(a >= 2);
    assert(b == a - 2) by {
        assert(rest[a - 2] == whole[a]);
        if b > a - 2 {
            assert(rest[b] == whole[b + 2]);
        }
    }
    assert(rest.skip(b + 1) == whole.skip(a + 1));
}

proof fn lemma_end_behind_drive(path: Seq<char>)
    requires
        drive_form(path),
    ensures
        drive_form(without_end(path, either())),
        without_end(path.skip(2), either()) == without_end(path, either()).skip(2),
    decreases path.len(),
{
    let rest = path.skip(2);
    let cut = separator(path.last()) || (path.last() == '.' && separator(path[path.len() - 2]));
    if cut {
        assert(path.len() > 2);
        lemma_end_behind_drive(path.drop_last());
        assert(rest.drop_last() == path.drop_last().skip(2));
        assert(rest.last() == path.last());
        if path.last() == '.' {
            assert(path.len() > 3);
            assert(rest[rest.len() - 2] == path[path.len() - 2]);
        }
    } else if rest.len() > 0 {
        assert(rest.last() == path.last());
        if rest.len() >= 2 {
            assert(rest[rest.len() - 2] == path[path.len() - 2]);
        }
    }
}

proof fn lemma_last_divider(path: Seq<char>, divides: spec_fn(char) -> bool)
    ensures
        -1 <= last_divider(path, divides) < path.len(),
        last_divider(path, divides) >= 0 ==> divides(path[last_divider(path, divides)]),
        forall|i: int| last_divider(path, divides) < i < path.len() ==> !divides(#[trigger] path[i]),
    decreases path.len(),
{
    if path.len() > 0 && !divides(path.last()) {
        let before = path.drop_last();
        lemma_last_divider(before, divides);
        assert forall|i: int| last_divider(path, divides) < i < path.len() implies !divides(
            #[trigger] path[i],
        ) by {
            if i < before.len() {
                assert(before[i] == path[i]);
            }
        }
    }
}

/// A file name without its extension. A name that only begins with a dot has no extension.
pub open spec fn stem_of(name: Seq<char>) -> Seq<char> {
    let dot = split::last_position(name, '.');
    if name == ".."@ || dot <= 0 {
        name
    } else {
        name.take(dot)
    }
}

/// The extension of a file name: the text behind its last dot, unless the name begins there.
pub open spec fn extension_of(name: Seq<char>) -> Option<Seq<char>> {
    let dot = split::last_position(name, '.');
    if name == ".."@ || dot <= 0 {
        None
    } else {
        Some(name.skip(dot + 1))
    }
}

pub fn file_stem(name: &str) -> (stem: String)
    ensures
        stem@ == stem_of(name@),
{
    if text::same_text(name, "..") {
        return name.to_owned();
    }
    proof {
        split::lemma_last_position(name@, '.');
    }
    match split::text_before_last(name, '.') {
        Some(stem) => {
            if stem.as_str().is_empty() {
                name.to_owned()
            } else {
                stem
            }
        },
        None => name.to_owned(),
    }
}

pub fn file_extension(name: &str) -> (extension: Option<String>)
    ensures
        text::view_of(extension) == extension_of(name@),
{
    if text::same_text(name, "..") {
        return None;
    }
    proof {
        split::lemma_last_position(name@, '.');
    }
    match split::text_before_last(name, '.') {
        Some(stem) => {
            if stem.as_str().is_empty() {
                None
            } else {
                split::text_after_last(name, '.')
            }
        },
        None => None,
    }
}

/// The stem of an optional file name.
pub open spec fn optional_stem(name: Option<Seq<char>>) -> Option<Seq<char>> {
    match name {
        Some(name) => Some(stem_of(name)),
        None => None,
    }
}

/// The stem of the file that `path` leads to.
pub fn path_stem(path: &str) -> (stem: Option<String>)
    ensures
        plain_file_name(path@) matches Some(name) ==> text::view_of(stem) == Some(stem_of(name)),
        plain_part(path@) matches Some(part) ==> {
            ||| text::view_of(stem) == Some(stem_of(part))
            ||| text::view_of(stem) == Some(stem_of(end_part(path@, slash())))
        },
        exists|name: Option<Seq<char>>|
            #[trigger] file_name_fits(path@, name) && text::view_of(stem) == optional_stem(name),
{
    let name = file_name(path);
    assert(file_name_fits(path@, text::view_of(name)));
    proof {
        if plain_part(path@) is Some {
            plain_parts_are_names(path@);
        }
    }
    match name {
        Some(name) => Some(file_stem(name.as_str())),
        None => None,
    }
}

// ---------------------------------------------------------------------------
// Plugin archives and directories

/// An extension of `zip` in any case.
pub open spec fn zip_extension(extension: Option<Seq<char>>) -> bool {
    extension matches Some(extension) && text::lower(extension) == text::lower("zip"@)
}

/// Whether a file with this extension is a zip archive.
pub fn is_zip_extension(extension: Option<&str>) -> (answer: bool)
    ensures
        answer == zip_extension(text::str_view_of(extension)),
{
    match extension {
        Some(extension) => text::same_ignoring_case(extension, "zip"),
        None => false,
    }
}

/// The extension of an optional file name.
pub open spec fn optional_extension(name: Option<Seq<char>>) -> Option<Seq<char>> {
    match name {
        Some(name) => extension_of(name),
        None => None,
    }
}

/// Platforms that take different parts of a path for its file name agree on whether it is that of
/// a zip archive, unless the only dot of the last part begins it.
proof fn lemma_zip_extension_of_part(path: Seq<char>)
    requires
        plain_part(path) is Some,
        split::last_position(plain_part(path)->0, '.') != 0,
    ensures
        zip_extension(extension_of(end_part(path, slash()))) == zip_extension(
            extension_of(plain_part(path)->0),
        ),
{
    plain_parts_are_names(path);
    let whole = end_part(path, slash());
    let part = last_part(path);
    let start = whole.len() - part.len();
    let dot = split::last_position(part, '.');
    let last = split::last_position(whole, '.');
    split::lemma_last_position(whole, '\\');
    split::lemma_last_position(part, '.');
    split::lemma_last_position(whole, '.');
    reveal_strlit("..");
    reveal_strlit("zip");
    assert(forall|i: int| 0 <= i < part.len() ==> part[i] == whole[start + i]);
    assert(start > 0 ==> whole[start - 1] == '\\');
    if dot > 0 {
        assert(last == start + dot) by {
            assert(whole[start + dot] == '.');
            if last > start + dot {
                assert(part[last - start] == '.');
            }
        }
        assert(whole.skip(last + 1) == part.skip(dot + 1));
        assert(part != ".."@);
        assert(whole != ".."@);
    } else {
        assert(last < start) by {
            if last >= start {
                assert(part[last - start] == '.');
            }
        }
        if extension_of(whole) is Some {
            let extension = extension_of(whole)->0;
            assert(last < start - 1);
            assert(extension[start - 2 - last] == '\\');
            assert(text::lower(extension)[start - 2 - last] == '\\');
            assert(text::lower("zip"@).len() == 3);
            assert forall|i: int| 0 <= i < 3 implies #[trigger] text::lower("zip"@)[i] != '\\' by {
                assert(text::lower("zip"@)[i] == text::lower_char("zip"@[i]));
            }
        }
    }
}

/// Whether `path` leads to a zip archive, by its extension.
pub fn is_zip_path(path: &str) -> (answer: bool)
    ensures
        plain_file_name(path@) matches Some(name) ==> answer == zip_extension(extension_of(name)),
        plain_part(path@) matches Some(part) ==> (split::last_position(part, '.') != 0 ==> answer
            == zip_extension(extension_of(part))),
        exists|name: Option<Seq<char>>|
            #[trigger] file_name_fits(path@, name) && answer == zip_extension(
                optional_extension(name),
            ),
{
    let name = file_name(path);
    assert(file_name_fits(path@, text::view_of(name)));
    proof {
        if plain_part(path@) is Some {
            plain_parts_are_names(path@);
            if split::last_position(plain_part(path@)->0, '.') != 0 {
                lemma_zip_extension_of_part(path@);
            }
        }
    }
    match name {
        Some(name) => {
            let extension = file_extension(name.as_str());
            match extension {
                Some(extension) => is_zip_extension(Some(extension.as_str())),
                None => is_zip_extension(None),
            }
        },
        None => false,
    }
}

/// The text by which directories are told apart: a canonical path with forward slashes.
pub open spec fn path_key(path: Seq<char>) -> Seq<char> {
    text::replace_char(path, '\\', "/"@)
}

pub fn normalize_path_key(canonical: &str) -> (key: String)
    ensures
        key@ == path_key(canonical@),
{
    text::replaced(canonical, '\\', "/")
}

// ---------------------------------------------------------------------------
// Local vector files

/// The extensions of the vector files that may be read again from a saved project.
pub open spec fn restorable_vector_extensions() -> Seq<Seq<char>> {
    seq![
        "geojson"@,
        "json"@,
        "gpkg"@,
        "geoparquet"@,
        "parquet"@,
        "fgb"@,
        "flatgeobuf"@,
        "csv"@,
        "tsv"@,
        "kml"@,
        "kmz"@,
        "gml"@,
        "gpx"@,
        "dxf"@,
        "tab"@,
        "shp"@,
        "zip"@,
    ]
}

fn is_restorable_vector_extension(extension: &str) -> (answer: bool)
    ensures
        answer == restorable_vector_extensions().contains(extension@),
{
    let names: Vec<&str> = vec![
        "geojson",
        "json",
        "gpkg",
        "geoparquet",
        "parquet",
        "fgb",
        "flatgeobuf",
        "csv",
        "tsv",
        "kml",
        "kmz",
        "gml",
        "gpx",
        "dxf",
        "tab",
        "shp",
        "zip",
    ];
    let ghost listed = restorable_vector_extensions();
    assert forall|i: int| 0 <= i < 17 implies #[trigger] names@[i]@ == listed[i] by {}
    let answer = text::is_listed(&names, extension);
    proof {
        if listed.contains(extension@) {
            let i = choose|i: int| 0 <= i < 17 && listed[i] == extension@;
            assert(names@[i]@ == extension@);
        }
    }
    answer
}

/// A path from the root, or from the root of a drive.
pub open spec fn absolute_path(path: Seq<char>) -> bool {
    ||| path.len() >= 1 && path[0] == '/'
    ||| path.len() >= 3 && text::ascii_letter(path[0]) && path[1] == ':' && separator(path[2])
}

/// The segments of a path, between separators of either kind.
pub open spec fn path_segments(path: Seq<char>) -> Seq<Seq<char>> {
    split::split(path, split::one_of(seq!['/', '\\']))
}

/// A local, absolute path to a vector file, without segments that lead to a parent directory.
pub open spec fn allowed_local_vector_path(path: Seq<char>) -> bool {
    &&& !network_form(path)
    &&& absolute_path(path)
    &&& !path_segments(path).contains(".."@)
    &&& split::after_last(text::lower(path), '.') matches Some(extension)
        && restorable_vector_extensions().contains(extension)
}

fn is_separator(c: char) -> (answer: bool)
    ensures
        answer == separator(c),
{
    c == '/' || c == '\\'
}

/// Whether the file at `path` may be read as a local vector file.
pub fn is_allowed_local_vector_path(path: &str) -> (answer: bool)
    ensures
        answer == allowed_local_vector_path(path@),
{
    let chars = text::to_chars(path);
    if chars.len() >= 2 && is_separator(chars[0]) && is_separator(chars[1]) {
        return false;
    }
    let from_root = chars.len() >= 1 && chars[0] == '/';
    let from_drive = chars.len() >= 3 && (('a' <= chars[0] && chars[0] <= 'z') || ('A' <= chars[0]
        && chars[0] <= 'Z')) && chars[1] == ':' && is_separator(chars[2]);
    if !from_root && !from_drive {
        return false;
    }
    let separators: Vec<char> = vec!['/', '\\'];
    assert(separators@ == seq!['/', '\\']);
    let segments = split::split_at_any(path, &separators);
    if text::holds_text(&segments, "..") {
        return false;
    }
    let folded = text::to_lower(path);
    match split::text_after_last(folded.as_str(), '.') {
        Some(extension) => is_restorable_vector_extension(extension.as_str()),
        None => false,
    }
}

/// Why a path is not read.
pub open spec fn refusal(path: Seq<char>) -> Seq<char> {
    "Refusing to read \""@ + path + "\": not an absolute local vector file path"@
}

/// Refuses every path but those of local vector files.
pub fn check_local_vector_path(path: &str) -> (outcome: Result<(), String>)
    ensures
        text::check_view(outcome) == if allowed_local_vector_path(path@) {
            Ok::<(), Seq<char>>(())
        } else {
            Err(refusal(path@))
        },
{
    if is_allowed_local_vector_path(path) {
        Ok(())
    } else {
        let mut message = "Refusing to read \"".to_owned();
        message.append(path);
        message.append("\": not an absolute local vector file path");
        Err(message)
    }
}

/// An allowed path is absolute and not the address of another host, no segment of it leads to a
/// parent directory, and it ends in a dot and the extension of a vector format, in any case.
pub proof fn allowed_paths_are_local_vector_files(path: Seq<char>)
    requires
        allowed_local_vector_path(path),
    ensures
        absolute_path(path),
        !network_form(path),
        forall|i: int| 0 <= i < path_segments(path).len() ==> #[trigger] path_segments(path)[i]
            != ".."@,
        exists|dot: int|
            0 <= dot < path.len() && #[trigger] path[dot] == '.'
                && restorable_vector_extensions().contains(text::lower(path.skip(dot + 1))),
{
    let folded = text::lower(path);
    let dot = split::last_position(folded, '.');
    split::lemma_last_position(folded, '.');
    assert(folded[dot] == text::lower_char(path[dot]));
    assert(path[dot] == '.');
    assert(folded.skip(dot + 1) == text::lower(path.skip(dot + 1)));
}

/// Whether a path is allowed does not depend on the case of its extension's letters.
pub proof fn extension_case_does_not_matter(directory: Seq<char>, left: Seq<char>, right: Seq<char>)
    requires
        text::lower(left) == text::lower(right),
        allowed_local_vector_path(directory + seq!['.'] + left),
        forall|i: int| 0 <= i < left.len() ==> !separator(#[trigger] left[i]),
    ensures
        allowed_local_vector_path(directory + seq!['.'] + right),
{
    let a = directory + seq!['.'] + left;
    let b = directory + seq!['.'] + right;
    assert(text::lower(a) == text::lower(directory) + text::lower(seq!['.']) + text::lower(left));
    assert(text::lower(b) == text::lower(directory) + text::lower(seq!['.']) + text::lower(right));
    assert(left.len() == right.len()) by {
        assert(text::lower(left).len() == left.len());
        assert(text::lower(right).len() == right.len());
    }
    assert forall|i: int| 0 <= i < right.len() implies !separator(#[trigger] right[i]) by {
        assert(text::lower(left)[i] == text::lower_char(left[i]));
        assert(text::lower(right)[i] == text::lower_char(right[i]));
        assert(!separator(left[i]));
    }
    assert(forall|i: int| 0 <= i <= directory.len() ==> a[i] == b[i]);
    assert(a[directory.len() as int] == '.');
    assert(directory.push('.') + left == a);
    assert(directory.push('.') + right == b);
    lemma_segments_with_plain_end(directory.push('.'), left, right);
    assert(a[2] == b[2] || !separator(a[2])) by {
        if directory.len() < 2 && a.len() > 2 {
            assert(a[2] == left[2 - directory.len() - 1]);
        }
    }
}

/// Two texts that continue the same text, without separators, are cut at the same places.
proof fn lemma_segments_with_plain_end(start: Seq<char>, left: Seq<char>, right: Seq<char>)
    requires
        start.len() > 0,
        start.last() == '.',
        text::lower(left) == text::lower(right),
        left.len() == right.len(),
        forall|i: int| 0 <= i < left.len() ==> !separator(#[trigger] left[i]),
        forall|i: int| 0 <= i < right.len() ==> !separator(#[trigger] right[i]),
        !path_segments(start + left).contains(".."@),
    ensures
        !path_segments(start + right).contains(".."@),
{
    let base = path_segments(start);
    split::lemma_split_not_empty(start, split::one_of(seq!['/', '\\']));
    lemma_plain_end(start, left);
    lemma_plain_end(start, right);
    let a = path_segments(start + left);
    let b = path_segments(start + right);
    reveal_strlit("..");
    if b.contains(".."@) {
        let i = choose|i: int| 0 <= i < b.len() && b[i] == ".."@;
        if i < b.len() - 1 {
            assert(a[i] == b[i]);
        } else {
            assert(b[i] == base.last() + right);
            if left.len() == 0 {
                assert(left == right);
            } else {
                assert(b[i].last() == right.last());
                assert(right.last() == '.');
                assert(text::lower(left)[left.len() - 1] == text::lower_char(left.last()));
                assert(text::lower(right)[right.len() - 1] == text::lower_char(right.last()));
                assert(left.last() == '.');
                assert(base.last() + left =~= base.last() + right) by {
                    assert forall|k: int| 0 <= k < left.len() implies left[k] == right[k] by {
                        assert(b[i][base.last().len() + k] == right[k]);
                        assert(right[k] == '.');
                        assert(text::lower(left)[k] == text::lower_char(left[k]));
                        assert(text::lower(right)[k] == text::lower_char(right[k]));
                    }
                }
            }
            assert(a[i] == ".."@);
        }
        assert(a.contains(".."@));
    }
}

proof fn lemma_plain_end(start: Seq<char>, end: Seq<char>)
    requires
        forall|i: int| 0 <= i < end.len() ==> !separator(#[trigger] end[i]),
    ensures
        path_segments(start + end) == path_segments(start).update(
            path_segments(start).len() - 1,
            path_segments(start).last() + end,
        ),
        path_segments(start).len() > 0,
    decreases end.len(),
{
    let cut = split::one_of(seq!['/', '\\']);
    let base = path_segments(start);
    split::lemma_split_not_empty(start, cut);
    if end.len() == 0 {
        assert(start + end == start);
        assert(base.last() + end == base.last());
        assert(base.update(base.len() - 1, base.last()) == base);
    } else {
        let shorter = end.drop_last();
        assert forall|i: int| 0 <= i < shorter.len() implies !separator(#[trigger] shorter[i]) by {
            assert(shorter[i] == end[i]);
        }
        lemma_plain_end(start, shorter);
        assert((start + end).drop_last() == start + shorter);
        assert((start + end).last() == end.last());
        assert(!separator(end[end.len() - 1]));
        assert(!cut(end.last())) by {
            if seq!['/', '\\'].contains(end.last()) {
                let k = choose|k: int| 0 <= k < 2 && seq!['/', '\\'][k] == end.last();
                assert(k == 0 || k == 1);
            }
        }
        assert((base.last() + shorter).push(end.last()) == base.last() + end);
        assert(path_segments(start + end) == base.update(base.len() - 1, base.last() + end));
    }
}

// ---------------------------------------------------------------------------
// Shapefiles

/// The extensions of the files that belong to a shapefile.
pub open spec fn shapefile_sidecar_extensions() -> Seq<Seq<char>> {
    seq![
        "shx"@,
        "dbf"@,
        "prj"@,
        "cpg"@,
        "sbn"@,
        "sbx"@,
        "qix"@,
        "qpj"@,
        "cst"@,
        "aih"@,
        "ain"@,
        "atx"@,
        "ixs"@,
        "mxs"@,
        "fbn"@,
        "fbx"@,
    ]
}

fn is_shapefile_sidecar_extension(extension: &str) -> (answer: bool)
    ensures
        answer == shapefile_sidecar_extensions().contains(extension@),
{
    let names: Vec<&str> = vec![
        "shx",
        "dbf",
        "prj",
        "cpg",
        "sbn",
        "sbx",
        "qix",
        "qpj",
        "cst",
        "aih",
        "ain",
        "atx",
        "ixs",
        "mxs",
        "fbn",
        "fbx",
    ];
    let ghost listed = shapefile_sidecar_extensions();
    assert forall|i: int| 0 <= i < 16 implies #[trigger] names@[i]@ == listed[i] by {}
    let answer = text::is_listed(&names, extension);
    proof {
        if listed.contains(extension@) {
            let i = choose|i: int| 0 <= i < 16 && listed[i] == extension@;
            assert(names@[i]@ == extension@);
        }
    }
    answer
}

/// The name under which a file belongs to the shapefile with the given stem: the shapefile's
/// own stem with the file's extension in small letters. A file with another stem, or with an
/// extension that is not a shapefile's, does not belong to it.
pub open spec fn sibling_name(stem: Seq<char>, file: Seq<char>) -> Option<Seq<char>> {
    match extension_of(file) {
        Some(extension) => if text::lower(stem_of(file)) == text::lower(stem)
            && shapefile_sidecar_extensions().contains(text::lower(extension)) {
            Some(stem + "."@ + text::lower(extension))
        } else {
            None
        },
        None => None,
    }
}

pub fn shapefile_sibling_name(stem: &str, file: &str) -> (name: Option<String>)
    ensures
        text::view_of(name) == sibling_name(stem@, file@),
{
    match file_extension(file) {
        Some(extension) => {
            let file_stem = file_stem(file);
            if !text::same_ignoring_case(file_stem.as_str(), stem) {
                return None;
            }
            let extension = text::to_lower(extension.as_str());
            if !is_shapefile_sidecar_extension(extension.as_str()) {
                return None;
            }
            let mut name = stem.to_owned();
            name.append(".");
            name.append(extension.as_str());
            Some(name)
        },
        None => None,
    }
}

/// A file that is read along with a shapefile: its index among the files of the directory, and
/// the name under which it belongs to the shapefile.
#[derive(Debug)]
pub struct SiblingFile {
    pub file: usize,
    pub name: String,
}

pub open spec fn sibling_models(siblings: Seq<SiblingFile>) -> Seq<(usize, Seq<char>)> {
    siblings.map_values(|sibling: SiblingFile| (sibling.file, sibling.name@))
}

/// The files that belong to the shapefile with the given stem, in the given order.
pub open spec fn siblings_of(stem: Seq<char>, files: Seq<Seq<char>>) -> Seq<(usize, Seq<char>)>
    decreases files.len(),
{
    if files.len() == 0 {
        Seq::empty()
    } else {
        let earlier = siblings_of(stem, files.drop_last());
        match sibling_name(stem, files.last()) {
            Some(name) => earlier.push(((files.len() - 1) as usize, name)),
            None => earlier,
        }
    }
}

/// Which of the files beside a shapefile belong to it. `files` are the names of the files in the
/// shapefile's directory.
pub fn shapefile_siblings(stem: &str, files: &Vec<String>) -> (siblings: Vec<SiblingFile>)
    ensures
        sibling_models(siblings@) == siblings_of(stem@, text::views(files@)),
{
    let ghost all = text::views(files@);
    let mut siblings: Vec<SiblingFile> = Vec::new();
    let mut i: usize = 0;
    assert(all.take(0) == Seq::<Seq<char>>::empty());
    assert(sibling_models(siblings@) == siblings_of(stem@, all.take(0)));
    while i < files.len()
        invariant
            all == text::views(files@),
            i <= files@.len(),
            sibling_models(siblings@) == siblings_of(stem@, all.take(i as int)),
        decreases files@.len() - i,
    {
        assert(all.take(i + 1).drop_last() == all.take(i as int));
        let ghost before = sibling_models(siblings@);
        if let Some(name) = shapefile_sibling_name(stem, files[i].as_str()) {
            let ghost model = (i, name@);
            siblings.push(SiblingFile { file: i, name });
            assert(sibling_models(siblings@) == before.push(model));
        }
        i = i + 1;
    }
    assert(all.take(i as int) == all);
    siblings
}

/// A file that was read along with a shapefile.
#[derive(Debug)]
pub struct ShapefileSibling {
    pub name: String,
    pub data: Vec<u8>,
}

pub open spec fn read_views(read: Seq<(String, Option<Vec<u8>>)>) -> Seq<
    (Seq<char>, Option<Seq<u8>>),
> {
    read.map_values(
        |file: (String, Option<Vec<u8>>)|
            (
                file.0@,
                match file.1 {
                    Some(data) => Some(data@),
                    None => None,
                },
            ),
    )
}

pub open spec fn sibling_views(siblings: Seq<ShapefileSibling>) -> Seq<(Seq<char>, Seq<u8>)> {
    siblings.map_values(|sibling: ShapefileSibling| (sibling.name@, sibling.data@))
}

/// The files that could be read, in order. The others are left out.
pub open spec fn readable(read: Seq<(Seq<char>, Option<Seq<u8>>)>) -> Seq<(Seq<char>, Seq<u8>)>
    decreases read.len(),
{
    if read.len() == 0 {
        Seq::empty()
    } else {
        let earlier = readable(read.drop_last());
        match read.last().1 {
            Some(data) => earlier.push((read.last().0, data)),
            None => earlier,
        }
    }
}

/// The siblings of a shapefile from what reading each gave: those that could not be read are left
/// out.
pub fn readable_siblings(read: Vec<(String, Option<Vec<u8>>)>) -> (siblings: Vec<ShapefileSibling>)
    ensures
        sibling_views(siblings@) == readable(read_views(read@)),
{
    let ghost all = read_views(read@);
    let ghost files = read@;
    let mut siblings: Vec<ShapefileSibling> = Vec::new();
    assert(all.take(0) == Seq::<(Seq<char>, Option<Seq<u8>>)>::empty());
    assert(sibling_views(siblings@) == readable(all.take(0)));
    for file in iter: read.into_iter()
        invariant
            iter.seq() == files,
            all == read_views(files),
            sibling_views(siblings@) == readable(all.take(iter.index() as int)),
    {
        let ghost before = sibling_views(siblings@);
        let ghost at = iter.index() as int;
        assert(all.take(at + 1).drop_last() == all.take(at));
        let (name, data) = file;
        assert(all[at].0 == name@);
        if let Some(data) = data {
            let ghost model = (name@, data@);
            siblings.push(ShapefileSibling { name, data });
            assert(sibling_views(siblings@) == before.push(model));
        }
    }
    assert(all.take(all.len() as int) == all);
    siblings
}

/// A sibling's name has exactly the shapefile's stem, and one of the sidecar extensions.
pub proof fn sibling_names_line_up(stem: Seq<char>, file: Seq<char>)
    requires
        stem.len() > 0,
        sibling_name(stem, file) is Some,
    ensures
        stem_of(sibling_name(stem, file)->0) == stem,
        extension_of(sibling_name(stem, file)->0) is Some,
        shapefile_sidecar_extensions().contains(extension_of(sibling_name(stem, file)->0)->0),
{
    let name = sibling_name(stem, file)->0;
    let extension = text::lower(extension_of(file)->0);
    reveal_strlit(".");
    split::lemma_last_position(file, '.');
    split::lemma_last_position(name, '.');
    assert(name == stem + seq!['.'] + extension);
    let dot = split::last_position(file, '.');
    assert forall|i: int| 0 <= i < extension.len() implies #[trigger] extension[i] != '.' by {
        assert(extension_of(file)->0[i] == file[dot + 1 + i]);
        assert(extension[i] == text::lower_char(file[dot + 1 + i]));
    }
    assert(name[stem.len() as int] == '.');
    assert forall|i: int| stem.len() < i < name.len() implies name[i] != '.' by {
        assert(name[i] == extension[i - stem.len() - 1]);
    }
    assert(split::last_position(name, '.') == stem.len());
    reveal_strlit("..");
    assert(name.take(stem.len() as int) == stem);
    assert(name.skip((stem.len() + 1) as int) == extension);
    lemma_sidecar_extensions_not_empty(extension);
}

proof fn lemma_sidecar_extensions_not_empty(extension: Seq<char>)
    requires
        shapefile_sidecar_extensions().contains(extension),
    ensures
        extension.len() == 3,
{
    reveal_strlit("shx");
    reveal_strlit("dbf");
    reveal_strlit("prj");
    reveal_strlit("cpg");
    reveal_strlit("sbn");
    reveal_strlit("sbx");
    reveal_strlit("qix");
    reveal_strlit("qpj");
    reveal_strlit("cst");
    reveal_strlit("aih");
    reveal_strlit("ain");
    reveal_strlit("atx");
    reveal_strlit("ixs");
    reveal_strlit("mxs");
    reveal_strlit("fbn");
    reveal_strlit("fbx");
}

// ---------------------------------------------------------------------------
// Laws

/// A name is divided at its last dot into its stem and its extension, unless it begins there.
pub proof fn names_are_divided_at_their_last_dot(stem: Seq<char>, extension: Seq<char>)
    requires
        !extension.contains('.'),
    ensures
        stem.len() > 0 && stem + seq!['.'] + extension != ".."@ ==> {
            &&& stem_of(stem + seq!['.'] + extension) == stem
            &&& extension_of(stem + seq!['.'] + extension) == Some(extension)
        },
        stem_of(extension) == extension,
        extension_of(extension) is None,
        stem_of(seq!['.'] + extension) == seq!['.'] + extension,
        extension_of(seq!['.'] + extension) is None,
        stem_of(".."@) == ".."@,
        extension_of(".."@) is None,
{
    let name = stem + seq!['.'] + extension;
    split::the_end_behind_the_last_is_found(stem, '.', extension);
    split::lemma_last_position(extension, '.');
    split::the_end_behind_the_last_is_found(Seq::empty(), '.', extension);
    assert(Seq::<char>::empty() + seq!['.'] + extension == seq!['.'] + extension);
    assert(name.take(stem.len() as int) == stem);
    assert(name.skip(stem.len() as int + 1) == extension);
    assert(split::last_position(extension, '.') == -1) by {
        let at = split::last_position(extension, '.');
        if at >= 0 {
            assert(extension[at] == '.');
        }
    }
}

/// The name of a file is what stands behind the last separator of its path.
pub proof fn file_names_stand_behind_the_last_separator(
    directory: Seq<char>,
    separator: char,
    name: Seq<char>,
)
    requires
        separator == '/' || separator == '\\',
        name.len() > 0,
        name != "."@,
        name != ".."@,
        !name.contains('/'),
        !name.contains('\\'),
    ensures
        end_name(directory + seq![separator] + name, either()) == Some(name),
        separator == '/' ==> end_name(directory + seq![separator] + name, slash()) == Some(name),
        end_name(name, either()) == Some(name),
        end_name(name, slash()) == Some(name),
{
    lemma_behind_divider(directory, separator, name, either());
    if separator == '/' {
        lemma_behind_divider(directory, separator, name, slash());
    }
    lemma_undivided(name, either());
    lemma_undivided(name, slash());
}

proof fn lemma_behind_divider(
    directory: Seq<char>,
    separator: char,
    name: Seq<char>,
    divides: spec_fn(char) -> bool,
)
    requires
        divides(separator),
        name.len() > 0,
        name != "."@,
        forall|i: int| 0 <= i < name.len() ==> !divides(#[trigger] name[i]),
    ensures
        end_part(directory + seq![separator] + name, divides) == name,
{
    let path = directory + seq![separator] + name;
    reveal_strlit(".");
    assert(path.last() == name[name.len() - 1]);
    if name.len() >= 2 {
        assert(path[path.len() - 2] == name[name.len() - 2]);
    } else if name[0] == '.' {
        assert(name == "."@);
    }
    assert(without_end(path, divides) == path);
    lemma_last_divider(path, divides);
    let at = last_divider(path, divides);
    assert(path[directory.len() as int] == separator);
    if at > directory.len() {
        assert(path[at] == name[at - directory.len() - 1]);
    }
    assert(path.skip(directory.len() as int + 1) == name);
}

proof fn lemma_undivided(name: Seq<char>, divides: spec_fn(char) -> bool)
    requires
        name.len() > 0,
        forall|i: int| 0 <= i < name.len() ==> !divides(#[trigger] name[i]),
    ensures
        end_part(name, divides) == name,
{
    assert(!divides(name[name.len() - 1]));
    if name.len() >= 2 {
        assert(!divides(name[name.len() - 2]));
    }
    assert(without_end(name, divides) == name);
    lemma_last_divider(name, divides);
    let at = last_divider(name, divides);
    if at >= 0 {
        assert(!divides(name[at]));
    }
    assert(name.skip(0) == name);
}

/// A drive in front of a path is no part of its file name on Windows, and where every platform
/// gives a path the same file name, that is its name.
pub proof fn drives_are_no_part_of_the_name(letter: char, rest: Seq<char>, path: Seq<char>)
    requires
        'a' <= letter <= 'z' || 'A' <= letter <= 'Z',
        path.len() >= 2 ==> path[1] != ':' && path[1] != '/' && path[1] != '\\',
    ensures
        windows_name(seq![letter, ':'] + rest) == Some(end_name(rest, either())),
        windows_name(path) == Some(end_name(path, either())),
        end_name(path, either()) == end_name(path, slash()) ==> plain_file_name(path) == end_name(
            path,
            slash(),
        ),
{
    let whole = seq![letter, ':'] + rest;
    assert(whole[0] == letter && whole[1] == ':');
    assert(whole.skip(2) == rest);
}

/// What stands behind the last separator of either kind is the last part of a path, on every
/// platform, and is plainly a name unless the path begins like the address of another host, or
/// with a drive.
pub proof fn names_behind_a_separator_are_plain(
    directory: Seq<char>,
    separator: char,
    name: Seq<char>,
)
    requires
        separator == '/' || separator == '\\',
        name.len() > 0,
        name != "."@,
        name != ".."@,
        !name.contains('/'),
        !name.contains('\\'),
    ensures
        last_part(directory + seq![separator] + name) == name,
        ({
            let path = directory + seq![separator] + name;
            let apart = |c: char| c == '/' || c == '\\';
            let host = path.len() >= 2 && apart(path[0]) && apart(path[1]);
            let drive = path.len() >= 2 && ('a' <= path[0] <= 'z' || 'A' <= path[0] <= 'Z') && path[1]
                == ':';
            !host && !(drive && name.contains(':')) ==> plain_part(path) == Some(name)
        }),
{
    let path = directory + seq![separator] + name;
    reveal_strlit(".");
    assert(path.last() == name[name.len() - 1]);
    if name.len() >= 2 {
        assert(path[path.len() - 2] == name[name.len() - 2]);
    } else if name[0] == '.' {
        assert(name == "."@);
    }
    assert(without_end(path, slash()) == path);
    lemma_last_divider(path, slash());
    let cut = last_divider(path, slash());
    let segment = end_part(path, slash());
    let at = directory.len() as int;
    assert(path[at] == separator);
    if cut > at {
        assert(path[cut] == name[cut - at - 1]);
    }
    assert(forall|i: int| 0 <= i < segment.len() ==> segment[i] == path[cut + 1 + i]);
    split::lemma_last_position(segment, '\\');
    let last = split::last_position(segment, '\\');
    if last >= 0 && cut + 1 + last > at {
        assert(path[cut + 1 + last] == name[cut + last - at]);
    }
    if separator == '\\' {
        assert(segment[at - cut - 1] == '\\');
        assert(cut + 1 + last == at);
    } else {
        assert(cut == at);
        assert(last == -1);
    }
    assert(segment.skip(last + 1) == name);
}

/// A zip archive has the extension `zip`, in any case.
pub proof fn zip_archives_have_their_extension(extension: Seq<char>, name: Seq<char>)
    ensures
        zip_extension(Some(extension)) <==> text::lower(extension) == "zip"@,
        !zip_extension(None),
        optional_extension(Some(name)) == extension_of(name),
        optional_extension(None) is None,
        optional_stem(Some(name)) == Some(stem_of(name)),
        optional_stem(None) is None,
{
    reveal_strlit("zip");
    assert(text::lower("zip"@) == "zip"@);
}

/// Directories are told apart by their paths with every backslash turned into a slash.
pub proof fn path_keys_turn_backslashes(path: Seq<char>)
    ensures
        path_key(path).len() == path.len(),
        forall|i: int|
            0 <= i < path.len() ==> #[trigger] path_key(path)[i] == if path[i] == '\\' {
                '/'
            } else {
                path[i]
            },
    decreases path.len(),
{
    reveal_strlit("/");
    if path.len() > 0 {
        path_keys_turn_backslashes(path.drop_last());
    }
}

/// A file may be read exactly where its path is from the root or from the root of a drive, is no
/// address of another host, has no segment `..`, and ends in a dot and the extension of a vector
/// file, in any case. Every other path is refused by its name.
pub proof fn local_vector_files_may_be_read(path: Seq<char>)
    ensures
        allowed_local_vector_path(path) <==> {
            let apart = |c: char| c == '/' || c == '\\';
            let segments = split::split(path, split::one_of(seq!['/', '\\']));
            &&& !(path.len() >= 2 && apart(path[0]) && apart(path[1]))
            &&& {
                ||| path.len() >= 1 && path[0] == '/'
                ||| path.len() >= 3 && ('a' <= path[0] <= 'z' || 'A' <= path[0] <= 'Z') && path[1]
                    == ':' && apart(path[2])
            }
            &&& !segments.contains(".."@)
            &&& split::after_last(text::lower(path), '.') is Some
            &&& {
                let extension = split::after_last(text::lower(path), '.')->0;
                ||| extension == "geojson"@
                ||| extension == "json"@
                ||| extension == "gpkg"@
                ||| extension == "geoparquet"@
                ||| extension == "parquet"@
                ||| extension == "fgb"@
                ||| extension == "flatgeobuf"@
                ||| extension == "csv"@
                ||| extension == "tsv"@
                ||| extension == "kml"@
                ||| extension == "kmz"@
                ||| extension == "gml"@
                ||| extension == "gpx"@
                ||| extension == "dxf"@
                ||| extension == "tab"@
                ||| extension == "shp"@
                ||| extension == "zip"@
            }
        },
        refusal(path) == "Refusing to read \""@ + path
            + "\": not an absolute local vector file path"@,
{
    let extension = split::after_last(text::lower(path), '.')->0;
    let listed = restorable_vector_extensions();
    assert(listed[0] == "geojson"@);
    assert(listed[1] == "json"@);
    assert(listed[2] == "gpkg"@);
    assert(listed[3] == "geoparquet"@);
    assert(listed[4] == "parquet"@);
    assert(listed[5] == "fgb"@);
    assert(listed[6] == "flatgeobuf"@);
    assert(listed[7] == "csv"@);
    assert(listed[8] == "tsv"@);
    assert(listed[9] == "kml"@);
    assert(listed[10] == "kmz"@);
    assert(listed[11] == "gml"@);
    assert(listed[12] == "gpx"@);
    assert(listed[13] == "dxf"@);
    assert(listed[14] == "tab"@);
    assert(listed[15] == "shp"@);
    assert(listed[16] == "zip"@);
    if listed.contains(extension) {
        let i = choose|i: int| 0 <= i < listed.len() && listed[i] == extension;
        assert(0 <= i < 17);
    }
}

/// A file belongs to a shapefile exactly where it has the same stem, in any case, and one of the
/// extensions of the files beside a shapefile, in any case. It then goes by the shapefile's own
/// stem and by its extension in small letters.
pub proof fn siblings_have_the_stem_and_a_sidecar_extension(
    stem: Seq<char>,
    file_stem: Seq<char>,
    extension: Seq<char>,
)
    requires
        file_stem.len() > 0,
        !extension.contains('.'),
        file_stem + seq!['.'] + extension != ".."@,
    ensures
        sibling_name(stem, file_stem + seq!['.'] + extension) == if text::lower(file_stem)
            == text::lower(stem) && ({
            let kind = text::lower(extension);
            ||| kind == "shx"@
            ||| kind == "dbf"@
            ||| kind == "prj"@
            ||| kind == "cpg"@
            ||| kind == "sbn"@
            ||| kind == "sbx"@
            ||| kind == "qix"@
            ||| kind == "qpj"@
            ||| kind == "cst"@
            ||| kind == "aih"@
            ||| kind == "ain"@
            ||| kind == "atx"@
            ||| kind == "ixs"@
            ||| kind == "mxs"@
            ||| kind == "fbn"@
            ||| kind == "fbx"@
        }) {
            Some(stem + seq!['.'] + text::lower(extension))
        } else {
            None
        },
{
    names_are_divided_at_their_last_dot(file_stem, extension);
    lemma_sidecars(text::lower(extension));
    reveal_strlit(".");
    assert("."@ == seq!['.']);
}

proof fn lemma_sidecars(kind: Seq<char>)
    ensures
        shapefile_sidecar_extensions().contains(kind) <==> {
            ||| kind == "shx"@
            ||| kind == "dbf"@
            ||| kind == "prj"@
            ||| kind == "cpg"@
            ||| kind == "sbn"@
            ||| kind == "sbx"@
            ||| kind == "qix"@
            ||| kind == "qpj"@
            ||| kind == "cst"@
            ||| kind == "aih"@
            ||| kind == "ain"@
            ||| kind == "atx"@
            ||| kind == "ixs"@
            ||| kind == "mxs"@
            ||| kind == "fbn"@
            ||| kind == "fbx"@
        },
{
    let listed = shapefile_sidecar_extensions();
    assert(listed[0] == "shx"@);
    assert(listed[1] == "dbf"@);
    assert(listed[2] == "prj"@);
    assert(listed[3] == "cpg"@);
    assert(listed[4] == "sbn"@);
    assert(listed[5] == "sbx"@);
    assert(listed[6] == "qix"@);
    assert(listed[7] == "qpj"@);
    assert(listed[8] == "cst"@);
    assert(listed[9] == "aih"@);
    assert(listed[10] == "ain"@);
    assert(listed[11] == "atx"@);
    assert(listed[12] == "ixs"@);
    assert(listed[13] == "mxs"@);
    assert(listed[14] == "fbn"@);
    assert(listed[15] == "fbx"@);
    if listed.contains(kind) {
        let i = choose|i: int| 0 <= i < listed.len() && listed[i] == kind;
        assert(0 <= i < 16);
    }
}

/// The files beside a shapefile belong to it under their very names.
pub proof fn every_sidecar_belongs_to_its_shapefile(stem: Seq<char>, extension: Seq<char>)
    requires
        stem.len() > 0,
        ({
            ||| extension == "shx"@
            ||| extension == "dbf"@
            ||| extension == "prj"@
            ||| extension == "cpg"@
            ||| extension == "sbn"@
            ||| extension == "sbx"@
            ||| extension == "qix"@
            ||| extension == "qpj"@
            ||| extension == "cst"@
            ||| extension == "aih"@
            ||| extension == "ain"@
            ||| extension == "atx"@
            ||| extension == "ixs"@
            ||| extension == "mxs"@
            ||| extension == "fbn"@
            ||| extension == "fbx"@
        }),
    ensures
        sibling_name(stem, stem + "."@ + extension) == Some(stem + "."@ + extension),
{
    reveal_strlit(".");
    reveal_strlit("..");
    reveal_strlit("shx");
    reveal_strlit("dbf");
    reveal_strlit("prj");
    reveal_strlit("cpg");
    reveal_strlit("sbn");
    reveal_strlit("sbx");
    reveal_strlit("qix");
    reveal_strlit("qpj");
    reveal_strlit("cst");
    reveal_strlit("aih");
    reveal_strlit("ain");
    reveal_strlit("atx");
    reveal_strlit("ixs");
    reveal_strlit("mxs");
    reveal_strlit("fbn");
    reveal_strlit("fbx");
    assert("."@ == seq!['.']);
    assert(extension.len() == 3);
    assert forall|i: int| 0 <= i < 3 implies 'a' <= #[trigger] extension[i] <= 'z' by {}
    assert(text::lower(extension) == extension);
    assert(!extension.contains('.'));
    assert((stem + seq!['.'] + extension).len() > ".."@.len());
    siblings_have_the_stem_and_a_sidecar_extension(stem, stem, extension);
}

/// A file without an extension belongs to no shapefile.
pub proof fn files_without_extension_belong_to_none(stem: Seq<char>, file: Seq<char>)
    requires
        !file.contains('.'),
    ensures
        sibling_name(stem, file) is None,
        sibling_name(stem, seq!['.'] + file) is None,
{
    names_are_divided_at_their_last_dot(stem, file);
}

/// Every file of a directory that belongs to the shapefile is read along with it, by its place and
/// under its name there, and in the order of the directory; the others are left alone.
pub proof fn siblings_are_found_in_order(stem: Seq<char>, files: Seq<Seq<char>>, file: Seq<char>)
    requires
        files.len() <= usize::MAX,
    ensures
        siblings_of(stem, Seq::empty()).len() == 0,
        siblings_of(stem, files.push(file)) == if sibling_name(stem, file) is Some {
            siblings_of(stem, files).push((files.len() as usize, sibling_name(stem, file)->0))
        } else {
            siblings_of(stem, files)
        },
{
    assert(files.push(file).drop_last() == files);
}

/// Of the files beside a shapefile those are handed over that could be read, with all their data
/// and in order.
pub proof fn readable_files_are_handed_over(
    read: Seq<(Seq<char>, Option<Seq<u8>>)>,
    name: Seq<char>,
    data: Seq<u8>,
)
    ensures
        readable(Seq::empty()).len() == 0,
        readable(read.push((name, Some(data)))) == readable(read).push((name, data)),
        readable(read.push((name, None))) == readable(read),
{
    assert(read.push((name, Some(data))).drop_last() == read);
    assert(read.push((name, None)).drop_last() == read);
}

/// What is read of a file is told by its name and its data.
pub proof fn files_are_told_by_name_and_data(
    found: Seq<SiblingFile>,
    read: Seq<(String, Option<Vec<u8>>)>,
    handed: Seq<ShapefileSibling>,
    at: int,
)
    ensures
        sibling_models(found).len() == found.len(),
        0 <= at < found.len() ==> sibling_models(found)[at] == (found[at].file, found[at].name@),
        read_views(read).len() == read.len(),
        0 <= at < read.len() ==> read_views(read)[at].0 == read[at].0@ && (read[at].1 is Some
            <==> read_views(read)[at].1 is Some),
        0 <= at < read.len() && read[at].1 is Some ==> read_views(read)[at].1->0 == read[at].1->0@,
        sibling_views(handed).len() == handed.len(),
        0 <= at < handed.len() ==> sibling_views(handed)[at] == (handed[at].name@, handed[at].data@),
{
}

/// A file of a directory is listed with a shapefile exactly where it belongs to it, under the name
/// by which it does.
pub proof fn siblings_are_all_that_belong(
    stem: Seq<char>,
    files: Seq<Seq<char>>,
    file: usize,
    name: Seq<char>,
)
    requires
        files.len() <= usize::MAX,
    ensures
        siblings_of(stem, files).contains((file, name)) <==> file < files.len() && sibling_name(
            stem,
            files[file as int],
        ) == Some(name),
    decreases files.len(),
{
    let all = siblings_of(stem, files);
    if files.len() > 0 {
        let shorter = files.drop_last();
        let earlier = siblings_of(stem, shorter);
        siblings_are_all_that_belong(stem, shorter, file, name);
        if sibling_name(stem, files.last()) is Some {
            let last = ((files.len() - 1) as usize, sibling_name(stem, files.last())->0);
            assert(all == earlier.push(last));
            assert(all[earlier.len() as int] == last);
            if earlier.contains((file, name)) {
                let i = choose|i: int| 0 <= i < earlier.len() && earlier[i] == (file, name);
                assert(all[i] == (file, name));
            }
            if all.contains((file, name)) && !earlier.contains((file, name)) {
                let i = choose|i: int| 0 <= i < all.len() && all[i] == (file, name);
                if i < earlier.len() {
                    assert(earlier[i] == all[i]);
                }
            }
        }
    }
}

} // verus!
