//! Tile archives in the MBTiles format: what their metadata say, where a tile lies in them, and
//! how a tile's data are decompressed.

use vstd::prelude::*;

use crate::json::Json;
use crate::{archive, json, numbers, paths, split, text};

verus! {

// ---------------------------------------------------------------------------
// Metadata

/// What the metadata of a tile archive say. Bounds and center are lists of numbers, as text.
#[derive(Debug)]
pub struct MbtilesMetadata {
    pub name: String,
    pub format: String,
    pub tile_type: String,
    pub source_layers: Vec<String>,
    pub min_zoom: Option<i64>,
    pub max_zoom: Option<i64>,
    pub bounds: Option<String>,
    pub center: Option<String>,
    pub scheme: String,
}

pub struct MetadataModel {
    pub name: Seq<char>,
    pub format: Seq<char>,
    pub tile_type: Seq<char>,
    pub source_layers: Seq<Seq<char>>,
    pub min_zoom: Option<int>,
    pub max_zoom: Option<int>,
    pub bounds: Option<Seq<char>>,
    pub center: Option<Seq<char>>,
    pub scheme: Seq<char>,
}

pub open spec fn integer_of(value: Option<i64>) -> Option<int> {
    match value {
        Some(value) => Some(value as int),
        None => None,
    }
}

impl MbtilesMetadata {
    pub open spec fn model(self) -> MetadataModel {
        MetadataModel {
            name: self.name@,
            format: self.format@,
            tile_type: self.tile_type@,
            source_layers: text::views(self.source_layers@),
            min_zoom: integer_of(self.min_zoom),
            max_zoom: integer_of(self.max_zoom),
            bounds: text::view_of(self.bounds),
            center: text::view_of(self.center),
            scheme: self.scheme@,
        }
    }
}

/// The rows of a metadata table: names and values.
pub open spec fn row_views(rows: Seq<(String, String)>) -> Seq<(Seq<char>, Seq<char>)> {
    rows.map_values(|row: (String, String)| (row.0@, row.1@))
}

/// The value of a metadata table under a name, which counts in any case. Of several the last
/// counts.
pub open spec fn metadata_value(rows: Seq<(Seq<char>, Seq<char>)>, name: Seq<char>) -> Option<
    Seq<char>,
>
    decreases rows.len(),
{
    if rows.len() == 0 {
        None
    } else if text::lower(rows.last().0) == name {
        Some(rows.last().1)
    } else {
        metadata_value(rows.drop_last(), name)
    }
}

/// The value of a metadata table under `name`, which is in small letters.
pub fn find_metadata<'a>(rows: &'a Vec<(String, String)>, name: &str) -> (value: Option<&'a str>)
    ensures
        text::str_view_of(value) == metadata_value(row_views(rows@), name@),
{
    let ghost all = row_views(rows@);
    let mut i: usize = rows.len();
    assert(all.take(i as int) == all);
    while i > 0
        invariant
            all == row_views(rows@),
            i <= rows@.len(),
            metadata_value(all, name@) == metadata_value(all.take(i as int), name@),
        decreases i,
    {
        assert(all.take(i as int).drop_last() == all.take(i - 1));
        let folded = text::to_lower(rows[i - 1].0.as_str());
        if text::same_text(folded.as_str(), name) {
            return Some(rows[i - 1].1.as_str());
        }
        i = i - 1;
    }
    None
}

/// A value in small letters, or what stands for a missing one.
pub open spec fn folded_or(value: Option<Seq<char>>, missing: Seq<char>) -> Seq<char> {
    match value {
        Some(value) => text::lower(value),
        None => missing,
    }
}

fn fold_or(value: Option<&str>, missing: &str) -> (folded: String)
    ensures
        folded@ == folded_or(text::str_view_of(value), missing@),
{
    match value {
        Some(value) => text::to_lower(value),
        None => missing.to_owned(),
    }
}

/// The kind of tiles that a format stands for.
pub open spec fn tile_kind(format: Seq<char>) -> Seq<char> {
    if format == "pbf"@ || format == "mvt"@ || format == "protobuf"@ {
        "vector"@
    } else {
        "raster"@
    }
}

pub fn tile_type_of(format: &str) -> (kind: &'static str)
    ensures
        kind@ == tile_kind(format@),
{
    if text::same_text(format, "pbf") || text::same_text(format, "mvt") || text::same_text(
        format,
        "protobuf",
    ) {
        "vector"
    } else {
        "raster"
    }
}

/// The name of a tile archive: the one in its metadata, unless that is blank.
pub open spec fn layer_name(name: Option<Seq<char>>, fallback: Seq<char>) -> Seq<char> {
    match name {
        Some(name) => if text::trim(name).len() > 0 {
            name
        } else {
            fallback
        },
        None => fallback,
    }
}

fn name_or(name: Option<&str>, fallback: &str) -> (chosen: String)
    ensures
        chosen@ == layer_name(text::str_view_of(name), fallback@),
{
    match name {
        Some(name) => {
            let trimmed = text::trimmed(name);
            if trimmed.as_str().is_empty() {
                fallback.to_owned()
            } else {
                name.to_owned()
            }
        },
        None => fallback.to_owned(),
    }
}

/// The 64-bit integer that a value stands for.
pub open spec fn zoom_level(value: Option<Seq<char>>) -> Option<int> {
    match value {
        Some(value) => numbers::bounded_integer(value, i64::MIN as int, i64::MAX as int),
        None => None,
    }
}

fn parse_zoom(value: Option<&str>) -> (zoom: Option<i64>)
    ensures
        integer_of(zoom) == zoom_level(text::str_view_of(value)),
{
    match value {
        Some(value) => numbers::parse_i64(value),
        None => None,
    }
}

/// The texts under `id` in a list of layers.
pub open spec fn layer_ids(layers: Seq<json::Tree>) -> Seq<Seq<char>>
    decreases layers.len(),
{
    if layers.len() == 0 {
        Seq::empty()
    } else {
        let earlier = layer_ids(layers.drop_last());
        match json::string_value(json::member(layers.last(), "id"@)) {
            Some(id) => earlier.push(id),
            None => earlier,
        }
    }
}

/// The layers that the document in the metadata describes.
pub open spec fn described_layers(document: Option<json::Tree>) -> Seq<Seq<char>> {
    match document {
        Some(document) => match json::member(document, "vector_layers"@) {
            Some(json::Tree::List(layers)) => layer_ids(layers),
            _ => Seq::empty(),
        },
        None => Seq::empty(),
    }
}

/// The layers that the document in the metadata describes, by their identifiers.
pub fn vector_source_layers(document: &Json) -> (layers: Vec<String>)
    ensures
        text::views(layers@) == described_layers(Some(document.tree())),
{
    let mut ids: Vec<String> = Vec::new();
    assert(text::views(ids@) == Seq::<Seq<char>>::empty());
    if let Some(member) = document.member("vector_layers") {
        if let Some(layers) = member.as_list() {
            let ghost trees = member.tree()->List_0;
            let mut i: usize = 0;
            assert(trees.take(0) == Seq::<json::Tree>::empty());
            assert(trees.len() == layers@.len());
            while i < layers.len()
                invariant
                    *member == Json::List(*layers),
                    trees == member.tree()->List_0,
                    trees.len() == layers@.len(),
                    i <= layers@.len(),
                    text::views(ids@) == layer_ids(trees.take(i as int)),
                decreases layers@.len() - i,
            {
                assert(trees.take(i + 1).drop_last() == trees.take(i as int));
                assert(trees[i as int] == layers@[i as int].tree());
                let ghost before = text::views(ids@);
                if let Some(field) = layers[i].member("id") {
                    if let Some(id) = field.as_text() {
                        ids.push(id.clone());
                        assert(text::views(ids@) == before.push(id@));
                    }
                }
                i = i + 1;
            }
            assert(trees.take(i as int) == trees);
        }
    }
    ids
}

/// The document that a text stands for, where there is a text.
pub open spec fn optional_document(document: Option<Seq<char>>) -> Option<json::Tree> {
    match document {
        Some(document) => json::document_of(document),
        None => None,
    }
}

/// The layers that the document in the metadata describes, where there is one.
pub fn read_vector_source_layers(document: Option<&str>) -> (layers: Vec<String>)
    ensures
        text::views(layers@) == described_layers(optional_document(text::str_view_of(document))),
{
    if let Some(document) = document {
        if let Some(document) = json::parse_json(document) {
            return vector_source_layers(&document);
        }
    }
    let layers: Vec<String> = Vec::new();
    assert(text::views(layers@) == Seq::<Seq<char>>::empty());
    layers
}

/// What the metadata of a tile archive say, where `document` is the one that they hold and
/// `fallback` the name of an archive without a name.
pub open spec fn metadata_summary(
    rows: Seq<(Seq<char>, Seq<char>)>,
    fallback: Seq<char>,
    document: Option<json::Tree>,
) -> MetadataModel {
    let format = folded_or(metadata_value(rows, "format"@), "pbf"@);
    MetadataModel {
        name: layer_name(metadata_value(rows, "name"@), fallback),
        format,
        tile_type: tile_kind(format),
        source_layers: described_layers(document),
        min_zoom: zoom_level(metadata_value(rows, "minzoom"@)),
        max_zoom: zoom_level(metadata_value(rows, "maxzoom"@)),
        bounds: metadata_value(rows, "bounds"@),
        center: metadata_value(rows, "center"@),
        scheme: folded_or(metadata_value(rows, "scheme"@), "tms"@),
    }
}

fn owned(value: Option<&str>) -> (copy: Option<String>)
    ensures
        text::view_of(copy) == text::str_view_of(value),
{
    match value {
        Some(value) => Some(value.to_owned()),
        None => None,
    }
}

/// What the metadata of a tile archive say.
pub fn summarize_metadata(rows: &Vec<(String, String)>, fallback: &str) -> (metadata:
    MbtilesMetadata)
    ensures
        metadata.model() == metadata_summary(
            row_views(rows@),
            fallback@,
            optional_document(metadata_value(row_views(rows@), "json"@)),
        ),
{
    let format = fold_or(find_metadata(rows, "format"), "pbf");
    let tile_type = tile_type_of(format.as_str()).to_owned();
    MbtilesMetadata {
        name: name_or(find_metadata(rows, "name"), fallback),
        format,
        tile_type,
        source_layers: read_vector_source_layers(find_metadata(rows, "json")),
        min_zoom: parse_zoom(find_metadata(rows, "minzoom")),
        max_zoom: parse_zoom(find_metadata(rows, "maxzoom")),
        bounds: owned(find_metadata(rows, "bounds")),
        center: owned(find_metadata(rows, "center")),
        scheme: fold_or(find_metadata(rows, "scheme"), "tms"),
    }
}

/// The name of a tile archive whose metadata name none: the stem of its file.
pub open spec fn stem_or_default(stem: Option<Seq<char>>) -> Seq<char> {
    match stem {
        Some(stem) => stem,
        None => "MBTiles Layer"@,
    }
}

/// What the metadata of the tile archive at `path` say.
pub fn read_mbtiles_metadata(path: &str, rows: &Vec<(String, String)>) -> (metadata:
    MbtilesMetadata)
    ensures
        paths::plain_file_name(path@) matches Some(name) ==> metadata.model() == metadata_summary(
            row_views(rows@),
            paths::stem_of(name),
            optional_document(metadata_value(row_views(rows@), "json"@)),
        ),
        exists|name: Option<Seq<char>>|
            #[trigger] paths::file_name_fits(path@, name) && metadata.model() == metadata_summary(
                row_views(rows@),
                stem_or_default(paths::optional_stem(name)),
                optional_document(metadata_value(row_views(rows@), "json"@)),
            ),
{
    let stem = match paths::path_stem(path) {
        Some(stem) => stem,
        None => "MBTiles Layer".to_owned(),
    };
    summarize_metadata(rows, stem.as_str())
}

/// A name of the metadata counts in any case, and of several values the last.
pub proof fn last_metadata_value_counts(
    rows: Seq<(Seq<char>, Seq<char>)>,
    name: Seq<char>,
    value: Seq<char>,
    other: Seq<char>,
)
    ensures
        metadata_value(rows.push((name, value)), text::lower(name)) == Some(value),
        text::lower(name) != other ==> metadata_value(rows.push((name, value)), other)
            == metadata_value(rows, other),
{
    assert(rows.push((name, value)).drop_last() == rows);
}

/// The parts of a list of numbers, without the white space around each.
pub open spec fn list_parts(list: Seq<char>) -> Seq<Seq<char>> {
    split::split(list, split::one_of(seq![','])).map_values(|part: Seq<char>| text::trim(part))
}

/// The parts of a list of numbers, without the white space around each.
pub fn number_parts(list: &str) -> (parts: Vec<String>)
    ensures
        text::views(parts@) == list_parts(list@),
{
    let separators: Vec<char> = vec![','];
    assert(separators@ == seq![',']);
    let raw = split::split_at_any(list, &separators);
    let ghost all = text::views(raw@);
    let mut parts: Vec<String> = Vec::new();
    let mut i: usize = 0;
    while i < raw.len()
        invariant
            all == text::views(raw@),
            i <= raw@.len(),
            parts@.len() == i,
            forall|j: int| 0 <= j < i ==> #[trigger] parts@[j]@ == text::trim(all[j]),
        decreases raw@.len() - i,
    {
        parts.push(text::trimmed(raw[i].as_str()));
        i = i + 1;
    }
    assert(text::views(parts@) == list_parts(list@));
    parts
}

// ---------------------------------------------------------------------------
// Tiles

/// How the rows of a tile archive are counted, by its metadata.
pub fn tile_scheme(value: Option<&str>) -> (scheme: String)
    ensures
        scheme@ == folded_or(text::str_view_of(value), "tms"@),
{
    fold_or(value, "tms")
}

/// How many rows of tiles there are at a zoom level.
pub open spec fn rows_at(zoom: nat) -> nat {
    vstd::arithmetic::power2::pow2(zoom)
}

/// The row of an archive under which the tile in row `y` from the top lies. Unless the rows are
/// counted from the top, they are counted from the bottom.
pub open spec fn stored_row(scheme: Seq<char>, zoom: nat, y: int) -> int {
    if scheme == "xyz"@ {
        y
    } else {
        rows_at(zoom) - 1 - y
    }
}

/// The row of an archive under which a tile lies. There is none for a tile that lies outside of
/// the map, and levels of more than 63 are too large where rows are counted from the bottom.
pub fn tile_row(scheme: &str, zoom: u32, y: u32) -> (row: Result<Option<i64>, String>)
    requires
        scheme@ == "xyz"@ || zoom != 63,
    ensures
        match row {
            Err(message) => scheme@ != "xyz"@ && zoom > 63 && message@
                == "Tile zoom level is too large"@,
            Ok(None) => (scheme@ == "xyz"@ || zoom < 63) && stored_row(scheme@, zoom as nat, y as int)
                < 0,
            Ok(Some(row)) => (scheme@ == "xyz"@ || zoom < 63) && 0 <= row && row == stored_row(
                scheme@,
                zoom as nat,
                y as int,
            ),
        },
{
    if text::same_text(scheme, "xyz") {
        return Ok(Some(y as i64));
    }
    if zoom > 63 {
        return Err("Tile zoom level is too large".to_owned());
    }
    let rows: u64 = 1u64 << zoom;
    proof {
        assert(1u64 << zoom <= 0x4000_0000_0000_0000u64) by (bit_vector)
            requires
                zoom < 63,
        ;
        vstd::bits::lemma_u64_pow2_no_overflow(zoom as nat);
        vstd::bits::lemma_u64_shl_is_mul(1u64, zoom as u64);
        assert(rows == rows_at(zoom as nat));
    }
    let row: i64 = (rows as i64) - 1 - (y as i64);
    if row < 0 {
        Ok(None)
    } else {
        Ok(Some(row))
    }
}

/// Counting rows from the bottom mirrors the map: every row on the map is stored under a row on
/// the map, mirroring twice gives the row back, and different rows are stored apart.
pub proof fn rows_are_mirrored(zoom: nat, y: int, other: int)
    requires
        0 <= y < rows_at(zoom),
    ensures
        0 <= stored_row("tms"@, zoom, y) < rows_at(zoom),
        stored_row("tms"@, zoom, stored_row("tms"@, zoom, y)) == y,
        y != other ==> stored_row("tms"@, zoom, y) != stored_row("tms"@, zoom, other),
{
    reveal_strlit("tms");
    reveal_strlit("xyz");
    assert("tms"@[0] != "xyz"@[0]);
}

/// How the data of a tile are compressed.
#[derive(Debug, Clone, Copy, PartialEq, Eq, Structural)]
pub enum TileEncoding {
    Gzip,
    Zlib,
    Plain,
}

/// How the data of a tile are compressed, by their first bytes.
pub open spec fn encoding_of(data: Seq<u8>) -> TileEncoding {
    if data.len() >= 2 && data[0] == 0x1f && data[1] == 0x8b {
        TileEncoding::Gzip
    } else if data.len() > 2 && data[0] == 0x78 {
        TileEncoding::Zlib
    } else {
        TileEncoding::Plain
    }
}

pub fn tile_encoding(data: &Vec<u8>) -> (encoding: TileEncoding)
    ensures
        encoding == encoding_of(data@),
{
    if data.len() >= 2 && data[0] == 0x1f && data[1] == 0x8b {
        TileEncoding::Gzip
    } else if data.len() > 2 && data[0] == 0x78 {
        TileEncoding::Zlib
    } else {
        TileEncoding::Plain
    }
}

/// The content of a tile with gzip data, where `content` is what they expand to.
pub open spec fn gzip_content(content: Result<Seq<u8>, Seq<char>>) -> Result<Seq<u8>, Seq<char>> {
    match content {
        Ok(content) => Ok(content),
        Err(error) => Err("Could not decompress gzip tile: "@ + error),
    }
}

/// The content of a tile with zlib data, where `content` is what they expand to: data that only
/// look compressed are the content themselves.
pub open spec fn zlib_content(data: Seq<u8>, content: Option<Seq<u8>>) -> Seq<u8> {
    match content {
        Some(content) => content,
        None => data,
    }
}

/// The content of a tile.
pub open spec fn tile_content(
    data: Seq<u8>,
    gunzipped: Result<Seq<u8>, Seq<char>>,
    inflated: Option<Seq<u8>>,
) -> Result<Seq<u8>, Seq<char>> {
    match encoding_of(data) {
        TileEncoding::Gzip => gzip_content(gunzipped),
        TileEncoding::Zlib => Ok(zlib_content(data, inflated)),
        TileEncoding::Plain => Ok(data),
    }
}

/// The content of a tile from what its gzip data expanded to.
pub fn expanded_gzip_tile(content: Result<Vec<u8>, String>) -> (tile: Result<Vec<u8>, String>)
    ensures
        archive::content_view(tile) == gzip_content(archive::content_view(content)),
{
    match content {
        Ok(content) => Ok(content),
        Err(error) => Err(text::chained("Could not decompress gzip tile: ", error.as_str())),
    }
}

/// The content of a tile from what its zlib data expanded to.
pub fn expanded_zlib_tile(data: Vec<u8>, content: Option<Vec<u8>>) -> (tile: Vec<u8>)
    ensures
        tile@ == zlib_content(data@, archive::optional_content(content)),
{
    match content {
        Some(content) => content,
        None => data,
    }
}

/// The content of a tile.
pub fn decompress_tile_data(data: Vec<u8>) -> (tile: Result<Vec<u8>, String>)
    ensures
        archive::content_view(tile) == tile_content(
            data@,
            archive::gunzipped(data@),
            archive::inflated(data@),
        ),
{
    match tile_encoding(&data) {
        TileEncoding::Gzip => expanded_gzip_tile(archive::gunzip(data.as_slice())),
        TileEncoding::Zlib => {
            let content = archive::inflate(data.as_slice());
            Ok(expanded_zlib_tile(data, content))
        },
        TileEncoding::Plain => Ok(data),
    }
}

/// Only gzip data can fail to be expanded; all that is not compressed is kept as it is.
pub proof fn plain_tiles_are_kept(
    data: Seq<u8>,
    gunzipped: Result<Seq<u8>, Seq<char>>,
    inflated: Option<Seq<u8>>,
)
    ensures
        encoding_of(data) == TileEncoding::Plain ==> tile_content(data, gunzipped, inflated)
            == Ok::<Seq<u8>, Seq<char>>(data),
        tile_content(data, gunzipped, inflated) is Err ==> encoding_of(data) == TileEncoding::Gzip
            && gunzipped is Err,
{
}

/// The content of a tile that was looked up: empty where there is none.
pub open spec fn found_tile(data: Option<Seq<u8>>) -> Result<Seq<u8>, Seq<char>> {
    match data {
        Some(data) => tile_content(data, archive::gunzipped(data), archive::inflated(data)),
        None => Ok(Seq::empty()),
    }
}

/// The content of a tile that was looked up: empty where there is none.
pub fn tile_found(data: Option<Vec<u8>>) -> (tile: Result<Vec<u8>, String>)
    ensures
        archive::content_view(tile) == found_tile(archive::optional_content(data)),
{
    match data {
        Some(data) => decompress_tile_data(data),
        None => Ok(Vec::new()),
    }
}

// ---------------------------------------------------------------------------
// Laws

/// The value under a name is that of the last row whose name is the same in small letters.
pub proof fn the_last_row_under_a_name_counts(rows: Seq<(String, String)>, name: Seq<char>, at: int)
    ensures
        0 <= at < rows.len() && text::lower(rows[at].0@) == name && (forall|i: int|
            at < i < rows.len() ==> text::lower((#[trigger] rows[i]).0@) != name)
            ==> metadata_value(row_views(rows), name) == Some(rows[at].1@),
        (forall|i: int| 0 <= i < rows.len() ==> text::lower((#[trigger] rows[i]).0@) != name)
            ==> metadata_value(row_views(rows), name) is None,
    decreases rows.len(),
{
    if rows.len() > 0 {
        let before = rows.drop_last();
        assert(row_views(rows).drop_last() == row_views(before));
        assert(forall|i: int| 0 <= i < before.len() ==> before[i] == rows[i]);
        if at < before.len() {
            the_last_row_under_a_name_counts(before, name, at);
        } else {
            the_last_row_under_a_name_counts(before, name, -1);
        }
        assert(row_views(rows).last() == (rows[rows.len() - 1].0@, rows[rows.len() - 1].1@));
    }
}

/// A summary says of an archive what its metadata hold: the format in small letters, or `pbf`; the
/// kind of the tiles, which are vectors exactly where that format is `pbf`, `mvt` or `protobuf`,
/// and else images; how rows are counted, in small letters, or `tms`; the name, unless it is
/// blank; and the bounds and the center as they stand.
pub proof fn summaries_say_what_the_metadata_hold(
    metadata: MbtilesMetadata,
    rows: Seq<(String, String)>,
    fallback: Seq<char>,
    document: Option<json::Tree>,
)
    requires
        metadata.model() == metadata_summary(row_views(rows), fallback, document),
    ensures
        metadata.format@ == if metadata_value(row_views(rows), "format"@) is Some {
            text::lower(metadata_value(row_views(rows), "format"@)->0)
        } else {
            "pbf"@
        },
        metadata.tile_type@ == "vector"@ <==> metadata.format@ == "pbf"@ || metadata.format@
            == "mvt"@ || metadata.format@ == "protobuf"@,
        metadata.tile_type@ == "vector"@ || metadata.tile_type@ == "raster"@,
        metadata.scheme@ == if metadata_value(row_views(rows), "scheme"@) is Some {
            text::lower(metadata_value(row_views(rows), "scheme"@)->0)
        } else {
            "tms"@
        },
        metadata.name@ == if metadata_value(row_views(rows), "name"@) is Some && text::trim(
            metadata_value(row_views(rows), "name"@)->0,
        ).len() > 0 {
            metadata_value(row_views(rows), "name"@)->0
        } else {
            fallback
        },
        text::view_of(metadata.bounds) == metadata_value(row_views(rows), "bounds"@),
        text::view_of(metadata.center) == metadata_value(row_views(rows), "center"@),
{
    reveal_strlit("vector");
    reveal_strlit("raster");
    assert("vector"@[0] != "raster"@[0]);
}

/// The zoom levels of a summary are the numbers under `minzoom` and `maxzoom`, where these are
/// integers of 64 bits.
pub proof fn zoom_levels_are_read(
    metadata: MbtilesMetadata,
    rows: Seq<(String, String)>,
    fallback: Seq<char>,
    document: Option<json::Tree>,
)
    requires
        metadata.model() == metadata_summary(row_views(rows), fallback, document),
    ensures
        ({
            let low = metadata_value(row_views(rows), "minzoom"@);
            let high = metadata_value(row_views(rows), "maxzoom"@);
            let least = -0x8000_0000_0000_0000int;
            let most = 0x7fff_ffff_ffff_ffffint;
            &&& metadata.min_zoom is Some <==> low is Some && numbers::bounded_integer(
                low->0,
                least,
                most,
            ) is Some
            &&& metadata.min_zoom is Some ==> numbers::bounded_integer(low->0, least, most) == Some(
                metadata.min_zoom->0 as int,
            )
            &&& metadata.max_zoom is Some <==> high is Some && numbers::bounded_integer(
                high->0,
                least,
                most,
            ) is Some
            &&& metadata.max_zoom is Some ==> numbers::bounded_integer(high->0, least, most)
                == Some(metadata.max_zoom->0 as int)
        }),
{
}

/// The layers of a summary are the texts under `id` of the list under `vector_layers`, in its
/// order; a layer without one is passed over, and without such a list there are none.
pub proof fn layers_are_told_by_their_ids(
    metadata: MbtilesMetadata,
    rows: Seq<(String, String)>,
    fallback: Seq<char>,
    document: json::Tree,
    layers: Seq<json::Tree>,
    layer: json::Tree,
    id: Seq<char>,
)
    ensures
        metadata.model() == metadata_summary(row_views(rows), fallback, None) ==> text::views(
            metadata.source_layers@,
        ).len() == 0,
        metadata.model() == metadata_summary(row_views(rows), fallback, Some(document))
            ==> text::views(metadata.source_layers@) == described_layers(Some(document)),
        json::member(document, "vector_layers"@) == Some(json::Tree::List(layers))
            ==> described_layers(Some(document)) == layer_ids(layers),
        !(json::member(document, "vector_layers"@) matches Some(json::Tree::List(_)))
            ==> described_layers(Some(document)).len() == 0,
        layer_ids(Seq::empty()).len() == 0,
        json::member(layer, "id"@) == Some(json::Tree::Text(id)) ==> layer_ids(layers.push(layer))
            == layer_ids(layers).push(id),
        !(json::member(layer, "id"@) matches Some(json::Tree::Text(_))) ==> layer_ids(
            layers.push(layer),
        ) == layer_ids(layers),
        optional_document(Some(id)) == json::document_of(id),
        optional_document(None) is None,
{
    assert(layers.push(layer).drop_last() == layers);
}

/// An archive without a name is called by the stem of its file, or `MBTiles Layer` where that has
/// none.
pub proof fn nameless_archives_are_called_by_their_file(stem: Seq<char>)
    ensures
        stem_or_default(Some(stem)) == stem,
        stem_or_default(None) == "MBTiles Layer"@,
        folded_or(Some(stem), "tms"@) == text::lower(stem),
        folded_or(None, "tms"@) == "tms"@,
        tile_kind(stem) == if stem == "pbf"@ || stem == "mvt"@ || stem == "protobuf"@ {
            "vector"@
        } else {
            "raster"@
        },
{
}

/// A list of numbers is divided at its commas, and no part has white space around it.
pub proof fn lists_are_divided_at_commas(left: Seq<char>, right: Seq<char>, part: Seq<char>)
    requires
        !part.contains(','),
    ensures
        list_parts(left + seq![','] + right) == list_parts(left) + list_parts(right),
        list_parts(part) == seq![text::trim(part)],
{
    let commas = split::one_of(seq![',']);
    assert(seq![','].contains(',')) by {
        assert(seq![','][0] == ',');
    }
    split::a_separator_divides(left, ',', right, commas);
    assert(list_parts(left + seq![','] + right) == list_parts(left) + list_parts(right));
    assert forall|j: int| 0 <= j < part.len() implies !commas(#[trigger] part[j]) by {
        if seq![','].contains(part[j]) {
            assert(part[j] == ',');
        }
    }
    split::split_parts_hold_no_separator(part, commas);
    assert(list_parts(part) == seq![text::trim(part)]);
}

/// Only rows counted as `xyz` are stored under their own number; by every other scheme the first
/// row from the top is the last. There is one row at level 0, and twice as many at each next one.
pub proof fn rows_are_counted_from_the_bottom(scheme: Seq<char>, zoom: nat, y: int)
    ensures
        stored_row("xyz"@, zoom, y) == y,
        scheme != "xyz"@ ==> stored_row(scheme, zoom, y) + y == rows_at(zoom) - 1,
        rows_at(0) == 1,
        rows_at(zoom + 1) == 2 * rows_at(zoom),
{
    vstd::arithmetic::power2::lemma_pow2_unfold(zoom + 1);
    vstd::arithmetic::power2::lemma2_to64();
}

/// Data that begin with the bytes 31 and 139 are gzip data, and data of more than two bytes that
/// begin with the byte 120 are zlib data; all others are plain.
pub proof fn first_bytes_tell_the_encoding(data: Seq<u8>)
    ensures
        encoding_of(data) == TileEncoding::Gzip <==> data.len() >= 2 && data[0] == 31 && data[1]
            == 139,
        encoding_of(data) == TileEncoding::Zlib <==> data.len() >= 3 && data[0] == 120,
        encoding_of(data) == TileEncoding::Plain <==> !(data.len() >= 2 && data[0] == 31 && data[1]
            == 139) && !(data.len() >= 3 && data[0] == 120),
{
}

/// The content of a tile is what its gzip or zlib data expand to. Gzip data that do not expand are
/// an error; zlib data that do not expand, and all plain data, are the content themselves. A tile
/// that was not found is empty.
pub proof fn tiles_are_expanded_by_their_encoding(
    data: Seq<u8>,
    gunzipped: Result<Seq<u8>, Seq<char>>,
    inflated: Option<Seq<u8>>,
)
    ensures
        data.len() >= 2 && data[0] == 31 && data[1] == 139 ==> tile_content(
            data,
            gunzipped,
            inflated,
        ) == match gunzipped {
            Ok(content) => Ok::<Seq<u8>, Seq<char>>(content),
            Err(error) => Err("Could not decompress gzip tile: "@ + error),
        },
        data.len() >= 3 && data[0] == 120 ==> tile_content(data, gunzipped, inflated) == Ok::<
            Seq<u8>,
            Seq<char>,
        >(
            if inflated is Some {
                inflated->0
            } else {
                data
            },
        ),
        !(data.len() >= 2 && data[0] == 31 && data[1] == 139) && !(data.len() >= 3 && data[0] == 120)
            ==> tile_content(data, gunzipped, inflated) == Ok::<Seq<u8>, Seq<char>>(data),
        found_tile(Some(data)) == tile_content(
            data,
            archive::gunzipped(data),
            archive::inflated(data),
        ),
        found_tile(None) == Ok::<Seq<u8>, Seq<char>>(Seq::empty()),
        gzip_content(gunzipped) == match gunzipped {
            Ok(content) => Ok::<Seq<u8>, Seq<char>>(content),
            Err(error) => Err("Could not decompress gzip tile: "@ + error),
        },
        zlib_content(data, inflated) == if inflated is Some {
            inflated->0
        } else {
            data
        },
{
}

} // verus!
