use std::io::Write;

use geolibre_desktop::mbtiles::{
    decompress_tile_data, expanded_gzip_tile, expanded_zlib_tile, find_metadata, number_parts,
    read_mbtiles_metadata, read_vector_source_layers, summarize_metadata, tile_encoding,
    tile_found, tile_row, tile_scheme, tile_type_of, TileEncoding,
};

fn rows(list: &[(&str, &str)]) -> Vec<(String, String)> {
    list.iter().map(|(name, value)| (name.to_string(), value.to_string())).collect()
}

fn gzip(data: &[u8]) -> Vec<u8> {
    let mut encoder = flate2::write::GzEncoder::new(Vec::new(), flate2::Compression::default());
    encoder.write_all(data).unwrap();
    encoder.finish().unwrap()
}

fn zlib(data: &[u8]) -> Vec<u8> {
    let mut encoder = flate2::write::ZlibEncoder::new(Vec::new(), flate2::Compression::default());
    encoder.write_all(data).unwrap();
    encoder.finish().unwrap()
}

#[test]
fn metadata_names_count_in_any_case_and_the_last_value_wins() {
    let table = rows(&[("Name", "a"), ("FORMAT", "png"), ("name", "b")]);
    assert_eq!(find_metadata(&table, "name"), Some("b"));
    assert_eq!(find_metadata(&table, "format"), Some("png"));
    assert_eq!(find_metadata(&table, "bounds"), None);
}

#[test]
fn metadata_are_summarized() {
    let summary = read_mbtiles_metadata(
        "/data/world.mbtiles",
        &rows(&[
            ("name", "World"),
            ("format", "PBF"),
            ("minzoom", "0"),
            ("maxzoom", "14"),
            ("bounds", "-180,-85,180,85"),
            ("center", "0,0,2"),
            ("scheme", "XYZ"),
            ("json", "{\"vector_layers\":[{\"id\":\"water\"},{\"id\":3},{},{\"id\":\"roads\"}]}"),
        ]),
    );
    assert_eq!(summary.name, "World");
    assert_eq!(summary.format, "pbf");
    assert_eq!(summary.tile_type, "vector");
    assert_eq!(summary.source_layers, vec!["water", "roads"]);
    assert_eq!(summary.min_zoom, Some(0));
    assert_eq!(summary.max_zoom, Some(14));
    assert_eq!(summary.bounds.as_deref(), Some("-180,-85,180,85"));
    assert_eq!(summary.center.as_deref(), Some("0,0,2"));
    assert_eq!(summary.scheme, "xyz");
}

#[test]
fn missing_metadata_have_defaults() {
    let summary = read_mbtiles_metadata("/data/world.mbtiles", &vec![]);
    assert_eq!(summary.name, "world");
    assert_eq!(summary.format, "pbf");
    assert_eq!(summary.tile_type, "vector");
    assert_eq!(summary.source_layers, Vec::<String>::new());
    assert_eq!(summary.min_zoom, None);
    assert_eq!(summary.bounds, None);
    assert_eq!(summary.scheme, "tms");
    assert_eq!(read_mbtiles_metadata("/data/..", &vec![]).name, "MBTiles Layer");
    assert_eq!(read_mbtiles_metadata("/data/10:15.mbtiles", &vec![]).name, "10:15");
    let blank = summarize_metadata(&rows(&[("name", "  "), ("maxzoom", "x")]), "fallback");
    assert_eq!(blank.name, "fallback");
    assert_eq!(blank.max_zoom, None);
    let padded = summarize_metadata(&rows(&[("name", " a ")]), "fallback");
    assert_eq!(padded.name, " a ");
}

#[test]
fn formats_are_vector_or_raster() {
    for format in ["pbf", "mvt", "protobuf"] {
        assert_eq!(tile_type_of(format), "vector");
    }
    for format in ["png", "jpg", "webp", "PBF", ""] {
        assert_eq!(tile_type_of(format), "raster");
    }
}

#[test]
fn layers_come_from_a_document() {
    assert_eq!(read_vector_source_layers(None), Vec::<String>::new());
    assert_eq!(read_vector_source_layers(Some("{")), Vec::<String>::new());
    assert_eq!(read_vector_source_layers(Some("{\"vector_layers\":{}}")), Vec::<String>::new());
    assert_eq!(
        read_vector_source_layers(Some("{\"vector_layers\":[\"a\",{\"id\":\"b\"}]}")),
        vec!["b"]
    );
}

#[test]
fn lists_of_numbers_are_divided() {
    assert_eq!(number_parts(" 1, -2.5 ,3"), vec!["1", "-2.5", "3"]);
    assert_eq!(number_parts(""), vec![""]);
}

#[test]
fn rows_are_counted_from_the_bottom_or_the_top() {
    assert_eq!(tile_scheme(None), "tms");
    assert_eq!(tile_scheme(Some("XYZ")), "xyz");
    assert_eq!(tile_row("xyz", 3, 5), Ok(Some(5)));
    assert_eq!(tile_row("xyz", 4000, 5), Ok(Some(5)));
    assert_eq!(tile_row("tms", 3, 5), Ok(Some(2)));
    assert_eq!(tile_row("tms", 3, 2), Ok(Some(5)));
    assert_eq!(tile_row("tms", 0, 0), Ok(Some(0)));
    assert_eq!(tile_row("tms", 3, 8), Ok(None));
    assert_eq!(tile_row("other", 62, 0), Ok(Some((1i64 << 62) - 1)));
    assert_eq!(tile_row("tms", 64, 0), Err("Tile zoom level is too large".to_string()));
    assert_eq!(tile_row("tms", u32::MAX, 0), Err("Tile zoom level is too large".to_string()));
}

#[test]
fn mirroring_a_row_twice_gives_it_back() {
    for y in 0..16u32 {
        let stored = tile_row("tms", 4, y).unwrap().unwrap();
        assert!(stored < 16);
        assert_eq!(tile_row("tms", 4, stored as u32), Ok(Some(i64::from(y))));
    }
}

#[test]
fn tiles_are_expanded_by_their_first_bytes() {
    let content = b"tile content tile content".to_vec();
    assert_eq!(decompress_tile_data(gzip(&content)), Ok(content.clone()));
    assert_eq!(decompress_tile_data(zlib(&content)), Ok(content.clone()));
    assert_eq!(decompress_tile_data(content.clone()), Ok(content.clone()));
    assert_eq!(decompress_tile_data(vec![]), Ok(vec![]));
    let png = vec![0x89, b'P', b'N', b'G'];
    assert_eq!(decompress_tile_data(png.clone()), Ok(png));
}

#[test]
fn broken_gzip_fails_and_broken_zlib_is_kept() {
    let error = decompress_tile_data(vec![0x1f, 0x8b, 1, 2, 3]).unwrap_err();
    assert!(error.starts_with("Could not decompress gzip tile: "));
    assert_eq!(decompress_tile_data(vec![0x78, 1, 2, 3]), Ok(vec![0x78, 1, 2, 3]));
    assert_eq!(decompress_tile_data(vec![0x78, 1]), Ok(vec![0x78, 1]));
    assert_eq!(decompress_tile_data(vec![0x1f]), Ok(vec![0x1f]));
    assert_eq!(tile_encoding(&vec![0x1f, 0x8b]), TileEncoding::Gzip);
    assert_eq!(tile_encoding(&vec![0x78, 0, 0]), TileEncoding::Zlib);
    assert_eq!(tile_encoding(&vec![0x78, 0]), TileEncoding::Plain);
    assert_eq!(
        expanded_gzip_tile(Err("cut".into())),
        Err("Could not decompress gzip tile: cut".to_string())
    );
    assert_eq!(expanded_zlib_tile(vec![1], Some(vec![2])), vec![2]);
    assert_eq!(expanded_zlib_tile(vec![1], None), vec![1]);
}

#[test]
fn a_missing_tile_is_empty() {
    assert_eq!(tile_found(None), Ok(vec![]));
    assert_eq!(tile_found(Some(gzip(b"x"))), Ok(b"x".to_vec()));
}
