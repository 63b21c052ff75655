use geolibre_desktop::paths::{
    check_local_vector_path, file_extension, file_stem, is_allowed_local_vector_path,
    is_zip_extension, is_zip_path, normalize_path_key, path_stem, readable_siblings,
    shapefile_sibling_name, shapefile_siblings,
};

#[test]
fn allows_absolute_vector_paths() {
    assert!(is_allowed_local_vector_path("/home/u/cities.geojson"));
    assert!(is_allowed_local_vector_path("C:\\Users\\smith\\Mile_Markers.geojson"));
    assert!(is_allowed_local_vector_path("C:/data/roads.gpkg"));
    // Case-insensitive extension; a ".." inside the filename is fine.
    assert!(is_allowed_local_vector_path("/data/v1..2.SHP"));
}

#[test]
fn rejects_non_vector_relative_or_traversal_paths() {
    // Non-vector extension.
    assert!(!is_allowed_local_vector_path("/etc/passwd"));
    // Relative path.
    assert!(!is_allowed_local_vector_path("cities.geojson"));
    // Directory traversal segments.
    assert!(!is_allowed_local_vector_path("/data/../etc/secret.geojson"));
    assert!(!is_allowed_local_vector_path("C:\\data\\..\\secret.geojson"));
    // UNC network paths, both the backslash and forward-slash forms.
    assert!(!is_allowed_local_vector_path("\\\\server\\share\\x.geojson"));
    assert!(!is_allowed_local_vector_path("//server/share/x.geojson"));
    // Empty string is not an absolute path.
    assert!(!is_allowed_local_vector_path(""));
    // No extension, and a trailing dot (empty extension).
    assert!(!is_allowed_local_vector_path("/home/user/noextension"));
    assert!(!is_allowed_local_vector_path("/home/user/file."));
}

#[test]
fn every_vector_extension_is_allowed_in_any_case() {
    for extension in [
        "geojson", "json", "gpkg", "geoparquet", "parquet", "fgb", "flatgeobuf", "csv", "tsv",
        "kml", "kmz", "gml", "gpx", "dxf", "tab", "shp", "zip",
    ] {
        assert!(is_allowed_local_vector_path(&format!("/d/a.{extension}")));
        let capitals = extension.to_ascii_uppercase();
        assert!(is_allowed_local_vector_path(&format!("z:\\d\\a.{capitals}")));
        assert!(!is_allowed_local_vector_path(&format!("/d/a.{extension}x")));
    }
}

#[test]
fn drives_need_a_letter_and_a_separator() {
    assert!(!is_allowed_local_vector_path("1:/a.json"));
    assert!(!is_allowed_local_vector_path("C:a.json"));
    assert!(!is_allowed_local_vector_path("ä:/a.json"));
    assert!(!is_allowed_local_vector_path("\\a.json"));
    assert!(!is_allowed_local_vector_path("/\\a.json"));
    assert!(!is_allowed_local_vector_path("/a/.."));
}

#[test]
fn refused_paths_are_named() {
    assert_eq!(check_local_vector_path("/d/a.json"), Ok(()));
    assert_eq!(
        check_local_vector_path("a.json"),
        Err("Refusing to read \"a.json\": not an absolute local vector file path".to_string())
    );
}

#[test]
fn names_are_divided_at_their_last_dot() {
    for (name, stem, extension) in [
        ("a.b.c", "a.b", Some("c")),
        ("a", "a", None),
        (".hidden", ".hidden", None),
        (".hidden.x", ".hidden", Some("x")),
        ("a.", "a", Some("")),
        ("..", "..", None),
    ] {
        assert_eq!(file_stem(name), stem);
        assert_eq!(file_extension(name).as_deref(), extension);
    }
}

#[test]
fn stems_of_paths_are_those_of_their_files() {
    assert_eq!(path_stem("/data/world.mbtiles").as_deref(), Some("world"));
    assert_eq!(path_stem("world").as_deref(), Some("world"));
    assert_eq!(path_stem("").as_deref(), None);
    assert_eq!(path_stem("/data/..").as_deref(), None);
    assert_eq!(path_stem("/data/world.mbtiles//.").as_deref(), Some("world"));
    assert_eq!(path_stem(".").as_deref(), None);
    assert_eq!(path_stem("/").as_deref(), None);
    assert!(path_stem("C:\\data\\world.mbtiles").unwrap().ends_with("world"));
    assert!(path_stem("C:world.mbtiles").unwrap().ends_with("world"));
    assert_eq!(path_stem("/d/1:2.shp").as_deref(), Some("1:2"));
    assert_eq!(path_stem("2024-06-28T10:15.shp").as_deref(), Some("2024-06-28T10:15"));
}

#[test]
fn zip_files_are_told_by_their_extension() {
    assert!(is_zip_path("/p/plugin.zip"));
    assert!(is_zip_path("/p/plugin.ZIP"));
    assert!(!is_zip_path("/p/plugin.zip.part"));
    assert!(!is_zip_path("/p/.zip"));
    assert!(!is_zip_path("/p/zip"));
    assert!(is_zip_path("C:\\p\\plugin.Zip"));
    assert!(is_zip_path("\\\\host\\share\\plugin.zip"));
    assert!(!is_zip_path("C:\\p.zip\\plugin"));
    assert!(is_zip_path("/p/12:30.zip"));
    assert!(!is_zip_path("/p/12:30.zip:part"));
    assert!(is_zip_path("/p/plugin.zip/"));
    assert!(is_zip_path("/p/plugin.zip/./"));
    assert!(is_zip_extension(Some("Zip")));
    assert!(!is_zip_extension(None));
}

#[test]
fn path_keys_have_forward_slashes() {
    assert_eq!(normalize_path_key("C:\\a\\b"), "C:/a/b");
    assert_eq!(normalize_path_key("/a/b"), "/a/b");
}

#[test]
fn siblings_line_up_with_their_shapefile() {
    assert_eq!(shapefile_sibling_name("Roads", "roads.SHX").as_deref(), Some("Roads.shx"));
    assert_eq!(shapefile_sibling_name("Roads", "Roads.dbf").as_deref(), Some("Roads.dbf"));
    assert_eq!(shapefile_sibling_name("Roads", "Roads.shp"), None);
    assert_eq!(shapefile_sibling_name("Roads", "Rails.dbf"), None);
    assert_eq!(shapefile_sibling_name("Roads", "Roads.shp.xml"), None);
    assert_eq!(shapefile_sibling_name("Roads", "Roads"), None);
    assert_eq!(shapefile_sibling_name("a.b", "A.B.Prj").as_deref(), Some("a.b.prj"));
}

#[test]
fn siblings_keep_the_order_of_the_directory() {
    let files: Vec<String> = ["a.txt", "x.DBF", "b.dbf", "X.shx", "x.shp", "x.fbx"]
        .iter()
        .map(|name| name.to_string())
        .collect();
    let siblings: Vec<(usize, String)> = shapefile_siblings("x", &files)
        .into_iter()
        .map(|sibling| (sibling.file, sibling.name))
        .collect();
    assert_eq!(
        siblings,
        vec![(1, "x.dbf".to_string()), (3, "x.shx".to_string()), (5, "x.fbx".to_string())]
    );
}

#[test]
fn siblings_that_cannot_be_read_are_left_out() {
    let siblings: Vec<(String, Vec<u8>)> = readable_siblings(vec![
        ("x.dbf".to_string(), Some(vec![1])),
        ("x.shx".to_string(), None),
        ("x.prj".to_string(), Some(vec![])),
    ])
    .into_iter()
    .map(|sibling| (sibling.name, sibling.data))
    .collect();
    assert_eq!(siblings, vec![("x.dbf".to_string(), vec![1]), ("x.prj".to_string(), vec![])]);
    assert!(readable_siblings(vec![]).is_empty());
}
