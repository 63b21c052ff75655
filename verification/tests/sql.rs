use geolibre_desktop::sql::{
    count_sql, describe_sql, detect_geometry_column, excluded_property_keys, geometry_expr,
    geometry_geojson_expr, is_native_geometry_type, is_parquet_extension, null_patch_json,
    per_feature_sql, quote_identifier, quote_sql_string, source_crs_sql, source_sql,
    spatial_load_sql, DescribedColumn, DetectedGeometry,
};

fn col(name: &str, ty: &str) -> DescribedColumn {
    DescribedColumn { name: name.to_string(), column_type: ty.to_string() }
}

#[test]
fn quotes_identifiers_and_strings() {
    assert_eq!(quote_identifier(r#"odd"name"#), r#""odd""name""#);
    assert_eq!(quote_sql_string("o'brien"), "'o''brien'");
}

#[test]
fn builds_parquet_and_st_read_source_sql() {
    assert_eq!(
        source_sql("/d/a.parquet", "parquet", None),
        "SELECT * FROM read_parquet('/d/a.parquet')"
    );
    assert_eq!(
        source_sql("/d/a.geoparquet", "geoparquet", None),
        "SELECT * FROM read_parquet('/d/a.geoparquet')"
    );
    assert_eq!(source_sql("/d/a.shp", "shp", None), "SELECT * FROM ST_Read('/d/a.shp')");
    assert_eq!(
        source_sql("/d/a.dwg", "dwg", Some("L1")),
        "SELECT * FROM ST_Read('/d/a.dwg', layer='L1')"
    );
}

#[test]
fn prefers_native_geometry_then_wkb_blob() {
    let native = vec![col("id", "INTEGER"), col("geom", "GEOMETRY('OGC:CRS84')")];
    assert_eq!(
        detect_geometry_column(&native),
        Some(DetectedGeometry { column: "geom".into(), is_wkb: false })
    );
    let wkb = vec![col("id", "INTEGER"), col("geometry", "BLOB")];
    assert_eq!(
        detect_geometry_column(&wkb),
        Some(DetectedGeometry { column: "geometry".into(), is_wkb: true })
    );
    let none = vec![col("id", "INTEGER"), col("name", "VARCHAR")];
    assert_eq!(detect_geometry_column(&none), None);
}

#[test]
fn builds_geometry_geojson_expr_with_and_without_crs() {
    let native = DetectedGeometry { column: "geom".into(), is_wkb: false };
    assert_eq!(
        geometry_geojson_expr(&geometry_expr(&native), None),
        r#"ST_AsGeoJSON("geom")"#
    );
    assert_eq!(
        geometry_geojson_expr(&geometry_expr(&native), Some("EPSG:3857")),
        r#"ST_AsGeoJSON(ST_Transform("geom", 'EPSG:3857', 'EPSG:4326', true))"#
    );
    let wkb = DetectedGeometry { column: "geometry".into(), is_wkb: true };
    assert_eq!(geometry_expr(&wkb), r#"ST_GeomFromWKB("geometry")"#);
}

#[test]
fn excludes_geometry_blob_and_ogc_fid_from_properties() {
    let cols = vec![
        col("id", "INTEGER"),
        col("name", "VARCHAR"),
        col("geom", "GEOMETRY"),
        col("raw", "BLOB"),
        col("OGC_FID", "INTEGER"),
    ];
    let keys = excluded_property_keys(&cols, "geom");
    assert!(keys.contains(&"geom".to_string()));
    assert!(keys.contains(&"raw".to_string()));
    assert!(keys.contains(&"OGC_FID".to_string()));
    assert!(!keys.contains(&"id".to_string()));
    assert_eq!(null_patch_json(&["geom".into(), "raw".into()]), r#"{"geom":null,"raw":null}"#);
}

#[test]
fn a_native_column_counts_before_an_earlier_blob() {
    let columns = vec![col("wkb", "BLOB"), col("shape", "  geometry")];
    assert_eq!(
        detect_geometry_column(&columns),
        Some(DetectedGeometry { column: "shape".into(), is_wkb: false })
    );
}

#[test]
fn blobs_are_geometry_by_name_only() {
    for name in ["geometry", "GEOM", "wkb_geometry", "Geometry_WKB", "geom_wkb", "wkb"] {
        let columns = vec![col(name, "blob")];
        assert_eq!(
            detect_geometry_column(&columns),
            Some(DetectedGeometry { column: name.into(), is_wkb: true })
        );
    }
    assert_eq!(detect_geometry_column(&[col("picture", "BLOB")]), None);
    assert_eq!(detect_geometry_column(&[col("geom", " BLOB")]), None);
    assert_eq!(detect_geometry_column(&[col("geom", "VARCHAR")]), None);
}

#[test]
fn native_types_may_be_indented_and_in_any_case() {
    assert!(is_native_geometry_type("GEOMETRY"));
    assert!(is_native_geometry_type("\t geometry('EPSG:4326')"));
    assert!(!is_native_geometry_type("GEO"));
    assert!(!is_native_geometry_type("VARCHAR"));
}

#[test]
fn parquet_extensions_are_two() {
    assert!(is_parquet_extension("parquet"));
    assert!(is_parquet_extension("geoparquet"));
    assert!(!is_parquet_extension("Parquet"));
    assert!(!is_parquet_extension("shp"));
}

#[test]
fn quoted_text_cannot_end_its_literal() {
    assert_eq!(quote_sql_string("'); DROP TABLE t; --"), "'''); DROP TABLE t; --'");
    assert_eq!(quote_sql_string(""), "''");
    assert_eq!(quote_sql_string("''"), "''''''");
    assert_eq!(quote_identifier("\""), "\"\"\"\"");
    assert_ne!(quote_sql_string("a'b"), quote_sql_string("a''b"));
}

#[test]
fn excluded_keys_hold_the_geometry_once() {
    let columns = vec![col("geom", "BLOB"), col("ogc_fid", "BIGINT"), col("x", "Blob(3)")];
    assert_eq!(excluded_property_keys(&columns, "geom"), vec!["geom", "ogc_fid", "x"]);
    assert_eq!(excluded_property_keys(&[], "geom"), vec!["geom"]);
}

#[test]
fn null_patches_escape_their_keys() {
    assert_eq!(null_patch_json(&[]), "{}");
    assert_eq!(null_patch_json(&["a\"b".into()]), r#"{"a\"b":null}"#);
}

#[test]
fn statements_hold_their_source() {
    assert_eq!(describe_sql("SELECT 1"), "DESCRIBE SELECT 1");
    assert_eq!(count_sql("SELECT 1"), "SELECT count(*) FROM (SELECT 1) AS data");
    assert_eq!(
        source_crs_sql("/d/o'k.shp"),
        "SELECT layers[1].geometry_fields[1].crs.auth_name, \
         layers[1].geometry_fields[1].crs.auth_code FROM ST_Read_Meta('/d/o''k.shp')"
    );
    assert_eq!(
        per_feature_sql("SELECT * FROM t", "ST_AsGeoJSON(\"g\")", "{\"g\":null}"),
        "SELECT json_object('type', 'Feature', 'geometry', ST_AsGeoJSON(\"g\")::JSON, \
         'properties', json_merge_patch(to_json(s), '{\"g\":null}'))::VARCHAR AS feature \
         FROM (SELECT * FROM t) AS s"
    );
}

#[test]
fn the_spatial_extension_is_bundled_or_installed() {
    assert_eq!(spatial_load_sql(None), "INSTALL spatial; LOAD spatial;");
    assert_eq!(
        spatial_load_sql(Some("C:\\it's\\spatial.duckdb_extension")),
        "LOAD 'C:/it''s/spatial.duckdb_extension';"
    );
}
