use geolibre_desktop::native_load::{
    begin_native_load, declared_crs_name, loaded, native_load_request, CheckStage, CountStage,
    DescribeStage, FeatureCollectionWriter, LoadRequest, LoadStep, NativeVectorOptions,
    DEFAULT_FEATURE_WARN_COUNT,
};
use geolibre_desktop::sql::{detect_geometry_column, DescribedColumn};

fn columns() -> Vec<DescribedColumn> {
    vec![
        DescribedColumn { name: "id".into(), column_type: "INTEGER".into() },
        DescribedColumn { name: "geom".into(), column_type: "GEOMETRY".into() },
    ]
}

fn no_geometry() -> Vec<DescribedColumn> {
    vec![DescribedColumn { name: "id".into(), column_type: "INTEGER".into() }]
}

fn request(path: &str, extension: &str, options: NativeVectorOptions) -> LoadRequest {
    native_load_request(path.to_string(), extension, options).unwrap()
}

fn check(path: &str, extension: &str, options: NativeVectorOptions) -> CheckStage {
    begin_native_load(request(path, extension, options))
}

fn count_stage(step: LoadStep) -> CountStage {
    match step {
        LoadStep::Count(stage) => stage,
        other => panic!("{other:?}"),
    }
}

fn describe_stage(step: LoadStep) -> DescribeStage {
    match step {
        LoadStep::Describe(stage) => stage,
        other => panic!("{other:?}"),
    }
}

#[test]
fn requests_fold_their_extension_and_check_their_path() {
    let made = request("/d/a.PARQUET", "ÄParquet", NativeVectorOptions::default());
    assert_eq!(made.extension, "äparquet");
    assert_eq!(made.path, "/d/a.PARQUET");
    let refused = native_load_request("a.shp".into(), "shp", NativeVectorOptions::default());
    assert_eq!(
        refused.err(),
        Some("Refusing to read \"a.shp\": not an absolute local vector file path".to_string())
    );
}

#[test]
fn a_small_file_is_counted_and_loaded() {
    let stage = check("/d/a.parquet", "parquet", NativeVectorOptions::default());
    assert_eq!(stage.query, "DESCRIBE SELECT * FROM read_parquet('/d/a.parquet')");
    let stage = count_stage(stage.described(Ok(columns())));
    assert_eq!(
        stage.query,
        "SELECT count(*) FROM (SELECT * FROM read_parquet('/d/a.parquet')) AS data"
    );
    let stage = describe_stage(stage.counted(Ok(DEFAULT_FEATURE_WARN_COUNT as i64)));
    assert_eq!(stage.query, "DESCRIBE SELECT * FROM read_parquet('/d/a.parquet')");
    match stage.described(Ok(columns())) {
        LoadStep::ReadFeatures(stage) => assert_eq!(
            stage.query,
            "SELECT json_object('type', 'Feature', 'geometry', ST_AsGeoJSON(\"geom\")::JSON, \
             'properties', json_merge_patch(to_json(s), '{\"geom\":null}'))::VARCHAR AS feature \
             FROM (SELECT * FROM read_parquet('/d/a.parquet')) AS s"
        ),
        other => panic!("{other:?}"),
    }
}

#[test]
fn returns_needs_confirmation_when_over_threshold_and_unconfirmed() {
    let options = NativeVectorOptions { feature_warn_count: Some(1), ..Default::default() };
    let stage = count_stage(
        check("/fixtures/points_wgs84.parquet", "parquet", options).described(Ok(columns())),
    );
    match stage.counted(Ok(2)) {
        LoadStep::Confirm(result) => {
            assert!(result.needs_confirmation);
            assert_eq!(result.feature_count, Some(2));
            assert!(result.feature_collection.is_none());
        }
        other => panic!("{other:?}"),
    }
}

#[test]
fn exactly_the_limit_needs_no_confirmation() {
    let options = NativeVectorOptions { feature_warn_count: Some(2), ..Default::default() };
    let stage = count_stage(check("/d/a.parquet", "parquet", options).described(Ok(columns())));
    describe_stage(stage.counted(Ok(2)));
    let options = NativeVectorOptions { feature_warn_count: Some(0), ..Default::default() };
    let stage = count_stage(check("/d/a.parquet", "parquet", options).described(Ok(columns())));
    describe_stage(stage.counted(Ok(-5)));
}

#[test]
fn loads_when_confirmed_despite_threshold() {
    let options = NativeVectorOptions {
        feature_warn_count: Some(1),
        large_dataset_confirmed: Some(true),
        ..Default::default()
    };
    let stage = describe_stage(
        check("/fixtures/points_wgs84.parquet", "parquet", options).described(Ok(columns())),
    );
    match stage.described(Ok(columns())) {
        LoadStep::ReadFeatures(_) => {
            let result = loaded(FeatureCollectionWriter::new().finish());
            assert!(!result.needs_confirmation);
            assert!(result.feature_collection.is_some());
        }
        other => panic!("{other:?}"),
    }
}

#[test]
fn errors_when_no_geometry_column() {
    let columns = vec![
        DescribedColumn { name: "id".into(), column_type: "INTEGER".into() },
        DescribedColumn { name: "name".into(), column_type: "VARCHAR".into() },
    ];
    assert!(detect_geometry_column(&columns).is_none());
}

#[test]
fn a_file_without_geometry_fails_before_the_count() {
    let message = "DuckDB did not find a geometry column in this file.";
    for confirmed in [None, Some(false), Some(true)] {
        let options =
            NativeVectorOptions { large_dataset_confirmed: confirmed, ..Default::default() };
        match check("/d/a.csv", "csv", options).described(Ok(no_geometry())) {
            LoadStep::Failed(error) => assert_eq!(error, message),
            other => panic!("{other:?}"),
        }
    }
}

#[test]
fn errors_of_queries_end_a_load() {
    let stage = check("/d/a.csv", "csv", NativeVectorOptions::default());
    assert!(matches!(stage.described(Err("no".into())), LoadStep::Failed(e) if e == "no"));
    let stage = count_stage(
        check("/d/a.csv", "csv", NativeVectorOptions::default()).described(Ok(columns())),
    );
    assert!(matches!(stage.counted(Err("bad".into())), LoadStep::Failed(e) if e == "bad"));
}

fn described_shapefile(options: NativeVectorOptions) -> LoadStep {
    let options = NativeVectorOptions { large_dataset_confirmed: Some(true), ..options };
    let stage = describe_stage(check("/d/a.shp", "SHP", options).described(Ok(columns())));
    stage.described(Ok(columns()))
}

#[test]
fn a_named_reference_system_takes_precedence() {
    let options =
        NativeVectorOptions { override_source_crs: Some(" EPSG:3857 ".into()), ..Default::default() };
    match described_shapefile(options) {
        LoadStep::ReadFeatures(stage) => assert!(stage
            .query
            .contains("ST_Transform(\"geom\", 'EPSG:3857', 'EPSG:4326', true)")),
        other => panic!("{other:?}"),
    }
}

#[test]
fn a_blank_reference_system_is_read_from_the_file() {
    let options =
        NativeVectorOptions { override_source_crs: Some("  ".into()), ..Default::default() };
    match described_shapefile(options) {
        LoadStep::ReadCrs(stage) => {
            assert!(stage.query.ends_with("FROM ST_Read_Meta('/d/a.shp')"));
            let features = stage.crs_read(Some((Some(" epsg ".into()), Some("2056 ".into()))));
            assert!(features.query.contains("'EPSG:2056', 'EPSG:4326'"));
        }
        other => panic!("{other:?}"),
    }
    match described_shapefile(NativeVectorOptions::default()) {
        LoadStep::ReadCrs(stage) => {
            assert!(!stage.crs_read(None).query.contains("ST_Transform"));
        }
        other => panic!("{other:?}"),
    }
}

#[test]
fn declared_reference_systems_need_authority_and_code() {
    let name = |authority: Option<&str>, code: Option<&str>| {
        declared_crs_name(authority.map(|t| t.to_string()), code.map(|t| t.to_string()))
    };
    assert_eq!(name(Some("epsg"), Some("4326")).as_deref(), Some("EPSG:4326"));
    assert_eq!(name(Some("ogc"), Some("crs84")).as_deref(), Some("OGC:CRS84"));
    assert_eq!(name(Some(" "), Some("4326")), None);
    assert_eq!(name(Some("EPSG"), Some("")), None);
    assert_eq!(name(None, Some("4326")), None);
    assert_eq!(name(Some("EPSG"), None), None);
}

#[test]
fn layers_are_part_of_the_source() {
    let options = NativeVectorOptions { layer: Some("a'b".into()), ..Default::default() };
    assert_eq!(
        check("/d/a.gpkg", "gpkg", options).query,
        "DESCRIBE SELECT * FROM ST_Read('/d/a.gpkg', layer='a''b')"
    );
}

#[test]
fn feature_collections_are_written_feature_by_feature() {
    assert_eq!(
        FeatureCollectionWriter::new().finish(),
        "{\"type\":\"FeatureCollection\",\"features\":[]}"
    );
    let mut writer = FeatureCollectionWriter::new();
    writer.push("{\"a\":1}");
    writer.push("{\"b\":2}");
    let text = writer.finish();
    assert_eq!(text, "{\"type\":\"FeatureCollection\",\"features\":[{\"a\":1},{\"b\":2}]}");
    let value: serde_json::Value = serde_json::from_str(&text).unwrap();
    assert_eq!(value["features"].as_array().unwrap().len(), 2);
}

#[test]
fn the_first_failing_row_is_reported() {
    let mut writer = FeatureCollectionWriter::new();
    assert_eq!(writer.read(Ok("{}".into())), Ok(()));
    assert_eq!(writer.read(Err("e".into())), Err("Could not build GeoJSON: e".to_string()));
    assert_eq!(writer.read(Ok("[]".into())), Ok(()));
    assert_eq!(writer.finish(), "{\"type\":\"FeatureCollection\",\"features\":[{},[]]}");
}

#[test]
fn loaded_features_need_no_confirmation() {
    let result = loaded("{}".into());
    assert!(!result.needs_confirmation);
    assert_eq!(result.feature_count, None);
    assert_eq!(result.feature_collection.as_deref(), Some("{}"));
}
