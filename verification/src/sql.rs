//! SQL text for reading vector files through DuckDB's spatial functions.

use vstd::prelude::*;

use crate::{json, split, text};

verus! {

/// The coordinate reference system that every feature is delivered in.
pub const TARGET_CRS: &'static str = "EPSG:4326";

/// A column as `DESCRIBE` reports it.
#[derive(Debug, Clone, PartialEq, Eq)]
pub struct DescribedColumn {
    pub name: String,
    pub column_type: String,
}

/// The column that holds the geometry, and whether it holds it as well-known binary.
#[derive(Debug, Clone, PartialEq, Eq)]
pub struct DetectedGeometry {
    pub column: String,
    pub is_wkb: bool,
}

// ---------------------------------------------------------------------------
// Quoting

/// `value` between two `quote` characters, with each one inside doubled.
pub open spec fn quoted(value: Seq<char>, quote: char) -> Seq<char> {
    seq![quote] + text::replace_char(value, quote, seq![quote, quote]) + seq![quote]
}

/// What a reader of quoted text takes, once it is past the opening quote: the value up to the
/// closing quote, with doubled quotes read as one, and the text that is left.
pub open spec fn read_quoted(text: Seq<char>, quote: char) -> Option<(Seq<char>, Seq<char>)>
    decreases text.len(),
{
    if text.len() == 0 {
        None
    } else if text[0] != quote {
        match read_quoted(text.skip(1), quote) {
            Some((value, rest)) => Some((seq![text[0]] + value, rest)),
            None => None,
        }
    } else if text.len() > 1 && text[1] == quote {
        match read_quoted(text.skip(2), quote) {
            Some((value, rest)) => Some((seq![quote] + value, rest)),
            None => None,
        }
    } else {
        Some((Seq::empty(), text.skip(1)))
    }
}

proof fn lemma_replace_first(first: char, others: Seq<char>, old_char: char, by: Seq<char>)
    ensures
        text::replace_char(seq![first] + others, old_char, by) == (if first == old_char {
            by
        } else {
            seq![first]
        }) + text::replace_char(others, old_char, by),
    decreases others.len(),
{
    let all = seq![first] + others;
    let head = if first == old_char {
        by
    } else {
        seq![first]
    };
    if others.len() == 0 {
        assert(all.drop_last() == Seq::<char>::empty());
        assert(text::replace_char(all.drop_last(), old_char, by) == Seq::<char>::empty());
        assert(text::replace_char(others, old_char, by) == Seq::<char>::empty());
        assert(text::replace_char(all, old_char, by) == head + text::replace_char(others, old_char, by));
    } else {
        assert(all.drop_last() == seq![first] + others.drop_last());
        lemma_replace_first(first, others.drop_last(), old_char, by);
        let before = text::replace_char(others.drop_last(), old_char, by);
        assert((head + before) + by == head + (before + by));
        assert((head + before).push(others.last()) == head + before.push(others.last()));
    }
}

/// Quoting keeps a value whole: whatever it holds, a reader that takes doubled quotes for one
/// gets exactly the value back and stops exactly behind it.
pub proof fn quoted_value_reads_back(value: Seq<char>, quote: char, rest: Seq<char>)
    requires
        rest.len() == 0 || rest[0] != quote,
    ensures
        (quoted(value, quote) + rest)[0] == quote,
        read_quoted((quoted(value, quote) + rest).skip(1), quote) == Some((value, rest)),
    decreases value.len(),
{
    let doubled = seq![quote, quote];
    let body = text::replace_char(value, quote, doubled);
    let text = (quoted(value, quote) + rest).skip(1);
    assert(text == body + seq![quote] + rest);
    if value.len() == 0 {
        assert(body == Seq::<char>::empty());
        assert(text == seq![quote] + rest);
        assert(text.skip(1) == rest);
        assert(value == Seq::<char>::empty());
    } else {
        let first = value[0];
        let others = value.skip(1);
        assert(value == seq![first] + others);
        lemma_replace_first(first, others, quote, doubled);
        quoted_value_reads_back(others, quote, rest);
        let inner = text::replace_char(others, quote, doubled);
        assert((quoted(others, quote) + rest).skip(1) == inner + seq![quote] + rest);
        if first == quote {
            assert(text == doubled + (inner + seq![quote] + rest));
            assert(text.skip(2) == inner + seq![quote] + rest);
        } else {
            assert(text == seq![first] + (inner + seq![quote] + rest));
            assert(text.skip(1) == inner + seq![quote] + rest);
        }
    }
}

/// Two values have the same quoted text only if they are the same.
pub proof fn quoting_tells_values_apart(left: Seq<char>, right: Seq<char>, quote: char)
    requires
        quoted(left, quote) == quoted(right, quote),
    ensures
        left == right,
{
    let rest = Seq::<char>::empty();
    quoted_value_reads_back(left, quote, rest);
    quoted_value_reads_back(right, quote, rest);
}

fn quote_text(value: &str, quote: char, doubled: &str) -> (result: String)
    requires
        doubled@ == seq![quote, quote],
    ensures
        result@ == quoted(value@, quote),
{
    let mut result = String::new();
    result.push(quote);
    let body = text::replaced(value, quote, doubled);
    result.append(body.as_str());
    result.push(quote);
    assert(result@ == quoted(value@, quote));
    result
}

/// `value` as an SQL identifier.
pub fn quote_identifier(value: &str) -> (result: String)
    ensures
        result@ == quoted(value@, '"'),
{
    proof {
        reveal_strlit("\"\"");
    }
    assert("\"\""@ == seq!['"', '"']);
    quote_text(value, '"', "\"\"")
}

/// `value` as an SQL string.
pub fn quote_sql_string(value: &str) -> (result: String)
    ensures
        result@ == quoted(value@, '\''),
{
    proof {
        reveal_strlit("''");
    }
    assert("''"@ == seq!['\'', '\'']);
    quote_text(value, '\'', "''")
}

// ---------------------------------------------------------------------------
// Sources

pub open spec fn parquet_extension(extension: Seq<char>) -> bool {
    extension == "parquet"@ || extension == "geoparquet"@
}

pub fn is_parquet_extension(extension: &str) -> (answer: bool)
    ensures
        answer == parquet_extension(extension@),
{
    text::same_text(extension, "parquet") || text::same_text(extension, "geoparquet")
}

/// The query for all rows of a file: Parquet is read natively and has no layers, everything
/// else goes through `ST_Read`.
pub open spec fn source_query(
    path: Seq<char>,
    extension: Seq<char>,
    layer: Option<Seq<char>>,
) -> Seq<char> {
    if parquet_extension(extension) {
        "SELECT * FROM read_parquet("@ + quoted(path, '\'') + ")"@
    } else {
        match layer {
            Some(layer) => "SELECT * FROM ST_Read("@ + quoted(path, '\'') + ", layer="@ + quoted(
                layer,
                '\'',
            ) + ")"@,
            None => "SELECT * FROM ST_Read("@ + quoted(path, '\'') + ")"@,
        }
    }
}

pub fn source_sql(path: &str, extension: &str, layer: Option<&str>) -> (sql: String)
    ensures
        sql@ == source_query(path@, extension@, text::str_view_of(layer)),
{
    let path = quote_sql_string(path);
    if is_parquet_extension(extension) {
        let mut sql = "SELECT * FROM read_parquet(".to_owned();
        sql.append(path.as_str());
        sql.append(")");
        return sql;
    }
    let mut sql = "SELECT * FROM ST_Read(".to_owned();
    sql.append(path.as_str());
    match layer {
        Some(layer) => {
            sql.append(", layer=");
            let layer = quote_sql_string(layer);
            sql.append(layer.as_str());
        },
        None => {},
    }
    sql.append(")");
    sql
}

/// The query that reports the columns of `source`.
pub fn describe_sql(source: &str) -> (sql: String)
    ensures
        sql@ == "DESCRIBE "@ + source@,
{
    let mut sql = "DESCRIBE ".to_owned();
    sql.append(source);
    sql
}

/// The query that counts the rows of `source`.
pub fn count_sql(source: &str) -> (sql: String)
    ensures
        sql@ == "SELECT count(*) FROM ("@ + source@ + ") AS data"@,
{
    let mut sql = "SELECT count(*) FROM (".to_owned();
    sql.append(source);
    sql.append(") AS data");
    sql
}

/// The query for the authority name and code of a file's coordinate reference system.
pub open spec fn source_crs_query(path: Seq<char>) -> Seq<char> {
    "SELECT layers[1].geometry_fields[1].crs.auth_name, layers[1].geometry_fields[1].crs.auth_code FROM ST_Read_Meta("@
        + quoted(path, '\'') + ")"@
}

pub fn source_crs_sql(path: &str) -> (sql: String)
    ensures
        sql@ == source_crs_query(path@),
{
    let mut sql =
        "SELECT layers[1].geometry_fields[1].crs.auth_name, layers[1].geometry_fields[1].crs.auth_code FROM ST_Read_Meta(".to_owned();
    let path = quote_sql_string(path);
    sql.append(path.as_str());
    sql.append(")");
    sql
}

/// The statements that load the spatial extension: the bundled file where there is one, else
/// the extension that DuckDB installs itself.
pub open spec fn spatial_statements(bundled: Option<Seq<char>>) -> Seq<char> {
    match bundled {
        Some(path) => "LOAD "@ + quoted(text::replace_char(path, '\\', "/"@), '\'') + ";"@,
        None => "INSTALL spatial; LOAD spatial;"@,
    }
}

pub fn spatial_load_sql(bundled: Option<&str>) -> (sql: String)
    ensures
        sql@ == spatial_statements(text::str_view_of(bundled)),
{
    match bundled {
        Some(path) => {
            let normalized = text::replaced(path, '\\', "/");
            let path = quote_sql_string(normalized.as_str());
            let mut sql = "LOAD ".to_owned();
            sql.append(path.as_str());
            sql.append(";");
            sql
        },
        None => "INSTALL spatial; LOAD spatial;".to_owned(),
    }
}

// ---------------------------------------------------------------------------
// The geometry column

pub open spec fn native_geometry_type(column_type: Seq<char>) -> bool {
    "GEOMETRY"@.is_prefix_of(text::upper(text::trim_start(column_type)))
}

pub fn is_native_geometry_type(column_type: &str) -> (answer: bool)
    ensures
        answer == native_geometry_type(column_type@),
{
    let start = text::trimmed_start(column_type);
    let folded = text::to_upper(start.as_str());
    text::has_prefix(folded.as_str(), "GEOMETRY")
}

pub open spec fn blob_type(column_type: Seq<char>) -> bool {
    "BLOB"@.is_prefix_of(text::upper(column_type))
}

fn is_blob_type(column_type: &str) -> (answer: bool)
    ensures
        answer == blob_type(column_type@),
{
    let folded = text::to_upper(column_type);
    text::has_prefix(folded.as_str(), "BLOB")
}

/// The names, in small letters, under which a blob column holds well-known binary.
pub open spec fn wkb_column_names() -> Seq<Seq<char>> {
    seq![
        "geometry"@,
        "geom"@,
        "wkb_geometry"@,
        "geometry_wkb"@,
        "geom_wkb"@,
        "wkb"@,
    ]
}

fn is_wkb_column_name(name: &str) -> (answer: bool)
    ensures
        answer == wkb_column_names().contains(text::lower(name@)),
{
    let folded = text::to_lower(name);
    let names: Vec<&str> = vec![
        "geometry",
        "geom",
        "wkb_geometry",
        "geometry_wkb",
        "geom_wkb",
        "wkb",
    ];
    assert forall|i: int| 0 <= i < 6 implies #[trigger] names@[i]@ == wkb_column_names()[i] by {}
    let answer = text::is_listed(&names, folded.as_str());
    proof {
        if wkb_column_names().contains(text::lower(name@)) {
            let i = choose|i: int| 0 <= i < 6 && wkb_column_names()[i] == text::lower(name@);
            assert(names@[i]@ == folded@);
        }
    }
    answer
}

pub open spec fn native_column() -> spec_fn(DescribedColumn) -> bool {
    |column: DescribedColumn| native_geometry_type(column.column_type@)
}

pub open spec fn wkb_column() -> spec_fn(DescribedColumn) -> bool {
    |column: DescribedColumn|
        blob_type(column.column_type@) && wkb_column_names().contains(text::lower(column.name@))
}

/// The position of the first column that `chosen` holds of; the number of columns where it
/// holds of none.
pub open spec fn first_column(
    columns: Seq<DescribedColumn>,
    chosen: spec_fn(DescribedColumn) -> bool,
) -> int
    decreases columns.len(),
{
    if columns.len() == 0 || chosen(columns[0]) {
        0
    } else {
        1 + first_column(columns.skip(1), chosen)
    }
}

pub proof fn lemma_first_column(
    columns: Seq<DescribedColumn>,
    chosen: spec_fn(DescribedColumn) -> bool,
    at: int,
)
    requires
        0 <= at <= columns.len(),
        forall|i: int| 0 <= i < at ==> !chosen(#[trigger] columns[i]),
        at < columns.len() ==> chosen(columns[at]),
    ensures
        first_column(columns, chosen) == at,
    decreases at,
{
    if at > 0 {
        let others = columns.skip(1);
        assert(!chosen(columns[0]));
        assert forall|i: int| 0 <= i < at - 1 implies !chosen(#[trigger] others[i]) by {
            assert(others[i] == columns[i + 1]);
        }
        lemma_first_column(others, chosen, at - 1);
    }
}

/// The geometry column: the first one of a native geometry type, else the first blob with one
/// of the usual names.
pub open spec fn geometry_column(columns: Seq<DescribedColumn>) -> Option<(Seq<char>, bool)> {
    let native = first_column(columns, native_column());
    let binary = first_column(columns, wkb_column());
    if native < columns.len() {
        Some((columns[native].name@, false))
    } else if binary < columns.len() {
        Some((columns[binary].name@, true))
    } else {
        None
    }
}

impl DetectedGeometry {
    /// The column's name, and whether it holds well-known binary.
    pub open spec fn model(self) -> (Seq<char>, bool) {
        (self.column@, self.is_wkb)
    }
}

/// What was detected, as the name and kind of the column.
pub open spec fn detected_model(detected: Option<DetectedGeometry>) -> Option<(Seq<char>, bool)> {
    match detected {
        Some(geometry) => Some(geometry.model()),
        None => None,
    }
}

pub fn detect_geometry_column(columns: &[DescribedColumn]) -> (detected: Option<DetectedGeometry>)
    ensures
        detected_model(detected) == geometry_column(columns@),
{
    let mut i: usize = 0;
    while i < columns.len()
        invariant
            i <= columns@.len(),
            forall|j: int| 0 <= j < i ==> !native_column()(#[trigger] columns@[j]),
        decreases columns@.len() - i,
    {
        if is_native_geometry_type(columns[i].column_type.as_str()) {
            proof {
                lemma_first_column(columns@, native_column(), i as int);
            }
            return Some(DetectedGeometry { column: columns[i].name.clone(), is_wkb: false });
        }
        i = i + 1;
    }
    proof {
        lemma_first_column(columns@, native_column(), i as int);
    }
    let mut k: usize = 0;
    while k < columns.len()
        invariant
            k <= columns@.len(),
            first_column(columns@, native_column()) == columns@.len(),
            forall|j: int| 0 <= j < k ==> !wkb_column()(#[trigger] columns@[j]),
        decreases columns@.len() - k,
    {
        if is_blob_type(columns[k].column_type.as_str()) && is_wkb_column_name(
            columns[k].name.as_str(),
        ) {
            proof {
                lemma_first_column(columns@, wkb_column(), k as int);
            }
            return Some(DetectedGeometry { column: columns[k].name.clone(), is_wkb: true });
        }
        k = k + 1;
    }
    proof {
        lemma_first_column(columns@, wkb_column(), k as int);
    }
    None
}

/// A column of a native geometry type, wherever it stands, is preferred to every blob.
pub proof fn native_geometry_is_preferred(columns: Seq<DescribedColumn>, at: int)
    requires
        0 <= at < columns.len(),
        native_geometry_type(columns[at].column_type@),
    ensures
        geometry_column(columns) is Some,
        !(geometry_column(columns)->0).1,
{
    lemma_first_column_bound(columns, native_column(), at);
}

proof fn lemma_first_column_bound(
    columns: Seq<DescribedColumn>,
    chosen: spec_fn(DescribedColumn) -> bool,
    at: int,
)
    requires
        0 <= at < columns.len(),
        chosen(columns[at]),
    ensures
        0 <= first_column(columns, chosen) <= at,
    decreases at,
{
    if at > 0 && !chosen(columns[0]) {
        assert(columns.skip(1)[at - 1] == columns[at]);
        lemma_first_column_bound(columns.skip(1), chosen, at - 1);
    }
}

// ---------------------------------------------------------------------------
// Expressions over the geometry column

pub open spec fn geometry_expression(column: Seq<char>, is_wkb: bool) -> Seq<char> {
    if is_wkb {
        "ST_GeomFromWKB("@ + quoted(column, '"') + ")"@
    } else {
        quoted(column, '"')
    }
}

pub fn geometry_expr(geometry: &DetectedGeometry) -> (expression: String)
    ensures
        expression@ == geometry_expression(geometry.column@, geometry.is_wkb),
{
    let column = quote_identifier(geometry.column.as_str());
    if geometry.is_wkb {
        let mut expression = "ST_GeomFromWKB(".to_owned();
        expression.append(column.as_str());
        expression.append(")");
        expression
    } else {
        column
    }
}

/// The GeoJSON of a geometry, brought to the target system where the source's is known.
pub open spec fn geojson_expression(
    geometry: Seq<char>,
    source_crs: Option<Seq<char>>,
) -> Seq<char> {
    match source_crs {
        None => "ST_AsGeoJSON("@ + geometry + ")"@,
        Some(crs) => "ST_AsGeoJSON(ST_Transform("@ + geometry + ", "@ + quoted(crs, '\'') + ", "@
            + quoted(TARGET_CRS@, '\'') + ", true))"@,
    }
}

pub fn geometry_geojson_expr(geometry: &str, source_crs: Option<&str>) -> (expression: String)
    ensures
        expression@ == geojson_expression(geometry@, text::str_view_of(source_crs)),
{
    match source_crs {
        None => {
            let mut expression = "ST_AsGeoJSON(".to_owned();
            expression.append(geometry);
            expression.append(")");
            expression
        },
        Some(crs) => {
            let source = quote_sql_string(crs);
            let target = quote_sql_string(TARGET_CRS);
            let mut expression = "ST_AsGeoJSON(ST_Transform(".to_owned();
            expression.append(geometry);
            expression.append(", ");
            expression.append(source.as_str());
            expression.append(", ");
            expression.append(target.as_str());
            expression.append(", true))");
            expression
        },
    }
}

// ---------------------------------------------------------------------------
// Properties

/// A column that is kept out of the properties beside the geometry: blobs, and the feature id
/// that the reader adds.
pub open spec fn hidden_column(column: DescribedColumn, geometry: Seq<char>) -> bool {
    (blob_type(column.column_type@) || text::lower(column.name@) == text::lower("OGC_FID"@)) && column.name@
        != geometry
}

/// The names that are kept out of the properties: the geometry column, then the hidden ones in
/// their order.
pub open spec fn excluded_keys(columns: Seq<DescribedColumn>, geometry: Seq<char>) -> Seq<Seq<char>>
    decreases columns.len(),
{
    if columns.len() == 0 {
        seq![geometry]
    } else {
        let before = excluded_keys(columns.drop_last(), geometry);
        if hidden_column(columns.last(), geometry) {
            before.push(columns.last().name@)
        } else {
            before
        }
    }
}

pub fn excluded_property_keys(columns: &[DescribedColumn], geometry: &str) -> (keys: Vec<String>)
    ensures
        text::views(keys@) == excluded_keys(columns@, geometry@),
{
    let mut keys: Vec<String> = vec![geometry.to_owned()];
    let mut i: usize = 0;
    assert(columns@.take(0) == Seq::<DescribedColumn>::empty());
    assert(text::views(keys@) == seq![geometry@]);
    while i < columns.len()
        invariant
            i <= columns@.len(),
            text::views(keys@) == excluded_keys(columns@.take(i as int), geometry@),
        decreases columns@.len() - i,
    {
        let ghost before = text::views(keys@);
        assert(columns@.take(i + 1).drop_last() == columns@.take(i as int));
        let is_blob = is_blob_type(columns[i].column_type.as_str());
        let is_feature_id = text::same_ignoring_case(columns[i].name.as_str(), "OGC_FID");
        if (is_blob || is_feature_id) && !text::same_text(columns[i].name.as_str(), geometry) {
            keys.push(columns[i].name.clone());
            assert(text::views(keys@) == before.push(columns@[i as int].name@));
        }
        i = i + 1;
    }
    assert(columns@.take(i as int) == columns@);
    keys
}

/// The properties lose the geometry column, every blob and every `OGC_FID` in any case, and
/// nothing else.
pub proof fn excluded_keys_are_geometry_blobs_and_feature_ids(
    columns: Seq<DescribedColumn>,
    geometry: Seq<char>,
    key: Seq<char>,
)
    ensures
        excluded_keys(columns, geometry).contains(key) <==> key == geometry || exists|i: int|
            0 <= i < columns.len() && #[trigger] columns[i].name@ == key && (blob_type(
                columns[i].column_type@,
            ) || text::lower(columns[i].name@) == text::lower("OGC_FID"@)),
    decreases columns.len(),
{
    let keys = excluded_keys(columns, geometry);
    if columns.len() == 0 {
        assert(keys[0] == geometry);
    } else {
        let before = columns.drop_last();
        let fewer = excluded_keys(before, geometry);
        excluded_keys_are_geometry_blobs_and_feature_ids(before, geometry, key);
        assert(forall|i: int| 0 <= i < before.len() ==> #[trigger] before[i] == columns[i]);
        if hidden_column(columns.last(), geometry) {
            assert(keys == fewer.push(columns.last().name@));
            assert(keys[fewer.len() as int] == columns.last().name@);
            assert(forall|i: int| 0 <= i < fewer.len() ==> keys[i] == fewer[i]);
            if fewer.contains(key) {
                let i = choose|i: int| 0 <= i < fewer.len() && fewer[i] == key;
                assert(keys[i] == key);
            }
        }
        if key != geometry && exists|i: int|
            0 <= i < columns.len() && #[trigger] columns[i].name@ == key && (blob_type(
                columns[i].column_type@,
            ) || text::lower(columns[i].name@) == text::lower("OGC_FID"@)) {
            let i = choose|i: int|
                0 <= i < columns.len() && #[trigger] columns[i].name@ == key && (blob_type(
                    columns[i].column_type@,
                ) || text::lower(columns[i].name@) == text::lower("OGC_FID"@));
            if i < before.len() {
                assert(before[i].name@ == key);
            } else {
                assert(hidden_column(columns.last(), geometry));
            }
        }
        if keys.contains(key) && key != geometry {
            if fewer.contains(key) {
                let i = choose|i: int|
                    0 <= i < before.len() && #[trigger] before[i].name@ == key && (blob_type(
                        before[i].column_type@,
                    ) || text::lower(before[i].name@) == text::lower("OGC_FID"@));
                assert(columns[i].name@ == key);
            } else {
                assert(columns[columns.len() - 1].name@ == key);
            }
        }
    }
}

/// One member of a merge patch, which takes the key out.
pub open spec fn null_member(key: Seq<char>) -> Seq<char> {
    json::json_literal(key) + ":null"@
}

/// A JSON merge patch that takes the keys out of an object.
pub open spec fn null_patch(keys: Seq<Seq<char>>) -> Seq<char> {
    "{"@ + split::join(keys.map_values(|key: Seq<char>| null_member(key)), ","@) + "}"@
}

pub fn null_patch_json(keys: &[String]) -> (patch: String)
    ensures
        patch@ == null_patch(text::views(keys@)),
{
    let ghost wanted = text::views(keys@).map_values(|key: Seq<char>| null_member(key));
    let mut members: Vec<String> = Vec::new();
    let mut i: usize = 0;
    while i < keys.len()
        invariant
            i <= keys@.len(),
            wanted == text::views(keys@).map_values(|key: Seq<char>| null_member(key)),
            text::views(members@) == wanted.take(i as int),
        decreases keys@.len() - i,
    {
        let ghost before = text::views(members@);
        let mut member = json::to_json_literal(keys[i].as_str());
        member.append(":null");
        let ghost text = member@;
        members.push(member);
        assert(text::views(members@) == before.push(text));
        assert(text == wanted[i as int]);
        i = i + 1;
        assert(text::views(members@) == wanted.take(i as int));
    }
    assert(wanted.take(i as int) == wanted);
    let body = split::joined(&members, ",");
    let mut patch = "{".to_owned();
    patch.append(body.as_str());
    patch.append("}");
    patch
}

/// The query that gives one GeoJSON feature as text for each row of `source`.
pub open spec fn per_feature_query(
    source: Seq<char>,
    geojson: Seq<char>,
    patch: Seq<char>,
) -> Seq<char> {
    "SELECT json_object('type', 'Feature', 'geometry', "@ + geojson
        + "::JSON, 'properties', json_merge_patch(to_json(s), "@ + quoted(patch, '\'')
        + "))::VARCHAR AS feature FROM ("@ + source + ") AS s"@
}

pub fn per_feature_sql(source: &str, geojson: &str, patch: &str) -> (sql: String)
    ensures
        sql@ == per_feature_query(source@, geojson@, patch@),
{
    let patch = quote_sql_string(patch);
    let mut sql = "SELECT json_object('type', 'Feature', 'geometry', ".to_owned();
    sql.append(geojson);
    sql.append("::JSON, 'properties', json_merge_patch(to_json(s), ");
    sql.append(patch.as_str());
    sql.append("))::VARCHAR AS feature FROM (");
    sql.append(source);
    sql.append(") AS s");
    sql
}

// ---------------------------------------------------------------------------
// Laws

/// Between its quotes a value stands as it is, but that each quote in it is doubled.
pub proof fn quotes_are_doubled(plain: Seq<char>, rest: Seq<char>, quote: char)
    requires
        !plain.contains(quote),
    ensures
        quoted(plain, quote) == seq![quote] + plain + seq![quote],
        quoted(plain + seq![quote] + rest, quote) == seq![quote] + plain + seq![quote] + quoted(
            rest,
            quote,
        ),
{
    let doubled = seq![quote, quote];
    text::replacing_leaves_the_rest_alone(plain, quote, doubled);
    text::replacing_goes_by_character(plain + seq![quote], rest, quote, doubled, quote);
    text::replacing_goes_by_character(plain, seq![quote], quote, doubled, quote);
    assert(quoted(plain + seq![quote] + rest, quote) == seq![quote] + plain + seq![quote] + quoted(
        rest,
        quote,
    ));
}

/// Parquet files are read natively, whatever layer is asked for, and all others through
/// `ST_Read`, from the layer that is asked for.
pub proof fn sources_read_the_file(path: Seq<char>, extension: Seq<char>, layer: Seq<char>)
    ensures
        extension == "parquet"@ || extension == "geoparquet"@ ==> {
            let native = "SELECT * FROM read_parquet("@ + quoted(path, '\'') + ")"@;
            &&& source_query(path, extension, None) == native
            &&& source_query(path, extension, Some(layer)) == native
        },
        extension != "parquet"@ && extension != "geoparquet"@ ==> {
            let start = "SELECT * FROM ST_Read("@ + quoted(path, '\'');
            &&& source_query(path, extension, None) == start + ")"@
            &&& source_query(path, extension, Some(layer)) == start + ", layer="@ + quoted(
                layer,
                '\'',
            ) + ")"@
        },
{
}

/// Only `parquet` and `geoparquet` are the extensions of Parquet files.
pub proof fn parquet_has_two_extensions(extension: Seq<char>)
    ensures
        parquet_extension(extension) <==> extension == "parquet"@ || extension == "geoparquet"@,
{
}

/// The reference system of a file is asked of the metadata of its first layer, and the spatial
/// extension is loaded from the bundled file, with forward slashes, or installed.
pub proof fn statements_name_their_file(path: Seq<char>)
    ensures
        source_crs_query(path)
            == "SELECT layers[1].geometry_fields[1].crs.auth_name, layers[1].geometry_fields[1].crs.auth_code FROM ST_Read_Meta("@
            + quoted(path, '\'') + ")"@,
        spatial_statements(None) == "INSTALL spatial; LOAD spatial;"@,
        !path.contains('\\') ==> spatial_statements(Some(path)) == "LOAD "@ + quoted(path, '\'')
            + ";"@,
        forall|i: int|
            0 <= i < text::replace_char(path, '\\', "/"@).len() ==> #[trigger] text::replace_char(
                path,
                '\\',
                "/"@,
            )[i] == if path[i] == '\\' {
                '/'
            } else {
                path[i]
            },
        spatial_statements(Some(path)) == "LOAD "@ + quoted(
            text::replace_char(path, '\\', "/"@),
            '\'',
        ) + ";"@,
{
    if !path.contains('\\') {
        text::replacing_leaves_the_rest_alone(path, '\\', "/"@);
    }
    lemma_slashes(path);
}

proof fn lemma_slashes(path: Seq<char>)
    ensures
        text::replace_char(path, '\\', "/"@).len() == path.len(),
        forall|i: int|
            0 <= i < path.len() ==> #[trigger] text::replace_char(path, '\\', "/"@)[i] == if path[i]
                == '\\' {
                '/'
            } else {
                path[i]
            },
    decreases path.len(),
{
    reveal_strlit("/");
    if path.len() > 0 {
        lemma_slashes(path.drop_last());
    }
}

/// The first column whose type begins with `GEOMETRY`, in any case and behind any white space, is
/// the geometry, whatever other columns there are.
pub proof fn the_first_native_column_is_the_geometry(columns: Seq<DescribedColumn>, at: int)
    requires
        0 <= at < columns.len(),
        "GEOMETRY"@.is_prefix_of(text::upper(text::trim_start(columns[at].column_type@))),
        forall|i: int|
            0 <= i < at ==> !"GEOMETRY"@.is_prefix_of(
                text::upper(text::trim_start((#[trigger] columns[i]).column_type@)),
            ),
    ensures
        geometry_column(columns) == Some((columns[at].name@, false)),
{
    lemma_first_column(columns, native_column(), at);
}

/// Without a native geometry the first blob with one of the usual names, in any case, is the
/// geometry, as well-known binary.
pub proof fn else_the_first_named_blob_is_the_geometry(columns: Seq<DescribedColumn>, at: int)
    requires
        0 <= at < columns.len(),
        forall|i: int|
            0 <= i < columns.len() ==> !"GEOMETRY"@.is_prefix_of(
                text::upper(text::trim_start((#[trigger] columns[i]).column_type@)),
            ),
        "BLOB"@.is_prefix_of(text::upper(columns[at].column_type@)),
        ({
            let name = text::lower(columns[at].name@);
            ||| name == "geometry"@
            ||| name == "geom"@
            ||| name == "wkb_geometry"@
            ||| name == "geometry_wkb"@
            ||| name == "geom_wkb"@
            ||| name == "wkb"@
        }),
        forall|i: int|
            0 <= i < at && "BLOB"@.is_prefix_of(text::upper((#[trigger] columns[i]).column_type@))
                ==> {
                let name = text::lower(columns[i].name@);
                &&& name != "geometry"@
                &&& name != "geom"@
                &&& name != "wkb_geometry"@
                &&& name != "geometry_wkb"@
                &&& name != "geom_wkb"@
                &&& name != "wkb"@
            },
    ensures
        geometry_column(columns) == Some((columns[at].name@, true)),
{
    lemma_first_column(columns, native_column(), columns.len() as int);
    lemma_wkb_names(text::lower(columns[at].name@));
    assert forall|i: int| 0 <= i < at implies !wkb_column()(#[trigger] columns[i]) by {
        lemma_wkb_names(text::lower(columns[i].name@));
    }
    lemma_first_column(columns, wkb_column(), at);
}

/// A table of columns of which none is a native geometry, and no blob has one of the usual names,
/// has no geometry.
pub proof fn other_columns_are_no_geometry(columns: Seq<DescribedColumn>)
    requires
        forall|i: int|
            0 <= i < columns.len() ==> {
                let name = text::lower((#[trigger] columns[i]).name@);
                &&& !"GEOMETRY"@.is_prefix_of(text::upper(text::trim_start(columns[i].column_type@)))
                &&& "BLOB"@.is_prefix_of(text::upper(columns[i].column_type@)) ==> name
                    != "geometry"@ && name != "geom"@ && name != "wkb_geometry"@ && name
                    != "geometry_wkb"@ && name != "geom_wkb"@ && name != "wkb"@
            },
    ensures
        geometry_column(columns) is None,
{
    assert forall|i: int| 0 <= i < columns.len() implies !wkb_column()(#[trigger] columns[i]) by {
        lemma_wkb_names(text::lower(columns[i].name@));
    }
    lemma_first_column(columns, native_column(), columns.len() as int);
    lemma_first_column(columns, wkb_column(), columns.len() as int);
}

proof fn lemma_wkb_names(name: Seq<char>)
    ensures
        wkb_column_names().contains(name) <==> name == "geometry"@ || name == "geom"@ || name
            == "wkb_geometry"@ || name == "geometry_wkb"@ || name == "geom_wkb"@ || name == "wkb"@,
{
    let names = wkb_column_names();
    assert(names[0] == "geometry"@ && names[1] == "geom"@ && names[2] == "wkb_geometry"@);
    assert(names[3] == "geometry_wkb"@ && names[4] == "geom_wkb"@ && names[5] == "wkb"@);
    if names.contains(name) {
        let i = choose|i: int| 0 <= i < names.len() && names[i] == name;
        assert(0 <= i < 6);
    }
}

/// A native column stands for its geometry itself, a blob through `ST_GeomFromWKB`. A geometry is
/// brought to the reference system `EPSG:4326`, with the axes in the order of a map, where its own
/// is known, and written as it is where it is not.
pub proof fn geometries_are_written_in_degrees(
    column: Seq<char>,
    geometry: Seq<char>,
    crs: Seq<char>,
)
    ensures
        geometry_expression(column, false) == quoted(column, '"'),
        geometry_expression(column, true) == "ST_GeomFromWKB("@ + quoted(column, '"') + ")"@,
        geojson_expression(geometry, None) == "ST_AsGeoJSON("@ + geometry + ")"@,
        geojson_expression(geometry, Some(crs)) == "ST_AsGeoJSON(ST_Transform("@ + geometry + ", "@
            + quoted(crs, '\'') + ", 'EPSG:4326', true))"@,
{
    reveal_strlit(", ");
    reveal_strlit(", true))");
    reveal_strlit("EPSG:4326");
    reveal_strlit(", 'EPSG:4326', true))");
    let target = "EPSG:4326"@;
    assert(!target.contains('\''));
    quotes_are_doubled(target, Seq::empty(), '\'');
    let front = "ST_AsGeoJSON(ST_Transform("@ + geometry + ", "@ + quoted(crs, '\'');
    assert(", 'EPSG:4326', true))"@ == ", "@ + (seq!['\''] + target + seq!['\'']) + ", true))"@);
    assert(geojson_expression(geometry, Some(crs)) == front + ", 'EPSG:4326', true))"@);
}

/// The geometry is kept out of the properties first. Each further column is kept out exactly where
/// it is a blob or is called `ogc_fid` in any case, under its own name and in its own place.
pub proof fn blobs_and_feature_ids_are_kept_out(
    columns: Seq<DescribedColumn>,
    column: DescribedColumn,
    geometry: Seq<char>,
)
    ensures
        excluded_keys(Seq::empty(), geometry) == seq![geometry],
        excluded_keys(columns.push(column), geometry) == if column.name@ != geometry && (
        "BLOB"@.is_prefix_of(text::upper(column.column_type@)) || text::lower(column.name@)
            == "ogc_fid"@) {
            excluded_keys(columns, geometry).push(column.name@)
        } else {
            excluded_keys(columns, geometry)
        },
{
    assert(columns.push(column).drop_last() == columns);
    reveal_strlit("OGC_FID");
    reveal_strlit("ogc_fid");
    assert(text::lower("OGC_FID"@) == "ogc_fid"@);
}

/// A patch takes each key out by a member of its own, with a comma between two.
pub proof fn patches_null_every_key(keys: Seq<Seq<char>>, key: Seq<char>)
    ensures
        null_patch(Seq::empty()) == "{}"@,
        null_patch(seq![key]) == "{"@ + json::json_literal(key) + ":null}"@,
        keys.len() > 0 ==> null_patch(keys.push(key)) == null_patch(keys).drop_last() + ","@
            + json::json_literal(key) + ":null}"@,
{
    reveal_strlit("{}");
    reveal_strlit("{");
    reveal_strlit("}");
    reveal_strlit(":null");
    reveal_strlit(":null}");
    let member = |key: Seq<char>| null_member(key);
    let none = Seq::<Seq<char>>::empty();
    let glue = ","@;
    assert(none.map_values(member) == none);
    assert(null_patch(none) == "{}"@);
    assert(seq![key].map_values(member) == seq![null_member(key)]);
    assert(null_patch(seq![key]) == "{"@ + null_member(key) + "}"@);
    assert(":null"@ + "}"@ == ":null}"@);
    assert(null_patch(seq![key]) == "{"@ + json::json_literal(key) + ":null}"@);
    if keys.len() > 0 {
        let members = keys.map_values(member);
        assert(keys.push(key).map_values(member) == members.push(null_member(key)));
        split::joining_appends(members, null_member(key), glue);
        assert(null_patch(keys).drop_last() == "{"@ + split::join(members, glue));
        assert(null_patch(keys.push(key)) == "{"@ + split::join(members, glue) + glue
            + json::json_literal(key) + ":null}"@);
    }
}

/// A feature has the geometry that is asked for, and all columns of its row as properties but
/// those that the patch takes out.
pub proof fn features_have_geometry_and_properties(
    source: Seq<char>,
    geojson: Seq<char>,
    patch: Seq<char>,
)
    ensures
        per_feature_query(source, geojson, patch)
            == "SELECT json_object('type', 'Feature', 'geometry', "@ + geojson
            + "::JSON, 'properties', json_merge_patch(to_json(s), "@ + quoted(patch, '\'')
            + "))::VARCHAR AS feature FROM ("@ + source + ") AS s"@,
{
}

/// What was detected is told by the name of the column and by its kind.
pub proof fn detected_columns_are_told(geometry: DetectedGeometry)
    ensures
        geometry.model() == (geometry.column@, geometry.is_wkb),
        detected_model(Some(geometry)) == Some((geometry.column@, geometry.is_wkb)),
        detected_model(None) is None,
{
}

} // verus!
