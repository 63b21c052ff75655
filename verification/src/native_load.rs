//! Loading a local vector file through DuckDB, as the steps between its queries.
//!
//! Each stage names the query to run next. What the query answered goes back into the stage,
//! which gives the step that follows.

use vstd::prelude::*;

use crate::{paths, split, sql, text};

verus! {

/// Beyond how many features a load must be confirmed, where the caller sets no limit.
pub const DEFAULT_FEATURE_WARN_COUNT: u64 = 500_000;

/// What the caller may choose about a load.
#[derive(Debug)]
pub struct NativeVectorOptions {
    pub layer: Option<String>,
    pub override_source_crs: Option<String>,
    pub feature_warn_count: Option<u64>,
    pub large_dataset_confirmed: Option<bool>,
}

impl Default for NativeVectorOptions {
    fn default() -> (options: Self)
        ensures
            options.layer is None,
            options.override_source_crs is None,
            options.feature_warn_count is None,
            options.large_dataset_confirmed is None,
    {
        NativeVectorOptions {
            layer: None,
            override_source_crs: None,
            feature_warn_count: None,
            large_dataset_confirmed: None,
        }
    }
}

/// What a load gives back: the features, or the question whether so many are wanted.
#[derive(Debug)]
pub struct NativeVectorResult {
    pub needs_confirmation: bool,
    pub feature_count: Option<u64>,
    pub feature_collection: Option<String>,
}

/// A file to load.
#[derive(Debug)]
pub struct LoadRequest {
    pub path: String,
    pub extension: String,
    pub options: NativeVectorOptions,
}

/// `str::to_lowercase`: the text in small letters by the rules of Unicode, which depend on the
/// text alone.
pub assume_specification[ str::to_lowercase ](string: &str) -> (folded: String)
    ensures
        folded@ == unicode_lower(string@),
;

/// A text in small letters by the rules of Unicode.
pub uninterp spec fn unicode_lower(text: Seq<char>) -> Seq<char>;

// ---------------------------------------------------------------------------
// The model of a load

pub struct RequestModel {
    pub path: Seq<char>,
    pub extension: Seq<char>,
    pub layer: Option<Seq<char>>,
    pub override_source_crs: Option<Seq<char>>,
    pub feature_warn_count: Option<u64>,
    pub large_dataset_confirmed: Option<bool>,
}

impl LoadRequest {
    pub open spec fn model(self) -> RequestModel {
        RequestModel {
            path: self.path@,
            extension: self.extension@,
            layer: text::view_of(self.options.layer),
            override_source_crs: text::view_of(self.options.override_source_crs),
            feature_warn_count: self.options.feature_warn_count,
            large_dataset_confirmed: self.options.large_dataset_confirmed,
        }
    }
}

impl RequestModel {
    /// The query for the rows of the file.
    pub open spec fn source(self) -> Seq<char> {
        sql::source_query(self.path, self.extension, self.layer)
    }

    pub open spec fn describe(self) -> Seq<char> {
        "DESCRIBE "@ + self.source()
    }

    pub open spec fn count(self) -> Seq<char> {
        "SELECT count(*) FROM ("@ + self.source() + ") AS data"@
    }

    /// The number of features beyond which the load must be confirmed.
    pub open spec fn warn_count(self) -> u64 {
        match self.feature_warn_count {
            Some(count) => count,
            None => DEFAULT_FEATURE_WARN_COUNT,
        }
    }

    pub open spec fn confirmed(self) -> bool {
        self.large_dataset_confirmed == Some(true)
    }

    /// The coordinate reference system that the caller names, unless it is blank.
    pub open spec fn named_crs(self) -> Option<Seq<char>> {
        match self.override_source_crs {
            Some(crs) => if text::trim(crs).len() > 0 {
                Some(text::trim(crs))
            } else {
                None
            },
            None => None,
        }
    }

    /// The query for the features, once the columns and the reference system are known.
    pub open spec fn features(
        self,
        geometry: (Seq<char>, bool),
        excluded: Seq<Seq<char>>,
        crs: Option<Seq<char>>,
    ) -> Seq<char> {
        sql::per_feature_query(
            self.source(),
            sql::geojson_expression(sql::geometry_expression(geometry.0, geometry.1), crs),
            sql::null_patch(excluded),
        )
    }
}

/// A step of a load: the query to run next, or the end.
pub enum StepModel {
    Check { request: RequestModel, query: Seq<char> },
    Count { request: RequestModel, query: Seq<char> },
    Describe { request: RequestModel, query: Seq<char> },
    ReadCrs {
        request: RequestModel,
        geometry: (Seq<char>, bool),
        excluded: Seq<Seq<char>>,
        query: Seq<char>,
    },
    ReadFeatures { query: Seq<char> },
    Confirm { count: u64 },
    Failed { message: Seq<char> },
}

pub open spec fn no_geometry() -> StepModel {
    StepModel::Failed { message: "DuckDB did not find a geometry column in this file."@ }
}

/// The columns are looked at before anything else: a file without geometry fails here.
pub open spec fn after_check(
    request: RequestModel,
    columns: Result<Seq<sql::DescribedColumn>, Seq<char>>,
) -> StepModel {
    match columns {
        Err(message) => StepModel::Failed { message },
        Ok(columns) => if sql::geometry_column(columns) is None {
            no_geometry()
        } else if request.confirmed() {
            StepModel::Describe { request, query: request.describe() }
        } else {
            StepModel::Count { request, query: request.count() }
        },
    }
}

/// The number of rows that a count gives; a negative answer counts as none.
pub open spec fn feature_count(answer: i64) -> u64 {
    if answer < 0 {
        0
    } else {
        answer as u64
    }
}

/// More features than the limit are loaded only once the caller has confirmed it.
pub open spec fn after_count(request: RequestModel, count: Result<i64, Seq<char>>) -> StepModel {
    match count {
        Err(message) => StepModel::Failed { message },
        Ok(answer) => if feature_count(answer) > request.warn_count() {
            StepModel::Confirm { count: feature_count(answer) }
        } else {
            StepModel::Describe { request, query: request.describe() }
        },
    }
}

/// The reference system is the caller's, else the one that the file declares. Parquet files
/// declare none.
pub open spec fn after_describe(
    request: RequestModel,
    columns: Result<Seq<sql::DescribedColumn>, Seq<char>>,
) -> StepModel {
    match columns {
        Err(message) => StepModel::Failed { message },
        Ok(columns) => match sql::geometry_column(columns) {
            None => no_geometry(),
            Some(geometry) => {
                let excluded = sql::excluded_keys(columns, geometry.0);
                if request.named_crs() is Some || sql::parquet_extension(request.extension) {
                    StepModel::ReadFeatures {
                        query: request.features(geometry, excluded, request.named_crs()),
                    }
                } else {
                    StepModel::ReadCrs {
                        request,
                        geometry,
                        excluded,
                        query: sql::source_crs_query(request.path),
                    }
                }
            },
        },
    }
}

/// The reference system that a file declares: its authority and its code in capitals, where
/// neither is missing or blank.
pub open spec fn declared_crs(
    authority: Option<Seq<char>>,
    code: Option<Seq<char>>,
) -> Option<Seq<char>> {
    match (authority, code) {
        (Some(authority), Some(code)) => if text::trim(authority).len() > 0 && text::trim(
            code,
        ).len() > 0 {
            Some(text::upper(text::trim(authority)) + ":"@ + text::upper(text::trim(code)))
        } else {
            None
        },
        _ => None,
    }
}

/// The authority and code of a reference system, as the file's metadata give them.
pub open spec fn crs_answer(
    answer: Option<(Option<String>, Option<String>)>,
) -> Option<(Option<Seq<char>>, Option<Seq<char>>)> {
    match answer {
        Some((authority, code)) => Some((text::view_of(authority), text::view_of(code))),
        None => None,
    }
}

/// Without an answer the features are read as they are.
pub open spec fn after_crs(
    request: RequestModel,
    geometry: (Seq<char>, bool),
    excluded: Seq<Seq<char>>,
    answer: Option<(Option<Seq<char>>, Option<Seq<char>>)>,
) -> StepModel {
    let crs = match answer {
        Some((authority, code)) => declared_crs(authority, code),
        None => None,
    };
    StepModel::ReadFeatures { query: request.features(geometry, excluded, crs) }
}

// ---------------------------------------------------------------------------
// The stages

/// Looking at the columns, to see that there is a geometry.
#[derive(Debug)]
pub struct CheckStage {
    pub request: LoadRequest,
    pub query: String,
}

/// Counting the features.
#[derive(Debug)]
pub struct CountStage {
    pub request: LoadRequest,
    pub query: String,
}

/// Looking at the columns, to build the query for the features.
#[derive(Debug)]
pub struct DescribeStage {
    pub request: LoadRequest,
    pub query: String,
}

/// Asking the file for its coordinate reference system.
#[derive(Debug)]
pub struct CrsStage {
    pub request: LoadRequest,
    pub geometry: sql::DetectedGeometry,
    pub excluded: Vec<String>,
    pub query: String,
}

/// Reading the features, one text for each row.
#[derive(Debug)]
pub struct FeatureStage {
    pub query: String,
}

#[derive(Debug)]
pub enum LoadStep {
    Check(CheckStage),
    Count(CountStage),
    Describe(DescribeStage),
    ReadCrs(CrsStage),
    ReadFeatures(FeatureStage),
    Confirm(NativeVectorResult),
    Failed(String),
}

/// A result that asks for confirmation.
pub open spec fn asks_to_confirm(result: NativeVectorResult) -> bool {
    result.needs_confirmation && result.feature_count is Some && result.feature_collection is None
}

impl LoadStep {
    pub open spec fn model(self) -> StepModel {
        match self {
            LoadStep::Check(stage) => StepModel::Check {
                request: stage.request.model(),
                query: stage.query@,
            },
            LoadStep::Count(stage) => StepModel::Count {
                request: stage.request.model(),
                query: stage.query@,
            },
            LoadStep::Describe(stage) => StepModel::Describe {
                request: stage.request.model(),
                query: stage.query@,
            },
            LoadStep::ReadCrs(stage) => StepModel::ReadCrs {
                request: stage.request.model(),
                geometry: stage.geometry.model(),
                excluded: text::views(stage.excluded@),
                query: stage.query@,
            },
            LoadStep::ReadFeatures(stage) => StepModel::ReadFeatures { query: stage.query@ },
            LoadStep::Confirm(result) => StepModel::Confirm { count: result.feature_count->0 },
            LoadStep::Failed(message) => StepModel::Failed { message: message@ },
        }
    }

    /// A step that ends a load with a question asks it completely.
    pub open spec fn complete(self) -> bool {
        self matches LoadStep::Confirm(result) ==> asks_to_confirm(result)
    }
}

/// The columns that a query reported, or its error.
pub open spec fn described(
    columns: Result<Vec<sql::DescribedColumn>, String>,
) -> Result<Seq<sql::DescribedColumn>, Seq<char>> {
    match columns {
        Ok(columns) => Ok(columns@),
        Err(message) => Err(message@),
    }
}

/// The number that a query counted, or its error.
pub open spec fn counted(count: Result<i64, String>) -> Result<i64, Seq<char>> {
    match count {
        Ok(count) => Ok(count),
        Err(message) => Err(message@),
    }
}

fn request_source(request: &LoadRequest) -> (source: String)
    ensures
        source@ == request.model().source(),
{
    match &request.options.layer {
        Some(layer) => sql::source_sql(
            request.path.as_str(),
            request.extension.as_str(),
            Some(layer.as_str()),
        ),
        None => sql::source_sql(request.path.as_str(), request.extension.as_str(), None),
    }
}

fn no_geometry_step() -> (step: LoadStep)
    ensures
        step.model() == no_geometry(),
        step.complete(),
{
    LoadStep::Failed("DuckDB did not find a geometry column in this file.".to_owned())
}

fn describe_step(request: LoadRequest) -> (step: LoadStep)
    ensures
        step.model() == (StepModel::Describe {
            request: request.model(),
            query: request.model().describe(),
        }),
        step.complete(),
{
    let source = request_source(&request);
    let query = sql::describe_sql(source.as_str());
    LoadStep::Describe(DescribeStage { request, query })
}

/// A load of a local vector file, if its path is allowed. The extension is taken in small
/// letters.
pub fn native_load_request(
    path: String,
    extension: &str,
    options: NativeVectorOptions,
) -> (request: Result<LoadRequest, String>)
    ensures
        match request {
            Ok(request) => paths::allowed_local_vector_path(path@) && request.path == path
                && request.extension@ == unicode_lower(extension@) && request.options == options,
            Err(message) => !paths::allowed_local_vector_path(path@) && message@ == paths::refusal(
                path@,
            ),
        },
{
    match paths::check_local_vector_path(path.as_str()) {
        Ok(_) => Ok(LoadRequest { path, extension: extension.to_lowercase(), options }),
        Err(message) => Err(message),
    }
}

/// The first step of a load.
pub fn begin_native_load(request: LoadRequest) -> (stage: CheckStage)
    ensures
        stage.request == request,
        stage.query@ == request.model().describe(),
{
    let source = request_source(&request);
    let query = sql::describe_sql(source.as_str());
    CheckStage { request, query }
}

impl CheckStage {
    pub fn described(self, columns: Result<Vec<sql::DescribedColumn>, String>) -> (step: LoadStep)
        ensures
            step.model() == after_check(self.request.model(), described(columns)),
            step.complete(),
    {
        let request = self.request;
        match columns {
            Err(message) => LoadStep::Failed(message),
            Ok(columns) => {
                if sql::detect_geometry_column(columns.as_slice()).is_none() {
                    return no_geometry_step();
                }
                let confirmed = match request.options.large_dataset_confirmed {
                    Some(confirmed) => confirmed,
                    None => false,
                };
                if confirmed {
                    describe_step(request)
                } else {
                    let source = request_source(&request);
                    let query = sql::count_sql(source.as_str());
                    LoadStep::Count(CountStage { request, query })
                }
            },
        }
    }
}

impl CountStage {
    pub fn counted(self, count: Result<i64, String>) -> (step: LoadStep)
        ensures
            step.model() == after_count(self.request.model(), counted(count)),
            step.complete(),
    {
        let request = self.request;
        match count {
            Err(message) => LoadStep::Failed(message),
            Ok(answer) => {
                let count: u64 = if answer < 0 {
                    0
                } else {
                    answer as u64
                };
                let limit: u64 = match request.options.feature_warn_count {
                    Some(limit) => limit,
                    None => DEFAULT_FEATURE_WARN_COUNT,
                };
                if count > limit {
                    LoadStep::Confirm(
                        NativeVectorResult {
                            needs_confirmation: true,
                            feature_count: Some(count),
                            feature_collection: None,
                        },
                    )
                } else {
                    describe_step(request)
                }
            },
        }
    }
}

/// The reference system that the caller names, unless it is blank.
fn named_crs(request: &LoadRequest) -> (crs: Option<String>)
    ensures
        text::view_of(crs) == request.model().named_crs(),
{
    match &request.options.override_source_crs {
        Some(crs) => {
            let crs = text::trimmed(crs.as_str());
            if crs.as_str().is_empty() {
                None
            } else {
                Some(crs)
            }
        },
        None => None,
    }
}

/// The reference system that a file declares, from the authority and code of its metadata.
pub fn declared_crs_name(authority: Option<String>, code: Option<String>) -> (crs: Option<String>)
    ensures
        text::view_of(crs) == declared_crs(text::view_of(authority), text::view_of(code)),
{
    match (authority, code) {
        (Some(authority), Some(code)) => {
            let authority = text::trimmed(authority.as_str());
            let code = text::trimmed(code.as_str());
            if authority.as_str().is_empty() || code.as_str().is_empty() {
                return None;
            }
            let code = text::to_upper(code.as_str());
            let mut crs = text::to_upper(authority.as_str());
            crs.append(":");
            crs.append(code.as_str());
            Some(crs)
        },
        _ => None,
    }
}

fn feature_stage(
    request: &LoadRequest,
    geometry: &sql::DetectedGeometry,
    excluded: &Vec<String>,
    crs: Option<String>,
) -> (stage: FeatureStage)
    ensures
        stage.query@ == request.model().features(
            geometry.model(),
            text::views(excluded@),
            text::view_of(crs),
        ),
{
    let source = request_source(request);
    let column = sql::geometry_expr(geometry);
    let geojson = match &crs {
        Some(crs) => sql::geometry_geojson_expr(column.as_str(), Some(crs.as_str())),
        None => sql::geometry_geojson_expr(column.as_str(), None),
    };
    let patch = sql::null_patch_json(excluded.as_slice());
    let query = sql::per_feature_sql(source.as_str(), geojson.as_str(), patch.as_str());
    FeatureStage { query }
}

impl DescribeStage {
    pub fn described(self, columns: Result<Vec<sql::DescribedColumn>, String>) -> (step: LoadStep)
        ensures
            step.model() == after_describe(self.request.model(), described(columns)),
            step.complete(),
    {
        let request = self.request;
        match columns {
            Err(message) => LoadStep::Failed(message),
            Ok(columns) => match sql::detect_geometry_column(columns.as_slice()) {
                None => no_geometry_step(),
                Some(geometry) => {
                    let excluded = sql::excluded_property_keys(
                        columns.as_slice(),
                        geometry.column.as_str(),
                    );
                    let crs = named_crs(&request);
                    if crs.is_some() || sql::is_parquet_extension(request.extension.as_str()) {
                        LoadStep::ReadFeatures(feature_stage(&request, &geometry, &excluded, crs))
                    } else {
                        let query = sql::source_crs_sql(request.path.as_str());
                        LoadStep::ReadCrs(CrsStage { request, geometry, excluded, query })
                    }
                },
            },
        }
    }
}

impl CrsStage {
    /// Goes on with the authority and code that the file's metadata gave, or without an answer.
    pub fn crs_read(self, answer: Option<(Option<String>, Option<String>)>) -> (stage: FeatureStage)
        ensures
            LoadStep::ReadFeatures(stage).model() == after_crs(
                self.request.model(),
                self.geometry.model(),
                text::views(self.excluded@),
                crs_answer(answer),
            ),
    {
        let crs = match answer {
            Some((authority, code)) => declared_crs_name(authority, code),
            None => None,
        };
        feature_stage(&self.request, &self.geometry, &self.excluded, crs)
    }
}

/// The result of a load that has read its features.
pub fn loaded(feature_collection: String) -> (result: NativeVectorResult)
    ensures
        !result.needs_confirmation,
        result.feature_count is None,
        result.feature_collection == Some(feature_collection),
{
    NativeVectorResult {
        needs_confirmation: false,
        feature_count: None,
        feature_collection: Some(feature_collection),
    }
}

// ---------------------------------------------------------------------------
// The feature collection

/// The GeoJSON text of a collection of features.
pub open spec fn collection_text(features: Seq<Seq<char>>) -> Seq<char> {
    "{\"type\":\"FeatureCollection\",\"features\":["@ + split::join(features, ","@) + "]}"@
}

/// The error of the first row that could not be read, if there is one.
pub open spec fn first_failure(rows: Seq<Result<Seq<char>, Seq<char>>>) -> Option<Seq<char>>
    decreases rows.len(),
{
    if rows.len() == 0 {
        None
    } else {
        match first_failure(rows.drop_last()) {
            Some(error) => Some(error),
            None => match rows.last() {
                Ok(_) => None,
                Err(error) => Some(error),
            },
        }
    }
}

/// The features of rows that could all be read.
pub open spec fn row_features(rows: Seq<Result<Seq<char>, Seq<char>>>) -> Seq<Seq<char>> {
    rows.map_values(|row: Result<Seq<char>, Seq<char>>| row->Ok_0)
}

/// The message that a row could not be read.
pub open spec fn row_failure(error: Seq<char>) -> Seq<char> {
    "Could not build GeoJSON: "@ + error
}

/// What the rows of a query give: the collection of their features, or the first failure.
pub open spec fn rows_outcome(rows: Seq<Result<Seq<char>, Seq<char>>>) -> Result<
    Seq<char>,
    Seq<char>,
> {
    match first_failure(rows) {
        Some(error) => Err(row_failure(error)),
        None => Ok(collection_text(row_features(rows))),
    }
}

/// A row that could not be read decides, whatever rows follow: there is never a collection of a
/// part of the rows.
pub proof fn the_first_failing_row_decides(
    rows: Seq<Result<Seq<char>, Seq<char>>>,
    error: Seq<char>,
    more: Seq<Result<Seq<char>, Seq<char>>>,
)
    requires
        first_failure(rows) is None,
    ensures
        rows_outcome(rows) == Ok::<Seq<char>, Seq<char>>(collection_text(row_features(rows))),
        rows_outcome(rows.push(Err(error)) + more) == Err::<Seq<char>, Seq<char>>(
            row_failure(error),
        ),
    decreases more.len(),
{
    let failed = rows.push(Err::<Seq<char>, Seq<char>>(error));
    if more.len() == 0 {
        assert(failed + more == failed);
        assert(failed.drop_last() == rows);
    } else {
        the_first_failing_row_decides(rows, error, more.drop_last());
        assert((failed + more).drop_last() == failed + more.drop_last());
    }
}

/// A feature collection that is written feature by feature.
pub struct FeatureCollectionWriter {
    text: String,
    empty: bool,
}

impl FeatureCollectionWriter {
    /// The writer has been given exactly these features, in this order.
    pub closed spec fn holds(self, features: Seq<Seq<char>>) -> bool {
        &&& self.text@ == "{\"type\":\"FeatureCollection\",\"features\":["@ + split::join(
            features,
            ","@,
        )
        &&& self.empty == (features.len() == 0)
    }

    pub fn new() -> (writer: Self)
        ensures
            writer.holds(Seq::empty()),
            writer.has_read(Seq::empty()),
    {
        assert(row_features(Seq::empty()) == Seq::<Seq<char>>::empty());
        let text = "{\"type\":\"FeatureCollection\",\"features\":[".to_owned();
        assert(text@ == text@ + split::join(Seq::empty(), ","@));
        FeatureCollectionWriter { text, empty: true }
    }

    pub fn push(&mut self, feature: &str)
        ensures
            forall|features: Seq<Seq<char>>| #[trigger]
                old(self).holds(features) ==> final(self).holds(features.push(feature@)),
    {
        let ghost before = *self;
        if !self.empty {
            self.text.append(",");
        }
        self.text.append(feature);
        self.empty = false;
        assert forall|features: Seq<Seq<char>>| #[trigger] before.holds(features) implies self.holds(
            features.push(feature@),
        ) by {
            let longer = features.push(feature@);
            let start = "{\"type\":\"FeatureCollection\",\"features\":["@;
            assert(longer.drop_last() == features);
            assert(longer.last() == feature@);
            if features.len() == 0 {
                assert(longer[0] == feature@);
                assert(before.text@ == start);
            } else {
                assert(start + split::join(features, ","@) + ","@ + feature@ == start + (split::join(
                    features,
                    ","@,
                ) + ","@ + feature@));
            }
        }
    }

    /// The writer has read exactly these rows, none of which has failed.
    pub open spec fn has_read(self, rows: Seq<Result<Seq<char>, Seq<char>>>) -> bool {
        first_failure(rows) is None && self.holds(row_features(rows))
    }

    /// Adds the feature of a row, or reports that the row could not be read.
    pub fn read(&mut self, row: Result<String, String>) -> (outcome: Result<(), String>)
        ensures
            match row {
                Ok(feature) => outcome is Ok && forall|features: Seq<Seq<char>>| #[trigger]
                    old(self).holds(features) ==> final(self).holds(features.push(feature@)),
                Err(error) => {
                    &&& outcome matches Err(message) && message@ == row_failure(error@)
                    &&& *final(self) == *old(self)
                },
            },
            forall|rows: Seq<Result<Seq<char>, Seq<char>>>| #[trigger]
                old(self).has_read(rows) ==> match outcome {
                    Ok(_) => final(self).has_read(rows.push(text::outcome_view(row))),
                    Err(message) => rows_outcome(rows.push(text::outcome_view(row))) == Err::<
                        Seq<char>,
                        Seq<char>,
                    >(message@),
                },
    {
        let ghost before = *self;
        match row {
            Ok(feature) => {
                self.push(feature.as_str());
                assert forall|rows: Seq<Result<Seq<char>, Seq<char>>>| #[trigger]
                    before.has_read(rows) implies self.has_read(rows.push(Ok(feature@))) by {
                    let longer = rows.push(Ok::<Seq<char>, Seq<char>>(feature@));
                    assert(longer.drop_last() == rows);
                    assert(row_features(longer) == row_features(rows).push(feature@));
                }
                Ok(())
            },
            Err(error) => {
                let message = text::chained("Could not build GeoJSON: ", error.as_str());
                assert forall|rows: Seq<Result<Seq<char>, Seq<char>>>| #[trigger]
                    before.has_read(rows) implies rows_outcome(rows.push(Err(error@))) == Err::<
                    Seq<char>,
                    Seq<char>,
                >(message@) by {
                    let longer = rows.push(Err::<Seq<char>, Seq<char>>(error@));
                    assert(longer.drop_last() == rows);
                }
                Err(message)
            },
        }
    }

    pub fn finish(self) -> (text: String)
        ensures
            forall|features: Seq<Seq<char>>| #[trigger]
                self.holds(features) ==> text@ == collection_text(features),
            forall|rows: Seq<Result<Seq<char>, Seq<char>>>| #[trigger]
                self.has_read(rows) ==> rows_outcome(rows) == Ok::<Seq<char>, Seq<char>>(text@),
    {
        let mut text = self.text;
        text.append("]}");
        text
    }
}

// ---------------------------------------------------------------------------
// Laws

/// A load of more features than the limit asks first, and only then: without confirmation the
/// count decides, with it the features are never counted.
pub proof fn large_loads_ask_first(
    request: RequestModel,
    columns: Seq<sql::DescribedColumn>,
    answer: i64,
)
    requires
        sql::geometry_column(columns) is Some,
    ensures
        request.confirmed() <==> after_check(request, Ok(columns)) is Describe,
        !request.confirmed() <==> after_check(request, Ok(columns)) is Count,
        after_count(request, Ok(answer)) is Confirm <==> answer > request.warn_count(),
        after_count(request, Ok(answer)) is Confirm ==> after_count(request, Ok(answer))->Confirm_count
            == answer,
{
}

/// What the queries of a load answer: the columns at the first and at the second look, the number
/// of features, and the reference system.
pub struct LoadAnswers {
    pub first_look: Result<Seq<sql::DescribedColumn>, Seq<char>>,
    pub count: Result<i64, Seq<char>>,
    pub second_look: Result<Seq<sql::DescribedColumn>, Seq<char>>,
    pub crs: Option<(Option<Seq<char>>, Option<Seq<char>>)>,
}

/// What follows a step, given the answers to the queries.
pub open spec fn next_step(step: StepModel, answers: LoadAnswers) -> StepModel {
    match step {
        StepModel::Check { request, .. } => after_check(request, answers.first_look),
        StepModel::Count { request, .. } => after_count(request, answers.count),
        StepModel::Describe { request, .. } => after_describe(request, answers.second_look),
        StepModel::ReadCrs { request, geometry, excluded, .. } => after_crs(
            request,
            geometry,
            excluded,
            answers.crs,
        ),
        other => other,
    }
}

/// The end of a load, given the answers to its queries.
pub open spec fn load_end(request: RequestModel, answers: LoadAnswers) -> StepModel {
    let first = StepModel::Check { request, query: request.describe() };
    next_step(next_step(next_step(next_step(first, answers), answers), answers), answers)
}

/// Some columns with a geometry among them.
pub open spec fn with_geometry(columns: Result<Seq<sql::DescribedColumn>, Seq<char>>) -> bool {
    columns matches Ok(columns) && sql::geometry_column(columns) is Some
}

/// The reference system that the features of a load are read from.
pub open spec fn load_crs(request: RequestModel, answers: LoadAnswers) -> Option<Seq<char>> {
    if request.named_crs() is Some || sql::parquet_extension(request.extension) {
        request.named_crs()
    } else {
        match answers.crs {
            Some((authority, code)) => declared_crs(authority, code),
            None => None,
        }
    }
}

/// A load ends after at most four queries, with its features, with a question, or with an error.
/// It reads features exactly where there is a geometry and either the caller has confirmed the
/// load or no more features were counted than the limit; and what it reads is one query over the
/// file, with its geometry taken from the caller's reference system or from the file's own.
pub proof fn loads_read_what_was_asked_for(request: RequestModel, answers: LoadAnswers)
    ensures
        match load_end(request, answers) {
            StepModel::ReadFeatures { query } => {
                &&& with_geometry(answers.first_look)
                &&& with_geometry(answers.second_look)
                &&& request.confirmed() || (answers.count matches Ok(count) && feature_count(count)
                    <= request.warn_count())
                &&& query == request.features(
                    sql::geometry_column(answers.second_look->Ok_0)->0,
                    sql::excluded_keys(
                        answers.second_look->Ok_0,
                        (sql::geometry_column(answers.second_look->Ok_0)->0).0,
                    ),
                    load_crs(request, answers),
                )
            },
            StepModel::Confirm { count } => {
                &&& with_geometry(answers.first_look)
                &&& !request.confirmed()
                &&& answers.count matches Ok(counted) && count == feature_count(counted)
                &&& count > request.warn_count()
            },
            StepModel::Failed { .. } => {
                ||| !with_geometry(answers.first_look)
                ||| !request.confirmed() && answers.count is Err
                ||| !with_geometry(answers.second_look)
            },
            _ => false,
        },
{
}

/// A file without a geometry column fails with that message before anything is counted, whatever
/// the caller chose.
pub proof fn missing_geometry_fails_first(
    request: RequestModel,
    columns: Seq<sql::DescribedColumn>,
)
    requires
        sql::geometry_column(columns) is None,
    ensures
        after_check(request, Ok(columns)) == no_geometry(),
        after_describe(request, Ok(columns)) == no_geometry(),
{
}

/// The caller's reference system takes precedence: the file is then never asked for its own,
/// and neither is a Parquet file.
pub proof fn named_crs_takes_precedence(
    request: RequestModel,
    columns: Seq<sql::DescribedColumn>,
)
    requires
        sql::geometry_column(columns) is Some,
    ensures
        after_describe(request, Ok(columns)) is ReadCrs <==> request.named_crs() is None
            && !sql::parquet_extension(request.extension),
        after_describe(request, Ok(columns)) is ReadCrs || after_describe(
            request,
            Ok(columns),
        ) is ReadFeatures,
{
}

/// The expression for a geometry column: a blob is read as well-known binary.
pub open spec fn column_text(geometry: (Seq<char>, bool)) -> Seq<char> {
    if geometry.1 {
        "ST_GeomFromWKB("@ + sql::quoted(geometry.0, '"') + ")"@
    } else {
        sql::quoted(geometry.0, '"')
    }
}

/// The query for the features of a file with the given columns, where `geojson` is the text of
/// their geometry.
pub open spec fn features_text(
    request: LoadRequest,
    columns: Seq<sql::DescribedColumn>,
    geojson: Seq<char>,
) -> Seq<char> {
    let geometry = sql::geometry_column(columns)->0;
    "SELECT json_object('type', 'Feature', 'geometry', "@ + geojson
        + "::JSON, 'properties', json_merge_patch(to_json(s), "@ + sql::quoted(
        sql::null_patch(sql::excluded_keys(columns, geometry.0)),
        '\'',
    ) + "))::VARCHAR AS feature FROM ("@ + sql::source_query(
        request.path@,
        request.extension@,
        text::view_of(request.options.layer),
    ) + ") AS s"@
}

/// A reference system that the caller names is always used, for every kind of file: right after
/// the columns are known the features are read, each with its geometry brought from the named
/// system, without the white space around its name, to `EPSG:4326`.
pub proof fn a_named_crs_is_reprojected(
    request: LoadRequest,
    columns: Vec<sql::DescribedColumn>,
    crs: String,
)
    requires
        request.options.override_source_crs == Some(crs),
        text::trim(crs@).len() > 0,
        sql::geometry_column(columns@) is Some,
    ensures
        ({
            let geometry = sql::geometry_column(columns@)->0;
            let column = if geometry.1 {
                "ST_GeomFromWKB("@ + sql::quoted(geometry.0, '"') + ")"@
            } else {
                sql::quoted(geometry.0, '"')
            };
            let transformed = "ST_Transform("@ + column + ", "@ + sql::quoted(
                text::trim(crs@),
                '\'',
            ) + ", 'EPSG:4326', true)"@;
            let step = after_describe(request.model(), described(Ok(columns)));
            &&& step is ReadFeatures
            &&& text::occurs_in(step->ReadFeatures_query, transformed)
            &&& step->ReadFeatures_query == features_text(
                request,
                columns@,
                "ST_AsGeoJSON("@ + transformed + ")"@,
            )
        }),
{
    let geometry = sql::geometry_column(columns@)->0;
    let column = column_text(geometry);
    let named = text::trim(crs@);
    let transformed = "ST_Transform("@ + column + ", "@ + sql::quoted(named, '\'')
        + ", 'EPSG:4326', true)"@;
    let excluded = sql::excluded_keys(columns@, geometry.0);
    lemma_transformed(request, geometry, excluded, named);
    let query = request.model().features(geometry, excluded, Some(named));
    let front = "SELECT json_object('type', 'Feature', 'geometry', "@ + "ST_AsGeoJSON("@;
    let back = ")"@ + "::JSON, 'properties', json_merge_patch(to_json(s), "@ + sql::quoted(
        sql::null_patch(excluded),
        '\'',
    ) + "))::VARCHAR AS feature FROM ("@ + request.model().source() + ") AS s"@;
    assert(query == front + transformed + back);
    text::occurring_is_standing_between(front, transformed, back, query);
}

proof fn lemma_transformed(
    request: LoadRequest,
    geometry: (Seq<char>, bool),
    excluded: Seq<Seq<char>>,
    crs: Seq<char>,
)
    ensures
        request.model().features(geometry, excluded, Some(crs))
            == "SELECT json_object('type', 'Feature', 'geometry', "@ + ("ST_AsGeoJSON("@ + (
        "ST_Transform("@ + column_text(geometry) + ", "@ + sql::quoted(crs, '\'')
            + ", 'EPSG:4326', true)"@) + ")"@) + "::JSON, 'properties', json_merge_patch(to_json(s), "@
            + sql::quoted(sql::null_patch(excluded), '\'') + "))::VARCHAR AS feature FROM ("@
            + request.model().source() + ") AS s"@,
{
    let column = column_text(geometry);
    sql::geometries_are_written_in_degrees(geometry.0, column, crs);
    reveal_strlit("ST_AsGeoJSON(ST_Transform(");
    reveal_strlit("ST_AsGeoJSON(");
    reveal_strlit("ST_Transform(");
    reveal_strlit(", 'EPSG:4326', true))");
    reveal_strlit(", 'EPSG:4326', true)");
    reveal_strlit(")");
    assert("ST_AsGeoJSON(ST_Transform("@ == "ST_AsGeoJSON("@ + "ST_Transform("@);
    assert(", 'EPSG:4326', true))"@ == ", 'EPSG:4326', true)"@ + ")"@);
    assert(sql::geojson_expression(column, Some(crs)) == "ST_AsGeoJSON("@ + ("ST_Transform("@
        + column + ", "@ + sql::quoted(crs, '\'') + ", 'EPSG:4326', true)"@) + ")"@);
    sql::features_have_geometry_and_properties(
        request.model().source(),
        sql::geojson_expression(column, Some(crs)),
        sql::null_patch(excluded),
    );
}

/// The query for the features holds the text of their geometry: brought to `EPSG:4326` where its
/// reference system is known, and as it is where it is not.
pub proof fn queries_hold_the_geometry(
    request: LoadRequest,
    geometry: (Seq<char>, bool),
    excluded: Seq<Seq<char>>,
    crs: Seq<char>,
)
    ensures
        ({
            let column = if geometry.1 {
                "ST_GeomFromWKB("@ + sql::quoted(geometry.0, '"') + ")"@
            } else {
                sql::quoted(geometry.0, '"')
            };
            &&& text::occurs_in(
                request.model().features(geometry, excluded, Some(crs)),
                "ST_Transform("@ + column + ", "@ + sql::quoted(crs, '\'') + ", 'EPSG:4326', true)"@,
            )
            &&& text::occurs_in(
                request.model().features(geometry, excluded, None),
                "ST_AsGeoJSON("@ + column + ")"@,
            )
        }),
{
    let column = column_text(geometry);
    let transformed = "ST_Transform("@ + column + ", "@ + sql::quoted(crs, '\'')
        + ", 'EPSG:4326', true)"@;
    let written = "ST_AsGeoJSON("@ + column + ")"@;
    let start = "SELECT json_object('type', 'Feature', 'geometry', "@;
    let patch = sql::quoted(sql::null_patch(excluded), '\'');
    let source = request.model().source();
    let end = "::JSON, 'properties', json_merge_patch(to_json(s), "@ + patch
        + "))::VARCHAR AS feature FROM ("@ + source + ") AS s"@;
    lemma_transformed(request, geometry, excluded, crs);
    let query = request.model().features(geometry, excluded, Some(crs));
    let front = start + "ST_AsGeoJSON("@;
    let back = ")"@ + end;
    assert(query == front + transformed + back);
    text::occurring_is_standing_between(front, transformed, back, query);
    let plain = request.model().features(geometry, excluded, None);
    assert(plain == start + written + end);
    text::occurring_is_standing_between(start, written, end, plain);
}

/// Where the caller names no reference system, or a blank one, the features of a Parquet file are
/// read as they are, and any other file is asked for its own first.
pub proof fn without_a_named_crs_the_file_is_asked(
    request: LoadRequest,
    columns: Vec<sql::DescribedColumn>,
)
    requires
        request.options.override_source_crs matches Some(crs) ==> text::trim(crs@).len() == 0,
        sql::geometry_column(columns@) is Some,
    ensures
        ({
            let geometry = sql::geometry_column(columns@)->0;
            let column = if geometry.1 {
                "ST_GeomFromWKB("@ + sql::quoted(geometry.0, '"') + ")"@
            } else {
                sql::quoted(geometry.0, '"')
            };
            let step = after_describe(request.model(), described(Ok(columns)));
            if request.extension@ == "parquet"@ || request.extension@ == "geoparquet"@ {
                step == (StepModel::ReadFeatures {
                    query: features_text(request, columns@, "ST_AsGeoJSON("@ + column + ")"@),
                })
            } else {
                &&& step is ReadCrs
                &&& step->ReadCrs_query
                    == "SELECT layers[1].geometry_fields[1].crs.auth_name, layers[1].geometry_fields[1].crs.auth_code FROM ST_Read_Meta("@
                    + sql::quoted(request.path@, '\'') + ")"@
                &&& step->ReadCrs_request == request.model()
                &&& step->ReadCrs_geometry == geometry
                &&& step->ReadCrs_excluded == sql::excluded_keys(columns@, geometry.0)
            }
        }),
{
}

/// The reference system that a file declares is used where neither its authority nor its code is
/// missing or blank: both in capitals and without the white space around them. Else the features
/// are read as they are.
pub proof fn a_declared_crs_is_reprojected(
    request: LoadRequest,
    columns: Vec<sql::DescribedColumn>,
    authority: Option<String>,
    code: Option<String>,
)
    requires
        sql::geometry_column(columns@) is Some,
    ensures
        ({
            let geometry = sql::geometry_column(columns@)->0;
            let excluded = sql::excluded_keys(columns@, geometry.0);
            let column = if geometry.1 {
                "ST_GeomFromWKB("@ + sql::quoted(geometry.0, '"') + ")"@
            } else {
                sql::quoted(geometry.0, '"')
            };
            let declared = authority is Some && code is Some && text::trim(authority->0@).len() > 0
                && text::trim(code->0@).len() > 0;
            let crs = text::upper(text::trim(authority->0@)) + ":"@ + text::upper(
                text::trim(code->0@),
            );
            let geojson = if declared {
                "ST_AsGeoJSON("@ + ("ST_Transform("@ + column + ", "@ + sql::quoted(crs, '\'')
                    + ", 'EPSG:4326', true)"@) + ")"@
            } else {
                "ST_AsGeoJSON("@ + column + ")"@
            };
            &&& after_crs(
                request.model(),
                geometry,
                excluded,
                crs_answer(Some((authority, code))),
            ) == (StepModel::ReadFeatures { query: features_text(request, columns@, geojson) })
            &&& after_crs(request.model(), geometry, excluded, crs_answer(None)) == (
            StepModel::ReadFeatures {
                query: features_text(request, columns@, "ST_AsGeoJSON("@ + column + ")"@),
            })
        }),
{
    let geometry = sql::geometry_column(columns@)->0;
    let excluded = sql::excluded_keys(columns@, geometry.0);
    let crs = text::upper(text::trim(authority->0@)) + ":"@ + text::upper(text::trim(code->0@));
    lemma_transformed(request, geometry, excluded, crs);
}

/// The columns and the number of features are asked of the same rows that are read. A load that
/// the caller has confirmed is not counted; any other goes on only where there are no more
/// features than the caller's limit, or than half a million where the caller sets none.
pub proof fn loads_are_counted_unless_confirmed(
    request: LoadRequest,
    columns: Vec<sql::DescribedColumn>,
    answer: i64,
)
    requires
        sql::geometry_column(columns@) is Some,
    ensures
        ({
            let source = sql::source_query(
                request.path@,
                request.extension@,
                text::view_of(request.options.layer),
            );
            let describing = StepModel::Describe {
                request: request.model(),
                query: "DESCRIBE "@ + source,
            };
            let checked = after_check(request.model(), described(Ok(columns)));
            let counted = after_count(request.model(), counted(Ok(answer)));
            let limit = if request.options.feature_warn_count is Some {
                request.options.feature_warn_count->0
            } else {
                500_000
            };
            &&& request.model().describe() == "DESCRIBE "@ + source
            &&& checked == if request.options.large_dataset_confirmed == Some(true) {
                describing
            } else {
                StepModel::Count {
                    request: request.model(),
                    query: "SELECT count(*) FROM ("@ + source + ") AS data"@,
                }
            }
            &&& counted == if answer > limit {
                StepModel::Confirm { count: answer as u64 }
            } else {
                describing
            }
        }),
{
}

/// What a query fails with ends the load with that message, and a file without a geometry column
/// is refused at either look.
pub proof fn failed_queries_end_the_load(
    request: LoadRequest,
    columns: Vec<sql::DescribedColumn>,
    error: String,
)
    ensures
        after_check(request.model(), described(Err(error))) == (StepModel::Failed {
            message: error@,
        }),
        after_count(request.model(), counted(Err(error))) == (StepModel::Failed { message: error@ }),
        after_describe(request.model(), described(Err(error))) == (StepModel::Failed {
            message: error@,
        }),
        sql::geometry_column(columns@) is None ==> {
            let refused = StepModel::Failed {
                message: "DuckDB did not find a geometry column in this file."@,
            };
            &&& after_check(request.model(), described(Ok(columns))) == refused
            &&& after_describe(request.model(), described(Ok(columns))) == refused
        },
{
}

/// A step shows the query that is run, the request that it belongs to, and how it ends.
pub proof fn steps_show_what_is_run(
    check: CheckStage,
    count: CountStage,
    describe: DescribeStage,
    crs: CrsStage,
    features: FeatureStage,
    result: NativeVectorResult,
    message: String,
)
    ensures
        LoadStep::Check(check).model() == (StepModel::Check {
            request: check.request.model(),
            query: check.query@,
        }),
        LoadStep::Count(count).model() == (StepModel::Count {
            request: count.request.model(),
            query: count.query@,
        }),
        LoadStep::Describe(describe).model() == (StepModel::Describe {
            request: describe.request.model(),
            query: describe.query@,
        }),
        LoadStep::ReadCrs(crs).model() == (StepModel::ReadCrs {
            request: crs.request.model(),
            geometry: (crs.geometry.column@, crs.geometry.is_wkb),
            excluded: text::views(crs.excluded@),
            query: crs.query@,
        }),
        LoadStep::ReadFeatures(features).model() == (StepModel::ReadFeatures {
            query: features.query@,
        }),
        LoadStep::Failed(message).model() == (StepModel::Failed { message: message@ }),
        LoadStep::Confirm(result).complete() ==> {
            &&& result.needs_confirmation
            &&& result.feature_collection is None
            &&& result.feature_count is Some
            &&& LoadStep::Confirm(result).model() == (StepModel::Confirm {
                count: result.feature_count->0,
            })
        },
{
}

/// The request that a step carries is the one that was made.
pub proof fn requests_are_carried_whole(request: LoadRequest)
    ensures
        request.model().path == request.path@,
        request.model().extension == request.extension@,
        request.model().layer == text::view_of(request.options.layer),
        request.model().override_source_crs == text::view_of(request.options.override_source_crs),
        request.model().feature_warn_count == request.options.feature_warn_count,
        request.model().large_dataset_confirmed == request.options.large_dataset_confirmed,
{
}

/// Rows that could all be read give one collection with exactly their features, in their order and
/// with commas between them; else the first row that could not be read gives the message.
pub proof fn collections_hold_every_row(
    rows: Seq<Result<Seq<char>, Seq<char>>>,
    at: int,
)
    ensures
        rows_outcome(Seq::empty()) == Ok::<Seq<char>, Seq<char>>(
            "{\"type\":\"FeatureCollection\",\"features\":[]}"@,
        ),
        (forall|i: int| 0 <= i < rows.len() ==> #[trigger] rows[i] is Ok) ==> {
            let features = Seq::new(rows.len(), |i: int| rows[i]->Ok_0);
            rows_outcome(rows) == Ok::<Seq<char>, Seq<char>>(
                "{\"type\":\"FeatureCollection\",\"features\":["@ + split::join(features, ","@) + "]}"@,
            )
        },
        0 <= at < rows.len() && rows[at] is Err && (forall|i: int|
            0 <= i < at ==> #[trigger] rows[i] is Ok) ==> rows_outcome(rows) == Err::<
            Seq<char>,
            Seq<char>,
        >("Could not build GeoJSON: "@ + rows[at]->Err_0),
{
    reveal_strlit("{\"type\":\"FeatureCollection\",\"features\":[");
    reveal_strlit("{\"type\":\"FeatureCollection\",\"features\":[]}");
    reveal_strlit("]}");
    let none = Seq::<Result<Seq<char>, Seq<char>>>::empty();
    assert(row_features(none) == Seq::<Seq<char>>::empty());
    assert(collection_text(row_features(none))
        == "{\"type\":\"FeatureCollection\",\"features\":[]}"@);
    if forall|i: int| 0 <= i < rows.len() ==> #[trigger] rows[i] is Ok {
        lemma_no_failure(rows);
        assert(row_features(rows) == Seq::new(rows.len(), |i: int| rows[i]->Ok_0));
    }
    if 0 <= at < rows.len() && rows[at] is Err && (forall|i: int|
        0 <= i < at ==> #[trigger] rows[i] is Ok) {
        let read = rows.take(at);
        assert forall|i: int| 0 <= i < read.len() implies #[trigger] read[i] is Ok by {
            assert(read[i] == rows[i]);
        }
        lemma_no_failure(read);
        the_first_failing_row_decides(read, rows[at]->Err_0, rows.skip(at + 1));
        assert(read.push(Err(rows[at]->Err_0)) + rows.skip(at + 1) == rows);
    }
}

proof fn lemma_no_failure(rows: Seq<Result<Seq<char>, Seq<char>>>)
    requires
        forall|i: int| 0 <= i < rows.len() ==> #[trigger] rows[i] is Ok,
    ensures
        first_failure(rows) is None,
    decreases rows.len(),
{
    if rows.len() > 0 {
        let before = rows.drop_last();
        assert forall|i: int| 0 <= i < before.len() implies #[trigger] before[i] is Ok by {
            assert(before[i] == rows[i]);
        }
        lemma_no_failure(before);
        assert(rows[rows.len() - 1] is Ok);
    }
}

} // verus!
