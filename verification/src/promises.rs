//! What callers can rely on: for each operation, how what a call gives back depends on what it
//! was given.

use vstd::prelude::*;

use crate::json::Json;
use crate::manifest::ExternalPluginManifest;
use crate::platform::{TargetArch, TargetOs};
use crate::{
    archive, environment, json, manifest, martin, mbtiles, native_load, numbers, paths, platform,
    plugin_scan, plugins, proc_net, profile, server_start, servers, split, sql, text, urls, windows,
};

verus! {

// ---------------------------------------------------------------------------
// Loading a vector file

/// A load begins by looking at the columns of the rows that it will read.
pub proof fn loads_begin_with_the_columns(
    request: native_load::LoadRequest,
    stage: native_load::CheckStage,
)
    requires
        call_ensures(native_load::begin_native_load, (request,), stage),
    ensures
        stage.request == request,
        stage.query@ == "DESCRIBE "@ + sql::source_query(
            request.path@,
            request.extension@,
            text::view_of(request.options.layer),
        ),
{
}

/// Only local vector files are loaded, and a load holds what was asked for.
pub proof fn loads_hold_what_was_asked(
    path: String,
    extension: &str,
    options: native_load::NativeVectorOptions,
    request: Result<native_load::LoadRequest, String>,
)
    requires
        call_ensures(native_load::native_load_request, (path, extension, options), request),
    ensures
        request is Ok <==> paths::allowed_local_vector_path(path@),
        request is Ok ==> {
            &&& request->Ok_0.path@ == path@
            &&& request->Ok_0.extension@ == native_load::unicode_lower(extension@)
            &&& request->Ok_0.options == options
        },
        request is Err ==> request->Err_0@ == "Refusing to read \""@ + path@
            + "\": not an absolute local vector file path"@,
{
}

/// Once the columns are known, a load that was not confirmed counts the rows first.
pub proof fn unconfirmed_loads_are_counted(
    stage: native_load::CheckStage,
    columns: Vec<sql::DescribedColumn>,
    step: native_load::LoadStep,
)
    requires
        call_ensures(native_load::CheckStage::described, (stage, Ok(columns)), step),
        sql::geometry_column(columns@) is Some,
    ensures
        ({
            let request = stage.request;
            let source = sql::source_query(
                request.path@,
                request.extension@,
                text::view_of(request.options.layer),
            );
            if request.options.large_dataset_confirmed == Some(true) {
                &&& step is Describe
                &&& step->Describe_0.query@ == "DESCRIBE "@ + source
            } else {
                &&& step is Count
                &&& step->Count_0.query@ == "SELECT count(*) FROM ("@ + source + ") AS data"@
            }
        }),
{
    native_load::loads_are_counted_unless_confirmed(stage.request, columns, 0);
}

/// More rows than the caller's limit, or than half a million, are asked about and not loaded.
pub proof fn large_loads_are_asked_about(
    stage: native_load::CountStage,
    count: i64,
    step: native_load::LoadStep,
)
    requires
        call_ensures(native_load::CountStage::counted, (stage, Ok(count)), step),
    ensures
        ({
            let limit = if stage.request.options.feature_warn_count is Some {
                stage.request.options.feature_warn_count->0
            } else {
                500_000
            };
            if count > limit {
                &&& step is Confirm
                &&& step->Confirm_0.needs_confirmation
                &&& step->Confirm_0.feature_count == Some(count as u64)
                &&& step->Confirm_0.feature_collection is None
            } else {
                &&& step is Describe
                &&& step->Describe_0.query@ == "DESCRIBE "@ + sql::source_query(
                    stage.request.path@,
                    stage.request.extension@,
                    text::view_of(stage.request.options.layer),
                )
            }
        }),
{
}

/// A reference system that the caller names is always brought to `EPSG:4326`, whatever the kind of
/// file; where it names none, only a Parquet file is read without asking for its own.
pub proof fn named_reference_systems_are_used(
    stage: native_load::DescribeStage,
    columns: Vec<sql::DescribedColumn>,
    step: native_load::LoadStep,
)
    requires
        call_ensures(native_load::DescribeStage::described, (stage, Ok(columns)), step),
        sql::geometry_column(columns@) is Some,
    ensures
        ({
            let geometry = sql::geometry_column(columns@)->0;
            let column = if geometry.1 {
                "ST_GeomFromWKB("@ + sql::quoted(geometry.0, '"') + ")"@
            } else {
                sql::quoted(geometry.0, '"')
            };
            let named = stage.request.options.override_source_crs;
            if named is Some && text::trim(named->0@).len() > 0 {
                &&& step is ReadFeatures
                &&& text::occurs_in(
                    step->ReadFeatures_0.query@,
                    "ST_Transform("@ + column + ", "@ + sql::quoted(text::trim(named->0@), '\'')
                        + ", 'EPSG:4326', true)"@,
                )
            } else if stage.request.extension@ == "parquet"@ || stage.request.extension@
                == "geoparquet"@ {
                &&& step is ReadFeatures
                &&& step->ReadFeatures_0.query@ == native_load::features_text(
                    stage.request,
                    columns@,
                    "ST_AsGeoJSON("@ + column + ")"@,
                )
            } else {
                &&& step is ReadCrs
                &&& step->ReadCrs_0.query@
                    == "SELECT layers[1].geometry_fields[1].crs.auth_name, layers[1].geometry_fields[1].crs.auth_code FROM ST_Read_Meta("@
                    + sql::quoted(stage.request.path@, '\'') + ")"@
            }
        }),
{
    let named = stage.request.options.override_source_crs;
    if named is Some && text::trim(named->0@).len() > 0 {
        native_load::a_named_crs_is_reprojected(stage.request, columns, named->0);
    } else {
        native_load::without_a_named_crs_the_file_is_asked(stage.request, columns);
    }
}

/// The reference system that a file declares is brought to `EPSG:4326` where it is complete.
pub proof fn declared_reference_systems_are_used(
    stage: native_load::CrsStage,
    authority: Option<String>,
    code: Option<String>,
    features: native_load::FeatureStage,
    plain: native_load::FeatureStage,
)
    requires
        call_ensures(
            native_load::CrsStage::crs_read,
            (stage, Some((authority, code))),
            features,
        ),
        call_ensures(native_load::CrsStage::crs_read, (stage, None), plain),
    ensures
        ({
            let column = if stage.geometry.is_wkb {
                "ST_GeomFromWKB("@ + sql::quoted(stage.geometry.column@, '"') + ")"@
            } else {
                sql::quoted(stage.geometry.column@, '"')
            };
            let declared = authority is Some && code is Some && text::trim(authority->0@).len() > 0
                && text::trim(code->0@).len() > 0;
            let crs = text::upper(text::trim(authority->0@)) + ":"@ + text::upper(
                text::trim(code->0@),
            );
            &&& declared ==> text::occurs_in(
                features.query@,
                "ST_Transform("@ + column + ", "@ + sql::quoted(crs, '\'') + ", 'EPSG:4326', true)"@,
            )
            &&& !declared ==> features.query@ == plain.query@
            &&& text::occurs_in(plain.query@, "ST_AsGeoJSON("@ + column + ")"@)
        }),
{
    let crs = text::upper(text::trim(authority->0@)) + ":"@ + text::upper(text::trim(code->0@));
    native_load::queries_hold_the_geometry(
        stage.request,
        stage.geometry.model(),
        text::views(stage.excluded@),
        crs,
    );
}

/// What a query failed with ends the load, and so does a file without a geometry column.
pub proof fn loads_end_with_their_error(
    check: native_load::CheckStage,
    count: native_load::CountStage,
    describe: native_load::DescribeStage,
    error: String,
    columns: Vec<sql::DescribedColumn>,
    steps: Seq<native_load::LoadStep>,
)
    requires
        steps.len() == 5,
        call_ensures(native_load::CheckStage::described, (check, Err(error)), steps[0]),
        call_ensures(native_load::CountStage::counted, (count, Err(error)), steps[1]),
        call_ensures(native_load::DescribeStage::described, (describe, Err(error)), steps[2]),
        call_ensures(native_load::CheckStage::described, (check, Ok(columns)), steps[3]),
        call_ensures(native_load::DescribeStage::described, (describe, Ok(columns)), steps[4]),
        sql::geometry_column(columns@) is None,
    ensures
        forall|i: int|
            0 <= i < 3 ==> (#[trigger] steps[i]) is Failed && steps[i]->Failed_0@ == error@,
        forall|i: int|
            3 <= i < 5 ==> (#[trigger] steps[i]) is Failed && steps[i]->Failed_0@
                == "DuckDB did not find a geometry column in this file."@,
{
    native_load::failed_queries_end_the_load(check.request, columns, error);
    native_load::failed_queries_end_the_load(count.request, columns, error);
    native_load::failed_queries_end_the_load(describe.request, columns, error);
}

/// Features that were read are the result, and nothing more is asked.
pub proof fn loaded_features_are_the_result(
    collection: String,
    result: native_load::NativeVectorResult,
)
    requires
        call_ensures(native_load::loaded, (collection,), result),
    ensures
        !result.needs_confirmation,
        result.feature_count is None,
        result.feature_collection is Some,
        result.feature_collection->0@ == collection@,
{
}

// ---------------------------------------------------------------------------
// Plugins

/// A manifest is accepted exactly where it keeps the rules.
pub proof fn manifests_that_keep_the_rules_are_accepted(
    plugin: ExternalPluginManifest,
    outcome: Result<(), String>,
)
    requires
        call_ensures(manifest::validate_external_plugin_manifest, (&plugin,), outcome),
    ensures
        outcome is Ok <==> {
            let inside = |path: Seq<char>|
                {
                    &&& path.len() > 0
                    &&& path[0] != '/'
                    &&& !path.contains('\\')
                    &&& !path.contains(':')
                    &&& !split::split(path, split::one_of(seq!['/'])).contains(Seq::empty())
                    &&& !split::split(path, split::one_of(seq!['/'])).contains("."@)
                    &&& !split::split(path, split::one_of(seq!['/'])).contains(".."@)
                };
            &&& plugin.id@.len() > 0 && text::trim(plugin.id@) == plugin.id@
            &&& plugin.name@.len() > 0 && text::trim(plugin.name@) == plugin.name@
            &&& plugin.version@.len() > 0 && text::trim(plugin.version@) == plugin.version@
            &&& plugin.entry@.len() > 0 && text::trim(plugin.entry@) == plugin.entry@
            &&& inside(plugin.entry@)
            &&& ".js"@.is_suffix_of(plugin.entry@) || ".mjs"@.is_suffix_of(plugin.entry@)
            &&& plugin.description is Some ==> text::trim(plugin.description->0@)
                == plugin.description->0@
            &&& plugin.style is Some ==> {
                &&& text::trim(plugin.style->0@) == plugin.style->0@
                &&& inside(plugin.style->0@)
                &&& ".css"@.is_suffix_of(plugin.style->0@)
            }
        },
{
    manifest::manifests_are_accepted_exactly_by_the_rules(plugin);
}

/// The manifest of an archive is found at its root, or else in the fewest folders.
pub proof fn manifests_are_found(names: Vec<String>, path: Option<String>)
    requires
        call_ensures(plugins::manifest_path_in, (&names,), path),
    ensures
        text::views(names@).contains("plugin.json"@) ==> path is Some && path->0@ == "plugin.json"@,
        !text::views(names@).contains("plugin.json"@) && path is Some ==> {
            &&& text::views(names@).contains(path->0@)
            &&& "/plugin.json"@.is_suffix_of(path->0@)
            &&& !"__MACOSX/"@.is_prefix_of(path->0@)
        },
        path is None ==> forall|i: int|
            0 <= i < names@.len() ==> !"/plugin.json"@.is_suffix_of(#[trigger] names@[i]@)
                || "__MACOSX/"@.is_prefix_of(names@[i]@),
{
    let all = text::views(names@);
    plugins::manifests_lie_at_the_root_or_near_it(all);
    assert forall|i: int| 0 <= i < names@.len() && path is None implies !"/plugin.json"@.is_suffix_of(
        #[trigger] names@[i]@,
    ) || "__MACOSX/"@.is_prefix_of(names@[i]@) by {
        assert(all[i] == names@[i]@);
    }
}

/// A plugin that was read has the manifest that was checked, and the texts of the files that it
/// names.
pub proof fn read_plugins_hold_their_files(
    data: &[u8],
    archive_name: &str,
    prefix: &str,
    plugin: ExternalPluginManifest,
    bundle: Result<plugins::ExternalPluginBundle, String>,
)
    requires
        call_ensures(plugins::read_archived_plugin, (data, archive_name, prefix, plugin), bundle),
    ensures
        bundle is Ok ==> {
            let read = bundle->Ok_0;
            let entry = archive::zip_entry_text(data@, prefix@ + plugin.entry@, 52_428_801);
            let style = archive::zip_entry_text(data@, prefix@ + plugin.style->0@, 52_428_801);
            &&& read.manifest == plugin
            &&& read.archive_name@ == archive_name@
            &&& manifest::manifest_outcome(plugin.model()) is Ok
            &&& entry is Ok && entry->Ok_0 == Ok::<Seq<char>, Seq<char>>(read.entry_source@)
            &&& read.style_source is Some <==> plugin.style is Some
            &&& plugin.style is Some ==> style is Ok && style->Ok_0 == Ok::<Seq<char>, Seq<char>>(
                read.style_source->0@,
            )
        },
        bundle is Err ==> plugins::archived_sources(data@, prefix@, plugin.model()) == Err::<
            (Seq<char>, Option<Seq<char>>),
            Seq<char>,
        >(bundle->Err_0@),
{
    plugins::archived_plugins_are_entry_and_style(data@, prefix@, plugin);
}

/// A plugin of a directory whose manifest keeps the rules and whose files were read holds their
/// texts.
pub proof fn directory_plugins_hold_their_files(
    name: &str,
    plugin: ExternalPluginManifest,
    entry: String,
    style: Option<String>,
    bundle: Result<plugins::ExternalPluginBundle, String>,
)
    requires
        manifest::manifest_outcome(plugin.model()) is Ok,
        plugin.style is Some <==> style is Some,
        vstd::utf8::encode_utf8(entry@).len() <= 52_428_800,
        style is Some ==> vstd::utf8::encode_utf8(style->0@).len() <= 52_428_800,
        call_ensures(
            plugins::directory_plugin,
            (
                name,
                plugin,
                plugins::FileRead::Opened(Ok(entry)),
                if style is Some {
                    Some(plugins::FileRead::Opened(Ok(style->0)))
                } else {
                    None
                },
            ),
            bundle,
        ),
    ensures
        bundle is Ok,
        bundle->Ok_0.manifest == plugin,
        bundle->Ok_0.archive_name@ == name@,
        bundle->Ok_0.entry_source@ == entry@,
        text::view_of(bundle->Ok_0.style_source) == text::view_of(style),
{
    plugins::files_are_taken_up_to_the_limit("plugin entry"@, plugin.entry@, entry@, entry@);
}

/// An archive is installed under the identifier of its plugin, and is not copied onto itself.
pub proof fn archives_are_installed_by_name(
    id: &str,
    name: String,
    source: &[u8],
    destination: &[u8],
    copies: bool,
)
    requires
        call_ensures(plugins::plugin_archive_file_name, (id,), name),
        call_ensures(plugins::must_copy, (Some(source), Some(destination)), copies),
    ensures
        name@ == plugins::archive_file_name(id@),
        copies <==> source@ != destination@,
{
}

/// The directories that a user has configured are those that are not blank, without the white
/// space around them.
pub proof fn configured_directories_are_kept(
    directories: Vec<String>,
    kept: Vec<String>,
    directory: Seq<char>,
)
    requires
        call_ensures(plugin_scan::configured_directories, (&directories,), kept),
    ensures
        text::views(kept@).contains(directory) <==> directory.len() > 0 && exists|i: int|
            0 <= i < directories@.len() && text::trim(#[trigger] directories@[i]@) == directory,
{
    let all = text::views(directories@);
    lemma_configured(all, directory);
    if exists|i: int| 0 <= i < all.len() && text::trim(#[trigger] all[i]) == directory {
        let i = choose|i: int| 0 <= i < all.len() && text::trim(#[trigger] all[i]) == directory;
        assert(directories@[i]@ == all[i]);
    }
    if exists|i: int|
        0 <= i < directories@.len() && text::trim(#[trigger] directories@[i]@) == directory {
        let i = choose|i: int|
            0 <= i < directories@.len() && text::trim(#[trigger] directories@[i]@) == directory;
        assert(all[i] == directories@[i]@);
    }
}

proof fn lemma_configured(all: Seq<Seq<char>>, directory: Seq<char>)
    ensures
        plugin_scan::configured(all).contains(directory) <==> directory.len() > 0 && exists|i: int|
            0 <= i < all.len() && text::trim(#[trigger] all[i]) == directory,
    decreases all.len(),
{
    if all.len() > 0 {
        let before = all.drop_last();
        let fewer = plugin_scan::configured(before);
        let more = plugin_scan::configured(all);
        let last = text::trim(all.last());
        lemma_configured(before, directory);
        assert(before.push(all.last()) == all);
        plugin_scan::configured_directories_count_unless_blank(before, all.last());
        assert(forall|i: int| 0 <= i < before.len() ==> before[i] == all[i]);
        if last.len() > 0 {
            assert(more[fewer.len() as int] == last);
        }
        if fewer.contains(directory) {
            let k = choose|k: int| 0 <= k < fewer.len() && fewer[k] == directory;
            assert(more[k] == directory);
            let i = choose|i: int| 0 <= i < before.len() && text::trim(#[trigger] before[i]) == directory;
            assert(text::trim(all[i]) == directory);
        }
        if more.contains(directory) && !fewer.contains(directory) {
            let k = choose|k: int| 0 <= k < more.len() && more[k] == directory;
            if k < fewer.len() {
                assert(fewer[k] == directory);
            }
            assert(text::trim(all[all.len() - 1]) == directory);
        }
        if directory.len() > 0 && exists|i: int|
            0 <= i < all.len() && text::trim(#[trigger] all[i]) == directory {
            let i = choose|i: int| 0 <= i < all.len() && text::trim(#[trigger] all[i]) == directory;
            if i < before.len() {
                assert(text::trim(before[i]) == directory);
            }
        }
    }
}

/// Of a directory that is scanned every entry that is a zip file or a directory with a manifest is
/// loaded, and every entry that could not be inspected is reported.
pub proof fn scans_load_every_plugin(
    entries: Vec<plugin_scan::ScannedEntry>,
    order: Vec<usize>,
    names: Vec<String>,
    steps: Vec<plugin_scan::ScanStep>,
    index: usize,
)
    requires
        text::views(names@) == plugin_scan::entry_names(entries@),
        call_ensures(plugin_scan::entry_order, (&names,), order),
        call_ensures(plugin_scan::plan_scan, (&entries,), steps),
        index < entries@.len(),
    ensures
        ({
            let found = plugin_scan::step_models(steps@);
            let inspected = entries@[index as int].inspected;
            let facts = inspected->Ok_0;
            &&& inspected is Err ==> found.contains(
                plugin_scan::ScanStepModel::Report { entry: index, error: inspected->Err_0@ },
            )
            &&& inspected is Ok && facts.is_file && facts.is_zip ==> found.contains(
                plugin_scan::ScanStepModel::LoadArchive { entry: index },
            )
            &&& inspected is Ok && !(facts.is_file && facts.is_zip) && facts.is_directory
                && facts.has_manifest ==> found.contains(
                plugin_scan::ScanStepModel::LoadDirectory { entry: index },
            )
        }),
{
    assert(names@.len() == entries@.len()) by {
        assert(text::views(names@).len() == plugin_scan::entry_names(entries@).len());
    }
    plugin_scan::archives_and_plugin_directories_are_loaded(entries@, index);
    let step = plugin_scan::step_for(entries@, index);
    if step is Some {
        plugin_scan::every_entry_is_dealt_with(entries@, order@, index, step->0);
    }
}

/// What is done with a directory or an entry.
pub proof fn plans_follow_the_facts(
    present: bool,
    has_manifest: bool,
    plan: plugin_scan::DirectoryPlan,
    facts: plugin_scan::EntryFacts,
    entry: plugin_scan::EntryPlan,
)
    requires
        call_ensures(plugin_scan::plan_directory, (present, has_manifest), plan),
        call_ensures(plugin_scan::plan_entry, (facts,), entry),
    ensures
        plan == if !present {
            plugin_scan::DirectoryPlan::Skip
        } else if has_manifest {
            plugin_scan::DirectoryPlan::LoadAsPlugin
        } else {
            plugin_scan::DirectoryPlan::ScanEntries
        },
        entry == if facts.is_file && facts.is_zip {
            plugin_scan::EntryPlan::LoadArchive
        } else if facts.is_directory && facts.has_manifest {
            plugin_scan::EntryPlan::LoadDirectory
        } else {
            plugin_scan::EntryPlan::Ignore
        },
{
}

// ---------------------------------------------------------------------------
// Remote addresses

/// An address has tile placeholders in plain or in percent-encoded braces, and encoding its braces
/// keeps them.
pub proof fn tile_addresses_are_recognized(
    url: &str,
    answer: bool,
    encoded: &str,
    encoded_answer: bool,
)
    requires
        call_ensures(urls::has_xyz_placeholders, (url,), answer),
        call_ensures(urls::has_xyz_placeholders, (encoded,), encoded_answer),
        encoded@ == text::replace_char(text::replace_char(url@, '{', "%7B"@), '}', "%7D"@),
    ensures
        answer <==> {
            let folded = text::lower(url@);
            &&& text::occurs_in(folded, "{z}"@) || text::occurs_in(folded, "%7bz%7d"@)
            &&& text::occurs_in(folded, "{x}"@) || text::occurs_in(folded, "%7bx%7d"@)
            &&& text::occurs_in(folded, "{y}"@) || text::occurs_in(folded, "%7by%7d"@)
        },
        answer ==> encoded_answer,
{
    urls::encoding_braces_keeps_placeholders(url@);
}

/// A redirect to an address with tile placeholders is the answer; else the address is asked for,
/// and then the body read.
pub proof fn redirects_are_followed_to_tiles(
    reached: String,
    head: urls::ResolveStep,
    get: urls::ResolveStep,
)
    requires
        call_ensures(urls::head_answered, (Some(reached),), head),
        call_ensures(urls::get_answered, (Ok(reached),), get),
    ensures
        urls::xyz_placeholders(reached@) ==> head is Resolved && head->Resolved_0@ == reached@ && get
            is Resolved && get->Resolved_0@ == reached@,
        !urls::xyz_placeholders(reached@) ==> head is Get && get is ReadBody,
{
}

/// A body that is an HTTP or HTTPS address resolves to it, without the white space around it, and
/// what could not be asked or read fails with its message.
pub proof fn bodies_resolve_to_their_address(
    body: String,
    step: urls::ResolveStep,
    error: String,
    unread: urls::ResolveStep,
    unasked: urls::ResolveStep,
    unanswered: urls::ResolveStep,
)
    requires
        call_ensures(urls::body_read, (Ok(body),), step),
        call_ensures(urls::body_read, (Err(error),), unread),
        call_ensures(urls::get_answered, (Err(error),), unasked),
        call_ensures(urls::head_answered, (None,), unanswered),
    ensures
        "https://"@.is_prefix_of(text::trim(body@)) || "http://"@.is_prefix_of(text::trim(body@))
            ==> step is Resolved && step->Resolved_0@ == text::trim(body@),
        urls::read_url(Ok(body@)) is None ==> step is Failed && step->Failed_0@
            == "Could not resolve URL"@,
        unread is Failed && unread->Failed_0@ == "Could not read response body: "@ + error@,
        unasked is Failed && unasked->Failed_0@ == "Request failed: "@ + error@,
        unanswered is Get,
{
    urls::bodies_name_themselves_or_their_document(body@);
    urls::bodies_resolve_or_fail(body, error);
}

/// Only HTTP and HTTPS addresses are fetched or resolved.
pub proof fn other_addresses_are_refused(
    url: &str,
    fetched: Result<(), String>,
    resolved: Result<(), String>,
    address: Option<String>,
)
    requires
        call_ensures(urls::check_fetched_url, (url,), fetched),
        call_ensures(urls::check_resolved_url, (url,), resolved),
        call_ensures(urls::http_url, (url,), address),
    ensures
        ({
            let http = "https://"@.is_prefix_of(url@) || "http://"@.is_prefix_of(url@);
            &&& fetched is Ok <==> http
            &&& resolved is Ok <==> http
            &&& address is Some <==> http
            &&& http ==> address->0@ == url@
            &&& !http ==> fetched->Err_0@ == "Only HTTP and HTTPS URLs can be fetched"@
            &&& !http ==> resolved->Err_0@ == "Only HTTP and HTTPS URLs can be resolved"@
        }),
{
}

/// Statuses from 200 to 299 succeed, and every other fails with its name.
pub proof fn other_statuses_fail(
    code: u16,
    status: &str,
    failure: &str,
    success: bool,
    outcome: Result<(), String>,
)
    requires
        call_ensures(urls::is_success_code, (code,), success),
        call_ensures(urls::check_status, (code, status, failure), outcome),
    ensures
        success <==> 200 <= code <= 299,
        outcome is Ok <==> 200 <= code <= 299,
        outcome is Err ==> outcome->Err_0@ == failure@ + " with status "@ + status@,
{
}

/// A document names its address by the first of its fields that is one.
pub proof fn documents_resolve_to_their_address(document: Json, url: Option<String>)
    requires
        call_ensures(urls::resolved_url_from_json, (&document,), url),
    ensures
        ({
            let tree = document.tree();
            let first = urls::address_in(tree, "url"@);
            let second = urls::address_in(tree, "tileUrl"@);
            let third = urls::address_in(tree, "tile_url"@);
            document is Object ==> {
                &&& first is Some ==> text::view_of(url) == first
                &&& first is None && second is Some ==> text::view_of(url) == second
                &&& first is None && second is None && third is Some ==> text::view_of(url) == third
            }
        }),
        document is Text ==> {
            let named = document->Text_0@;
            if "https://"@.is_prefix_of(named) || "http://"@.is_prefix_of(named) {
                url is Some && url->0@ == named
            } else {
                url is None
            }
        },
        document is List || document is Other ==> url is None,
{
}

// ---------------------------------------------------------------------------
// Tile archives

/// The tiles of an archive are vectors exactly where its format is one of theirs, and images
/// otherwise; the format and the count of the rows are told in small letters.
pub proof fn archives_are_summarized(
    rows: Vec<(String, String)>,
    fallback: &str,
    metadata: mbtiles::MbtilesMetadata,
)
    requires
        call_ensures(mbtiles::summarize_metadata, (&rows, fallback), metadata),
    ensures
        ({
            let value = |name: Seq<char>| mbtiles::metadata_value(mbtiles::row_views(rows@), name);
            &&& metadata.format@ == if value("format"@) is Some {
                text::lower(value("format"@)->0)
            } else {
                "pbf"@
            }
            &&& metadata.tile_type@ == "vector"@ <==> metadata.format@ == "pbf"@ || metadata.format@
                == "mvt"@ || metadata.format@ == "protobuf"@
            &&& metadata.tile_type@ == "vector"@ || metadata.tile_type@ == "raster"@
            &&& metadata.scheme@ == if value("scheme"@) is Some {
                text::lower(value("scheme"@)->0)
            } else {
                "tms"@
            }
            &&& metadata.name@ == if value("name"@) is Some && text::trim(value("name"@)->0).len()
                > 0 {
                value("name"@)->0
            } else {
                fallback@
            }
            &&& text::view_of(metadata.bounds) == value("bounds"@)
            &&& text::view_of(metadata.center) == value("center"@)
            &&& value("minzoom"@) is None ==> metadata.min_zoom is None
            &&& value("maxzoom"@) is None ==> metadata.max_zoom is None
            &&& text::views(metadata.source_layers@) == mbtiles::described_layers(
                mbtiles::optional_document(value("json"@)),
            )
        }),
        mbtiles::metadata_value(mbtiles::row_views(rows@), "minzoom"@) matches Some(low) ==> {
            let number = numbers::bounded_integer(
                low,
                -0x8000_0000_0000_0000int,
                0x7fff_ffff_ffff_ffffint,
            );
            &&& number is Some <==> metadata.min_zoom is Some
            &&& number is Some ==> metadata.min_zoom->0 as int == number->0
        },
        mbtiles::metadata_value(mbtiles::row_views(rows@), "maxzoom"@) matches Some(high) ==> {
            let number = numbers::bounded_integer(
                high,
                -0x8000_0000_0000_0000int,
                0x7fff_ffff_ffff_ffffint,
            );
            &&& number is Some <==> metadata.max_zoom is Some
            &&& number is Some ==> metadata.max_zoom->0 as int == number->0
        },
{
    let views = mbtiles::row_views(rows@);
    let document = mbtiles::optional_document(mbtiles::metadata_value(views, "json"@));
    mbtiles::summaries_say_what_the_metadata_hold(metadata, rows@, fallback@, document);
    mbtiles::zoom_levels_are_read(metadata, rows@, fallback@, document);
}

/// The row of an archive under which a tile lies, counted from the bottom unless the scheme is
/// `xyz`.
pub proof fn tiles_lie_in_their_rows(
    scheme: &str,
    zoom: u32,
    y: u32,
    row: Result<Option<i64>, String>,
)
    requires
        call_requires(mbtiles::tile_row, (scheme, zoom, y)),
        call_ensures(mbtiles::tile_row, (scheme, zoom, y), row),
        scheme@ == "xyz"@ || zoom != 63,
    ensures
        scheme@ == "xyz"@ ==> row == Ok::<Option<i64>, String>(Some(y as i64)),
        scheme@ != "xyz"@ && zoom > 63 ==> row is Err && row->Err_0@
            == "Tile zoom level is too large"@,
        scheme@ != "xyz"@ && zoom < 63 ==> {
            let mirrored = vstd::arithmetic::power2::pow2(zoom as nat) - 1 - y;
            &&& row is Ok
            &&& mirrored < 0 ==> row->Ok_0 is None
            &&& mirrored >= 0 ==> row->Ok_0 is Some && row->Ok_0->0 == mirrored
        },
{
}

/// A tile that was found is what its data expand to, and one that was not is empty.
pub proof fn found_tiles_are_expanded(
    data: Vec<u8>,
    tile: Result<Vec<u8>, String>,
    missing: Result<Vec<u8>, String>,
)
    requires
        call_ensures(mbtiles::tile_found, (Some(data),), tile),
        call_ensures(mbtiles::tile_found, (None,), missing),
    ensures
        ({
            let gzip = data@.len() >= 2 && data@[0] == 31 && data@[1] == 139;
            let zlib = data@.len() >= 3 && data@[0] == 120;
            &&& !gzip && !zlib ==> tile is Ok && tile->Ok_0@ == data@
            &&& zlib ==> tile is Ok && tile->Ok_0@ == if archive::inflated(data@) is Some {
                archive::inflated(data@)->0
            } else {
                data@
            }
            &&& gzip ==> match archive::gunzipped(data@) {
                Ok(content) => tile is Ok && tile->Ok_0@ == content,
                Err(error) => tile is Err && tile->Err_0@ == "Could not decompress gzip tile: "@
                    + error,
            }
        }),
        missing is Ok && missing->Ok_0@.len() == 0,
{
    mbtiles::tiles_are_expanded_by_their_encoding(
        data@,
        archive::gunzipped(data@),
        archive::inflated(data@),
    );
    let shown = archive::content_view(missing);
    assert(shown == Ok::<Seq<u8>, Seq<char>>(Seq::empty()));
}

// ---------------------------------------------------------------------------
// Files beside a shapefile

/// Every file beside a shapefile that has its stem and one of these extensions is read along with
/// it.
pub proof fn shapefiles_come_with_their_sidecars(
    stem: &str,
    files: Vec<String>,
    siblings: Vec<paths::SiblingFile>,
    extension: Seq<char>,
    at: usize,
)
    requires
        call_ensures(paths::shapefile_siblings, (stem, &files), siblings),
        files@.len() <= usize::MAX,
        stem@.len() > 0,
        at < files@.len(),
        files@[at as int]@ == stem@ + "."@ + extension,
        ({
            ||| extension == "shx"@
            ||| extension == "dbf"@
            ||| extension == "prj"@
            ||| extension == "cpg"@
            ||| extension == "sbn"@
            ||| extension == "sbx"@
            ||| extension == "qix"@
            ||| extension == "qpj"@
            ||| extension == "cst"@
            ||| extension == "aih"@
            ||| extension == "ain"@
            ||| extension == "atx"@
            ||| extension == "ixs"@
            ||| extension == "mxs"@
            ||| extension == "fbn"@
            ||| extension == "fbx"@
        }),
    ensures
        exists|i: int|
            0 <= i < siblings@.len() && (#[trigger] siblings@[i]).file == at && siblings@[i].name@
                == stem@ + "."@ + extension,
{
    let all = text::views(files@);
    let name = stem@ + "."@ + extension;
    assert(all[at as int] == name);
    paths::every_sidecar_belongs_to_its_shapefile(stem@, extension);
    paths::siblings_are_all_that_belong(stem@, all, at, name);
    let models = paths::sibling_models(siblings@);
    let i = choose|i: int| 0 <= i < models.len() && models[i] == (at, name);
    assert(siblings@[i].file == at);
}

/// A file is read along with a shapefile only where its stem is the shapefile's and its extension
/// is one of a shapefile's, and under the shapefile's own stem.
pub proof fn only_sidecars_come_with_a_shapefile(
    stem: &str,
    file_stem: Seq<char>,
    extension: Seq<char>,
    file: &str,
    name: Option<String>,
)
    requires
        file_stem.len() > 0,
        !extension.contains('.'),
        file@ == file_stem + seq!['.'] + extension,
        file@ != ".."@,
        call_ensures(paths::shapefile_sibling_name, (stem, file), name),
    ensures
        name is Some ==> {
            let kind = text::lower(extension);
            &&& text::lower(file_stem) == text::lower(stem@)
            &&& name->0@ == stem@ + seq!['.'] + kind
            &&& {
                ||| kind == "shx"@
                ||| kind == "dbf"@
                ||| kind == "prj"@
                ||| kind == "cpg"@
                ||| kind == "sbn"@
                ||| kind == "sbx"@
                ||| kind == "qix"@
                ||| kind == "qpj"@
                ||| kind == "cst"@
                ||| kind == "aih"@
                ||| kind == "ain"@
                ||| kind == "atx"@
                ||| kind == "ixs"@
                ||| kind == "mxs"@
                ||| kind == "fbn"@
                ||| kind == "fbx"@
            }
        },
{
    paths::siblings_have_the_stem_and_a_sidecar_extension(stem@, file_stem, extension);
}

/// A file may be read exactly where its path is local and absolute and its extension that of a
/// vector file.
pub proof fn vector_files_may_be_read(path: &str, answer: bool, outcome: Result<(), String>)
    requires
        call_ensures(paths::is_allowed_local_vector_path, (path,), answer),
        call_ensures(paths::check_local_vector_path, (path,), outcome),
    ensures
        answer <==> paths::allowed_local_vector_path(path@),
        outcome is Ok <==> paths::allowed_local_vector_path(path@),
        outcome is Err ==> outcome->Err_0@ == "Refusing to read \""@ + path@
            + "\": not an absolute local vector file path"@,
{
}

// ---------------------------------------------------------------------------
// The Martin tile server

/// Where a release is installed, for the platforms that there is one for.
pub proof fn releases_are_installed(
    os: TargetOs,
    arch: TargetArch,
    installation: Result<martin::MartinInstallation, String>,
)
    requires
        call_ensures(martin::martin_installation, (os, arch), installation),
    ensures
        installation is Err <==> os == TargetOs::Other || arch == TargetArch::Other || (os
            == TargetOs::Windows && arch == TargetArch::Aarch64),
        installation is Err ==> installation->Err_0@
            == "No Martin binary release is available for this platform."@,
        installation is Ok ==> {
            let made = installation->Ok_0;
            &&& platform::martin_asset(os, arch) == Some(made.asset_name@)
            &&& made.executable_name@ == if os == TargetOs::Windows {
                "martin.exe"@
            } else {
                "martin"@
            }
            &&& made.temporary_name@ == made.executable_name@ + ".download"@
            &&& made.download_url@
                == "https://github.com/maplibre/martin/releases/download/martin-v1.10.1/"@
                + made.asset_name@
        },
{
    platform::releases_are_told_by_platform(os, arch);
    if installation is Ok {
        let asset = platform::martin_asset(os, arch)->0;
        martin::releases_are_installed_by_version_and_platform(
            installation->Ok_0,
            asset,
            platform::martin_executable(os),
        );
    }
}

/// The server is launched on this machine, on the given port and with the given database.
pub proof fn martin_is_launched_with_its_database(
    port: u16,
    connection: &str,
    srid: Option<&str>,
    launch: martin::MartinLaunch,
    entered: &str,
    checked: Result<String, String>,
)
    requires
        call_ensures(martin::martin_launch, (port, connection, srid), launch),
        call_ensures(martin::martin_connection, (entered,), checked),
    ensures
        ({
            let address = "127.0.0.1:"@ + numbers::decimal(port as nat);
            &&& launch.base_url@ == "http://"@ + address
            &&& launch.arguments@.len() == 2
            &&& launch.arguments@[0]@ == "-l"@
            &&& launch.arguments@[1]@ == address
            &&& launch.environment@[0].0@ == "DATABASE_URL"@
            &&& launch.environment@[0].1@ == connection@
            &&& if srid is Some && text::trim(srid->0@).len() > 0 {
                &&& launch.environment@.len() == 2
                &&& launch.environment@[1].0@ == "DEFAULT_SRID"@
                &&& launch.environment@[1].1@ == text::trim(srid->0@)
            } else {
                launch.environment@.len() == 1
            }
        }),
        checked is Ok <==> text::trim(entered@).len() > 0,
        checked is Ok ==> checked->Ok_0@ == text::trim(entered@),
        checked is Err ==> checked->Err_0@ == "Enter a PostgreSQL connection string."@,
{
    let arguments = text::views(launch.arguments@);
    assert(arguments.len() == launch.arguments@.len());
    assert(arguments[0] == launch.arguments@[0]@ && arguments[1] == launch.arguments@[1]@);
    let variables = martin::environment_view(launch.environment@);
    assert(variables.len() == launch.environment@.len());
    assert(variables[0] == (launch.environment@[0].0@, launch.environment@[0].1@));
    if variables.len() > 1 {
        assert(variables[1] == (launch.environment@[1].0@, launch.environment@[1].1@));
    }
    servers::servers_have_their_addresses(port, connection@);
}

/// There is never a second Martin server.
pub proof fn a_second_martin_is_refused(running: bool, outcome: Result<(), String>)
    requires
        call_ensures(martin::check_no_martin, (running,), outcome),
    ensures
        outcome is Ok <==> !running,
        outcome is Err ==> outcome->Err_0@
            == "A Martin server is already running. Stop it before starting a new one."@,
{
}

/// An installation that is there is used; any other goes through its steps, and a failure says
/// what has failed.
pub proof fn installations_go_step_by_step(
    present: bool,
    first: martin::InstallStep,
    stage: martin::InstallStage,
    has_modes: bool,
    error: String,
    failed: martin::InstallStep,
    next: martin::InstallStep,
)
    requires
        call_ensures(martin::begin_install, (present,), first),
        call_ensures(martin::advance_install, (stage, has_modes, Err(error)), failed),
        call_ensures(martin::advance_install, (stage, has_modes, Ok(())), next),
    ensures
        present ==> first == (martin::InstallStep::Installed { downloaded: false }),
        !present ==> first == martin::InstallStep::Do(martin::InstallStage::CreateDirectory),
        failed is Failed,
        failed->message@ == martin::install_failure(stage) + error@,
        failed->clean_up <==> stage != martin::InstallStage::CreateDirectory && stage
            != martin::InstallStage::CreateClient && stage != martin::InstallStage::Request && stage
            != martin::InstallStage::CheckStatus && stage != martin::InstallStage::Download,
        next is Installed <==> stage == martin::InstallStage::Rename,
        next is Installed || next is Do,
        next.model() == martin::install_next(stage, has_modes),
{
    martin::failed_steps_are_named(stage, has_modes, error@);
}

/// The executable is the content of the entry that was found, from the archive of its kind.
pub proof fn found_executables_are_extracted(
    data: &[u8],
    asset: &str,
    index: usize,
    binary: Option<Result<Vec<u8>, String>>,
)
    requires
        call_ensures(martin::extract_martin_binary, (data, asset, index), binary),
    ensures
        ({
            let content = if ".zip"@.is_suffix_of(asset@) {
                Some(archive::zip_entry_content(data@, index as int))
            } else {
                archive::tar_gz_entry_content(data@, index as int)
            };
            &&& binary is Some <==> content is Some
            &&& content matches Some(Ok(read)) ==> binary->0 is Ok && binary->0->Ok_0@ == read
            &&& content matches Some(Err(error)) ==> binary->0 is Err && binary->0->Err_0@
                == "Could not extract Martin binary: "@ + error
        }),
{
}

// ---------------------------------------------------------------------------
// The processing server and the notebook server

/// The addresses of the servers, and how requests to them are made.
pub proof fn servers_are_reached(
    sidecar: String,
    jupyter: String,
    info: servers::SidecarServerInfo,
    base: &str,
    server: servers::Server,
    health: String,
    shutdown: String,
    token: &str,
    header: String,
)
    requires
        call_ensures(servers::sidecar_base_url, (), sidecar),
        call_ensures(servers::jupyter_base_url, (), jupyter),
        call_ensures(servers::sidecar_info, (), info),
        call_ensures(servers::health_url, (server, base), health),
        call_ensures(servers::shutdown_url, (base,), shutdown),
        call_ensures(servers::token_header, (token,), header),
    ensures
        sidecar@ == "http://127.0.0.1:8765"@,
        jupyter@ == "http://127.0.0.1:8766"@,
        info.base_url@ == "http://127.0.0.1:8765"@,
        info.port == 8765,
        health@ == base@ + if server == servers::Server::Jupyter {
            "/api/status"@
        } else {
            "/health"@
        },
        shutdown@ == base@ + "/shutdown"@,
        header@ == "token "@ + token@,
{
    servers::servers_have_their_addresses(0, token@);
}

/// A start of the notebook server answers with its address, its port and the token that it asks
/// for: the one that was made, or the one that was kept.
pub proof fn notebook_starts_answer_with_their_token(
    token: Option<String>,
    info: servers::JupyterServerInfo,
    made: Option<String>,
    kept: Option<String>,
    current: Option<String>,
)
    requires
        call_ensures(servers::jupyter_info, (token,), info),
        call_ensures(servers::jupyter_token, (made, kept), current),
    ensures
        info.url@ == "http://127.0.0.1:8766"@,
        info.port == 8766,
        token is Some ==> info.token@ == token->0@,
        token is None ==> info.token@.len() == 0,
        made is Some ==> text::view_of(current) == Some(made->0@),
        made is None ==> text::view_of(current) == text::view_of(kept),
{
    servers::servers_have_their_addresses(0, Seq::empty());
}

/// How the servers are launched.
pub proof fn servers_are_launched_by_uv(
    sidecar: servers::ServerLaunch,
    config: &str,
    notebooks: &str,
    token: &str,
    import_path: &str,
    jupyter: servers::ServerLaunch,
)
    requires
        call_ensures(servers::sidecar_launch, (), sidecar),
        call_ensures(servers::jupyter_launch, (config, notebooks, token, import_path), jupyter),
    ensures
        servers::argument_models(sidecar.arguments@) == servers::sidecar_arguments(),
        servers::environment_models(sidecar.environment@) == servers::uv_environment(
            "sidecar-server"@,
        ),
        servers::argument_models(jupyter.arguments@) == servers::jupyter_arguments(
            config@,
            notebooks@,
            token@,
        ),
        servers::environment_models(jupyter.environment@) == servers::uv_environment(
            "jupyter-server"@,
        ).push(("PYTHONPATH"@, servers::LaunchValueModel::Word { word: import_path@ })),
{
}

/// A wait looks at the process in each round, and asks the server where the process runs.
pub proof fn waits_go_round_by_round(
    wait: servers::HealthWait,
    step: servers::WaitStep,
    exit: servers::ProcessExit,
    error: String,
    ended: servers::WaitStep,
    running: servers::WaitStep,
    unknown: servers::WaitStep,
    fresh: servers::HealthWait,
    server: servers::Server,
    millis: u64,
)
    requires
        call_ensures(servers::HealthWait::new, (server,), fresh),
        call_ensures(servers::HealthWait::begin_round, (&wait,), step),
        call_ensures(servers::HealthWait::inspected, (&wait, Ok(Some(exit))), ended),
        call_ensures(servers::HealthWait::inspected, (&wait, Ok(None)), running),
        call_ensures(servers::HealthWait::inspected, (&wait, Err(error)), unknown),
        call_ensures(servers::health_interval_millis, (server,), millis),
    ensures
        fresh.server() == server && fresh.round() == 0,
        wait.round() < servers::health_attempts(wait.server()) ==> step is Inspect,
        wait.round() >= servers::health_attempts(wait.server()) ==> step is Failed,
        running is Ask,
        ended is Failed && ended->Failed_0@ == servers::ended_early(
            wait.server(),
            exit.status@,
            exit.output@,
        ),
        unknown is Failed && unknown->Failed_0@ == servers::uninspected(wait.server(), error@),
        millis == if server == servers::Server::Martin {
            100u64
        } else {
            1000
        },
{
}

/// A server that runs is used again, a new one is kept where there is none, and a server that is
/// stopped is asked before it is ended.
pub proof fn servers_are_single_and_stopped_in_order(
    server: servers::Server,
    runs: bool,
    slot: Result<servers::SlotPlan, String>,
    empty: Result<servers::SlotPlan, String>,
    other_started: bool,
    started: servers::StartedPlan,
    message: String,
    failed: servers::StartedPlan,
    look: servers::StopLook,
    answers: bool,
    stop: servers::StopStep,
    process: u32,
    target: Option<i32>,
)
    requires
        call_ensures(servers::plan_slot, (server, Some(Ok(runs))), slot),
        call_ensures(servers::plan_slot, (server, None), empty),
        call_ensures(servers::plan_started, (Ok(()), other_started), started),
        call_ensures(servers::plan_started, (Err(message), other_started), failed),
        call_ensures(servers::sidecar_stop_step, (look, answers), stop),
        call_ensures(servers::process_group_target, (process,), target),
    ensures
        slot is Ok && slot->Ok_0 == if runs {
            servers::SlotPlan::Reuse
        } else {
            servers::SlotPlan::Replace
        },
        empty is Ok && empty->Ok_0 == servers::SlotPlan::Start,
        other_started ==> started is EndDuplicate,
        !other_started ==> started is Keep,
        failed is EndFailed && failed->EndFailed_0@ == message@,
        look == servers::StopLook::First ==> if answers {
            stop is RequestShutdown
        } else {
            stop is LookAgain
        },
        look == servers::StopLook::Second ==> if answers {
            stop is EndListeners
        } else {
            stop is LookAgain
        },
        look == servers::StopLook::Last ==> if answers {
            stop is Failed && stop->Failed_0@ == "GeoLibre sidecar is still running on port 8765."@
        } else {
            stop is Stopped
        },
        1 <= process <= 0x7fff_ffff ==> target is Some && target->0 == -process,
        process == 0 || process > 0x7fff_ffff ==> target is None,
{
    servers::stopping_asks_before_it_ends(look, answers);
}

/// A start ends at once where the server runs, goes on otherwise, and says what has failed.
pub proof fn starts_go_step_by_step(
    server: server_start::UvServer,
    stage: server_start::StartStage,
    plan: servers::SlotPlan,
    found: server_start::StartStep,
    error: String,
    failed: server_start::StartStep,
    done: server_start::StartStep,
    answers: bool,
    earlier: server_start::StartStep,
)
    requires
        call_ensures(
            server_start::advance_start,
            (
                server,
                server_start::StartStage::CheckSlot,
                server_start::StartEvent::Slot(plan),
            ),
            found,
        ),
        call_ensures(
            server_start::advance_start,
            (server, stage, server_start::StartEvent::Failed(error)),
            failed,
        ),
        call_ensures(
            server_start::advance_start,
            (server, stage, server_start::StartEvent::Done),
            done,
        ),
        call_ensures(
            server_start::advance_start,
            (
                server,
                server_start::StartStage::AskEarlierServer,
                server_start::StartEvent::EarlierServer(answers),
            ),
            earlier,
        ),
    ensures
        found is Running <==> plan == servers::SlotPlan::Reuse,
        plan != servers::SlotPlan::Reuse ==> found == server_start::StartStep::Do(
            if server == server_start::UvServer::Sidecar {
                server_start::StartStage::AskEarlierServer
            } else {
                server_start::StartStage::ClearPort
            },
        ),
        earlier is Running <==> answers,
        failed is Failed,
        failed->message@ == server_start::failure_start(server, stage) + error@,
        failed->end_process <==> stage == server_start::StartStage::AwaitReadiness || (stage
            == server_start::StartStage::Keep && server == server_start::UvServer::Jupyter),
        done.model() == server_start::stage_after(server, stage),
{
    server_start::failed_starts_say_why(server, stage, error);
}

/// Processes are told by their sockets and ended on Linux alone, each once.
pub proof fn listeners_are_ended_on_linux(
    os: TargetOs,
    processes: Vec<proc_net::ProcessEntry>,
    inodes: Vec<String>,
    sidecars: Vec<i32>,
    notebooks: Vec<i32>,
)
    requires
        call_ensures(
            proc_net::terminate_sidecar_listeners_on_port,
            (os, &processes, &inodes),
            sidecars,
        ),
        call_ensures(
            proc_net::terminate_jupyter_listeners_on_port,
            (os, &processes, &inodes),
            notebooks,
        ),
    ensures
        os != TargetOs::Linux ==> sidecars@.len() == 0 && notebooks@.len() == 0,
        sidecars@.no_duplicates() && notebooks@.no_duplicates(),
{
}

/// The sockets that listen on a port are those of both tables, and a table that could not be read
/// is named.
pub proof fn listening_sockets_are_those_of_both_tables(
    tcp: String,
    tcp6: String,
    port: u16,
    inodes: Result<Vec<String>, String>,
    inode: Seq<char>,
    error: String,
    first: Result<Vec<String>, String>,
    second: Result<Vec<String>, String>,
)
    requires
        call_ensures(proc_net::listening_tcp_inodes, (Ok(tcp), Ok(tcp6), port), inodes),
        call_ensures(proc_net::listening_tcp_inodes, (Err(error), Ok(tcp6), port), first),
        call_ensures(proc_net::listening_tcp_inodes, (Ok(tcp), Err(error), port), second),
    ensures
        inodes is Ok,
        text::views(inodes->Ok_0@).contains(inode) <==> proc_net::lists_inode(tcp@, port, inode)
            || proc_net::lists_inode(tcp6@, port, inode),
        first is Err && first->Err_0@ == "Could not read /proc/net/tcp: "@ + error@,
        second is Err && second->Err_0@ == "Could not read /proc/net/tcp6: "@ + error@,
{
}

// ---------------------------------------------------------------------------
// The platform

/// Where uv and the project of the servers come from.
pub proof fn tools_are_taken_from_the_nearest(
    configured: bool,
    on_path: bool,
    installed: bool,
    source: environment::UvSource,
    candidates: Vec<environment::Candidate>,
    found: Option<usize>,
)
    requires
        call_ensures(environment::choose_uv, (configured, on_path, installed), source),
        call_ensures(environment::find_executable_on_path, (&candidates,), found),
    ensures
        source == if configured {
            environment::UvSource::Configured
        } else if on_path {
            environment::UvSource::OnPath
        } else if installed {
            environment::UvSource::Installed
        } else {
            environment::UvSource::ToInstall
        },
        found is Some ==> found->0 < candidates@.len() && candidates@[found->0 as int].is_file
            && candidates@[found->0 as int].is_executable,
{
}

/// What installing uv and looking for the project of the servers gave.
pub proof fn tools_are_checked(
    success: bool,
    stdout: &str,
    stderr: &str,
    created: bool,
    uv: &str,
    installed: Result<(), String>,
    path: String,
    has_project: bool,
    project: Result<(), String>,
)
    requires
        call_ensures(
            environment::check_uv_installer,
            (success, stdout, stderr, created, uv),
            installed,
        ),
        call_ensures(environment::validate_sidecar_project_dir, (Ok(path), has_project), project),
    ensures
        installed is Ok <==> success && created,
        !success ==> installed->Err_0@ == "uv installer failed: "@ + if stderr@.len() == 0 {
            stdout@
        } else {
            stderr@
        },
        success && !created ==> installed->Err_0@ == "uv installer did not create "@ + uv@,
        project is Ok <==> has_project,
        !has_project ==> project->Err_0@ == "Could not find GeoLibre sidecar project at "@ + path@,
{
}

/// What differs by platform.
pub proof fn platforms_have_their_own_names(
    os: TargetOs,
    arch: TargetArch,
    extension: Option<&'static str>,
    martin_name: &'static str,
    uv_name: &'static str,
    url: &'static str,
    file: &'static str,
    mode: Option<u32>,
    has_modes: bool,
    made: Option<u32>,
    runs: bool,
)
    requires
        call_ensures(platform::platform_extension_subpath, (os, arch), extension),
        call_ensures(platform::martin_executable_name, (os,), martin_name),
        call_ensures(platform::uv_executable_name, (os,), uv_name),
        call_ensures(platform::uv_installer_url, (os,), url),
        call_ensures(platform::uv_installer_file_name, (os,), file),
        call_ensures(platform::make_executable, (has_modes,), made),
        call_ensures(platform::is_executable, (mode,), runs),
    ensures
        text::str_view_of(extension) == platform::extension_subpath(os, arch),
        os == TargetOs::Windows ==> martin_name@ == "martin.exe"@ && uv_name@ == "uv.exe"@ && url@
            == "https://astral.sh/uv/install.ps1"@ && file@ == "uv-install.ps1"@,
        os != TargetOs::Windows ==> martin_name@ == "martin"@ && uv_name@ == "uv"@ && url@
            == "https://astral.sh/uv/install.sh"@ && file@ == "uv-install.sh"@,
        made == if has_modes {
            Some(493u32)
        } else {
            None
        },
        mode is None ==> runs,
        mode is Some ==> (runs <==> mode->0 / 64 % 2 == 1 || mode->0 / 8 % 2 == 1 || mode->0 % 2
            == 1),
{
    if mode is Some {
        platform::any_execution_bit_counts(mode->0);
    }
}

/// The settings of the web view, the import path of the kernels, the administrator's profile and
/// the windows of a sign-in.
pub proof fn the_application_is_set_up(
    directory: &str,
    inherited: Option<&str>,
    os: TargetOs,
    path: String,
    contents: String,
    profile_read: Result<Option<String>, String>,
    missing: Result<Option<String>, String>,
    number: u64,
    label: String,
    title: &str,
    popup: bool,
)
    requires
        call_ensures(platform::prepend_pythonpath, (directory, inherited, os), path),
        call_ensures(
            profile::admin_profile,
            (profile::ProfileRead::Contents(contents),),
            profile_read,
        ),
        call_ensures(profile::admin_profile, (profile::ProfileRead::Missing,), missing),
        call_ensures(windows::oauth_popup_label, (number,), label),
        call_ensures(windows::is_oauth_popup, ("", Some(title)), popup),
    ensures
        path@ == if inherited is Some && inherited->0@.len() > 0 {
            directory@ + (if os == TargetOs::Windows {
                ";"@
            } else {
                ":"@
            }) + inherited->0@
        } else {
            directory@
        },
        profile_read is Ok && profile_read->Ok_0 is Some && profile_read->Ok_0->0@ == contents@,
        missing is Ok && missing->Ok_0 is None,
        label@ == "oauthPopup"@ + numbers::decimal(number as nat),
        popup <==> text::occurs_in(title@, "Earth Engine sign-in"@) || text::occurs_in(
            title@,
            "accounts.google.com"@,
        ) || text::occurs_in(title@, "Google"@),
{
    reveal_strlit("");
    reveal_strlit("oauthPopup");
}

} // verus!
