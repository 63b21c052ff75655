//! External plugins: finding the manifest in an archive, reading the files that it names, and
//! the name under which an archive is installed.

use vstd::prelude::*;

use crate::manifest::ExternalPluginManifest;
use crate::{archive, manifest, paths, split, text};

verus! {

/// The largest file of a plugin that is read, in bytes.
pub const MAX_PLUGIN_ENTRY_BYTES: u64 = 52_428_800;

/// A plugin that has been read.
#[derive(Debug)]
pub struct ExternalPluginBundle {
    pub archive_name: String,
    pub manifest: ExternalPluginManifest,
    pub entry_source: String,
    pub style_source: Option<String>,
}

/// A plugin that could not be read, and why.
#[derive(Debug)]
pub struct ExternalPluginBundleError {
    pub archive_name: String,
    pub message: String,
}

/// What a scan of the plugin directories has found.
#[derive(Debug)]
pub struct ExternalPluginBundleLoadResult {
    pub plugins_directories: Vec<String>,
    pub bundles: Vec<ExternalPluginBundle>,
    pub errors: Vec<ExternalPluginBundleError>,
}

// ---------------------------------------------------------------------------
// Finding the manifest

/// A manifest inside some folder, other than the one in which macOS keeps its own metadata.
pub open spec fn wrapped_manifest(name: Seq<char>) -> bool {
    !"__MACOSX/"@.is_prefix_of(name) && "/plugin.json"@.is_suffix_of(name)
}

/// How many folders an entry lies in.
pub open spec fn depth(name: Seq<char>) -> nat {
    text::occurrences(name, '/')
}

/// Of two manifests the one in fewer folders comes first, else the first by name.
pub open spec fn shallower(left: Seq<char>, right: Seq<char>) -> bool {
    depth(left) < depth(right) || (depth(left) == depth(right) && text::before(left, right))
}

/// `path` is the shallowest of the wrapped manifests among `names`.
pub open spec fn shallowest(names: Seq<Seq<char>>, path: Option<Seq<char>>) -> bool {
    match path {
        Some(path) => names.contains(path) && wrapped_manifest(path) && forall|i: int|
            0 <= i < names.len() && wrapped_manifest(#[trigger] names[i]) ==> names[i] == path
                || shallower(path, names[i]),
        None => forall|i: int| 0 <= i < names.len() ==> !wrapped_manifest(#[trigger] names[i]),
    }
}

/// `path` is where the manifest of an archive with these entries lies: at the root, else in as
/// few folders as possible.
pub open spec fn manifest_path_fits(names: Seq<Seq<char>>, path: Option<Seq<char>>) -> bool {
    if names.contains("plugin.json"@) {
        path == Some("plugin.json"@)
    } else {
        shallowest(names, path)
    }
}

/// Where the manifest of an archive with these entries lies.
pub open spec fn manifest_path(names: Seq<Seq<char>>) -> Option<Seq<char>> {
    choose|path: Option<Seq<char>>| manifest_path_fits(names, path)
}

/// Every archive has one place where its manifest is looked for, and only one: the order of its
/// entries does not matter.
pub proof fn manifest_path_is_unique(names: Seq<Seq<char>>, path: Option<Seq<char>>)
    ensures
        manifest_path_fits(names, manifest_path(names)),
        manifest_path_fits(names, path) ==> path == manifest_path(names),
{
    if names.contains("plugin.json"@) {
        assert(manifest_path_fits(names, Some("plugin.json"@)));
    } else {
        let found = lemma_shallowest_exists(names);
        assert(manifest_path_fits(names, found));
        lemma_shallowest_unique(names, found, manifest_path(names));
        if shallowest(names, path) {
            lemma_shallowest_unique(names, path, manifest_path(names));
        }
    }
}

/// Archives with the same entries have their manifest in the same place.
pub proof fn manifest_path_ignores_order(left: Seq<Seq<char>>, right: Seq<Seq<char>>)
    requires
        forall|name: Seq<char>| left.contains(name) <==> right.contains(name),
    ensures
        manifest_path(left) == manifest_path(right),
{
    let path = manifest_path(left);
    manifest_path_is_unique(left, path);
    if !left.contains("plugin.json"@) {
        assert forall|i: int| 0 <= i < right.len() && wrapped_manifest(#[trigger] right[i]) implies (
        path matches Some(path) && (right[i] == path || shallower(path, right[i]))) by {
            assert(right.contains(right[i]));
            assert(left.contains(right[i]));
            let j = choose|j: int| 0 <= j < left.len() && left[j] == right[i];
            assert(wrapped_manifest(left[j]));
        }
    }
    manifest_path_is_unique(right, path);
}

proof fn lemma_shallowest_exists(names: Seq<Seq<char>>) -> (path: Option<Seq<char>>)
    ensures
        shallowest(names, path),
    decreases names.len(),
{
    if names.len() == 0 {
        None
    } else {
        let shorter = names.drop_last();
        let last = names.last();
        let found = lemma_shallowest_exists(shorter);
        assert(names == shorter.push(last));
        assert(forall|i: int| 0 <= i < shorter.len() ==> names[i] == shorter[i]);
        assert(names[names.len() - 1] == last);
        match found {
            None => {
                if wrapped_manifest(last) {
                    assert(names.contains(last));
                    Some(last)
                } else {
                    None
                }
            },
            Some(path) => {
                assert(names.contains(path)) by {
                    let j = choose|j: int| 0 <= j < shorter.len() && shorter[j] == path;
                    assert(names[j] == path);
                }
                if wrapped_manifest(last) && shallower(last, path) {
                    assert(names.contains(last));
                    assert forall|i: int|
                        0 <= i < names.len() && wrapped_manifest(#[trigger] names[i]) implies names[i]
                        == last || shallower(last, names[i]) by {
                        if i < shorter.len() && names[i] != path {
                            assert(shallower(path, shorter[i]));
                            text::text_order_is_total(last, path, names[i]);
                        }
                    }
                    Some(last)
                } else {
                    text::text_order_is_total(path, last, last);
                    Some(path)
                }
            },
        }
    }
}

proof fn lemma_shallowest_unique(
    names: Seq<Seq<char>>,
    left: Option<Seq<char>>,
    right: Option<Seq<char>>,
)
    requires
        shallowest(names, left),
        shallowest(names, right),
    ensures
        left == right,
{
    if let Some(path) = left {
        let i = choose|i: int| 0 <= i < names.len() && names[i] == path;
        assert(wrapped_manifest(names[i]));
        if let Some(other) = right {
            let j = choose|j: int| 0 <= j < names.len() && names[j] == other;
            assert(wrapped_manifest(names[j]));
            text::text_order_is_total(path, path, other);
        }
    } else if let Some(other) = right {
        let j = choose|j: int| 0 <= j < names.len() && names[j] == other;
        assert(wrapped_manifest(names[j]));
    }
}

fn is_wrapped_manifest(name: &str) -> (answer: bool)
    ensures
        answer == wrapped_manifest(name@),
{
    !text::has_prefix(name, "__MACOSX/") && text::has_suffix(name, "/plugin.json")
}

fn is_shallower(left: &str, right: &str) -> (answer: bool)
    ensures
        answer == shallower(left@, right@),
{
    let left_depth = text::count_char(left, '/');
    let right_depth = text::count_char(right, '/');
    left_depth < right_depth || (left_depth == right_depth && text::is_before(left, right))
}

/// Where the manifest lies among the entries of an archive.
pub fn manifest_path_in(names: &Vec<String>) -> (path: Option<String>)
    ensures
        text::view_of(path) == manifest_path(text::views(names@)),
{
    let ghost all = text::views(names@);
    if text::holds_text(names, "plugin.json") {
        let path = "plugin.json".to_owned();
        proof {
            manifest_path_is_unique(all, Some(path@));
        }
        return Some(path);
    }
    let mut best: Option<usize> = None;
    let mut i: usize = 0;
    assert(all.take(0) == Seq::<Seq<char>>::empty());
    while i < names.len()
        invariant
            all == text::views(names@),
            i <= names@.len(),
            match best {
                Some(b) => b < i && shallowest(all.take(i as int), Some(all[b as int])),
                None => shallowest(all.take(i as int), None),
            },
        decreases names@.len() - i,
    {
        let ghost seen = all.take(i as int);
        let ghost more = all.take(i + 1);
        assert(more == seen.push(all[i as int]));
        assert(more[i as int] == all[i as int]);
        assert(forall|j: int| 0 <= j < i ==> more[j] == seen[j]);
        let name = names[i].as_str();
        if is_wrapped_manifest(name) {
            match best {
                None => {
                    assert(shallowest(more, Some(all[i as int])));
                    best = Some(i);
                },
                Some(b) => {
                    let ghost path = all[b as int];
                    assert(more.contains(path)) by {
                        assert(more[b as int] == path);
                    }
                    if is_shallower(name, names[b].as_str()) {
                        assert forall|j: int|
                            0 <= j < more.len() && wrapped_manifest(
                                #[trigger] more[j],
                            ) implies more[j] == all[i as int] || shallower(
                            all[i as int],
                            more[j],
                        ) by {
                            if j < i && more[j] != path {
                                assert(shallower(path, seen[j]));
                                text::text_order_is_total(all[i as int], path, more[j]);
                            }
                        }
                        assert(shallowest(more, Some(all[i as int])));
                        best = Some(i);
                    } else {
                        proof {
                            text::text_order_is_total(path, all[i as int], all[i as int]);
                        }
                        assert(shallowest(more, Some(path)));
                    }
                },
            }
        } else {
            match best {
                Some(b) => {
                    assert(more[b as int] == all[b as int]);
                    assert(shallowest(more, Some(all[b as int])));
                },
                None => {
                    assert(shallowest(more, None));
                },
            }
        }
        i = i + 1;
    }
    assert(all.take(i as int) == all);
    match best {
        Some(b) => {
            let path = names[b].clone();
            proof {
                manifest_path_is_unique(all, Some(path@));
            }
            Some(path)
        },
        None => {
            proof {
                manifest_path_is_unique(all, None);
            }
            None
        },
    }
}

/// Where the manifest of an archive lies, or why the archive cannot be read.
pub open spec fn archived_manifest_path(listing: Result<Seq<Seq<char>>, Seq<char>>) -> Result<
    Option<Seq<char>>,
    Seq<char>,
> {
    match listing {
        Ok(names) => Ok(manifest_path(names)),
        Err(error) => Err(error),
    }
}

pub open spec fn found_path_view(path: Result<Option<String>, String>) -> Result<
    Option<Seq<char>>,
    Seq<char>,
> {
    match path {
        Ok(path) => Ok(text::view_of(path)),
        Err(error) => Err(error@),
    }
}

/// Where the manifest of a zip archive lies, or why the archive cannot be read.
pub fn find_zip_manifest_path(archive: &[u8]) -> (path: Result<Option<String>, String>)
    ensures
        found_path_view(path) == archived_manifest_path(archive::zip_listing(archive@)),
{
    match archive::list_zip(archive) {
        Ok(names) => Ok(manifest_path_in(&names)),
        Err(error) => Err(error),
    }
}

// ---------------------------------------------------------------------------
// Reading the files of a plugin

/// The message that a file of a plugin could not be read.
pub open spec fn unreadable(label: Seq<char>, name: Seq<char>, reason: Seq<char>) -> Seq<char> {
    "Could not read "@ + label + " '"@ + name + "'"@ + reason
}

/// The message that a file of a plugin is too large.
pub open spec fn too_large(label: Seq<char>, name: Seq<char>) -> Seq<char> {
    label + " '"@ + name + "' exceeds the 50-MB size limit"@
}

/// A name that archives give to a directory.
pub open spec fn directory_name(name: Seq<char>) -> bool {
    name.len() > 0 && paths::separator(name.last())
}

/// What was read of a file, unless it could not be read or is too large.
pub open spec fn limited_text(
    label: Seq<char>,
    name: Seq<char>,
    content: Result<Seq<char>, Seq<char>>,
) -> Result<Seq<char>, Seq<char>> {
    match content {
        Ok(content) => if vstd::utf8::encode_utf8(content).len() > MAX_PLUGIN_ENTRY_BYTES {
            Err(too_large(label, name))
        } else {
            Ok(content)
        },
        Err(error) => Err(unreadable(label, name, " as UTF-8: "@ + error)),
    }
}

/// What was read of an archive's entry, unless it could not be opened or read, is a directory,
/// or is too large.
pub open spec fn archived_text(
    label: Seq<char>,
    name: Seq<char>,
    entry: Result<Result<Seq<char>, Seq<char>>, Seq<char>>,
) -> Result<Seq<char>, Seq<char>> {
    match entry {
        Ok(content) => if directory_name(name) {
            Err(label + " '"@ + name + "' must be a file"@)
        } else {
            limited_text(label, name, content)
        },
        Err(error) => Err(unreadable(label, name, ": "@ + error)),
    }
}

fn unreadable_message(label: &str, name: &str, before: &str, reason: &str) -> (message: String)
    ensures
        message@ == unreadable(label@, name@, before@ + reason@),
{
    let mut message = text::chained("Could not read ", label);
    message.append(" '");
    message.append(name);
    message.append("'");
    message.append(before);
    message.append(reason);
    assert(message@ == unreadable(label@, name@, before@ + reason@));
    message
}

fn check_limited_text(label: &str, name: &str, content: Result<String, String>) -> (outcome: Result<
    String,
    String,
>)
    ensures
        text::outcome_view(outcome) == limited_text(label@, name@, text::outcome_view(content)),
{
    match content {
        Ok(content) => {
            let size: usize = content.as_str().as_bytes().len();
            if size as u64 > MAX_PLUGIN_ENTRY_BYTES {
                let mut message = text::chained(label, " '");
                message.append(name);
                message.append("' exceeds the 50-MB size limit");
                Err(message)
            } else {
                Ok(content)
            }
        },
        Err(error) => Err(unreadable_message(label, name, " as UTF-8: ", error.as_str())),
    }
}

fn is_directory_name(name: &str) -> (answer: bool)
    ensures
        answer == directory_name(name@),
{
    let chars = text::to_chars(name);
    let total: usize = chars.len();
    total > 0 && (chars[total - 1] == '/' || chars[total - 1] == '\\')
}

/// The text of an archive's entry from what opening and reading it gave.
pub fn archived_text_entry(
    label: &str,
    name: &str,
    entry: Result<Result<String, String>, String>,
) -> (outcome: Result<String, String>)
    ensures
        text::outcome_view(outcome) == archived_text(label@, name@, archive::entry_view(entry)),
{
    match entry {
        Ok(content) => {
            if is_directory_name(name) {
                let mut message = text::chained(label, " '");
                message.append(name);
                message.append("' must be a file");
                Err(message)
            } else {
                check_limited_text(label, name, content)
            }
        },
        Err(error) => Err(unreadable_message(label, name, ": ", error.as_str())),
    }
}

/// The entry of an archive, read one byte further than a plugin's file may reach.
pub open spec fn archived_entry(archive: Seq<u8>, name: Seq<char>) -> Result<
    Result<Seq<char>, Seq<char>>,
    Seq<char>,
> {
    archive::zip_entry_text(archive, name, MAX_PLUGIN_ENTRY_BYTES + 1)
}

/// The text of the entry of a zip archive with the given name.
pub fn read_zip_text_entry(archive: &[u8], name: &str, label: &str) -> (outcome: Result<
    String,
    String,
>)
    ensures
        text::outcome_view(outcome) == archived_text(label@, name@, archived_entry(archive@, name@)),
        outcome is Ok ==> (archive::zip_listing(archive@) matches Ok(names) && names.contains(
            name@,
        )),
{
    let entry = archive::text_in_zip(archive, name, MAX_PLUGIN_ENTRY_BYTES + 1);
    archived_text_entry(label, name, entry)
}

/// What became of reading a file of a plugin directory.
#[derive(Debug)]
pub enum FileRead {
    Missing,
    NotOpened(String),
    /// The file was opened and read, one byte further than a plugin's file may reach.
    Opened(Result<String, String>),
}

pub enum FileReadModel {
    Missing,
    NotOpened { error: Seq<char> },
    Opened { content: Result<Seq<char>, Seq<char>> },
}

impl FileRead {
    pub open spec fn model(self) -> FileReadModel {
        match self {
            FileRead::Missing => FileReadModel::Missing,
            FileRead::NotOpened(error) => FileReadModel::NotOpened { error: error@ },
            FileRead::Opened(content) => FileReadModel::Opened {
                content: text::outcome_view(content),
            },
        }
    }
}

/// What was read of a file, unless it is missing, could not be opened or read, or is too large.
pub open spec fn file_text(label: Seq<char>, name: Seq<char>, read: FileReadModel) -> Result<
    Seq<char>,
    Seq<char>,
> {
    match read {
        FileReadModel::Missing => Err(unreadable(label, name, ": file does not exist"@)),
        FileReadModel::NotOpened { error } => Err(unreadable(label, name, ": "@ + error)),
        FileReadModel::Opened { content } => limited_text(label, name, content),
    }
}

/// The text of a file of a plugin directory from what reading it gave.
pub fn read_fs_text_entry(label: &str, name: &str, read: FileRead) -> (outcome: Result<
    String,
    String,
>)
    ensures
        text::outcome_view(outcome) == file_text(label@, name@, read.model()),
{
    match read {
        FileRead::Missing => {
            let message = unreadable_message(label, name, ": file does not exist", "");
            assert(": file does not exist"@ + ""@ == ": file does not exist"@) by {
                reveal_strlit("");
            }
            Err(message)
        },
        FileRead::NotOpened(error) => Err(unreadable_message(label, name, ": ", error.as_str())),
        FileRead::Opened(content) => check_limited_text(label, name, content),
    }
}

// ---------------------------------------------------------------------------
// Reading a plugin archive

/// The text of an archive's manifest, and the folder that the manifest lies in.
#[derive(Debug)]
pub struct ArchivedManifest {
    pub prefix: String,
    pub text: String,
}

pub open spec fn archived_manifest_view(manifest: Result<ArchivedManifest, String>) -> Result<
    (Seq<char>, Seq<char>),
    Seq<char>,
> {
    match manifest {
        Ok(manifest) => Ok((manifest.prefix@, manifest.text@)),
        Err(message) => Err(message@),
    }
}

/// The folder that the manifest lies in, with its slash.
pub open spec fn folder_of(path: Seq<char>) -> Seq<char> {
    match text::strip_suffix(path, "plugin.json"@) {
        Some(folder) => folder,
        None => Seq::empty(),
    }
}

/// The manifest of an archive with the given listing, where `entry` is what opening and reading
/// the manifest's entry gives.
pub open spec fn archived_manifest(
    listing: Result<Seq<Seq<char>>, Seq<char>>,
    entry: spec_fn(Seq<char>) -> Result<Result<Seq<char>, Seq<char>>, Seq<char>>,
) -> Result<(Seq<char>, Seq<char>), Seq<char>> {
    match archived_manifest_path(listing) {
        Err(error) => Err("Could not read zip: "@ + error),
        Ok(None) => Err("Plugin archive is missing a plugin.json"@),
        Ok(Some(path)) => match archived_text("plugin manifest"@, path, entry(path)) {
            Ok(text) => Ok((folder_of(path), text)),
            Err(message) => Err(message),
        },
    }
}

/// The manifest of a plugin archive, as text.
pub fn read_archived_manifest(archive: &[u8]) -> (manifest: Result<ArchivedManifest, String>)
    ensures
        archived_manifest_view(manifest) == archived_manifest(
            archive::zip_listing(archive@),
            |name: Seq<char>| archived_entry(archive@, name),
        ),
{
    let path = match find_zip_manifest_path(archive) {
        Ok(Some(path)) => path,
        Ok(None) => {
            return Err("Plugin archive is missing a plugin.json".to_owned());
        },
        Err(error) => {
            return Err(text::chained("Could not read zip: ", error.as_str()));
        },
    };
    let prefix = match text::without_suffix(path.as_str(), "plugin.json") {
        Some(prefix) => prefix,
        None => String::new(),
    };
    match read_zip_text_entry(archive, path.as_str(), "plugin manifest") {
        Ok(text) => Ok(ArchivedManifest { prefix, text }),
        Err(message) => Err(message),
    }
}

/// The folder of a manifest and its name make up the place where it lies, so the files that it
/// names are looked for beside it.
pub proof fn folder_and_name_make_the_path(names: Seq<Seq<char>>)
    ensures
        manifest_path(names) matches Some(path) ==> names.contains(path) && folder_of(path)
            + "plugin.json"@ == path,
{
    manifest_path_is_unique(names, None);
    if let Some(path) = manifest_path(names) {
        reveal_strlit("plugin.json");
        reveal_strlit("/plugin.json");
        let tail = path.len() - 11;
        if names.contains("plugin.json"@) {
            assert(path.subrange(tail, path.len() as int) == "plugin.json"@);
        } else {
            assert(path.subrange(path.len() - 12, path.len() as int) == "/plugin.json"@);
            assert(path.subrange(tail, path.len() as int) == "/plugin.json"@.skip(1));
            assert("/plugin.json"@.skip(1) == "plugin.json"@);
        }
        assert("plugin.json"@.is_suffix_of(path));
        assert(path.take(tail) + path.subrange(tail, path.len() as int) == path);
    }
}

/// The sources of a plugin whose manifest passed or failed its checks, where `entry` and `style`
/// are the texts of its files. The first failure decides.
pub open spec fn plugin_sources(
    checked: Result<(), Seq<char>>,
    entry: Result<Seq<char>, Seq<char>>,
    style: Option<Result<Seq<char>, Seq<char>>>,
) -> Result<(Seq<char>, Option<Seq<char>>), Seq<char>> {
    match (checked, entry, style) {
        (Err(message), _, _) => Err(message),
        (Ok(_), Err(message), _) => Err(message),
        (Ok(_), Ok(_), Some(Err(message))) => Err(message),
        (Ok(_), Ok(entry), Some(Ok(style))) => Ok((entry, Some(style))),
        (Ok(_), Ok(entry), None) => Ok((entry, None)),
    }
}

/// The text of a plugin's style in an archive, where the plugin has one.
pub open spec fn archived_style(
    archive: Seq<u8>,
    prefix: Seq<char>,
    style: Option<Seq<char>>,
) -> Option<Result<Seq<char>, Seq<char>>> {
    match style {
        Some(style) => Some(
            archived_text("plugin style"@, prefix + style, archived_entry(archive, prefix + style)),
        ),
        None => None,
    }
}

/// The sources of a plugin in an archive.
pub open spec fn archived_sources(
    archive: Seq<u8>,
    prefix: Seq<char>,
    model: manifest::ManifestModel,
) -> Result<(Seq<char>, Option<Seq<char>>), Seq<char>> {
    plugin_sources(
        manifest::manifest_outcome(model),
        archived_text(
            "plugin entry"@,
            prefix + model.entry,
            archived_entry(archive, prefix + model.entry),
        ),
        archived_style(archive, prefix, model.style),
    )
}

pub open spec fn bundle_sources(bundle: Result<ExternalPluginBundle, String>) -> Result<
    (Seq<char>, Option<Seq<char>>),
    Seq<char>,
> {
    match bundle {
        Ok(bundle) => Ok((bundle.entry_source@, text::view_of(bundle.style_source))),
        Err(message) => Err(message@),
    }
}

/// Reads the files that the manifest of a plugin archive names, once the manifest has passed its
/// checks. They lie in the same folder as the manifest.
pub fn read_archived_plugin(
    archive: &[u8],
    archive_name: &str,
    prefix: &str,
    manifest: ExternalPluginManifest,
) -> (bundle: Result<ExternalPluginBundle, String>)
    ensures
        bundle_sources(bundle) == archived_sources(archive@, prefix@, manifest.model()),
        bundle matches Ok(bundle) ==> bundle.manifest == manifest && bundle.archive_name@
            == archive_name@,
        bundle is Ok ==> (archive::zip_listing(archive@) matches Ok(names) && names.contains(
            prefix@ + manifest.entry@,
        )),
{
    if let Err(message) = manifest::validate_external_plugin_manifest(&manifest) {
        return Err(message);
    }
    let entry_name = text::chained(prefix, manifest.entry.as_str());
    let entry_source = match read_zip_text_entry(archive, entry_name.as_str(), "plugin entry") {
        Ok(source) => source,
        Err(message) => {
            return Err(message);
        },
    };
    let style_source = match &manifest.style {
        Some(style) => {
            let style_name = text::chained(prefix, style.as_str());
            match read_zip_text_entry(archive, style_name.as_str(), "plugin style") {
                Ok(source) => Some(source),
                Err(message) => {
                    return Err(message);
                },
            }
        },
        None => None,
    };
    Ok(
        ExternalPluginBundle {
            archive_name: archive_name.to_owned(),
            manifest,
            entry_source,
            style_source,
        },
    )
}

/// What was read of a plugin's style in a directory, where the plugin has one. A style that was
/// not read is missing.
pub open spec fn directory_style(style: Option<Seq<char>>, read: Option<FileReadModel>) -> Option<
    Result<Seq<char>, Seq<char>>,
> {
    match style {
        Some(style) => Some(
            file_text(
                "plugin style"@,
                style,
                match read {
                    Some(read) => read,
                    None => FileReadModel::Missing,
                },
            ),
        ),
        None => None,
    }
}

pub open spec fn optional_read(read: Option<FileRead>) -> Option<FileReadModel> {
    match read {
        Some(read) => Some(read.model()),
        None => None,
    }
}

/// The plugin in a directory, from its manifest and from what reading its files gave. The first
/// failure decides: of the manifest's checks, of its entry, or of its style.
pub fn directory_plugin(
    archive_name: &str,
    manifest: ExternalPluginManifest,
    entry: FileRead,
    style: Option<FileRead>,
) -> (bundle: Result<ExternalPluginBundle, String>)
    ensures
        bundle_sources(bundle) == plugin_sources(
            manifest::manifest_outcome(manifest.model()),
            file_text("plugin entry"@, manifest.entry@, entry.model()),
            directory_style(text::view_of(manifest.style), optional_read(style)),
        ),
        bundle matches Ok(bundle) ==> bundle.manifest == manifest && bundle.archive_name@
            == archive_name@,
{
    if let Err(message) = manifest::validate_external_plugin_manifest(&manifest) {
        return Err(message);
    }
    let entry_source = match read_fs_text_entry("plugin entry", manifest.entry.as_str(), entry) {
        Ok(source) => source,
        Err(message) => {
            return Err(message);
        },
    };
    let style_source = match &manifest.style {
        Some(name) => {
            let read = match style {
                Some(read) => read,
                None => FileRead::Missing,
            };
            match read_fs_text_entry("plugin style", name.as_str(), read) {
                Ok(source) => Some(source),
                Err(message) => {
                    return Err(message);
                },
            }
        },
        None => None,
    };
    Ok(
        ExternalPluginBundle {
            archive_name: archive_name.to_owned(),
            manifest,
            entry_source,
            style_source,
        },
    )
}

/// A plugin is read only if its manifest keeps every rule, and no file of it that is read is
/// larger than the limit.
pub proof fn read_plugins_are_valid_and_limited(
    archive: Seq<u8>,
    prefix: Seq<char>,
    model: manifest::ManifestModel,
)
    requires
        archived_sources(archive, prefix, model) is Ok,
    ensures
        manifest::manifest_outcome(model) is Ok,
        manifest::stays_inside(model.entry),
        vstd::utf8::encode_utf8(archived_sources(archive, prefix, model)->Ok_0.0).len()
            <= MAX_PLUGIN_ENTRY_BYTES,
        archived_sources(archive, prefix, model)->Ok_0.1 matches Some(style) ==> vstd::utf8::encode_utf8(
            style,
        ).len() <= MAX_PLUGIN_ENTRY_BYTES,
{
    manifest::valid_manifests_stay_inside(model);
}

// ---------------------------------------------------------------------------
// Installing a plugin archive

/// Accepts only archives for installation.
pub fn check_plugin_archive_path(path: &str) -> (outcome: Result<(), String>)
    ensures
        outcome matches Err(message) ==> message@ == "Plugin file must be a .zip archive"@,
        paths::plain_file_name(path@) matches Some(name) ==> (outcome is Ok
            <==> paths::zip_extension(paths::extension_of(name))),
        paths::plain_part(path@) matches Some(part) ==> (split::last_position(part, '.') != 0 ==> (
        outcome is Ok <==> paths::zip_extension(paths::extension_of(part)))),
        exists|name: Option<Seq<char>>|
            #[trigger] paths::file_name_fits(path@, name) && (outcome is Ok
                <==> paths::zip_extension(paths::optional_extension(name))),
{
    if paths::is_zip_path(path) {
        Ok(())
    } else {
        Err("Plugin file must be a .zip archive".to_owned())
    }
}

/// Whether an archive has to be copied to where it is installed, given the full paths of the
/// source and of the destination as far as they are known. Copying an archive onto itself would
/// empty it.
pub fn must_copy(source: Option<&[u8]>, destination: Option<&[u8]>) -> (answer: bool)
    ensures
        answer <==> !(source is Some && destination is Some && source->0@ == destination->0@),
{
    match (source, destination) {
        (Some(source), Some(destination)) => !same_bytes(source, destination),
        _ => true,
    }
}

fn same_bytes(left: &[u8], right: &[u8]) -> (answer: bool)
    ensures
        answer == (left@ == right@),
{
    if left.len() != right.len() {
        return false;
    }
    let mut i: usize = 0;
    while i < left.len()
        invariant
            i <= left@.len(),
            left@.len() == right@.len(),
            forall|j: int| 0 <= j < i ==> left@[j] == right@[j],
        decreases left@.len() - i,
    {
        if left[i] != right[i] {
            return false;
        }
        i = i + 1;
    }
    assert(left@ == right@);
    true
}

/// A character that stands in the file name of any system.
pub open spec fn safe_char(c: char) -> bool {
    text::ascii_letter(c) || text::ascii_digit(c) || c == '-' || c == '_' || c == '.'
}

/// An identifier with every other character replaced.
pub open spec fn sanitized(id: Seq<char>) -> Seq<char> {
    id.map_values(
        |c: char|
            if safe_char(c) {
                c
            } else {
                '_'
            },
    )
}

/// A text without its leading dots.
pub open spec fn without_leading_dots(name: Seq<char>) -> Seq<char>
    decreases name.len(),
{
    if name.len() > 0 && name[0] == '.' {
        without_leading_dots(name.skip(1))
    } else {
        name
    }
}

/// The name under which the archive of a plugin is kept.
pub open spec fn archive_file_name(id: Seq<char>) -> Seq<char> {
    let name = without_leading_dots(sanitized(id));
    (if name.len() == 0 {
        "plugin"@
    } else {
        name
    }) + ".zip"@
}

fn is_safe_char(c: char) -> (answer: bool)
    ensures
        answer == safe_char(c),
{
    ('a' <= c && c <= 'z') || ('A' <= c && c <= 'Z') || ('0' <= c && c <= '9') || c == '-' || c
        == '_' || c == '.'
}

/// The name under which the archive of the plugin `id` is kept: characters that are not safe in
/// a file name are replaced, and leading dots are dropped.
pub fn plugin_archive_file_name(id: &str) -> (name: String)
    ensures
        name@ == archive_file_name(id@),
{
    let chars = text::to_chars(id);
    let mut safe: Vec<char> = Vec::new();
    let mut i: usize = 0;
    while i < chars.len()
        invariant
            chars@ == id@,
            i <= chars@.len(),
            safe@ == sanitized(id@).take(i as int),
        decreases chars@.len() - i,
    {
        let c = if is_safe_char(chars[i]) {
            chars[i]
        } else {
            '_'
        };
        safe.push(c);
        i = i + 1;
        assert(safe@ == sanitized(id@).take(i as int));
    }
    assert(safe@ == sanitized(id@));
    let mut start: usize = 0;
    assert(safe@.skip(0) == safe@);
    while start < safe.len() && safe[start] == '.'
        invariant
            start <= safe@.len(),
            without_leading_dots(safe@) == without_leading_dots(safe@.skip(start as int)),
        decreases safe@.len() - start,
    {
        assert(safe@.skip(start as int).skip(1) == safe@.skip(start + 1));
        start = start + 1;
    }
    assert(safe@.skip(start as int) == safe@.subrange(start as int, safe@.len() as int));
    let mut name = text::part(&safe, start, safe.len());
    if start == safe.len() {
        name.append("plugin");
        assert(name@ == "plugin"@);
    }
    name.append(".zip");
    name
}

/// The name of a kept archive has safe characters only, so it is no path, and is not hidden.
pub proof fn archive_names_are_safe(id: Seq<char>)
    ensures
        forall|i: int|
            0 <= i < archive_file_name(id).len() ==> safe_char(#[trigger] archive_file_name(id)[i]),
        archive_file_name(id)[0] != '.',
        ".zip"@.is_suffix_of(archive_file_name(id)),
        archive_file_name(id).len() > 4,
{
    reveal_strlit("plugin");
    reveal_strlit(".zip");
    let clean = sanitized(id);
    lemma_leading_dots(clean);
    let name = without_leading_dots(clean);
    let dropped = clean.len() - name.len();
    assert forall|i: int| 0 <= i < name.len() implies safe_char(#[trigger] name[i]) by {
        assert(name[i] == clean[i + dropped]);
    }
    let full = archive_file_name(id);
    assert(full.subrange(full.len() - 4, full.len() as int) == ".zip"@);
}

/// An identifier that is a safe name already is kept as it is.
pub proof fn safe_ids_are_kept(id: Seq<char>)
    requires
        id.len() > 0,
        id[0] != '.',
        forall|i: int| 0 <= i < id.len() ==> safe_char(#[trigger] id[i]),
    ensures
        archive_file_name(id) == id + ".zip"@,
{
    assert(sanitized(id) == id);
}

proof fn lemma_leading_dots(name: Seq<char>)
    ensures
        without_leading_dots(name).len() <= name.len(),
        without_leading_dots(name) == name.skip(name.len() - without_leading_dots(name).len()),
        without_leading_dots(name).len() > 0 ==> without_leading_dots(name)[0] != '.',
    decreases name.len(),
{
    if name.len() > 0 && name[0] == '.' {
        lemma_leading_dots(name.skip(1));
        let rest = without_leading_dots(name.skip(1));
        assert(name.skip(1).skip(name.len() - 1 - rest.len()) == name.skip(name.len() - rest.len()));
    } else {
        assert(name.skip(0) == name);
    }
}

// ---------------------------------------------------------------------------
// Laws

/// The manifest at the root of an archive is the archive's. Without one it is the one in the
/// fewest folders, by name where there are several, outside of what macOS keeps for itself; and
/// without any of these there is none.
pub proof fn manifests_lie_at_the_root_or_near_it(names: Seq<Seq<char>>)
    ensures
        names.contains("plugin.json"@) ==> manifest_path(names) == Some("plugin.json"@),
        !names.contains("plugin.json"@) ==> match manifest_path(names) {
            Some(path) => {
                &&& names.contains(path)
                &&& "/plugin.json"@.is_suffix_of(path)
                &&& !"__MACOSX/"@.is_prefix_of(path)
                &&& forall|i: int|
                    0 <= i < names.len() && "/plugin.json"@.is_suffix_of(#[trigger] names[i])
                        && !"__MACOSX/"@.is_prefix_of(names[i]) && names[i] != path ==> {
                        let here = text::occurrences(path, '/');
                        let there = text::occurrences(names[i], '/');
                        here < there || (here == there && text::before(path, names[i]))
                    }
            },
            None => forall|i: int|
                0 <= i < names.len() ==> !"/plugin.json"@.is_suffix_of(#[trigger] names[i])
                    || "__MACOSX/"@.is_prefix_of(names[i]),
        },
{
    manifest_path_is_unique(names, None);
    if !names.contains("plugin.json"@) {
        let path = manifest_path(names);
        assert(shallowest(names, path));
        if path is Some {
            assert forall|i: int|
                0 <= i < names.len() && "/plugin.json"@.is_suffix_of(#[trigger] names[i])
                    && !"__MACOSX/"@.is_prefix_of(names[i]) && names[i] != path->0 implies {
                let here = text::occurrences(path->0, '/');
                let there = text::occurrences(names[i], '/');
                here < there || (here == there && text::before(path->0, names[i]))
            } by {
                assert(wrapped_manifest(names[i]));
            }
        } else {
            assert forall|i: int| 0 <= i < names.len() implies !"/plugin.json"@.is_suffix_of(
                #[trigger] names[i],
            ) || "__MACOSX/"@.is_prefix_of(names[i]) by {
                assert(!wrapped_manifest(names[i]));
            }
        }
    }
}

/// A file of a plugin is taken as it is unless it has more than 52428800 bytes, and one that could
/// not be read or is too large is refused by its label and its name.
pub proof fn files_are_taken_up_to_the_limit(
    label: Seq<char>,
    name: Seq<char>,
    content: Seq<char>,
    error: Seq<char>,
)
    ensures
        vstd::utf8::encode_utf8(content).len() <= 52_428_800 ==> limited_text(
            label,
            name,
            Ok(content),
        ) == Ok::<Seq<char>, Seq<char>>(content),
        vstd::utf8::encode_utf8(content).len() > 52_428_800 ==> limited_text(
            label,
            name,
            Ok(content),
        ) == Err::<Seq<char>, Seq<char>>(
            label + " '"@ + name + "' exceeds the 50-MB size limit"@,
        ),
        limited_text(label, name, Err(error)) == Err::<Seq<char>, Seq<char>>(
            "Could not read "@ + label + " '"@ + name + "'"@ + (" as UTF-8: "@ + error),
        ),
{
}

/// An entry of an archive is read as a file, unless its name ends in a separator or it cannot be
/// opened.
pub proof fn archived_files_are_read(
    label: Seq<char>,
    name: Seq<char>,
    content: Result<Seq<char>, Seq<char>>,
    error: Seq<char>,
)
    ensures
        name.len() > 0 && (name.last() == '/' || name.last() == '\\') ==> archived_text(
            label,
            name,
            Ok(content),
        ) == Err::<Seq<char>, Seq<char>>(label + " '"@ + name + "' must be a file"@),
        !(name.len() > 0 && (name.last() == '/' || name.last() == '\\')) ==> archived_text(
            label,
            name,
            Ok(content),
        ) == limited_text(label, name, content),
        archived_text(label, name, Err(error)) == Err::<Seq<char>, Seq<char>>(
            "Could not read "@ + label + " '"@ + name + "'"@ + (": "@ + error),
        ),
{
}

/// A file of a directory is read where it is there and can be opened; else the reason is given.
pub proof fn directory_files_are_read(
    label: Seq<char>,
    name: Seq<char>,
    content: Result<String, String>,
    error: String,
)
    ensures
        file_text(label, name, FileRead::Opened(content).model()) == limited_text(
            label,
            name,
            text::outcome_view(content),
        ),
        file_text(label, name, FileRead::NotOpened(error).model()) == Err::<Seq<char>, Seq<char>>(
            "Could not read "@ + label + " '"@ + name + "'"@ + (": "@ + error@),
        ),
        file_text(label, name, FileRead::Missing.model()) == Err::<Seq<char>, Seq<char>>(
            "Could not read "@ + label + " '"@ + name + "'"@ + ": file does not exist"@,
        ),
{
}

/// An archive is read one byte beyond the limit, so that a file that is too large is seen to be.
pub proof fn archives_are_read_beyond_the_limit(archive: Seq<u8>, name: Seq<char>)
    ensures
        archived_entry(archive, name) == archive::zip_entry_text(archive, name, 52_428_801),
{
}

/// The manifest of an archive is the text of the entry where it lies, and its folder is that of
/// the entry. An archive that cannot be listed, or that has no manifest, is refused.
pub proof fn archived_manifests_are_read(
    names: Seq<Seq<char>>,
    error: Seq<char>,
    entry: spec_fn(Seq<char>) -> Result<Result<Seq<char>, Seq<char>>, Seq<char>>,
)
    ensures
        archived_manifest(Err(error), entry) == Err::<(Seq<char>, Seq<char>), Seq<char>>(
            "Could not read zip: "@ + error,
        ),
        manifest_path(names) is None ==> archived_manifest(Ok(names), entry) == Err::<
            (Seq<char>, Seq<char>),
            Seq<char>,
        >("Plugin archive is missing a plugin.json"@),
        manifest_path(names) is Some ==> {
            let path = manifest_path(names)->0;
            let read = archived_text("plugin manifest"@, path, entry(path));
            &&& read is Err ==> archived_manifest(Ok(names), entry) == Err::<
                (Seq<char>, Seq<char>),
                Seq<char>,
            >(read->Err_0)
            &&& read is Ok ==> {
                &&& archived_manifest(Ok(names), entry) is Ok
                &&& archived_manifest(Ok(names), entry)->Ok_0.1 == read->Ok_0
                &&& archived_manifest(Ok(names), entry)->Ok_0.0 + "plugin.json"@ == path
            }
        },
        archived_manifest_path(Ok(names)) == Ok::<Option<Seq<char>>, Seq<char>>(manifest_path(names)),
        archived_manifest_path(Err(error)) == Err::<Option<Seq<char>>, Seq<char>>(error),
{
    folder_and_name_make_the_path(names);
}

/// A plugin of an archive is its entry and its style, which lie in the folder of the manifest. Its
/// manifest is checked first, then its entry is read, and then its style, if it has one.
pub proof fn archived_plugins_are_entry_and_style(
    archive: Seq<u8>,
    prefix: Seq<char>,
    manifest: ExternalPluginManifest,
)
    ensures
        ({
            let checked = manifest::manifest_outcome(manifest.model());
            let entry_name = prefix + manifest.entry@;
            let style_name = prefix + manifest.style->0@;
            let entry = archived_text(
                "plugin entry"@,
                entry_name,
                archived_entry(archive, entry_name),
            );
            let style = archived_text(
                "plugin style"@,
                style_name,
                archived_entry(archive, style_name),
            );
            let sources = archived_sources(archive, prefix, manifest.model());
            &&& checked is Err ==> sources == Err::<(Seq<char>, Option<Seq<char>>), Seq<char>>(
                checked->Err_0,
            )
            &&& checked is Ok && entry is Err ==> sources == Err::<
                (Seq<char>, Option<Seq<char>>),
                Seq<char>,
            >(entry->Err_0)
            &&& checked is Ok && entry is Ok && manifest.style is None ==> sources == Ok::<
                (Seq<char>, Option<Seq<char>>),
                Seq<char>,
            >((entry->Ok_0, None))
            &&& checked is Ok && entry is Ok && manifest.style is Some && style is Err ==> sources
                == Err::<(Seq<char>, Option<Seq<char>>), Seq<char>>(style->Err_0)
            &&& checked is Ok && entry is Ok && manifest.style is Some && style is Ok ==> sources
                == Ok::<(Seq<char>, Option<Seq<char>>), Seq<char>>((entry->Ok_0, Some(style->Ok_0)))
        }),
{
}

/// A plugin of a directory is its entry and its style. Its manifest is checked first, then its
/// entry is read, and then its style, if it has one; a style that was not read is missing.
pub proof fn directory_plugins_are_entry_and_style(
    manifest: ExternalPluginManifest,
    entry_read: FileRead,
    style_read: Option<FileRead>,
)
    ensures
        ({
            let checked = manifest::manifest_outcome(manifest.model());
            let entry = file_text("plugin entry"@, manifest.entry@, entry_read.model());
            let style = if style_read is Some {
                file_text("plugin style"@, manifest.style->0@, style_read->0.model())
            } else {
                file_text("plugin style"@, manifest.style->0@, FileRead::Missing.model())
            };
            let sources = plugin_sources(
                checked,
                entry,
                directory_style(text::view_of(manifest.style), optional_read(style_read)),
            );
            &&& checked is Err ==> sources == Err::<(Seq<char>, Option<Seq<char>>), Seq<char>>(
                checked->Err_0,
            )
            &&& checked is Ok && entry is Err ==> sources == Err::<
                (Seq<char>, Option<Seq<char>>),
                Seq<char>,
            >(entry->Err_0)
            &&& checked is Ok && entry is Ok && manifest.style is None ==> sources == Ok::<
                (Seq<char>, Option<Seq<char>>),
                Seq<char>,
            >((entry->Ok_0, None))
            &&& checked is Ok && entry is Ok && manifest.style is Some && style is Err ==> sources
                == Err::<(Seq<char>, Option<Seq<char>>), Seq<char>>(style->Err_0)
            &&& checked is Ok && entry is Ok && manifest.style is Some && style is Ok ==> sources
                == Ok::<(Seq<char>, Option<Seq<char>>), Seq<char>>((entry->Ok_0, Some(style->Ok_0)))
        }),
{
}

/// What a plugin was read as is told by its sources, and a manifest by its folder and its text.
pub proof fn plugins_are_told_by_their_sources(
    bundle: ExternalPluginBundle,
    manifest: ArchivedManifest,
    path: Option<String>,
    message: String,
)
    ensures
        bundle_sources(Ok(bundle)) == Ok::<(Seq<char>, Option<Seq<char>>), Seq<char>>(
            (bundle.entry_source@, text::view_of(bundle.style_source)),
        ),
        bundle_sources(Err(message)) == Err::<(Seq<char>, Option<Seq<char>>), Seq<char>>(message@),
        archived_manifest_view(Ok(manifest)) == Ok::<(Seq<char>, Seq<char>), Seq<char>>(
            (manifest.prefix@, manifest.text@),
        ),
        archived_manifest_view(Err(message)) == Err::<(Seq<char>, Seq<char>), Seq<char>>(message@),
        found_path_view(Ok(path)) == Ok::<Option<Seq<char>>, Seq<char>>(text::view_of(path)),
        found_path_view(Err(message)) == Err::<Option<Seq<char>>, Seq<char>>(message@),
{
}

/// The archive of a plugin is kept under its identifier, in which all but letters, digits, hyphens,
/// underscores and dots are replaced by underscores, without the dots in front; it is called
/// `plugin` where nothing is left.
pub proof fn archives_are_kept_under_their_ids(dots: Seq<char>, id: Seq<char>)
    requires
        forall|i: int| 0 <= i < dots.len() ==> #[trigger] dots[i] == '.',
        id.len() > 0 ==> id[0] != '.',
    ensures
        id.len() == 0 ==> archive_file_name(dots + id) == "plugin.zip"@,
        id.len() > 0 ==> {
            &&& archive_file_name(dots + id).len() == id.len() + 4
            &&& archive_file_name(dots + id).skip(id.len() as int) == ".zip"@
            &&& forall|i: int|
                0 <= i < id.len() ==> #[trigger] archive_file_name(dots + id)[i] == {
                    let c = id[i];
                    if ('a' <= c <= 'z') || ('A' <= c <= 'Z') || ('0' <= c <= '9') || c == '-' || c
                        == '_' || c == '.' {
                        c
                    } else {
                        '_'
                    }
                }
        },
{
    reveal_strlit("plugin");
    reveal_strlit(".zip");
    reveal_strlit("plugin.zip");
    let clean = sanitized(id);
    assert(sanitized(dots + id) == dots + clean);
    lemma_dots_are_dropped(dots, clean);
    if id.len() > 0 {
        assert(clean[0] != '.');
        assert((clean + ".zip"@).skip(id.len() as int) == ".zip"@);
    } else {
        assert(archive_file_name(dots + id) == "plugin.zip"@);
    }
}

proof fn lemma_dots_are_dropped(dots: Seq<char>, rest: Seq<char>)
    requires
        forall|i: int| 0 <= i < dots.len() ==> #[trigger] dots[i] == '.',
        rest.len() > 0 ==> rest[0] != '.',
    ensures
        without_leading_dots(dots + rest) == rest,
    decreases dots.len(),
{
    if dots.len() == 0 {
        assert(dots + rest == rest);
    } else {
        assert((dots + rest)[0] == dots[0]);
        assert((dots + rest).skip(1) == dots.skip(1) + rest);
        lemma_dots_are_dropped(dots.skip(1), rest);
    }
}

} // verus!
