//! The Martin tile server: which release is installed and how, how the server is launched, and
//! how often it is tried to start.

use vstd::prelude::*;

use crate::platform::{TargetArch, TargetOs};
use crate::{archive, numbers, paths, platform, text};

verus! {

pub const MARTIN_VERSION: &'static str = "martin-v1.10.1";

pub const MARTIN_RELEASE_BASE_URL: &'static str =
    "https://github.com/maplibre/martin/releases/download";

/// How often it is tried to start the server.
pub const MARTIN_START_ATTEMPTS: u32 = 3;

/// An installed Martin executable.
#[derive(Debug)]
pub struct MartinBinaryInfo {
    pub path: String,
    pub downloaded: bool,
}

/// A running Martin server.
#[derive(Debug)]
pub struct MartinServerInfo {
    pub base_url: String,
    pub binary_path: String,
    pub port: u16,
}

// ---------------------------------------------------------------------------
// The release and where it is installed

/// `name` without the given ending, however often it has it.
pub open spec fn without_endings(name: Seq<char>, ending: Seq<char>) -> Seq<char>
    decreases name.len(),
{
    if ending.len() > 0 && ending.is_suffix_of(name) {
        without_endings(name.take(name.len() - ending.len()), ending)
    } else {
        name
    }
}

fn strip_endings(name: &str, ending: &str) -> (stem: String)
    requires
        ending@.len() > 0,
    ensures
        stem@ == without_endings(name@, ending@),
    decreases name@.len(),
{
    match text::without_suffix(name, ending) {
        Some(shorter) => strip_endings(shorter.as_str(), ending),
        None => name.to_owned(),
    }
}

/// The name of a release without the ending of its archive.
pub open spec fn asset_stem(asset: Seq<char>) -> Seq<char> {
    without_endings(without_endings(asset, ".tar.gz"@), ".zip"@)
}

/// Where a release is installed and where it comes from.
#[derive(Debug)]
pub struct MartinInstallation {
    pub asset_name: &'static str,
    pub executable_name: &'static str,
    /// The directories in the application's data directory that the executable lies in.
    pub directories: Vec<String>,
    /// The name of the executable until it is complete.
    pub temporary_name: String,
    pub download_url: String,
}

/// The installation of a release keeps the executable apart by version and platform.
pub open spec fn installs(installation: MartinInstallation, asset: Seq<char>, executable: Seq<char>) -> bool {
    &&& installation.asset_name@ == asset
    &&& installation.executable_name@ == executable
    &&& text::views(installation.directories@) == seq![
        "martin"@,
        MARTIN_VERSION@,
        asset_stem(asset),
    ]
    &&& installation.temporary_name@ == executable + ".download"@
    &&& installation.download_url@ == MARTIN_RELEASE_BASE_URL@ + "/"@ + MARTIN_VERSION@ + "/"@
        + asset
}

/// Where the release for a platform is installed and where it comes from.
pub fn martin_installation(os: TargetOs, arch: TargetArch) -> (installation: Result<
    MartinInstallation,
    String,
>)
    ensures
        match platform::martin_asset(os, arch) {
            Some(asset) => installation matches Ok(installation) && installs(
                installation,
                asset,
                platform::martin_executable(os),
            ),
            None => installation matches Err(message) && message@
                == "No Martin binary release is available for this platform."@,
        },
{
    let asset_name = match platform::martin_asset_name(os, arch) {
        Ok(asset_name) => asset_name,
        Err(message) => {
            return Err(message);
        },
    };
    let executable_name = platform::martin_executable_name(os);
    proof {
        reveal_strlit(".tar.gz");
        reveal_strlit(".zip");
    }
    let stem = strip_endings(asset_name, ".tar.gz");
    let stem = strip_endings(stem.as_str(), ".zip");
    let mut download_url = text::chained(MARTIN_RELEASE_BASE_URL, "/");
    download_url.append(MARTIN_VERSION);
    download_url.append("/");
    download_url.append(asset_name);
    let directories: Vec<String> = vec!["martin".to_owned(), MARTIN_VERSION.to_owned(), stem];
    assert(text::views(directories@) == seq![
        "martin"@,
        MARTIN_VERSION@,
        asset_stem(asset_name@),
    ]);
    Ok(
        MartinInstallation {
            asset_name,
            executable_name,
            directories,
            temporary_name: text::chained(executable_name, ".download"),
            download_url,
        },
    )
}

// ---------------------------------------------------------------------------
// The steps of an installation

/// A step of the installation, in the order in which they are taken.
#[derive(Debug, Clone, Copy, PartialEq, Eq, Structural)]
pub enum InstallStage {
    CreateDirectory,
    CreateClient,
    Request,
    CheckStatus,
    Download,
    FindBinary,
    CreateTemporary,
    Extract,
    WriteTemporary,
    ReadMode,
    SetMode,
    Rename,
}

/// What comes next in an installation.
#[derive(Debug)]
pub enum InstallStep {
    Do(InstallStage),
    /// The executable is in place.
    Installed { downloaded: bool },
    /// The installation has failed. An incomplete executable is removed.
    Failed { message: String, clean_up: bool },
}

pub enum InstallModel {
    Do { stage: InstallStage },
    Installed { downloaded: bool },
    Failed { message: Seq<char>, clean_up: bool },
}

impl InstallStep {
    pub open spec fn model(self) -> InstallModel {
        match self {
            InstallStep::Do(stage) => InstallModel::Do { stage },
            InstallStep::Installed { downloaded } => InstallModel::Installed { downloaded },
            InstallStep::Failed { message, clean_up } => InstallModel::Failed {
                message: message@,
                clean_up,
            },
        }
    }
}

/// An executable that is in place is used as it is.
pub open spec fn install_start(present: bool) -> InstallModel {
    if present {
        InstallModel::Installed { downloaded: false }
    } else {
        InstallModel::Do { stage: InstallStage::CreateDirectory }
    }
}

pub fn begin_install(present: bool) -> (step: InstallStep)
    ensures
        step.model() == install_start(present),
{
    if present {
        InstallStep::Installed { downloaded: false }
    } else {
        InstallStep::Do(InstallStage::CreateDirectory)
    }
}

/// What a failure of a step is reported with, in front of its cause. The steps that look into
/// the archive report their failures themselves.
pub open spec fn install_failure(stage: InstallStage) -> Seq<char> {
    match stage {
        InstallStage::CreateDirectory => "Could not create Martin cache directory: "@,
        InstallStage::CreateClient => "Could not create HTTP client: "@,
        InstallStage::Request => "Could not download Martin: "@,
        InstallStage::CheckStatus => "Martin download failed with status "@,
        InstallStage::Download => "Could not read Martin download: "@,
        InstallStage::FindBinary => ""@,
        InstallStage::CreateTemporary => "Could not create Martin binary: "@,
        InstallStage::Extract => ""@,
        InstallStage::WriteTemporary => "Could not extract Martin binary: "@,
        InstallStage::ReadMode => "Could not read Martin binary permissions: "@,
        InstallStage::SetMode => "Could not mark Martin executable: "@,
        InstallStage::Rename => "Could not install Martin binary: "@,
    }
}

/// The place of a step in the order of the steps.
pub open spec fn stage_rank(stage: InstallStage) -> int {
    match stage {
        InstallStage::CreateDirectory => 0,
        InstallStage::CreateClient => 1,
        InstallStage::Request => 2,
        InstallStage::CheckStatus => 3,
        InstallStage::Download => 4,
        InstallStage::FindBinary => 5,
        InstallStage::CreateTemporary => 6,
        InstallStage::Extract => 7,
        InstallStage::WriteTemporary => 8,
        InstallStage::ReadMode => 9,
        InstallStage::SetMode => 10,
        InstallStage::Rename => 11,
    }
}

/// What follows a step that has succeeded. The mode of the executable is set where the platform
/// has modes.
pub open spec fn install_next(stage: InstallStage, has_modes: bool) -> InstallModel {
    match stage {
        InstallStage::CreateDirectory => InstallModel::Do { stage: InstallStage::CreateClient },
        InstallStage::CreateClient => InstallModel::Do { stage: InstallStage::Request },
        InstallStage::Request => InstallModel::Do { stage: InstallStage::CheckStatus },
        InstallStage::CheckStatus => InstallModel::Do { stage: InstallStage::Download },
        InstallStage::Download => InstallModel::Do { stage: InstallStage::FindBinary },
        InstallStage::FindBinary => InstallModel::Do { stage: InstallStage::CreateTemporary },
        InstallStage::CreateTemporary => InstallModel::Do { stage: InstallStage::Extract },
        InstallStage::Extract => InstallModel::Do { stage: InstallStage::WriteTemporary },
        InstallStage::WriteTemporary => InstallModel::Do {
            stage: if has_modes {
                InstallStage::ReadMode
            } else {
                InstallStage::Rename
            },
        },
        InstallStage::ReadMode => InstallModel::Do { stage: InstallStage::SetMode },
        InstallStage::SetMode => InstallModel::Do { stage: InstallStage::Rename },
        InstallStage::Rename => InstallModel::Installed { downloaded: true },
    }
}

/// What follows a step with the given outcome. From the download on a failure leaves nothing
/// incomplete behind.
pub open spec fn install_after(
    stage: InstallStage,
    has_modes: bool,
    outcome: Result<(), Seq<char>>,
) -> InstallModel {
    match outcome {
        Ok(_) => install_next(stage, has_modes),
        Err(error) => InstallModel::Failed {
            message: install_failure(stage) + error,
            clean_up: stage_rank(stage) > stage_rank(InstallStage::Download),
        },
    }
}

fn failure_text(stage: InstallStage) -> (text: &'static str)
    ensures
        text@ == install_failure(stage),
{
    match stage {
        InstallStage::CreateDirectory => "Could not create Martin cache directory: ",
        InstallStage::CreateClient => "Could not create HTTP client: ",
        InstallStage::Request => "Could not download Martin: ",
        InstallStage::CheckStatus => "Martin download failed with status ",
        InstallStage::Download => "Could not read Martin download: ",
        InstallStage::FindBinary => "",
        InstallStage::CreateTemporary => "Could not create Martin binary: ",
        InstallStage::Extract => "",
        InstallStage::WriteTemporary => "Could not extract Martin binary: ",
        InstallStage::ReadMode => "Could not read Martin binary permissions: ",
        InstallStage::SetMode => "Could not mark Martin executable: ",
        InstallStage::Rename => "Could not install Martin binary: ",
    }
}

/// What follows a step of the installation with the given outcome.
pub fn advance_install(stage: InstallStage, has_modes: bool, outcome: Result<(), String>) -> (step:
    InstallStep)
    ensures
        step.model() == install_after(stage, has_modes, text::check_view(outcome)),
{
    if let Err(error) = outcome {
        let clean_up = match stage {
            InstallStage::CreateDirectory
            | InstallStage::CreateClient
            | InstallStage::Request
            | InstallStage::CheckStatus
            | InstallStage::Download => false,
            _ => true,
        };
        return InstallStep::Failed {
            message: text::chained(failure_text(stage), error.as_str()),
            clean_up,
        };
    }
    match stage {
        InstallStage::CreateDirectory => InstallStep::Do(InstallStage::CreateClient),
        InstallStage::CreateClient => InstallStep::Do(InstallStage::Request),
        InstallStage::Request => InstallStep::Do(InstallStage::CheckStatus),
        InstallStage::CheckStatus => InstallStep::Do(InstallStage::Download),
        InstallStage::Download => InstallStep::Do(InstallStage::FindBinary),
        InstallStage::FindBinary => InstallStep::Do(InstallStage::CreateTemporary),
        InstallStage::CreateTemporary => InstallStep::Do(InstallStage::Extract),
        InstallStage::Extract => InstallStep::Do(InstallStage::WriteTemporary),
        InstallStage::WriteTemporary => {
            if has_modes {
                InstallStep::Do(InstallStage::ReadMode)
            } else {
                InstallStep::Do(InstallStage::Rename)
            }
        },
        InstallStage::ReadMode => InstallStep::Do(InstallStage::SetMode),
        InstallStage::SetMode => InstallStep::Do(InstallStage::Rename),
        InstallStage::Rename => InstallStep::Installed { downloaded: true },
    }
}

/// An installation goes on to later steps only, so it ends; it ends well only once the complete
/// executable has been moved into place; and once there may be an incomplete executable, every
/// failure removes it.
pub proof fn installations_end_clean(
    stage: InstallStage,
    has_modes: bool,
    outcome: Result<(), Seq<char>>,
)
    ensures
        match install_after(stage, has_modes, outcome) {
            InstallModel::Do { stage: next } => outcome is Ok && stage_rank(next) > stage_rank(stage),
            InstallModel::Installed { downloaded } => downloaded && outcome is Ok && stage
                == InstallStage::Rename,
            InstallModel::Failed { message, clean_up } => outcome is Err && (stage_rank(stage)
                >= stage_rank(InstallStage::CreateTemporary) ==> clean_up),
        },
{
}

// ---------------------------------------------------------------------------
// The executable in a release

/// No entry before `index` is unreadable or plainly the executable.
pub open spec fn passed_over(
    names: Seq<Result<Seq<char>, Seq<char>>>,
    executable: Seq<char>,
    index: int,
) -> bool {
    forall|j: int|
        0 <= j < index ==> (#[trigger] names[j] matches Ok(name) && paths::plain_file_name(name)
            != Some(executable))
}

/// What a search among the entries of an archive has come upon.
#[derive(Debug)]
pub enum EntrySearch {
    Found(usize),
    Unreadable(String),
    Absent,
}

/// The search ends at the first entry whose file name is the executable, or at the first that
/// cannot be read.
pub open spec fn search_fits(
    names: Seq<Result<Seq<char>, Seq<char>>>,
    executable: Seq<char>,
    search: EntrySearch,
) -> bool {
    match search {
        EntrySearch::Found(index) => {
            &&& index < names.len()
            &&& passed_over(names, executable, index as int)
            &&& names[index as int] matches Ok(name)
                && paths::file_name_fits(name, Some(executable))
        },
        EntrySearch::Unreadable(error) => exists|index: int|
            0 <= index < names.len() && #[trigger] passed_over(names, executable, index)
                && names[index] == Err::<Seq<char>, Seq<char>>(error@),
        EntrySearch::Absent => passed_over(names, executable, names.len() as int),
    }
}

/// Looks for the first entry whose file name is `executable`.
pub fn search_entries(names: &Vec<Result<String, String>>, executable: &str) -> (search: EntrySearch)
    ensures
        search_fits(archive::outcomes_view(names@), executable@, search),
{
    let ghost all = archive::outcomes_view(names@);
    let mut i: usize = 0;
    while i < names.len()
        invariant
            all == archive::outcomes_view(names@),
            i <= names@.len(),
            passed_over(all, executable@, i as int),
        decreases names@.len() - i,
    {
        assert(all[i as int] == text::outcome_view(names@[i as int]));
        match &names[i] {
            Ok(name) => {
                if let Some(file) = paths::file_name(name.as_str()) {
                    if text::same_text(file.as_str(), executable) {
                        return EntrySearch::Found(i);
                    }
                }
            },
            Err(error) => {
                let error = error.clone();
                assert(passed_over(all, executable@, i as int));
                return EntrySearch::Unreadable(error);
            },
        }
        i = i + 1;
    }
    EntrySearch::Absent
}

/// An entry that is plainly the executable is found, unless an earlier one is taken for it or
/// cannot be read.
pub proof fn plain_executables_are_found(
    names: Seq<Result<Seq<char>, Seq<char>>>,
    executable: Seq<char>,
    search: EntrySearch,
    index: int,
)
    requires
        search_fits(names, executable, search),
        0 <= index < names.len(),
        names[index] matches Ok(name) && paths::plain_file_name(name) == Some(executable),
    ensures
        !(search is Absent),
        search matches EntrySearch::Found(found) ==> found <= index,
{
    if let EntrySearch::Found(found) = search {
        if found > index {
            assert(names[index] is Ok);
        }
    }
}

/// The index that a search has found, or the message that it reports, by the kind of archive.
pub open spec fn search_result(zipped: bool, search: EntrySearch) -> Result<usize, Seq<char>> {
    match search {
        EntrySearch::Found(index) => Ok(index),
        EntrySearch::Unreadable(message) => Err(message@),
        EntrySearch::Absent => Err(
            if zipped {
                "Martin zip did not contain the expected executable."@
            } else {
                "Martin archive did not contain the expected executable."@
            },
        ),
    }
}

pub open spec fn entry_outcome(entry: Result<usize, String>) -> Result<usize, Seq<char>> {
    match entry {
        Ok(index) => Ok(index),
        Err(message) => Err(message@),
    }
}

/// The index that a search has found, or the message that it reports.
pub fn found_entry(zipped: bool, search: EntrySearch) -> (entry: Result<usize, String>)
    ensures
        entry_outcome(entry) == search_result(zipped, search),
{
    match search {
        EntrySearch::Found(index) => Ok(index),
        EntrySearch::Unreadable(message) => Err(message),
        EntrySearch::Absent => {
            if zipped {
                Err("Martin zip did not contain the expected executable.".to_owned())
            } else {
                Err("Martin archive did not contain the expected executable.".to_owned())
            }
        },
    }
}

/// A release in a zip archive; the others are compressed tar archives.
pub open spec fn zipped_asset(asset: Seq<char>) -> bool {
    ".zip"@.is_suffix_of(asset)
}

/// The name of an entry of a zip archive, or why it cannot be read.
pub open spec fn zip_name(entry: Result<Seq<char>, Seq<char>>) -> Result<Seq<char>, Seq<char>> {
    match entry {
        Ok(name) => Ok(name),
        Err(error) => Err("Could not read Martin zip entry: "@ + error),
    }
}

/// The name of an entry of a tar archive, or why it cannot be read. Windows takes no path that is
/// not Unicode; elsewhere replacement characters stand for what is not.
pub open spec fn tar_name(entry: Result<Seq<u8>, Seq<char>>, os: TargetOs) -> Result<
    Seq<char>,
    Seq<char>,
> {
    match entry {
        Ok(path) => if vstd::utf8::valid_utf8(path) {
            Ok(vstd::utf8::decode_utf8(path))
        } else if os == TargetOs::Windows {
            Err(
                "Could not read Martin archive path: only Unicode paths are supported on Windows: "@
                    + text::lossy_text(path),
            )
        } else {
            Ok(text::lossy_text(path))
        },
        Err(error) => Err("Could not read Martin archive: "@ + error),
    }
}

/// The name of an entry of a tar archive, or why it cannot be read.
pub fn name_in_tar(entry: &Result<Vec<u8>, String>, os: TargetOs) -> (name: Result<String, String>)
    ensures
        text::outcome_view(name) == tar_name(archive::content_view(*entry), os),
{
    match entry {
        Ok(path) => {
            if let Some(path) = text::decoded(path.as_slice()) {
                return Ok(path);
            }
            let lossy = text::decoded_lossily(path.as_slice());
            if os == TargetOs::Windows {
                Err(
                    text::chained(
                        "Could not read Martin archive path: only Unicode paths are supported on Windows: ",
                        lossy.as_str(),
                    ),
                )
            } else {
                Ok(lossy)
            }
        },
        Err(error) => Err(text::chained("Could not read Martin archive: ", error.as_str())),
    }
}

/// The entries of a zip archive as they are opened one by one.
pub open spec fn zip_entries(archive: Seq<u8>) -> Result<
    Seq<Result<Seq<char>, Seq<char>>>,
    Seq<char>,
> {
    match archive::zip_listing(archive) {
        Ok(names) => Ok(
            Seq::new(names.len(), |i: int| zip_name(archive::zip_entry_name(archive, i))),
        ),
        Err(error) => Err("Could not read Martin zip: "@ + error),
    }
}

/// The entries of a compressed tar archive.
pub open spec fn tar_entries(archive: Seq<u8>, os: TargetOs) -> Result<
    Seq<Result<Seq<char>, Seq<char>>>,
    Seq<char>,
> {
    match archive::tar_gz_listing(archive) {
        Ok(paths) => Ok(Seq::new(paths.len(), |i: int| tar_name(paths[i], os))),
        Err(error) => Err("Could not read Martin archive: "@ + error),
    }
}

/// The entries of a release, each with its name or with the message that it cannot be read.
pub open spec fn release_entries(archive: Seq<u8>, zipped: bool, os: TargetOs) -> Result<
    Seq<Result<Seq<char>, Seq<char>>>,
    Seq<char>,
> {
    if zipped {
        zip_entries(archive)
    } else {
        tar_entries(archive, os)
    }
}

fn open_zip(archive: &[u8]) -> (entries: Result<Vec<Result<String, String>>, String>)
    ensures
        archive::entries_view(entries) == zip_entries(archive@),
{
    let count: usize = match archive::list_zip(archive) {
        Ok(names) => names.len(),
        Err(error) => {
            return Err(text::chained("Could not read Martin zip: ", error.as_str()));
        },
    };
    let mut entries: Vec<Result<String, String>> = Vec::new();
    let mut i: usize = 0;
    while i < count
        invariant
            i <= count,
            entries@.len() == i,
            forall|j: int|
                0 <= j < i ==> text::outcome_view(#[trigger] entries@[j]) == zip_name(
                    archive::zip_entry_name(archive@, j),
                ),
        decreases count - i,
    {
        let name = match archive::name_in_zip(archive, i) {
            Ok(name) => Ok(name),
            Err(error) => Err(text::chained("Could not read Martin zip entry: ", error.as_str())),
        };
        entries.push(name);
        i = i + 1;
    }
    assert(archive::outcomes_view(entries@) == zip_entries(archive@)->Ok_0);
    Ok(entries)
}

fn open_tar(archive: &[u8], os: TargetOs) -> (entries: Result<Vec<Result<String, String>>, String>)
    ensures
        archive::entries_view(entries) == tar_entries(archive@, os),
{
    let paths = match archive::list_tar_gz(archive) {
        Ok(paths) => paths,
        Err(error) => {
            return Err(text::chained("Could not read Martin archive: ", error.as_str()));
        },
    };
    let mut entries: Vec<Result<String, String>> = Vec::new();
    let mut i: usize = 0;
    while i < paths.len()
        invariant
            i <= paths@.len(),
            entries@.len() == i,
            forall|j: int|
                0 <= j < i ==> text::outcome_view(#[trigger] entries@[j]) == tar_name(
                    archive::content_view(paths@[j]),
                    os,
                ),
        decreases paths@.len() - i,
    {
        entries.push(name_in_tar(&paths[i], os));
        i = i + 1;
    }
    assert(archive::outcomes_view(entries@) == tar_entries(archive@, os)->Ok_0);
    Ok(entries)
}

/// `entry` is what a search for the executable among the entries of a release gives.
pub open spec fn searched(
    names: Seq<Result<Seq<char>, Seq<char>>>,
    zipped: bool,
    executable: Seq<char>,
    entry: Result<usize, Seq<char>>,
) -> bool {
    exists|search: EntrySearch|
        #[trigger] search_fits(names, executable, search) && entry == search_result(zipped, search)
}

/// `entry` is what searching a release for its executable gives.
pub open spec fn release_search(
    entries: Result<Seq<Result<Seq<char>, Seq<char>>>, Seq<char>>,
    zipped: bool,
    executable: Seq<char>,
    entry: Result<usize, Seq<char>>,
) -> bool {
    match entries {
        Err(message) => entry == Err::<usize, Seq<char>>(message),
        Ok(names) => searched(names, zipped, executable, entry),
    }
}

/// The index of the executable among the entries of a release.
pub fn find_martin_binary(
    archive: &[u8],
    asset_name: &str,
    executable: &str,
    os: TargetOs,
) -> (entry: Result<usize, String>)
    ensures
        release_search(
            release_entries(archive@, zipped_asset(asset_name@), os),
            zipped_asset(asset_name@),
            executable@,
            entry_outcome(entry),
        ),
{
    let zipped = text::has_suffix(asset_name, ".zip");
    let entries = if zipped {
        open_zip(archive)
    } else {
        open_tar(archive, os)
    };
    match entries {
        Ok(entries) => {
            let search = search_entries(&entries, executable);
            let ghost names = archive::outcomes_view(entries@);
            let ghost made = search;
            let entry = found_entry(zipped, search);
            proof {
                let result = entry_outcome(entry);
                let expected = search_result(zipped, made);
                assert(release_entries(archive@, zipped, os) == Ok::<_, Seq<char>>(names));
                assert(search_fits(names, executable@, made));
                assert(result is Err ==> result->Err_0 == expected->Err_0);
                assert(searched(names, zipped, executable@, result));
            }
            entry
        },
        Err(message) => Err(message),
    }
}

/// What extracting an entry gives, where `content` is what reading it gives.
pub open spec fn extracted(content: Result<Seq<u8>, Seq<char>>) -> Result<Seq<u8>, Seq<char>> {
    match content {
        Ok(content) => Ok(content),
        Err(error) => Err("Could not extract Martin binary: "@ + error),
    }
}

/// What extracting an entry gives, from what reading it gave.
pub fn extracted_entry(content: Result<Vec<u8>, String>) -> (binary: Result<Vec<u8>, String>)
    ensures
        archive::content_view(binary) == extracted(archive::content_view(content)),
{
    match content {
        Ok(content) => Ok(content),
        Err(error) => Err(text::chained("Could not extract Martin binary: ", error.as_str())),
    }
}

/// The content of an entry of a release, if there is such an entry.
pub open spec fn release_content(archive: Seq<u8>, zipped: bool, index: int) -> Option<
    Result<Seq<u8>, Seq<char>>,
> {
    if zipped {
        Some(archive::zip_entry_content(archive, index))
    } else {
        archive::tar_gz_entry_content(archive, index)
    }
}

/// The executable of a release, from the entry that was found to be it.
pub fn extract_martin_binary(archive: &[u8], asset_name: &str, index: usize) -> (binary: Option<
    Result<Vec<u8>, String>,
>)
    ensures
        match release_content(archive@, zipped_asset(asset_name@), index as int) {
            Some(content) => binary matches Some(binary) && archive::content_view(binary)
                == extracted(content),
            None => binary is None,
        },
{
    if text::has_suffix(asset_name, ".zip") {
        Some(extracted_entry(archive::content_in_zip(archive, index)))
    } else {
        match archive::content_in_tar_gz(archive, index) {
            Some(content) => Some(extracted_entry(content)),
            None => None,
        }
    }
}

// ---------------------------------------------------------------------------
// Launching the server

/// The address of a server on this machine.
pub open spec fn local_address(port: u16) -> Seq<char> {
    "127.0.0.1:"@ + numbers::decimal(port as nat)
}

/// How the server is launched.
#[derive(Debug)]
pub struct MartinLaunch {
    pub base_url: String,
    pub arguments: Vec<String>,
    pub environment: Vec<(String, String)>,
}

pub open spec fn environment_view(environment: Seq<(String, String)>) -> Seq<
    (Seq<char>, Seq<char>),
> {
    environment.map_values(|variable: (String, String)| (variable.0@, variable.1@))
}

/// The environment of the server: its database, and the default reference system unless that is
/// blank.
pub open spec fn martin_environment(connection: Seq<char>, default_srid: Option<Seq<char>>) -> Seq<
    (Seq<char>, Seq<char>),
> {
    let database = seq![("DATABASE_URL"@, connection)];
    match default_srid {
        Some(srid) => if text::trim(srid).len() > 0 {
            database.push(("DEFAULT_SRID"@, text::trim(srid)))
        } else {
            database
        },
        None => database,
    }
}

/// How the server is launched on the given port.
pub fn martin_launch(port: u16, connection: &str, default_srid: Option<&str>) -> (launch:
    MartinLaunch)
    ensures
        launch.base_url@ == "http://"@ + local_address(port),
        text::views(launch.arguments@) == seq!["-l"@, local_address(port)],
        environment_view(launch.environment@) == martin_environment(
            connection@,
            text::str_view_of(default_srid),
        ),
{
    let digits = numbers::to_decimal(port as u64);
    let address = text::chained("127.0.0.1:", digits.as_str());
    let base_url = text::chained("http://", address.as_str());
    let mut environment: Vec<(String, String)> = Vec::new();
    environment.push(("DATABASE_URL".to_owned(), connection.to_owned()));
    if let Some(srid) = default_srid {
        let srid = text::trimmed(srid);
        if !srid.as_str().is_empty() {
            environment.push(("DEFAULT_SRID".to_owned(), srid));
        }
    }
    assert(environment_view(environment@) == martin_environment(
        connection@,
        text::str_view_of(default_srid),
    ));
    let arguments: Vec<String> = vec!["-l".to_owned(), address];
    assert(text::views(arguments@) == seq!["-l"@, local_address(port)]);
    MartinLaunch { base_url, arguments, environment }
}

// ---------------------------------------------------------------------------
// Starting the server

/// The connection string without white space around it, unless it is blank.
pub fn martin_connection(connection: &str) -> (checked: Result<String, String>)
    ensures
        text::outcome_view(checked) == if text::trim(connection@).len() > 0 {
            Ok::<Seq<char>, Seq<char>>(text::trim(connection@))
        } else {
            Err("Enter a PostgreSQL connection string."@)
        },
{
    let connection = text::trimmed(connection);
    if connection.as_str().is_empty() {
        Err("Enter a PostgreSQL connection string.".to_owned())
    } else {
        Ok(connection)
    }
}

/// Refuses a second server.
pub fn check_no_martin(running: bool) -> (outcome: Result<(), String>)
    ensures
        text::check_view(outcome) == if running {
            Err::<(), Seq<char>>(
                "A Martin server is already running. Stop it before starting a new one."@,
            )
        } else {
            Ok(())
        },
{
    if running {
        Err("A Martin server is already running. Stop it before starting a new one.".to_owned())
    } else {
        Ok(())
    }
}

/// The attempts to start the server.
#[derive(Debug)]
pub struct StartAttempts {
    left: u32,
    last_error: String,
}

impl StartAttempts {
    /// The attempts have failed with exactly these errors so far.
    pub closed spec fn failed_with(self, errors: Seq<Seq<char>>) -> bool {
        &&& errors.len() <= MARTIN_START_ATTEMPTS
        &&& self.left == MARTIN_START_ATTEMPTS - errors.len()
        &&& self.last_error@ == start_error(errors)
    }

    pub fn new() -> (attempts: Self)
        ensures
            attempts.failed_with(Seq::empty()),
    {
        StartAttempts {
            left: MARTIN_START_ATTEMPTS,
            last_error: "Could not start Martin.".to_owned(),
        }
    }

    /// The error to report once there are no attempts left.
    pub fn given_up(&self) -> (error: Option<String>)
        ensures
            forall|errors: Seq<Seq<char>>| #[trigger]
                self.failed_with(errors) ==> text::view_of(error) == attempts_outcome(errors),
    {
        if self.left == 0 {
            Some(self.last_error.clone())
        } else {
            None
        }
    }

    /// Goes on after a failed attempt.
    pub fn failed(self, error: String) -> (attempts: Self)
        ensures
            forall|errors: Seq<Seq<char>>| #[trigger]
                self.failed_with(errors) && errors.len() < MARTIN_START_ATTEMPTS
                    ==> attempts.failed_with(errors.push(error@)),
    {
        let left: u32 = if self.left > 0 {
            self.left - 1
        } else {
            0
        };
        StartAttempts { left, last_error: error }
    }
}

/// The error of the last attempt.
pub open spec fn start_error(errors: Seq<Seq<char>>) -> Seq<char> {
    if errors.len() == 0 {
        "Could not start Martin."@
    } else {
        errors.last()
    }
}

/// What is reported after attempts with these errors: nothing while there are attempts left.
pub open spec fn attempts_outcome(errors: Seq<Seq<char>>) -> Option<Seq<char>> {
    if errors.len() >= MARTIN_START_ATTEMPTS {
        Some(start_error(errors))
    } else {
        None
    }
}

/// It is tried exactly three times, and the last error is the one that is reported.
pub proof fn the_last_error_is_reported(first: Seq<char>, second: Seq<char>, third: Seq<char>)
    ensures
        attempts_outcome(Seq::empty()) is None,
        attempts_outcome(seq![first]) is None,
        attempts_outcome(seq![first, second]) is None,
        attempts_outcome(seq![first, second, third]) == Some(third),
{
}

/// A release loses the ending of its archive, however often it has it, and is installed under
/// Martin's own directory, its version and that name, from the place of that version's releases;
/// until it is complete its executable ends in `.download`.
pub proof fn releases_are_installed_by_version_and_platform(
    installation: MartinInstallation,
    asset: Seq<char>,
    executable: Seq<char>,
)
    requires
        installs(installation, asset, executable),
    ensures
        installation.asset_name@ == asset,
        installation.executable_name@ == executable,
        installation.directories@.len() == 3,
        installation.directories@[0]@ == "martin"@,
        installation.directories@[1]@ == "martin-v1.10.1"@,
        installation.directories@[2]@ == asset_stem(asset),
        installation.temporary_name@ == executable + ".download"@,
        installation.download_url@
            == "https://github.com/maplibre/martin/releases/download/martin-v1.10.1/"@ + asset,
{
    let directories = text::views(installation.directories@);
    assert(directories.len() == installation.directories@.len());
    assert(directories[0] == installation.directories@[0]@);
    assert(directories[1] == installation.directories@[1]@);
    assert(directories[2] == installation.directories@[2]@);
    reveal_strlit("https://github.com/maplibre/martin/releases/download");
    reveal_strlit("/");
    reveal_strlit("martin-v1.10.1");
    reveal_strlit("https://github.com/maplibre/martin/releases/download/martin-v1.10.1/");
    assert("https://github.com/maplibre/martin/releases/download"@ + "/"@ + "martin-v1.10.1"@ + "/"@
        == "https://github.com/maplibre/martin/releases/download/martin-v1.10.1/"@);
}

/// The name of a release without the ending of its archive.
pub proof fn releases_lose_their_ending(stem: Seq<char>)
    requires
        !".tar.gz"@.is_suffix_of(stem),
        !".zip"@.is_suffix_of(stem),
    ensures
        asset_stem(stem + ".tar.gz"@) == stem,
        asset_stem(stem + ".zip"@) == stem,
        asset_stem(stem) == stem,
{
    reveal_strlit(".tar.gz");
    reveal_strlit(".zip");
    let packed = stem + ".tar.gz"@;
    assert(packed.subrange(stem.len() as int, packed.len() as int) == ".tar.gz"@);
    assert(packed.take(stem.len() as int) == stem);
    let zipped = stem + ".zip"@;
    assert(zipped.subrange(stem.len() as int, zipped.len() as int) == ".zip"@);
    assert(zipped.take(stem.len() as int) == stem);
    if ".tar.gz"@.is_suffix_of(zipped) {
        assert(zipped.last() == ".tar.gz"@[6]);
        assert(zipped.last() == ".zip"@[3]);
    }
    reveal_with_fuel(without_endings, 2);
}

/// An executable that is there is not downloaded again, and one that is not is installed from the
/// first step on.
pub proof fn present_executables_are_used(has_modes: bool)
    ensures
        install_start(true) == (InstallModel::Installed { downloaded: false }),
        install_start(false) == (InstallModel::Do { stage: InstallStage::CreateDirectory }),
        install_after(InstallStage::Rename, has_modes, Ok(())) == (InstallModel::Installed {
            downloaded: true,
        }),
{
}

/// The steps of an installation, each behind the one that it needs. The mode of the executable is
/// set where the platform has modes.
pub proof fn installations_take_every_step(has_modes: bool)
    ensures
        ({
            let next = |stage: InstallStage| install_after(stage, has_modes, Ok(()));
            let goes = |stage: InstallStage| InstallModel::Do { stage };
            &&& next(InstallStage::CreateDirectory) == goes(InstallStage::CreateClient)
            &&& next(InstallStage::CreateClient) == goes(InstallStage::Request)
            &&& next(InstallStage::Request) == goes(InstallStage::CheckStatus)
            &&& next(InstallStage::CheckStatus) == goes(InstallStage::Download)
            &&& next(InstallStage::Download) == goes(InstallStage::FindBinary)
            &&& next(InstallStage::FindBinary) == goes(InstallStage::CreateTemporary)
            &&& next(InstallStage::CreateTemporary) == goes(InstallStage::Extract)
            &&& next(InstallStage::Extract) == goes(InstallStage::WriteTemporary)
            &&& has_modes ==> next(InstallStage::WriteTemporary) == goes(InstallStage::ReadMode)
            &&& !has_modes ==> next(InstallStage::WriteTemporary) == goes(InstallStage::Rename)
            &&& next(InstallStage::ReadMode) == goes(InstallStage::SetMode)
            &&& next(InstallStage::SetMode) == goes(InstallStage::Rename)
        }),
{
}

/// A step that fails ends the installation with what has failed and why. What may be incomplete is
/// removed once the archive has been downloaded, and not before.
pub proof fn failed_steps_are_named(stage: InstallStage, has_modes: bool, error: Seq<char>)
    ensures
        install_after(stage, has_modes, Err(error)) == (InstallModel::Failed {
            message: (match stage {
                InstallStage::CreateDirectory => "Could not create Martin cache directory: "@,
                InstallStage::CreateClient => "Could not create HTTP client: "@,
                InstallStage::Request => "Could not download Martin: "@,
                InstallStage::CheckStatus => "Martin download failed with status "@,
                InstallStage::Download => "Could not read Martin download: "@,
                InstallStage::FindBinary => ""@,
                InstallStage::CreateTemporary => "Could not create Martin binary: "@,
                InstallStage::Extract => ""@,
                InstallStage::WriteTemporary => "Could not extract Martin binary: "@,
                InstallStage::ReadMode => "Could not read Martin binary permissions: "@,
                InstallStage::SetMode => "Could not mark Martin executable: "@,
                InstallStage::Rename => "Could not install Martin binary: "@,
            }) + error,
            clean_up: stage != InstallStage::CreateDirectory && stage != InstallStage::CreateClient
                && stage != InstallStage::Request && stage != InstallStage::CheckStatus && stage
                != InstallStage::Download,
        }),
{
}

/// Steps and outcomes are shown as they are.
pub proof fn installations_show_their_steps(
    stage: InstallStage,
    message: String,
    flag: bool,
    index: usize,
)
    ensures
        InstallStep::Do(stage).model() == (InstallModel::Do { stage }),
        (InstallStep::Installed { downloaded: flag }).model() == (InstallModel::Installed {
            downloaded: flag,
        }),
        (InstallStep::Failed { message, clean_up: flag }).model() == (InstallModel::Failed {
            message: message@,
            clean_up: flag,
        }),
        entry_outcome(Ok(index)) == Ok::<usize, Seq<char>>(index),
        entry_outcome(Err(message)) == Err::<usize, Seq<char>>(message@),
{
}

/// A search that finds an entry has passed over none whose file name is plainly the executable's,
/// nor one that cannot be read; and the file name of the entry that it finds is the executable's
/// on some platform.
pub proof fn the_first_executable_is_found(
    names: Seq<Result<Seq<char>, Seq<char>>>,
    executable: Seq<char>,
    search: EntrySearch,
    j: int,
)
    requires
        search_fits(names, executable, search),
        0 <= j < names.len(),
    ensures
        match search {
            EntrySearch::Found(index) => {
                &&& index < names.len()
                &&& names[index as int] is Ok
                &&& paths::file_name_fits(names[index as int]->Ok_0, Some(executable))
                &&& j < index ==> names[j] is Ok && paths::plain_file_name(names[j]->Ok_0) != Some(
                    executable,
                )
            },
            EntrySearch::Unreadable(error) => exists|index: int|
                0 <= index < names.len() && #[trigger] names[index] == Err::<Seq<char>, Seq<char>>(
                    error@,
                ) && (j < index ==> names[j] is Ok && paths::plain_file_name(names[j]->Ok_0) != Some(
                    executable,
                )),
            EntrySearch::Absent => names[j] is Ok && paths::plain_file_name(names[j]->Ok_0) != Some(
                executable,
            ),
        },
{
    match search {
        EntrySearch::Found(index) => {
            if j < index {
                assert(names[j] is Ok);
            }
        },
        EntrySearch::Unreadable(error) => {
            let index = choose|index: int|
                0 <= index < names.len() && #[trigger] passed_over(names, executable, index)
                    && names[index] == Err::<Seq<char>, Seq<char>>(error@);
            assert(names[index] == Err::<Seq<char>, Seq<char>>(error@));
            if j < index {
                assert(names[j] is Ok);
            }
        },
        EntrySearch::Absent => {
            assert(names[j] is Ok);
        },
    }
}

/// A release whose name ends in `.zip` is searched as a zip archive and any other as a compressed
/// tar archive. What the search gives is the entry that it found, or a message.
pub proof fn searches_report_what_they_found(index: usize, message: String, stem: Seq<char>)
    ensures
        search_result(true, EntrySearch::Found(index)) == Ok::<usize, Seq<char>>(index),
        search_result(false, EntrySearch::Found(index)) == Ok::<usize, Seq<char>>(index),
        search_result(true, EntrySearch::Unreadable(message)) == Err::<usize, Seq<char>>(message@),
        search_result(false, EntrySearch::Unreadable(message)) == Err::<usize, Seq<char>>(message@),
        search_result(true, EntrySearch::Absent) == Err::<usize, Seq<char>>(
            "Martin zip did not contain the expected executable."@,
        ),
        search_result(false, EntrySearch::Absent) == Err::<usize, Seq<char>>(
            "Martin archive did not contain the expected executable."@,
        ),
        zipped_asset(stem + ".zip"@),
        !".zip"@.is_suffix_of(stem) ==> !zipped_asset(stem),
{
    let name = stem + ".zip"@;
    assert(name.subrange(stem.len() as int, name.len() as int) == ".zip"@);
}

/// The entries of a release are those that its archive lists, in its order, each with its name or
/// with the message that it cannot be read; an archive that cannot be listed gives its message.
pub proof fn releases_are_listed_entry_by_entry(archive: Seq<u8>, os: TargetOs, at: int)
    ensures
        ({
            let zipped = release_entries(archive, true, os);
            let listing = archive::zip_listing(archive);
            &&& listing is Err ==> zipped == Err::<Seq<Result<Seq<char>, Seq<char>>>, Seq<char>>(
                "Could not read Martin zip: "@ + listing->Err_0,
            )
            &&& listing is Ok ==> {
                let name = archive::zip_entry_name(archive, at);
                &&& zipped is Ok
                &&& zipped->Ok_0.len() == listing->Ok_0.len()
                &&& 0 <= at < listing->Ok_0.len() ==> zipped->Ok_0[at] == match name {
                    Ok(name) => Ok::<Seq<char>, Seq<char>>(name),
                    Err(error) => Err("Could not read Martin zip entry: "@ + error),
                }
            }
        }),
        ({
            let packed = release_entries(archive, false, os);
            let listing = archive::tar_gz_listing(archive);
            &&& listing is Err ==> packed == Err::<Seq<Result<Seq<char>, Seq<char>>>, Seq<char>>(
                "Could not read Martin archive: "@ + listing->Err_0,
            )
            &&& listing is Ok ==> {
                &&& packed is Ok
                &&& packed->Ok_0.len() == listing->Ok_0.len()
                &&& 0 <= at < listing->Ok_0.len() ==> packed->Ok_0[at] == tar_name(
                    listing->Ok_0[at],
                    os,
                )
            }
        }),
{
}

/// The path of an entry of a tar archive is its text. Where it is none, Windows refuses it, and
/// replacement characters stand for what is no text elsewhere.
pub proof fn tar_paths_are_read_as_text(path: Vec<u8>, error: String, os: TargetOs)
    ensures
        vstd::utf8::valid_utf8(path@) ==> tar_name(archive::content_view(Ok(path)), os) == Ok::<
            Seq<char>,
            Seq<char>,
        >(vstd::utf8::decode_utf8(path@)),
        !vstd::utf8::valid_utf8(path@) && os == TargetOs::Windows ==> tar_name(
            archive::content_view(Ok(path)),
            os,
        ) == Err::<Seq<char>, Seq<char>>(
            "Could not read Martin archive path: only Unicode paths are supported on Windows: "@
                + text::lossy_text(path@),
        ),
        !vstd::utf8::valid_utf8(path@) && os != TargetOs::Windows ==> tar_name(
            archive::content_view(Ok(path)),
            os,
        ) == Ok::<Seq<char>, Seq<char>>(text::lossy_text(path@)),
        tar_name(archive::content_view(Err(error)), os) == Err::<Seq<char>, Seq<char>>(
            "Could not read Martin archive: "@ + error@,
        ),
{
}

/// The executable is the whole content of its entry, from the archive of its kind.
pub proof fn executables_are_extracted_whole(
    archive: Seq<u8>,
    index: int,
    content: Seq<u8>,
    error: Seq<char>,
)
    ensures
        extracted(Ok(content)) == Ok::<Seq<u8>, Seq<char>>(content),
        extracted(Err(error)) == Err::<Seq<u8>, Seq<char>>(
            "Could not extract Martin binary: "@ + error,
        ),
        release_content(archive, true, index) == Some(archive::zip_entry_content(archive, index)),
        release_content(archive, false, index) == archive::tar_gz_entry_content(archive, index),
{
}

/// The outcome of searching a release is that of listing it, where that fails, and else that of
/// some search among its entries.
pub proof fn releases_are_searched(
    names: Seq<Result<Seq<char>, Seq<char>>>,
    message: Seq<char>,
    zipped: bool,
    executable: Seq<char>,
    entry: Result<usize, Seq<char>>,
)
    ensures
        release_search(Err(message), zipped, executable, entry) ==> entry == Err::<usize, Seq<char>>(
            message,
        ),
        release_search(Ok(names), zipped, executable, entry) ==> exists|search: EntrySearch|
            #[trigger] search_fits(names, executable, search) && entry == search_result(
                zipped,
                search,
            ),
{
}

/// The server listens on this machine alone, and gets its database and, unless it is blank, the
/// default reference system, without the white space around it, from its environment.
pub proof fn servers_get_their_database(port: u16, connection: Seq<char>, srid: Seq<char>)
    ensures
        local_address(port) == "127.0.0.1:"@ + numbers::decimal(port as nat),
        martin_environment(connection, None) == seq![("DATABASE_URL"@, connection)],
        text::trim(srid).len() == 0 ==> martin_environment(connection, Some(srid)) == seq![
            ("DATABASE_URL"@, connection),
        ],
        text::trim(srid).len() > 0 ==> martin_environment(connection, Some(srid)) == seq![
            ("DATABASE_URL"@, connection),
            ("DEFAULT_SRID"@, text::trim(srid)),
        ],
{
    assert(seq![("DATABASE_URL"@, connection)].push(("DEFAULT_SRID"@, text::trim(srid))) == seq![
        ("DATABASE_URL"@, connection),
        ("DEFAULT_SRID"@, text::trim(srid)),
    ]);
}

/// The variables of an environment are their names and values, in order.
pub proof fn environments_hold_their_variables(environment: Seq<(String, String)>, at: int)
    requires
        0 <= at < environment.len(),
    ensures
        environment_view(environment).len() == environment.len(),
        environment_view(environment)[at] == (environment[at].0@, environment[at].1@),
{
}

/// The error of the third failed attempt is reported, and nothing before it.
pub proof fn the_third_failure_ends_the_attempts(errors: Seq<Seq<char>>, error: Seq<char>)
    ensures
        errors.len() < 2 ==> attempts_outcome(errors.push(error)) is None,
        errors.len() >= 2 ==> attempts_outcome(errors.push(error)) == Some(error),
        start_error(Seq::empty()) == "Could not start Martin."@,
        start_error(errors.push(error)) == error,
{
}

} // verus!
