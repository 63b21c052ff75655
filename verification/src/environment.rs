//! The tools and projects that the application's servers run with: where uv comes from, and
//! where the project of the servers lies.

use vstd::prelude::*;

use crate::text;

verus! {

// ---------------------------------------------------------------------------
// Executables on the search path

/// A file on the search path: whether it is a file, and whether it may be executed.
#[derive(Debug, Clone, Copy, PartialEq, Eq, Structural)]
pub struct Candidate {
    pub is_file: bool,
    pub is_executable: bool,
}

/// A file that can be run.
pub open spec fn runs(candidate: Candidate) -> bool {
    candidate.is_file && candidate.is_executable
}

/// The first candidate that can be run.
pub fn find_executable_on_path(candidates: &Vec<Candidate>) -> (found: Option<usize>)
    ensures
        match found {
            Some(index) => index < candidates@.len() && runs(candidates@[index as int])
                && forall|j: int| 0 <= j < index ==> !runs(#[trigger] candidates@[j]),
            None => forall|j: int| 0 <= j < candidates@.len() ==> !runs(#[trigger] candidates@[j]),
        },
{
    let mut i: usize = 0;
    while i < candidates.len()
        invariant
            i <= candidates@.len(),
            forall|j: int| 0 <= j < i ==> !runs(#[trigger] candidates@[j]),
        decreases candidates@.len() - i,
    {
        if candidates[i].is_file && candidates[i].is_executable {
            return Some(i);
        }
        i = i + 1;
    }
    None
}

// ---------------------------------------------------------------------------
// uv

/// Where uv is taken from.
#[derive(Debug, Clone, Copy, PartialEq, Eq, Structural)]
pub enum UvSource {
    /// The environment names it.
    Configured,
    /// It is on the search path.
    OnPath,
    /// The application has installed it before.
    Installed,
    /// The application has to install it.
    ToInstall,
}

/// The uv that the environment names counts before the one on the search path, and that before
/// the application's own.
pub open spec fn uv_source(configured_exists: bool, on_path: bool, installed: bool) -> UvSource {
    if configured_exists {
        UvSource::Configured
    } else if on_path {
        UvSource::OnPath
    } else if installed {
        UvSource::Installed
    } else {
        UvSource::ToInstall
    }
}

/// Where uv is taken from: `configured_exists` says whether the environment names one that
/// exists, `on_path` whether one is on the search path, and `installed` whether the application
/// has one of its own.
pub fn choose_uv(configured_exists: bool, on_path: bool, installed: bool) -> (source: UvSource)
    ensures
        source == uv_source(configured_exists, on_path, installed),
{
    if configured_exists {
        UvSource::Configured
    } else if on_path {
        UvSource::OnPath
    } else if installed {
        UvSource::Installed
    } else {
        UvSource::ToInstall
    }
}

/// Nothing is installed where there is a uv already.
pub proof fn existing_uv_is_used(configured_exists: bool, on_path: bool, installed: bool)
    ensures
        uv_source(configured_exists, on_path, installed) == UvSource::ToInstall
            <==> !configured_exists && !on_path && !installed,
{
}

/// What the installer of uv has written: its errors, or all else where there are none.
pub open spec fn installer_detail(stdout: Seq<char>, stderr: Seq<char>) -> Seq<char> {
    if stderr.len() == 0 {
        stdout
    } else {
        stderr
    }
}

/// The outcome of installing uv: the installer has to succeed, and uv to be there afterwards.
pub open spec fn installer_outcome(
    success: bool,
    stdout: Seq<char>,
    stderr: Seq<char>,
    created: bool,
    uv: Seq<char>,
) -> Result<(), Seq<char>> {
    if !success {
        Err("uv installer failed: "@ + installer_detail(stdout, stderr))
    } else if !created {
        Err("uv installer did not create "@ + uv)
    } else {
        Ok(())
    }
}

/// The outcome of installing uv at the path `uv`.
pub fn check_uv_installer(success: bool, stdout: &str, stderr: &str, created: bool, uv: &str) -> (outcome:
    Result<(), String>)
    ensures
        text::check_view(outcome) == installer_outcome(success, stdout@, stderr@, created, uv@),
{
    if !success {
        let detail = if stderr.is_empty() {
            stdout
        } else {
            stderr
        };
        Err(text::chained("uv installer failed: ", detail))
    } else if !created {
        Err(text::chained("uv installer did not create ", uv))
    } else {
        Ok(())
    }
}

// ---------------------------------------------------------------------------
// The project of the servers

/// A directory is the project of the servers if its path can be resolved and a project file lies
/// in it. `resolved` is its canonical path, or why that is not known.
pub open spec fn project_outcome(resolved: Result<Seq<char>, Seq<char>>, has_project: bool) -> Result<
    (),
    Seq<char>,
> {
    match resolved {
        Err(error) => Err("Could not resolve sidecar project path: "@ + error),
        Ok(path) => if has_project {
            Ok(())
        } else {
            Err("Could not find GeoLibre sidecar project at "@ + path)
        },
    }
}

pub fn validate_sidecar_project_dir(resolved: Result<String, String>, has_project: bool) -> (outcome:
    Result<(), String>)
    ensures
        text::check_view(outcome) == project_outcome(text::outcome_view(resolved), has_project),
{
    match resolved {
        Err(error) => Err(
            text::chained("Could not resolve sidecar project path: ", error.as_str()),
        ),
        Ok(path) => {
            if has_project {
                Ok(())
            } else {
                Err(text::chained("Could not find GeoLibre sidecar project at ", path.as_str()))
            }
        },
    }
}

/// Which directory is the project of the servers.
#[derive(Debug, Clone, Copy, PartialEq, Eq, Structural)]
pub enum ProjectChoice {
    /// The one that the environment names.
    Configured,
    /// The one at an index among the application's resources.
    Bundled(usize),
    /// The one in the source tree.
    Development,
}

/// `first` is the index of the first check that has passed, if one has.
pub open spec fn first_passed(checks: Seq<Result<(), String>>, first: Option<usize>) -> bool {
    match first {
        Some(index) => index < checks.len() && checks[index as int] is Ok && forall|j: int|
            0 <= j < index ==> #[trigger] checks[j] is Err,
        None => forall|j: int| 0 <= j < checks.len() ==> #[trigger] checks[j] is Err,
    }
}

/// The directory that the environment names is the only one that counts where it names one. Else
/// the first valid one among the resources counts, and then the one in the source tree.
pub open spec fn project_choice(
    configured: Option<Result<(), Seq<char>>>,
    bundled: Option<usize>,
    development: Result<(), Seq<char>>,
) -> Result<ProjectChoice, Seq<char>> {
    match (configured, bundled, development) {
        (Some(Ok(_)), _, _) => Ok(ProjectChoice::Configured),
        (Some(Err(message)), _, _) => Err(message),
        (None, Some(index), _) => Ok(ProjectChoice::Bundled(index)),
        (None, None, Ok(_)) => Ok(ProjectChoice::Development),
        (None, None, Err(message)) => Err(message),
    }
}

pub open spec fn configured_view(configured: Option<Result<(), String>>) -> Option<
    Result<(), Seq<char>>,
> {
    match configured {
        Some(check) => Some(text::check_view(check)),
        None => None,
    }
}

pub open spec fn choice_view(choice: Result<ProjectChoice, String>) -> Result<
    ProjectChoice,
    Seq<char>,
> {
    match choice {
        Ok(choice) => Ok(choice),
        Err(message) => Err(message@),
    }
}

fn find_passed(checks: &Vec<Result<(), String>>) -> (first: Option<usize>)
    ensures
        first_passed(checks@, first),
{
    let mut i: usize = 0;
    while i < checks.len()
        invariant
            i <= checks@.len(),
            forall|j: int| 0 <= j < i ==> #[trigger] checks@[j] is Err,
        decreases checks@.len() - i,
    {
        if checks[i].is_ok() {
            return Some(i);
        }
        i = i + 1;
    }
    None
}

/// Which directory is the project of the servers, given what became of checking each.
pub fn sidecar_project_dir(
    configured: Option<Result<(), String>>,
    bundled: &Vec<Result<(), String>>,
    development: Result<(), String>,
) -> (choice: Result<ProjectChoice, String>)
    ensures
        exists|first: Option<usize>|
            #[trigger] first_passed(bundled@, first) && choice_view(choice) == project_choice(
                configured_view(configured),
                first,
                text::check_view(development),
            ),
{
    let first = find_passed(bundled);
    assert(first_passed(bundled@, first));
    match configured {
        Some(Ok(_)) => Ok(ProjectChoice::Configured),
        Some(Err(message)) => Err(message),
        None => match first {
            Some(index) => Ok(ProjectChoice::Bundled(index)),
            None => match development {
                Ok(_) => Ok(ProjectChoice::Development),
                Err(message) => Err(message),
            },
        },
    }
}

// ---------------------------------------------------------------------------
// Laws

/// Only a file that may be executed can be run.
pub proof fn executables_are_files(candidate: Candidate)
    ensures
        runs(candidate) <==> candidate.is_file && candidate.is_executable,
{
}

/// The uv that the environment names is taken where it is there; else the one on the search path,
/// else the application's own; and only without any of these one is installed.
pub proof fn uv_is_taken_from_the_nearest(on_path: bool, installed: bool)
    ensures
        uv_source(true, on_path, installed) == UvSource::Configured,
        uv_source(false, true, installed) == UvSource::OnPath,
        uv_source(false, false, true) == UvSource::Installed,
        uv_source(false, false, false) == UvSource::ToInstall,
{
}

/// An installer that fails is reported with its errors, or with all else that it wrote where it
/// wrote none; one that succeeds has to have put uv in its place.
pub proof fn installers_succeed_or_say_why(
    stdout: Seq<char>,
    stderr: Seq<char>,
    created: bool,
    uv: Seq<char>,
)
    ensures
        stderr.len() > 0 ==> installer_outcome(false, stdout, stderr, created, uv) == Err::<
            (),
            Seq<char>,
        >("uv installer failed: "@ + stderr),
        stderr.len() == 0 ==> installer_outcome(false, stdout, stderr, created, uv) == Err::<
            (),
            Seq<char>,
        >("uv installer failed: "@ + stdout),
        installer_outcome(true, stdout, stderr, false, uv) == Err::<(), Seq<char>>(
            "uv installer did not create "@ + uv,
        ),
        installer_outcome(true, stdout, stderr, true, uv) is Ok,
{
}

/// A directory is a project exactly where its path can be resolved and a project lies there.
pub proof fn projects_lie_at_resolved_paths(path: Seq<char>, error: Seq<char>, has_project: bool)
    ensures
        project_outcome(Ok(path), true) is Ok,
        project_outcome(Ok(path), false) == Err::<(), Seq<char>>(
            "Could not find GeoLibre sidecar project at "@ + path,
        ),
        project_outcome(Err(error), has_project) == Err::<(), Seq<char>>(
            "Could not resolve sidecar project path: "@ + error,
        ),
{
}

/// The directory that the environment names decides where there is one, even where it is no
/// project. Else the first project among the resources is taken, and then the one in the source
/// tree.
pub proof fn the_configured_project_decides(
    bundled: Option<usize>,
    development: Result<(), Seq<char>>,
    index: usize,
    message: Seq<char>,
)
    ensures
        project_choice(Some(Ok(())), bundled, development) == Ok::<ProjectChoice, Seq<char>>(
            ProjectChoice::Configured,
        ),
        project_choice(Some(Err(message)), bundled, development) == Err::<ProjectChoice, Seq<char>>(
            message,
        ),
        project_choice(None, Some(index), development) == Ok::<ProjectChoice, Seq<char>>(
            ProjectChoice::Bundled(index),
        ),
        project_choice(None, None, Ok(())) == Ok::<ProjectChoice, Seq<char>>(
            ProjectChoice::Development,
        ),
        project_choice(None, None, Err(message)) == Err::<ProjectChoice, Seq<char>>(message),
{
}

/// The first check that has passed is the only one that counts.
pub proof fn the_first_passed_check_counts(
    checks: Seq<Result<(), String>>,
    first: Option<usize>,
    j: int,
)
    requires
        first_passed(checks, first),
        0 <= j < checks.len(),
    ensures
        first is None ==> checks[j] is Err,
        first matches Some(index) ==> index < checks.len() && checks[index as int] is Ok && (j
            < index ==> checks[j] is Err),
{
}

/// Checks and choices are shown as they are.
pub proof fn choices_are_shown(check: Result<(), String>, choice: ProjectChoice, message: String)
    ensures
        configured_view(Some(check)) == Some(text::check_view(check)),
        configured_view(None) is None,
        choice_view(Ok(choice)) == Ok::<ProjectChoice, Seq<char>>(choice),
        choice_view(Err(message)) == Err::<ProjectChoice, Seq<char>>(message@),
        text::check_view(Ok(())) is Ok,
        text::check_view(Err(message)) == Err::<(), Seq<char>>(message@),
{
}

} // verus!
