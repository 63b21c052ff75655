//! What depends on the platform that the application runs on.

use vstd::prelude::*;

use crate::text;

verus! {

/// The operating system of a platform.
#[derive(Debug, Clone, Copy, PartialEq, Eq, Structural)]
pub enum TargetOs {
    Linux,
    Macos,
    Windows,
    Other,
}

/// The processor of a platform.
#[derive(Debug, Clone, Copy, PartialEq, Eq, Structural)]
pub enum TargetArch {
    X86_64,
    Aarch64,
    Other,
}

/// The place of the bundled spatial extension among the application's resources.
pub open spec fn extension_subpath(os: TargetOs, arch: TargetArch) -> Option<Seq<char>> {
    match (os, arch) {
        (TargetOs::Macos, TargetArch::Aarch64) => Some(
            "resources/duckdb/osx_arm64/spatial.duckdb_extension"@,
        ),
        (TargetOs::Macos, TargetArch::X86_64) => Some(
            "resources/duckdb/osx_amd64/spatial.duckdb_extension"@,
        ),
        (TargetOs::Windows, TargetArch::X86_64) => Some(
            "resources/duckdb/windows_amd64/spatial.duckdb_extension"@,
        ),
        (TargetOs::Linux, TargetArch::X86_64) => Some(
            "resources/duckdb/linux_amd64/spatial.duckdb_extension"@,
        ),
        (TargetOs::Linux, TargetArch::Aarch64) => Some(
            "resources/duckdb/linux_arm64/spatial.duckdb_extension"@,
        ),
        _ => None,
    }
}

/// The place of the bundled spatial extension among the application's resources, on platforms
/// that have one.
pub fn platform_extension_subpath(os: TargetOs, arch: TargetArch) -> (subpath: Option<
    &'static str,
>)
    ensures
        text::str_view_of(subpath) == extension_subpath(os, arch),
{
    match (os, arch) {
        (TargetOs::Macos, TargetArch::Aarch64) => Some(
            "resources/duckdb/osx_arm64/spatial.duckdb_extension",
        ),
        (TargetOs::Macos, TargetArch::X86_64) => Some(
            "resources/duckdb/osx_amd64/spatial.duckdb_extension",
        ),
        (TargetOs::Windows, TargetArch::X86_64) => Some(
            "resources/duckdb/windows_amd64/spatial.duckdb_extension",
        ),
        (TargetOs::Linux, TargetArch::X86_64) => Some(
            "resources/duckdb/linux_amd64/spatial.duckdb_extension",
        ),
        (TargetOs::Linux, TargetArch::Aarch64) => Some(
            "resources/duckdb/linux_arm64/spatial.duckdb_extension",
        ),
        _ => None,
    }
}

/// The release of the Martin tile server for a platform.
pub open spec fn martin_asset(os: TargetOs, arch: TargetArch) -> Option<Seq<char>> {
    match (os, arch) {
        (TargetOs::Linux, TargetArch::X86_64) => Some("martin-x86_64-unknown-linux-musl.tar.gz"@),
        (TargetOs::Linux, TargetArch::Aarch64) => Some("martin-aarch64-unknown-linux-musl.tar.gz"@),
        (TargetOs::Macos, TargetArch::Aarch64) => Some("martin-aarch64-apple-darwin.tar.gz"@),
        (TargetOs::Macos, TargetArch::X86_64) => Some("martin-x86_64-apple-darwin.tar.gz"@),
        (TargetOs::Windows, TargetArch::X86_64) => Some("martin-x86_64-pc-windows-msvc.zip"@),
        _ => None,
    }
}

/// The release of the Martin tile server for a platform, if there is one.
pub fn martin_asset_name(os: TargetOs, arch: TargetArch) -> (asset: Result<&'static str, String>)
    ensures
        match asset {
            Ok(asset) => martin_asset(os, arch) == Some(asset@),
            Err(message) => martin_asset(os, arch) is None && message@
                == "No Martin binary release is available for this platform."@,
        },
{
    match (os, arch) {
        (TargetOs::Linux, TargetArch::X86_64) => Ok("martin-x86_64-unknown-linux-musl.tar.gz"),
        (TargetOs::Linux, TargetArch::Aarch64) => Ok("martin-aarch64-unknown-linux-musl.tar.gz"),
        (TargetOs::Macos, TargetArch::Aarch64) => Ok("martin-aarch64-apple-darwin.tar.gz"),
        (TargetOs::Macos, TargetArch::X86_64) => Ok("martin-x86_64-apple-darwin.tar.gz"),
        (TargetOs::Windows, TargetArch::X86_64) => Ok("martin-x86_64-pc-windows-msvc.zip"),
        _ => Err("No Martin binary release is available for this platform.".to_owned()),
    }
}

/// The name of the Martin executable.
pub open spec fn martin_executable(os: TargetOs) -> Seq<char> {
    if os == TargetOs::Windows {
        "martin.exe"@
    } else {
        "martin"@
    }
}

pub fn martin_executable_name(os: TargetOs) -> (name: &'static str)
    ensures
        name@ == martin_executable(os),
{
    match os {
        TargetOs::Windows => "martin.exe",
        _ => "martin",
    }
}

/// The name of the uv executable.
pub open spec fn uv_executable(os: TargetOs) -> Seq<char> {
    if os == TargetOs::Windows {
        "uv.exe"@
    } else {
        "uv"@
    }
}

pub fn uv_executable_name(os: TargetOs) -> (name: &'static str)
    ensures
        name@ == uv_executable(os),
{
    match os {
        TargetOs::Windows => "uv.exe",
        _ => "uv",
    }
}

/// The address of the script that installs uv.
pub open spec fn uv_installer_address(os: TargetOs) -> Seq<char> {
    if os == TargetOs::Windows {
        "https://astral.sh/uv/install.ps1"@
    } else {
        "https://astral.sh/uv/install.sh"@
    }
}

pub fn uv_installer_url(os: TargetOs) -> (url: &'static str)
    ensures
        url@ == uv_installer_address(os),
{
    match os {
        TargetOs::Windows => "https://astral.sh/uv/install.ps1",
        _ => "https://astral.sh/uv/install.sh",
    }
}

/// The name under which the script that installs uv is kept.
pub open spec fn uv_installer_name(os: TargetOs) -> Seq<char> {
    if os == TargetOs::Windows {
        "uv-install.ps1"@
    } else {
        "uv-install.sh"@
    }
}

pub fn uv_installer_file_name(os: TargetOs) -> (name: &'static str)
    ensures
        name@ == uv_installer_name(os),
{
    match os {
        TargetOs::Windows => "uv-install.ps1",
        _ => "uv-install.sh",
    }
}

/// The command that runs the script that installs uv: a program and its arguments, to which the
/// script is added.
pub open spec fn uv_installer_words(os: TargetOs) -> (Seq<char>, Seq<Seq<char>>) {
    if os == TargetOs::Windows {
        (
            "powershell"@,
            seq!["-NoProfile"@, "-ExecutionPolicy"@, "Bypass"@, "-File"@],
        )
    } else {
        ("sh"@, Seq::empty())
    }
}

pub fn uv_installer_command(os: TargetOs) -> (command: (&'static str, Vec<&'static str>))
    ensures
        command.0@ == uv_installer_words(os).0,
        command.1@.len() == uv_installer_words(os).1.len(),
        forall|i: int|
            0 <= i < command.1@.len() ==> #[trigger] command.1@[i]@ == uv_installer_words(os).1[i],
{
    match os {
        TargetOs::Windows => {
            let words: Vec<&'static str> = vec!["-NoProfile", "-ExecutionPolicy", "Bypass", "-File"];
            ("powershell", words)
        },
        _ => {
            let words: Vec<&'static str> = Vec::new();
            ("sh", words)
        },
    }
}

/// A file mode with one of the three bits that allow execution.
pub open spec fn executable_mode(mode: u32) -> bool {
    mode & 0o111 != 0
}

/// Whether a file may be executed, by its mode where the platform has modes.
pub fn is_executable(mode: Option<u32>) -> (answer: bool)
    ensures
        answer == match mode {
            Some(mode) => executable_mode(mode),
            None => true,
        },
{
    match mode {
        Some(mode) => mode & 0o111 != 0,
        None => true,
    }
}

/// The file mode of an installed executable.
pub const EXECUTABLE_MODE: u32 = 0o755;

/// The mode that an installed executable is given, where the platform has modes. Whoever may
/// read it may also execute it.
pub fn make_executable(has_modes: bool) -> (mode: Option<u32>)
    ensures
        mode == if has_modes {
            Some(EXECUTABLE_MODE)
        } else {
            None
        },
        mode matches Some(mode) ==> executable_mode(mode),
{
    if has_modes {
        assert(0o755u32 & 0o111 != 0) by (bit_vector);
        Some(EXECUTABLE_MODE)
    } else {
        None
    }
}

/// The settings of the web view that are made on Linux, with their value, where the environment
/// does not make them already.
pub open spec fn webkit_settings(os: TargetOs, dmabuf_set: bool, portal_set: bool) -> Seq<
    (Seq<char>, Seq<char>),
> {
    if os != TargetOs::Linux {
        Seq::empty()
    } else {
        (if dmabuf_set {
            Seq::empty()
        } else {
            seq![("WEBKIT_DISABLE_DMABUF_RENDERER"@, "1"@)]
        }) + (if portal_set {
            Seq::empty()
        } else {
            seq![("GTK_USE_PORTAL"@, "1"@)]
        })
    }
}

pub open spec fn setting_views(settings: Seq<(&'static str, &'static str)>) -> Seq<
    (Seq<char>, Seq<char>),
> {
    settings.map_values(|setting: (&'static str, &'static str)| (setting.0@, setting.1@))
}

/// The settings of the web view that are made on Linux, where the environment does not make them
/// already: `dmabuf_set` and `portal_set` say whether it does.
pub fn configure_linux_webkit(os: TargetOs, dmabuf_set: bool, portal_set: bool) -> (settings: Vec<
    (&'static str, &'static str),
>)
    ensures
        setting_views(settings@) == webkit_settings(os, dmabuf_set, portal_set),
{
    let mut settings: Vec<(&'static str, &'static str)> = Vec::new();
    match os {
        TargetOs::Linux => {
            if !dmabuf_set {
                settings.push(("WEBKIT_DISABLE_DMABUF_RENDERER", "1"));
            }
            if !portal_set {
                settings.push(("GTK_USE_PORTAL", "1"));
            }
        },
        _ => {},
    }
    assert(setting_views(settings@) == webkit_settings(os, dmabuf_set, portal_set));
    settings
}

/// A setting that the environment makes is never overridden, and nothing is set on other systems
/// than Linux.
pub proof fn webkit_settings_respect_the_environment(
    os: TargetOs,
    dmabuf_set: bool,
    portal_set: bool,
)
    ensures
        dmabuf_set ==> !webkit_settings(os, dmabuf_set, portal_set).contains(
            ("WEBKIT_DISABLE_DMABUF_RENDERER"@, "1"@),
        ),
        portal_set ==> !webkit_settings(os, dmabuf_set, portal_set).contains(
            ("GTK_USE_PORTAL"@, "1"@),
        ),
        os != TargetOs::Linux ==> webkit_settings(os, dmabuf_set, portal_set).len() == 0,
{
    reveal_strlit("WEBKIT_DISABLE_DMABUF_RENDERER");
    reveal_strlit("GTK_USE_PORTAL");
    assert("WEBKIT_DISABLE_DMABUF_RENDERER"@.len() != "GTK_USE_PORTAL"@.len());
}

/// An import path with a directory in front of it.
pub open spec fn import_path(directory: Seq<char>, inherited: Option<Seq<char>>, windows: bool) -> Seq<
    char,
> {
    match inherited {
        Some(inherited) => if inherited.len() > 0 {
            directory + (if windows {
                ";"@
            } else {
                ":"@
            }) + inherited
        } else {
            directory
        },
        None => directory,
    }
}

/// The inherited import path, if there is one, with `directory` in front of it.
pub fn prepend_pythonpath(directory: &str, inherited: Option<&str>, os: TargetOs) -> (path: String)
    ensures
        path@ == import_path(directory@, text::str_view_of(inherited), os == TargetOs::Windows),
{
    let mut path = directory.to_owned();
    if let Some(inherited) = inherited {
        if !inherited.is_empty() {
            let separator = match os {
                TargetOs::Windows => ";",
                _ => ":",
            };
            path.append(separator);
            path.append(inherited);
        }
    }
    path
}

/// What was inherited is kept: it ends the import path, which the directory begins.
pub proof fn inherited_import_path_is_kept(
    directory: Seq<char>,
    inherited: Option<Seq<char>>,
    windows: bool,
)
    ensures
        directory.is_prefix_of(import_path(directory, inherited, windows)),
        inherited matches Some(inherited) ==> inherited.is_suffix_of(
            import_path(directory, Some(inherited), windows),
        ),
{
    let path = import_path(directory, inherited, windows);
    assert(path.subrange(0, directory.len() as int) == directory);
    if let Some(inherited) = inherited {
        let start = path.len() - inherited.len();
        assert(path.subrange(start, path.len() as int) == inherited);
    }
}

/// The spatial extension is bundled for the platforms that the application is built for, each in
/// a directory of its own.
pub proof fn bundled_extensions_are_told_by_platform(os: TargetOs, arch: TargetArch)
    ensures
        extension_subpath(TargetOs::Linux, TargetArch::X86_64) == Some(
            "resources/duckdb/linux_amd64/spatial.duckdb_extension"@,
        ),
        extension_subpath(TargetOs::Linux, TargetArch::Aarch64) == Some(
            "resources/duckdb/linux_arm64/spatial.duckdb_extension"@,
        ),
        extension_subpath(TargetOs::Macos, TargetArch::X86_64) == Some(
            "resources/duckdb/osx_amd64/spatial.duckdb_extension"@,
        ),
        extension_subpath(TargetOs::Macos, TargetArch::Aarch64) == Some(
            "resources/duckdb/osx_arm64/spatial.duckdb_extension"@,
        ),
        extension_subpath(TargetOs::Windows, TargetArch::X86_64) == Some(
            "resources/duckdb/windows_amd64/spatial.duckdb_extension"@,
        ),
        extension_subpath(os, arch) is None <==> os == TargetOs::Other || arch == TargetArch::Other
            || (os == TargetOs::Windows && arch == TargetArch::Aarch64),
{
}

/// Martin is released for the same platforms, for Windows as a zip archive.
pub proof fn releases_are_told_by_platform(os: TargetOs, arch: TargetArch)
    ensures
        martin_asset(TargetOs::Linux, TargetArch::X86_64) == Some(
            "martin-x86_64-unknown-linux-musl.tar.gz"@,
        ),
        martin_asset(TargetOs::Linux, TargetArch::Aarch64) == Some(
            "martin-aarch64-unknown-linux-musl.tar.gz"@,
        ),
        martin_asset(TargetOs::Macos, TargetArch::X86_64) == Some(
            "martin-x86_64-apple-darwin.tar.gz"@,
        ),
        martin_asset(TargetOs::Macos, TargetArch::Aarch64) == Some(
            "martin-aarch64-apple-darwin.tar.gz"@,
        ),
        martin_asset(TargetOs::Windows, TargetArch::X86_64) == Some(
            "martin-x86_64-pc-windows-msvc.zip"@,
        ),
        martin_asset(os, arch) is None <==> os == TargetOs::Other || arch == TargetArch::Other || (os
            == TargetOs::Windows && arch == TargetArch::Aarch64),
{
}

/// Windows has its own names for executables, and its own script to install uv, which PowerShell
/// runs; everywhere else a shell runs the other.
pub proof fn windows_has_its_own_names(os: TargetOs)
    ensures
        martin_executable(TargetOs::Windows) == "martin.exe"@,
        uv_executable(TargetOs::Windows) == "uv.exe"@,
        uv_installer_address(TargetOs::Windows) == "https://astral.sh/uv/install.ps1"@,
        uv_installer_name(TargetOs::Windows) == "uv-install.ps1"@,
        uv_installer_words(TargetOs::Windows).0 == "powershell"@,
        uv_installer_words(TargetOs::Windows).1 == seq![
            "-NoProfile"@,
            "-ExecutionPolicy"@,
            "Bypass"@,
            "-File"@,
        ],
        os != TargetOs::Windows ==> {
            &&& martin_executable(os) == "martin"@
            &&& uv_executable(os) == "uv"@
            &&& uv_installer_address(os) == "https://astral.sh/uv/install.sh"@
            &&& uv_installer_name(os) == "uv-install.sh"@
            &&& uv_installer_words(os).0 == "sh"@
            &&& uv_installer_words(os).1.len() == 0
        },
{
}

/// A file may be executed where its owner, its group or everyone may; an installed executable may
/// be read and executed by all, and written by its owner.
pub proof fn any_execution_bit_counts(mode: u32)
    ensures
        executable_mode(mode) <==> mode / 64 % 2 == 1 || mode / 8 % 2 == 1 || mode % 2 == 1,
        EXECUTABLE_MODE == 7 * 64 + 5 * 8 + 5,
{
    assert(mode & 0o111 != 0 <==> mode / 64 % 2 == 1 || mode / 8 % 2 == 1 || mode % 2 == 1)
        by (bit_vector);
}

/// On Linux both settings of the web view are made, each unless the environment makes it.
pub proof fn webkit_settings_are_made_on_linux(dmabuf_set: bool, portal_set: bool, os: TargetOs)
    ensures
        ({
            let renderer = ("WEBKIT_DISABLE_DMABUF_RENDERER"@, "1"@);
            let portal = ("GTK_USE_PORTAL"@, "1"@);
            &&& webkit_settings(TargetOs::Linux, false, false) == seq![renderer, portal]
            &&& webkit_settings(TargetOs::Linux, false, true) == seq![renderer]
            &&& webkit_settings(TargetOs::Linux, true, false) == seq![portal]
            &&& webkit_settings(TargetOs::Linux, true, true).len() == 0
            &&& os != TargetOs::Linux ==> webkit_settings(os, dmabuf_set, portal_set).len() == 0
        }),
{
    let renderer = ("WEBKIT_DISABLE_DMABUF_RENDERER"@, "1"@);
    let portal = ("GTK_USE_PORTAL"@, "1"@);
    assert(seq![renderer] + seq![portal] == seq![renderer, portal]);
    assert(seq![renderer] + Seq::empty() == seq![renderer]);
    assert(Seq::empty() + seq![portal] == seq![portal]);
}

/// Settings are their names and values, in order.
pub proof fn settings_are_shown(settings: Seq<(&'static str, &'static str)>, at: int)
    requires
        0 <= at < settings.len(),
    ensures
        setting_views(settings).len() == settings.len(),
        setting_views(settings)[at] == (settings[at].0@, settings[at].1@),
{
}

/// A directory stands in front of the inherited import path, divided from it by a semicolon on
/// Windows and by a colon elsewhere; an import path that is empty or not there adds nothing.
pub proof fn import_paths_are_divided_by_platform(directory: Seq<char>, inherited: Seq<char>)
    ensures
        import_path(directory, None, true) == directory,
        import_path(directory, None, false) == directory,
        inherited.len() == 0 ==> import_path(directory, Some(inherited), true) == directory,
        inherited.len() == 0 ==> import_path(directory, Some(inherited), false) == directory,
        inherited.len() > 0 ==> import_path(directory, Some(inherited), true) == directory + ";"@
            + inherited,
        inherited.len() > 0 ==> import_path(directory, Some(inherited), false) == directory + ":"@
            + inherited,
{
}

} // verus!
