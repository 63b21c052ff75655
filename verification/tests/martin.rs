use std::io::{Cursor, Write};

use geolibre_desktop::martin::{
    advance_install, begin_install, check_no_martin, extract_martin_binary, extracted_entry,
    find_martin_binary, found_entry, martin_connection, martin_installation, martin_launch,
    name_in_tar, search_entries, EntrySearch, InstallStage, InstallStep, StartAttempts, MARTIN_START_ATTEMPTS,
};
use geolibre_desktop::platform::{TargetArch, TargetOs};

fn tar_gz(entries: &[(&str, &[u8])]) -> Vec<u8> {
    let encoder = flate2::write::GzEncoder::new(Vec::new(), flate2::Compression::default());
    let mut builder = tar::Builder::new(encoder);
    for (name, content) in entries {
        let mut header = tar::Header::new_gnu();
        header.set_size(content.len() as u64);
        header.set_mode(0o644);
        header.set_cksum();
        builder.append_data(&mut header, name, *content).unwrap();
    }
    builder.into_inner().unwrap().finish().unwrap()
}

fn zip_of(entries: &[(&str, &[u8])]) -> Vec<u8> {
    let mut writer = zip::ZipWriter::new(Cursor::new(Vec::new()));
    let options = zip::write::SimpleFileOptions::default()
        .compression_method(zip::CompressionMethod::Deflated);
    for (name, content) in entries {
        writer.start_file(*name, options).unwrap();
        writer.write_all(content).unwrap();
    }
    writer.finish().unwrap().into_inner()
}

#[test]
fn releases_are_installed_by_version_and_platform() {
    let installation = martin_installation(TargetOs::Linux, TargetArch::X86_64).unwrap();
    assert_eq!(installation.asset_name, "martin-x86_64-unknown-linux-musl.tar.gz");
    assert_eq!(installation.executable_name, "martin");
    assert_eq!(
        installation.directories,
        vec!["martin", "martin-v1.10.1", "martin-x86_64-unknown-linux-musl"]
    );
    assert_eq!(installation.temporary_name, "martin.download");
    assert_eq!(
        installation.download_url,
        "https://github.com/maplibre/martin/releases/download/martin-v1.10.1/martin-x86_64-unknown-linux-musl.tar.gz"
    );
    let installation = martin_installation(TargetOs::Windows, TargetArch::X86_64).unwrap();
    assert_eq!(installation.directories[2], "martin-x86_64-pc-windows-msvc");
    assert_eq!(installation.temporary_name, "martin.exe.download");
    assert_eq!(
        martin_installation(TargetOs::Other, TargetArch::X86_64).unwrap_err(),
        "No Martin binary release is available for this platform."
    );
}

fn stages(has_modes: bool) -> Vec<InstallStage> {
    let mut taken = Vec::new();
    let mut step = begin_install(false);
    loop {
        match step {
            InstallStep::Do(stage) => {
                taken.push(stage);
                step = advance_install(stage, has_modes, Ok(()));
            }
            InstallStep::Installed { downloaded } => {
                assert!(downloaded);
                return taken;
            }
            InstallStep::Failed { message, .. } => panic!("{message}"),
        }
    }
}

#[test]
fn installations_end_with_the_move_into_place() {
    let taken = stages(true);
    assert_eq!(taken.len(), 12);
    assert_eq!(taken[0], InstallStage::CreateDirectory);
    assert_eq!(taken[11], InstallStage::Rename);
    let without_modes = stages(false);
    assert_eq!(without_modes.len(), 10);
    assert!(!without_modes.contains(&InstallStage::SetMode));
    assert!(matches!(begin_install(true), InstallStep::Installed { downloaded: false }));
}

#[test]
fn failed_installations_are_reported_and_cleaned_up() {
    for (stage, expected, cleaned) in [
        (InstallStage::CreateDirectory, "Could not create Martin cache directory: e", false),
        (InstallStage::CreateClient, "Could not create HTTP client: e", false),
        (InstallStage::Request, "Could not download Martin: e", false),
        (InstallStage::CheckStatus, "Martin download failed with status e", false),
        (InstallStage::Download, "Could not read Martin download: e", false),
        (InstallStage::FindBinary, "e", true),
        (InstallStage::CreateTemporary, "Could not create Martin binary: e", true),
        (InstallStage::Extract, "e", true),
        (InstallStage::WriteTemporary, "Could not extract Martin binary: e", true),
        (InstallStage::ReadMode, "Could not read Martin binary permissions: e", true),
        (InstallStage::SetMode, "Could not mark Martin executable: e", true),
        (InstallStage::Rename, "Could not install Martin binary: e", true),
    ] {
        match advance_install(stage, true, Err("e".into())) {
            InstallStep::Failed { message, clean_up } => {
                assert_eq!(message, expected);
                assert_eq!(clean_up, cleaned);
            }
            other => panic!("{other:?}"),
        }
    }
}

#[test]
fn the_executable_is_found_in_a_tar_archive() {
    let archive = tar_gz(&[
        ("README.md", b"read me"),
        ("release/martin", b"binary"),
        ("other/martin", b"second"),
    ]);
    let index = find_martin_binary(&archive, "a.tar.gz", "martin", TargetOs::Linux).unwrap();
    assert_eq!(index, 1);
    assert_eq!(
        extract_martin_binary(&archive, "a.tar.gz", index),
        Some(Ok(b"binary".to_vec()))
    );
    assert_eq!(extract_martin_binary(&archive, "a.tar.gz", 3), None);
    assert_eq!(
        find_martin_binary(&archive, "a.tar.gz", "martin.exe", TargetOs::Linux),
        Err("Martin archive did not contain the expected executable.".to_string())
    );
}

#[test]
fn the_executable_is_found_in_a_zip_archive() {
    let archive = zip_of(&[("docs/martin.exe.txt", b"no"), ("martin.exe", b"binary")]);
    let index = find_martin_binary(&archive, "a.zip", "martin.exe", TargetOs::Linux).unwrap();
    assert_eq!(index, 1);
    assert_eq!(extract_martin_binary(&archive, "a.zip", index), Some(Ok(b"binary".to_vec())));
    assert_eq!(
        find_martin_binary(&archive, "a.zip", "martin", TargetOs::Linux),
        Err("Martin zip did not contain the expected executable.".to_string())
    );
    let missing = extract_martin_binary(&archive, "a.zip", 7).unwrap().unwrap_err();
    assert!(missing.starts_with("Could not extract Martin binary: "));
}

#[test]
fn broken_archives_are_reported() {
    let error = find_martin_binary(b"nothing", "a.zip", "martin", TargetOs::Linux).unwrap_err();
    assert!(error.starts_with("Could not read Martin zip: "));
    let error = find_martin_binary(b"nothing", "a.tar.gz", "martin", TargetOs::Linux).unwrap_err();
    assert!(error.starts_with("Could not read Martin archive: "));
    assert_eq!(
        extracted_entry(Err("cut".into())),
        Err("Could not extract Martin binary: cut".to_string())
    );
}

#[test]
fn paths_in_tar_archives_are_unicode_on_windows() {
    let mut header = tar::Header::new_gnu();
    header.as_gnu_mut().unwrap().name[..3].copy_from_slice(b"a\xffb");
    header.set_size(0);
    header.set_cksum();
    let encoder = flate2::write::GzEncoder::new(Vec::new(), flate2::Compression::default());
    let mut builder = tar::Builder::new(encoder);
    builder.append(&header, std::io::empty()).unwrap();
    let archive = builder.into_inner().unwrap().finish().unwrap();
    assert_eq!(
        find_martin_binary(&archive, "a.tar.gz", "martin.exe", TargetOs::Windows),
        Err("Could not read Martin archive path: only Unicode paths are supported on Windows: \
             a\u{fffd}b"
            .to_string())
    );
    assert_eq!(
        find_martin_binary(&archive, "a.tar.gz", "martin", TargetOs::Linux),
        Err("Martin archive did not contain the expected executable.".to_string())
    );
    assert_eq!(name_in_tar(&Ok(b"a\xffb".to_vec()), TargetOs::Macos), Ok("a\u{fffd}b".into()));
    assert_eq!(name_in_tar(&Ok("é/martin".into()), TargetOs::Windows), Ok("é/martin".into()));
    assert_eq!(
        name_in_tar(&Err("cut".into()), TargetOs::Linux),
        Err("Could not read Martin archive: cut".to_string())
    );
}

#[test]
fn searches_end_at_the_first_match_or_error() {
    let names = |list: &[Result<&str, &str>]| -> Vec<Result<String, String>> {
        list.iter().map(|item| item.map(|t| t.to_string()).map_err(|t| t.to_string())).collect()
    };
    let found = search_entries(&names(&[Ok("a"), Ok("d/martin"), Err("x")]), "martin");
    assert_eq!(found_entry(true, found), Ok(1));
    let found = search_entries(&names(&[Ok("martin/x"), Ok("d/martin/"), Ok("martin")]), "martin");
    assert_eq!(found_entry(false, found), Ok(1));
    let unreadable = search_entries(&names(&[Ok("a"), Err("x"), Ok("martin")]), "martin");
    assert_eq!(found_entry(true, unreadable), Err("x".to_string()));
    let unreadable = search_entries(&names(&[Err("y")]), "martin");
    assert_eq!(found_entry(false, unreadable), Err("y".to_string()));
    let absent = search_entries(&names(&[Ok("martin:x"), Ok("d/x:martin")]), "martin");
    assert!(matches!(absent, EntrySearch::Absent));
    let absent = search_entries(&names(&[Ok("martin.bak"), Ok("xmartin")]), "martin");
    assert!(matches!(absent, EntrySearch::Absent));
}

#[test]
fn servers_are_launched_with_their_database() {
    let launch = martin_launch(4321, "postgres://x", Some(" 4326 "));
    assert_eq!(launch.base_url, "http://127.0.0.1:4321");
    assert_eq!(launch.arguments, vec!["-l", "127.0.0.1:4321"]);
    assert_eq!(
        launch.environment,
        vec![
            ("DATABASE_URL".to_string(), "postgres://x".to_string()),
            ("DEFAULT_SRID".to_string(), "4326".to_string())
        ]
    );
    assert_eq!(martin_launch(1, "c", Some("  ")).environment.len(), 1);
    assert_eq!(martin_launch(1, "c", None).environment.len(), 1);
}

#[test]
fn connections_are_required_and_servers_are_single() {
    assert_eq!(martin_connection(" postgres://x "), Ok("postgres://x".to_string()));
    assert_eq!(
        martin_connection(" \t"),
        Err("Enter a PostgreSQL connection string.".to_string())
    );
    assert_eq!(check_no_martin(false), Ok(()));
    assert_eq!(
        check_no_martin(true),
        Err("A Martin server is already running. Stop it before starting a new one.".to_string())
    );
}

#[test]
fn the_last_of_three_errors_is_reported() {
    let mut attempts = StartAttempts::new();
    let mut tried: u32 = 0;
    let error = loop {
        if let Some(error) = attempts.given_up() {
            break error;
        }
        tried += 1;
        attempts = attempts.failed(format!("error {tried}"));
    };
    assert_eq!(tried, MARTIN_START_ATTEMPTS);
    assert_eq!(error, "error 3");
}
