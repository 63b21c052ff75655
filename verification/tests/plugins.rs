use std::io::{Cursor, Write};

use geolibre_desktop::manifest::{
    validate_external_plugin_manifest, validate_external_plugin_path,
    validate_optional_manifest_string, validate_required_manifest_string, ExternalPluginManifest,
};
use geolibre_desktop::plugins::{
    archived_text_entry, check_plugin_archive_path, directory_plugin, find_zip_manifest_path, manifest_path_in,
    must_copy, plugin_archive_file_name, read_archived_manifest, read_archived_plugin, read_fs_text_entry,
    read_zip_text_entry, FileRead, MAX_PLUGIN_ENTRY_BYTES,
};

fn zip_of(entries: &[(&str, &[u8])]) -> Vec<u8> {
    let mut writer = zip::ZipWriter::new(Cursor::new(Vec::new()));
    let options = zip::write::SimpleFileOptions::default()
        .compression_method(zip::CompressionMethod::Deflated);
    for (name, content) in entries {
        writer.start_file(*name, options).unwrap();
        writer.write_all(content).unwrap();
    }
    writer.finish().unwrap().into_inner()
}

fn zip_with_names(names: &[&str]) -> Vec<u8> {
    let mut writer = zip::ZipWriter::new(Cursor::new(Vec::new()));
    let options = zip::write::SimpleFileOptions::default()
        .compression_method(zip::CompressionMethod::Stored);
    for name in names {
        writer.start_file(*name, options).unwrap();
        writer.write_all(b"x").unwrap();
    }
    writer.finish().unwrap().into_inner()
}

fn manifest_path(names: &[&str]) -> Option<String> {
    let bytes = zip_with_names(names);
    find_zip_manifest_path(&bytes).unwrap()
}

fn manifest() -> ExternalPluginManifest {
    ExternalPluginManifest {
        id: "my-plugin".into(),
        name: "My Plugin".into(),
        version: "1.0.0".into(),
        entry: "dist/plugin.js".into(),
        description: None,
        style: None,
    }
}

#[test]
fn finds_root_manifest() {
    assert_eq!(
        manifest_path(&["plugin.json", "dist/plugin.js"]).as_deref(),
        Some("plugin.json")
    );
}

#[test]
fn finds_manifest_inside_a_wrapping_folder() {
    assert_eq!(
        manifest_path(&["my-plugin/plugin.json", "my-plugin/dist/plugin.js"]).as_deref(),
        Some("my-plugin/plugin.json")
    );
}

#[test]
fn prefers_root_and_ignores_macosx_metadata() {
    // A root manifest wins over a deeper one.
    assert_eq!(
        manifest_path(&["wrap/plugin.json", "plugin.json"]).as_deref(),
        Some("plugin.json")
    );
    // The __MACOSX folder is skipped, so the real wrapped manifest is found.
    assert_eq!(
        manifest_path(&["__MACOSX/wrap/._plugin.json", "wrap/plugin.json"]).as_deref(),
        Some("wrap/plugin.json")
    );
}

#[test]
fn returns_none_without_a_manifest() {
    assert_eq!(manifest_path(&["dist/plugin.js"]), None);
}

#[test]
fn keeps_safe_plugin_ids() {
    assert_eq!(plugin_archive_file_name("maplibre-foo"), "maplibre-foo.zip");
    assert_eq!(plugin_archive_file_name("foo.bar_2"), "foo.bar_2.zip");
}

#[test]
fn sanitizes_unsafe_characters_and_traversal() {
    // Path separators and other characters cannot escape the plugins dir;
    // leading dots are then stripped, so "../evil" collapses to "_evil".
    assert_eq!(plugin_archive_file_name("../evil"), "_evil.zip");
    assert_eq!(plugin_archive_file_name("a/b"), "a_b.zip");
    // Leading dots are stripped so the archive is never hidden.
    assert_eq!(plugin_archive_file_name("..hidden"), "hidden.zip");
    // A name that sanitizes away entirely falls back to a fixed stem.
    assert_eq!(plugin_archive_file_name("..."), "plugin.zip");
}

#[test]
fn archive_names_are_never_paths() {
    for id in ["", ".", "a\\b", "C:x", "ä", "a b", "../../etc/passwd", "plugin.zip"] {
        let name = plugin_archive_file_name(id);
        assert!(name.ends_with(".zip"));
        assert!(!name.starts_with('.'));
        assert!(name.chars().all(|c| c.is_ascii_alphanumeric() || "-_.".contains(c)));
    }
    assert_eq!(plugin_archive_file_name(""), "plugin.zip");
    assert_eq!(plugin_archive_file_name("äö"), "__.zip");
}

#[test]
fn the_shallowest_manifest_is_found_in_any_order() {
    let names = ["b/c/plugin.json", "z/plugin.json", "a/x/y/plugin.json", "m/plugin.json"];
    assert_eq!(manifest_path(&names).as_deref(), Some("m/plugin.json"));
    let mut reversed = names;
    reversed.reverse();
    assert_eq!(manifest_path(&reversed).as_deref(), Some("m/plugin.json"));
    let list: Vec<String> = names.iter().map(|name| name.to_string()).collect();
    assert_eq!(manifest_path_in(&list).as_deref(), Some("m/plugin.json"));
    assert_eq!(manifest_path_in(&vec!["__MACOSX/plugin.json".to_string()]), None);
    assert_eq!(manifest_path_in(&vec!["xplugin.json".to_string()]), None);
    assert_eq!(
        manifest_path_in(&vec!["/plugin.json".to_string()]).as_deref(),
        Some("/plugin.json")
    );
}

#[test]
fn what_is_no_archive_is_reported() {
    assert!(find_zip_manifest_path(b"nothing").is_err());
    let error = read_archived_manifest(b"nothing").unwrap_err();
    assert!(error.starts_with("Could not read zip: "));
    assert_eq!(
        read_archived_manifest(&zip_with_names(&["a.js"])).unwrap_err(),
        "Plugin archive is missing a plugin.json"
    );
}

#[test]
fn archived_plugins_are_read_from_the_folder_of_their_manifest() {
    let archive = zip_of(&[
        ("wrap/plugin.json", b"{}"),
        ("wrap/dist/plugin.js", b"export {}"),
        ("wrap/a.css", b"body {}"),
        ("dist/plugin.js", b"other"),
    ]);
    let found = read_archived_manifest(&archive).unwrap();
    assert_eq!(found.prefix, "wrap/");
    assert_eq!(found.text, "{}");
    let bundle = read_archived_plugin(
        &archive,
        "name.zip",
        &found.prefix,
        ExternalPluginManifest { style: Some("a.css".into()), ..manifest() },
    )
    .unwrap();
    assert_eq!(bundle.archive_name, "name.zip");
    assert_eq!(bundle.manifest.id, "my-plugin");
    assert_eq!(bundle.entry_source, "export {}");
    assert_eq!(bundle.style_source.as_deref(), Some("body {}"));
}

#[test]
fn the_first_failure_of_an_archived_plugin_is_reported() {
    let archive = zip_of(&[("plugin.json", b"{}"), ("dist/plugin.js", b"x"), ("d.css/", b"")]);
    let read = |manifest| read_archived_plugin(&archive, "n", "", manifest).map(|b| b.entry_source);
    assert_eq!(read(manifest()), Ok("x".to_string()));
    assert_eq!(
        read(ExternalPluginManifest { id: "".into(), entry: "missing.js".into(), ..manifest() }),
        Err("id must not be empty".to_string())
    );
    assert_eq!(
        read(ExternalPluginManifest { entry: "missing.js".into(), ..manifest() }),
        Err("Could not read plugin entry 'missing.js': specified file not found in archive".into())
    );
    assert_eq!(
        read(ExternalPluginManifest { style: Some("missing.css".into()), ..manifest() }),
        Err("Could not read plugin style 'missing.css': specified file not found in archive".into())
    );
}

#[test]
fn archived_entries_are_text_files() {
    let archive = zip_of(&[("folder/", b""), ("binary.js", &[0xff, 0xfe]), ("text.js", b"ok")]);
    assert_eq!(read_zip_text_entry(&archive, "text.js", "plugin entry"), Ok("ok".to_string()));
    assert_eq!(
        read_zip_text_entry(&archive, "folder/", "plugin entry"),
        Err("plugin entry 'folder/' must be a file".to_string())
    );
    let error = read_zip_text_entry(&archive, "binary.js", "plugin entry").unwrap_err();
    assert!(error.starts_with("Could not read plugin entry 'binary.js' as UTF-8: "));
}

#[test]
fn files_of_a_plugin_are_limited_in_size() {
    let limit = MAX_PLUGIN_ENTRY_BYTES as usize;
    assert_eq!(limit, 50 * 1024 * 1024);
    let exact = "a".repeat(limit);
    let longer = "a".repeat(limit + 1);
    assert!(archived_text_entry("plugin entry", "a.js", Ok(Ok(exact.clone()))).is_ok());
    assert_eq!(
        archived_text_entry("plugin entry", "a.js", Ok(Ok(longer.clone()))),
        Err("plugin entry 'a.js' exceeds the 50-MB size limit".to_string())
    );
    assert!(read_fs_text_entry("plugin style", "a.css", FileRead::Opened(Ok(exact))).is_ok());
    assert_eq!(
        read_fs_text_entry("plugin style", "a.css", FileRead::Opened(Ok(longer))),
        Err("plugin style 'a.css' exceeds the 50-MB size limit".to_string())
    );
    let wide = "ä".repeat(limit / 2 + 1);
    assert!(archived_text_entry("plugin entry", "a.js", Ok(Ok(wide))).is_err());
}

#[test]
fn archives_are_read_one_byte_beyond_the_limit() {
    let content = vec![b'a'; MAX_PLUGIN_ENTRY_BYTES as usize + 5];
    let archive = zip_of(&[("big.js", &content)]);
    assert_eq!(
        read_zip_text_entry(&archive, "big.js", "plugin entry"),
        Err("plugin entry 'big.js' exceeds the 50-MB size limit".to_string())
    );
}

#[test]
fn files_that_cannot_be_read_are_reported() {
    let read = |read| read_fs_text_entry("plugin manifest", "plugin.json", read);
    assert_eq!(read(FileRead::Opened(Ok("{}".into()))), Ok("{}".to_string()));
    assert_eq!(
        read(FileRead::Missing),
        Err("Could not read plugin manifest 'plugin.json': file does not exist".to_string())
    );
    assert_eq!(
        read(FileRead::NotOpened("denied".into())),
        Err("Could not read plugin manifest 'plugin.json': denied".to_string())
    );
    assert_eq!(
        read(FileRead::Opened(Err("bad".into()))),
        Err("Could not read plugin manifest 'plugin.json' as UTF-8: bad".to_string())
    );
}

#[test]
fn only_archives_are_installed() {
    assert_eq!(check_plugin_archive_path("/d/p.zip"), Ok(()));
    assert_eq!(check_plugin_archive_path("/d/12:30.zip"), Ok(()));
    assert_eq!(check_plugin_archive_path("C:\\d\\p.zip"), Ok(()));
    assert!(check_plugin_archive_path("C:\\d.zip\\p.tar").is_err());
    assert_eq!(
        check_plugin_archive_path("/d/p.tar"),
        Err("Plugin file must be a .zip archive".to_string())
    );
}

#[test]
fn archives_are_not_copied_onto_themselves() {
    assert!(!must_copy(Some(b"/p/a.zip"), Some(b"/p/a.zip")));
    assert!(must_copy(Some(b"/p/a.zip"), Some(b"/p/b.zip")));
    assert!(must_copy(Some(b"/p/a.zip"), Some(b"/p/a.zip2")));
    assert!(must_copy(Some(b"/p/\xff.zip"), Some(b"/p/\xfe.zip")));
    assert!(must_copy(Some(b"/p/a.zip"), None));
    assert!(must_copy(None, Some(b"/p/a.zip")));
    assert!(must_copy(None, None));
}

#[test]
fn manifest_strings_are_trimmed_and_named() {
    assert_eq!(validate_required_manifest_string("id", "a b"), Ok(()));
    assert_eq!(
        validate_required_manifest_string("id", " \t"),
        Err("id must not be empty".to_string())
    );
    assert_eq!(
        validate_required_manifest_string("name", "a "),
        Err("name must not have leading or trailing whitespace".to_string())
    );
    assert_eq!(validate_optional_manifest_string("description", ""), Ok(()));
    assert_eq!(
        validate_optional_manifest_string("description", "\na"),
        Err("description must not have leading or trailing whitespace".to_string())
    );
}

#[test]
fn plugin_paths_stay_inside_the_plugin() {
    let check = |path| validate_external_plugin_path("entry", path);
    assert_eq!(check("dist/plugin.js"), Ok(()));
    assert_eq!(check("..dist/...js"), Ok(()));
    assert_eq!(check("/abs.js"), Err("entry must be a relative path".to_string()));
    assert_eq!(check("a\\b.js"), Err("entry must use forward slashes".to_string()));
    assert_eq!(
        check("C:/a.js"),
        Err("entry must not contain drive letters or ':' characters".to_string())
    );
    for path in ["", "a//b.js", "./a.js", "a/../b.js", "..", "a/"] {
        assert_eq!(
            check(path),
            Err("entry must not contain empty, '.', or '..' segments".to_string())
        );
    }
}

#[test]
fn manifests_report_the_first_rule_that_they_break() {
    let check = |manifest: ExternalPluginManifest| {
        validate_external_plugin_manifest(&manifest).err().unwrap_or_default()
    };
    assert_eq!(check(manifest()), "");
    assert_eq!(check(ExternalPluginManifest { entry: "a.mjs".into(), ..manifest() }), "");
    assert_eq!(
        check(ExternalPluginManifest { name: "".into(), version: "".into(), ..manifest() }),
        "name must not be empty"
    );
    assert_eq!(
        check(ExternalPluginManifest { version: " 1".into(), ..manifest() }),
        "version must not have leading or trailing whitespace"
    );
    assert_eq!(
        check(ExternalPluginManifest { entry: "/a.js".into(), ..manifest() }),
        "entry must be a relative path"
    );
    assert_eq!(
        check(ExternalPluginManifest { entry: "a.ts".into(), ..manifest() }),
        "entry must point to a .js or .mjs file"
    );
    assert_eq!(
        check(ExternalPluginManifest { description: Some(" d".into()), ..manifest() }),
        "description must not have leading or trailing whitespace"
    );
    assert_eq!(
        check(ExternalPluginManifest { style: Some("a.css ".into()), ..manifest() }),
        "style must not have leading or trailing whitespace"
    );
    assert_eq!(
        check(ExternalPluginManifest { style: Some("../a.css".into()), ..manifest() }),
        "style must not contain empty, '.', or '..' segments"
    );
    assert_eq!(
        check(ExternalPluginManifest { style: Some("a.scss".into()), ..manifest() }),
        "style must point to a .css file"
    );
    assert_eq!(
        check(ExternalPluginManifest {
            style: Some("a/b.css".into()),
            description: Some("".into()),
            ..manifest()
        }),
        ""
    );
}

#[test]
fn directory_plugins_are_put_together() {
    let text = |text: &str| FileRead::Opened(Ok(text.to_string()));
    let styled = || ExternalPluginManifest { style: Some("a.css".into()), ..manifest() };
    let bundle = directory_plugin("d", styled(), text("js"), Some(text("css"))).unwrap();
    assert_eq!(bundle.archive_name, "d");
    assert_eq!(bundle.manifest, styled());
    assert_eq!(bundle.entry_source, "js");
    assert_eq!(bundle.style_source.as_deref(), Some("css"));
    let plain = directory_plugin("d", manifest(), text("js"), Some(FileRead::Missing)).unwrap();
    assert_eq!(plain.style_source, None);
    let refused = ExternalPluginManifest { id: "".into(), ..manifest() };
    assert_eq!(
        directory_plugin("d", refused, FileRead::Missing, None).unwrap_err(),
        "id must not be empty"
    );
    assert_eq!(
        directory_plugin("d", styled(), FileRead::Missing, None).unwrap_err(),
        "Could not read plugin entry 'dist/plugin.js': file does not exist"
    );
    assert_eq!(
        directory_plugin("d", styled(), text("js"), None).unwrap_err(),
        "Could not read plugin style 'a.css': file does not exist"
    );
}
