use geolibre_desktop::platform::{
    configure_linux_webkit, is_executable, make_executable, martin_asset_name,
    martin_executable_name, platform_extension_subpath, prepend_pythonpath, uv_executable_name,
    uv_installer_command, uv_installer_file_name, uv_installer_url, TargetArch, TargetOs,
};

#[test]
fn extensions_are_bundled_for_five_platforms() {
    for (os, arch, name) in [
        (TargetOs::Macos, TargetArch::Aarch64, "osx_arm64"),
        (TargetOs::Macos, TargetArch::X86_64, "osx_amd64"),
        (TargetOs::Windows, TargetArch::X86_64, "windows_amd64"),
        (TargetOs::Linux, TargetArch::X86_64, "linux_amd64"),
        (TargetOs::Linux, TargetArch::Aarch64, "linux_arm64"),
    ] {
        assert_eq!(
            platform_extension_subpath(os, arch),
            Some(format!("resources/duckdb/{name}/spatial.duckdb_extension").as_str())
        );
    }
    assert_eq!(platform_extension_subpath(TargetOs::Windows, TargetArch::Aarch64), None);
    assert_eq!(platform_extension_subpath(TargetOs::Linux, TargetArch::Other), None);
    assert_eq!(platform_extension_subpath(TargetOs::Other, TargetArch::X86_64), None);
}

#[test]
fn releases_exist_for_five_platforms() {
    for (os, arch, name) in [
        (TargetOs::Linux, TargetArch::X86_64, "martin-x86_64-unknown-linux-musl.tar.gz"),
        (TargetOs::Linux, TargetArch::Aarch64, "martin-aarch64-unknown-linux-musl.tar.gz"),
        (TargetOs::Macos, TargetArch::Aarch64, "martin-aarch64-apple-darwin.tar.gz"),
        (TargetOs::Macos, TargetArch::X86_64, "martin-x86_64-apple-darwin.tar.gz"),
        (TargetOs::Windows, TargetArch::X86_64, "martin-x86_64-pc-windows-msvc.zip"),
    ] {
        assert_eq!(martin_asset_name(os, arch), Ok(name));
    }
    assert_eq!(
        martin_asset_name(TargetOs::Windows, TargetArch::Aarch64),
        Err("No Martin binary release is available for this platform.".to_string())
    );
}

#[test]
fn executables_are_named_by_system() {
    assert_eq!(martin_executable_name(TargetOs::Windows), "martin.exe");
    assert_eq!(martin_executable_name(TargetOs::Linux), "martin");
    assert_eq!(uv_executable_name(TargetOs::Windows), "uv.exe");
    assert_eq!(uv_executable_name(TargetOs::Macos), "uv");
}

#[test]
fn uv_is_installed_by_a_script_of_the_system() {
    assert_eq!(uv_installer_url(TargetOs::Windows), "https://astral.sh/uv/install.ps1");
    assert_eq!(uv_installer_url(TargetOs::Linux), "https://astral.sh/uv/install.sh");
    assert_eq!(uv_installer_file_name(TargetOs::Windows), "uv-install.ps1");
    assert_eq!(uv_installer_file_name(TargetOs::Other), "uv-install.sh");
    assert_eq!(uv_installer_command(TargetOs::Linux), ("sh", vec![]));
    assert_eq!(
        uv_installer_command(TargetOs::Windows),
        ("powershell", vec!["-NoProfile", "-ExecutionPolicy", "Bypass", "-File"])
    );
}

#[test]
fn modes_tell_what_may_be_executed() {
    assert!(is_executable(Some(0o100755)));
    assert!(is_executable(Some(0o010)));
    assert!(is_executable(Some(0o001)));
    assert!(!is_executable(Some(0o100644)));
    assert!(!is_executable(Some(0)));
    assert!(is_executable(None));
    assert_eq!(make_executable(true), Some(0o755));
    assert_eq!(make_executable(false), None);
}

#[test]
fn the_environment_has_the_last_word_on_the_web_view() {
    assert_eq!(
        configure_linux_webkit(TargetOs::Linux, false, false),
        vec![("WEBKIT_DISABLE_DMABUF_RENDERER", "1"), ("GTK_USE_PORTAL", "1")]
    );
    assert_eq!(
        configure_linux_webkit(TargetOs::Linux, true, false),
        vec![("GTK_USE_PORTAL", "1")]
    );
    assert_eq!(
        configure_linux_webkit(TargetOs::Linux, false, true),
        vec![("WEBKIT_DISABLE_DMABUF_RENDERER", "1")]
    );
    assert!(configure_linux_webkit(TargetOs::Linux, true, true).is_empty());
    assert!(configure_linux_webkit(TargetOs::Macos, false, false).is_empty());
}

#[test]
fn inherited_import_paths_are_kept() {
    assert_eq!(prepend_pythonpath("/lib", Some("/a:/b"), TargetOs::Linux), "/lib:/a:/b");
    assert_eq!(prepend_pythonpath("C:\\l", Some("D:\\a"), TargetOs::Windows), "C:\\l;D:\\a");
    assert_eq!(prepend_pythonpath("/lib", Some(""), TargetOs::Linux), "/lib");
    assert_eq!(prepend_pythonpath("/lib", None, TargetOs::Linux), "/lib");
}
