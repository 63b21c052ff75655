use geolibre_desktop::manifest::ExternalPluginManifest;
use geolibre_desktop::plugin_scan::{
    configured_directories, distinct_directories, entry_order, plan_directory, plan_entry,
    plan_scan, DirectoryPlan, EntryFacts, EntryPlan, ScanReport, ScanStep, ScannedEntry,
};
use geolibre_desktop::plugins::ExternalPluginBundle;

fn texts(list: &[&str]) -> Vec<String> {
    list.iter().map(|text| text.to_string()).collect()
}

fn facts(is_file: bool, is_zip: bool, is_directory: bool, has_manifest: bool) -> EntryFacts {
    EntryFacts { is_file, is_zip, is_directory, has_manifest }
}

#[test]
fn blank_directories_are_left_out() {
    assert_eq!(configured_directories(&texts(&[" /a ", "", "  ", "/b"])), texts(&["/a", "/b"]));
    assert_eq!(configured_directories(&vec![]), Vec::<String>::new());
}

#[test]
fn every_directory_is_scanned_once() {
    let keys = texts(&["C:\\a", "/b", "C:/a", "/b", "/c"]);
    assert_eq!(distinct_directories(&keys), vec![0, 1, 4]);
    assert_eq!(distinct_directories(&vec![]), Vec::<usize>::new());
}

#[test]
fn entries_are_ordered_by_name_and_stay_in_order() {
    assert_eq!(entry_order(&texts(&["b", "a", "b", "B", "a"])), vec![3, 1, 4, 0, 2]);
    assert_eq!(entry_order(&vec![]), Vec::<usize>::new());
    let names = texts(&["z", "ab", "a", "ä", "", "Z", "a.zip"]);
    let mut expected: Vec<usize> = (0..names.len()).collect();
    expected.sort_by_key(|index| names[*index].clone());
    assert_eq!(entry_order(&names), expected);
}

#[test]
fn directories_are_skipped_loaded_or_scanned() {
    assert_eq!(plan_directory(false, false), DirectoryPlan::Skip);
    assert_eq!(plan_directory(true, true), DirectoryPlan::LoadAsPlugin);
    assert_eq!(plan_directory(true, false), DirectoryPlan::ScanEntries);
}

#[test]
fn entries_are_archives_directories_or_nothing() {
    assert_eq!(plan_entry(facts(true, true, false, false)), EntryPlan::LoadArchive);
    assert_eq!(plan_entry(facts(true, false, false, false)), EntryPlan::Ignore);
    assert_eq!(plan_entry(facts(false, true, true, true)), EntryPlan::LoadDirectory);
    assert_eq!(plan_entry(facts(false, true, true, false)), EntryPlan::Ignore);
}

#[test]
fn scans_follow_the_order_of_names() {
    let entries = vec![
        ScannedEntry { name: "d".into(), inspected: Ok(facts(false, false, true, true)) },
        ScannedEntry { name: "c".into(), inspected: Err("gone".into()) },
        ScannedEntry { name: "b".into(), inspected: Ok(facts(true, false, false, false)) },
        ScannedEntry { name: "a.zip".into(), inspected: Ok(facts(true, true, false, false)) },
    ];
    let steps = plan_scan(&entries);
    assert_eq!(steps.len(), 3);
    assert!(matches!(&steps[0], ScanStep::LoadArchive(3)));
    assert!(matches!(&steps[1], ScanStep::Report(1, error) if error == "gone"));
    assert!(matches!(&steps[2], ScanStep::LoadDirectory(0)));
}

#[test]
fn reports_hold_bundles_and_errors() {
    let mut report = ScanReport::new();
    let bundle = ExternalPluginBundle {
        archive_name: "a".into(),
        manifest: ExternalPluginManifest {
            id: "i".into(),
            name: "n".into(),
            version: "v".into(),
            entry: "e.js".into(),
            description: None,
            style: None,
        },
        entry_source: "s".into(),
        style_source: None,
    };
    report.record_plugin("a".into(), Ok(bundle));
    report.record_plugin("b".into(), Err("broken".into()));
    report.record_unlisted_directory("c".into(), "denied");
    report.record_uninspected_entry("d".into(), "gone");
    assert_eq!(report.bundles.len(), 1);
    assert_eq!(report.bundles[0].entry_source, "s");
    let errors: Vec<(String, String)> = report
        .errors
        .into_iter()
        .map(|error| (error.archive_name, error.message))
        .collect();
    assert_eq!(
        errors,
        vec![
            ("b".to_string(), "broken".to_string()),
            ("c".to_string(), "Could not read plugins directory: denied".to_string()),
            ("d".to_string(), "Could not inspect plugin entry: gone".to_string()),
        ]
    );
}
