use mc_launcher::tasks::{
    bracket_pieces, classify_versions_task, launch_game_task, original_download_task, quote_list,
};
use mc_launcher::versions::{
    classify_minecraft_versions, classify_version, VersionEntry, VersionKind, VersionManifest,
};

fn entry(id: &str, version_type: &str, time: &str) -> VersionEntry {
    VersionEntry {
        id: id.to_string(),
        version_type: version_type.to_string(),
        time: time.to_string(),
    }
}

fn listed() -> VersionManifest {
    VersionManifest {
        versions: vec![
            entry("1.20.4", "release", "2023-12-07T12:56:20+00:00"),
            entry("23w13a_or_b", "snapshot", "2023-04-01T11:00:00+00:00"),
            entry("23w12a", "snapshot", "2023-03-22T15:00:00+00:00"),
            entry("1.RV-Pre1", "release", "2016-04-01T00:00:00+00:00"),
            entry("b1.7", "old_beta", "2011-04-01T22:00:00+00:00"),
            entry("a1.0.4", "old_alpha", "2010-07-08T22:00:00+00:00"),
            entry("x", "experiment", "2020-01-01T00:00:00+00:00"),
            entry("1.19.2", "release", "2022-08-05T11:57:05+00:00"),
        ],
    }
}

#[test]
fn versions_are_sorted_by_kind() {
    let [releases, snapshots, april_fools, old_versions] = classify_minecraft_versions(&listed());
    assert_eq!(releases, vec!["1.20.4", "1.19.2"]);
    assert_eq!(snapshots, vec!["23w12a"]);
    assert_eq!(april_fools, vec!["23w13a_or_b", "1.RV-Pre1"]);
    assert_eq!(old_versions, vec!["b1.7", "a1.0.4"]);
}

#[test]
fn every_version_is_of_one_kind() {
    let manifest = listed();
    let lists = classify_minecraft_versions(&manifest);
    let ignored = manifest
        .versions
        .iter()
        .filter(|entry| matches!(classify_version(entry), VersionKind::Unlisted))
        .count();
    assert_eq!(lists.iter().map(|list| list.len()).sum::<usize>() + ignored, 8);
    assert_eq!(ignored, 1);
}

#[test]
fn old_versions_of_the_first_of_april_are_old() {
    let old = entry("b1.4", "old_beta", "2011-04-01T00:00:00+00:00");
    assert!(matches!(classify_version(&old), VersionKind::Old));
    let joke = entry("20w14inf", "snapshot", "2020-04-01T00:00:00+00:00");
    assert!(matches!(classify_version(&joke), VersionKind::AprilFools));
}

#[test]
fn lists_are_written_with_quotation_marks() {
    assert_eq!(quote_list(&Vec::new()), "[]");
    let list = vec!["1.20.4".to_string(), "a\"b".to_string()];
    assert_eq!(quote_list(&list), "[\"1.20.4\", \"a\\\"b\"]");
    assert_eq!(bracket_pieces(&list), "[1.20.4, a\"b]");
}

#[test]
fn sorting_reports_all_kinds() {
    let lists = [vec!["1.20.4".to_string()], Vec::new(), Vec::new(), vec!["b1.7".to_string()]];
    let report = classify_versions_task(Ok(lists));
    assert_eq!(
        report,
        Ok("正式版 [\"1.20.4\"]\n快照版 []\n愚人节 []\n远古版 [\"b1.7\"]".to_string())
    );
    let report = classify_versions_task(Err("offline".to_string()));
    assert_eq!(report, Err("offline".to_string()));
}

#[test]
fn downloads_report_their_version() {
    assert_eq!(
        original_download_task("1.20.4", Ok(())),
        Ok("download 1.20.4 done".to_string())
    );
    assert_eq!(
        original_download_task("1.20.4", Err("offline".to_string())),
        Err("offline".to_string())
    );
}

#[test]
fn games_report_how_they_ended() {
    assert_eq!(
        launch_game_task(Ok("exit status: 0".to_string())),
        Ok("game exit: exit status: 0".to_string())
    );
    assert_eq!(launch_game_task(Err("no java".to_string())), Err("no java".to_string()));
}
