use mc_launcher::download::DownloadTask;
use mc_launcher::paths::GamePath;
use mc_launcher::plan::{
    after_downloads, asset_index_file, check_assets, check_rules, get_hash_prefix, get_library_server,
    get_native_classifiers, next_native_jar, process_version, Artifact, AssetIndex, AssetObject, AssetsJson,
    ClientDownload, DownloadPlan, Downloads, Library, LibraryDownloads, LogFile, Logging,
    LoggingClient, OsRule, Rule, UnpackStep, VersionJson,
};
use mc_launcher::table::Table;

const OFFICIAL: &str = "https://piston-meta.mojang.com/v1/packages/x/1.20.4.json";

fn artifact(path: &str) -> Artifact {
    Artifact { path: path.to_string(), sha1: format!("sha-{}", path), size: 7 }
}

fn library(path: Option<&str>, classifiers: &[(&str, &str)], rules: Vec<Rule>) -> Library {
    let mut table = Table::new();
    for (key, file) in classifiers {
        table.insert(key.to_string(), artifact(file));
    }
    Library {
        name: "library".to_string(),
        downloads: LibraryDownloads { artifact: path.map(artifact), classifiers: table },
        rules,
        natives: Table::new(),
    }
}

fn rule(action: &str, os: Option<Option<&str>>) -> Rule {
    Rule {
        action: action.to_string(),
        os: os.map(|name| OsRule { name: name.map(|n| n.to_string()) }),
    }
}

fn version(libraries: Vec<Library>) -> VersionJson {
    VersionJson {
        downloads: Downloads {
            client: ClientDownload {
                url: "https://client".to_string(),
                sha1: "c1".to_string(),
                size: 11,
            },
        },
        logging: None,
        asset_index: AssetIndex { url: "https://assets".to_string(), id: "1.20".to_string() },
        libraries,
    }
}

fn assets(hashes: &[&str]) -> AssetsJson {
    AssetsJson {
        objects: hashes.iter().map(|hash| AssetObject { hash: hash.to_string() }).collect(),
    }
}

fn planned(json: &VersionJson, hashes: &[&str], url: &str, os: &str, arch: &str) -> DownloadPlan {
    process_version("1.20.4", "/mc", url, json, &assets(hashes), os, arch)
}

fn target(task: &DownloadTask) -> String {
    task.target_path.parts.join("|")
}

#[test]
fn last_rule_decides_for_the_downloads() {
    assert!(check_rules(&Vec::new(), "linux"));
    assert!(check_rules(&vec![rule("allow", None)], "linux"));
    assert!(!check_rules(&vec![rule("disallow", None)], "linux"));
    assert!(!check_rules(&vec![rule("allow", Some(Some("osx")))], "linux"));
    let rules = vec![rule("allow", None), rule("disallow", Some(Some("osx")))];
    assert!(check_rules(&rules, "linux"));
    assert!(!check_rules(&rules, "osx"));
    assert!(!check_rules(&vec![rule("allow", Some(None))], "linux"));
    assert!(check_rules(&vec![rule("disallow", Some(None))], "linux"));
    assert!(!check_rules(&vec![rule("disallow", None), rule("other", None)], "linux"));
    let overridden = vec![rule("allow", None), rule("disallow", None), rule("other", None)];
    assert!(!check_rules(&overridden, "linux"));
}

#[test]
fn libraries_come_from_the_server_of_the_description() {
    assert_eq!(get_library_server(OFFICIAL), "https://libraries.minecraft.net");
    assert_eq!(
        get_library_server("https://bmclapi2.bangbang93.com/1.20.4/json"),
        "https://bmclapi2.bangbang93.com/maven"
    );
}

#[test]
fn systems_have_native_classifiers() {
    assert_eq!(get_native_classifiers("windows"), vec!["natives-windows", "natives-windows-64"]);
    assert_eq!(get_native_classifiers("osx"), vec!["natives-osx"]);
    assert_eq!(get_native_classifiers("linux"), vec!["natives-linux"]);
    assert!(get_native_classifiers("solaris").is_empty());
}

#[test]
fn digests_begin_with_two_bytes() {
    assert_eq!(get_hash_prefix("0a1b2c"), Some("0a".to_string()));
    assert_eq!(get_hash_prefix("0a"), Some("0a".to_string()));
    assert_eq!(get_hash_prefix("é1"), Some("é".to_string()));
    assert_eq!(get_hash_prefix("0"), None);
    assert_eq!(get_hash_prefix(""), None);
    assert_eq!(get_hash_prefix("0é"), None);
    assert_eq!(get_hash_prefix("版"), None);
    for hash in ["0a1b2c", "é1", "0", "0é", "版", ""] {
        assert_eq!(get_hash_prefix(hash), hash.get(0..2).map(|prefix| prefix.to_string()));
    }
    assert!(check_assets(&assets(&["0a1b", "ff"])));
    assert!(!check_assets(&assets(&["0a1b", "f"])));
}

#[test]
fn asset_lists_are_kept_by_name() {
    assert_eq!(
        asset_index_file("/mc", "1.20").parts,
        vec!["/mc", "assets", "indexes", "1.20.json"]
    );
}

#[test]
fn plans_begin_with_the_client() {
    let mut json = version(Vec::new());
    let plan = planned(&json, &[], OFFICIAL, "linux", "x86_64");
    assert_eq!(plan.tasks.len(), 1);
    assert_eq!(
        plan.tasks[0].urls,
        vec!["https://client", "https://bmclapi2.bangbang93.com/1.20.4/client"]
    );
    assert_eq!(target(&plan.tasks[0]), "/mc|versions|1.20.4|1.20.4.jar");
    assert_eq!(plan.tasks[0].sha1, "c1");
    assert_eq!(plan.tasks[0].size, 11);
    assert!(plan.native_jars.is_empty());

    json.logging = Some(Logging {
        client: LoggingClient {
            file: LogFile { url: "https://log".to_string(), sha1: "l1".to_string() },
        },
    });
    let plan = planned(&json, &[], OFFICIAL, "linux", "x86_64");
    assert_eq!(plan.tasks.len(), 2);
    assert_eq!(plan.tasks[1].urls, vec!["https://log"]);
    assert_eq!(target(&plan.tasks[1]), "/mc|versions|1.20.4|log_config.xml");
    assert_eq!(plan.tasks[1].sha1, "l1");
    assert_eq!(plan.tasks[1].size, 0);
}

#[test]
fn plans_hold_the_libraries_that_the_rules_allow() {
    let json = version(vec![
        library(Some("org/a.jar"), &[], Vec::new()),
        library(Some("org/b.jar"), &[], vec![rule("allow", Some(Some("osx")))]),
        library(Some("org/c-natives-linux.jar"), &[], Vec::new()),
    ]);
    let plan = planned(&json, &[], OFFICIAL, "linux", "x86_64");
    assert_eq!(plan.tasks.len(), 3);
    assert_eq!(
        plan.tasks[1].urls,
        vec![
            "https://libraries.minecraft.net/org/a.jar",
            "https://bmclapi2.bangbang93.com/maven/org/a.jar",
        ]
    );
    assert_eq!(target(&plan.tasks[1]), "/mc|libraries|org/a.jar");
    assert_eq!(plan.tasks[1].sha1, "sha-org/a.jar");
    assert_eq!(plan.tasks[1].size, 7);
    assert_eq!(target(&plan.tasks[2]), "/mc|libraries|org/c-natives-linux.jar");
    assert_eq!(plan.native_jars.len(), 1);
    assert_eq!(plan.native_jars[0].parts.join("|"), "/mc|libraries|org/c-natives-linux.jar");
}

#[test]
fn native_files_are_downloaded_for_the_processor_only() {
    let json = version(vec![library(
        Some("org/a.jar"),
        &[
            ("natives-windows-64", "org/a-natives-windows-64.jar"),
            ("natives-windows", "org/a-natives-windows-arm64.jar"),
            ("natives-linux", "org/a-natives-linux.jar"),
        ],
        Vec::new(),
    )]);
    let plan = planned(&json, &[], "https://mirror/json", "windows", "x86_64");
    assert_eq!(plan.tasks.len(), 3);
    assert_eq!(
        plan.tasks[2].urls,
        vec![
            "https://bmclapi2.bangbang93.com/maven/org/a-natives-windows-64.jar",
            "https://bmclapi2.bangbang93.com/maven/org/a-natives-windows-64.jar",
        ]
    );
    let jars: Vec<String> = plan.native_jars.iter().map(|jar| jar.parts[2].clone()).collect();
    assert_eq!(jars, vec!["org/a-natives-windows-arm64.jar", "org/a-natives-windows-64.jar"]);
    assert!(plan.tasks.iter().all(|task| !task.urls.is_empty()));
}

#[test]
fn plans_end_with_the_assets() {
    let json = version(vec![library(Some("org/a.jar"), &[], Vec::new())]);
    let plan = planned(&json, &["0a1b", "ffee"], OFFICIAL, "linux", "x86_64");
    assert_eq!(plan.tasks.len(), 4);
    assert_eq!(
        plan.tasks[2].urls,
        vec![
            "https://resources.download.minecraft.net/0a/0a1b",
            "https://bmclapi2.bangbang93.com/assets/0a/0a1b",
        ]
    );
    assert_eq!(target(&plan.tasks[2]), "/mc|assets|objects|0a|0a1b");
    assert_eq!(plan.tasks[2].sha1, "0a1b");
    assert_eq!(plan.tasks[2].size, 0);
    assert_eq!(plan.tasks[3].sha1, "ffee");
}

#[test]
fn one_failed_download_fails_the_version() {
    let jars = || vec![GamePath::new("a.jar"), GamePath::new("b.jar")];
    let unpacked = after_downloads(vec![Ok(()), Ok(())], jars(), "linux").ok().unwrap();
    assert_eq!(unpacked.len(), 2);
    assert_eq!(unpacked[1].parts, vec!["b.jar"]);
    let outcomes = vec![Ok(()), Err("first".to_string()), Err("second".to_string())];
    assert_eq!(after_downloads(outcomes, jars(), "linux").err(), Some("first".to_string()));
    assert!(after_downloads(Vec::new(), jars(), "solaris").ok().unwrap().is_empty());
}

#[test]
fn native_archives_are_worked_off_whatever_comes_of_them() {
    let jars = vec![GamePath::new("a.jar"), GamePath::new("b.jar")];
    assert!(matches!(next_native_jar(&jars, 0), UnpackStep::Unpack(0)));
    assert!(matches!(next_native_jar(&jars, 1), UnpackStep::Unpack(1)));
    match next_native_jar(&jars, 2) {
        UnpackStep::Finished(list) => assert!(list.is_empty()),
        UnpackStep::Unpack(_) => panic!("there is no other archive"),
    }
}
