use mc_launcher::launcher::{
    assemble_arguments, build_jvm_arguments, check_patterns, check_rules, checked_jvm_arguments,
    format_path, is_key_set, launch_paths, library_file, library_files, replace_placeholders,
    version_file, Arguments, Artifact, AssetIndex, GameArgument, JvmArgument, LaunchPaths,
    LauncherConfig, Library, LibraryDownloads, LogFile, Logging, LoggingClient, OsKind, OsRule,
    Placeholders, Rule, SystemInfo, VersionJson,
};
use mc_launcher::table::Table;

fn linux() -> SystemInfo {
    SystemInfo {
        kind: OsKind::Linux,
        name: "Linux".to_string(),
        version: "6.1".to_string(),
        architecture: Some("x86_64".to_string()),
    }
}

fn windows() -> SystemInfo {
    SystemInfo {
        kind: OsKind::Windows,
        name: "Windows".to_string(),
        version: "10.0.19045".to_string(),
        architecture: None,
    }
}

fn macos() -> SystemInfo {
    SystemInfo {
        kind: OsKind::Macos,
        name: "Mac OS".to_string(),
        version: "13.0".to_string(),
        architecture: Some("arm64".to_string()),
    }
}

fn elsewhere() -> SystemInfo {
    SystemInfo {
        kind: OsKind::Other,
        name: "FreeBSD".to_string(),
        version: "14".to_string(),
        architecture: None,
    }
}

fn rule(action: &str, name: Option<&str>, version: Option<&str>) -> Rule {
    Rule {
        action: action.to_string(),
        os: Some(OsRule {
            name: name.map(|n| n.to_string()),
            arch: None,
            version: version.map(|v| v.to_string()),
        }),
    }
}

fn bare_rule(action: &str) -> Rule {
    Rule { action: action.to_string(), os: None }
}

fn artifact(path: &str) -> Artifact {
    Artifact { path: path.to_string(), url: String::new(), sha1: String::new(), size: 0 }
}

fn library(path: &str, rules: Vec<Rule>) -> Library {
    Library {
        name: path.to_string(),
        downloads: LibraryDownloads { artifact: Some(artifact(path)), classifiers: Table::new() },
        rules,
        natives: Table::new(),
    }
}

fn native_library(named: &str, key: &str) -> Library {
    let mut natives = Table::new();
    natives.insert("linux".to_string(), named.to_string());
    let mut classifiers = Table::new();
    classifiers.insert(key.to_string(), artifact("natives.jar"));
    Library {
        name: "natives".to_string(),
        downloads: LibraryDownloads { artifact: Some(artifact("plain.jar")), classifiers },
        rules: Vec::new(),
        natives,
    }
}

fn config() -> LauncherConfig {
    LauncherConfig {
        minecraft_path: "/mc".to_string(),
        java_path: "/usr/bin/java".to_string(),
        wrapper_path: "C:\\tools\\wrapper.jar".to_string(),
        launcher_version: "1.0.0".to_string(),
        max_memory: "4096".to_string(),
        version_type: "custom".to_string(),
    }
}

fn version() -> VersionJson {
    VersionJson {
        arguments: None,
        main_class: "net.minecraft.client.main.Main".to_string(),
        libraries: Vec::new(),
        parent_version: None,
        logging: None,
        minecraft_arguments: None,
        asset_index: None,
    }
}

fn paths() -> LaunchPaths {
    LaunchPaths {
        natives_directory: "C:\\mc\\n".to_string(),
        game_directory: "C:\\mc\\g".to_string(),
        assets_root: "C:\\mc\\assets".to_string(),
        libraries_directory: "C:\\mc\\libraries".to_string(),
        version_jar: "C:\\mc\\v.jar".to_string(),
        log_configuration: None,
        library_files: vec!["C:\\mc\\a.jar".to_string(), "C:\\mc\\b.jar".to_string()],
    }
}

fn assembled(version_json: &VersionJson, system: &SystemInfo, at: &LaunchPaths) -> Vec<String> {
    assemble_arguments(&config(), "1.19.2", "Alex", "token", "id", version_json, system, at)
}

#[test]
fn rules_without_entries_allow() {
    assert!(check_rules(&Vec::new(), &linux()));
}

#[test]
fn last_rule_decides_for_the_command_line() {
    let rules = vec![rule("disallow", Some("linux"), None), rule("allow", Some("linux"), None)];
    assert!(check_rules(&rules, &linux()));
    assert!(!check_rules(&rules, &windows()));
    let rules = vec![rule("allow", Some("linux"), None), rule("disallow", Some("osx"), None)];
    assert!(check_rules(&rules, &linux()));
    assert!(check_rules(&rules, &windows()));
    assert!(!check_rules(&rules, &macos()));
    let rules = vec![rule("disallow", Some("linux"), None), rule("note", Some("linux"), None)];
    assert!(!check_rules(&rules, &linux()));
}

#[test]
fn rule_without_system_covers_nothing() {
    assert!(!check_rules(&vec![bare_rule("allow")], &linux()));
    assert!(check_rules(&vec![bare_rule("disallow")], &linux()));
}

#[test]
fn unknown_system_names_cover_all() {
    assert!(check_rules(&vec![rule("allow", Some("solaris"), None)], &linux()));
    assert!(check_rules(&vec![rule("allow", None, None)], &elsewhere()));
    assert!(!check_rules(&vec![rule("allow", Some("windows"), None)], &elsewhere()));
}

#[test]
fn version_patterns_are_searched() {
    let rules = vec![rule("allow", Some("windows"), Some("^10\\."))];
    assert!(check_rules(&rules, &windows()));
    let rules = vec![rule("allow", Some("windows"), Some("^6\\."))];
    assert!(!check_rules(&rules, &windows()));
    let rules = vec![rule("allow", None, Some("9"))];
    assert!(check_rules(&rules, &windows()));
    assert!(!check_rules(&rules, &linux()));
}

#[test]
fn broken_version_patterns_are_noticed() {
    assert!(check_patterns(&vec![library("a.jar", vec![rule("allow", None, Some("^10\\."))])]));
    let libraries = vec![library("a.jar", Vec::new()), library("b.jar", vec![
        bare_rule("allow"),
        rule("allow", None, Some("(")),
    ])];
    assert!(!check_patterns(&libraries));
    let mut version_json = version();
    version_json.libraries = libraries;
    let made = checked_jvm_arguments(
        &config(), "1.19.2", "Alex", "token", "id", &version_json, &linux(),
    );
    assert!(made.is_none());
}

#[test]
fn libraries_without_classifiers_give_their_artifact() {
    assert_eq!(library_file(&library("a.jar", Vec::new()), &linux()), Some("a.jar".to_string()));
    let kept = library("a.jar", vec![rule("allow", Some("osx"), None)]);
    assert_eq!(library_file(&kept, &linux()), None);
    let mut empty = library("a.jar", Vec::new());
    empty.downloads.artifact = None;
    assert_eq!(library_file(&empty, &linux()), None);
}

#[test]
fn libraries_with_classifiers_give_the_named_one() {
    let found = native_library("natives-linux", "linux");
    assert_eq!(library_file(&found, &linux()), Some("natives.jar".to_string()));
    assert_eq!(library_file(&found, &windows()), None);
    assert_eq!(library_file(&found, &elsewhere()), None);
    let unprefixed = native_library("linux", "linux");
    assert_eq!(library_file(&unprefixed, &linux()), None);
    let unlisted = native_library("natives-linux", "natives-linux");
    assert_eq!(library_file(&unlisted, &linux()), None);
}

#[test]
fn library_files_keep_their_order() {
    let libraries = vec![
        library("a.jar", Vec::new()),
        library("b.jar", vec![rule("allow", Some("osx"), None)]),
        library("c.jar", Vec::new()),
    ];
    assert_eq!(library_files(&libraries, &linux()), vec!["a.jar", "c.jar"]);
    assert_eq!(library_files(&libraries, &macos()), vec!["a.jar", "b.jar", "c.jar"]);
}

#[test]
fn paths_are_written_with_forward_slashes() {
    assert_eq!(format_path("C:\\Users\\x\\.minecraft"), "C:/Users/x/.minecraft");
    assert_eq!(format_path("/home/x"), "/home/x");
}

#[test]
fn launch_paths_lie_under_the_root() {
    let mut version_json = version();
    version_json.libraries = vec![library("org/a.jar", Vec::new())];
    version_json.logging = Some(Logging {
        client: Some(LoggingClient { file: LogFile { id: "client-1.12.xml".to_string() } }),
    });
    let found = launch_paths(&config(), "1.19.2", &version_json, &linux());
    assert_eq!(format_path(&found.natives_directory), "/mc/versions/1.19.2/1.19.2-natives");
    assert_eq!(format_path(&found.game_directory), "/mc/instance/1.19.2");
    assert_eq!(format_path(&found.assets_root), "/mc/assets");
    assert_eq!(format_path(&found.libraries_directory), "/mc/libraries");
    assert_eq!(format_path(&found.version_jar), "/mc/versions/1.19.2/1.19.2.jar");
    assert_eq!(
        found.log_configuration.map(|path| format_path(&path)),
        Some("/mc/versions/1.19.2/client-1.12.xml".to_string())
    );
    assert_eq!(found.library_files.len(), 1);
    assert_eq!(format_path(&found.library_files[0]), "/mc/libraries/org/a.jar");
    assert_eq!(version_file("/mc", "1.19.2").parts, vec!["/mc", "versions", "1.19.2", "1.19.2.json"]);
}

#[test]
fn steps_are_joined_by_single_slashes() {
    let mut at = config();
    at.minecraft_path = "/mc/".to_string();
    let mut version_json = version();
    version_json.libraries =
        vec![library("/opt/a.jar", Vec::new()), library("org/b.jar", Vec::new())];
    let found = launch_paths(&at, "1.19.2", &version_json, &linux());
    assert_eq!(format_path(&found.game_directory), "/mc/instance/1.19.2");
    assert_eq!(format_path(&found.library_files[0]), "/opt/a.jar");
    assert_eq!(format_path(&found.library_files[1]), "/mc/libraries/org/b.jar");
}

#[test]
fn logging_without_client_has_no_configuration() {
    let mut version_json = version();
    version_json.logging = Some(Logging { client: None });
    assert!(launch_paths(&config(), "1", &version_json, &linux()).log_configuration.is_none());
}

#[test]
fn placeholders_are_filled_one_after_the_other() {
    let values = Placeholders {
        player_name: "${auth_uuid}".to_string(),
        auth_token: "tok".to_string(),
        uuid: "id".to_string(),
        version_name: "1.19.2".to_string(),
        natives_directory: "/n".to_string(),
        game_directory: "/g".to_string(),
        assets_root: "/a".to_string(),
        assets_index_name: "1.19".to_string(),
        version_type: "release".to_string(),
    };
    assert_eq!(replace_placeholders("${auth_player_name}", &values), "id");
    assert_eq!(replace_placeholders("${auth_session}", &values), "id");
    assert_eq!(replace_placeholders("${auth_access_token}", &values), "tok");
    assert_eq!(replace_placeholders("${version_name}", &values), "1.19.2");
    assert_eq!(replace_placeholders("${natives_directory}", &values), "/n");
    assert_eq!(replace_placeholders("${game_directory}", &values), "/g");
    assert_eq!(replace_placeholders("${assets_root}", &values), "/a");
    assert_eq!(replace_placeholders("${assets_index_name}", &values), "1.19");
    assert_eq!(replace_placeholders("${user_type}-${version_type}", &values), "msa-release");
    assert_eq!(replace_placeholders("${clientid}", &values), "${clientid}");
}

#[test]
fn old_versions_give_a_whole_command_line() {
    let mut version_json = version();
    version_json.minecraft_arguments =
        Some("--username ${auth_player_name} --assetIndex ${assets_index_name}".to_string());
    version_json.asset_index = Some(AssetIndex { id: "1.19".to_string() });
    let expected = vec![
        "-Xmn768m",
        "-Xmx4096m",
        "-Xss1M",
        "-XX:+UseG1GC",
        "-XX:-UseAdaptiveSizePolicy",
        "-XX:-OmitStackTraceInFastThrow",
        "-Djdk.lang.Process.allowAmbiguousCommands=true",
        "-Dfml.ignoreInvalidMinecraftCertificates=True",
        "-Dfml.ignorePatchDiscrepancies=True",
        "-Dos.name=Linux",
        "-Dos.version=6.1",
        "-Djava.library.path=C:/mc/n",
        "-DlibraryDirectory=C:/mc/libraries",
        "-Dminecraft.launcher.brand=\"Rhythmic Tool Launcher\"",
        "-Dminecraft.launcher.version=1.0.0",
        "-cp",
        "C:/mc/a.jar;C:/mc/b.jar;C:/mc/v.jar;C:/tools/wrapper.jar",
        "net.minecraft.client.main.Main",
        "--username",
        "Alex",
        "--assetIndex",
        "1.19",
        "--width",
        "873",
        "--height",
        "486",
    ];
    assert_eq!(assembled(&version_json, &linux(), &paths()), expected);
}

#[test]
fn machine_arguments_depend_on_the_system() {
    let heap_dump = "-XX:HeapDumpPath=MojangTricksIntelDriversForPerformance_javaw.exe_minecraft.exe.heapdump";
    let args = assembled(&version(), &windows(), &paths());
    assert_eq!(args[2], heap_dump);
    assert_eq!(args[3], "-XX:+UseG1GC");
    let args = assembled(&version(), &macos(), &paths());
    assert_eq!(args[2], "-XstartOnFirstThread");
    assert_eq!(args[3], "-XX:+UseG1GC");
    let args = assembled(&version(), &elsewhere(), &paths());
    assert_eq!(args[2], "-XX:+UseG1GC");
}

#[test]
fn log_configuration_is_encoded() {
    let mut at = paths();
    at.log_configuration = Some("C:\\my games\\log config.xml".to_string());
    let args = assembled(&version(), &elsewhere(), &at);
    assert_eq!(args[8], "-Dlog4j.configurationFile=file:///C:/my%20games/log%20config.xml");
}

#[test]
fn version_file_overrides_fixed_parameters() {
    let mut version_json = version();
    version_json.arguments = Some(Arguments {
        jvm: Some(vec![
            JvmArgument::Object { rules: Vec::new() },
            JvmArgument::Text("-Djava.library.path=${natives_directory}".to_string()),
            JvmArgument::Text("-Dos.version".to_string()),
        ]),
        game: None,
    });
    assert!(is_key_set(&version_json, "-Djava.library.path"));
    assert!(is_key_set(&version_json, "-Dos.version"));
    assert!(!is_key_set(&version_json, "-Dos.name"));
    let args = assembled(&version_json, &elsewhere(), &paths());
    assert!(args.contains(&"-Dos.name=FreeBSD".to_string()));
    assert!(!args.iter().any(|arg| arg.starts_with("-Djava.library.path")));
    assert!(!args.iter().any(|arg| arg.starts_with("-Dos.version")));
}

#[test]
fn listed_game_arguments_come_before_the_single_line() {
    let mut version_json = version();
    version_json.minecraft_arguments = Some("--old".to_string());
    version_json.arguments = Some(Arguments {
        jvm: None,
        game: Some(vec![
            GameArgument::Text("--version".to_string()),
            GameArgument::Other,
            GameArgument::Text("${version_name}".to_string()),
        ]),
    });
    let args = assembled(&version_json, &elsewhere(), &paths());
    let end = args.len();
    assert_eq!(args[end - 6..end - 4], ["--version".to_string(), "1.19.2".to_string()]);
    assert!(!args.contains(&"--old".to_string()));
}

#[test]
fn unknown_placeholders_are_cleared() {
    let mut version_json = version();
    version_json.minecraft_arguments = Some("${clientid} a${x}b${y} ${open $${a}".to_string());
    let args = assembled(&version_json, &elsewhere(), &paths());
    let end = args.len();
    assert_eq!(args[end - 8], "{}");
    assert_eq!(args[end - 7], "a{}b{}");
    assert_eq!(args[end - 6], "${open");
    assert_eq!(args[end - 5], "${}");
}

#[test]
fn command_line_uses_the_paths_of_the_version() {
    let mut version_json = version();
    version_json.libraries = vec![library("org/a.jar", Vec::new())];
    let args =
        build_jvm_arguments(&config(), "1.19.2", "Alex", "token", "id", &version_json, &linux());
    let at = args.iter().position(|arg| arg == "-cp").unwrap();
    assert_eq!(
        args[at + 1],
        "/mc/libraries/org/a.jar;/mc/versions/1.19.2/1.19.2.jar;C:/tools/wrapper.jar"
    );
    let checked =
        checked_jvm_arguments(&config(), "1.19.2", "Alex", "token", "id", &version_json, &linux());
    assert_eq!(checked, Some(args));
}

#[test]
fn asset_index_is_inherited_only_where_it_is_missing() {
    let mut parent = version();
    parent.asset_index = Some(AssetIndex { id: "parent".to_string() });
    parent.main_class = "Parent".to_string();
    let merged = version().inherit(parent);
    assert_eq!(merged.asset_index.map(|index| index.id), Some("parent".to_string()));
    assert_eq!(merged.main_class, "net.minecraft.client.main.Main");

    let mut parent = version();
    parent.asset_index = Some(AssetIndex { id: "parent".to_string() });
    let mut child = version();
    child.asset_index = Some(AssetIndex { id: "child".to_string() });
    let merged = child.inherit(parent);
    assert_eq!(merged.asset_index.map(|index| index.id), Some("child".to_string()));
}
