use mc_launcher::natives::{
    after_archive_work, after_entry, after_entry_name, after_opening, after_unpacking,
    extract_arch_info, extract_library_paths, first_archive, get_native_extension, get_system_tag,
    is_arch_served, match_system, select_classifier, select_natives, Artifact, Downloads,
    JarOpening, JarStep, JarUnpacking, Library, NativesStep, VersionManifest,
};
use mc_launcher::paths::has_extension;

fn library(artifact: Option<&str>, classifiers: Option<&[&str]>) -> Library {
    Library {
        downloads: Downloads {
            artifact: artifact.map(|path| Artifact { path: path.to_string() }),
            classifiers: classifiers.map(|paths| {
                paths.iter().map(|path| Artifact { path: path.to_string() }).collect()
            }),
        },
    }
}

fn message(step: JarStep) -> String {
    match step {
        JarStep::Failed(message) => message,
        _ => panic!("the step is no failure"),
    }
}

#[test]
fn systems_have_tags() {
    assert_eq!(get_system_tag("windows"), vec!["-windows"]);
    assert_eq!(get_system_tag("linux"), vec!["-linux"]);
    assert_eq!(get_system_tag("macos"), vec!["-macos", "-osx"]);
    assert!(get_system_tag("freebsd").is_empty());
}

#[test]
fn paths_match_systems() {
    assert!(match_system("lwjgl-3.3.1-natives-linux.jar", "linux"));
    assert!(!match_system("lwjgl-3.3.1-natives-linux.jar", "windows"));
    assert!(match_system("lwjgl-natives-osx.jar", "macos"));
    assert!(match_system("lwjgl-natives-macos-arm64.jar", "macos"));
    assert!(!match_system("lwjgl-3.3.1.jar", "linux"));
    assert!(!match_system("lwjgl-natives-linux.jar", "freebsd"));
    assert!(!match_system("a-natives-x-natives-linux.jar", "linux"));
}

#[test]
fn paths_name_processors() {
    assert_eq!(
        extract_arch_info("lwjgl-natives-macos-ARM64.jar"),
        (Some("arm64".to_string()), false)
    );
    assert_eq!(extract_arch_info("lwjgl-natives-linux.jar"), (None, true));
    assert_eq!(extract_arch_info("lwjgl-natives-osx.jar"), (None, true));
    assert_eq!(
        extract_arch_info("lwjgl-natives-linux-x86_64.jar"),
        (Some("x86_64".to_string()), false)
    );
    assert_eq!(extract_arch_info("a-x86--"), (Some("x86".to_string()), false));
    assert_eq!(extract_arch_info("---"), (None, true));
    assert_eq!(extract_arch_info(""), (None, true));
    assert_eq!(extract_arch_info("a-.jar"), (Some(String::new()), false));
}

#[test]
fn processors_are_served() {
    assert!(is_arch_served(&None, "x86_64"));
    assert!(!is_arch_served(&None, "aarch64"));
    assert!(is_arch_served(&Some("x86_64".to_string()), "x86_64"));
    assert!(!is_arch_served(&Some("x86".to_string()), "x86_64"));
    assert!(is_arch_served(&Some("x86".to_string()), "x86"));
    assert!(is_arch_served(&Some("arm64".to_string()), "aarch64"));
    assert!(is_arch_served(&Some("aarch_64".to_string()), "aarch64"));
    assert!(!is_arch_served(&Some("aarch64".to_string()), "aarch64"));
    assert!(!is_arch_served(&Some("riscv64".to_string()), "riscv64"));
}

#[test]
fn old_windows_classifiers_are_always_taken() {
    let selected = select_classifier("t/twitch-natives-windows-64.jar", "windows", "x86").unwrap();
    assert_eq!(selected.path, "t/twitch-natives-windows-64.jar");
    assert_eq!(selected.arch, "x86_64");
    assert!(select_classifier("t/twitch-natives-windows-64.jar", "linux", "x86_64").is_none());
    assert!(select_classifier("natives-windows-64.jar", "windows", "x86_64").is_none());
}

#[test]
fn archives_are_selected_in_order() {
    let manifest = VersionManifest {
        libraries: vec![
            library(Some("plain.jar"), None),
            library(
                Some("a-natives-linux.jar"),
                Some(&["b-natives-linux.jar", "b-natives-windows.jar", "c-natives-linux-x86.jar"]),
            ),
            library(None, Some(&[])),
            library(Some("d-natives-linux-x86_64.jar"), None),
        ],
    };
    let paths: Vec<String> =
        select_natives(&manifest, "linux", "x86_64").into_iter().map(|a| a.path).collect();
    assert_eq!(
        paths,
        vec!["a-natives-linux.jar", "b-natives-linux.jar", "d-natives-linux-x86_64.jar"]
    );
    let archives = select_natives(&manifest, "linux", "x86");
    assert_eq!(archives.len(), 1);
    assert_eq!(archives[0].path, "c-natives-linux-x86.jar");
    assert_eq!(archives[0].arch, "x86");
    assert!(select_natives(&manifest, "freebsd", "x86_64").is_empty());
}

#[test]
fn selected_archives_get_full_paths() {
    let manifest = VersionManifest {
        libraries: vec![library(Some("org/a-natives-linux.jar"), None)],
    };
    let archives = extract_library_paths("/mc", &manifest, "linux", "x86_64");
    assert_eq!(archives.len(), 1);
    assert_eq!(archives[0].path.replace('\\', "/"), "/mc/libraries/org/a-natives-linux.jar");
    assert_eq!(archives[0].arch, "x86_64");
}

#[test]
fn archives_are_worked_off_until_one_fails() {
    let manifest = VersionManifest {
        libraries: vec![
            library(Some("a-natives-linux.jar"), None),
            library(Some("b-natives-linux.jar"), None),
        ],
    };
    let archives = select_natives(&manifest, "linux", "x86_64");
    assert!(matches!(first_archive(&archives), NativesStep::Unpack(0)));
    assert!(matches!(after_archive_work(&archives, 0, Ok(())), NativesStep::Unpack(1)));
    match after_archive_work(&archives, 1, Ok(())) {
        NativesStep::Finished(paths) => {
            assert_eq!(paths, vec!["a-natives-linux.jar", "b-natives-linux.jar"]);
        }
        _ => panic!("all archives are worked off"),
    }
    match after_archive_work(&archives, 0, Err("damaged".to_string())) {
        NativesStep::Failed(message) => assert_eq!(message, "damaged"),
        _ => panic!("the archive failed"),
    }
    match first_archive(&Vec::new()) {
        NativesStep::Finished(paths) => assert!(paths.is_empty()),
        _ => panic!("there is no archive"),
    }
}

#[test]
fn longer_paths_still_match_their_system() {
    assert!(match_system("a-natives-linux", "linux"));
    assert!(match_system("a-natives-linux-nat", "linux"));
    assert!(match_system("a-natives-linux-natives.jar", "linux"));
}

#[test]
fn file_names_have_extensions() {
    assert!(has_extension("lwjgl.dll", "dll"));
    assert!(has_extension("a.b.so", "so"));
    assert!(!has_extension("a.so.1", "so"));
    assert!(!has_extension(".so", "so"));
    assert!(!has_extension("so", "so"));
    assert!(has_extension("a.", ""));
}

#[test]
fn systems_have_library_extensions() {
    assert_eq!(get_native_extension("windows"), Some("dll".to_string()));
    assert_eq!(get_native_extension("macos"), Some("dylib".to_string()));
    assert_eq!(get_native_extension("linux"), Some("so".to_string()));
    assert_eq!(get_native_extension("freebsd"), None);
}

#[test]
fn archives_are_opened() {
    assert!(matches!(after_opening("a.jar", "linux", JarOpening::Entries(3)), JarStep::Read(0)));
    assert!(matches!(after_opening("a.jar", "linux", JarOpening::Entries(0)), JarStep::Finished));
    assert!(matches!(after_opening("a.jar", "freebsd", JarOpening::Entries(3)), JarStep::Finished));
    assert_eq!(
        message(after_opening("a.jar", "linux", JarOpening::Missing)),
        "JAR文件不存在: a.jar\n请重新下载该版本"
    );
    assert_eq!(
        message(after_opening("a.jar", "linux", JarOpening::Unreadable("denied".to_string()))),
        "无法打开JAR文件: a.jar\n错误: denied\n请重新下载该版本"
    );
    assert_eq!(
        message(after_opening("a.jar", "linux", JarOpening::Damaged("no end".to_string()))),
        "损坏的JAR文件: a.jar\n错误: no end\n请重新下载该版本"
    );
}

#[test]
fn entries_are_judged_by_their_file_name() {
    match after_entry("a.jar", Ok("linux/x64/liblwjgl.so".to_string()), 1, 3, "so") {
        JarStep::Unpack(at, name) => {
            assert_eq!(at, 1);
            assert_eq!(name, "liblwjgl.so");
        }
        _ => panic!("the entry has to be unpacked"),
    }
    assert!(matches!(
        after_entry("a.jar", Ok("META-INF/".to_string()), 1, 3, "so"),
        JarStep::Read(2)
    ));
    assert!(matches!(
        after_entry("a.jar", Ok("a.txt".to_string()), 2, 3, "so"),
        JarStep::Finished
    ));
    match after_entry_name(Some("Tracy_LICENSE".to_string()), 0, 1, "so") {
        JarStep::Unpack(0, name) => assert_eq!(name, "Tracy_LICENSE"),
        _ => panic!("the license has to be unpacked"),
    }
    assert!(matches!(after_entry_name(None, 0, 1, "so"), JarStep::Finished));
    assert_eq!(
        message(after_entry("a.jar", Err("bad".to_string()), 0, 1, "so")),
        "损坏的ZIP条目: a.jar\n错误: bad\n请重新下载该版本"
    );
}

#[test]
fn unpacking_goes_on_or_fails() {
    assert!(matches!(after_unpacking(JarUnpacking::Written, 0, 2), JarStep::Read(1)));
    assert!(matches!(after_unpacking(JarUnpacking::Written, 1, 2), JarStep::Finished));
    let failed = JarUnpacking::ReadFailed("x/a.so".to_string(), "crc".to_string());
    assert_eq!(
        message(after_unpacking(failed, 0, 2)),
        "读取文件失败: x/a.so\n错误: crc\n请重新下载该版本"
    );
    let failed = JarUnpacking::WriteFailed("/n/a.so".to_string(), "full".to_string());
    assert_eq!(
        message(after_unpacking(failed, 0, 2)),
        "写入文件失败: /n/a.so\n错误: full\n请检查文件权限"
    );
}

#[test]
fn wanted_entries_are_unpacked_once_and_in_order() {
    let names = ["a.txt", "x/a.so", "x/b.dll", "Tracy_LICENSE", "y/c.so"];
    let mut unpacked = Vec::new();
    let mut step = after_opening("a.jar", "linux", JarOpening::Entries(names.len()));
    loop {
        step = match step {
            JarStep::Read(at) => {
                after_entry("a.jar", Ok(names[at].to_string()), at, names.len(), "so")
            }
            JarStep::Unpack(at, name) => {
                unpacked.push(name);
                after_unpacking(JarUnpacking::Written, at, names.len())
            }
            JarStep::Finished => break,
            JarStep::Failed(message) => panic!("{}", message),
        };
    }
    assert_eq!(unpacked, vec!["a.so", "Tracy_LICENSE", "c.so"]);
}
