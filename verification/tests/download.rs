use mc_launcher::digest::{check_digest, check_sha1, hex};
use mc_launcher::download::{
    after_archive, after_listed, after_seen, after_written, calculate_chunk_size,
    check_content_length, check_download, choose_url, current_arch_suffix, exhausted_message,
    fetch_version_url, find_version_url, get_native_suffix, match_arch_suffix, unpack_as, Attempt,
    CheckDecision, Download, DownloadProgress, ListedEntry, ManifestReply, Preparation,
    PrepareDecision, SeenEntry, TargetState, TryDecision, TryOutcome, VersionEntry,
    VersionManifest, MAX_RETRIES,
};
use mc_launcher::natives::JarStep;

fn texts(list: &[&str]) -> Vec<String> {
    list.iter().map(|text| text.to_string()).collect()
}

/// Looks at a place where something has to be done, and tells whether a file has to go first.
fn to_prepare(download: Download, target: TargetState) -> (Preparation, bool) {
    match download.checked(target) {
        CheckDecision::Prepare { preparation, discard } => (preparation, discard),
        CheckDecision::Accept => panic!("the file is not there"),
    }
}

/// Begins the next try.
fn to_fetch(download: Download) -> Option<Attempt> {
    let (preparation, discard) = to_prepare(download, TargetState::Absent);
    assert!(!discard);
    match preparation.prepared(Ok(())) {
        PrepareDecision::Fetch { attempt } => Some(attempt),
        PrepareDecision::GiveUp => None,
        PrepareDecision::Fail { .. } => panic!("the place is ready"),
    }
}

/// Runs a download of which every try ends with the given outcome, and lists the sources tried.
fn tried(urls: &[&str], corrupt: bool) -> Vec<String> {
    let mut used = Vec::new();
    let mut download = Download::new(texts(urls));
    loop {
        let attempt = match to_fetch(download) {
            Some(attempt) => attempt,
            None => return used,
        };
        used.push(attempt.url());
        let decision = if corrupt {
            match attempt.finished(TryOutcome::Corrupt) {
                TryDecision::Remove { removal } => removal.removed(Ok(())),
                _ => panic!("the file has to be removed"),
            }
        } else {
            attempt.finished(TryOutcome::Failed)
        };
        download = match decision {
            TryDecision::Retry { download } => download,
            TryDecision::GiveUp => return used,
            _ => panic!("the try did not give the file"),
        };
    }
}

/// The name under which an entry of this name is unpacked.
fn judged(name: &str, is_dir: bool, is_file: bool) -> Option<String> {
    let entry = ListedEntry::Named { name: name.to_string(), is_dir, is_file };
    match after_listed(entry, 0, 1, ".so") {
        JarStep::Unpack(at, name) => {
            assert_eq!(at, 0);
            Some(name)
        }
        JarStep::Finished => None,
        _ => panic!("there is no other entry"),
    }
}

#[test]
fn digests_are_compared_in_hexadecimal() {
    assert!(check_sha1(b"abc", "a9993e364706816aba3e25717850c26c9cd0d89d"));
    assert!(check_sha1(b"", "da39a3ee5e6b4b0d3255bfef95601890afd80709"));
    assert!(!check_sha1(b"abc", "A9993E364706816ABA3E25717850C26C9CD0D89D"));
    assert!(!check_sha1(b"abd", "a9993e364706816aba3e25717850c26c9cd0d89d"));
    assert!(!check_sha1(b"abc", ""));
}

#[test]
fn bytes_are_written_in_hexadecimal() {
    assert_eq!(hex(&[]), "");
    assert_eq!(hex(&[0, 15, 16, 171, 255]), "000f10abff");
    assert!(check_digest(&[1, 254], "01fe"));
    assert!(!check_digest(&[1, 254], "1fe"));
    assert_ne!(hex(&[1, 2]), hex(&[2, 1]));
}

#[test]
fn loaded_contents_are_checked() {
    assert_eq!(check_download(b"abc", "a9993e364706816aba3e25717850c26c9cd0d89d"), Ok(()));
    assert_eq!(check_download(b"abc", "0"), Err("下载后校验失败".to_string()));
}

#[test]
fn lengths_are_checked_where_a_size_is_known() {
    assert_eq!(check_content_length(0, Some(7)), Ok(()));
    assert_eq!(check_content_length(0, None), Ok(()));
    assert_eq!(check_content_length(7, Some(7)), Ok(()));
    assert_eq!(
        check_content_length(7, Some(8)),
        Err("文件大小不匹配: 预期7 实际8".to_string())
    );
    assert_eq!(check_content_length(7, None), Err("文件大小不匹配: 预期7 实际0".to_string()));
}

#[test]
fn pieces_grow_with_the_file() {
    assert_eq!(calculate_chunk_size(0), 0);
    assert_eq!(calculate_chunk_size(1), 1);
    assert_eq!(calculate_chunk_size(1_000_000), 1_000_000);
    assert_eq!(calculate_chunk_size(1_000_001), 1_000_000);
    assert_eq!(calculate_chunk_size(10_000_000), 1_000_000);
    assert_eq!(calculate_chunk_size(10_000_001), 5_000_000);
    assert_eq!(calculate_chunk_size(100_000_000), 5_000_000);
    assert_eq!(calculate_chunk_size(100_000_001), 10_000_000);
    assert_eq!(calculate_chunk_size(u64::MAX), 10_000_000);
}

#[test]
fn progress_counts_files_and_failures() {
    let mut progress = DownloadProgress::new(3);
    assert_eq!((progress.total, progress.success, progress.failed), (3, 0, 0));
    progress.count_check(&TargetState::Intact);
    progress.count_check(&TargetState::Absent);
    progress.count_check(&TargetState::Broken);
    progress.count_try(&TryOutcome::Intact);
    progress.count_try(&TryOutcome::Corrupt);
    progress.count_try(&TryOutcome::Unreadable("gone".to_string()));
    progress.count_try(&TryOutcome::Failed);
    assert_eq!((progress.total, progress.success, progress.failed), (3, 2, 1));
}

#[test]
fn sources_are_tried_in_order() {
    assert_eq!(tried(&["a", "b", "c"], false), texts(&["a", "b", "c"]));
    assert_eq!(tried(&["a", "b"], true), texts(&["a", "b"]));
    assert_eq!(tried(&["a"], false), texts(&["a"]));
    assert!(tried(&[], false).is_empty());
}

#[test]
fn tries_are_limited() {
    let used = tried(&["a", "b", "c", "d", "e", "f", "g"], false);
    assert_eq!(used, texts(&["a", "b", "c", "d", "e"]));
    assert_eq!(used.len(), MAX_RETRIES as usize);
}

#[test]
fn sources_that_are_alike_are_tried_again_from_the_first() {
    assert_eq!(tried(&["a", "a", "b"], false), texts(&["a", "b", "a"]));
}

#[test]
fn next_source_is_the_first_unused() {
    let urls = texts(&["a", "b"]);
    assert_eq!(choose_url(&urls, &Vec::new()), Some("a".to_string()));
    assert_eq!(choose_url(&urls, &texts(&["a"])), Some("b".to_string()));
    assert_eq!(choose_url(&urls, &texts(&["b"])), Some("a".to_string()));
    assert_eq!(choose_url(&urls, &texts(&["b", "a"])), Some("a".to_string()));
    assert_eq!(choose_url(&Vec::new(), &Vec::new()), None);
}

#[test]
fn intact_files_are_accepted() {
    let download = Download::new(texts(&["a"]));
    assert!(matches!(download.checked(TargetState::Intact), CheckDecision::Accept));
    let (preparation, discard) = to_prepare(Download::new(texts(&["a"])), TargetState::Broken);
    assert!(discard);
    match preparation.prepared(Ok(())) {
        PrepareDecision::Fetch { attempt } => {
            assert!(matches!(attempt.finished(TryOutcome::Intact), TryDecision::Accept));
        }
        _ => panic!("the file has to be loaded again"),
    }
    let (preparation, discard) = to_prepare(Download::new(Vec::new()), TargetState::Broken);
    assert!(discard);
    assert!(matches!(preparation.prepared(Ok(())), PrepareDecision::GiveUp));
}

#[test]
fn failures_of_the_file_system_end_a_download() {
    let urls = &["a", "b", "c"];
    let (preparation, _) = to_prepare(Download::new(texts(urls)), TargetState::Broken);
    match preparation.prepared(Err("locked".to_string())) {
        PrepareDecision::Fail { message } => assert_eq!(message, "locked"),
        _ => panic!("the place is not ready"),
    }
    let attempt = to_fetch(Download::new(texts(urls))).unwrap();
    match attempt.finished(TryOutcome::Unreadable("gone".to_string())) {
        TryDecision::Fail { message } => assert_eq!(message, "gone"),
        _ => panic!("the file cannot be read"),
    }
    let attempt = to_fetch(Download::new(texts(urls))).unwrap();
    match attempt.finished(TryOutcome::Corrupt) {
        TryDecision::Remove { removal } => match removal.removed(Err("locked".to_string())) {
            TryDecision::Fail { message } => assert_eq!(message, "locked"),
            _ => panic!("the file cannot be removed"),
        },
        _ => panic!("the file has to be removed"),
    }
}

#[test]
fn exhausted_sources_are_reported() {
    assert_eq!(exhausted_message("/mc/a.jar"), "文件 /mc/a.jar 下载失败，已尝试所有源");
}

#[test]
fn processors_have_suffixes() {
    assert_eq!(current_arch_suffix("x86_64"), "");
    assert_eq!(current_arch_suffix("aarch64"), "-arm64");
    assert_eq!(current_arch_suffix("x86"), "-x86");
    assert_eq!(current_arch_suffix("arm"), "-arm");
    assert_eq!(current_arch_suffix("riscv64"), "-unknown");
}

#[test]
fn file_names_match_processors() {
    assert!(match_arch_suffix("org/lwjgl-natives-windows.jar", "x86_64"));
    assert!(!match_arch_suffix("org/lwjgl-natives-windows-arm64.jar", "x86_64"));
    assert!(!match_arch_suffix("org/lwjgl-natives-windows-x86.jar", "x86_64"));
    assert!(!match_arch_suffix("org/lwjgl-natives-arm.jar", "x86_64"));
    assert!(match_arch_suffix("dir-x86/lwjgl-natives-windows.jar", "x86_64"));
    assert!(match_arch_suffix("org/lwjgl-natives-windows-arm64.jar", "aarch64"));
    assert!(!match_arch_suffix("org/lwjgl-natives-windows.jar", "aarch64"));
    assert!(match_arch_suffix("a-x86.jar", "x86"));
    assert!(!match_arch_suffix("a.jar", "riscv64"));
    assert!(match_arch_suffix("", "x86_64"));
    assert!(!match_arch_suffix("a-arm.jar", "x86_64"));
    assert!(!match_arch_suffix("some/where/a-arm.jar", "x86_64"));
}

#[test]
fn systems_have_library_endings() {
    assert_eq!(get_native_suffix("windows"), Some(".dll".to_string()));
    assert_eq!(get_native_suffix("osx"), Some(".dylib".to_string()));
    assert_eq!(get_native_suffix("linux"), Some(".so".to_string()));
    assert_eq!(get_native_suffix("solaris"), None);
}

#[test]
fn entries_are_unpacked_by_their_ending() {
    assert_eq!(judged("linux/x64/liblwjgl.so", false, true), Some("liblwjgl.so".to_string()));
    assert_eq!(judged("META-INF/x.MF", false, true), None);
    assert_eq!(judged("linux/x64/liblwjgl.so", true, false), None);
    assert_eq!(judged("linux/x64/liblwjgl.so", false, false), None);
    assert_eq!(judged("doc/Tracy_LICENSE", false, true), Some("Tracy_LICENSE".to_string()));
    assert_eq!(judged("a/..", false, true), None);
    assert_eq!(judged("a/b.so/..", false, true), None);
    assert_eq!(judged("a//b.so/./", false, true), Some("b.so".to_string()));
    assert_eq!(unpack_as(None, ".so"), None);
    assert_eq!(unpack_as(None, ""), Some(String::new()));
}

#[test]
fn readable_entries_are_unpacked_in_order() {
    let names = [Some("x/a.so"), None, Some("b.txt"), Some("Tracy_LICENSE"), Some("y/c.so")];
    let mut unpacked = Vec::new();
    let mut step = after_archive(Ok(names.len()));
    loop {
        step = match step {
            JarStep::Read(at) => {
                let entry = match names[at] {
                    None => ListedEntry::Unreadable,
                    Some(name) => {
                        ListedEntry::Named { name: name.to_string(), is_dir: false, is_file: true }
                    }
                };
                after_listed(entry, at, names.len(), ".so")
            }
            JarStep::Unpack(at, name) => {
                unpacked.push(name);
                after_written(Ok(()), at, names.len())
            }
            JarStep::Finished => break,
            JarStep::Failed(message) => panic!("{}", message),
        };
    }
    assert_eq!(unpacked, texts(&["a.so", "Tracy_LICENSE", "c.so"]));
}

#[test]
fn archives_that_fail_are_given_up() {
    match after_archive(Err("no archive".to_string())) {
        JarStep::Failed(message) => assert_eq!(message, "no archive"),
        _ => panic!("the archive was not opened"),
    }
    match after_written(Err("full".to_string()), 0, 3) {
        JarStep::Failed(message) => assert_eq!(message, "full"),
        _ => panic!("the entry was not written"),
    }
    assert!(matches!(after_archive(Ok(0)), JarStep::Finished));
    assert!(matches!(after_seen(SeenEntry::Unreadable, 0, 2, ".so"), JarStep::Read(1)));
    let unnamed = SeenEntry::Readable { file_name: None, is_dir: false, is_file: true };
    assert!(matches!(after_seen(unnamed, 1, 2, ".so"), JarStep::Finished));
}

#[test]
fn version_addresses_are_found() {
    let manifest = VersionManifest {
        versions: vec![
            VersionEntry { id: "1.204".to_string(), url: "resembling".to_string() },
            VersionEntry { id: "1.20.4".to_string(), url: "exact".to_string() },
        ],
    };
    assert_eq!(find_version_url(&manifest, "1.20.4"), "exact");
    assert_eq!(find_version_url(&manifest, "1204"), "resembling");
    assert_eq!(find_version_url(&manifest, "1.19"), "https://bmclapi2.bangbang93.com/1.19/json");
    assert_eq!(
        fetch_version_url("1.20.4", &ManifestReply::Listed(manifest)),
        Ok("exact".to_string())
    );
}

#[test]
fn version_addresses_fall_back_on_the_mirror() {
    assert_eq!(
        fetch_version_url("1.20.4", &ManifestReply::Unavailable),
        Ok("https://bmclapi2.bangbang93.com/1.20.4/json".to_string())
    );
    assert_eq!(
        fetch_version_url("1.20.4", &ManifestReply::Unparsable),
        Err("Failed to parse version manifest".to_string())
    );
}
