//! What a plan holds for each file of a version.
use crate::download::{arch_suffix_matches, DownloadTaskView};
use crate::launcher::version_jar_parts;
use crate::plan::{
    assets_have_prefixes, client_task, download_plan, extends, hash_prefix, lemma_assets,
    lemma_libraries, lemma_library, lemma_natives, library_server, native_classifiers, rules_allow,
    version_plan, with_artifact, with_libraries, with_library, with_native, with_natives, Artifact,
    AssetObject, Library, PlanView, Rule, Setting, VersionJson,
};
use crate::text::contains;
use vstd::prelude::*;

verus! {

// ---------------------------------------------------------------------------------------------
// Rules and servers
// ---------------------------------------------------------------------------------------------

/// The last rule that allows or disallows decides, by what it says of the system: a rule without a
/// system speaks of all, any other of the one that it names.
pub proof fn law_rules_name_systems(earlier: Seq<Rule>, rule: Rule, os_type: Seq<char>)
    ensures
        ({
            let covered = rule.os is None || (rule.os->0.name is Some && rule.os->0.name->0@
                == os_type);
            let answer = rules_allow(earlier.push(rule), os_type);
            &&& rule.action@ == "allow"@ ==> answer == covered
            &&& rule.action@ == "disallow"@ ==> answer == !covered
            &&& rule.action@ != "allow"@ && rule.action@ != "disallow"@ ==> answer == rules_allow(
                earlier,
                os_type,
            )
            &&& rules_allow(Seq::empty(), os_type)
        }),
{
    assert(earlier.push(rule).drop_last() =~= earlier);
    reveal_strlit("allow");
    reveal_strlit("disallow");
    assert("allow"@.len() != "disallow"@.len());
}

/// Libraries come from the official server just where the description of the version does.
pub proof fn law_libraries_come_from_the_server_of_the_version(json_url: Seq<char>)
    ensures
        contains(json_url, "mojang.com"@) ==> library_server(json_url)
            == "https://libraries.minecraft.net"@,
        !contains(json_url, "mojang.com"@) ==> library_server(json_url)
            == "https://bmclapi2.bangbang93.com/maven"@,
{
}

/// The classifiers under which libraries keep native files for a system.
pub open spec fn is_native_key(key: Seq<char>, os_type: Seq<char>) -> bool {
    ||| os_type == "windows"@ && key == "natives-windows"@
    ||| os_type == "windows"@ && key == "natives-windows-64"@
    ||| os_type == "osx"@ && key == "natives-osx"@
    ||| os_type == "linux"@ && key == "natives-linux"@
}

/// The keys that a plan looks under are those of the system.
proof fn lemma_native_keys(os_type: Seq<char>, key: Seq<char>)
    ensures
        native_classifiers(os_type).contains(key) <==> is_native_key(key, os_type),
{
    let keys = native_classifiers(os_type);
    reveal_strlit("windows");
    reveal_strlit("osx");
    reveal_strlit("linux");
    assert("windows"@.len() != "osx"@.len() && "windows"@.len() != "linux"@.len()
        && "osx"@.len() != "linux"@.len());
    if is_native_key(key, os_type) {
        if key == "natives-windows-64"@ && os_type == "windows"@ {
            assert(keys[1] == key);
        } else {
            assert(keys[0] == key);
        }
    }
}

// ---------------------------------------------------------------------------------------------
// Libraries
// ---------------------------------------------------------------------------------------------

/// The download of a file of a library: from the server, else from the mirror, to its place in the
/// libraries directory.
pub open spec fn library_download(artifact: Artifact, setting: Setting) -> DownloadTaskView {
    let path = artifact.path@;
    DownloadTaskView {
        urls: seq![
            setting.server + "/"@ + path,
            "https://bmclapi2.bangbang93.com/maven/"@ + path,
        ],
        target_path: seq![setting.root, "libraries"@, path],
        sha1: artifact.sha1@,
        size: artifact.size,
    }
}

/// What a plan holds stays in it when it is extended.
proof fn lemma_kept(later: PlanView, earlier: PlanView)
    requires
        extends(later, earlier),
    ensures
        forall|task: DownloadTaskView| #[trigger]
            earlier.tasks.contains(task) ==> later.tasks.contains(task),
        forall|jar: Seq<Seq<char>>| #[trigger]
            earlier.native_jars.contains(jar) ==> later.native_jars.contains(jar),
{
    assert forall|task: DownloadTaskView| #[trigger] earlier.tasks.contains(
        task,
    ) implies later.tasks.contains(task) by {
        let i = choose|i: int| 0 <= i < earlier.tasks.len() && earlier.tasks[i] == task;
        assert(later.tasks.subrange(0, earlier.tasks.len() as int)[i] == later.tasks[i]);
    }
    assert forall|jar: Seq<Seq<char>>| #[trigger] earlier.native_jars.contains(
        jar,
    ) implies later.native_jars.contains(jar) by {
        let i = choose|i: int| 0 <= i < earlier.native_jars.len() && earlier.native_jars[i] == jar;
        assert(later.native_jars.subrange(0, earlier.native_jars.len() as int)[i]
            == later.native_jars[i]);
    }
}

/// Extending a plan twice extends it.
proof fn lemma_extends_twice(last: PlanView, middle: PlanView, first: PlanView)
    requires
        extends(last, middle),
        extends(middle, first),
    ensures
        extends(last, first),
{
    assert(last.tasks.subrange(0, first.tasks.len() as int) =~= middle.tasks.subrange(
        0,
        first.tasks.len() as int,
    ));
    assert(last.native_jars.subrange(0, first.native_jars.len() as int)
        =~= middle.native_jars.subrange(0, first.native_jars.len() as int));
}

/// A plan with libraries extends what it was once one of them was added.
proof fn lemma_library_is_reached(plan: PlanView, libraries: Seq<Library>, i: int, setting: Setting)
    requires
        0 <= i < libraries.len(),
    ensures
        extends(
            with_libraries(plan, libraries, setting),
            with_library(
                with_libraries(plan, libraries.take(i), setting),
                libraries[i],
                setting,
            ),
        ),
    decreases libraries.len(),
{
    let front = libraries.drop_last();
    if i == libraries.len() - 1 {
        assert(libraries.take(i) =~= front);
    } else {
        lemma_library_is_reached(plan, front, i, setting);
        assert(front.take(i) =~= libraries.take(i));
        lemma_library(with_libraries(plan, front, setting), libraries.last(), setting);
        lemma_extends_twice(
            with_libraries(plan, libraries, setting),
            with_libraries(plan, front, setting),
            with_library(
                with_libraries(plan, libraries.take(i), setting),
                libraries[i],
                setting,
            ),
        );
    }
}

/// What a plan was once the library at `i` was added is part of the whole plan.
proof fn lemma_library_is_planned(
    json: VersionJson,
    assets: Seq<AssetObject>,
    setting: Setting,
    i: int,
)
    requires
        0 <= i < json.libraries@.len(),
    ensures
        extends(
            download_plan(json, assets, setting),
            with_library(
                with_libraries(version_plan(json, setting), json.libraries@.take(i), setting),
                json.libraries@[i],
                setting,
            ),
        ),
{
    let start = version_plan(json, setting);
    let middle = with_libraries(start, json.libraries@, setting);
    lemma_library_is_reached(start, json.libraries@, i, setting);
    lemma_assets(middle, assets, setting);
    assert(extends(download_plan(json, assets, setting), middle));
    lemma_extends_twice(
        download_plan(json, assets, setting),
        middle,
        with_library(
            with_libraries(start, json.libraries@.take(i), setting),
            json.libraries@[i],
            setting,
        ),
    );
}

/// A native file under one of the keys is planned.
proof fn lemma_native_is_planned(
    plan: PlanView,
    classifiers: Map<Seq<char>, Artifact>,
    keys: Seq<Seq<char>>,
    key: Seq<char>,
    setting: Setting,
)
    requires
        keys.contains(key),
        classifiers.contains_key(key),
    ensures
        ({
            let later = with_natives(plan, classifiers, keys, setting);
            let artifact = classifiers[key];
            &&& later.native_jars.contains(seq![setting.root, "libraries"@, artifact.path@])
            &&& arch_suffix_matches(artifact.path@, setting.arch) ==> later.tasks.contains(
                library_download(artifact, setting),
            )
        }),
    decreases keys.len(),
{
    let later = with_natives(plan, classifiers, keys, setting);
    let front = keys.drop_last();
    let middle = with_natives(plan, classifiers, front, setting);
    let artifact = classifiers[key];
    if keys.last() == key {
        let jar = seq![setting.root, "libraries"@, artifact.path@];
        assert(later.native_jars[middle.native_jars.len() as int] == jar);
        if arch_suffix_matches(artifact.path@, setting.arch) {
            assert(later.tasks[middle.tasks.len() as int] == library_download(artifact, setting));
        }
    } else {
        let i = choose|i: int| 0 <= i < keys.len() && keys[i] == key;
        assert(front[i] == key);
        lemma_native_is_planned(plan, classifiers, front, key, setting);
        if classifiers.contains_key(keys.last()) {
            assert(extends(later, middle));
        }
        lemma_kept(later, middle);
    }
}

/// Each native file that an allowed library keeps for the system is unpacked, and downloaded where
/// its name is one for the processor, whatever else the library has.
pub proof fn law_native_files_are_planned(
    json: VersionJson,
    assets: Seq<AssetObject>,
    setting: Setting,
    i: int,
    key: Seq<char>,
)
    requires
        0 <= i < json.libraries@.len(),
        rules_allow(json.libraries@[i].rules@, setting.os_type),
        (setting.os_type == "windows"@ && (key == "natives-windows"@ || key
            == "natives-windows-64"@)) || (setting.os_type == "osx"@ && key == "natives-osx"@) || (
        setting.os_type == "linux"@ && key == "natives-linux"@),
        json.libraries@[i].downloads.classifiers@.contains_key(key),
    ensures
        ({
            let plan = download_plan(json, assets, setting);
            let artifact = json.libraries@[i].downloads.classifiers@[key];
            &&& plan.native_jars.contains(seq![setting.root, "libraries"@, artifact.path@])
            &&& arch_suffix_matches(artifact.path@, setting.arch) ==> plan.tasks.contains(
                (DownloadTaskView {
                    urls: seq![
                        setting.server + "/"@ + artifact.path@,
                        "https://bmclapi2.bangbang93.com/maven/"@ + artifact.path@,
                    ],
                    target_path: seq![setting.root, "libraries"@, artifact.path@],
                    sha1: artifact.sha1@,
                    size: artifact.size,
                }),
            )
        }),
{
    let library = json.libraries@[i];
    let before = with_libraries(
        version_plan(json, setting),
        json.libraries@.take(i),
        setting,
    );
    let own = match library.downloads.artifact {
        None => before,
        Some(artifact) => with_artifact(before, artifact, setting),
    };
    lemma_native_keys(setting.os_type, key);
    lemma_native_is_planned(
        own,
        library.downloads.classifiers@,
        native_classifiers(setting.os_type),
        key,
        setting,
    );
    lemma_library_is_planned(json, assets, setting, i);
    lemma_kept(download_plan(json, assets, setting), with_library(before, library, setting));
}

/// The own file of each allowed library is downloaded, and unpacked too where its path names
/// natives.
pub proof fn law_library_files_are_planned(
    json: VersionJson,
    assets: Seq<AssetObject>,
    setting: Setting,
    i: int,
)
    requires
        0 <= i < json.libraries@.len(),
        rules_allow(json.libraries@[i].rules@, setting.os_type),
        json.libraries@[i].downloads.artifact is Some,
    ensures
        ({
            let plan = download_plan(json, assets, setting);
            let artifact = json.libraries@[i].downloads.artifact->0;
            &&& plan.tasks.contains((DownloadTaskView {
                    urls: seq![
                        setting.server + "/"@ + artifact.path@,
                        "https://bmclapi2.bangbang93.com/maven/"@ + artifact.path@,
                    ],
                    target_path: seq![setting.root, "libraries"@, artifact.path@],
                    sha1: artifact.sha1@,
                    size: artifact.size,
                }))
            &&& contains(artifact.path@, "-natives-"@) ==> plan.native_jars.contains(
                seq![setting.root, "libraries"@, artifact.path@],
            )
        }),
{
    let library = json.libraries@[i];
    let artifact = library.downloads.artifact->0;
    let before = with_libraries(
        version_plan(json, setting),
        json.libraries@.take(i),
        setting,
    );
    let own = with_artifact(before, artifact, setting);
    let after = with_library(before, library, setting);
    assert(own.tasks[before.tasks.len() as int] == library_download(artifact, setting));
    if contains(artifact.path@, "-natives-"@) {
        assert(own.native_jars[before.native_jars.len() as int] == seq![
            setting.root,
            "libraries"@,
            artifact.path@,
        ]);
    }
    lemma_natives(
        own,
        library.downloads.classifiers@,
        native_classifiers(setting.os_type),
        setting,
    );
    lemma_kept(after, own);
    lemma_library_is_planned(json, assets, setting, i);
    lemma_kept(download_plan(json, assets, setting), after);
}

/// A library of the list gives a reason for a download: it is allowed, and the file is its own or
/// a native one for the system and the processor.
pub open spec fn is_called_for(
    task: DownloadTaskView,
    libraries: Seq<Library>,
    setting: Setting,
    i: int,
    artifact: Artifact,
    key: Seq<char>,
) -> bool {
    &&& 0 <= i < libraries.len()
    &&& rules_allow(libraries[i].rules@, setting.os_type)
    &&& task == library_download(artifact, setting)
    &&& {
        ||| libraries[i].downloads.artifact == Some(artifact)
        ||| {
            &&& is_native_key(key, setting.os_type)
            &&& libraries[i].downloads.classifiers@.contains_key(key)
            &&& libraries[i].downloads.classifiers@[key] == artifact
            &&& arch_suffix_matches(artifact.path@, setting.arch)
        }
    }
}

/// A library of the list gives a reason for unpacking an archive: it is allowed, and the archive is
/// its own file, by its name one with natives, or a native file for the system.
pub open spec fn is_native_jar(
    jar: Seq<Seq<char>>,
    libraries: Seq<Library>,
    setting: Setting,
    i: int,
    artifact: Artifact,
    key: Seq<char>,
) -> bool {
    &&& 0 <= i < libraries.len()
    &&& rules_allow(libraries[i].rules@, setting.os_type)
    &&& jar == seq![setting.root, "libraries"@, artifact.path@]
    &&& {
        ||| libraries[i].downloads.artifact == Some(artifact) && contains(
            artifact.path@,
            "-natives-"@,
        )
        ||| {
            &&& is_native_key(key, setting.os_type)
            &&& libraries[i].downloads.classifiers@.contains_key(key)
            &&& libraries[i].downloads.classifiers@[key] == artifact
        }
    }
}

/// Some library of the list gives a reason for a download.
pub open spec fn is_library_download(
    task: DownloadTaskView,
    libraries: Seq<Library>,
    setting: Setting,
) -> bool {
    exists|i: int, artifact: Artifact, key: Seq<char>|
        is_called_for(task, libraries, setting, i, artifact, key)
}

/// Some library of the list gives a reason for unpacking an archive.
pub open spec fn is_library_jar(
    jar: Seq<Seq<char>>,
    libraries: Seq<Library>,
    setting: Setting,
) -> bool {
    exists|i: int, artifact: Artifact, key: Seq<char>|
        is_native_jar(jar, libraries, setting, i, artifact, key)
}

/// The native files that a library adds have a reason.
proof fn lemma_natives_have_reasons(
    plan: PlanView,
    library: Library,
    keys: Seq<Seq<char>>,
    setting: Setting,
)
    requires
        rules_allow(library.rules@, setting.os_type),
        forall|k: int| 0 <= k < keys.len() ==> is_native_key(#[trigger] keys[k], setting.os_type),
    ensures
        ({
            let later = with_natives(plan, library.downloads.classifiers@, keys, setting);
            &&& forall|t: int|
                0 <= t < later.tasks.len() ==> plan.tasks.contains(#[trigger] later.tasks[t])
                    || is_library_download(later.tasks[t], seq![library], setting)
            &&& forall|j: int|
                0 <= j < later.native_jars.len() ==> plan.native_jars.contains(
                    #[trigger] later.native_jars[j],
                ) || is_library_jar(later.native_jars[j], seq![library], setting)
        }),
    decreases keys.len(),
{
    let classifiers = library.downloads.classifiers@;
    let later = with_natives(plan, classifiers, keys, setting);
    if keys.len() > 0 {
        let front = keys.drop_last();
        let key = keys.last();
        assert(is_native_key(keys[keys.len() - 1], setting.os_type));
        assert forall|k: int| 0 <= k < front.len() implies is_native_key(
            #[trigger] front[k],
            setting.os_type,
        ) by {
            assert(front[k] == keys[k]);
        }
        lemma_natives_have_reasons(plan, library, front, setting);
        let middle = with_natives(plan, classifiers, front, setting);
        if classifiers.contains_key(key) {
            let artifact = classifiers[key];
            assert forall|t: int| 0 <= t < later.tasks.len() implies plan.tasks.contains(
                #[trigger] later.tasks[t],
            ) || is_library_download(later.tasks[t], seq![library], setting) by {
                if t < middle.tasks.len() {
                    assert(later.tasks[t] == middle.tasks[t]);
                } else {
                    assert(is_called_for(later.tasks[t], seq![library], setting, 0, artifact, key));
                }
            }
            assert forall|j: int| 0 <= j < later.native_jars.len() implies plan.native_jars.contains(
                #[trigger] later.native_jars[j],
            ) || is_library_jar(later.native_jars[j], seq![library], setting) by {
                if j < middle.native_jars.len() {
                    assert(later.native_jars[j] == middle.native_jars[j]);
                } else {
                    assert(is_native_jar(
                        later.native_jars[j],
                        seq![library],
                        setting,
                        0,
                        artifact,
                        key,
                    ));
                }
            }
        }
    } else {
        assert forall|t: int| 0 <= t < later.tasks.len() implies plan.tasks.contains(
            #[trigger] later.tasks[t],
        ) by {
            assert(plan.tasks[t] == later.tasks[t]);
        }
        assert forall|j: int| 0 <= j < later.native_jars.len() implies plan.native_jars.contains(
            #[trigger] later.native_jars[j],
        ) by {
            assert(plan.native_jars[j] == later.native_jars[j]);
        }
    }
}

/// What one library adds to a plan has a reason.
proof fn lemma_library_has_reasons(plan: PlanView, library: Library, setting: Setting)
    ensures
        ({
            let later = with_library(plan, library, setting);
            &&& forall|t: int|
                0 <= t < later.tasks.len() ==> plan.tasks.contains(#[trigger] later.tasks[t])
                    || is_library_download(later.tasks[t], seq![library], setting)
            &&& forall|j: int|
                0 <= j < later.native_jars.len() ==> plan.native_jars.contains(
                    #[trigger] later.native_jars[j],
                ) || is_library_jar(later.native_jars[j], seq![library], setting)
        }),
{
    let later = with_library(plan, library, setting);
    if rules_allow(library.rules@, setting.os_type) {
        let own = match library.downloads.artifact {
            None => plan,
            Some(artifact) => with_artifact(plan, artifact, setting),
        };
        let keys = native_classifiers(setting.os_type);
        assert forall|k: int| 0 <= k < keys.len() implies is_native_key(
            #[trigger] keys[k],
            setting.os_type,
        ) by {
            lemma_native_keys(setting.os_type, keys[k]);
            assert(keys.contains(keys[k]));
        }
        lemma_natives_have_reasons(own, library, keys, setting);
        assert forall|task: DownloadTaskView| #[trigger] own.tasks.contains(
            task,
        ) implies plan.tasks.contains(task) || is_library_download(
            task,
            seq![library],
            setting,
        ) by {
            let t = choose|t: int| 0 <= t < own.tasks.len() && own.tasks[t] == task;
            if t < plan.tasks.len() {
                assert(plan.tasks[t] == task);
            } else {
                let artifact = library.downloads.artifact->0;
                assert(is_called_for(task, seq![library], setting, 0, artifact, Seq::empty()));
            }
        }
        assert forall|jar: Seq<Seq<char>>| #[trigger] own.native_jars.contains(
            jar,
        ) implies plan.native_jars.contains(jar) || is_library_jar(
            jar,
            seq![library],
            setting,
        ) by {
            let j = choose|j: int| 0 <= j < own.native_jars.len() && own.native_jars[j] == jar;
            if j < plan.native_jars.len() {
                assert(plan.native_jars[j] == jar);
            } else {
                let artifact = library.downloads.artifact->0;
                assert(is_native_jar(jar, seq![library], setting, 0, artifact, Seq::empty()));
            }
        }
    } else {
        assert forall|t: int| 0 <= t < later.tasks.len() implies plan.tasks.contains(
            #[trigger] later.tasks[t],
        ) by {
            assert(plan.tasks[t] == later.tasks[t]);
        }
        assert forall|j: int| 0 <= j < later.native_jars.len() implies plan.native_jars.contains(
            #[trigger] later.native_jars[j],
        ) by {
            assert(plan.native_jars[j] == later.native_jars[j]);
        }
    }
}

/// Nothing comes into a plan with libraries but what one of them gives a reason for: each download
/// is of the own file of an allowed library, or of a native file that it keeps for the system and
/// whose name is one for the processor, and each archive that is unpacked is such a file.
pub proof fn law_libraries_add_nothing_else(
    plan: PlanView,
    libraries: Seq<Library>,
    setting: Setting,
)
    ensures
        ({
            let later = with_libraries(plan, libraries, setting);
            &&& forall|t: int|
                0 <= t < later.tasks.len() ==> plan.tasks.contains(#[trigger] later.tasks[t])
                    || is_library_download(later.tasks[t], libraries, setting)
            &&& forall|j: int|
                0 <= j < later.native_jars.len() ==> plan.native_jars.contains(
                    #[trigger] later.native_jars[j],
                ) || is_library_jar(later.native_jars[j], libraries, setting)
        }),
    decreases libraries.len(),
{
    let later = with_libraries(plan, libraries, setting);
    if libraries.len() > 0 {
        let front = libraries.drop_last();
        let last = libraries.last();
        let middle = with_libraries(plan, front, setting);
        law_libraries_add_nothing_else(plan, front, setting);
        lemma_library_has_reasons(middle, last, setting);
        assert forall|t: int| 0 <= t < later.tasks.len() implies plan.tasks.contains(
            #[trigger] later.tasks[t],
        ) || is_library_download(later.tasks[t], libraries, setting) by {
            let task = later.tasks[t];
            if middle.tasks.contains(task) {
                let m = choose|m: int| 0 <= m < middle.tasks.len() && middle.tasks[m] == task;
                assert(plan.tasks.contains(middle.tasks[m]) || is_library_download(
                    middle.tasks[m],
                    front,
                    setting,
                ));
                if is_library_download(task, front, setting) {
                    let (i, artifact, key) = choose|i: int, artifact: Artifact, key: Seq<char>|
                        is_called_for(task, front, setting, i, artifact, key);
                    assert(front[i] == libraries[i]);
                    assert(is_called_for(task, libraries, setting, i, artifact, key));
                }
            } else {
                let (i, artifact, key) = choose|i: int, artifact: Artifact, key: Seq<char>|
                    is_called_for(task, seq![last], setting, i, artifact, key);
                assert(is_called_for(
                    task,
                    libraries,
                    setting,
                    libraries.len() - 1,
                    artifact,
                    key,
                ));
            }
        }
        assert forall|j: int| 0 <= j < later.native_jars.len() implies plan.native_jars.contains(
            #[trigger] later.native_jars[j],
        ) || is_library_jar(later.native_jars[j], libraries, setting) by {
            let jar = later.native_jars[j];
            if middle.native_jars.contains(jar) {
                let m = choose|m: int|
                    0 <= m < middle.native_jars.len() && middle.native_jars[m] == jar;
                assert(plan.native_jars.contains(middle.native_jars[m]) || is_library_jar(
                    middle.native_jars[m],
                    front,
                    setting,
                ));
                if is_library_jar(jar, front, setting) {
                    let (i, artifact, key) = choose|i: int, artifact: Artifact, key: Seq<char>|
                        is_native_jar(jar, front, setting, i, artifact, key);
                    assert(front[i] == libraries[i]);
                    assert(is_native_jar(jar, libraries, setting, i, artifact, key));
                }
            } else {
                let (i, artifact, key) = choose|i: int, artifact: Artifact, key: Seq<char>|
                    is_native_jar(jar, seq![last], setting, i, artifact, key);
                assert(is_native_jar(
                    jar,
                    libraries,
                    setting,
                    libraries.len() - 1,
                    artifact,
                    key,
                ));
            }
        }
    } else {
        assert forall|t: int| 0 <= t < later.tasks.len() implies plan.tasks.contains(
            #[trigger] later.tasks[t],
        ) by {
            assert(plan.tasks[t] == later.tasks[t]);
        }
        assert forall|j: int| 0 <= j < later.native_jars.len() implies plan.native_jars.contains(
            #[trigger] later.native_jars[j],
        ) by {
            assert(plan.native_jars[j] == later.native_jars[j]);
        }
    }
}

// ---------------------------------------------------------------------------------------------
// The version's own files and its assets
// ---------------------------------------------------------------------------------------------

/// A plan begins with the archive of the version, from where its description says, else from the
/// mirror; then comes the logging configuration, where there is one. Nothing else comes before the
/// libraries, and no archive is unpacked for it.
pub proof fn law_plans_begin_with_the_version(
    json: VersionJson,
    assets: Seq<AssetObject>,
    setting: Setting,
)
    ensures
        ({
            let own = version_plan(json, setting);
            let plan = download_plan(json, assets, setting);
            let client = json.downloads.client;
            &&& own.tasks.len() == if json.logging is Some {
                2int
            } else {
                1int
            }
            &&& own.native_jars.len() == 0
            &&& own.tasks.len() <= plan.tasks.len()
            &&& forall|t: int| 0 <= t < own.tasks.len() ==> #[trigger] plan.tasks[t] == own.tasks[t]
            &&& plan.tasks[0] == (DownloadTaskView {
                urls: seq![
                    client.url@,
                    "https://bmclapi2.bangbang93.com"@ + "/"@ + setting.version + "/client"@,
                ],
                target_path: seq![
                    setting.root,
                    "versions"@,
                    setting.version,
                    setting.version + ".jar"@,
                ],
                sha1: client.sha1@,
                size: client.size,
            })
            &&& json.logging matches Some(logging) ==> plan.tasks[1] == (DownloadTaskView {
                urls: seq![logging.client.file.url@],
                target_path: seq![setting.root, "versions"@, setting.version, "log_config.xml"@],
                sha1: logging.client.file.sha1@,
                size: 0,
            })
        }),
{
    let own = version_plan(json, setting);
    let middle = with_libraries(own, json.libraries@, setting);
    let plan = download_plan(json, assets, setting);
    lemma_libraries(own, json.libraries@, setting);
    lemma_assets(middle, assets, setting);
    assert forall|t: int| 0 <= t < own.tasks.len() implies #[trigger] plan.tasks[t]
        == own.tasks[t] by {
        assert(middle.tasks.subrange(0, own.tasks.len() as int)[t] == middle.tasks[t]);
    }
    assert(own.tasks[0] == client_task(json.downloads.client, setting));
    let directory = seq![setting.root, "versions"@, setting.version];
    assert(version_jar_parts(setting.root, setting.version) =~= seq![
        setting.root,
        "versions"@,
        setting.version,
        setting.version + ".jar"@,
    ]);
    assert(directory.push("log_config.xml"@) =~= seq![
        setting.root,
        "versions"@,
        setting.version,
        "log_config.xml"@,
    ]);
}

/// A plan ends with one download for each asset, in their order: from the official server, else
/// from the mirror, to the directory of the first two characters of its digest.
pub proof fn law_plans_end_with_the_assets(
    json: VersionJson,
    assets: Seq<AssetObject>,
    setting: Setting,
    a: int,
)
    requires
        0 <= a < assets.len(),
        assets[a].hash@.len() >= 2,
        (assets[a].hash@[0]) as int <= 127,
        (assets[a].hash@[1]) as int <= 127,
    ensures
        ({
            let plan = download_plan(json, assets, setting);
            let hash = assets[a].hash@;
            let prefix = seq![hash[0], hash[1]];
            let at = plan.tasks.len() - assets.len() + a;
            &&& 0 <= at < plan.tasks.len()
            &&& plan.tasks[at] == (DownloadTaskView {
                urls: seq![
                    "https://resources.download.minecraft.net/"@ + prefix + "/"@ + hash,
                    "https://bmclapi2.bangbang93.com"@ + "/assets/"@ + prefix + "/"@ + hash,
                ],
                target_path: seq![setting.root, "assets"@, "objects"@, prefix, hash],
                sha1: hash,
                size: 0,
            })
        }),
{
    let middle = with_libraries(version_plan(json, setting), json.libraries@, setting);
    let hash = assets[a].hash@;
    lemma_assets(middle, assets, setting);
    assert(hash.take(2) =~= seq![hash[0], hash[1]]);
}

/// The first two bytes of a digest are two ASCII characters, or one character of two bytes; there
/// are none where the digest is shorter or a character does not end there.
pub proof fn law_prefixes_are_two_bytes(hash: Seq<char>)
    ensures
        hash.len() == 0 ==> hash_prefix(hash) is None,
        hash.len() == 1 && (hash[0] as int) < 128 ==> hash_prefix(hash) is None,
        hash.len() >= 2 && (hash[0] as int) < 128 && (hash[1] as int) < 128 ==> hash_prefix(hash)
            == Some(seq![hash[0], hash[1]]),
        hash.len() >= 2 && (hash[0] as int) < 128 && (hash[1] as int) >= 128 ==> hash_prefix(hash)
            is None,
        hash.len() >= 1 && 128 <= (hash[0] as int) < 2048 ==> hash_prefix(hash) == Some(
            seq![hash[0]],
        ),
        hash.len() >= 1 && (hash[0] as int) >= 2048 ==> hash_prefix(hash) is None,
{
    if hash.len() >= 1 {
        assert(hash.take(1) =~= seq![hash[0]]);
    }
    if hash.len() >= 2 {
        assert(hash.take(2) =~= seq![hash[0], hash[1]]);
    }
}

/// Assets can be planned just where the digest of each has a first two bytes.
pub proof fn law_all_assets_need_prefixes(assets: Seq<AssetObject>)
    ensures
        assets_have_prefixes(assets) <==> forall|i: int|
            0 <= i < assets.len() ==> hash_prefix((#[trigger] assets[i]).hash@) is Some,
{
}

/// Libraries are planned one after the other.
pub proof fn law_libraries_are_planned_in_order(
    plan: PlanView,
    first: Seq<Library>,
    second: Seq<Library>,
    setting: Setting,
)
    ensures
        with_libraries(plan, first + second, setting) == with_libraries(
            with_libraries(plan, first, setting),
            second,
            setting,
        ),
    decreases second.len(),
{
    let all = first + second;
    if second.len() == 0 {
        assert(all =~= first);
    } else {
        law_libraries_are_planned_in_order(plan, first, second.drop_last(), setting);
        assert(all.drop_last() =~= first + second.drop_last());
        assert(all.last() == second.last());
    }
}

/// A library adds one download for its own file and one for each native file for the system and the
/// processor, and one archive for each native file for the system and for its own file where that
/// names natives; all of them behind what was planned before.
pub proof fn law_libraries_add_each_file_once(plan: PlanView, library: Library, setting: Setting)
    ensures
        ({
            let later = with_libraries(plan, seq![library], setting);
            let classifiers = library.downloads.classifiers@;
            let kept = |key: Seq<char>|
                if classifiers.contains_key(key) {
                    1int
                } else {
                    0int
                };
            let loaded = |key: Seq<char>|
                if classifiers.contains_key(key) && arch_suffix_matches(
                    classifiers[key].path@,
                    setting.arch,
                ) {
                    1int
                } else {
                    0int
                };
            let own = if library.downloads.artifact is Some {
                1int
            } else {
                0int
            };
            let own_jar = if library.downloads.artifact is Some && contains(
                library.downloads.artifact->0.path@,
                "-natives-"@,
            ) {
                1int
            } else {
                0int
            };
            let tasks = later.tasks.len() - plan.tasks.len();
            let jars = later.native_jars.len() - plan.native_jars.len();
            &&& extends(later, plan)
            &&& !rules_allow(library.rules@, setting.os_type) ==> tasks == 0 && jars == 0
            &&& rules_allow(library.rules@, setting.os_type) ==> {
                &&& setting.os_type == "windows"@ ==> tasks == own + loaded("natives-windows"@)
                    + loaded("natives-windows-64"@) && jars == own_jar + kept("natives-windows"@)
                    + kept("natives-windows-64"@)
                &&& setting.os_type == "osx"@ ==> tasks == own + loaded("natives-osx"@) && jars
                    == own_jar + kept("natives-osx"@)
                &&& setting.os_type == "linux"@ ==> tasks == own + loaded("natives-linux"@) && jars
                    == own_jar + kept("natives-linux"@)
            }
        }),
{
    let one = seq![library];
    let keys = native_classifiers(setting.os_type);
    assert(one.drop_last() =~= Seq::empty());
    assert(with_libraries(plan, Seq::empty(), setting) == plan);
    assert(with_libraries(plan, one, setting) == with_library(plan, library, setting));
    lemma_library(plan, library, setting);
    reveal_strlit("windows");
    reveal_strlit("osx");
    reveal_strlit("linux");
    assert("windows"@.len() == 7 && "osx"@.len() == 3 && "linux"@.len() == 5);
    if rules_allow(library.rules@, setting.os_type) {
        let own = match library.downloads.artifact {
            None => plan,
            Some(artifact) => with_artifact(plan, artifact, setting),
        };
        let classifiers = library.downloads.classifiers@;
        if keys.len() == 1 {
            assert(keys.drop_last() =~= Seq::empty());
            assert(with_natives(own, classifiers, Seq::empty(), setting) == own);
        } else if keys.len() == 2 {
            assert(keys.drop_last() =~= seq!["natives-windows"@]);
            assert(keys.drop_last().drop_last() =~= Seq::empty());
            assert(with_natives(own, classifiers, Seq::empty(), setting) == own);
            assert(with_natives(own, classifiers, keys.drop_last(), setting) == if
                classifiers.contains_key("natives-windows"@) {
                with_native(own, classifiers["natives-windows"@], setting)
            } else {
                own
            });
        }
    }
}

} // verus!
