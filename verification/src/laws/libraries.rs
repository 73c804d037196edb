//! What holds of the libraries on the class path and of the places that a command line names.
use crate::launcher::{
    are_launch_paths, class_path_file, class_path_files, libraries_compile, library_parts,
    log_file, natives_directory_parts, rule_compiles, rules_allow, rules_compile,
    version_directory_parts, version_file_parts, version_jar_parts, Artifact, LaunchPathsView,
    LauncherConfig, Library, OsKind, Rule, SystemInfo, VersionJson,
};
use crate::paths::{is_path_text, slash_path};
use crate::patterns::{pattern_compiles, pattern_found};
use crate::text::starts_with;
use vstd::prelude::*;

verus! {

/// The last rule that allows or disallows decides, by what it says of the system: by the kind of
/// system where it names a known one, by the system's version where it has a pattern, and by both
/// where it has both. A rule without a system speaks of none.
pub proof fn law_rules_speak_of_systems(earlier: Seq<Rule>, rule: Rule, system: SystemInfo)
    ensures
        ({
            let covered = match rule.os {
                None => false,
                Some(os) => {
                    &&& os.name matches Some(name) ==> {
                        &&& name@ == "windows"@ ==> system.kind is Windows
                        &&& name@ == "osx"@ ==> system.kind is Macos
                        &&& name@ == "linux"@ ==> system.kind is Linux
                    }
                    &&& os.version matches Some(pattern) ==> pattern_found(
                        pattern@,
                        system.version@,
                    )
                },
            };
            let answer = rules_allow(earlier.push(rule), system);
            &&& rule.action@ == "allow"@ ==> answer == covered
            &&& rule.action@ == "disallow"@ ==> answer == !covered
            &&& rule.action@ != "allow"@ && rule.action@ != "disallow"@ ==> answer == rules_allow(
                earlier,
                system,
            )
            &&& rules_allow(Seq::empty(), system)
        }),
{
    assert(earlier.push(rule).drop_last() =~= earlier);
    reveal_strlit("allow");
    reveal_strlit("disallow");
    reveal_strlit("windows");
    reveal_strlit("osx");
    reveal_strlit("linux");
    assert("allow"@.len() != "disallow"@.len());
    assert("windows"@.len() != "osx"@.len() && "windows"@.len() != "linux"@.len()
        && "osx"@.len() != "linux"@.len());
}

/// Libraries add to the class path one after the other.
pub proof fn law_libraries_add_up(first: Seq<Library>, second: Seq<Library>, system: SystemInfo)
    ensures
        class_path_files(first + second, system) == class_path_files(first, system)
            + class_path_files(second, system),
    decreases second.len(),
{
    let all = first + second;
    if second.len() == 0 {
        assert(all =~= first);
        assert(class_path_files(first, system) + class_path_files(second, system)
            =~= class_path_files(first, system));
    } else {
        law_libraries_add_up(first, second.drop_last(), system);
        assert(all.drop_last() =~= first + second.drop_last());
        assert(all.last() == second.last());
        assert(class_path_files(all, system) =~= class_path_files(first, system)
            + class_path_files(second, system));
    }
}

/// How libraries name the system.
pub open spec fn is_system_key(key: Seq<char>, kind: OsKind) -> bool {
    ||| key == "windows"@ && kind is Windows
    ||| key == "osx"@ && kind is Macos
    ||| key == "linux"@ && kind is Linux
}

/// A library that its rules keep from the system adds nothing to the class path. One without
/// classifiers adds its own file. One with classifiers adds the file of the classifier that it
/// names for the system, behind `natives-`, and nothing where it names none or has no such file.
pub proof fn law_one_library_adds_its_file(
    library: Library,
    system: SystemInfo,
    key: Seq<char>,
    classifier: Seq<char>,
)
    ensures
        ({
            let files = class_path_files(seq![library], system);
            let classifiers = library.downloads.classifiers@;
            let plain = forall|name: Seq<char>| !#[trigger] classifiers.contains_key(name);
            let named = is_system_key(key, system.kind) && library.natives@.contains_key(key);
            let text = library.natives@[key]@;
            &&& !rules_allow(library.rules@, system) ==> files.len() == 0
            &&& rules_allow(library.rules@, system) && plain ==> match library.downloads.artifact {
                None => files.len() == 0,
                Some(artifact) => files == seq![artifact.path@],
            }
            &&& rules_allow(library.rules@, system) && !plain && named && text == "natives-"@
                + classifier ==> if classifiers.contains_key(classifier) {
                files == seq![classifiers[classifier].path@]
            } else {
                files.len() == 0
            }
            &&& !plain && named && !starts_with(text, "natives-"@) ==> files.len() == 0
            &&& !plain && system.kind is Other ==> files.len() == 0
            &&& !plain && is_system_key(key, system.kind) && !library.natives@.contains_key(key)
                ==> files.len() == 0
        }),
{
    let classifiers = library.downloads.classifiers@;
    let one = seq![library];
    assert(one.drop_last() =~= Seq::empty());
    assert(class_path_files(Seq::empty(), system) == Seq::<Seq<char>>::empty());
    if forall|name: Seq<char>| !#[trigger] classifiers.contains_key(name) {
        assert(classifiers =~= Map::<Seq<char>, Artifact>::empty());
    } else {
        let name = choose|name: Seq<char>| #[trigger] classifiers.contains_key(name);
        assert(!Map::<Seq<char>, Artifact>::empty().contains_key(name));
    }
    if library.natives@[key]@ == "natives-"@ + classifier {
        let text = library.natives@[key]@;
        let mark = "natives-"@;
        assert(text.subrange(0, mark.len() as int) =~= mark);
        assert(text.skip(mark.len() as int) =~= classifier);
    }
    match class_path_file(library, system) {
        None => {},
        Some(file) => {
            assert(Seq::<Seq<char>>::empty().push(file) =~= seq![file]);
        },
    }
}

/// The places that a command line names lie under the configured root: the directories and the
/// archive of the version under its name, and each file of a library among the libraries.
pub proof fn law_places_lie_under_the_root(
    paths: LaunchPathsView,
    config: LauncherConfig,
    version: Seq<char>,
    json: VersionJson,
    system: SystemInfo,
)
    requires
        are_launch_paths(paths, config, version, json, system),
    ensures
        ({
            let root = config.minecraft_path@;
            let files = class_path_files(json.libraries@, system);
            &&& is_path_text(
                paths.natives_directory,
                seq![root, "versions"@, version, version + "-natives"@],
            )
            &&& is_path_text(paths.game_directory, seq![root, "instance"@, version])
            &&& is_path_text(paths.assets_root, seq![root, "assets"@])
            &&& is_path_text(paths.libraries_directory, seq![root, "libraries"@])
            &&& is_path_text(
                paths.version_jar,
                seq![root, "versions"@, version, version + ".jar"@],
            )
            &&& paths.library_files.len() == files.len()
            &&& forall|i: int|
                0 <= i < files.len() ==> is_path_text(
                    #[trigger] paths.library_files[i],
                    seq![root, "libraries"@, files[i]],
                )
            &&& match json.logging {
                Some(logging) => match logging.client {
                    Some(client) => paths.log_configuration is Some && is_path_text(
                        paths.log_configuration->0,
                        seq![root, "versions"@, version, client.file.id@],
                    ),
                    None => paths.log_configuration is None,
                },
                None => paths.log_configuration is None,
            }
        }),
{
    let root = config.minecraft_path@;
    let directory = seq![root, "versions"@, version];
    assert(directory.push(version + "-natives"@) =~= seq![
        root,
        "versions"@,
        version,
        version + "-natives"@,
    ]);
    assert(directory.push(version + ".jar"@) =~= seq![
        root,
        "versions"@,
        version,
        version + ".jar"@,
    ]);
    if let Some(name) = log_file(json) {
        assert(directory.push(name) =~= seq![root, "versions"@, version, name]);
    }
}

/// With forward slashes, a step that does not begin with one goes behind the path and a single
/// slash; a step that begins with one takes the place of the path.
pub proof fn law_steps_go_behind_a_slash(parts: Seq<Seq<char>>, part: Seq<char>)
    ensures
        ({
            let before = slash_path(parts);
            let after = slash_path(parts.push(part));
            &&& part.len() > 0 && part[0] == '/' ==> after == part
            &&& !(part.len() > 0 && part[0] == '/') && before.len() > 0 && before.last() != '/'
                ==> after == before + seq!['/'] + part
            &&& !(part.len() > 0 && part[0] == '/') && (before.len() == 0 || before.last() == '/')
                ==> after == before + part
            &&& slash_path(Seq::empty()).len() == 0
        }),
{
    assert(parts.push(part).drop_last() =~= parts);
    let before = slash_path(parts);
    assert(before.push('/') =~= before + seq!['/']);
}

/// The patterns of libraries compile just where each pattern in each rule of each library does.
pub proof fn law_all_patterns_have_to_compile(libraries: Seq<Library>)
    ensures
        libraries_compile(libraries) <==> forall|i: int, j: int|
            0 <= i < libraries.len() && 0 <= j < libraries[i].rules@.len() && (
            #[trigger] libraries[i].rules@[j]).os is Some && libraries[i].rules@[j].os->0.version
                is Some ==> pattern_compiles((libraries[i].rules@[j].os->0.version->0)@),
{
    if libraries_compile(libraries) {
        assert forall|i: int, j: int|
            0 <= i < libraries.len() && 0 <= j < libraries[i].rules@.len() && (
            #[trigger] libraries[i].rules@[j]).os is Some && libraries[i].rules@[j].os->0.version
                is Some implies pattern_compiles((libraries[i].rules@[j].os->0.version->0)@) by {
            assert(rules_compile(libraries[i].rules@));
            assert(rule_compiles(libraries[i].rules@[j]));
        }
    }
    if forall|i: int, j: int|
        0 <= i < libraries.len() && 0 <= j < libraries[i].rules@.len() && (
        #[trigger] libraries[i].rules@[j]).os is Some && libraries[i].rules@[j].os->0.version
            is Some ==> pattern_compiles((libraries[i].rules@[j].os->0.version->0)@) {
        assert forall|i: int| 0 <= i < libraries.len() implies rules_compile(
            (#[trigger] libraries[i]).rules@,
        ) by {
            assert forall|j: int| 0 <= j < libraries[i].rules@.len() implies rule_compiles(
                #[trigger] libraries[i].rules@[j],
            ) by {
            }
        }
    }
}

/// The files of a version lie in the directory of its name, and are named after it; those of
/// libraries lie among the libraries.
pub proof fn law_files_are_named_after_the_version(
    root: Seq<char>,
    version: Seq<char>,
    file: Seq<char>,
)
    ensures
        version_directory_parts(root, version) == seq![root, "versions"@, version],
        version_file_parts(root, version) == seq![root, "versions"@, version, version + ".json"@],
        version_jar_parts(root, version) == seq![root, "versions"@, version, version + ".jar"@],
        natives_directory_parts(root, version) == seq![
            root,
            "versions"@,
            version,
            version + "-natives"@,
        ],
        library_parts(root, file) == seq![root, "libraries"@, file],
{
    let directory = seq![root, "versions"@, version];
    assert(directory.push(version + ".json"@) =~= seq![
        root,
        "versions"@,
        version,
        version + ".json"@,
    ]);
    assert(directory.push(version + ".jar"@) =~= seq![
        root,
        "versions"@,
        version,
        version + ".jar"@,
    ]);
    assert(directory.push(version + "-natives"@) =~= seq![
        root,
        "versions"@,
        version,
        version + "-natives"@,
    ]);
}

} // verus!
