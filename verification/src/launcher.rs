//! The command line that starts the game.
use crate::laws::command_line::{
    law_command_line_ends_with_the_game, law_game_arguments_are_handed_over,
};
use crate::paths::{is_path_text, render_path, GamePath};
use crate::patterns::{
    cleared, compiles, dollar_before_placeholder, has_placeholder, is_match,
    law_clearing_leaves_no_placeholder, pattern_compiles, pattern_found, replace_matches,
};
use crate::table::Table;
use crate::text::{
    before_first, contains, has_text, join_texts, joined, law_replacing_a_character_removes_it,
    push_text, replace_text, replaced, same_text, split, split_text, starts_with, strip_prefix,
    text_before,
};
use vstd::prelude::*;

verus! {

/// What a version file says of how the version is started.
pub struct VersionJson {
    pub arguments: Option<Arguments>,
    pub main_class: String,
    pub libraries: Vec<Library>,
    pub parent_version: Option<String>,
    pub logging: Option<Logging>,
    pub minecraft_arguments: Option<String>,
    pub asset_index: Option<AssetIndex>,
}

/// Names the list of assets that a version uses.
pub struct AssetIndex {
    pub id: String,
}

/// How a version logs.
pub struct Logging {
    pub client: Option<LoggingClient>,
}

/// How the client of a version logs.
pub struct LoggingClient {
    pub file: LogFile,
}

/// Names a file with a logging configuration.
pub struct LogFile {
    pub id: String,
}

/// The arguments that a version file lists.
pub struct Arguments {
    pub jvm: Option<Vec<JvmArgument>>,
    pub game: Option<Vec<GameArgument>>,
}

/// An argument for the virtual machine: a plain one, or one that depends on rules.
pub enum JvmArgument {
    Text(String),
    Object { rules: Vec<Rule> },
}

/// An argument for the game: a plain one, or something else that the file holds in its place.
pub enum GameArgument {
    Text(String),
    Other,
}

/// Allows or disallows something, on the systems that it names.
pub struct Rule {
    pub action: String,
    pub os: Option<OsRule>,
}

/// The systems that a rule names.
pub struct OsRule {
    pub name: Option<String>,
    pub arch: Option<String>,
    pub version: Option<String>,
}

/// A library that a version needs.
pub struct Library {
    pub name: String,
    pub downloads: LibraryDownloads,
    pub rules: Vec<Rule>,
    pub natives: Table<String>,
}

/// The files of a library.
pub struct LibraryDownloads {
    pub artifact: Option<Artifact>,
    pub classifiers: Table<Artifact>,
}

/// A file of a library.
pub struct Artifact {
    pub path: String,
    pub url: String,
    pub sha1: String,
    pub size: u64,
}

/// Where the game and its tools lie, and how the game is to be run.
pub struct LauncherConfig {
    pub minecraft_path: String,
    pub java_path: String,
    pub wrapper_path: String,
    pub launcher_version: String,
    pub max_memory: String,
    pub version_type: String,
}

/// The systems that the launcher tells apart.
#[derive(Clone, Copy, PartialEq, Eq, Structural)]
pub enum OsKind {
    Windows,
    Macos,
    Linux,
    Other,
}

/// The system that the launcher runs on.
pub struct SystemInfo {
    pub kind: OsKind,
    pub name: String,
    pub version: String,
    pub architecture: Option<String>,
}

// ---------------------------------------------------------------------------------------------
// Rules
// ---------------------------------------------------------------------------------------------

/// The system name of a rule covers systems of the kind `kind`. A name that is missing or
/// unknown covers all.
pub open spec fn os_name_covers(name: Option<String>, kind: OsKind) -> bool {
    match name {
        None => true,
        Some(name) => if name@ == "windows"@ {
            kind is Windows
        } else if name@ == "osx"@ {
            kind is Macos
        } else if name@ == "linux"@ {
            kind is Linux
        } else {
            true
        },
    }
}

/// A rule speaks of the system. One that names no system speaks of none.
pub open spec fn rule_covers(rule: Rule, system: SystemInfo) -> bool {
    match rule.os {
        None => false,
        Some(os) => os_name_covers(os.name, system.kind) && match os.version {
            None => true,
            Some(pattern) => pattern_found(pattern@, system.version@),
        },
    }
}

/// What a list of rules says of the system: the last rule that allows or disallows decides, and
/// without one the answer is yes.
pub open spec fn rules_allow(rules: Seq<Rule>, system: SystemInfo) -> bool
    decreases rules.len(),
{
    if rules.len() == 0 {
        true
    } else {
        let rule = rules.last();
        if rule.action@ == "allow"@ {
            rule_covers(rule, system)
        } else if rule.action@ == "disallow"@ {
            !rule_covers(rule, system)
        } else {
            rules_allow(rules.drop_last(), system)
        }
    }
}

/// The version pattern of a rule, where it has one, compiles.
pub open spec fn rule_compiles(rule: Rule) -> bool {
    rule.os matches Some(os) ==> (os.version matches Some(pattern) ==> pattern_compiles(pattern@))
}

/// Every version pattern of the rules compiles.
pub open spec fn rules_compile(rules: Seq<Rule>) -> bool {
    forall|i: int| 0 <= i < rules.len() ==> rule_compiles(#[trigger] rules[i])
}

/// Every version pattern of the libraries' rules compiles.
pub open spec fn libraries_compile(libraries: Seq<Library>) -> bool {
    forall|i: int| 0 <= i < libraries.len() ==> rules_compile((#[trigger] libraries[i]).rules@)
}

/// Whether the rules allow a thing on the system.
pub fn check_rules(rules: &Vec<Rule>, system: &SystemInfo) -> (allowed: bool)
    requires
        rules_compile(rules@),
    ensures
        allowed == rules_allow(rules@, *system),
{
    let mut allowed = true;
    let mut i: usize = 0;
    while i < rules.len()
        invariant
            i <= rules@.len(),
            rules_compile(rules@),
            allowed == rules_allow(rules@.take(i as int), *system),
        decreases rules@.len() - i,
    {
        let rule = &rules[i];
        let mut covered = false;
        assert(rule_compiles(rules@[i as int]));
        if let Some(os) = &rule.os {
            let name_covers = match &os.name {
                None => true,
                Some(name) => if same_text(name.as_str(), "windows") {
                    system.kind == OsKind::Windows
                } else if same_text(name.as_str(), "osx") {
                    system.kind == OsKind::Macos
                } else if same_text(name.as_str(), "linux") {
                    system.kind == OsKind::Linux
                } else {
                    true
                },
            };
            let version_covers = match &os.version {
                None => true,
                Some(pattern) => is_match(pattern.as_str(), system.version.as_str()),
            };
            covered = name_covers && version_covers;
        }
        assert(covered == rule_covers(*rule, *system));
        proof {
            assert(rules@.take(i + 1).drop_last() =~= rules@.take(i as int));
            assert(rules@.take(i + 1).last() == *rule);
        }
        if same_text(rule.action.as_str(), "allow") {
            allowed = covered;
        } else if same_text(rule.action.as_str(), "disallow") {
            allowed = !covered;
        }
        i = i + 1;
    }
    assert(rules@.take(i as int) =~= rules@);
    allowed
}

/// Whether every version pattern of the libraries' rules compiles.
pub fn check_patterns(libraries: &Vec<Library>) -> (valid: bool)
    ensures
        valid == libraries_compile(libraries@),
{
    let mut i: usize = 0;
    while i < libraries.len()
        invariant
            i <= libraries@.len(),
            forall|k: int| 0 <= k < i ==> rules_compile((#[trigger] libraries@[k]).rules@),
        decreases libraries@.len() - i,
    {
        let rules = &libraries[i].rules;
        let mut j: usize = 0;
        while j < rules.len()
            invariant
                i < libraries@.len(),
                rules@ == libraries@[i as int].rules@,
                j <= rules@.len(),
                forall|k: int| 0 <= k < j ==> rule_compiles(#[trigger] rules@[k]),
            decreases rules@.len() - j,
        {
            if let Some(os) = &rules[j].os {
                if let Some(pattern) = &os.version {
                    if !compiles(pattern.as_str()) {
                        assert(!rule_compiles(rules@[j as int]));
                        assert(!rules_compile(libraries@[i as int].rules@));
                        return false;
                    }
                }
            }
            j = j + 1;
        }
        i = i + 1;
    }
    true
}

// ---------------------------------------------------------------------------------------------
// Class path
// ---------------------------------------------------------------------------------------------

/// The key under which a library names its native files for a system.
pub open spec fn natives_key(kind: OsKind) -> Option<Seq<char>> {
    match kind {
        OsKind::Windows => Some("windows"@),
        OsKind::Macos => Some("osx"@),
        OsKind::Linux => Some("linux"@),
        OsKind::Other => None,
    }
}

/// The file that stands for a library with classifiers: the one under the classifier that the
/// library names for the system, once the leading `natives-` is taken off.
pub open spec fn classified_file(library: Library, kind: OsKind) -> Option<Seq<char>> {
    match natives_key(kind) {
        None => None,
        Some(key) => if !library.natives@.contains_key(key) {
            None
        } else {
            let named = library.natives@[key]@;
            let classifier = named.skip("natives-"@.len() as int);
            if starts_with(named, "natives-"@) && library.downloads.classifiers@.contains_key(
                classifier,
            ) {
                Some(library.downloads.classifiers@[classifier].path@)
            } else {
                None
            }
        },
    }
}

/// The file that a library adds to the class path, where it adds one.
pub open spec fn class_path_file(library: Library, system: SystemInfo) -> Option<Seq<char>> {
    if !rules_allow(library.rules@, system) {
        None
    } else if library.downloads.classifiers@ != Map::<Seq<char>, Artifact>::empty() {
        classified_file(library, system.kind)
    } else {
        match library.downloads.artifact {
            None => None,
            Some(artifact) => Some(artifact.path@),
        }
    }
}

/// The files that the libraries add to the class path, in order.
pub open spec fn class_path_files(libraries: Seq<Library>, system: SystemInfo) -> Seq<Seq<char>>
    decreases libraries.len(),
{
    if libraries.len() == 0 {
        Seq::empty()
    } else {
        let earlier = class_path_files(libraries.drop_last(), system);
        match class_path_file(libraries.last(), system) {
            None => earlier,
            Some(file) => earlier.push(file),
        }
    }
}

/// The file that a library adds to the class path, where it adds one.
pub fn library_file(library: &Library, system: &SystemInfo) -> (file: Option<String>)
    requires
        rules_compile(library.rules@),
    ensures
        file.deep_view() == class_path_file(*library, *system),
{
    if !check_rules(&library.rules, system) {
        return None;
    }
    if library.downloads.classifiers.is_empty() {
        return match &library.downloads.artifact {
            None => None,
            Some(artifact) => Some(artifact.path.clone()),
        };
    }
    let key = match system.kind {
        OsKind::Windows => "windows",
        OsKind::Macos => "osx",
        OsKind::Linux => "linux",
        OsKind::Other => {
            return None;
        },
    };
    match library.natives.get(key) {
        None => None,
        Some(named) => match strip_prefix(named.as_str(), "natives-") {
            None => None,
            Some(classifier) => match library.downloads.classifiers.get(classifier.as_str()) {
                None => None,
                Some(artifact) => Some(artifact.path.clone()),
            },
        },
    }
}

/// The files that the libraries add to the class path, in order.
pub fn library_files(libraries: &Vec<Library>, system: &SystemInfo) -> (files: Vec<String>)
    requires
        libraries_compile(libraries@),
    ensures
        files.deep_view() == class_path_files(libraries@, *system),
{
    let mut files: Vec<String> = Vec::new();
    let mut i: usize = 0;
    assert(files.deep_view() =~= Seq::empty());
    while i < libraries.len()
        invariant
            i <= libraries@.len(),
            libraries_compile(libraries@),
            files.deep_view() == class_path_files(libraries@.take(i as int), *system),
        decreases libraries@.len() - i,
    {
        proof {
            assert(rules_compile(libraries@[i as int].rules@));
            assert(libraries@.take(i + 1).drop_last() =~= libraries@.take(i as int));
        }
        if let Some(file) = library_file(&libraries[i], system) {
            push_text(&mut files, file);
        }
        i = i + 1;
    }
    assert(libraries@.take(i as int) =~= libraries@);
    files
}

// ---------------------------------------------------------------------------------------------
// Paths
// ---------------------------------------------------------------------------------------------

/// The paths that the command line speaks of, as the platform writes them.
pub struct LaunchPaths {
    pub natives_directory: String,
    pub game_directory: String,
    pub assets_root: String,
    pub libraries_directory: String,
    pub version_jar: String,
    pub log_configuration: Option<String>,
    pub library_files: Vec<String>,
}

/// The texts of `LaunchPaths`.
pub struct LaunchPathsView {
    pub natives_directory: Seq<char>,
    pub game_directory: Seq<char>,
    pub assets_root: Seq<char>,
    pub libraries_directory: Seq<char>,
    pub version_jar: Seq<char>,
    pub log_configuration: Option<Seq<char>>,
    pub library_files: Seq<Seq<char>>,
}

impl View for LaunchPaths {
    type V = LaunchPathsView;

    open spec fn view(&self) -> LaunchPathsView {
        LaunchPathsView {
            natives_directory: self.natives_directory@,
            game_directory: self.game_directory@,
            assets_root: self.assets_root@,
            libraries_directory: self.libraries_directory@,
            version_jar: self.version_jar@,
            log_configuration: self.log_configuration.deep_view(),
            library_files: self.library_files.deep_view(),
        }
    }
}

/// The directory of a version.
pub open spec fn version_directory_parts(root: Seq<char>, version: Seq<char>) -> Seq<Seq<char>> {
    seq![root, "versions"@, version]
}

/// The file that describes a version.
pub open spec fn version_file_parts(root: Seq<char>, version: Seq<char>) -> Seq<Seq<char>> {
    version_directory_parts(root, version).push(version + ".json"@)
}

/// The directory of a version's native libraries.
pub open spec fn natives_directory_parts(root: Seq<char>, version: Seq<char>) -> Seq<Seq<char>> {
    version_directory_parts(root, version).push(version + "-natives"@)
}

/// The archive of a version.
pub open spec fn version_jar_parts(root: Seq<char>, version: Seq<char>) -> Seq<Seq<char>> {
    version_directory_parts(root, version).push(version + ".jar"@)
}

/// A file of the libraries directory.
pub open spec fn library_parts(root: Seq<char>, file: Seq<char>) -> Seq<Seq<char>> {
    seq![root, "libraries"@, file]
}

/// The name of the logging configuration of a version, where it has one.
pub open spec fn log_file(json: VersionJson) -> Option<Seq<char>> {
    match json.logging {
        None => None,
        Some(logging) => match logging.client {
            None => None,
            Some(client) => Some(client.file.id@),
        },
    }
}

/// `paths` holds, as a platform writes them, the paths of the version `version` under the
/// configured root.
pub open spec fn are_launch_paths(
    paths: LaunchPathsView,
    config: LauncherConfig,
    version: Seq<char>,
    json: VersionJson,
    system: SystemInfo,
) -> bool {
    let root = config.minecraft_path@;
    let files = class_path_files(json.libraries@, system);
    &&& is_path_text(paths.natives_directory, natives_directory_parts(root, version))
    &&& is_path_text(paths.game_directory, seq![root, "instance"@, version])
    &&& is_path_text(paths.assets_root, seq![root, "assets"@])
    &&& is_path_text(paths.libraries_directory, seq![root, "libraries"@])
    &&& is_path_text(paths.version_jar, version_jar_parts(root, version))
    &&& match log_file(json) {
        None => paths.log_configuration is None,
        Some(name) => paths.log_configuration is Some && is_path_text(
            paths.log_configuration->0,
            version_directory_parts(root, version).push(name),
        ),
    }
    &&& paths.library_files.len() == files.len()
    &&& forall|i: int|
        0 <= i < files.len() ==> is_path_text(
            #[trigger] paths.library_files[i],
            library_parts(root, files[i]),
        )
}

/// The directory of a version.
pub fn version_directory(root: &str, version: &str) -> (path: GamePath)
    ensures
        path@ == version_directory_parts(root@, version@),
{
    let path = GamePath::new(root).join("versions").join(version);
    assert(path@ =~= version_directory_parts(root@, version@));
    path
}

/// The file that describes a version.
pub fn version_file(root: &str, version: &str) -> (path: GamePath)
    ensures
        path@ == version_file_parts(root@, version@),
{
    version_directory(root, version).join(version.to_owned().concat(".json").as_str())
}

/// The directory of a version's native libraries.
pub fn natives_directory(root: &str, version: &str) -> (path: GamePath)
    ensures
        path@ == natives_directory_parts(root@, version@),
{
    version_directory(root, version).join(version.to_owned().concat("-natives").as_str())
}

/// The archive of a version.
pub fn version_jar(root: &str, version: &str) -> (path: GamePath)
    ensures
        path@ == version_jar_parts(root@, version@),
{
    version_directory(root, version).join(version.to_owned().concat(".jar").as_str())
}

/// A file of the libraries directory.
pub fn library_path(root: &str, file: &str) -> (path: GamePath)
    ensures
        path@ == library_parts(root@, file@),
{
    let path = GamePath::new(root).join("libraries").join(file);
    assert(path@ =~= library_parts(root@, file@));
    path
}

/// The paths that the command line of a version speaks of.
pub fn launch_paths(
    config: &LauncherConfig,
    version_name: &str,
    version_json: &VersionJson,
    system: &SystemInfo,
) -> (paths: LaunchPaths)
    requires
        libraries_compile(version_json.libraries@),
    ensures
        are_launch_paths(paths@, *config, version_name@, *version_json, *system),
{
    let root = config.minecraft_path.as_str();
    let files = library_files(&version_json.libraries, system);
    let mut rendered: Vec<String> = Vec::new();
    let mut i: usize = 0;
    while i < files.len()
        invariant
            i <= files@.len(),
            root@ == config.minecraft_path@,
            rendered.deep_view().len() == i,
            forall|j: int|
                0 <= j < i ==> is_path_text(
                    #[trigger] rendered.deep_view()[j],
                    library_parts(root@, files.deep_view()[j]),
                ),
        decreases files@.len() - i,
    {
        let text = render_path(&library_path(root, files[i].as_str()));
        assert(is_path_text(text@, library_parts(root@, files.deep_view()[i as int])));
        push_text(&mut rendered, text);
        i = i + 1;
    }
    let game_path = GamePath::new(root).join("instance").join(version_name);
    let assets_path = GamePath::new(root).join("assets");
    let libraries_path = GamePath::new(root).join("libraries");
    proof {
        assert(game_path@ =~= seq![root@, "instance"@, version_name@]);
        assert(assets_path@ =~= seq![root@, "assets"@]);
        assert(libraries_path@ =~= seq![root@, "libraries"@]);
    }
    let log_configuration = match &version_json.logging {
        None => None,
        Some(logging) => match &logging.client {
            None => None,
            Some(client) => {
                let path = version_directory(root, version_name).join(client.file.id.as_str());
                Some(render_path(&path))
            },
        },
    };
    LaunchPaths {
        natives_directory: render_path(&natives_directory(root, version_name)),
        game_directory: render_path(&game_path),
        assets_root: render_path(&assets_path),
        libraries_directory: render_path(&libraries_path),
        version_jar: render_path(&version_jar(root, version_name)),
        log_configuration,
        library_files: rendered,
    }
}

/// A path with forward slashes only.
pub open spec fn slashed(path: Seq<char>) -> Seq<char> {
    replaced(path, "\\"@, "/"@)
}

/// Writes a path with forward slashes only.
pub fn format_path(path: &str) -> (text: String)
    ensures
        text@ == slashed(path@),
{
    proof {
        reveal_strlit("\\");
    }
    replace_text(path, "\\", "/")
}

// ---------------------------------------------------------------------------------------------
// Arguments
// ---------------------------------------------------------------------------------------------

/// What the placeholders of game arguments stand for.
pub struct Placeholders {
    pub player_name: String,
    pub auth_token: String,
    pub uuid: String,
    pub version_name: String,
    pub natives_directory: String,
    pub game_directory: String,
    pub assets_root: String,
    pub assets_index_name: String,
    pub version_type: String,
}

/// The texts of `Placeholders`.
pub struct PlaceholdersView {
    pub player_name: Seq<char>,
    pub auth_token: Seq<char>,
    pub uuid: Seq<char>,
    pub version_name: Seq<char>,
    pub natives_directory: Seq<char>,
    pub game_directory: Seq<char>,
    pub assets_root: Seq<char>,
    pub assets_index_name: Seq<char>,
    pub version_type: Seq<char>,
}

impl View for Placeholders {
    type V = PlaceholdersView;

    open spec fn view(&self) -> PlaceholdersView {
        PlaceholdersView {
            player_name: self.player_name@,
            auth_token: self.auth_token@,
            uuid: self.uuid@,
            version_name: self.version_name@,
            natives_directory: self.natives_directory@,
            game_directory: self.game_directory@,
            assets_root: self.assets_root@,
            assets_index_name: self.assets_index_name@,
            version_type: self.version_type@,
        }
    }
}

/// `text` with the known placeholders filled, one after the other.
pub open spec fn filled(text: Seq<char>, values: PlaceholdersView) -> Seq<char> {
    let text = replaced(text, "${auth_player_name}"@, values.player_name);
    let text = replaced(text, "${auth_session}"@, values.uuid);
    let text = replaced(text, "${auth_access_token}"@, values.auth_token);
    let text = replaced(text, "${auth_uuid}"@, values.uuid);
    let text = replaced(text, "${version_name}"@, values.version_name);
    let text = replaced(text, "${natives_directory}"@, values.natives_directory);
    let text = replaced(text, "${game_directory}"@, values.game_directory);
    let text = replaced(text, "${assets_root}"@, values.assets_root);
    let text = replaced(text, "${assets_index_name}"@, values.assets_index_name);
    let text = replaced(text, "${user_type}"@, "msa"@);
    replaced(text, "${version_type}"@, values.version_type)
}

/// Fills the known placeholders of a text.
pub fn replace_placeholders(text: &str, values: &Placeholders) -> (changed: String)
    ensures
        changed@ == filled(text@, values@),
{
    proof {
        reveal_strlit("${auth_player_name}");
        reveal_strlit("${auth_session}");
        reveal_strlit("${auth_access_token}");
        reveal_strlit("${auth_uuid}");
        reveal_strlit("${version_name}");
        reveal_strlit("${natives_directory}");
        reveal_strlit("${game_directory}");
        reveal_strlit("${assets_root}");
        reveal_strlit("${assets_index_name}");
        reveal_strlit("${user_type}");
        reveal_strlit("${version_type}");
    }
    let text = replace_text(text, "${auth_player_name}", values.player_name.as_str());
    let text = replace_text(text.as_str(), "${auth_session}", values.uuid.as_str());
    let text = replace_text(text.as_str(), "${auth_access_token}", values.auth_token.as_str());
    let text = replace_text(text.as_str(), "${auth_uuid}", values.uuid.as_str());
    let text = replace_text(text.as_str(), "${version_name}", values.version_name.as_str());
    let text = replace_text(
        text.as_str(),
        "${natives_directory}",
        values.natives_directory.as_str(),
    );
    let text = replace_text(text.as_str(), "${game_directory}", values.game_directory.as_str());
    let text = replace_text(text.as_str(), "${assets_root}", values.assets_root.as_str());
    let text = replace_text(
        text.as_str(),
        "${assets_index_name}",
        values.assets_index_name.as_str(),
    );
    let text = replace_text(text.as_str(), "${user_type}", "msa");
    replace_text(text.as_str(), "${version_type}", values.version_type.as_str())
}

/// `text` on its own where `present` holds, nothing otherwise.
pub open spec fn only_if(present: bool, text: Seq<char>) -> Seq<Seq<char>> {
    if present {
        seq![text]
    } else {
        Seq::empty()
    }
}

/// The processor of the system is of the x86 family, by its name.
pub open spec fn is_x86(system: SystemInfo) -> bool {
    system.architecture matches Some(architecture) && contains(architecture@, "x86"@)
}

/// The arguments for the virtual machine that do not depend on the version.
pub open spec fn machine_arguments(config: LauncherConfig, system: SystemInfo) -> Seq<Seq<char>> {
    seq!["-Xmn768m"@, "-Xmx"@ + config.max_memory@ + "m"@] + only_if(
        system.kind is Macos,
        "-XstartOnFirstThread"@,
    ) + only_if(is_x86(system), "-Xss1M"@) + only_if(
        system.kind is Windows,
        "-XX:HeapDumpPath=MojangTricksIntelDriversForPerformance_javaw.exe_minecraft.exe.heapdump"@,
    ) + seq![
        "-XX:+UseG1GC"@,
        "-XX:-UseAdaptiveSizePolicy"@,
        "-XX:-OmitStackTraceInFastThrow"@,
        "-Djdk.lang.Process.allowAmbiguousCommands=true"@,
        "-Dfml.ignoreInvalidMinecraftCertificates=True"@,
        "-Dfml.ignorePatchDiscrepancies=True"@,
    ]
}

/// The argument that names the logging configuration.
pub open spec fn log_arguments(paths: LaunchPathsView) -> Seq<Seq<char>> {
    match paths.log_configuration {
        None => Seq::empty(),
        Some(path) => seq![
            "-Dlog4j.configurationFile=file:///"@ + replaced(slashed(path), " "@, "%20"@),
        ],
    }
}

/// The parameters that the launcher sets unless the version file does.
pub open spec fn fixed_parameters(
    config: LauncherConfig,
    system: SystemInfo,
    paths: LaunchPathsView,
) -> Seq<Seq<char>> {
    seq![
        "-Dos.name="@ + system.name@,
        "-Dos.version="@ + system.version@,
        "-Djava.library.path="@ + slashed(paths.natives_directory),
        "-DlibraryDirectory="@ + slashed(paths.libraries_directory),
        "-Dminecraft.launcher.brand=\"Rhythmic Tool Launcher\""@,
        "-Dminecraft.launcher.version="@ + config.launcher_version@,
    ]
}

/// The arguments for the virtual machine that a version file lists.
pub open spec fn listed_jvm_arguments(json: VersionJson) -> Seq<JvmArgument> {
    match json.arguments {
        None => Seq::empty(),
        Some(arguments) => match arguments.jvm {
            None => Seq::empty(),
            Some(jvm) => jvm@,
        },
    }
}

/// A listed argument is a plain one and sets `key`.
pub open spec fn sets_key(argument: JvmArgument, key: Seq<char>) -> bool {
    argument matches JvmArgument::Text(text) && before_first(text@, "="@) == key
}

/// The version file sets `key` by a plain argument.
pub open spec fn key_is_set(json: VersionJson, key: Seq<char>) -> bool {
    exists|i: int|
        0 <= i < listed_jvm_arguments(json).len() && sets_key(
            #[trigger] listed_jvm_arguments(json)[i],
            key,
        )
}

/// The parameters whose key the version file does not set, in order.
pub open spec fn unset_parameters(parameters: Seq<Seq<char>>, json: VersionJson) -> Seq<Seq<char>>
    decreases parameters.len(),
{
    if parameters.len() == 0 {
        Seq::empty()
    } else {
        let earlier = unset_parameters(parameters.drop_last(), json);
        if key_is_set(json, before_first(parameters.last(), "="@)) {
            earlier
        } else {
            earlier.push(parameters.last())
        }
    }
}

/// The class path: the libraries, the version's archive, then the wrapper.
pub open spec fn class_path(config: LauncherConfig, paths: LaunchPathsView) -> Seq<char> {
    joined(
        paths.library_files.map_values(|file: Seq<char>| slashed(file)).push(
            slashed(paths.version_jar),
        ).push(slashed(config.wrapper_path@)),
        ";"@,
    )
}

/// The plain ones among the game arguments, in order.
pub open spec fn plain_game_arguments(arguments: Seq<GameArgument>) -> Seq<Seq<char>>
    decreases arguments.len(),
{
    if arguments.len() == 0 {
        Seq::empty()
    } else {
        let earlier = plain_game_arguments(arguments.drop_last());
        match arguments.last() {
            GameArgument::Text(text) => earlier.push(text@),
            GameArgument::Other => earlier,
        }
    }
}

/// The game arguments as the version file writes them: the plain ones of its list, or, where it
/// has no list, the words of its single line.
pub open spec fn written_game_arguments(json: VersionJson) -> Seq<Seq<char>> {
    if json.arguments is Some && json.arguments->0.game is Some {
        plain_game_arguments(json.arguments->0.game->0@)
    } else {
        match json.minecraft_arguments {
            None => Seq::empty(),
            Some(line) => split(line@, " "@),
        }
    }
}

/// What the placeholders of the game arguments stand for.
pub open spec fn placeholder_values(
    config: LauncherConfig,
    version: Seq<char>,
    player: Seq<char>,
    token: Seq<char>,
    uuid: Seq<char>,
    json: VersionJson,
    paths: LaunchPathsView,
) -> PlaceholdersView {
    PlaceholdersView {
        player_name: player,
        auth_token: token,
        uuid: uuid,
        version_name: version,
        natives_directory: slashed(paths.natives_directory),
        game_directory: slashed(paths.game_directory),
        assets_root: slashed(paths.assets_root),
        assets_index_name: match json.asset_index {
            None => Seq::empty(),
            Some(index) => index.id@,
        },
        version_type: config.version_type@,
    }
}

/// The whole command line, before the placeholders that are left are cleared.
pub open spec fn raw_arguments(
    config: LauncherConfig,
    version: Seq<char>,
    player: Seq<char>,
    token: Seq<char>,
    uuid: Seq<char>,
    json: VersionJson,
    system: SystemInfo,
    paths: LaunchPathsView,
) -> Seq<Seq<char>> {
    let values = placeholder_values(config, version, player, token, uuid, json, paths);
    machine_arguments(config, system) + log_arguments(paths) + unset_parameters(
        fixed_parameters(config, system, paths),
        json,
    ) + seq!["-cp"@, class_path(config, paths), json.main_class@] + written_game_arguments(
        json,
    ).map_values(|text: Seq<char>| filled(text, values)) + seq![
        "--width"@,
        "873"@,
        "--height"@,
        "486"@,
    ]
}

/// The whole command line.
pub open spec fn launch_arguments(
    config: LauncherConfig,
    version: Seq<char>,
    player: Seq<char>,
    token: Seq<char>,
    uuid: Seq<char>,
    json: VersionJson,
    system: SystemInfo,
    paths: LaunchPathsView,
) -> Seq<Seq<char>> {
    raw_arguments(config, version, player, token, uuid, json, system, paths).map_values(
        |text: Seq<char>| cleared(text),
    )
}

/// Near the end of the command line `args`, each of the game arguments `written` that is the
/// placeholder of a value of the player or of the version has become that value, where the value
/// holds no placeholder itself.
pub open spec fn hands_over(
    args: Seq<Seq<char>>,
    written: Seq<Seq<char>>,
    version: Seq<char>,
    player: Seq<char>,
    token: Seq<char>,
    uuid: Seq<char>,
) -> bool {
    let start = args.len() - 4 - written.len();
    &&& 0 <= start
    &&& forall|k: int|
        0 <= k < written.len() ==> {
            let word = #[trigger] written[k];
            &&& word == "${auth_player_name}"@ && !has_placeholder(player) ==> args[start + k]
                == player
            &&& word == "${auth_access_token}"@ && !has_placeholder(token) ==> args[start + k]
                == token
            &&& word == "${auth_uuid}"@ && !has_placeholder(uuid) ==> args[start + k] == uuid
            &&& word == "${auth_session}"@ && !has_placeholder(uuid) ==> args[start + k] == uuid
            &&& word == "${version_name}"@ && !has_placeholder(version) ==> args[start + k]
                == version
            &&& !has_placeholder(word) ==> args[start + k] == word
        }
}

/// The arguments for the virtual machine that do not depend on the version.
fn push_machine_arguments(args: &mut Vec<String>, config: &LauncherConfig, system: &SystemInfo)
    ensures
        final(args).deep_view() == old(args).deep_view() + machine_arguments(*config, *system),
{
    push_text(args, "-Xmn768m".to_owned());
    push_text(args, "-Xmx".to_owned().concat(config.max_memory.as_str()).concat("m"));
    if system.kind == OsKind::Macos {
        push_text(args, "-XstartOnFirstThread".to_owned());
    }
    let x86 = match &system.architecture {
        None => false,
        Some(architecture) => has_text(architecture.as_str(), "x86"),
    };
    if x86 {
        push_text(args, "-Xss1M".to_owned());
    }
    if system.kind == OsKind::Windows {
        push_text(
            args,
            "-XX:HeapDumpPath=MojangTricksIntelDriversForPerformance_javaw.exe_minecraft.exe.heapdump".to_owned(),
        );
    }
    push_text(args, "-XX:+UseG1GC".to_owned());
    push_text(args, "-XX:-UseAdaptiveSizePolicy".to_owned());
    push_text(args, "-XX:-OmitStackTraceInFastThrow".to_owned());
    push_text(args, "-Djdk.lang.Process.allowAmbiguousCommands=true".to_owned());
    push_text(args, "-Dfml.ignoreInvalidMinecraftCertificates=True".to_owned());
    push_text(args, "-Dfml.ignorePatchDiscrepancies=True".to_owned());
    assert(args.deep_view() =~= old(args).deep_view() + machine_arguments(*config, *system));
}

/// Whether the version file sets `key` by a plain argument.
pub fn is_key_set(version_json: &VersionJson, key: &str) -> (set: bool)
    ensures
        set == key_is_set(*version_json, key@),
{
    let ghost listed = listed_jvm_arguments(*version_json);
    if let Some(arguments) = &version_json.arguments {
        if let Some(jvm) = &arguments.jvm {
            let mut i: usize = 0;
            while i < jvm.len()
                invariant
                    i <= jvm@.len(),
                    jvm@ == listed,
                    listed == listed_jvm_arguments(*version_json),
                    forall|j: int| 0 <= j < i ==> !sets_key(#[trigger] listed[j], key@),
                decreases jvm@.len() - i,
            {
                if let JvmArgument::Text(text) = &jvm[i] {
                    proof {
                        reveal_strlit("=");
                    }
                    if same_text(text_before(text.as_str(), "=").as_str(), key) {
                        assert(sets_key(listed[i as int], key@));
                        return true;
                    }
                }
                i = i + 1;
            }
        }
    }
    false
}

/// The fixed parameters whose key the version file does not set.
fn push_fixed_parameters(
    args: &mut Vec<String>,
    config: &LauncherConfig,
    version_json: &VersionJson,
    system: &SystemInfo,
    paths: &LaunchPaths,
)
    ensures
        final(args).deep_view() == old(args).deep_view() + unset_parameters(
            fixed_parameters(*config, *system, paths@),
            *version_json,
        ),
{
    let mut fixed: Vec<String> = Vec::new();
    push_text(&mut fixed, "-Dos.name=".to_owned().concat(system.name.as_str()));
    push_text(&mut fixed, "-Dos.version=".to_owned().concat(system.version.as_str()));
    push_text(
        &mut fixed,
        "-Djava.library.path=".to_owned().concat(
            format_path(paths.natives_directory.as_str()).as_str(),
        ),
    );
    push_text(
        &mut fixed,
        "-DlibraryDirectory=".to_owned().concat(
            format_path(paths.libraries_directory.as_str()).as_str(),
        ),
    );
    push_text(
        &mut fixed,
        "-Dminecraft.launcher.brand=\"Rhythmic Tool Launcher\"".to_owned(),
    );
    push_text(
        &mut fixed,
        "-Dminecraft.launcher.version=".to_owned().concat(config.launcher_version.as_str()),
    );
    let ghost all = fixed_parameters(*config, *system, paths@);
    assert(fixed.deep_view() =~= all);
    let ghost before = args.deep_view();
    let mut i: usize = 0;
    while i < fixed.len()
        invariant
            i <= fixed@.len(),
            fixed.deep_view() == all,
            args.deep_view() == before + unset_parameters(all.take(i as int), *version_json),
        decreases fixed@.len() - i,
    {
        proof {
            reveal_strlit("=");
            assert(all.take(i + 1).drop_last() =~= all.take(i as int));
            assert(all[i as int] == fixed@[i as int]@);
        }
        let key = text_before(fixed[i].as_str(), "=");
        if !is_key_set(version_json, key.as_str()) {
            push_text(args, fixed[i].clone());
        }
        proof {
            assert(args.deep_view() =~= before + unset_parameters(all.take(i + 1), *version_json));
        }
        i = i + 1;
    }
    assert(all.take(i as int) =~= all);
}

/// The class path of a version.
fn build_class_path(config: &LauncherConfig, paths: &LaunchPaths) -> (text: String)
    ensures
        text@ == class_path(*config, paths@),
{
    let mut entries: Vec<String> = Vec::new();
    let ghost all = paths@.library_files.map_values(|file: Seq<char>| slashed(file));
    let mut i: usize = 0;
    assert(entries.deep_view() =~= all.take(0));
    while i < paths.library_files.len()
        invariant
            i <= paths.library_files@.len(),
            all == paths@.library_files.map_values(|file: Seq<char>| slashed(file)),
            entries.deep_view() == all.take(i as int),
        decreases paths.library_files@.len() - i,
    {
        push_text(&mut entries, format_path(paths.library_files[i].as_str()));
        assert(all.take(i + 1) =~= all.take(i as int).push(all[i as int]));
        i = i + 1;
    }
    assert(all.take(i as int) =~= all);
    push_text(&mut entries, format_path(paths.version_jar.as_str()));
    push_text(&mut entries, format_path(config.wrapper_path.as_str()));
    join_texts(&entries, ";")
}

/// The game arguments as the version file writes them.
fn collect_game_arguments(version_json: &VersionJson) -> (words: Vec<String>)
    ensures
        words.deep_view() == written_game_arguments(*version_json),
{
    if let Some(arguments) = &version_json.arguments {
        if let Some(game) = &arguments.game {
            let mut words: Vec<String> = Vec::new();
            let mut i: usize = 0;
            assert(words.deep_view() =~= Seq::empty());
            while i < game.len()
                invariant
                    i <= game@.len(),
                    words.deep_view() == plain_game_arguments(game@.take(i as int)),
                decreases game@.len() - i,
            {
                assert(game@.take(i + 1).drop_last() =~= game@.take(i as int));
                if let GameArgument::Text(text) = &game[i] {
                    push_text(&mut words, text.clone());
                }
                i = i + 1;
            }
            assert(game@.take(i as int) =~= game@);
            return words;
        }
    }
    match &version_json.minecraft_arguments {
        None => {
            let words: Vec<String> = Vec::new();
            assert(words.deep_view() =~= Seq::empty());
            words
        },
        Some(line) => {
            proof {
                reveal_strlit(" ");
            }
            split_text(line.as_str(), " ")
        },
    }
}

/// The whole command line of a version, given the paths as the platform writes them.
pub fn assemble_arguments(
    config: &LauncherConfig,
    version_name: &str,
    player_name: &str,
    auth_token: &str,
    uuid: &str,
    version_json: &VersionJson,
    system: &SystemInfo,
    paths: &LaunchPaths,
) -> (args: Vec<String>)
    ensures
        args.deep_view() == launch_arguments(
            *config,
            version_name@,
            player_name@,
            auth_token@,
            uuid@,
            *version_json,
            *system,
            paths@,
        ),
        hands_over(
            args.deep_view(),
            written_game_arguments(*version_json),
            version_name@,
            player_name@,
            auth_token@,
            uuid@,
        ),
{
    let mut args: Vec<String> = Vec::new();
    push_machine_arguments(&mut args, config, system);
    if let Some(path) = &paths.log_configuration {
        proof {
            reveal_strlit(" ");
        }
        let encoded = replace_text(format_path(path.as_str()).as_str(), " ", "%20");
        push_text(
            &mut args,
            "-Dlog4j.configurationFile=file:///".to_owned().concat(encoded.as_str()),
        );
    }
    assert(args.deep_view() =~= machine_arguments(*config, *system) + log_arguments(paths@));
    push_fixed_parameters(&mut args, config, version_json, system, paths);
    push_text(&mut args, "-cp".to_owned());
    push_text(&mut args, build_class_path(config, paths));
    push_text(&mut args, version_json.main_class.clone());
    let values = Placeholders {
        player_name: player_name.to_owned(),
        auth_token: auth_token.to_owned(),
        uuid: uuid.to_owned(),
        version_name: version_name.to_owned(),
        natives_directory: format_path(paths.natives_directory.as_str()),
        game_directory: format_path(paths.game_directory.as_str()),
        assets_root: format_path(paths.assets_root.as_str()),
        assets_index_name: match &version_json.asset_index {
            None => String::new(),
            Some(index) => index.id.clone(),
        },
        version_type: config.version_type.clone(),
    };
    let words = collect_game_arguments(version_json);
    let ghost before = args.deep_view();
    let ghost fill = |text: Seq<char>| filled(text, values@);
    let ghost game = words.deep_view().map_values(fill);
    let mut i: usize = 0;
    assert(args.deep_view() =~= before + game.take(0));
    while i < words.len()
        invariant
            i <= words@.len(),
            fill == (|text: Seq<char>| filled(text, values@)),
            game == words.deep_view().map_values(fill),
            args.deep_view() == before + game.take(i as int),
        decreases words@.len() - i,
    {
        push_text(&mut args, replace_placeholders(words[i].as_str(), &values));
        assert(game.take(i + 1) =~= game.take(i as int).push(game[i as int]));
        assert(args.deep_view() =~= before + game.take(i + 1));
        i = i + 1;
    }
    assert(game.take(i as int) =~= game);
    push_text(&mut args, "--width".to_owned());
    push_text(&mut args, "873".to_owned());
    push_text(&mut args, "--height".to_owned());
    push_text(&mut args, "486".to_owned());
    let ghost raw = raw_arguments(
        *config,
        version_name@,
        player_name@,
        auth_token@,
        uuid@,
        *version_json,
        *system,
        paths@,
    );
    assert(args.deep_view() =~= raw) by {
        assert(values@ == placeholder_values(
            *config,
            version_name@,
            player_name@,
            auth_token@,
            uuid@,
            *version_json,
            paths@,
        ));
    }
    let done = clear_placeholders(&args);
    proof {
        let written = written_game_arguments(*version_json);
        law_command_line_ends_with_the_game(
            *config,
            version_name@,
            player_name@,
            auth_token@,
            uuid@,
            *version_json,
            *system,
            paths@,
        );
        assert forall|k: int| 0 <= k < written.len() implies {
            let word = #[trigger] written[k];
            let given = done.deep_view()[done.deep_view().len() - 4 - written.len() + k];
            &&& word == "${auth_player_name}"@ && !has_placeholder(player_name@) ==> given
                == player_name@
            &&& word == "${auth_access_token}"@ && !has_placeholder(auth_token@) ==> given
                == auth_token@
            &&& word == "${auth_uuid}"@ && !has_placeholder(uuid@) ==> given == uuid@
            &&& word == "${auth_session}"@ && !has_placeholder(uuid@) ==> given == uuid@
            &&& word == "${version_name}"@ && !has_placeholder(version_name@) ==> given
                == version_name@
            &&& !has_placeholder(word) ==> given == word
        } by {
            law_game_arguments_are_handed_over(
                *config,
                version_name@,
                player_name@,
                auth_token@,
                uuid@,
                *version_json,
                *system,
                paths@,
                k,
            );
        }
    }
    done
}

/// Shrinks the placeholders that are left in the arguments to empty pairs of braces.
fn clear_placeholders(args: &Vec<String>) -> (done: Vec<String>)
    ensures
        done.deep_view() == args.deep_view().map_values(|text: Seq<char>| cleared(text)),
{
    let mut done: Vec<String> = Vec::new();
    let ghost all = args.deep_view().map_values(|text: Seq<char>| cleared(text));
    let mut i: usize = 0;
    assert(done.deep_view() =~= all.take(0));
    while i < args.len()
        invariant
            i <= args@.len(),
            all == args.deep_view().map_values(|text: Seq<char>| cleared(text)),
            done.deep_view() == all.take(i as int),
        decreases args@.len() - i,
    {
        push_text(&mut done, replace_matches("\\$\\{[^}]*\\}", args[i].as_str(), "{}"));
        assert(all.take(i + 1) =~= all.take(i as int).push(all[i as int]));
        i = i + 1;
    }
    assert(all.take(i as int) =~= all);
    done
}

/// The whole command line of a version.
pub fn build_jvm_arguments(
    config: &LauncherConfig,
    version_name: &str,
    player_name: &str,
    auth_token: &str,
    uuid: &str,
    version_json: &VersionJson,
    system: &SystemInfo,
) -> (args: Vec<String>)
    requires
        libraries_compile(version_json.libraries@),
    ensures
        exists|paths: LaunchPathsView|
            are_launch_paths(paths, *config, version_name@, *version_json, *system)
                && args.deep_view() == #[trigger] launch_arguments(
                *config,
                version_name@,
                player_name@,
                auth_token@,
                uuid@,
                *version_json,
                *system,
                paths,
            ),
        hands_over(
            args.deep_view(),
            written_game_arguments(*version_json),
            version_name@,
            player_name@,
            auth_token@,
            uuid@,
        ),
{
    let paths = launch_paths(config, version_name, version_json, system);
    assemble_arguments(
        config,
        version_name,
        player_name,
        auth_token,
        uuid,
        version_json,
        system,
        &paths,
    )
}

/// The whole command line of a version; none, where a version pattern of a library's rules does
/// not compile.
pub fn checked_jvm_arguments(
    config: &LauncherConfig,
    version_name: &str,
    player_name: &str,
    auth_token: &str,
    uuid: &str,
    version_json: &VersionJson,
    system: &SystemInfo,
) -> (args: Option<Vec<String>>)
    ensures
        args is Some <==> libraries_compile(version_json.libraries@),
        args matches Some(args) ==> exists|paths: LaunchPathsView|
            are_launch_paths(paths, *config, version_name@, *version_json, *system)
                && args.deep_view() == #[trigger] launch_arguments(
                *config,
                version_name@,
                player_name@,
                auth_token@,
                uuid@,
                *version_json,
                *system,
                paths,
            ),
        args matches Some(args) ==> hands_over(
            args.deep_view(),
            written_game_arguments(*version_json),
            version_name@,
            player_name@,
            auth_token@,
            uuid@,
        ),
{
    if check_patterns(&version_json.libraries) {
        Some(
            build_jvm_arguments(
                config,
                version_name,
                player_name,
                auth_token,
                uuid,
                version_json,
                system,
            ),
        )
    } else {
        None
    }
}

impl VersionJson {
    /// Takes over from the version that this one builds on what this one leaves out: the list of
    /// assets.
    pub fn inherit(self, parent: VersionJson) -> (merged: VersionJson)
        ensures
            merged == (VersionJson {
                asset_index: if self.asset_index is Some {
                    self.asset_index
                } else {
                    parent.asset_index
                },
                ..self
            }),
            merged.main_class == self.main_class,
            merged.libraries == self.libraries,
            merged.arguments == self.arguments,
            merged.minecraft_arguments == self.minecraft_arguments,
            merged.logging == self.logging,
            self.asset_index is Some ==> merged.asset_index == self.asset_index,
            self.asset_index is None ==> merged.asset_index == parent.asset_index,
    {
        let mut merged = self;
        if merged.asset_index.is_none() {
            merged.asset_index = parent.asset_index;
        }
        merged
    }
}

// ---------------------------------------------------------------------------------------------
// What holds of every command line
// ---------------------------------------------------------------------------------------------

/// Rules are read in order and the last one decides: one that allows allows what it covers and
/// nothing else, one that disallows disallows what it covers and nothing else, and any other
/// changes nothing. Without rules all is allowed.
pub proof fn law_last_rule_decides(rules: Seq<Rule>, rule: Rule, system: SystemInfo)
    ensures
        rules_allow(Seq::empty(), system),
        rule.action@ == "allow"@ ==> rules_allow(rules.push(rule), system) == rule_covers(
            rule,
            system,
        ),
        rule.action@ == "disallow"@ ==> rules_allow(rules.push(rule), system) == !rule_covers(
            rule,
            system,
        ),
        rule.action@ != "allow"@ && rule.action@ != "disallow"@ ==> rules_allow(
            rules.push(rule),
            system,
        ) == rules_allow(rules, system),
{
    assert(rules.push(rule).drop_last() =~= rules);
    assert("allow"@ != "disallow"@) by {
        reveal_strlit("allow");
        reveal_strlit("disallow");
        assert("allow"@.len() != "disallow"@.len());
    }
}

/// A rule allows or disallows.
pub open spec fn decides(rule: Rule) -> bool {
    rule.action@ == "allow"@ || rule.action@ == "disallow"@
}

/// Rules of which one decides leave rules in front of them without effect.
pub proof fn law_later_rules_override(earlier: Seq<Rule>, later: Seq<Rule>, system: SystemInfo)
    requires
        exists|i: int| 0 <= i < later.len() && decides(#[trigger] later[i]),
    ensures
        rules_allow(earlier + later, system) == rules_allow(later, system),
    decreases later.len(),
{
    let all = earlier + later;
    assert(all.last() == later.last());
    if !decides(later.last()) {
        let i = choose|i: int| 0 <= i < later.len() && decides(#[trigger] later[i]);
        assert(later.drop_last()[i] == later[i]);
        law_later_rules_override(earlier, later.drop_last(), system);
        assert(all.drop_last() =~= earlier + later.drop_last());
    }
}

/// A path that was written with forward slashes holds no backslash.
pub proof fn law_slashed_paths_hold_no_backslash(path: Seq<char>)
    ensures
        !slashed(path).contains('\\'),
{
    reveal_strlit("\\");
    reveal_strlit("/");
    assert("\\"@ =~= seq!['\\']);
    assert(!"/"@.contains('\\'));
    law_replacing_a_character_removes_it(path, '\\', "/"@);
}

/// The argument that names the logging configuration is its fixed start and a path without
/// spaces.
pub proof fn law_log_argument_holds_no_space(paths: LaunchPathsView)
    requires
        paths.log_configuration is Some,
    ensures
        exists|path: Seq<char>|
            log_arguments(paths) == seq![#[trigger] (
            "-Dlog4j.configurationFile=file:///"@ + path)] && !path.contains(' '),
{
    let path = replaced(slashed(paths.log_configuration->0), " "@, "%20"@);
    reveal_strlit(" ");
    reveal_strlit("%20");
    assert(" "@ =~= seq![' ']);
    assert(!"%20"@.contains(' '));
    law_replacing_a_character_removes_it(slashed(paths.log_configuration->0), ' ', "%20"@);
    assert(log_arguments(paths) =~= seq!["-Dlog4j.configurationFile=file:///"@ + path]);
}

/// The launcher sets a fixed parameter just where the version file does not set its key.
pub proof fn law_version_file_overrides_parameters(
    parameters: Seq<Seq<char>>,
    json: VersionJson,
    parameter: Seq<char>,
)
    ensures
        unset_parameters(parameters, json).contains(parameter) <==> parameters.contains(parameter)
            && !key_is_set(json, before_first(parameter, "="@)),
    decreases parameters.len(),
{
    if parameters.len() > 0 {
        let rest = parameters.drop_last();
        let earlier = unset_parameters(rest, json);
        let all = unset_parameters(parameters, json);
        law_version_file_overrides_parameters(rest, json, parameter);
        assert(parameters =~= rest.push(parameters.last()));
        assert(parameters.contains(parameter) <==> rest.contains(parameter) || parameter
            == parameters.last()) by {
            if rest.contains(parameter) {
                let at = choose|at: int| 0 <= at < rest.len() && rest[at] == parameter;
                assert(parameters[at] == parameter);
            }
            if parameter == parameters.last() {
                assert(parameters[parameters.len() - 1] == parameter);
            }
            if parameters.contains(parameter) {
                let at = choose|at: int| 0 <= at < parameters.len() && parameters[at] == parameter;
                if at < rest.len() {
                    assert(rest[at] == parameter);
                }
            }
        }
        if !key_is_set(json, before_first(parameters.last(), "="@)) {
            assert(all == earlier.push(parameters.last()));
            assert(all[earlier.len() as int] == parameters.last());
            if earlier.contains(parameter) {
                let at = choose|at: int| 0 <= at < earlier.len() && earlier[at] == parameter;
                assert(all[at] == parameter);
            }
            if all.contains(parameter) && parameter != parameters.last() {
                let at = choose|at: int| 0 <= at < all.len() && all[at] == parameter;
                assert(earlier[at] == parameter);
            }
        }
    }
}

/// No argument of a command line holds a placeholder, unless it held one directly after a dollar
/// sign before it was cleared.
pub proof fn law_arguments_hold_no_placeholder(
    config: LauncherConfig,
    version: Seq<char>,
    player: Seq<char>,
    token: Seq<char>,
    uuid: Seq<char>,
    json: VersionJson,
    system: SystemInfo,
    paths: LaunchPathsView,
    i: int,
)
    requires
        0 <= i < launch_arguments(config, version, player, token, uuid, json, system, paths).len(),
    ensures
        has_placeholder(
            launch_arguments(config, version, player, token, uuid, json, system, paths)[i],
        ) <==> dollar_before_placeholder(
            raw_arguments(config, version, player, token, uuid, json, system, paths)[i],
        ),
{
    let raw = raw_arguments(config, version, player, token, uuid, json, system, paths);
    law_clearing_leaves_no_placeholder(raw[i]);
}

} // verus!
