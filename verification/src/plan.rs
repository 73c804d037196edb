//! What has to be downloaded for a version.
use crate::download::{
    arch_suffix_matches, get_native_suffix, match_arch_suffix, native_suffix, DownloadTask,
    DownloadTaskView, MIRROR_URL,
};
use crate::launcher::{
    library_parts, library_path, version_directory, version_directory_parts, version_jar,
    version_jar_parts,
};
use crate::laws::plans::law_plans_begin_with_the_version;
use crate::paths::GamePath;
use crate::table::Table;
use crate::text::{characters, contains, has_text, push_text, same_text, starts_with};
use vstd::prelude::*;

verus! {

/// What the description of a version says of its files.
pub struct VersionJson {
    pub downloads: Downloads,
    pub logging: Option<Logging>,
    pub asset_index: AssetIndex,
    pub libraries: Vec<Library>,
}

/// The list of assets that a version uses: its name and its address.
pub struct AssetIndex {
    pub url: String,
    pub id: String,
}

/// The assets of a version, in the order in which they are to be loaded.
pub struct AssetsJson {
    pub objects: Vec<AssetObject>,
}

/// An asset, by its digest.
pub struct AssetObject {
    pub hash: String,
}

/// The files of a version itself.
pub struct Downloads {
    pub client: ClientDownload,
}

/// The archive of a version.
pub struct ClientDownload {
    pub url: String,
    pub sha1: String,
    pub size: u64,
}

/// How a version logs.
pub struct Logging {
    pub client: LoggingClient,
}

/// How the client of a version logs.
pub struct LoggingClient {
    pub file: LogFile,
}

/// A file with a logging configuration.
pub struct LogFile {
    pub url: String,
    pub sha1: String,
}

/// A library that a version needs.
pub struct Library {
    pub name: String,
    pub downloads: LibraryDownloads,
    pub rules: Vec<Rule>,
    pub natives: Table<String>,
}

/// The files of a library.
pub struct LibraryDownloads {
    pub artifact: Option<Artifact>,
    pub classifiers: Table<Artifact>,
}

/// A file of a library.
pub struct Artifact {
    pub path: String,
    pub sha1: String,
    pub size: u64,
}

/// Allows or disallows something, on the system that it names or on all.
pub struct Rule {
    pub action: String,
    pub os: Option<OsRule>,
}

/// The system that a rule names.
pub struct OsRule {
    pub name: Option<String>,
}

// ---------------------------------------------------------------------------------------------
// Rules
// ---------------------------------------------------------------------------------------------

/// A rule speaks of the system `os_type`. One without a system speaks of all; one whose system
/// has no name speaks of none.
pub open spec fn rule_covers(rule: Rule, os_type: Seq<char>) -> bool {
    match rule.os {
        None => true,
        Some(os) => match os.name {
            None => false,
            Some(name) => name@ == os_type,
        },
    }
}

/// What a list of rules says of the system: the last rule that allows or disallows decides, and
/// without one the answer is yes.
pub open spec fn rules_allow(rules: Seq<Rule>, os_type: Seq<char>) -> bool
    decreases rules.len(),
{
    if rules.len() == 0 {
        true
    } else {
        let rule = rules.last();
        if rule.action@ == "allow"@ {
            rule_covers(rule, os_type)
        } else if rule.action@ == "disallow"@ {
            !rule_covers(rule, os_type)
        } else {
            rules_allow(rules.drop_last(), os_type)
        }
    }
}

/// Whether the rules allow a thing on the system `os_type`.
pub fn check_rules(rules: &Vec<Rule>, os_type: &str) -> (allowed: bool)
    ensures
        allowed == rules_allow(rules@, os_type@),
{
    let mut allowed = true;
    let mut i: usize = 0;
    while i < rules.len()
        invariant
            i <= rules@.len(),
            allowed == rules_allow(rules@.take(i as int), os_type@),
        decreases rules@.len() - i,
    {
        let rule = &rules[i];
        let covered = match &rule.os {
            None => true,
            Some(os) => match &os.name {
                None => false,
                Some(name) => same_text(name.as_str(), os_type),
            },
        };
        proof {
            assert(rules@.take(i + 1).drop_last() =~= rules@.take(i as int));
            assert(rules@.take(i + 1).last() == *rule);
        }
        if same_text(rule.action.as_str(), "allow") {
            allowed = covered;
        } else if same_text(rule.action.as_str(), "disallow") {
            allowed = !covered;
        }
        i = i + 1;
    }
    assert(rules@.take(i as int) =~= rules@);
    allowed
}

// ---------------------------------------------------------------------------------------------
// Places and addresses
// ---------------------------------------------------------------------------------------------

/// The server of the libraries: the official one, where the description of the version came from
/// the official one too, else the mirror.
pub open spec fn library_server(json_url: Seq<char>) -> Seq<char> {
    if contains(json_url, "mojang.com"@) {
        "https://libraries.minecraft.net"@
    } else {
        "https://bmclapi2.bangbang93.com/maven"@
    }
}

/// The addresses of a library's file: on the server, then on the mirror.
pub open spec fn library_urls(server: Seq<char>, path: Seq<char>) -> Seq<Seq<char>> {
    seq![server + "/"@ + path, "https://bmclapi2.bangbang93.com/maven/"@ + path]
}

/// The classifiers under which libraries keep native files for the system `os_type`.
pub open spec fn native_classifiers(os_type: Seq<char>) -> Seq<Seq<char>> {
    if os_type == "windows"@ {
        seq!["natives-windows"@, "natives-windows-64"@]
    } else if os_type == "osx"@ {
        seq!["natives-osx"@]
    } else if os_type == "linux"@ {
        seq!["natives-linux"@]
    } else {
        Seq::empty()
    }
}

/// The first character that takes two bytes.
pub const FIRST_OF_TWO_BYTES: char = '\u{80}';

/// The first character that takes three bytes.
pub const FIRST_OF_THREE_BYTES: char = '\u{800}';

/// The first two bytes of a digest, as text: two ASCII characters, or one character of two
/// bytes. None, where the first two bytes are no whole characters.
pub open spec fn hash_prefix(hash: Seq<char>) -> Option<Seq<char>> {
    if hash.len() >= 1 && FIRST_OF_TWO_BYTES <= hash[0] < FIRST_OF_THREE_BYTES {
        Some(hash.take(1))
    } else if hash.len() >= 2 && hash[0] < FIRST_OF_TWO_BYTES && hash[1] < FIRST_OF_TWO_BYTES {
        Some(hash.take(2))
    } else {
        None
    }
}

/// Every asset has a digest with a first two bytes.
pub open spec fn assets_have_prefixes(assets: Seq<AssetObject>) -> bool {
    forall|i: int| 0 <= i < assets.len() ==> hash_prefix((#[trigger] assets[i]).hash@) is Some
}

/// The server of the libraries.
pub fn get_library_server(json_url: &str) -> (server: &'static str)
    ensures
        server@ == library_server(json_url@),
{
    if has_text(json_url, "mojang.com") {
        "https://libraries.minecraft.net"
    } else {
        "https://bmclapi2.bangbang93.com/maven"
    }
}

/// The addresses of a library's file.
fn get_library_urls(server: &str, path: &str) -> (urls: Vec<String>)
    ensures
        urls.deep_view() == library_urls(server@, path@),
{
    let mut urls: Vec<String> = Vec::new();
    push_text(&mut urls, server.to_owned().concat("/").concat(path));
    push_text(&mut urls, "https://bmclapi2.bangbang93.com/maven/".to_owned().concat(path));
    assert(urls.deep_view() =~= library_urls(server@, path@));
    urls
}

/// The classifiers under which libraries keep native files for the system `os_type`.
pub fn get_native_classifiers(os_type: &str) -> (keys: Vec<String>)
    ensures
        keys.deep_view() == native_classifiers(os_type@),
{
    let mut keys: Vec<String> = Vec::new();
    if same_text(os_type, "windows") {
        push_text(&mut keys, "natives-windows".to_owned());
        push_text(&mut keys, "natives-windows-64".to_owned());
    } else if same_text(os_type, "osx") {
        push_text(&mut keys, "natives-osx".to_owned());
    } else if same_text(os_type, "linux") {
        push_text(&mut keys, "natives-linux".to_owned());
    }
    assert(keys.deep_view() =~= native_classifiers(os_type@));
    keys
}

/// The first two bytes of a digest, as text.
pub fn get_hash_prefix(hash: &str) -> (prefix: Option<String>)
    ensures
        prefix.deep_view() == hash_prefix(hash@),
{
    let chars = characters(hash);
    if chars.len() >= 1 && FIRST_OF_TWO_BYTES <= chars[0] && chars[0] < FIRST_OF_THREE_BYTES {
        let prefix = hash.substring_char(0, 1);
        assert(prefix@ =~= hash@.take(1));
        Some(prefix.to_owned())
    } else if chars.len() >= 2 && chars[0] < FIRST_OF_TWO_BYTES && chars[1] < FIRST_OF_TWO_BYTES {
        let prefix = hash.substring_char(0, 2);
        assert(prefix@ =~= hash@.take(2));
        Some(prefix.to_owned())
    } else {
        None
    }
}

/// Whether every asset has a digest with a first two bytes.
pub fn check_assets(assets: &AssetsJson) -> (valid: bool)
    ensures
        valid == assets_have_prefixes(assets.objects@),
{
    let mut i: usize = 0;
    while i < assets.objects.len()
        invariant
            i <= assets.objects@.len(),
            forall|j: int|
                0 <= j < i ==> hash_prefix((#[trigger] assets.objects@[j]).hash@) is Some,
        decreases assets.objects@.len() - i,
    {
        if get_hash_prefix(assets.objects[i].hash.as_str()).is_none() {
            assert(hash_prefix(assets.objects@[i as int].hash@) is None);
            return false;
        }
        i = i + 1;
    }
    true
}

/// The file that keeps the list of assets.
pub fn asset_index_file(root: &str, id: &str) -> (path: GamePath)
    ensures
        path@ == seq![root@, "assets"@, "indexes"@, id@ + ".json"@],
{
    let path = GamePath::new(root).join("assets").join("indexes").join(
        id.to_owned().concat(".json").as_str(),
    );
    assert(path@ =~= seq![root@, "assets"@, "indexes"@, id@ + ".json"@]);
    path
}

// ---------------------------------------------------------------------------------------------
// The plan
// ---------------------------------------------------------------------------------------------

/// Where the files of a version come from and go to: the root of the game, the version, the
/// server of the libraries, the system and its processor.
pub struct Setting {
    pub root: Seq<char>,
    pub version: Seq<char>,
    pub server: Seq<char>,
    pub os_type: Seq<char>,
    pub arch: Seq<char>,
}

/// The files to be downloaded, and the archives to be unpacked afterwards.
pub struct PlanView {
    pub tasks: Seq<DownloadTaskView>,
    pub native_jars: Seq<Seq<Seq<char>>>,
}

impl PlanView {
    /// The plan with one more file.
    pub open spec fn with_task(self, task: DownloadTaskView) -> PlanView {
        PlanView { tasks: self.tasks.push(task), ..self }
    }

    /// The plan with one more archive.
    pub open spec fn with_jar(self, jar: Seq<Seq<char>>) -> PlanView {
        PlanView { native_jars: self.native_jars.push(jar), ..self }
    }
}

/// The archive of the version itself.
pub open spec fn client_task(client: ClientDownload, setting: Setting) -> DownloadTaskView {
    DownloadTaskView {
        urls: seq![client.url@, MIRROR_URL@ + "/"@ + setting.version + "/client"@],
        target_path: version_jar_parts(setting.root, setting.version),
        sha1: client.sha1@,
        size: client.size,
    }
}

/// The logging configuration of the version.
pub open spec fn log_task(file: LogFile, setting: Setting) -> DownloadTaskView {
    DownloadTaskView {
        urls: seq![file.url@],
        target_path: version_directory_parts(setting.root, setting.version).push(
            "log_config.xml"@,
        ),
        sha1: file.sha1@,
        size: 0,
    }
}

/// A file of a library.
pub open spec fn library_task(artifact: Artifact, setting: Setting) -> DownloadTaskView {
    DownloadTaskView {
        urls: library_urls(setting.server, artifact.path@),
        target_path: library_parts(setting.root, artifact.path@),
        sha1: artifact.sha1@,
        size: artifact.size,
    }
}

/// An asset.
pub open spec fn asset_task(hash: Seq<char>, setting: Setting) -> DownloadTaskView {
    let prefix = hash_prefix(hash)->0;
    DownloadTaskView {
        urls: seq![
            "https://resources.download.minecraft.net/"@ + prefix + "/"@ + hash,
            MIRROR_URL@ + "/assets/"@ + prefix + "/"@ + hash,
        ],
        target_path: seq![setting.root, "assets"@, "objects"@, prefix, hash],
        sha1: hash,
        size: 0,
    }
}

/// The plan with a library's own file, which is unpacked too where its path names natives.
pub open spec fn with_artifact(plan: PlanView, artifact: Artifact, setting: Setting) -> PlanView {
    let planned = plan.with_task(library_task(artifact, setting));
    if contains(artifact.path@, "-natives-"@) {
        planned.with_jar(library_parts(setting.root, artifact.path@))
    } else {
        planned
    }
}

/// The plan with a native file of a library, which is downloaded only where its name is one for
/// the processor.
pub open spec fn with_native(plan: PlanView, artifact: Artifact, setting: Setting) -> PlanView {
    let planned = plan.with_jar(library_parts(setting.root, artifact.path@));
    if arch_suffix_matches(artifact.path@, setting.arch) {
        planned.with_task(library_task(artifact, setting))
    } else {
        planned
    }
}

/// The plan with the native files that a library keeps under the classifiers `keys`, in order.
pub open spec fn with_natives(
    plan: PlanView,
    classifiers: Map<Seq<char>, Artifact>,
    keys: Seq<Seq<char>>,
    setting: Setting,
) -> PlanView
    decreases keys.len(),
{
    if keys.len() == 0 {
        plan
    } else {
        let planned = with_natives(plan, classifiers, keys.drop_last(), setting);
        if classifiers.contains_key(keys.last()) {
            with_native(planned, classifiers[keys.last()], setting)
        } else {
            planned
        }
    }
}

/// The plan with a library, where its rules allow it on the system.
pub open spec fn with_library(plan: PlanView, library: Library, setting: Setting) -> PlanView {
    if !rules_allow(library.rules@, setting.os_type) {
        plan
    } else {
        let planned = match library.downloads.artifact {
            None => plan,
            Some(artifact) => with_artifact(plan, artifact, setting),
        };
        with_natives(
            planned,
            library.downloads.classifiers@,
            native_classifiers(setting.os_type),
            setting,
        )
    }
}

/// The plan with libraries, in order.
pub open spec fn with_libraries(plan: PlanView, libraries: Seq<Library>, setting: Setting) -> PlanView
    decreases libraries.len(),
{
    if libraries.len() == 0 {
        plan
    } else {
        with_library(
            with_libraries(plan, libraries.drop_last(), setting),
            libraries.last(),
            setting,
        )
    }
}

/// The plan with assets, in order.
pub open spec fn with_assets(plan: PlanView, assets: Seq<AssetObject>, setting: Setting) -> PlanView
    decreases assets.len(),
{
    if assets.len() == 0 {
        plan
    } else {
        with_assets(plan, assets.drop_last(), setting).with_task(
            asset_task(assets.last().hash@, setting),
        )
    }
}

/// The plan with the version's own files.
pub open spec fn version_plan(json: VersionJson, setting: Setting) -> PlanView {
    let empty = PlanView { tasks: Seq::empty(), native_jars: Seq::empty() };
    let planned = empty.with_task(client_task(json.downloads.client, setting));
    match json.logging {
        None => planned,
        Some(logging) => planned.with_task(log_task(logging.client.file, setting)),
    }
}

/// The whole plan for a version: its own files, its libraries, then its assets.
pub open spec fn download_plan(json: VersionJson, assets: Seq<AssetObject>, setting: Setting) -> PlanView {
    with_assets(
        with_libraries(version_plan(json, setting), json.libraries@, setting),
        assets,
        setting,
    )
}

/// The files to be downloaded, and the archives to be unpacked afterwards.
pub struct DownloadPlan {
    pub tasks: Vec<DownloadTask>,
    pub native_jars: Vec<GamePath>,
}

/// The steps of each of a list of paths.
pub open spec fn all_parts(paths: Seq<GamePath>) -> Seq<Seq<Seq<char>>> {
    paths.map_values(|path: GamePath| path@)
}

impl View for DownloadPlan {
    type V = PlanView;

    open spec fn view(&self) -> PlanView {
        PlanView { tasks: self.tasks.deep_view(), native_jars: all_parts(self.native_jars@) }
    }
}

impl DownloadPlan {
    /// Adds a file.
    fn add_task(&mut self, task: DownloadTask)
        ensures
            final(self)@ == old(self)@.with_task(task@),
    {
        self.tasks.push(task);
        assert(self.tasks.deep_view() =~= old(self).tasks.deep_view().push(task@));
    }

    /// Adds an archive.
    fn add_jar(&mut self, jar: GamePath)
        ensures
            final(self)@ == old(self)@.with_jar(jar@),
    {
        self.native_jars.push(jar);
        assert(all_parts(self.native_jars@) =~= all_parts(old(self).native_jars@).push(jar@));
    }
}

/// Where the files of a version come from and go to.
struct Place<'a> {
    root: &'a str,
    version: &'a str,
    server: &'a str,
    os_type: &'a str,
    arch: &'a str,
}

impl<'a> View for Place<'a> {
    type V = Setting;

    closed spec fn view(&self) -> Setting {
        Setting {
            root: self.root@,
            version: self.version@,
            server: self.server@,
            os_type: self.os_type@,
            arch: self.arch@,
        }
    }
}

/// A file of a library.
fn make_library_task(artifact: &Artifact, place: &Place) -> (task: DownloadTask)
    ensures
        task@ == library_task(*artifact, place@),
{
    DownloadTask {
        urls: get_library_urls(place.server, artifact.path.as_str()),
        target_path: library_path(place.root, artifact.path.as_str()),
        sha1: artifact.sha1.clone(),
        size: artifact.size,
    }
}

/// Plans the files of a library.
fn plan_library(plan: &mut DownloadPlan, library: &Library, place: &Place)
    ensures
        final(plan)@ == with_library(old(plan)@, *library, place@),
{
    if !check_rules(&library.rules, place.os_type) {
        return ;
    }
    if let Some(artifact) = &library.downloads.artifact {
        plan.add_task(make_library_task(artifact, place));
        if has_text(artifact.path.as_str(), "-natives-") {
            plan.add_jar(library_path(place.root, artifact.path.as_str()));
        }
    }
    let ghost before = plan@;
    let keys = get_native_classifiers(place.os_type);
    let ghost all = keys.deep_view();
    let ghost classifiers = library.downloads.classifiers@;
    let mut i: usize = 0;
    while i < keys.len()
        invariant
            i <= keys@.len(),
            all == keys.deep_view(),
            classifiers == library.downloads.classifiers@,
            plan@ == with_natives(before, classifiers, all.take(i as int), place@),
        decreases keys@.len() - i,
    {
        proof {
            assert(all.take(i + 1).drop_last() =~= all.take(i as int));
            assert(all.take(i + 1).last() == keys@[i as int]@);
        }
        if let Some(native) = library.downloads.classifiers.get(keys[i].as_str()) {
            plan.add_jar(library_path(place.root, native.path.as_str()));
            if match_arch_suffix(native.path.as_str(), place.arch) {
                plan.add_task(make_library_task(native, place));
            }
        }
        i = i + 1;
    }
    assert(all.take(i as int) =~= all);
}

/// Plans an asset.
fn make_asset_task(hash: &str, place: &Place) -> (task: DownloadTask)
    requires
        hash_prefix(hash@) is Some,
    ensures
        task@ == asset_task(hash@, place@),
{
    let prefix = get_hash_prefix(hash).unwrap();
    let mut urls: Vec<String> = Vec::new();
    push_text(
        &mut urls,
        "https://resources.download.minecraft.net/".to_owned().concat(prefix.as_str()).concat(
            "/",
        ).concat(hash),
    );
    push_text(
        &mut urls,
        MIRROR_URL.to_owned().concat("/assets/").concat(prefix.as_str()).concat("/").concat(hash),
    );
    let target_path = GamePath::new(place.root).join("assets").join("objects").join(
        prefix.as_str(),
    ).join(hash);
    proof {
        assert(urls.deep_view() =~= asset_task(hash@, place@).urls);
        assert(target_path@ =~= asset_task(hash@, place@).target_path);
    }
    DownloadTask { urls, target_path, sha1: hash.to_owned(), size: 0 }
}

/// Plans the version's own files.
fn plan_version(version_data: &VersionJson, place: &Place) -> (plan: DownloadPlan)
    ensures
        plan@ == version_plan(*version_data, place@),
{
    let mut plan = DownloadPlan { tasks: Vec::new(), native_jars: Vec::new() };
    assert(plan.tasks.deep_view() =~= Seq::empty());
    assert(all_parts(plan.native_jars@) =~= Seq::empty());
    let client = &version_data.downloads.client;
    let mut urls: Vec<String> = Vec::new();
    push_text(&mut urls, client.url.clone());
    push_text(
        &mut urls,
        MIRROR_URL.to_owned().concat("/").concat(place.version).concat("/client"),
    );
    assert(urls.deep_view() =~= client_task(*client, place@).urls);
    plan.add_task(
        DownloadTask {
            urls,
            target_path: version_jar(place.root, place.version),
            sha1: client.sha1.clone(),
            size: client.size,
        },
    );
    if let Some(logging) = &version_data.logging {
        let file = &logging.client.file;
        let mut urls: Vec<String> = Vec::new();
        push_text(&mut urls, file.url.clone());
        assert(urls.deep_view() =~= log_task(*file, place@).urls);
        plan.add_task(
            DownloadTask {
                urls,
                target_path: version_directory(place.root, place.version).join("log_config.xml"),
                sha1: file.sha1.clone(),
                size: 0,
            },
        );
    }
    plan
}

/// What has to be downloaded for a version, and which archives are unpacked afterwards.
pub fn process_version(
    version: &str,
    minecraft_path: &str,
    json_url: &str,
    version_data: &VersionJson,
    assets_data: &AssetsJson,
    os_type: &str,
    arch: &str,
) -> (plan: DownloadPlan)
    requires
        assets_have_prefixes(assets_data.objects@),
    ensures
        plan@ == download_plan(
            *version_data,
            assets_data.objects@,
            (Setting {
                root: minecraft_path@,
                version: version@,
                server: library_server(json_url@),
                os_type: os_type@,
                arch: arch@,
            }),
        ),
        plan@.tasks.len() > assets_data.objects@.len(),
        plan@.tasks[0].target_path == seq![
            minecraft_path@,
            "versions"@,
            version@,
            version@ + ".jar"@,
        ],
        plan@.tasks[0].urls == seq![
            version_data.downloads.client.url@,
            "https://bmclapi2.bangbang93.com"@ + "/"@ + version@ + "/client"@,
        ],
{
    let place = Place {
        root: minecraft_path,
        version,
        server: get_library_server(json_url),
        os_type,
        arch,
    };
    let mut plan = plan_version(version_data, &place);
    let libraries = &version_data.libraries;
    let ghost start = plan@;
    let mut i: usize = 0;
    while i < libraries.len()
        invariant
            i <= libraries@.len(),
            plan@ == with_libraries(start, libraries@.take(i as int), place@),
        decreases libraries@.len() - i,
    {
        assert(libraries@.take(i + 1).drop_last() =~= libraries@.take(i as int));
        plan_library(&mut plan, &libraries[i], &place);
        i = i + 1;
    }
    assert(libraries@.take(i as int) =~= libraries@);
    let assets = &assets_data.objects;
    let ghost middle = plan@;
    let mut j: usize = 0;
    while j < assets.len()
        invariant
            j <= assets@.len(),
            assets_have_prefixes(assets@),
            plan@ == with_assets(middle, assets@.take(j as int), place@),
        decreases assets@.len() - j,
    {
        assert(assets@.take(j + 1).drop_last() =~= assets@.take(j as int));
        assert(hash_prefix(assets@[j as int].hash@) is Some);
        plan.add_task(make_asset_task(assets[j].hash.as_str(), &place));
        j = j + 1;
    }
    assert(assets@.take(j as int) =~= assets@);
    proof {
        law_plans_begin_with_the_version(*version_data, assets@, place@);
        lemma_assets(middle, assets@, place@);
        lemma_libraries(start, libraries@, place@);
    }
    plan
}

// ---------------------------------------------------------------------------------------------
// After the downloads
// ---------------------------------------------------------------------------------------------

/// The first failure among the outcomes of downloads, in the order in which they ended.
pub open spec fn first_failure(outcomes: Seq<Result<(), String>>) -> Option<Seq<char>>
    decreases outcomes.len(),
{
    if outcomes.len() == 0 {
        None
    } else {
        match outcomes[0] {
            Err(message) => Some(message@),
            Ok(_) => first_failure(outcomes.drop_first()),
        }
    }
}

/// What is unpacked once all downloads have ended: the native archives of the plan, on a system
/// with native libraries. One download that failed fails the whole, and nothing is unpacked.
pub fn after_downloads(
    outcomes: Vec<Result<(), String>>,
    native_jars: Vec<GamePath>,
    os_type: &str,
) -> (next: Result<Vec<GamePath>, String>)
    ensures
        match first_failure(outcomes@) {
            Some(message) => next matches Err(error) && error@ == message,
            None => next matches Ok(jars) && all_parts(jars@) == (if native_suffix(
                os_type@,
            ) is Some {
                all_parts(native_jars@)
            } else {
                Seq::empty()
            }),
        },
{
    let mut i: usize = 0;
    assert(outcomes@.skip(0) =~= outcomes@);
    while i < outcomes.len()
        invariant
            i <= outcomes@.len(),
            first_failure(outcomes@) == first_failure(outcomes@.skip(i as int)),
        decreases outcomes@.len() - i,
    {
        assert(outcomes@.skip(i as int)[0] == outcomes@[i as int]);
        if let Err(message) = &outcomes[i] {
            return Err(message.clone());
        }
        assert(outcomes@.skip(i as int).drop_first() =~= outcomes@.skip(i + 1));
        i = i + 1;
    }
    if get_native_suffix(os_type).is_some() {
        Ok(native_jars)
    } else {
        let none: Vec<GamePath> = Vec::new();
        assert(all_parts(none@) =~= Seq::empty());
        Ok(none)
    }
}

/// What is to be done next with the native archives of a version.
pub enum UnpackStep {
    /// Work off the archive at this position.
    Unpack(usize),
    /// Report this list: the version is done.
    Finished(Vec<String>),
}

/// The step that follows the work on the first `worked_off` archives. What came of it does not
/// matter: an archive that failed neither stops the work nor fails the whole.
pub fn next_native_jar(native_jars: &Vec<GamePath>, worked_off: usize) -> (step: UnpackStep)
    ensures
        if worked_off < native_jars@.len() {
            step == UnpackStep::Unpack(worked_off)
        } else {
            step matches UnpackStep::Finished(list) && list@.len() == 0
        },
{
    if worked_off < native_jars.len() {
        UnpackStep::Unpack(worked_off)
    } else {
        UnpackStep::Finished(Vec::new())
    }
}

/// Downloads succeed as a whole just where each of them does.
pub proof fn law_one_failed_download_fails_the_version(outcomes: Seq<Result<(), String>>)
    ensures
        first_failure(outcomes) is None <==> forall|i: int|
            0 <= i < outcomes.len() ==> (#[trigger] outcomes[i]) is Ok,
    decreases outcomes.len(),
{
    if outcomes.len() > 0 {
        let rest = outcomes.drop_first();
        law_one_failed_download_fails_the_version(rest);
        assert forall|i: int| 0 <= i < rest.len() implies rest[i] == #[trigger] outcomes[i + 1] by {
        }
        if outcomes[0] is Ok && first_failure(rest) is None {
            assert forall|i: int| 0 <= i < outcomes.len() implies (#[trigger] outcomes[i]) is Ok by {
                if i > 0 {
                    assert(rest[i - 1] is Ok);
                }
            }
        }
        if forall|i: int| 0 <= i < outcomes.len() ==> (#[trigger] outcomes[i]) is Ok {
            assert(outcomes[0] is Ok);
            assert forall|i: int| 0 <= i < rest.len() implies (#[trigger] rest[i]) is Ok by {
                assert(outcomes[i + 1] is Ok);
            }
        }
    }
}

// ---------------------------------------------------------------------------------------------
// What holds of every plan
// ---------------------------------------------------------------------------------------------

/// Every file of a plan has a source.
pub open spec fn has_sources(plan: PlanView) -> bool {
    forall|i: int| 0 <= i < plan.tasks.len() ==> (#[trigger] plan.tasks[i]).urls.len() > 0
}

/// A path is one in the libraries directory.
pub open spec fn is_library_path(path: Seq<Seq<char>>, root: Seq<char>) -> bool {
    exists|file: Seq<char>| path == #[trigger] library_parts(root, file)
}

/// Every archive of a plan lies in the libraries directory.
pub open spec fn jars_are_libraries(plan: PlanView, root: Seq<char>) -> bool {
    forall|i: int|
        0 <= i < plan.native_jars.len() ==> is_library_path(#[trigger] plan.native_jars[i], root)
}

/// `later` holds all that `earlier` does, in the same order, and may hold more behind it.
pub open spec fn extends(later: PlanView, earlier: PlanView) -> bool {
    earlier.tasks.is_prefix_of(later.tasks) && earlier.native_jars.is_prefix_of(later.native_jars)
}

/// Adding a library's native files keeps a plan sound and drops nothing from it.
pub proof fn lemma_natives(
    plan: PlanView,
    classifiers: Map<Seq<char>, Artifact>,
    keys: Seq<Seq<char>>,
    setting: Setting,
)
    ensures
        ({
            let later = with_natives(plan, classifiers, keys, setting);
            &&& extends(later, plan)
            &&& has_sources(plan) ==> has_sources(later)
            &&& jars_are_libraries(plan, setting.root) ==> jars_are_libraries(later, setting.root)
        }),
    decreases keys.len(),
{
    if keys.len() > 0 {
        lemma_natives(plan, classifiers, keys.drop_last(), setting);
        let middle = with_natives(plan, classifiers, keys.drop_last(), setting);
        if classifiers.contains_key(keys.last()) {
            let artifact = classifiers[keys.last()];
            let later = with_native(middle, artifact, setting);
            assert(library_task(artifact, setting).urls.len() == 2);
            lemma_jar(middle, artifact.path@, setting);
            assert(later.native_jars == middle.with_jar(
                library_parts(setting.root, artifact.path@),
            ).native_jars);
        }
    }
}

/// Adding an archive of the libraries directory keeps all archives there.
pub proof fn lemma_jar(plan: PlanView, path: Seq<char>, setting: Setting)
    ensures
        jars_are_libraries(plan, setting.root) ==> jars_are_libraries(
            plan.with_jar(library_parts(setting.root, path)),
            setting.root,
        ),
{
    if jars_are_libraries(plan, setting.root) {
        let later = plan.with_jar(library_parts(setting.root, path));
        assert forall|i: int| 0 <= i < later.native_jars.len() implies is_library_path(
            #[trigger] later.native_jars[i],
            setting.root,
        ) by {
            if i < plan.native_jars.len() {
                assert(later.native_jars[i] == plan.native_jars[i]);
            } else {
                assert(later.native_jars[i] == library_parts(setting.root, path));
            }
        }
    }
}

/// Adding a library keeps a plan sound and drops nothing from it.
pub proof fn lemma_library(plan: PlanView, library: Library, setting: Setting)
    ensures
        ({
            let later = with_library(plan, library, setting);
            &&& extends(later, plan)
            &&& has_sources(plan) ==> has_sources(later)
            &&& jars_are_libraries(plan, setting.root) ==> jars_are_libraries(later, setting.root)
        }),
{
    if rules_allow(library.rules@, setting.os_type) {
        let middle = match library.downloads.artifact {
            None => plan,
            Some(artifact) => with_artifact(plan, artifact, setting),
        };
        if let Some(artifact) = library.downloads.artifact {
            assert(library_task(artifact, setting).urls.len() == 2);
            lemma_jar(plan.with_task(library_task(artifact, setting)), artifact.path@, setting);
        }
        lemma_natives(
            middle,
            library.downloads.classifiers@,
            native_classifiers(setting.os_type),
            setting,
        );
    }
}

/// Adding libraries keeps a plan sound and drops nothing from it.
pub proof fn lemma_libraries(plan: PlanView, libraries: Seq<Library>, setting: Setting)
    ensures
        ({
            let later = with_libraries(plan, libraries, setting);
            &&& extends(later, plan)
            &&& has_sources(plan) ==> has_sources(later)
            &&& jars_are_libraries(plan, setting.root) ==> jars_are_libraries(later, setting.root)
        }),
    decreases libraries.len(),
{
    if libraries.len() > 0 {
        lemma_libraries(plan, libraries.drop_last(), setting);
        lemma_library(
            with_libraries(plan, libraries.drop_last(), setting),
            libraries.last(),
            setting,
        );
    }
}

/// Adding assets adds one file for each, in order, and no archive.
pub proof fn lemma_assets(plan: PlanView, assets: Seq<AssetObject>, setting: Setting)
    ensures
        with_assets(plan, assets, setting).tasks == plan.tasks + assets.map_values(
            |asset: AssetObject| asset_task(asset.hash@, setting),
        ),
        with_assets(plan, assets, setting).native_jars == plan.native_jars,
    decreases assets.len(),
{
    let make = |asset: AssetObject| asset_task(asset.hash@, setting);
    if assets.len() > 0 {
        lemma_assets(plan, assets.drop_last(), setting);
        assert(assets.map_values(make) =~= assets.drop_last().map_values(make).push(
            make(assets.last()),
        ));
        assert(plan.tasks + assets.map_values(make) =~= (plan.tasks
            + assets.drop_last().map_values(make)).push(make(assets.last())));
    } else {
        assert(plan.tasks + assets.map_values(make) =~= plan.tasks);
    }
}

/// Every file of a version's plan has a source, and every archive that is unpacked lies in the
/// libraries directory.
pub proof fn law_plans_are_sound(json: VersionJson, assets: Seq<AssetObject>, setting: Setting)
    ensures
        has_sources(download_plan(json, assets, setting)),
        jars_are_libraries(download_plan(json, assets, setting), setting.root),
{
    let start = version_plan(json, setting);
    let middle = with_libraries(start, json.libraries@, setting);
    let plan = download_plan(json, assets, setting);
    assert(client_task(json.downloads.client, setting).urls.len() == 2);
    lemma_libraries(start, json.libraries@, setting);
    lemma_assets(middle, assets, setting);
    assert forall|i: int| 0 <= i < plan.tasks.len() implies (
    #[trigger] plan.tasks[i]).urls.len() > 0 by {
        if i < middle.tasks.len() {
            assert(plan.tasks[i] == middle.tasks[i]);
        } else {
            let hash = assets[i - middle.tasks.len()].hash@;
            assert(plan.tasks[i] == asset_task(hash, setting));
            assert(asset_task(hash, setting).urls.len() == 2);
        }
    }
}

/// A version's plan begins with the version's own files and ends with one file for each asset, in
/// the order of the assets; what stands between them is the libraries'.
pub proof fn law_plans_are_ordered(json: VersionJson, assets: Seq<AssetObject>, setting: Setting)
    ensures
        ({
            let own = version_plan(json, setting);
            let middle = with_libraries(own, json.libraries@, setting);
            let plan = download_plan(json, assets, setting);
            &&& own.tasks[0] == client_task(json.downloads.client, setting)
            &&& own.tasks.is_prefix_of(middle.tasks)
            &&& plan.tasks == middle.tasks + assets.map_values(
                |asset: AssetObject| asset_task(asset.hash@, setting),
            )
            &&& plan.native_jars == middle.native_jars
        }),
{
    let own = version_plan(json, setting);
    lemma_libraries(own, json.libraries@, setting);
    lemma_assets(with_libraries(own, json.libraries@, setting), assets, setting);
}

/// The version's archive and the files of libraries go where the command line of the version looks
/// for them.
pub proof fn law_downloads_go_where_the_launcher_looks(
    client: ClientDownload,
    artifact: Artifact,
    setting: Setting,
)
    ensures
        client_task(client, setting).target_path == version_jar_parts(
            setting.root,
            setting.version,
        ),
        library_task(artifact, setting).target_path == library_parts(setting.root, artifact.path@),
{
}

/// A library that its rules keep from the system adds nothing, wherever it stands.
pub proof fn law_disallowed_libraries_add_nothing(
    plan: PlanView,
    before: Seq<Library>,
    library: Library,
    after: Seq<Library>,
    setting: Setting,
)
    requires
        !rules_allow(library.rules@, setting.os_type),
    ensures
        with_libraries(plan, before.push(library) + after, setting) == with_libraries(
            plan,
            before + after,
            setting,
        ),
    decreases after.len(),
{
    let longer = before.push(library) + after;
    let shorter = before + after;
    if after.len() == 0 {
        assert(longer.drop_last() =~= before);
        assert(longer.last() == library);
        assert(shorter =~= before);
    } else {
        law_disallowed_libraries_add_nothing(plan, before, library, after.drop_last(), setting);
        assert(longer.drop_last() =~= before.push(library) + after.drop_last());
        assert(shorter.drop_last() =~= before + after.drop_last());
        assert(longer.last() == after.last());
        assert(shorter.last() == after.last());
    }
}

/// Rules are read in order and the last one decides: one that allows allows what it covers and
/// nothing else, one that disallows disallows what it covers and nothing else, and any other
/// changes nothing. Without rules all is allowed.
pub proof fn law_last_rule_decides(rules: Seq<Rule>, rule: Rule, os_type: Seq<char>)
    ensures
        rules_allow(Seq::empty(), os_type),
        rule.action@ == "allow"@ ==> rules_allow(rules.push(rule), os_type) == rule_covers(
            rule,
            os_type,
        ),
        rule.action@ == "disallow"@ ==> rules_allow(rules.push(rule), os_type) == !rule_covers(
            rule,
            os_type,
        ),
        rule.action@ != "allow"@ && rule.action@ != "disallow"@ ==> rules_allow(
            rules.push(rule),
            os_type,
        ) == rules_allow(rules, os_type),
{
    assert(rules.push(rule).drop_last() =~= rules);
    assert("allow"@ != "disallow"@) by {
        reveal_strlit("allow");
        reveal_strlit("disallow");
        assert("allow"@.len() != "disallow"@.len());
    }
}

/// A rule allows or disallows.
pub open spec fn decides(rule: Rule) -> bool {
    rule.action@ == "allow"@ || rule.action@ == "disallow"@
}

/// Rules of which one decides leave rules in front of them without effect.
pub proof fn law_later_rules_override(earlier: Seq<Rule>, later: Seq<Rule>, os_type: Seq<char>)
    requires
        exists|i: int| 0 <= i < later.len() && decides(#[trigger] later[i]),
    ensures
        rules_allow(earlier + later, os_type) == rules_allow(later, os_type),
    decreases later.len(),
{
    let all = earlier + later;
    assert(all.last() == later.last());
    if !decides(later.last()) {
        let i = choose|i: int| 0 <= i < later.len() && decides(#[trigger] later[i]);
        assert(later.drop_last()[i] == later[i]);
        law_later_rules_override(earlier, later.drop_last(), os_type);
        assert(all.drop_last() =~= earlier + later.drop_last());
    }
}

/// The first two bytes of a digest begin it.
pub proof fn law_prefix_begins_the_digest(hash: Seq<char>)
    requires
        hash_prefix(hash) is Some,
    ensures
        starts_with(hash, hash_prefix(hash)->0),
{
}

} // verus!
