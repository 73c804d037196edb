//! Which archives hold native libraries for a system, and which of their files are unpacked.
use crate::launcher::{library_parts, library_path};
use crate::paths::{extension_of, file_name, has_extension, is_file_name, is_path_text, render_path};
use crate::text::{
    before_first, contains, has_prefix, has_text, lemma_next_occurrence,
    lemma_next_occurrence_stays, lemma_split_is_never_empty, lowercase, lowered, next_occurrence,
    push_text, same_text, split, split_text, starts_with, text_before,
};
use vstd::prelude::*;

verus! {

/// The libraries of a version.
pub struct VersionManifest {
    pub libraries: Vec<Library>,
}

/// A library of a version.
pub struct Library {
    pub downloads: Downloads,
}

/// The files of a library. The classifiers come in the order in which they are to be looked at.
pub struct Downloads {
    pub artifact: Option<Artifact>,
    pub classifiers: Option<Vec<Artifact>>,
}

/// A file of a library, by its place in the libraries directory.
pub struct Artifact {
    pub path: String,
}

// ---------------------------------------------------------------------------------------------
// File names
// ---------------------------------------------------------------------------------------------

/// How file names speak of the system `os`.
pub open spec fn system_tags(os: Seq<char>) -> Seq<Seq<char>> {
    if os == "windows"@ {
        seq!["-windows"@]
    } else if os == "linux"@ {
        seq!["-linux"@]
    } else if os == "macos"@ {
        seq!["-macos"@, "-osx"@]
    } else {
        Seq::empty()
    }
}

/// One of `tags` begins `text`.
pub open spec fn starts_with_any(text: Seq<char>, tags: Seq<Seq<char>>) -> bool {
    exists|i: int| 0 <= i < tags.len() && starts_with(text, #[trigger] tags[i])
}

/// A path names natives for the system `os`: what stands between its first two `-natives`, or
/// after its only one, begins with a tag of the system.
pub open spec fn natives_match_system(path: Seq<char>, os: Seq<char>) -> bool {
    let parts = split(path, "-natives"@);
    parts.len() >= 2 && starts_with_any(parts[1], system_tags(os))
}

/// The last piece that is not empty.
pub open spec fn last_nonempty(pieces: Seq<Seq<char>>) -> Option<Seq<char>>
    decreases pieces.len(),
{
    if pieces.len() == 0 {
        None
    } else if pieces.last().len() > 0 {
        Some(pieces.last())
    } else {
        last_nonempty(pieces.drop_last())
    }
}

/// A name of a system, as file names write it.
pub open spec fn is_os_name(name: Seq<char>) -> bool {
    name == "windows"@ || name == "linux"@ || name == "macos"@ || name == "osx"@
}

/// The processor that a path names, in lower case: its last word, up to a full stop. None, where
/// that word is the name of a system.
pub open spec fn named_arch(path: Seq<char>) -> Option<Seq<char>> {
    match last_nonempty(split(path, "-"@)) {
        None => None,
        Some(word) => {
            let name = before_first(word, "."@);
            if is_os_name(name) {
                None
            } else {
                Some(lowered(name))
            }
        },
    }
}

/// How file names speak of the system `os`.
pub fn get_system_tag(os: &str) -> (tags: Vec<String>)
    ensures
        tags.deep_view() == system_tags(os@),
{
    let mut tags: Vec<String> = Vec::new();
    if same_text(os, "windows") {
        push_text(&mut tags, "-windows".to_owned());
    } else if same_text(os, "linux") {
        push_text(&mut tags, "-linux".to_owned());
    } else if same_text(os, "macos") {
        push_text(&mut tags, "-macos".to_owned());
        push_text(&mut tags, "-osx".to_owned());
    }
    assert(tags.deep_view() =~= system_tags(os@));
    tags
}

/// Whether a path names natives for the system `os`.
pub fn match_system(path: &str, os: &str) -> (matched: bool)
    ensures
        matched == natives_match_system(path@, os@),
{
    let tags = get_system_tag(os);
    if tags.len() == 0 {
        assert(system_tags(os@).len() == 0);
        return false;
    }
    proof {
        reveal_strlit("-natives");
    }
    let parts = split_text(path, "-natives");
    if parts.len() < 2 {
        return false;
    }
    let ghost all = tags.deep_view();
    let ghost rest = split(path@, "-natives"@)[1];
    assert(rest == parts@[1]@);
    let mut i: usize = 0;
    while i < tags.len()
        invariant
            i <= tags@.len(),
            all == tags.deep_view(),
            all == system_tags(os@),
            parts.deep_view() == split(path@, "-natives"@),
            parts@.len() >= 2,
            rest == parts@[1]@,
            rest == split(path@, "-natives"@)[1],
            forall|j: int| 0 <= j < i ==> !starts_with(rest, #[trigger] all[j]),
        decreases tags@.len() - i,
    {
        assert(all[i as int] == tags@[i as int]@);
        if has_prefix(parts[1].as_str(), tags[i].as_str()) {
            assert(starts_with(rest, all[i as int]));
            return true;
        }
        i = i + 1;
    }
    false
}

/// The processor that a path names, where it names one, and whether it names none.
pub fn extract_arch_info(path: &str) -> (info: (Option<String>, bool))
    ensures
        info.0.deep_view() == named_arch(path@),
        info.1 == (named_arch(path@) is None),
{
    proof {
        reveal_strlit("-");
        reveal_strlit(".");
    }
    let segments = split_text(path, "-");
    let ghost all = segments.deep_view();
    let mut i: usize = segments.len();
    assert(all.take(i as int) =~= all);
    while i > 0
        invariant
            i <= segments@.len(),
            all == segments.deep_view(),
            all == split(path@, "-"@),
            "."@.len() == 1,
            last_nonempty(all) == last_nonempty(all.take(i as int)),
        decreases i,
    {
        proof {
            assert(all.take(i as int).drop_last() =~= all.take(i - 1));
            assert(all.take(i as int).last() == segments@[i - 1]@);
        }
        let segment = segments[i - 1].as_str();
        if !segment.is_empty() {
            let name = text_before(segment, ".");
            let is_os = same_text(name.as_str(), "windows") || same_text(name.as_str(), "linux")
                || same_text(name.as_str(), "macos") || same_text(name.as_str(), "osx");
            return if is_os {
                (None, true)
            } else {
                (Some(lowercase(name.as_str())), false)
            };
        }
        i = i - 1;
    }
    (None, true)
}

// ---------------------------------------------------------------------------------------------
// Selection
// ---------------------------------------------------------------------------------------------

/// An archive for the processor `named` serves the processor `current`. One that names no
/// processor is for `x86_64`.
pub open spec fn arch_serves(named: Option<Seq<char>>, current: Seq<char>) -> bool {
    match named {
        None => current == "x86_64"@,
        Some(arch) => if current == "x86_64"@ {
            arch == "x86_64"@
        } else if current == "x86"@ {
            arch == "x86"@
        } else if current == "aarch64"@ {
            arch == "arm64"@ || arch == "aarch_64"@
        } else {
            false
        },
    }
}

/// The processor that is reported for an archive.
pub open spec fn reported_arch(path: Seq<char>) -> Seq<char> {
    match named_arch(path) {
        None => "x86_64"@,
        Some(arch) => arch,
    }
}

/// An archive, and the processor that is reported for it.
pub type Selection = (Seq<char>, Seq<char>);

/// The archive `path` of a library, where it holds natives for the system and its processor.
pub open spec fn selected_artifact(path: Seq<char>, os: Seq<char>, arch: Seq<char>) -> Option<
    Selection,
> {
    if contains(path, "-natives"@) && natives_match_system(path, os) && arch_serves(
        named_arch(path),
        arch,
    ) {
        Some((path, reported_arch(path)))
    } else {
        None
    }
}

/// A path names natives for 64-bit Windows, in the spelling of old versions.
pub open spec fn is_windows_64(path: Seq<char>, os: Seq<char>) -> bool {
    os == "windows"@ && contains(path, "natives-windows-64"@)
}

/// The archive `path` of a library's classifiers, where it holds natives for the system and its
/// processor. On Windows the old spelling for 64 bits is always taken.
pub open spec fn selected_classifier(path: Seq<char>, os: Seq<char>, arch: Seq<char>) -> Option<
    Selection,
> {
    if !contains(path, "-natives"@) {
        None
    } else if is_windows_64(path, os) {
        Some((path, "x86_64"@))
    } else if natives_match_system(path, os) && arch_serves(named_arch(path), arch) {
        Some((path, reported_arch(path)))
    } else {
        None
    }
}

/// `list`, with `item` added where there is one.
pub open spec fn with_item(list: Seq<Selection>, item: Option<Selection>) -> Seq<Selection> {
    match item {
        None => list,
        Some(item) => list.push(item),
    }
}

/// What is selected among classifiers, in their order.
pub open spec fn selected_classifiers(
    classifiers: Seq<Artifact>,
    os: Seq<char>,
    arch: Seq<char>,
) -> Seq<Selection>
    decreases classifiers.len(),
{
    if classifiers.len() == 0 {
        Seq::empty()
    } else {
        with_item(
            selected_classifiers(classifiers.drop_last(), os, arch),
            selected_classifier(classifiers.last().path@, os, arch),
        )
    }
}

/// What is selected of a library's own archive.
pub open spec fn selected_archive(downloads: Downloads, os: Seq<char>, arch: Seq<char>) -> Seq<
    Selection,
> {
    match downloads.artifact {
        None => Seq::empty(),
        Some(artifact) => with_item(
            Seq::empty(),
            selected_artifact(artifact.path@, os, arch),
        ),
    }
}

/// What is selected of one library: its archive first, then its classifiers.
pub open spec fn selected_of_library(library: Library, os: Seq<char>, arch: Seq<char>) -> Seq<
    Selection,
> {
    selected_archive(library.downloads, os, arch) + match library.downloads.classifiers {
        None => Seq::empty(),
        Some(classifiers) => selected_classifiers(classifiers@, os, arch),
    }
}

/// What is selected of all libraries, in their order.
pub open spec fn selected_natives(libraries: Seq<Library>, os: Seq<char>, arch: Seq<char>) -> Seq<
    Selection,
>
    decreases libraries.len(),
{
    if libraries.len() == 0 {
        Seq::empty()
    } else {
        selected_natives(libraries.drop_last(), os, arch) + selected_of_library(
            libraries.last(),
            os,
            arch,
        )
    }
}

/// An archive with native libraries, and the processor that is reported for it.
pub struct NativeArchive {
    pub path: String,
    pub arch: String,
}

impl View for NativeArchive {
    type V = Selection;

    open spec fn view(&self) -> Selection {
        (self.path@, self.arch@)
    }
}

impl DeepView for NativeArchive {
    type V = Selection;

    open spec fn deep_view(&self) -> Selection {
        self@
    }
}

/// Whether an archive for the processor `named` serves the processor `current`.
pub fn is_arch_served(named: &Option<String>, current: &str) -> (served: bool)
    ensures
        served == arch_serves(named.deep_view(), current@),
{
    match named {
        None => same_text(current, "x86_64"),
        Some(arch) => if same_text(current, "x86_64") {
            same_text(arch.as_str(), "x86_64")
        } else if same_text(current, "x86") {
            same_text(arch.as_str(), "x86")
        } else if same_text(current, "aarch64") {
            same_text(arch.as_str(), "arm64") || same_text(arch.as_str(), "aarch_64")
        } else {
            false
        },
    }
}

/// The archive `path` of a library, where it holds natives for the system and its processor.
pub fn select_artifact(path: &str, os: &str, arch: &str) -> (selected: Option<NativeArchive>)
    ensures
        selected.deep_view() == selected_artifact(path@, os@, arch@),
{
    if has_text(path, "-natives") && match_system(path, os) {
        let (named, _) = extract_arch_info(path);
        if is_arch_served(&named, arch) {
            let reported = match named {
                None => "x86_64".to_owned(),
                Some(arch) => arch,
            };
            return Some(NativeArchive { path: path.to_owned(), arch: reported });
        }
    }
    None
}

/// The archive `path` of a library's classifiers, where it holds natives for the system and its
/// processor.
pub fn select_classifier(path: &str, os: &str, arch: &str) -> (selected: Option<NativeArchive>)
    ensures
        selected.deep_view() == selected_classifier(path@, os@, arch@),
{
    if !has_text(path, "-natives") {
        return None;
    }
    if same_text(os, "windows") && has_text(path, "natives-windows-64") {
        return Some(NativeArchive { path: path.to_owned(), arch: "x86_64".to_owned() });
    }
    select_artifact(path, os, arch)
}

/// Adds an archive to the end of a list.
fn push_archive(list: &mut Vec<NativeArchive>, archive: NativeArchive)
    ensures
        final(list).deep_view() == old(list).deep_view().push(archive@),
{
    list.push(archive);
    assert(list.deep_view() =~= old(list).deep_view().push(archive@));
}

/// The archives of a version that hold natives for the system and its processor.
pub fn select_natives(manifest: &VersionManifest, os: &str, arch: &str) -> (archives: Vec<
    NativeArchive,
>)
    ensures
        archives.deep_view() == selected_natives(manifest.libraries@, os@, arch@),
{
    let libraries = &manifest.libraries;
    let mut archives: Vec<NativeArchive> = Vec::new();
    let mut i: usize = 0;
    assert(archives.deep_view() =~= Seq::empty());
    while i < libraries.len()
        invariant
            i <= libraries@.len(),
            archives.deep_view() == selected_natives(libraries@.take(i as int), os@, arch@),
        decreases libraries@.len() - i,
    {
        let library = &libraries[i];
        let ghost before = archives.deep_view();
        proof {
            assert(libraries@.take(i + 1).drop_last() =~= libraries@.take(i as int));
            assert(libraries@.take(i + 1).last() == *library);
        }
        if let Some(artifact) = &library.downloads.artifact {
            if let Some(archive) = select_artifact(artifact.path.as_str(), os, arch) {
                push_archive(&mut archives, archive);
            }
        }
        let ghost after_artifact = archives.deep_view();
        assert(after_artifact =~= before + selected_archive(library.downloads, os@, arch@));
        if let Some(classifiers) = &library.downloads.classifiers {
            let mut j: usize = 0;
            assert(after_artifact =~= after_artifact + selected_classifiers(
                classifiers@.take(0),
                os@,
                arch@,
            ));
            while j < classifiers.len()
                invariant
                    j <= classifiers@.len(),
                    archives.deep_view() == after_artifact + selected_classifiers(
                        classifiers@.take(j as int),
                        os@,
                        arch@,
                    ),
                decreases classifiers@.len() - j,
            {
                proof {
                    assert(classifiers@.take(j + 1).drop_last() =~= classifiers@.take(j as int));
                }
                if let Some(archive) = select_classifier(classifiers[j].path.as_str(), os, arch) {
                    push_archive(&mut archives, archive);
                }
                assert(archives.deep_view() =~= after_artifact + selected_classifiers(
                    classifiers@.take(j + 1),
                    os@,
                    arch@,
                ));
                j = j + 1;
            }
            assert(classifiers@.take(j as int) =~= classifiers@);
        }
        assert(archives.deep_view() =~= before + selected_of_library(*library, os@, arch@));
        i = i + 1;
    }
    assert(libraries@.take(i as int) =~= libraries@);
    archives
}

/// `full` is the list `selected` with each archive's path led by the libraries directory, as a
/// platform writes it.
pub open spec fn are_full_archives(
    full: Seq<Selection>,
    selected: Seq<Selection>,
    root: Seq<char>,
) -> bool {
    &&& full.len() == selected.len()
    &&& forall|i: int|
        0 <= i < full.len() ==> is_path_text(
            (#[trigger] full[i]).0,
            library_parts(root, selected[i].0),
        ) && full[i].1 == selected[i].1
}

/// The archives that hold natives for the system and its processor, by their full paths, in the
/// order in which they are to be unpacked.
pub fn extract_library_paths(
    minecraft_path: &str,
    manifest: &VersionManifest,
    os: &str,
    arch: &str,
) -> (archives: Vec<NativeArchive>)
    ensures
        are_full_archives(
            archives.deep_view(),
            selected_natives(manifest.libraries@, os@, arch@),
            minecraft_path@,
        ),
{
    let selected = select_natives(manifest, os, arch);
    let ghost all = selected.deep_view();
    let mut archives: Vec<NativeArchive> = Vec::new();
    let mut i: usize = 0;
    while i < selected.len()
        invariant
            i <= selected@.len(),
            all == selected.deep_view(),
            are_full_archives(archives.deep_view(), all.take(i as int), minecraft_path@),
        decreases selected@.len() - i,
    {
        let path = render_path(&library_path(minecraft_path, selected[i].path.as_str()));
        let archive = NativeArchive { path, arch: selected[i].arch.clone() };
        let ghost before = archives.deep_view();
        push_archive(&mut archives, archive);
        proof {
            let now = archives.deep_view();
            assert(all[i as int] == selected@[i as int]@);
            assert forall|j: int| 0 <= j < now.len() implies is_path_text(
                (#[trigger] now[j]).0,
                library_parts(minecraft_path@, all.take(i + 1)[j].0),
            ) && now[j].1 == all.take(i + 1)[j].1 by {
                if j < i {
                    assert(now[j] == before[j]);
                    assert(all.take(i as int)[j] == all.take(i + 1)[j]);
                }
            }
        }
        i = i + 1;
    }
    assert(all.take(i as int) =~= all);
    archives
}

/// What is to be done next with the archives of a version.
pub enum NativesStep {
    /// Work off the archive at this position.
    Unpack(usize),
    /// Report the paths of all archives: each has been worked off.
    Finished(Vec<String>),
    /// Give up, with this message.
    Failed(String),
}

/// A step with its texts.
pub enum NativesStepView {
    Unpack(int),
    Finished(Seq<Seq<char>>),
    Failed(Seq<char>),
}

impl View for NativesStep {
    type V = NativesStepView;

    open spec fn view(&self) -> NativesStepView {
        match self {
            NativesStep::Unpack(at) => NativesStepView::Unpack(*at as int),
            NativesStep::Finished(paths) => NativesStepView::Finished(paths.deep_view()),
            NativesStep::Failed(message) => NativesStepView::Failed(message@),
        }
    }
}

/// The paths of archives.
pub open spec fn paths_of(archives: Seq<Selection>) -> Seq<Seq<char>> {
    archives.map_values(|archive: Selection| archive.0)
}

/// The step that works off the archive at `at`, where there is one, and reports all of them
/// otherwise.
pub open spec fn unpack_step(archives: Seq<Selection>, at: int) -> NativesStepView {
    if at < archives.len() {
        NativesStepView::Unpack(at)
    } else {
        NativesStepView::Finished(paths_of(archives))
    }
}

/// The step that follows the work on the archive at `at`: the next archive, or the end where the
/// work failed.
pub open spec fn step_after_natives(
    archives: Seq<Selection>,
    at: int,
    failure: Option<Seq<char>>,
) -> NativesStepView {
    match failure {
        Some(message) => NativesStepView::Failed(message),
        None => unpack_step(archives, at + 1),
    }
}

/// Lists the paths of archives.
fn list_paths(archives: &Vec<NativeArchive>) -> (paths: Vec<String>)
    ensures
        paths.deep_view() == paths_of(archives.deep_view()),
{
    let ghost all = paths_of(archives.deep_view());
    let mut paths: Vec<String> = Vec::new();
    let mut i: usize = 0;
    assert(paths.deep_view() =~= all.take(0));
    while i < archives.len()
        invariant
            i <= archives@.len(),
            all == paths_of(archives.deep_view()),
            paths.deep_view() == all.take(i as int),
        decreases archives@.len() - i,
    {
        push_text(&mut paths, archives[i].path.clone());
        assert(all.take(i + 1) =~= all.take(i as int).push(all[i as int]));
        i = i + 1;
    }
    assert(all.take(i as int) =~= all);
    paths
}

/// The first step with the archives of a version.
pub fn first_archive(archives: &Vec<NativeArchive>) -> (step: NativesStep)
    ensures
        step@ == unpack_step(archives.deep_view(), 0),
{
    if archives.len() > 0 {
        NativesStep::Unpack(0)
    } else {
        NativesStep::Finished(list_paths(archives))
    }
}

/// The failure that an outcome reports, where it reports one.
pub open spec fn failure_of(outcome: Result<(), String>) -> Option<Seq<char>> {
    match outcome {
        Ok(_) => None,
        Err(message) => Some(message@),
    }
}

/// The step that follows the work on the archive at `at`.
pub fn after_archive_work(
    archives: &Vec<NativeArchive>,
    at: usize,
    outcome: Result<(), String>,
) -> (step: NativesStep)
    requires
        at < archives@.len(),
    ensures
        step@ == step_after_natives(archives.deep_view(), at as int, failure_of(outcome)),
{
    match outcome {
        Err(message) => NativesStep::Failed(message),
        Ok(_) => if at < archives.len() - 1 {
            NativesStep::Unpack(at + 1)
        } else {
            NativesStep::Finished(list_paths(archives))
        },
    }
}

/// How the work on archives ends, from the archive at `at` on, where the work on each fails as
/// `failures` says.
pub open spec fn worked_off(
    archives: Seq<Selection>,
    failures: Seq<Option<Seq<char>>>,
    at: int,
) -> NativesStepView
    decreases archives.len() - at,
{
    if at < 0 || at >= archives.len() {
        unpack_step(archives, at)
    } else {
        match step_after_natives(archives, at, failures[at]) {
            NativesStepView::Unpack(next) if next > at => worked_off(archives, failures, next),
            step => step,
        }
    }
}

/// Where no archive fails, all are reported; otherwise the first that fails ends the work, with
/// its message.
pub proof fn law_first_failed_archive_ends_the_work(
    archives: Seq<Selection>,
    failures: Seq<Option<Seq<char>>>,
    at: int,
)
    requires
        failures.len() == archives.len(),
        0 <= at <= archives.len(),
    ensures
        (forall|i: int| at <= i < archives.len() ==> (#[trigger] failures[i]) is None)
            ==> worked_off(archives, failures, at) == NativesStepView::Finished(paths_of(archives)),
        forall|k: int|
            at <= k < archives.len() && (#[trigger] failures[k]) is Some && (forall|i: int|
                at <= i < k ==> (#[trigger] failures[i]) is None) ==> worked_off(
                archives,
                failures,
                at,
            ) == NativesStepView::Failed(failures[k]->0),
    decreases archives.len() - at,
{
    if at < archives.len() && failures[at] is None {
        law_first_failed_archive_ends_the_work(archives, failures, at + 1);
        assert forall|k: int|
            at <= k < archives.len() && (#[trigger] failures[k]) is Some && (forall|i: int|
                at <= i < k ==> (#[trigger] failures[i]) is None) implies worked_off(
            archives,
            failures,
            at,
        ) == NativesStepView::Failed(failures[k]->0) by {
            assert(k >= at + 1);
        }
    }
}

// ---------------------------------------------------------------------------------------------
// Unpacking
// ---------------------------------------------------------------------------------------------

/// The extension of native libraries on the system `os`.
pub open spec fn native_extension(os: Seq<char>) -> Option<Seq<char>> {
    if os == "windows"@ {
        Some("dll"@)
    } else if os == "macos"@ {
        Some("dylib"@)
    } else if os == "linux"@ {
        Some("so"@)
    } else {
        None
    }
}

/// The name under which an entry of an archive is unpacked: its file name, where that has the
/// extension `extension` or is the one license file that goes along.
pub open spec fn unpacked_name(file_name: Option<Seq<char>>, extension: Seq<char>) -> Option<
    Seq<char>,
> {
    match file_name {
        None => None,
        Some(name) => if extension_of(name) == Some(extension) || name == "Tracy_LICENSE"@ {
            Some(name)
        } else {
            None
        },
    }
}

/// What came of opening an archive.
pub enum JarOpening {
    /// There is no such file.
    Missing,
    /// The file could not be opened, for the reason given.
    Unreadable(String),
    /// The file is no archive, for the reason given.
    Damaged(String),
    /// The archive has this many entries.
    Entries(usize),
}

/// What came of unpacking an entry.
pub enum JarUnpacking {
    /// The entry of this name could not be read, for the reason given.
    ReadFailed(String, String),
    /// The file of this name could not be written, for the reason given.
    WriteFailed(String, String),
    /// The entry was written to its file.
    Written,
}

/// What is to be done next with an archive.
pub enum JarStep {
    /// Look at the entry at this position.
    Read(usize),
    /// Unpack the entry at this position under this name.
    Unpack(usize, String),
    /// Nothing: the archive is done.
    Finished,
    /// Give up, with this message.
    Failed(String),
}

/// A step with its text.
pub enum JarStepView {
    Read(int),
    Unpack(int, Seq<char>),
    Finished,
    Failed(Seq<char>),
}

impl View for JarStep {
    type V = JarStepView;

    open spec fn view(&self) -> JarStepView {
        match self {
            JarStep::Read(at) => JarStepView::Read(*at as int),
            JarStep::Unpack(at, name) => JarStepView::Unpack(*at as int, name@),
            JarStep::Finished => JarStepView::Finished,
            JarStep::Failed(message) => JarStepView::Failed(message@),
        }
    }
}

/// The message of a failure with an archive.
pub open spec fn jar_message(problem: Seq<char>, jar: Seq<char>, error: Seq<char>) -> Seq<char> {
    problem + ": "@ + jar + "\n错误: "@ + error + "\n请重新下载该版本"@
}

/// The step that looks at the entry at `at`, where the archive has one.
pub open spec fn read_step(at: int, entries: int) -> JarStepView {
    if at < entries {
        JarStepView::Read(at)
    } else {
        JarStepView::Finished
    }
}

/// The step that follows the opening of an archive.
pub open spec fn step_after_opening(jar: Seq<char>, os: Seq<char>, opening: JarOpening) -> JarStepView {
    match opening {
        JarOpening::Missing => JarStepView::Failed(
            "JAR文件不存在: "@ + jar + "\n请重新下载该版本"@,
        ),
        JarOpening::Unreadable(error) => JarStepView::Failed(
            jar_message("无法打开JAR文件"@, jar, error@),
        ),
        JarOpening::Damaged(error) => JarStepView::Failed(
            jar_message("损坏的JAR文件"@, jar, error@),
        ),
        JarOpening::Entries(entries) => if native_extension(os) is Some {
            read_step(0, entries as int)
        } else {
            JarStepView::Finished
        },
    }
}

/// The step that follows the look at the entry at `at`: unpacking, where its file name asks for
/// it, or the next entry.
pub open spec fn step_after_entry(
    file_name: Option<Seq<char>>,
    at: int,
    entries: int,
    extension: Seq<char>,
) -> JarStepView {
    match unpacked_name(file_name, extension) {
        Some(name) => JarStepView::Unpack(at, name),
        None => read_step(at + 1, entries),
    }
}

/// The step that follows the unpacking of the entry at `at`.
pub open spec fn step_after_unpacking(outcome: JarUnpacking, at: int, entries: int) -> JarStepView {
    match outcome {
        JarUnpacking::ReadFailed(name, error) => JarStepView::Failed(
            jar_message("读取文件失败"@, name@, error@),
        ),
        JarUnpacking::WriteFailed(file, error) => JarStepView::Failed(
            "写入文件失败: "@ + file@ + "\n错误: "@ + error@ + "\n请检查文件权限"@,
        ),
        JarUnpacking::Written => read_step(at + 1, entries),
    }
}

/// The extension of native libraries on the system `os`.
pub fn get_native_extension(os: &str) -> (extension: Option<String>)
    ensures
        extension.deep_view() == native_extension(os@),
{
    if same_text(os, "windows") {
        Some("dll".to_owned())
    } else if same_text(os, "macos") {
        Some("dylib".to_owned())
    } else if same_text(os, "linux") {
        Some("so".to_owned())
    } else {
        None
    }
}

/// Words the failure of an archive.
fn word_jar_message(problem: &str, jar: &str, error: &str) -> (message: String)
    ensures
        message@ == jar_message(problem@, jar@, error@),
{
    problem.to_owned().concat(": ").concat(jar).concat("\n错误: ").concat(error).concat(
        "\n请重新下载该版本",
    )
}

/// The step that follows the opening of an archive.
pub fn after_opening(jar_path: &str, os: &str, opening: JarOpening) -> (step: JarStep)
    ensures
        step@ == step_after_opening(jar_path@, os@, opening),
{
    match opening {
        JarOpening::Missing => JarStep::Failed(
            "JAR文件不存在: ".to_owned().concat(jar_path).concat("\n请重新下载该版本"),
        ),
        JarOpening::Unreadable(error) => JarStep::Failed(
            word_jar_message("无法打开JAR文件", jar_path, error.as_str()),
        ),
        JarOpening::Damaged(error) => JarStep::Failed(
            word_jar_message("损坏的JAR文件", jar_path, error.as_str()),
        ),
        JarOpening::Entries(entries) => if get_native_extension(os).is_some() && entries > 0 {
            JarStep::Read(0)
        } else {
            JarStep::Finished
        },
    }
}

/// The step that follows the look at an entry whose file name is known.
pub fn after_entry_name(file_name: Option<String>, at: usize, entries: usize, extension: &str) -> (
    step: JarStep)
    requires
        at < entries,
    ensures
        step@ == step_after_entry(file_name.deep_view(), at as int, entries as int, extension@),
{
    if let Some(name) = file_name {
        if has_extension(name.as_str(), extension) || same_text(name.as_str(), "Tracy_LICENSE") {
            return JarStep::Unpack(at, name);
        }
    }
    if at + 1 < entries {
        JarStep::Read(at + 1)
    } else {
        JarStep::Finished
    }
}

/// The step that follows the look at an entry: the entry's name, or why it could not be read.
pub fn after_entry(
    jar_path: &str,
    entry: Result<String, String>,
    at: usize,
    entries: usize,
    extension: &str,
) -> (step: JarStep)
    requires
        at < entries,
    ensures
        match entry {
            Err(error) => step@ == JarStepView::Failed(
                jar_message("损坏的ZIP条目"@, jar_path@, error@),
            ),
            Ok(name) => exists|file_name: Option<Seq<char>>|
                is_file_name(file_name, name@) && step@ == #[trigger] step_after_entry(
                    file_name,
                    at as int,
                    entries as int,
                    extension@,
                ),
        },
{
    match entry {
        Err(error) => JarStep::Failed(
            word_jar_message("损坏的ZIP条目", jar_path, error.as_str()),
        ),
        Ok(name) => {
            let file = file_name(name.as_str());
            assert(is_file_name(file.deep_view(), name@));
            after_entry_name(file, at, entries, extension)
        },
    }
}

/// The step that follows the unpacking of an entry.
pub fn after_unpacking(outcome: JarUnpacking, at: usize, entries: usize) -> (step: JarStep)
    requires
        at < entries,
    ensures
        step@ == step_after_unpacking(outcome, at as int, entries as int),
{
    match outcome {
        JarUnpacking::ReadFailed(name, error) => JarStep::Failed(
            word_jar_message("读取文件失败", name.as_str(), error.as_str()),
        ),
        JarUnpacking::WriteFailed(file, error) => JarStep::Failed(
            "写入文件失败: ".to_owned().concat(file.as_str()).concat("\n错误: ").concat(
                error.as_str(),
            ).concat("\n请检查文件权限"),
        ),
        JarUnpacking::Written => if at + 1 < entries {
            JarStep::Read(at + 1)
        } else {
            JarStep::Finished
        },
    }
}

// ---------------------------------------------------------------------------------------------
// What holds of every selection and every archive
// ---------------------------------------------------------------------------------------------

/// Every archive of a list names natives.
pub open spec fn all_name_natives(list: Seq<Selection>) -> bool {
    forall|i: int| 0 <= i < list.len() ==> contains((#[trigger] list[i]).0, "-natives"@)
}

/// The classifiers that are selected name natives, and there are none on an unknown system.
proof fn lemma_selected_classifiers(classifiers: Seq<Artifact>, os: Seq<char>, arch: Seq<char>)
    ensures
        all_name_natives(selected_classifiers(classifiers, os, arch)),
        system_tags(os).len() == 0 ==> selected_classifiers(classifiers, os, arch).len() == 0,
    decreases classifiers.len(),
{
    if classifiers.len() > 0 {
        lemma_selected_classifiers(classifiers.drop_last(), os, arch);
    }
}

/// Every archive that is selected names natives, and on a system that file names do not know
/// none is selected.
pub proof fn law_selected_archives_name_natives(
    libraries: Seq<Library>,
    os: Seq<char>,
    arch: Seq<char>,
)
    ensures
        all_name_natives(selected_natives(libraries, os, arch)),
        system_tags(os).len() == 0 ==> selected_natives(libraries, os, arch).len() == 0,
    decreases libraries.len(),
{
    if libraries.len() > 0 {
        law_selected_archives_name_natives(libraries.drop_last(), os, arch);
        let library = libraries.last();
        if let Some(classifiers) = library.downloads.classifiers {
            lemma_selected_classifiers(classifiers@, os, arch);
        }
        let of_library = selected_of_library(library, os, arch);
        let first = selected_archive(library.downloads, os, arch);
        assert forall|i: int| 0 <= i < of_library.len() implies contains(
            (#[trigger] of_library[i]).0,
            "-natives"@,
        ) by {
            if i >= first.len() {
                assert(of_library[i] == selected_classifiers(
                    library.downloads.classifiers->0@,
                    os,
                    arch,
                )[i - first.len()]);
            }
        }
    }
}

/// A text that begins with a tag and is cut at the first `-natives` still begins with the tag.
pub proof fn lemma_cut_keeps_the_tag(rest: Seq<char>, tag: Seq<char>)
    requires
        starts_with(rest, tag),
        tag.len() >= 2,
        tag[1] != 'n',
        forall|i: int| 1 <= i < tag.len() ==> tag[i] != '-',
    ensures
        starts_with(before_first(rest, "-natives"@), tag),
{
    reveal_strlit("-natives");
    let mark = "-natives"@;
    lemma_next_occurrence(rest, mark, 0);
    assert forall|i: int| 0 <= i < tag.len() implies rest[i] == tag[i] by {
        assert(rest.subrange(0, tag.len() as int)[i] == rest[i]);
    }
    match next_occurrence(rest, mark, 0) {
        None => {},
        Some(at) => {
            assert(rest.subrange(at, at + mark.len())[0] == rest[at]);
            assert(rest.subrange(at, at + mark.len())[1] == rest[at + 1]);
            assert(at >= tag.len());
            assert(rest.take(at).subrange(0, tag.len() as int) =~= rest.subrange(
                0,
                tag.len() as int,
            ));
        },
    }
}

/// What file names say of a system is longer than its dash, and cannot be mistaken for the start
/// of `-natives`.
pub proof fn lemma_tags(os: Seq<char>, i: int)
    requires
        0 <= i < system_tags(os).len(),
    ensures
        system_tags(os)[i].len() >= 2,
        system_tags(os)[i][1] != 'n',
        forall|k: int| 1 <= k < system_tags(os)[i].len() ==> system_tags(os)[i][k] != '-',
{
    reveal_strlit("-windows");
    reveal_strlit("-linux");
    reveal_strlit("-macos");
    reveal_strlit("-osx");
}

/// A path that names natives for a system still does with more text behind it.
pub proof fn law_longer_paths_still_match(path: Seq<char>, more: Seq<char>, os: Seq<char>)
    requires
        natives_match_system(path, os),
    ensures
        natives_match_system(path + more, os),
{
    reveal_strlit("-natives");
    let mark = "-natives"@;
    let tags = system_tags(os);
    lemma_next_occurrence(path, mark, 0);
    let at = next_occurrence(path, mark, 0)->0;
    let rest = path.skip(at + mark.len());
    let longer = rest + more;
    assert(split(path, mark) == seq![path.take(at)] + split(rest, mark));
    assert(split(path, mark)[1] == before_first(rest, mark));
    let i = choose|i: int|
        0 <= i < tags.len() && starts_with(split(path, mark)[1], #[trigger] tags[i]);
    let tag = tags[i];
    lemma_tags(os, i);
    lemma_next_occurrence(rest, mark, 0);
    assert(starts_with(longer, tag)) by {
        let piece = before_first(rest, mark);
        assert(piece.subrange(0, tag.len() as int) =~= longer.subrange(0, tag.len() as int));
    }
    lemma_cut_keeps_the_tag(longer, tag);
    lemma_next_occurrence_stays(path, mark, more);
    assert((path + more).skip(at + mark.len()) =~= longer);
    lemma_split_is_never_empty(longer, mark);
    assert(split(path + more, mark) == seq![(path + more).take(at)] + split(longer, mark));
    assert(split(path + more, mark)[1] == before_first(longer, mark));
    assert(starts_with(split(path + more, mark)[1], tags[i]));
}

/// An archive of a library is selected only for the processor that it serves.
pub proof fn law_selected_archives_serve_the_processor(
    path: Seq<char>,
    os: Seq<char>,
    arch: Seq<char>,
)
    ensures
        selected_artifact(path, os, arch) is Some ==> arch_serves(named_arch(path), arch),
        selected_classifier(path, os, arch) is Some && !is_windows_64(path, os) ==> arch_serves(
            named_arch(path),
            arch,
        ),
{
}

/// The entries that are unpacked when an archive with entries of the file names `names` is worked
/// off from the entry at `at` on, and every one of them can be written.
pub open spec fn unpacked_from(
    names: Seq<Option<Seq<char>>>,
    extension: Seq<char>,
    at: int,
) -> Seq<(int, Seq<char>)>
    decreases names.len() - at,
{
    if at < 0 || at >= names.len() {
        Seq::empty()
    } else {
        match step_after_entry(names[at], at, names.len() as int, extension) {
            JarStepView::Unpack(here, name) => seq![(here, name)] + match step_after_unpacking(
                JarUnpacking::Written,
                here,
                names.len() as int,
            ) {
                JarStepView::Read(next) if next > at => unpacked_from(names, extension, next),
                _ => Seq::empty(),
            },
            JarStepView::Read(next) if next > at => unpacked_from(names, extension, next),
            _ => Seq::empty(),
        }
    }
}

/// The entries whose file names ask for unpacking, from the entry at `at` on, in order.
pub open spec fn wanted_from(
    names: Seq<Option<Seq<char>>>,
    extension: Seq<char>,
    at: int,
) -> Seq<(int, Seq<char>)>
    decreases names.len() - at,
{
    if at < 0 || at >= names.len() {
        Seq::empty()
    } else {
        match unpacked_name(names[at], extension) {
            None => wanted_from(names, extension, at + 1),
            Some(name) => seq![(at, name)] + wanted_from(names, extension, at + 1),
        }
    }
}

/// Working off an archive unpacks every entry whose file name asks for it, once and in order, and
/// no other.
pub proof fn law_wanted_entries_are_unpacked(
    names: Seq<Option<Seq<char>>>,
    extension: Seq<char>,
    at: int,
)
    requires
        0 <= at,
    ensures
        unpacked_from(names, extension, at) == wanted_from(names, extension, at),
    decreases names.len() - at,
{
    if at < names.len() {
        law_wanted_entries_are_unpacked(names, extension, at + 1);
    }
}

} // verus!
