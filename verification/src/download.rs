//! The download of one file: its sources, how often they are tried, and when a file is accepted.
use crate::digest::{check_sha1, has_sha1};
use crate::natives::{read_step, JarStep, JarStepView};
use crate::paths::{file_name, is_file_name, GamePath};
use crate::text::{
    contains, decimal, decimal_text, ends_with, has_suffix, has_text, lemma_last_piece,
    lemma_split_is_never_empty, push_text, replace_text, replaced, same_text, split, split_text,
};
use vstd::prelude::*;

verus! {

/// The address of the mirror.
pub const MIRROR_URL: &'static str = "https://bmclapi2.bangbang93.com";

/// How often the download of a file is tried.
pub const MAX_RETRIES: u8 = 5;

/// A file to be downloaded: its sources, where it goes, its digest, and its size, where that is
/// known and not zero.
pub struct DownloadTask {
    pub urls: Vec<String>,
    pub target_path: GamePath,
    pub sha1: String,
    pub size: u64,
}

/// The texts of a `DownloadTask`.
pub struct DownloadTaskView {
    pub urls: Seq<Seq<char>>,
    pub target_path: Seq<Seq<char>>,
    pub sha1: Seq<char>,
    pub size: u64,
}

impl View for DownloadTask {
    type V = DownloadTaskView;

    open spec fn view(&self) -> DownloadTaskView {
        DownloadTaskView {
            urls: self.urls.deep_view(),
            target_path: self.target_path@,
            sha1: self.sha1@,
            size: self.size,
        }
    }
}

impl DeepView for DownloadTask {
    type V = DownloadTaskView;

    open spec fn deep_view(&self) -> DownloadTaskView {
        self@
    }
}

// ---------------------------------------------------------------------------------------------
// Progress
// ---------------------------------------------------------------------------------------------

/// How many files there are to download, how many are there, and how many tries failed. The
/// counters wrap around.
pub struct DownloadProgress {
    pub total: usize,
    pub success: usize,
    pub failed: usize,
}

impl DownloadProgress {
    /// The counters at the start of `total` downloads.
    pub fn new(total: usize) -> (progress: Self)
        ensures
            progress == (DownloadProgress { total, success: 0, failed: 0 }),
    {
        DownloadProgress { total, success: 0, failed: 0 }
    }

    /// Counts what was found where a file is to go.
    pub fn count_check(&mut self, target: &TargetState)
        ensures
            *final(self) == (if target is Intact {
                DownloadProgress { success: old(self).success.wrapping_add(1), ..*old(self) }
            } else {
                *old(self)
            }),
    {
        if let TargetState::Intact = target {
            self.success = self.success.wrapping_add(1);
        }
    }

    /// Counts what came of a try. A file that was loaded with another digest than expected, or that
    /// could not be read again, counts neither way.
    pub fn count_try(&mut self, outcome: &TryOutcome)
        ensures
            *final(self) == (match outcome {
                TryOutcome::Intact => DownloadProgress {
                    success: old(self).success.wrapping_add(1),
                    ..*old(self)
                },
                TryOutcome::Corrupt => *old(self),
                TryOutcome::Unreadable(_) => *old(self),
                TryOutcome::Failed => DownloadProgress {
                    failed: old(self).failed.wrapping_add(1),
                    ..*old(self)
                },
            }),
    {
        match outcome {
            TryOutcome::Intact => {
                self.success = self.success.wrapping_add(1);
            },
            TryOutcome::Corrupt => {},
            TryOutcome::Unreadable(_) => {},
            TryOutcome::Failed => {
                self.failed = self.failed.wrapping_add(1);
            },
        }
    }
}

/// The size of the pieces in which a file of the size `size` is loaded.
pub open spec fn chunk_size(size: int) -> int {
    if size <= 1_000_000 {
        size
    } else if size <= 10_000_000 {
        1_000_000
    } else if size <= 100_000_000 {
        5_000_000
    } else {
        10_000_000
    }
}

/// The size of the pieces in which a file is loaded.
pub fn calculate_chunk_size(size: u64) -> (chunk: u64)
    ensures
        chunk == chunk_size(size as int),
{
    if size <= 1_000_000 {
        size
    } else if size <= 10_000_000 {
        1_000_000
    } else if size <= 100_000_000 {
        5_000_000
    } else {
        10_000_000
    }
}

/// A piece is never larger than the file, and never empty unless the file is.
pub proof fn law_chunks_fit_the_file(size: int)
    requires
        0 <= size,
    ensures
        0 <= chunk_size(size) <= size,
        chunk_size(size) == 0 <==> size == 0,
{
}

/// A larger file gets no smaller pieces.
pub proof fn law_larger_files_get_no_smaller_chunks(small: int, large: int)
    requires
        small <= large,
    ensures
        chunk_size(small) <= chunk_size(large),
{
}

// ---------------------------------------------------------------------------------------------
// Tries
// ---------------------------------------------------------------------------------------------

/// The first of `urls` that is not among `used`.
pub open spec fn first_unused(urls: Seq<Seq<char>>, used: Seq<Seq<char>>) -> Option<Seq<char>>
    decreases urls.len(),
{
    if urls.len() == 0 {
        None
    } else if !used.contains(urls[0]) {
        Some(urls[0])
    } else {
        first_unused(urls.drop_first(), used)
    }
}

/// The source that is tried next: the first that was not tried yet, or the very first, where all
/// were tried.
pub open spec fn next_url(urls: Seq<Seq<char>>, used: Seq<Seq<char>>) -> Option<Seq<char>> {
    match first_unused(urls, used) {
        Some(url) => Some(url),
        None => if urls.len() > 0 {
            Some(urls[0])
        } else {
            None
        },
    }
}

/// How many of `count` sources are tried at most.
pub open spec fn most_tries(count: nat) -> nat {
    if count < MAX_RETRIES {
        count
    } else {
        MAX_RETRIES as nat
    }
}

/// The sources of a file, and those that were tried, in order.
pub struct SourcesView {
    pub urls: Seq<Seq<char>>,
    pub used: Seq<Seq<char>>,
}

impl SourcesView {
    /// How many tries are left at most.
    pub open spec fn tries_left(self) -> int {
        most_tries(self.urls.len()) - self.used.len()
    }
}

/// A download between two tries. It has been tried once for each source used.
pub struct Download {
    urls: Vec<String>,
    used_urls: Vec<String>,
    retry_count: u8,
}

/// A download for whose next try the place is made ready.
pub struct Preparation {
    download: Download,
}

/// A download during a try. The source of the try is the last one used.
pub struct Attempt {
    urls: Vec<String>,
    used_urls: Vec<String>,
    retry_count: u8,
}

/// A download after a try whose file is removed.
pub struct Removal {
    attempt: Attempt,
}

impl View for Download {
    type V = SourcesView;

    closed spec fn view(&self) -> SourcesView {
        SourcesView { urls: self.urls.deep_view(), used: self.used_urls.deep_view() }
    }
}

impl View for Preparation {
    type V = SourcesView;

    closed spec fn view(&self) -> SourcesView {
        self.download@
    }
}

impl View for Attempt {
    type V = SourcesView;

    closed spec fn view(&self) -> SourcesView {
        SourcesView { urls: self.urls.deep_view(), used: self.used_urls.deep_view() }
    }
}

impl View for Removal {
    type V = SourcesView;

    closed spec fn view(&self) -> SourcesView {
        self.attempt@
    }
}

/// What was found where a file is to go.
pub enum TargetState {
    /// Nothing that could be opened.
    Absent,
    /// A file with the digest that is expected.
    Intact,
    /// A file with another digest, or one that could not be read to its end.
    Broken,
}

/// What came of a try.
pub enum TryOutcome {
    /// The file was loaded and has the digest that is expected.
    Intact,
    /// The file was loaded and has another digest.
    Corrupt,
    /// The file was loaded but could not be read again, for the reason given.
    Unreadable(String),
    /// The file was not loaded.
    Failed,
}

/// What is to be done after a look at the place where a file is to go.
pub enum CheckDecision {
    /// Nothing: the file is there.
    Accept,
    /// Make the place ready: remove the file that was found, if `discard` says so, and create the
    /// directory.
    Prepare { preparation: Preparation, discard: bool },
}

/// What is to be done once the place is ready or could not be made so.
pub enum PrepareDecision {
    /// Make the try.
    Fetch { attempt: Attempt },
    /// Report that no source is left.
    GiveUp,
    /// Report this failure.
    Fail { message: String },
}

/// What is to be done after a try, or after its file was removed.
pub enum TryDecision {
    /// Nothing: the file is there.
    Accept,
    /// Remove the loaded file.
    Remove { removal: Removal },
    /// Look again after a pause.
    Retry { download: Download },
    /// Report that no source is left.
    GiveUp,
    /// Report this failure.
    Fail { message: String },
}

/// After a try that did not give the file, `decision` is to look again while tries are left, and
/// to give up otherwise.
pub open spec fn goes_on(decision: TryDecision, sources: SourcesView) -> bool {
    if sources.tries_left() > 0 {
        decision matches TryDecision::Retry { download } && download@ == sources
    } else {
        decision is GiveUp
    }
}

/// Whether a list of texts holds a text.
fn lists(list: &Vec<String>, text: &str) -> (found: bool)
    ensures
        found == list.deep_view().contains(text@),
{
    let mut i: usize = 0;
    while i < list.len()
        invariant
            i <= list@.len(),
            forall|j: int| 0 <= j < i ==> #[trigger] list.deep_view()[j] != text@,
        decreases list@.len() - i,
    {
        if same_text(list[i].as_str(), text) {
            assert(list.deep_view()[i as int] == text@);
            return true;
        }
        i = i + 1;
    }
    false
}

/// The source that is tried next.
pub fn choose_url(urls: &Vec<String>, used: &Vec<String>) -> (url: Option<String>)
    ensures
        url.deep_view() == next_url(urls.deep_view(), used.deep_view()),
{
    let ghost all = urls.deep_view();
    let mut i: usize = 0;
    assert(all.skip(0) =~= all);
    while i < urls.len()
        invariant
            i <= urls@.len(),
            all == urls.deep_view(),
            first_unused(all, used.deep_view()) == first_unused(
                all.skip(i as int),
                used.deep_view(),
            ),
        decreases urls@.len() - i,
    {
        assert(all.skip(i as int)[0] == urls@[i as int]@);
        if !lists(used, urls[i].as_str()) {
            return Some(urls[i].clone());
        }
        assert(all.skip(i as int).drop_first() =~= all.skip(i + 1));
        i = i + 1;
    }
    assert(first_unused(all.skip(i as int), used.deep_view()) is None);
    if urls.len() > 0 {
        assert(all[0] == urls@[0]@);
        Some(urls[0].clone())
    } else {
        None
    }
}

impl Download {
    #[verifier::type_invariant]
    spec fn well_formed(self) -> bool {
        &&& self.retry_count < MAX_RETRIES
        &&& self.used_urls@.len() == self.retry_count
        &&& self.used_urls@.len() == 0 || self.used_urls@.len() < self.urls@.len()
    }

    /// The download of a file from `urls`, before the first try.
    pub fn new(urls: Vec<String>) -> (download: Self)
        ensures
            download@ == (SourcesView { urls: urls.deep_view(), used: Seq::empty() }),
    {
        let download = Download { urls, used_urls: Vec::new(), retry_count: 0 };
        assert(download.used_urls.deep_view() =~= Seq::empty());
        download
    }

    /// What is to be done after a look at the place where the file is to go.
    pub fn checked(self, target: TargetState) -> (decision: CheckDecision)
        ensures
            target is Intact <==> decision is Accept,
            decision matches CheckDecision::Prepare { preparation, discard } ==> preparation@
                == self@ && discard == (target is Broken),
    {
        let discard = match target {
            TargetState::Intact => {
                return CheckDecision::Accept;
            },
            TargetState::Broken => true,
            TargetState::Absent => false,
        };
        CheckDecision::Prepare { preparation: Preparation { download: self }, discard }
    }
}

impl Preparation {
    /// What is to be done once the place is ready, or could not be made so for the reason given. A
    /// place that cannot be made ready ends the download. No more tries are made than there are
    /// sources, and no more than five.
    pub fn prepared(self, ready: Result<(), String>) -> (decision: PrepareDecision)
        ensures
            decision matches PrepareDecision::Fetch { attempt } ==> attempt@.used.len()
                <= most_tries(self@.urls.len()),
            match ready {
                Err(message) => decision == (PrepareDecision::Fail { message }),
                Ok(_) => match next_url(self@.urls, self@.used) {
                    Some(url) => decision matches PrepareDecision::Fetch { attempt } && attempt@
                        == (SourcesView { used: self@.used.push(url), ..self@ }),
                    None => decision is GiveUp,
                },
            },
    {
        if let Err(message) = ready {
            return PrepareDecision::Fail { message };
        }
        let download = self.download;
        proof {
            use_type_invariant(&download);
        }
        match choose_url(&download.urls, &download.used_urls) {
            None => PrepareDecision::GiveUp,
            Some(url) => {
                let Download { urls, mut used_urls, retry_count } = download;
                push_text(&mut used_urls, url);
                assert(used_urls.deep_view().len() == download.used_urls@.len() + 1);
                PrepareDecision::Fetch { attempt: Attempt { urls, used_urls, retry_count } }
            },
        }
    }
}

impl Attempt {
    #[verifier::type_invariant]
    spec fn well_formed(self) -> bool {
        &&& self.retry_count < MAX_RETRIES
        &&& self.used_urls@.len() == self.retry_count + 1
        &&& self.used_urls@.len() <= self.urls@.len()
    }

    /// The source of the try.
    pub fn url(&self) -> (url: String)
        ensures
            self@.used.len() > 0,
            url@ == self@.used.last(),
    {
        proof {
            use_type_invariant(self);
        }
        self.used_urls[self.used_urls.len() - 1].clone()
    }

    /// What is to be done after the try. The file is accepted only with the digest that is
    /// expected; one with another digest is removed, and one that cannot be read again ends the
    /// download. Another try is made only while fewer than five were made and fewer than there
    /// are sources.
    pub fn finished(self, outcome: TryOutcome) -> (decision: TryDecision)
        ensures
            match outcome {
                TryOutcome::Intact => decision is Accept,
                TryOutcome::Corrupt => decision matches TryDecision::Remove { removal }
                    && removal@ == self@,
                TryOutcome::Unreadable(message) => decision == (TryDecision::Fail { message }),
                TryOutcome::Failed => goes_on(decision, self@),
            },
    {
        match outcome {
            TryOutcome::Intact => TryDecision::Accept,
            TryOutcome::Corrupt => TryDecision::Remove { removal: Removal { attempt: self } },
            TryOutcome::Unreadable(message) => TryDecision::Fail { message },
            TryOutcome::Failed => self.next(),
        }
    }

    /// Looks again or gives up.
    fn next(self) -> (decision: TryDecision)
        ensures
            goes_on(decision, self@),
    {
        proof {
            use_type_invariant(&self);
        }
        let Attempt { urls, used_urls, retry_count } = self;
        let retry_count = retry_count + 1;
        if retry_count >= MAX_RETRIES || used_urls.len() >= urls.len() {
            TryDecision::GiveUp
        } else {
            TryDecision::Retry { download: Download { urls, used_urls, retry_count } }
        }
    }
}

impl Removal {
    /// What is to be done once the loaded file is removed, or could not be removed for the reason
    /// given. A file that cannot be removed ends the download.
    pub fn removed(self, gone: Result<(), String>) -> (decision: TryDecision)
        ensures
            match gone {
                Ok(_) => goes_on(decision, self@),
                Err(message) => decision == (TryDecision::Fail { message }),
            },
    {
        match gone {
            Ok(_) => self.attempt.next(),
            Err(message) => TryDecision::Fail { message },
        }
    }
}

/// A source that was not tried is found behind those that were.
proof fn lemma_first_unused(urls: Seq<Seq<char>>, used: Seq<Seq<char>>, at: int)
    requires
        0 <= at < urls.len(),
        !used.contains(urls[at]),
        forall|i: int| 0 <= i < at ==> used.contains(#[trigger] urls[i]),
    ensures
        first_unused(urls, used) == Some(urls[at]),
    decreases at,
{
    if at > 0 {
        assert(used.contains(urls[0]));
        let rest = urls.drop_first();
        assert forall|i: int| 0 <= i < at - 1 implies used.contains(#[trigger] rest[i]) by {
            assert(rest[i] == urls[i + 1]);
        }
        lemma_first_unused(rest, used, at - 1);
    }
}

/// Sources that differ are tried one after the other, in the order in which they are listed.
pub proof fn law_sources_are_tried_in_order(urls: Seq<Seq<char>>, tried: int)
    requires
        urls.no_duplicates(),
        0 <= tried < urls.len(),
    ensures
        next_url(urls, urls.take(tried)) == Some(urls[tried]),
{
    let used = urls.take(tried);
    assert forall|i: int| 0 <= i < tried implies used.contains(#[trigger] urls[i]) by {
        assert(used[i] == urls[i]);
    }
    assert(!used.contains(urls[tried]));
    lemma_first_unused(urls, used, tried);
}

/// The sources of the first `count` tries of a download.
pub open spec fn tried_sources(urls: Seq<Seq<char>>, count: nat) -> Seq<Seq<char>>
    decreases count,
{
    if count == 0 {
        Seq::empty()
    } else {
        let earlier = tried_sources(urls, (count - 1) as nat);
        match next_url(urls, earlier) {
            Some(url) => earlier.push(url),
            None => earlier,
        }
    }
}

/// Sources that differ each get one try before any gets a second.
pub proof fn law_every_source_gets_a_try(urls: Seq<Seq<char>>, count: nat)
    requires
        urls.no_duplicates(),
        count <= urls.len(),
    ensures
        tried_sources(urls, count) == urls.take(count as int),
    decreases count,
{
    if count > 0 {
        law_every_source_gets_a_try(urls, (count - 1) as nat);
        law_sources_are_tried_in_order(urls, count - 1);
        assert(urls.take(count as int) =~= urls.take(count - 1).push(urls[count - 1]));
    } else {
        assert(urls.take(0) =~= Seq::empty());
    }
}

/// A try is never made with a source that was tried before while another is left.
pub proof fn law_no_source_is_tried_twice_early(urls: Seq<Seq<char>>, used: Seq<Seq<char>>)
    requires
        exists|i: int| 0 <= i < urls.len() && !used.contains(#[trigger] urls[i]),
    ensures
        next_url(urls, used) is Some,
        !used.contains(next_url(urls, used)->0),
        urls.contains(next_url(urls, used)->0),
    decreases urls.len(),
{
    if used.contains(urls[0]) {
        let i = choose|i: int| 0 <= i < urls.len() && !used.contains(#[trigger] urls[i]);
        let rest = urls.drop_first();
        assert(rest[i - 1] == urls[i]);
        law_no_source_is_tried_twice_early(rest, used);
        lemma_first_unused_is_found(rest, used);
        let url = first_unused(rest, used)->0;
        let at = choose|at: int| 0 <= at < rest.len() && rest[at] == url;
        assert(urls[at + 1] == url);
    }
}

/// What `first_unused` reports is listed and was not tried; without a report all were.
proof fn lemma_first_unused_is_found(urls: Seq<Seq<char>>, used: Seq<Seq<char>>)
    ensures
        first_unused(urls, used) matches Some(url) ==> urls.contains(url) && !used.contains(url),
        first_unused(urls, used) is None ==> forall|i: int|
            0 <= i < urls.len() ==> used.contains(#[trigger] urls[i]),
    decreases urls.len(),
{
    if urls.len() > 0 {
        let rest = urls.drop_first();
        lemma_first_unused_is_found(rest, used);
        if used.contains(urls[0]) {
            if let Some(url) = first_unused(rest, used) {
                let at = choose|at: int| 0 <= at < rest.len() && rest[at] == url;
                assert(urls[at + 1] == url);
            } else {
                assert forall|i: int| 0 <= i < urls.len() implies used.contains(
                    #[trigger] urls[i],
                ) by {
                    if i > 0 {
                        assert(rest[i - 1] == urls[i]);
                    }
                }
            }
        } else {
            assert(urls.contains(urls[0]));
        }
    }
}

// ---------------------------------------------------------------------------------------------
// Checks of what was loaded
// ---------------------------------------------------------------------------------------------

/// The message for a file that none of its sources gave.
pub fn exhausted_message(path: &str) -> (message: String)
    ensures
        message@ == "文件 "@ + path@ + " 下载失败，已尝试所有源"@,
{
    "文件 ".to_owned().concat(path).concat(" 下载失败，已尝试所有源")
}

/// The length of a reply is not the size that is expected. A reply without a length counts as
/// empty, and a size of zero expects nothing.
pub open spec fn length_differs(size: u64, reported: Option<u64>) -> bool {
    let length = match reported {
        None => 0u64,
        Some(length) => length,
    };
    size > 0 && length != size
}

/// Checks the length of a reply against the size that is expected.
pub fn check_content_length(size: u64, reported: Option<u64>) -> (checked: Result<(), String>)
    ensures
        checked is Ok <==> !length_differs(size, reported),
        checked matches Err(message) ==> message@ == "文件大小不匹配: 预期"@ + decimal(
            size as nat,
        ) + " 实际"@ + decimal(match reported {
            None => 0nat,
            Some(length) => length as nat,
        }),
{
    let length: u64 = match reported {
        None => 0,
        Some(length) => length,
    };
    if size > 0 && length != size {
        Err(
            "文件大小不匹配: 预期".to_owned().concat(decimal_text(size).as_str()).concat(
                " 实际",
            ).concat(decimal_text(length).as_str()),
        )
    } else {
        Ok(())
    }
}

/// Checks a loaded content against the digest that is expected.
pub fn check_download(content: &[u8], sha1: &str) -> (checked: Result<(), String>)
    ensures
        checked is Ok <==> has_sha1(content@, sha1@),
        checked matches Err(message) ==> message@ == "下载后校验失败"@,
{
    if check_sha1(content, sha1) {
        Ok(())
    } else {
        Err("下载后校验失败".to_owned())
    }
}

// ---------------------------------------------------------------------------------------------
// Native libraries
// ---------------------------------------------------------------------------------------------

/// What file names add for the processor `arch`.
pub open spec fn arch_suffix(arch: Seq<char>) -> Seq<char> {
    if arch == "x86_64"@ {
        ""@
    } else if arch == "aarch64"@ {
        "-arm64"@
    } else if arch == "x86"@ {
        "-x86"@
    } else if arch == "arm"@ {
        "-arm"@
    } else {
        "-unknown"@
    }
}

/// The last part of a path.
pub open spec fn last_part(path: Seq<char>) -> Seq<char> {
    split(path, "/"@).last()
}

/// The file name of a path is one for the processor `arch`. For `x86_64` it names no other
/// processor; for any other it has the processor's suffix.
pub open spec fn arch_suffix_matches(path: Seq<char>, arch: Seq<char>) -> bool {
    let name = last_part(path);
    if arch == "x86_64"@ {
        !contains(name, "-arm64"@) && !contains(name, "-x86"@) && !contains(name, "-arm"@)
    } else {
        contains(name, arch_suffix(arch))
    }
}

/// What file names add for the processor `arch`.
pub fn current_arch_suffix(arch: &str) -> (suffix: &'static str)
    ensures
        suffix@ == arch_suffix(arch@),
{
    if same_text(arch, "x86_64") {
        ""
    } else if same_text(arch, "aarch64") {
        "-arm64"
    } else if same_text(arch, "x86") {
        "-x86"
    } else if same_text(arch, "arm") {
        "-arm"
    } else {
        "-unknown"
    }
}

/// Whether the file name of a path is one for the processor `arch`.
pub fn match_arch_suffix(path: &str, arch: &str) -> (matched: bool)
    ensures
        matched == arch_suffix_matches(path@, arch@),
{
    proof {
        reveal_strlit("/");
        reveal_strlit("");
        reveal_strlit("-arm64");
        reveal_strlit("-x86");
        reveal_strlit("-arm");
        reveal_strlit("-unknown");
        lemma_split_is_never_empty(path@, "/"@);
    }
    let parts = split_text(path, "/");
    assert(parts.deep_view().len() == parts@.len());
    let name = parts[parts.len() - 1].as_str();
    assert(name@ == last_part(path@));
    let suffix = current_arch_suffix(arch);
    if suffix.is_empty() {
        !has_text(name, "-arm64") && !has_text(name, "-x86") && !has_text(name, "-arm")
    } else {
        has_text(name, suffix)
    }
}

/// The directories that lead to a file do not change whether its name is one for the processor.
pub proof fn law_directories_do_not_name_processors(
    directory: Seq<char>,
    path: Seq<char>,
    arch: Seq<char>,
)
    ensures
        arch_suffix_matches(directory + "/"@ + path, arch) == arch_suffix_matches(path, arch),
{
    reveal_strlit("/");
    assert("/"@ =~= seq!['/']);
    lemma_last_piece(directory, '/', path);
}

/// The ending of native libraries on the system `os_type`.
pub open spec fn native_suffix(os_type: Seq<char>) -> Option<Seq<char>> {
    if os_type == "windows"@ {
        Some(".dll"@)
    } else if os_type == "osx"@ {
        Some(".dylib"@)
    } else if os_type == "linux"@ {
        Some(".so"@)
    } else {
        None
    }
}

/// The ending of native libraries on the system `os_type`.
pub fn get_native_suffix(os_type: &str) -> (suffix: Option<String>)
    ensures
        suffix.deep_view() == native_suffix(os_type@),
{
    if same_text(os_type, "windows") {
        Some(".dll".to_owned())
    } else if same_text(os_type, "osx") {
        Some(".dylib".to_owned())
    } else if same_text(os_type, "linux") {
        Some(".so".to_owned())
    } else {
        None
    }
}

/// An entry of an archive is an ordinary file, not a directory.
pub open spec fn is_ordinary(is_dir: bool, is_file: bool) -> bool {
    !is_dir && is_file
}

/// The name under which an ordinary entry is unpacked: its file name, where that ends with
/// `suffix` or is the one license file that goes along. An entry without a file name counts as
/// one with an empty name.
pub open spec fn unpacked_file(file_name: Option<Seq<char>>, suffix: Seq<char>) -> Option<
    Seq<char>,
> {
    let name = match file_name {
        None => Seq::empty(),
        Some(name) => name,
    };
    if ends_with(name, suffix) || name == "Tracy_LICENSE"@ {
        Some(name)
    } else {
        None
    }
}

/// The name under which an ordinary entry with a known file name is unpacked.
pub fn unpack_as(file_name: Option<String>, suffix: &str) -> (name: Option<String>)
    ensures
        name.deep_view() == unpacked_file(file_name.deep_view(), suffix@),
{
    let name = match file_name {
        None => String::new(),
        Some(name) => name,
    };
    if has_suffix(name.as_str(), suffix) || same_text(name.as_str(), "Tracy_LICENSE") {
        Some(name)
    } else {
        None
    }
}

/// An entry of an archive, as the archive lists it: its whole name, and what it is.
pub enum ListedEntry {
    /// The entry could not be read.
    Unreadable,
    /// An entry of this name.
    Named { name: String, is_dir: bool, is_file: bool },
}

/// An entry of an archive whose file name is known.
pub enum SeenEntry {
    /// The entry could not be read.
    Unreadable,
    /// An entry with this file name, where it has one.
    Readable { file_name: Option<String>, is_dir: bool, is_file: bool },
}

/// The texts of a `SeenEntry`.
pub enum SeenEntryView {
    Unreadable,
    Readable { file_name: Option<Seq<char>>, is_dir: bool, is_file: bool },
}

impl View for SeenEntry {
    type V = SeenEntryView;

    open spec fn view(&self) -> SeenEntryView {
        match self {
            SeenEntry::Unreadable => SeenEntryView::Unreadable,
            SeenEntry::Readable { file_name, is_dir, is_file } => SeenEntryView::Readable {
                file_name: file_name.deep_view(),
                is_dir: *is_dir,
                is_file: *is_file,
            },
        }
    }
}

/// `seen` is the entry `listed` with what a platform takes for its file name.
pub open spec fn is_seen_entry(seen: SeenEntryView, listed: ListedEntry) -> bool {
    match listed {
        ListedEntry::Unreadable => seen is Unreadable,
        ListedEntry::Named { name, is_dir, is_file } => seen matches SeenEntryView::Readable {
            file_name,
            is_dir: dir,
            is_file: file,
        } && dir == is_dir && file == is_file && is_file_name(file_name, name@),
    }
}

/// The name under which an entry is unpacked, where it is. One that cannot be read is passed over.
pub open spec fn wanted_name(entry: SeenEntryView, suffix: Seq<char>) -> Option<Seq<char>> {
    match entry {
        SeenEntryView::Unreadable => None,
        SeenEntryView::Readable { file_name, is_dir, is_file } => if is_ordinary(is_dir, is_file) {
            unpacked_file(file_name, suffix)
        } else {
            None
        },
    }
}

/// The step that follows the opening of an archive, with the number of its entries or the reason
/// why it could not be opened.
pub open spec fn step_after_archive(opening: Result<usize, String>) -> JarStepView {
    match opening {
        Err(error) => JarStepView::Failed(error@),
        Ok(entries) => read_step(0, entries as int),
    }
}

/// The step that follows the look at the entry at `at`: unpacking, where it is wanted, or the next
/// entry.
pub open spec fn step_after_seen(
    entry: SeenEntryView,
    at: int,
    entries: int,
    suffix: Seq<char>,
) -> JarStepView {
    match wanted_name(entry, suffix) {
        Some(name) => JarStepView::Unpack(at, name),
        None => read_step(at + 1, entries),
    }
}

/// The step that follows the writing of the entry at `at`. A failure ends the work on the archive.
pub open spec fn step_after_written(written: Result<(), String>, at: int, entries: int) -> JarStepView {
    match written {
        Err(error) => JarStepView::Failed(error@),
        Ok(_) => read_step(at + 1, entries),
    }
}

/// The step that looks at the entry at `at`, where the archive has one.
fn look_at(at: usize, entries: usize) -> (step: JarStep)
    ensures
        step@ == read_step(at as int, entries as int),
{
    if at < entries {
        JarStep::Read(at)
    } else {
        JarStep::Finished
    }
}

/// The step that follows the opening of an archive.
pub fn after_archive(opening: Result<usize, String>) -> (step: JarStep)
    ensures
        step@ == step_after_archive(opening),
{
    match opening {
        Err(error) => JarStep::Failed(error),
        Ok(entries) => look_at(0, entries),
    }
}

/// The step that follows the look at an entry whose file name is known.
pub fn after_seen(entry: SeenEntry, at: usize, entries: usize, suffix: &str) -> (step: JarStep)
    requires
        at < entries,
    ensures
        step@ == step_after_seen(entry@, at as int, entries as int, suffix@),
{
    if let SeenEntry::Readable { file_name, is_dir, is_file } = entry {
        if !is_dir && is_file {
            if let Some(name) = unpack_as(file_name, suffix) {
                return JarStep::Unpack(at, name);
            }
        }
    }
    look_at(at + 1, entries)
}

/// The step that follows the look at an entry.
pub fn after_listed(entry: ListedEntry, at: usize, entries: usize, suffix: &str) -> (step: JarStep)
    requires
        at < entries,
    ensures
        exists|seen: SeenEntryView|
            is_seen_entry(seen, entry) && step@ == #[trigger] step_after_seen(
                seen,
                at as int,
                entries as int,
                suffix@,
            ),
{
    let seen = match &entry {
        ListedEntry::Unreadable => SeenEntry::Unreadable,
        ListedEntry::Named { name, is_dir, is_file } => SeenEntry::Readable {
            file_name: file_name(name.as_str()),
            is_dir: *is_dir,
            is_file: *is_file,
        },
    };
    assert(is_seen_entry(seen@, entry));
    after_seen(seen, at, entries, suffix)
}

/// The step that follows the writing of an entry.
pub fn after_written(written: Result<(), String>, at: usize, entries: usize) -> (step: JarStep)
    requires
        at < entries,
    ensures
        step@ == step_after_written(written, at as int, entries as int),
{
    match written {
        Err(error) => JarStep::Failed(error),
        Ok(_) => look_at(at + 1, entries),
    }
}

/// The entries that are unpacked when an archive is worked off from the entry at `at` on, and
/// every one of them can be written.
pub open spec fn written_from(
    entries: Seq<SeenEntryView>,
    suffix: Seq<char>,
    at: int,
) -> Seq<(int, Seq<char>)>
    decreases entries.len() - at,
{
    if at < 0 || at >= entries.len() {
        Seq::empty()
    } else {
        match step_after_seen(entries[at], at, entries.len() as int, suffix) {
            JarStepView::Unpack(here, name) => seq![(here, name)] + match step_after_written(
                Ok(()),
                here,
                entries.len() as int,
            ) {
                JarStepView::Read(next) if next > at => written_from(entries, suffix, next),
                _ => Seq::empty(),
            },
            JarStepView::Read(next) if next > at => written_from(entries, suffix, next),
            _ => Seq::empty(),
        }
    }
}

/// The entries that are wanted, from the entry at `at` on, in order.
pub open spec fn wanted_entries(
    entries: Seq<SeenEntryView>,
    suffix: Seq<char>,
    at: int,
) -> Seq<(int, Seq<char>)>
    decreases entries.len() - at,
{
    if at < 0 || at >= entries.len() {
        Seq::empty()
    } else {
        match wanted_name(entries[at], suffix) {
            None => wanted_entries(entries, suffix, at + 1),
            Some(name) => seq![(at, name)] + wanted_entries(entries, suffix, at + 1),
        }
    }
}

/// Working off an archive unpacks just the entries that can be read and are wanted, each once and
/// in order; an entry that cannot be read does not stop the work.
pub proof fn law_readable_entries_are_unpacked(
    entries: Seq<SeenEntryView>,
    suffix: Seq<char>,
    at: int,
)
    requires
        0 <= at,
    ensures
        written_from(entries, suffix, at) == wanted_entries(entries, suffix, at),
    decreases entries.len() - at,
{
    if at < entries.len() {
        law_readable_entries_are_unpacked(entries, suffix, at + 1);
    }
}

// ---------------------------------------------------------------------------------------------
// The address of a version
// ---------------------------------------------------------------------------------------------

/// The list of all versions.
pub struct VersionManifest {
    pub versions: Vec<VersionEntry>,
}

/// A version, and the address of its description.
pub struct VersionEntry {
    pub id: String,
    pub url: String,
}

/// What came of asking for the list of all versions.
pub enum ManifestReply {
    /// No reply, or one that reports a failure.
    Unavailable,
    /// A reply that is no list of versions.
    Unparsable,
    /// The list.
    Listed(VersionManifest),
}

/// The address of the first entry with the identifier `version`.
pub open spec fn exact_url(versions: Seq<VersionEntry>, version: Seq<char>) -> Option<Seq<char>>
    decreases versions.len(),
{
    if versions.len() == 0 {
        None
    } else if versions[0].id@ == version {
        Some(versions[0].url@)
    } else {
        exact_url(versions.drop_first(), version)
    }
}

/// An identifier without its full stops.
pub open spec fn undotted(id: Seq<char>) -> Seq<char> {
    replaced(id, "."@, ""@)
}

/// The address of the first entry whose identifier is `version` but for full stops.
pub open spec fn undotted_url(versions: Seq<VersionEntry>, version: Seq<char>) -> Option<Seq<char>>
    decreases versions.len(),
{
    if versions.len() == 0 {
        None
    } else if undotted(versions[0].id@) == undotted(version) {
        Some(versions[0].url@)
    } else {
        undotted_url(versions.drop_first(), version)
    }
}

/// The address of a version's description on the mirror.
pub open spec fn mirror_json_url(version: Seq<char>) -> Seq<char> {
    MIRROR_URL@ + "/"@ + version + "/json"@
}

/// The address of a version's description: the one of the entry with its identifier, else of one
/// that differs by full stops only, else the one on the mirror.
pub open spec fn listed_url(versions: Seq<VersionEntry>, version: Seq<char>) -> Seq<char> {
    match exact_url(versions, version) {
        Some(url) => url,
        None => match undotted_url(versions, version) {
            Some(url) => url,
            None => mirror_json_url(version),
        },
    }
}

/// The address of a version's description on the mirror.
fn mirror_json(version: &str) -> (url: String)
    ensures
        url@ == mirror_json_url(version@),
{
    MIRROR_URL.to_owned().concat("/").concat(version).concat("/json")
}

/// The address of a version's description, given the list of all versions.
pub fn find_version_url(manifest: &VersionManifest, version: &str) -> (url: String)
    ensures
        url@ == listed_url(manifest.versions@, version@),
{
    let versions = &manifest.versions;
    let ghost all = versions@;
    let mut i: usize = 0;
    assert(all.skip(0) =~= all);
    while i < versions.len()
        invariant
            i <= versions@.len(),
            all == versions@,
            all == manifest.versions@,
            exact_url(all, version@) == exact_url(all.skip(i as int), version@),
        decreases versions@.len() - i,
    {
        assert(all.skip(i as int)[0] == versions@[i as int]);
        if same_text(versions[i].id.as_str(), version) {
            return versions[i].url.clone();
        }
        assert(all.skip(i as int).drop_first() =~= all.skip(i + 1));
        i = i + 1;
    }
    proof {
        reveal_strlit(".");
    }
    let wanted = replace_text(version, ".", "");
    let mut j: usize = 0;
    while j < versions.len()
        invariant
            j <= versions@.len(),
            all == versions@,
            all == manifest.versions@,
            "."@.len() == 1,
            wanted@ == undotted(version@),
            exact_url(all, version@) is None,
            undotted_url(all, version@) == undotted_url(all.skip(j as int), version@),
        decreases versions@.len() - j,
    {
        assert(all.skip(j as int)[0] == versions@[j as int]);
        if same_text(
            replace_text(versions[j].id.as_str(), ".", "").as_str(),
            wanted.as_str(),
        ) {
            return versions[j].url.clone();
        }
        assert(all.skip(j as int).drop_first() =~= all.skip(j + 1));
        j = j + 1;
    }
    mirror_json(version)
}

/// The address of a version's description, given what came of asking for the list of versions.
pub fn fetch_version_url(version: &str, reply: &ManifestReply) -> (url: Result<String, String>)
    ensures
        match reply {
            ManifestReply::Unavailable => url matches Ok(url) && url@ == mirror_json_url(version@),
            ManifestReply::Unparsable => url matches Err(message) && message@
                == "Failed to parse version manifest"@,
            ManifestReply::Listed(manifest) => url matches Ok(url) && url@ == listed_url(
                manifest.versions@,
                version@,
            ),
        },
{
    match reply {
        ManifestReply::Unavailable => Ok(mirror_json(version)),
        ManifestReply::Unparsable => Err("Failed to parse version manifest".to_owned()),
        ManifestReply::Listed(manifest) => Ok(find_version_url(manifest, version)),
    }
}

/// An entry with the very identifier of a version comes before entries that resemble it.
pub proof fn law_exact_identifiers_come_first(
    versions: Seq<VersionEntry>,
    version: Seq<char>,
    at: int,
)
    requires
        0 <= at < versions.len(),
        versions[at].id@ == version,
        forall|i: int| 0 <= i < at ==> (#[trigger] versions[i]).id@ != version,
    ensures
        listed_url(versions, version) == versions[at].url@,
    decreases at,
{
    lemma_exact_url(versions, version, at);
}

/// The search for an identifier stops at its first entry.
proof fn lemma_exact_url(versions: Seq<VersionEntry>, version: Seq<char>, at: int)
    requires
        0 <= at < versions.len(),
        versions[at].id@ == version,
        forall|i: int| 0 <= i < at ==> (#[trigger] versions[i]).id@ != version,
    ensures
        exact_url(versions, version) == Some(versions[at].url@),
    decreases at,
{
    if at > 0 {
        assert(versions[0].id@ != version);
        let rest = versions.drop_first();
        assert forall|i: int| 0 <= i < at - 1 implies (#[trigger] rest[i]).id@ != version by {
            assert(rest[i] == versions[i + 1]);
        }
        lemma_exact_url(rest, version, at - 1);
    }
}

} // verus!
