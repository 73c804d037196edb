//! When a file is tried, accepted, named and found.
use crate::digest::{has_sha1, hex_text, lemma_hex_length, sha1_of};
use crate::download::{
    arch_suffix, arch_suffix_matches, chunk_size, exact_url, first_unused, goes_on, last_part,
    length_differs, listed_url, most_tries, native_suffix, next_url, step_after_archive,
    step_after_written, undotted, undotted_url, wanted_name, SeenEntryView, SourcesView,
    TryDecision, VersionEntry,
};
use crate::natives::JarStepView;
use crate::plan::first_failure;
use crate::text::{
    contains, decimal, ends_with, lemma_one_character, lemma_without_pattern, occurs_at, replaced,
    starts_with,
};
use vstd::prelude::*;

verus! {

// ---------------------------------------------------------------------------------------------
// Tries
// ---------------------------------------------------------------------------------------------

/// After a try that did not give the file, the next one follows just while fewer than five were
/// made and a source is left that was not tried; otherwise the download is given up.
pub proof fn law_tries_are_limited(decision: TryDecision, sources: SourcesView)
    ensures
        goes_on(decision, sources) && sources.used.len() < 5 && sources.used.len()
            < sources.urls.len() ==> (decision matches TryDecision::Retry { download }
            && download@ == sources),
        goes_on(decision, sources) && (sources.used.len() >= 5 || sources.used.len()
            >= sources.urls.len()) ==> decision is GiveUp,
        most_tries(sources.urls.len()) <= 5,
        most_tries(sources.urls.len()) <= sources.urls.len(),
{
}

/// The source that is tried next is one of the file's; the very first is tried again just where all
/// were tried, and without sources none is.
pub proof fn law_next_source_is_listed(urls: Seq<Seq<char>>, used: Seq<Seq<char>>)
    ensures
        next_url(urls, used) is None <==> urls.len() == 0,
        next_url(urls, used) matches Some(url) ==> urls.contains(url),
        urls.len() > 0 && (forall|i: int|
            0 <= i < urls.len() ==> used.contains(#[trigger] urls[i])) ==> next_url(urls, used)
            == Some(urls[0]),
        next_url(urls, used) matches Some(url) ==> (used.contains(url) ==> forall|i: int|
            0 <= i < urls.len() ==> used.contains(#[trigger] urls[i])),
{
    lemma_first_unused_is_listed(urls, used);
    if urls.len() > 0 {
        assert(urls.contains(urls[0]));
    }
}

/// The first source that was not tried is listed; where there is none, all were tried.
proof fn lemma_first_unused_is_listed(urls: Seq<Seq<char>>, used: Seq<Seq<char>>)
    ensures
        first_unused(urls, used) matches Some(url) ==> urls.contains(url) && !used.contains(url),
        first_unused(urls, used) is None <==> forall|i: int|
            0 <= i < urls.len() ==> used.contains(#[trigger] urls[i]),
    decreases urls.len(),
{
    if urls.len() > 0 {
        let rest = urls.drop_first();
        lemma_first_unused_is_listed(rest, used);
        if used.contains(urls[0]) {
            if let Some(url) = first_unused(rest, used) {
                let at = choose|at: int| 0 <= at < rest.len() && rest[at] == url;
                assert(urls[at + 1] == url);
                assert(!used.contains(urls[at + 1]));
            } else {
                assert forall|i: int| 0 <= i < urls.len() implies used.contains(
                    #[trigger] urls[i],
                ) by {
                    if i > 0 {
                        assert(used.contains(rest[i - 1]));
                    }
                }
            }
        } else {
            assert(urls.contains(urls[0]));
        }
    }
}

/// A reply is of the wrong length just where a size is expected and the reply does not have it; a
/// reply without a length counts as empty.
pub proof fn law_lengths_are_compared(size: u64, length: u64)
    ensures
        !length_differs(0, None),
        !length_differs(0, Some(length)),
        size > 0 ==> length_differs(size, None),
        size > 0 ==> (length_differs(size, Some(length)) <==> length != size),
{
}

/// Small files are loaded in one piece; larger ones in pieces of one, five and ten million bytes.
pub proof fn law_pieces_by_size(size: int)
    ensures
        0 <= size <= 1_000_000 ==> chunk_size(size) == size,
        1_000_000 < size <= 10_000_000 ==> chunk_size(size) == 1_000_000,
        10_000_000 < size <= 100_000_000 ==> chunk_size(size) == 5_000_000,
        100_000_000 < size ==> chunk_size(size) == 10_000_000,
{
}

/// The downloads of a version fail with the message of the first that failed.
pub proof fn law_first_failure_is_reported(outcomes: Seq<Result<(), String>>, at: int)
    requires
        0 <= at < outcomes.len(),
        outcomes[at] is Err,
        forall|i: int| 0 <= i < at ==> (#[trigger] outcomes[i]) is Ok,
    ensures
        first_failure(outcomes) == Some((outcomes[at]->Err_0)@),
    decreases at,
{
    if at > 0 {
        let rest = outcomes.drop_first();
        assert(outcomes[0] is Ok);
        assert forall|i: int| 0 <= i < at - 1 implies (#[trigger] rest[i]) is Ok by {
            assert(outcomes[i + 1] is Ok);
        }
        law_first_failure_is_reported(rest, at - 1);
    }
}

// ---------------------------------------------------------------------------------------------
// Digests
// ---------------------------------------------------------------------------------------------

/// Each byte is written as two digits, the higher one first.
pub proof fn law_digits_spell_bytes(bytes: Seq<u8>, i: int)
    requires
        0 <= i < bytes.len(),
    ensures
        hex_text(bytes).len() == 2 * bytes.len(),
        hex_text(bytes)[2 * i] == "0123456789abcdef"@[bytes[i] as int / 16],
        hex_text(bytes)[2 * i + 1] == "0123456789abcdef"@[bytes[i] as int % 16],
    decreases bytes.len(),
{
    lemma_hex_length(bytes);
    lemma_hex_length(bytes.drop_last());
    if i < bytes.len() - 1 {
        law_digits_spell_bytes(bytes.drop_last(), i);
    }
}

/// A content has the expected digest just where its digest, written out in digits, is the expected
/// one: contents of which one has it and the other does not have different digests.
pub proof fn law_digests_decide(left: Seq<u8>, right: Seq<u8>, expected: Seq<char>)
    ensures
        has_sha1(left, expected) <==> expected == hex_text(sha1_of(left)),
        has_sha1(left, expected) && !has_sha1(right, expected) ==> sha1_of(left) != sha1_of(right),
        sha1_of(left) == sha1_of(right) ==> (has_sha1(left, expected) <==> has_sha1(
            right,
            expected,
        )),
{
}

// ---------------------------------------------------------------------------------------------
// Names
// ---------------------------------------------------------------------------------------------

/// A file name is one for `x86_64` just where it names no other processor, and one for any other
/// processor just where it has the suffix of that processor.
pub proof fn law_file_names_name_processors(name: Seq<char>, arch: Seq<char>)
    requires
        !name.contains('/'),
    ensures
        arch == "x86_64"@ ==> (arch_suffix_matches(name, arch) <==> !contains(name, "-arm64"@)
            && !contains(name, "-x86"@) && !contains(name, "-arm"@)),
        arch == "aarch64"@ ==> (arch_suffix_matches(name, arch) <==> contains(name, "-arm64"@)),
        arch == "x86"@ ==> (arch_suffix_matches(name, arch) <==> contains(name, "-x86"@)),
        arch == "arm"@ ==> (arch_suffix_matches(name, arch) <==> contains(name, "-arm"@)),
        arch != "x86_64"@ && arch != "aarch64"@ && arch != "x86"@ && arch != "arm"@ ==> (
        arch_suffix_matches(name, arch) <==> contains(name, "-unknown"@)),
{
    reveal_strlit("/");
    assert("/"@ =~= seq!['/']);
    lemma_one_character(name, '/');
    lemma_without_pattern(name, seq!['/'], seq!['/']);
    assert(last_part(name) == name);
    reveal_strlit("x86_64");
    reveal_strlit("aarch64");
    reveal_strlit("x86");
    reveal_strlit("arm");
    assert("x86_64"@.len() == 6 && "aarch64"@.len() == 7 && "x86"@.len() == 3 && "arm"@.len() == 3);
    assert("x86"@[0] != "arm"@[0]);
}

/// Native libraries end with `.dll` on Windows, with `.dylib` on macOS and with `.so` on Linux.
pub proof fn law_native_suffixes(os_type: Seq<char>)
    ensures
        os_type == "windows"@ ==> native_suffix(os_type) == Some(".dll"@),
        os_type == "osx"@ ==> native_suffix(os_type) == Some(".dylib"@),
        os_type == "linux"@ ==> native_suffix(os_type) == Some(".so"@),
        os_type != "windows"@ && os_type != "osx"@ && os_type != "linux"@ ==> native_suffix(
            os_type,
        ) is None,
{
    reveal_strlit("windows");
    reveal_strlit("osx");
    reveal_strlit("linux");
    assert("windows"@.len() == 7 && "osx"@.len() == 3 && "linux"@.len() == 5);
}

/// An entry of an archive is unpacked just where it can be read, is an ordinary file, and its file
/// name ends with the suffix or is that of the one license; it keeps its file name.
pub proof fn law_entries_are_wanted_by_name(
    name: Seq<char>,
    is_dir: bool,
    is_file: bool,
    suffix: Seq<char>,
)
    ensures
        wanted_name(SeenEntryView::Unreadable, suffix) is None,
        ({
            let entry = SeenEntryView::Readable { file_name: Some(name), is_dir, is_file };
            wanted_name(entry, suffix) == if !is_dir && is_file && (ends_with(name, suffix) || name
                == "Tracy_LICENSE"@) {
                Some(name)
            } else {
                None::<Seq<char>>
            }
        }),
{
}

// ---------------------------------------------------------------------------------------------
// Addresses
// ---------------------------------------------------------------------------------------------

/// No entry has the very identifier of a version.
proof fn lemma_no_exact_url(versions: Seq<VersionEntry>, version: Seq<char>)
    requires
        forall|i: int| 0 <= i < versions.len() ==> (#[trigger] versions[i]).id@ != version,
    ensures
        exact_url(versions, version) is None,
    decreases versions.len(),
{
    if versions.len() > 0 {
        assert(versions[0].id@ != version);
        let rest = versions.drop_first();
        assert forall|i: int| 0 <= i < rest.len() implies (#[trigger] rest[i]).id@ != version by {
            assert(rest[i] == versions[i + 1]);
        }
        lemma_no_exact_url(rest, version);
    }
}

/// The search for a resembling identifier stops at the first.
proof fn lemma_undotted_url(versions: Seq<VersionEntry>, version: Seq<char>, at: int)
    requires
        0 <= at <= versions.len(),
        at < versions.len() ==> undotted(versions[at].id@) == undotted(version),
        forall|i: int|
            0 <= i < at ==> undotted((#[trigger] versions[i]).id@) != undotted(version),
    ensures
        at < versions.len() ==> undotted_url(versions, version) == Some(versions[at].url@),
        at == versions.len() ==> undotted_url(versions, version) is None,
    decreases versions.len(),
{
    if versions.len() > 0 && at > 0 {
        assert(undotted(versions[0].id@) != undotted(version));
        let rest = versions.drop_first();
        assert forall|i: int| 0 <= i < at - 1 implies undotted((#[trigger] rest[i]).id@)
            != undotted(version) by {
            assert(rest[i] == versions[i + 1]);
        }
        lemma_undotted_url(rest, version, at - 1);
    }
}

/// Without an entry of the very identifier, the first entry whose identifier differs by full stops
/// only gives the address.
pub proof fn law_resembling_identifiers_come_second(
    versions: Seq<VersionEntry>,
    version: Seq<char>,
    at: int,
)
    requires
        forall|i: int| 0 <= i < versions.len() ==> (#[trigger] versions[i]).id@ != version,
        0 <= at < versions.len(),
        replaced(versions[at].id@, seq!['.'], Seq::empty()) == replaced(
            version,
            seq!['.'],
            Seq::empty(),
        ),
        forall|i: int|
            0 <= i < at ==> replaced((#[trigger] versions[i]).id@, seq!['.'], Seq::empty())
                != replaced(version, seq!['.'], Seq::empty()),
    ensures
        listed_url(versions, version) == versions[at].url@,
{
    reveal_strlit(".");
    reveal_strlit("");
    assert("."@ =~= seq!['.']);
    assert(""@ =~= Seq::empty());
    lemma_no_exact_url(versions, version);
    lemma_undotted_url(versions, version, at);
}

/// Without any such entry, the mirror gives the address.
pub proof fn law_the_mirror_comes_last(versions: Seq<VersionEntry>, version: Seq<char>)
    requires
        forall|i: int|
            0 <= i < versions.len() ==> replaced(
                (#[trigger] versions[i]).id@,
                seq!['.'],
                Seq::empty(),
            ) != replaced(version, seq!['.'], Seq::empty()),
    ensures
        listed_url(versions, version) == "https://bmclapi2.bangbang93.com"@ + "/"@ + version
            + "/json"@,
{
    reveal_strlit(".");
    reveal_strlit("");
    assert("."@ =~= seq!['.']);
    assert(""@ =~= Seq::empty());
    assert forall|i: int| 0 <= i < versions.len() implies (#[trigger] versions[i]).id@
        != version by {
        assert(undotted(versions[i].id@) != undotted(version));
    }
    lemma_no_exact_url(versions, version);
    lemma_undotted_url(versions, version, versions.len() as int);
}

// ---------------------------------------------------------------------------------------------
// Numbers
// ---------------------------------------------------------------------------------------------

/// A number is written digit by digit: ten times a number and a digit more is the number with the
/// digit behind it.
pub proof fn law_numbers_are_written_digit_by_digit(number: nat, digit: nat)
    requires
        digit < 10,
    ensures
        decimal(digit) == seq!["0123456789"@[digit as int]],
        number > 0 ==> decimal(10 * number + digit) == decimal(number).push(
            "0123456789"@[digit as int],
        ),
{
    let whole = 10 * number + digit;
    assert(whole / 10 == number);
    assert(whole % 10 == digit);
}

// ---------------------------------------------------------------------------------------------
// Texts
// ---------------------------------------------------------------------------------------------

/// A text begins with, ends with and holds just what stands at its start, at its end and within it.
pub proof fn law_texts_hold_their_parts(front: Seq<char>, part: Seq<char>, back: Seq<char>)
    ensures
        contains(front + part + back, part),
        starts_with(part + back, part),
        ends_with(front + part, part),
{
    let whole = front + part + back;
    let at = front.len() as int;
    assert(whole.subrange(at, at + part.len()) =~= part);
    assert(occurs_at(whole, part, at));
    assert((part + back).subrange(0, part.len() as int) =~= part);
    assert((front + part).subrange(at, at + part.len()) =~= part);
}

/// What a text holds cuts it into what comes before and what comes behind.
pub proof fn law_parts_make_up_texts(text: Seq<char>, part: Seq<char>)
    ensures
        contains(text, part) ==> exists|front: Seq<char>, back: Seq<char>|
            text == #[trigger] (front + part + back),
        starts_with(text, part) ==> text == part + text.skip(part.len() as int),
        ends_with(text, part) ==> text == text.take(text.len() - part.len()) + part,
{
    if contains(text, part) {
        let at = choose|at: int| occurs_at(text, part, at);
        let front = text.take(at);
        let back = text.skip(at + part.len());
        assert(text =~= front + text.subrange(at, at + part.len()) + back);
        assert(text == front + part + back);
    }
    if starts_with(text, part) {
        assert(text =~= text.subrange(0, part.len() as int) + text.skip(part.len() as int));
    }
    if ends_with(text, part) {
        let at = text.len() - part.len();
        assert(text =~= text.take(at) + text.subrange(at, at + part.len()));
    }
}

/// An archive that cannot be opened and an entry that cannot be written end the work with their own
/// message; an entry that was written is followed by the next.
pub proof fn law_failed_archives_are_given_up(error: String, at: int, entries: int)
    ensures
        step_after_archive(Err(error)) == JarStepView::Failed(error@),
        step_after_written(Err(error), at, entries) == JarStepView::Failed(error@),
        at + 1 < entries ==> step_after_written(Ok(()), at, entries) == JarStepView::Read(at + 1),
        at + 1 >= entries ==> step_after_written(Ok(()), at, entries) is Finished,
        step_after_archive(Ok(0)) is Finished,
{
}

/// What file names add for a processor.
pub proof fn law_processors_have_suffixes(arch: Seq<char>)
    ensures
        arch == "x86_64"@ ==> arch_suffix(arch).len() == 0,
        arch == "aarch64"@ ==> arch_suffix(arch) == "-arm64"@,
        arch == "x86"@ ==> arch_suffix(arch) == "-x86"@,
        arch == "arm"@ ==> arch_suffix(arch) == "-arm"@,
        arch != "x86_64"@ && arch != "aarch64"@ && arch != "x86"@ && arch != "arm"@ ==> arch_suffix(
            arch,
        ) == "-unknown"@,
{
    reveal_strlit("");
    reveal_strlit("x86_64");
    reveal_strlit("aarch64");
    reveal_strlit("x86");
    reveal_strlit("arm");
    assert("x86_64"@.len() == 6 && "aarch64"@.len() == 7 && "x86"@.len() == 3 && "arm"@.len() == 3);
    assert("x86"@[0] != "arm"@[0]);
}

} // verus!
