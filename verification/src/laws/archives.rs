//! Which archives with native libraries are selected, by the text of their paths.
use crate::natives::{
    arch_serves, is_windows_64, last_nonempty, lemma_cut_keeps_the_tag, lemma_tags, named_arch,
    natives_match_system, reported_arch, selected_archive, selected_artifact, selected_classifier,
    selected_classifiers, selected_natives, selected_of_library, system_tags, Artifact, Library,
    Selection,
};
use crate::text::{
    ascii_lowercase, before_first, contains, is_ascii_text, lemma_first_separator,
    lemma_next_occurrence, lemma_split_behind, lemma_split_is_never_empty, lemma_without_pattern, lowered,
    next_occurrence, occurs_at, split, starts_with,
};
use vstd::prelude::*;

verus! {

// ---------------------------------------------------------------------------------------------
// The processor that a path names
// ---------------------------------------------------------------------------------------------

/// A word of small letters, digits and underscores.
pub open spec fn is_small_word(word: Seq<char>) -> bool {
    &&& word.len() > 0
    &&& forall|i: int|
        0 <= i < word.len() ==> 'a' <= #[trigger] word[i] <= 'z' || '0' <= word[i] <= '9'
            || word[i] == '_'
}

/// The path of an archive whose last word is `word`.
pub open spec fn ends_in_word(path: Seq<char>, word: Seq<char>) -> bool {
    exists|front: Seq<char>| path == #[trigger] (front + seq!['-']) + word + ".jar"@
}

/// The last word of a path names the processor, unless it names a system.
proof fn lemma_named(path: Seq<char>, word: Seq<char>)
    requires
        is_small_word(word),
        ends_in_word(path, word),
    ensures
        named_arch(path) == if word == "windows"@ || word == "linux"@ || word == "macos"@ || word
            == "osx"@ {
            None::<Seq<char>>
        } else {
            Some(word)
        },
{
    let front = choose|front: Seq<char>| path == #[trigger] (front + seq!['-']) + word + ".jar"@;
    reveal_strlit(".jar");
    reveal_strlit("-");
    reveal_strlit(".");
    assert("-"@ =~= seq!['-']);
    assert("."@ =~= seq!['.']);
    let last = word + ".jar"@;
    assert(path =~= front + seq!['-'] + last);
    assert(!last.contains('-')) by {
        assert forall|i: int| 0 <= i < last.len() implies last[i] != '-' by {
            if i < word.len() {
                assert(last[i] == word[i]);
            }
        }
    }
    lemma_split_behind(front, '-', last);
    let pieces = split(path, seq!['-']);
    assert(pieces.last() == last);
    assert(last_nonempty(pieces) == Some(last));
    assert(!word.contains('.'));
    let end = seq!['j', 'a', 'r'];
    assert(last =~= word + seq!['.'] + end);
    lemma_first_separator(word, '.', end);
    assert(before_first(last, seq!['.']) == word);
    assert(is_ascii_text(word));
    assert(lowered(word) =~= word) by {
        assert forall|i: int| 0 <= i < word.len() implies ascii_lowercase(#[trigger] word[i])
            == word[i] by {
        }
    }
}

/// The last word of an archive's path is read without regard to capital letters: archives of two
/// paths that differ in capital letters of it only name the same processor.
pub proof fn law_capital_letters_do_not_matter(front: Seq<char>, word: Seq<char>, other: Seq<char>)
    requires
        is_small_word(word),
        word != "windows"@ && word != "linux"@ && word != "macos"@ && word != "osx"@,
        other.len() == word.len(),
        forall|i: int|
            0 <= i < word.len() ==> (#[trigger] other[i] == word[i] || ('A' <= other[i] <= 'Z'
                && other[i] as int + 32 == word[i] as int)),
        other != "windows"@ && other != "linux"@ && other != "macos"@ && other != "osx"@,
    ensures
        named_arch(front + seq!['-'] + other + ".jar"@) == Some(word),
{
    reveal_strlit(".jar");
    reveal_strlit("-");
    reveal_strlit(".");
    assert("-"@ =~= seq!['-']);
    assert("."@ =~= seq!['.']);
    let last = other + ".jar"@;
    let path = front + seq!['-'] + other + ".jar"@;
    assert(path =~= front + seq!['-'] + last);
    assert forall|i: int| 0 <= i < other.len() implies other[i] != '-' && other[i] != '.'
        && other[i] as int <= 127 && ascii_lowercase(#[trigger] other[i]) == word[i] by {
        assert(other[i] == word[i] || 'A' <= other[i] <= 'Z');
        assert(word[i] as int <= 122);
    }
    assert(!last.contains('-')) by {
        assert forall|i: int| 0 <= i < last.len() implies last[i] != '-' by {
            if i < other.len() {
                assert(last[i] == other[i]);
                assert(ascii_lowercase(other[i]) == word[i]);
            }
        }
    }
    lemma_split_behind(front, '-', last);
    assert(split(path, seq!['-']).last() == last);
    assert(!other.contains('.')) by {
        assert forall|i: int| 0 <= i < other.len() implies other[i] != '.' by {
            assert(ascii_lowercase(other[i]) == word[i]);
        }
    }
    let end = seq!['j', 'a', 'r'];
    assert(last =~= other + seq!['.'] + end);
    lemma_first_separator(other, '.', end);
    assert(is_ascii_text(other)) by {
        assert forall|i: int| 0 <= i < other.len() implies (#[trigger] other[i]) as int <= 127 by {
            assert(ascii_lowercase(other[i]) == word[i]);
        }
    }
    assert(lowered(other) =~= word);
}

// ---------------------------------------------------------------------------------------------
// What is selected
// ---------------------------------------------------------------------------------------------

/// A selection comes from a file of the library at `i`: its own, or the classifier at `c`.
pub open spec fn comes_from(
    selection: Selection,
    libraries: Seq<Library>,
    os: Seq<char>,
    arch: Seq<char>,
    i: int,
    c: int,
) -> bool {
    &&& 0 <= i < libraries.len()
    &&& {
        ||| {
            &&& libraries[i].downloads.artifact is Some
            &&& selection.0 == libraries[i].downloads.artifact->0.path@
            &&& selected_artifact(selection.0, os, arch) == Some(selection)
        }
        ||| {
            &&& libraries[i].downloads.classifiers is Some
            &&& 0 <= c < libraries[i].downloads.classifiers->0@.len()
            &&& selection.0 == libraries[i].downloads.classifiers->0@[c].path@
            &&& selected_classifier(selection.0, os, arch) == Some(selection)
        }
    }
}

/// A selection comes from some file of the libraries.
spec fn has_source(
    selection: Selection,
    libraries: Seq<Library>,
    os: Seq<char>,
    arch: Seq<char>,
) -> bool {
    exists|i: int, c: int| #[trigger] comes_from(selection, libraries, os, arch, i, c)
}

/// What is selected among classifiers is one of them.
proof fn lemma_classifiers(classifiers: Seq<Artifact>, os: Seq<char>, arch: Seq<char>)
    ensures
        forall|k: int|
            0 <= k < selected_classifiers(classifiers, os, arch).len() ==> exists|c: int|
                0 <= c < classifiers.len() && selected_classifier(
                    (#[trigger] classifiers[c]).path@,
                    os,
                    arch,
                ) == Some(#[trigger] selected_classifiers(classifiers, os, arch)[k]),
        forall|c: int|
            0 <= c < classifiers.len() && selected_classifier(
                (#[trigger] classifiers[c]).path@,
                os,
                arch,
            ) is Some ==> selected_classifiers(classifiers, os, arch).contains(
                selected_classifier(classifiers[c].path@, os, arch)->0,
            ),
    decreases classifiers.len(),
{
    let all = selected_classifiers(classifiers, os, arch);
    if classifiers.len() > 0 {
        let front = classifiers.drop_last();
        let earlier = selected_classifiers(front, os, arch);
        let last = selected_classifier(classifiers.last().path@, os, arch);
        lemma_classifiers(front, os, arch);
        assert forall|k: int| 0 <= k < all.len() implies exists|c: int|
            0 <= c < classifiers.len() && selected_classifier(
                (#[trigger] classifiers[c]).path@,
                os,
                arch,
            ) == Some(#[trigger] all[k]) by {
            if k < earlier.len() {
                assert(all[k] == earlier[k]);
                let c = choose|c: int|
                    0 <= c < front.len() && selected_classifier(
                        (#[trigger] front[c]).path@,
                        os,
                        arch,
                    ) == Some(earlier[k]);
                assert(classifiers[c] == front[c]);
            } else {
                assert(classifiers[classifiers.len() - 1] == classifiers.last());
            }
        }
        assert forall|c: int|
            0 <= c < classifiers.len() && selected_classifier(
                (#[trigger] classifiers[c]).path@,
                os,
                arch,
            ) is Some implies all.contains(
            selected_classifier(classifiers[c].path@, os, arch)->0,
        ) by {
            let wanted = selected_classifier(classifiers[c].path@, os, arch)->0;
            if c < front.len() {
                assert(front[c] == classifiers[c]);
                assert(earlier.contains(wanted));
                let k = choose|k: int| 0 <= k < earlier.len() && earlier[k] == wanted;
                assert(all[k] == wanted);
            } else {
                assert(all[earlier.len() as int] == wanted);
            }
        }
    }
}

/// Every selection has a source.
proof fn lemma_sources(libraries: Seq<Library>, os: Seq<char>, arch: Seq<char>, k: int)
    requires
        0 <= k < selected_natives(libraries, os, arch).len(),
    ensures
        has_source(selected_natives(libraries, os, arch)[k], libraries, os, arch),
    decreases libraries.len(),
{
    let all = selected_natives(libraries, os, arch);
    let front = libraries.drop_last();
    let earlier = selected_natives(front, os, arch);
    let last = libraries.last();
    let end = libraries.len() - 1;
    if k < earlier.len() {
        lemma_sources(front, os, arch, k);
        let (i, c) = choose|i: int, c: int| #[trigger]
            comes_from(earlier[k], front, os, arch, i, c);
        assert(front[i] == libraries[i]);
        assert(comes_from(all[k], libraries, os, arch, i, c));
    } else {
        let own = selected_archive(last.downloads, os, arch);
        let at = k - earlier.len();
        if at < own.len() {
            assert(all[k] == own[at]);
            assert(comes_from(all[k], libraries, os, arch, end, 0));
        } else {
            let classifiers = last.downloads.classifiers->0@;
            let chosen = selected_classifiers(classifiers, os, arch);
            lemma_classifiers(classifiers, os, arch);
            assert(all[k] == chosen[at - own.len()]);
            let c = choose|c: int|
                0 <= c < classifiers.len() && selected_classifier(
                    (#[trigger] classifiers[c]).path@,
                    os,
                    arch,
                ) == Some(chosen[at - own.len()]);
            assert(comes_from(all[k], libraries, os, arch, end, c));
        }
    }
}

/// Archives are selected library after library.
pub proof fn law_selections_add_up(
    first: Seq<Library>,
    second: Seq<Library>,
    os: Seq<char>,
    arch: Seq<char>,
)
    ensures
        selected_natives(first + second, os, arch) == selected_natives(first, os, arch)
            + selected_natives(second, os, arch),
    decreases second.len(),
{
    let all = first + second;
    if second.len() == 0 {
        assert(all =~= first);
        assert(selected_natives(first, os, arch) + selected_natives(second, os, arch)
            =~= selected_natives(first, os, arch));
    } else {
        law_selections_add_up(first, second.drop_last(), os, arch);
        assert(all.drop_last() =~= first + second.drop_last());
        assert(all.last() == second.last());
        assert(selected_natives(all, os, arch) =~= selected_natives(first, os, arch)
            + selected_natives(second, os, arch));
    }
}

/// What a library's files give is selected, wherever the library stands.
proof fn lemma_selected(
    libraries: Seq<Library>,
    os: Seq<char>,
    arch: Seq<char>,
    i: int,
    selection: Selection,
)
    requires
        0 <= i < libraries.len(),
        selected_of_library(libraries[i], os, arch).contains(selection),
    ensures
        selected_natives(libraries, os, arch).contains(selection),
    decreases libraries.len(),
{
    let all = selected_natives(libraries, os, arch);
    let front = libraries.drop_last();
    let earlier = selected_natives(front, os, arch);
    if i < front.len() {
        assert(front[i] == libraries[i]);
        lemma_selected(front, os, arch, i, selection);
        let k = choose|k: int| 0 <= k < earlier.len() && earlier[k] == selection;
        assert(all[k] == selection);
    } else {
        let of_last = selected_of_library(libraries.last(), os, arch);
        let k = choose|k: int| 0 <= k < of_last.len() && of_last[k] == selection;
        assert(all[earlier.len() + k] == selection);
    }
}

/// The library at `i` has the archive `path`, as its own file or among its classifiers.
pub open spec fn has_archive(libraries: Seq<Library>, path: Seq<char>, i: int) -> bool {
    &&& 0 <= i < libraries.len()
    &&& {
        ||| libraries[i].downloads.artifact is Some && libraries[i].downloads.artifact->0.path@
            == path
        ||| libraries[i].downloads.classifiers is Some && exists|c: int|
            0 <= c < libraries[i].downloads.classifiers->0@.len() && (
            #[trigger] libraries[i].downloads.classifiers->0@[c]).path@ == path
    }
}

/// Every archive that is selected is a file of one of the libraries, and its path says that it
/// holds natives for the system: `-natives` stands in it, and right behind it the name of the
/// system, but for the old spelling for 64 bits on Windows.
pub proof fn law_selected_archives_are_for_the_system(
    libraries: Seq<Library>,
    os: Seq<char>,
    arch: Seq<char>,
    k: int,
)
    requires
        0 <= k < selected_natives(libraries, os, arch).len(),
    ensures
        ({
            let path = selected_natives(libraries, os, arch)[k].0;
            &&& exists|i: int| has_archive(libraries, path, i)
            &&& {
                ||| os == "windows"@ && contains(path, "-natives"@ + "-windows"@)
                ||| os == "linux"@ && contains(path, "-natives"@ + "-linux"@)
                ||| os == "macos"@ && contains(path, "-natives"@ + "-macos"@)
                ||| os == "macos"@ && contains(path, "-natives"@ + "-osx"@)
                ||| os == "windows"@ && contains(path, "natives-windows-64"@) && contains(
                    path,
                    "-natives"@,
                )
            }
        }),
{
    let selection = selected_natives(libraries, os, arch)[k];
    let path = selection.0;
    lemma_sources(libraries, os, arch, k);
    let (i, c) = choose|i: int, c: int| #[trigger]
        comes_from(selection, libraries, os, arch, i, c);
    assert(has_archive(libraries, path, i));
    if !is_windows_64(path, os) {
        assert(natives_match_system(path, os));
        let mark = "-natives"@;
        reveal_strlit("-natives");
        lemma_next_occurrence(path, mark, 0);
        let at = next_occurrence(path, mark, 0)->0;
        let rest = path.skip(at + mark.len());
        assert(split(path, mark) == seq![path.take(at)] + split(rest, mark));
        let piece = split(path, mark)[1];
        assert(piece == before_first(rest, mark));
        let tags = system_tags(os);
        let t = choose|t: int| 0 <= t < tags.len() && starts_with(piece, #[trigger] tags[t]);
        let tag = tags[t];
        lemma_next_occurrence(rest, mark, 0);
        assert(rest.subrange(0, tag.len() as int) =~= piece.subrange(0, tag.len() as int));
        assert(path.subrange(at, at + (mark + tag).len()) =~= mark + tag) by {
            assert(path.subrange(at, at + mark.len()) == mark);
            let whole = path.subrange(at, at + (mark + tag).len());
            assert forall|j: int| 0 <= j < whole.len() implies whole[j] == (mark + tag)[j] by {
                if j < mark.len() {
                    assert(path.subrange(at, at + mark.len())[j] == path[at + j]);
                } else {
                    assert(rest.subrange(0, tag.len() as int)[j - mark.len()] == rest[j
                        - mark.len()]);
                    assert(rest[j - mark.len()] == path[at + j]);
                }
            }
        }
        assert(occurs_at(path, mark + tag, at));
        assert(contains(path, mark + tag));
    }
}

/// An archive whose path names a processor is selected only on that processor: one for `x86_64` on
/// `x86_64`, one for `x86` on `x86`, one for `arm64` or `aarch_64` on `aarch64`, and none on any
/// other; an archive with a system in place of the processor is selected on `x86_64` only. The one
/// exception is the old spelling for 64 bits on Windows.
pub proof fn law_named_processors_decide(
    libraries: Seq<Library>,
    os: Seq<char>,
    arch: Seq<char>,
    k: int,
    word: Seq<char>,
)
    requires
        0 <= k < selected_natives(libraries, os, arch).len(),
        is_small_word(word),
        ends_in_word(selected_natives(libraries, os, arch)[k].0, word),
        os != "windows"@ || !contains(
            selected_natives(libraries, os, arch)[k].0,
            "natives-windows-64"@,
        ),
    ensures
        ({
            let reported = selected_natives(libraries, os, arch)[k].1;
            if word == "windows"@ || word == "linux"@ || word == "macos"@ || word == "osx"@ {
                arch == "x86_64"@ && reported == "x86_64"@
            } else {
                &&& reported == word
                &&& {
                    ||| arch == "x86_64"@ && word == "x86_64"@
                    ||| arch == "x86"@ && word == "x86"@
                    ||| arch == "aarch64"@ && word == "arm64"@
                    ||| arch == "aarch64"@ && word == "aarch_64"@
                }
            }
        }),
{
    let selection = selected_natives(libraries, os, arch)[k];
    lemma_sources(libraries, os, arch, k);
    let (i, c) = choose|i: int, c: int| #[trigger]
        comes_from(selection, libraries, os, arch, i, c);
    lemma_named(selection.0, word);
}

/// A library's own archive has no exception: it is selected only on the processor that its path
/// names, and on `x86_64` only where it names none.
pub proof fn law_own_archives_have_no_exception(
    libraries: Seq<Library>,
    os: Seq<char>,
    arch: Seq<char>,
    k: int,
    word: Seq<char>,
)
    requires
        forall|i: int|
            0 <= i < libraries.len() ==> (#[trigger] libraries[i]).downloads.classifiers is None,
        0 <= k < selected_natives(libraries, os, arch).len(),
        is_small_word(word),
        ends_in_word(selected_natives(libraries, os, arch)[k].0, word),
    ensures
        natives_match_system(selected_natives(libraries, os, arch)[k].0, os),
        if word == "windows"@ || word == "linux"@ || word == "macos"@ || word == "osx"@ {
            arch == "x86_64"@
        } else {
            ||| arch == "x86_64"@ && word == "x86_64"@
            ||| arch == "x86"@ && word == "x86"@
            ||| arch == "aarch64"@ && word == "arm64"@
            ||| arch == "aarch64"@ && word == "aarch_64"@
        },
{
    let selection = selected_natives(libraries, os, arch)[k];
    lemma_sources(libraries, os, arch, k);
    let (i, c) = choose|i: int, c: int| #[trigger]
        comes_from(selection, libraries, os, arch, i, c);
    assert(libraries[i].downloads.classifiers is None);
    lemma_named(selection.0, word);
}

/// On `x86_64` no archive for another processor is selected, such as one whose path ends in
/// `-arm64.jar`.
pub proof fn law_no_other_processor_on_x86_64(
    libraries: Seq<Library>,
    os: Seq<char>,
    k: int,
    front: Seq<char>,
    word: Seq<char>,
)
    requires
        0 <= k < selected_natives(libraries, os, "x86_64"@).len(),
        is_small_word(word),
        word != "x86_64"@,
        word != "windows"@ && word != "linux"@ && word != "macos"@ && word != "osx"@,
        os != "windows"@ || !contains(front + seq!['-'] + word + ".jar"@, "natives-windows-64"@),
    ensures
        selected_natives(libraries, os, "x86_64"@)[k].0 != front + seq!['-'] + word + ".jar"@,
{
    let path = front + seq!['-'] + word + ".jar"@;
    if selected_natives(libraries, os, "x86_64"@)[k].0 == path {
        assert(path == (front + seq!['-']) + word + ".jar"@);
        assert(ends_in_word(path, word));
        law_named_processors_decide(libraries, os, "x86_64"@, k, word);
        reveal_strlit("x86_64");
        reveal_strlit("x86");
        reveal_strlit("aarch64");
        assert("x86_64"@.len() != "x86"@.len() && "x86_64"@.len() != "aarch64"@.len());
    }
}

/// The path of an archive says that it holds natives for the system: behind its first `-natives`
/// comes the name of the system.
pub open spec fn is_native_path(
    path: Seq<char>,
    front: Seq<char>,
    tag: Seq<char>,
    rest: Seq<char>,
    os: Seq<char>,
) -> bool {
    &&& path == front + "-natives"@ + tag + rest
    &&& before_first(path, "-natives"@) == front
    &&& {
        ||| os == "windows"@ && tag == "-windows"@
        ||| os == "linux"@ && tag == "-linux"@
        ||| os == "macos"@ && tag == "-macos"@
        ||| os == "macos"@ && tag == "-osx"@
    }
}

/// A path that says so names natives for the system.
proof fn lemma_native_path(
    path: Seq<char>,
    front: Seq<char>,
    tag: Seq<char>,
    rest: Seq<char>,
    os: Seq<char>,
)
    requires
        is_native_path(path, front, tag, rest, os),
    ensures
        contains(path, "-natives"@),
        natives_match_system(path, os),
{
    let mark = "-natives"@;
    reveal_strlit("-natives");
    reveal_strlit("windows");
    reveal_strlit("linux");
    reveal_strlit("macos");
    assert("windows"@.len() == 7 && "linux"@.len() == 5 && "macos"@.len() == 5);
    assert("linux"@[0] != "macos"@[0]);
    let tags = system_tags(os);
    let t: int = if tag == "-osx"@ && os == "macos"@ {
        1
    } else {
        0
    };
    assert(tags[t] == tag);
    let end = front.len() as int;
    assert(path.subrange(end, end + mark.len()) =~= mark);
    assert(occurs_at(path, mark, end));
    lemma_next_occurrence(path, mark, 0);
    let at = next_occurrence(path, mark, 0)->0;
    let behind = path.skip(at + mark.len());
    lemma_split_is_never_empty(behind, mark);
    assert(split(path, mark) == seq![path.take(at)] + split(behind, mark));
    assert(path.take(at) == front);
    assert(at == end);
    assert(behind =~= tag + rest);
    assert(behind.subrange(0, tag.len() as int) =~= tag);
    lemma_tags(os, t);
    lemma_cut_keeps_the_tag(behind, tag);
    assert(split(path, mark)[1] == before_first(behind, mark));
    assert(starts_with(split(path, mark)[1], tags[t]));
}

/// An archive with natives for the system is selected on the processor that its path names, and on
/// `x86_64` where it names none, be it a library's own file or one of its classifiers.
pub proof fn law_archives_for_the_processor_are_selected(
    libraries: Seq<Library>,
    os: Seq<char>,
    arch: Seq<char>,
    i: int,
    path: Seq<char>,
    front: Seq<char>,
    tag: Seq<char>,
    rest: Seq<char>,
    word: Seq<char>,
)
    requires
        has_archive(libraries, path, i),
        is_native_path(path, front, tag, rest, os),
        is_small_word(word),
        ends_in_word(path, word),
        os != "windows"@ || !contains(path, "natives-windows-64"@),
        (arch == "x86_64"@ && (word == "x86_64"@ || word == "windows"@ || word == "linux"@ || word
            == "macos"@ || word == "osx"@)) || (arch == "x86"@ && word == "x86"@) || (arch
            == "aarch64"@ && (word == "arm64"@ || word == "aarch_64"@)),
    ensures
        exists|k: int|
            0 <= k < selected_natives(libraries, os, arch).len() && (
            #[trigger] selected_natives(libraries, os, arch)[k]).0 == path,
{
    lemma_named(path, word);
    lemma_native_path(path, front, tag, rest, os);
    reveal_strlit("x86_64");
    reveal_strlit("x86");
    reveal_strlit("aarch64");
    reveal_strlit("arm64");
    reveal_strlit("aarch_64");
    reveal_strlit("windows");
    reveal_strlit("linux");
    reveal_strlit("macos");
    reveal_strlit("osx");
    assert("x86_64"@.len() == 6 && "x86"@.len() == 3 && "aarch64"@.len() == 7 && "arm64"@.len() == 5
        && "aarch_64"@.len() == 8 && "windows"@.len() == 7 && "linux"@.len() == 5 && "macos"@.len()
        == 5 && "osx"@.len() == 3);
    assert("x86"@[0] != "osx"@[0]);
    assert("arm64"@[0] != "linux"@[0] && "arm64"@[0] != "macos"@[0]);
    assert(arch_serves(named_arch(path), arch));
    let selection = (path, reported_arch(path));
    assert(selected_artifact(path, os, arch) == Some(selection));
    assert(selected_classifier(path, os, arch) == Some(selection));
    lemma_file_is_selected(libraries, os, arch, i, path, selection);
    let all = selected_natives(libraries, os, arch);
    let k = choose|k: int| 0 <= k < all.len() && all[k] == selection;
    assert(all[k].0 == path);
}

/// A file that would be selected in either place is selected.
proof fn lemma_file_is_selected(
    libraries: Seq<Library>,
    os: Seq<char>,
    arch: Seq<char>,
    i: int,
    path: Seq<char>,
    selection: Selection,
)
    requires
        has_archive(libraries, path, i),
        selected_artifact(path, os, arch) == Some(selection),
        selected_classifier(path, os, arch) == Some(selection),
    ensures
        selected_natives(libraries, os, arch).contains(selection),
{
    let library = libraries[i];
    let own = selected_archive(library.downloads, os, arch);
    let of_library = selected_of_library(library, os, arch);
    if library.downloads.artifact is Some && library.downloads.artifact->0.path@ == path {
        assert(own[0] == selection);
        assert(of_library[0] == selection);
    } else {
        let classifiers = library.downloads.classifiers->0@;
        let c = choose|c: int|
            0 <= c < classifiers.len() && (#[trigger] classifiers[c]).path@ == path;
        lemma_classifiers(classifiers, os, arch);
        assert(selected_classifier(classifiers[c].path@, os, arch) is Some);
        let chosen = selected_classifiers(classifiers, os, arch);
        let k = choose|k: int| 0 <= k < chosen.len() && chosen[k] == selection;
        assert(of_library[own.len() + k] == selection);
    }
    lemma_selected(libraries, os, arch, i, selection);
}

/// On Windows a classifier in the old spelling for 64 bits is selected on every processor, as one
/// for `x86_64`.
pub proof fn law_old_windows_archives_are_selected(
    libraries: Seq<Library>,
    arch: Seq<char>,
    i: int,
    c: int,
)
    requires
        0 <= i < libraries.len(),
        libraries[i].downloads.classifiers is Some,
        0 <= c < libraries[i].downloads.classifiers->0@.len(),
        contains(libraries[i].downloads.classifiers->0@[c].path@, "-natives"@),
        contains(libraries[i].downloads.classifiers->0@[c].path@, "natives-windows-64"@),
    ensures
        selected_natives(libraries, "windows"@, arch).contains(
            (libraries[i].downloads.classifiers->0@[c].path@, "x86_64"@),
        ),
{
    let library = libraries[i];
    let classifiers = library.downloads.classifiers->0@;
    let path = classifiers[c].path@;
    let selection = (path, "x86_64"@);
    let own = selected_archive(library.downloads, "windows"@, arch);
    let of_library = selected_of_library(library, "windows"@, arch);
    assert(selected_classifier(path, "windows"@, arch) == Some(selection));
    lemma_classifiers(classifiers, "windows"@, arch);
    let chosen = selected_classifiers(classifiers, "windows"@, arch);
    let k = choose|k: int| 0 <= k < chosen.len() && chosen[k] == selection;
    assert(of_library[own.len() + k] == selection);
    lemma_selected(libraries, "windows"@, arch, i, selection);
}

/// A path names natives for a system just by what stands right behind its first `-natives`: the
/// name of the system. One without `-natives` names none.
pub proof fn law_first_mark_names_the_system(
    path: Seq<char>,
    front: Seq<char>,
    rest: Seq<char>,
    os: Seq<char>,
)
    ensures
        !contains(path, "-natives"@) ==> !natives_match_system(path, os),
        path == front + "-natives"@ + rest && before_first(path, "-natives"@) == front ==> (
        natives_match_system(path, os) <==> ((os == "windows"@ && starts_with(rest, "-windows"@))
            || (os == "linux"@ && starts_with(rest, "-linux"@)) || (os == "macos"@ && (starts_with(
            rest,
            "-macos"@,
        ) || starts_with(rest, "-osx"@))))),
{
    let mark = "-natives"@;
    reveal_strlit("-natives");
    reveal_strlit("windows");
    reveal_strlit("linux");
    reveal_strlit("macos");
    assert("windows"@.len() == 7 && "linux"@.len() == 5 && "macos"@.len() == 5);
    assert("linux"@[0] != "macos"@[0]);
    if !contains(path, mark) {
        lemma_without_pattern(path, mark, mark);
    }
    if path == front + mark + rest && before_first(path, mark) == front {
        let end = front.len() as int;
        assert(path.subrange(end, end + mark.len()) =~= mark);
        assert(occurs_at(path, mark, end));
        lemma_next_occurrence(path, mark, 0);
        let at = next_occurrence(path, mark, 0)->0;
        let behind = path.skip(at + mark.len());
        lemma_split_is_never_empty(behind, mark);
        assert(split(path, mark) == seq![path.take(at)] + split(behind, mark));
        assert(path.take(at) == front);
        assert(behind =~= rest);
        let piece = before_first(rest, mark);
        assert(split(path, mark)[1] == piece);
        let tags = system_tags(os);
        assert forall|t: int| 0 <= t < tags.len() implies (starts_with(piece, #[trigger] tags[t])
            <==> starts_with(rest, tags[t])) by {
            let tag = tags[t];
            lemma_tags(os, t);
            if starts_with(rest, tag) {
                lemma_cut_keeps_the_tag(rest, tag);
            }
            if starts_with(piece, tag) {
                lemma_next_occurrence(rest, mark, 0);
                assert(rest.subrange(0, tag.len() as int) =~= piece.subrange(0, tag.len() as int));
            }
        }
        if os == "windows"@ {
            assert(tags[0] == "-windows"@);
        } else if os == "linux"@ {
            assert(tags[0] == "-linux"@);
        } else if os == "macos"@ {
            assert(tags[0] == "-macos"@ && tags[1] == "-osx"@);
        }
        if natives_match_system(path, os) {
            let t = choose|t: int| 0 <= t < tags.len() && starts_with(piece, #[trigger] tags[t]);
            assert(starts_with(rest, tags[t]));
        }
        if (os == "windows"@ && starts_with(rest, "-windows"@)) || (os == "linux"@ && starts_with(
            rest,
            "-linux"@,
        )) || (os == "macos"@ && starts_with(rest, "-macos"@)) {
            assert(starts_with(piece, tags[0]));
        } else if os == "macos"@ && starts_with(rest, "-osx"@) {
            assert(starts_with(piece, tags[1]));
        }
    }
}

/// The last word of a path, up to its first full stop, names the processor, unless it names a
/// system.
pub proof fn law_last_word_names_the_processor(front: Seq<char>, word: Seq<char>, rest: Seq<char>)
    requires
        is_small_word(word),
        !rest.contains('-'),
    ensures
        named_arch(front + seq!['-'] + word + seq!['.'] + rest) == if word == "windows"@ || word
            == "linux"@ || word == "macos"@ || word == "osx"@ {
            None::<Seq<char>>
        } else {
            Some(word)
        },
{
    reveal_strlit("-");
    reveal_strlit(".");
    assert("-"@ =~= seq!['-']);
    assert("."@ =~= seq!['.']);
    let path = front + seq!['-'] + word + seq!['.'] + rest;
    let last = word + seq!['.'] + rest;
    assert(path =~= front + seq!['-'] + last);
    assert(!last.contains('-')) by {
        assert forall|i: int| 0 <= i < last.len() implies last[i] != '-' by {
            if i < word.len() {
                assert(last[i] == word[i]);
            } else if i > word.len() {
                assert(rest.contains(rest[i - word.len() - 1]));
            }
        }
    }
    lemma_split_behind(front, '-', last);
    assert(split(path, seq!['-']).last() == last);
    assert(!word.contains('.'));
    lemma_first_separator(word, '.', rest);
    assert(is_ascii_text(word));
    assert(lowered(word) =~= word) by {
        assert forall|i: int| 0 <= i < word.len() implies ascii_lowercase(#[trigger] word[i])
            == word[i] by {
        }
    }
}

/// Which processors an archive serves, by the one that its path names: `x86_64` is served by its
/// own archives and by those that name none, `x86` by its own, `aarch64` by those for `arm64` and
/// `aarch_64`, and no other processor by any.
pub proof fn law_processors_are_served(named: Seq<char>, current: Seq<char>)
    ensures
        arch_serves(None, current) <==> current == "x86_64"@,
        arch_serves(Some(named), current) <==> ((current == "x86_64"@ && named == "x86_64"@) || (
        current == "x86"@ && named == "x86"@) || (current == "aarch64"@ && (named == "arm64"@
            || named == "aarch_64"@))),
{
    reveal_strlit("x86_64");
    reveal_strlit("x86");
    reveal_strlit("aarch64");
    assert("x86_64"@.len() == 6 && "x86"@.len() == 3 && "aarch64"@.len() == 7);
}

/// A library gives its own archive first, at most once, then those of its classifiers, each at most
/// once and in their order.
pub proof fn law_libraries_give_each_archive_once(
    library: Library,
    classifiers: Seq<Artifact>,
    classifier: Artifact,
    os: Seq<char>,
    arch: Seq<char>,
)
    ensures
        selected_natives(seq![library], os, arch).len() <= 1
            + match library.downloads.classifiers {
            None => 0,
            Some(list) => list@.len(),
        },
        selected_classifiers(Seq::empty(), os, arch).len() == 0,
        selected_classifiers(classifiers.push(classifier), os, arch) == match selected_classifier(
            classifier.path@,
            os,
            arch,
        ) {
            None => selected_classifiers(classifiers, os, arch),
            Some(selection) => selected_classifiers(classifiers, os, arch).push(selection),
        },
        library.downloads.artifact is Some && selected_artifact(
            library.downloads.artifact->0.path@,
            os,
            arch,
        ) is Some ==> selected_natives(seq![library], os, arch).len() > 0 && selected_natives(
            seq![library],
            os,
            arch,
        )[0].0 == library.downloads.artifact->0.path@,
{
    assert(classifiers.push(classifier).drop_last() =~= classifiers);
    let one = seq![library];
    assert(one.drop_last() =~= Seq::empty());
    assert(selected_natives(Seq::empty(), os, arch) == Seq::<Selection>::empty());
    assert(selected_natives(one, os, arch) =~= selected_of_library(library, os, arch));
    if let Some(list) = library.downloads.classifiers {
        lemma_no_more_than_listed(list@, os, arch);
    }
}

/// No more is selected among classifiers than there are.
proof fn lemma_no_more_than_listed(classifiers: Seq<Artifact>, os: Seq<char>, arch: Seq<char>)
    ensures
        selected_classifiers(classifiers, os, arch).len() <= classifiers.len(),
    decreases classifiers.len(),
{
    if classifiers.len() > 0 {
        lemma_no_more_than_listed(classifiers.drop_last(), os, arch);
    }
}

} // verus!
