//! Which entries of an archive are unpacked, and what is reported where that fails.
use crate::natives::{
    are_full_archives, native_extension, step_after_opening, step_after_unpacking, unpacked_name,
    JarOpening, JarStepView, JarUnpacking, Selection,
};
use crate::paths::{extension_of, is_path_text, last_dot, slash_file_name};
use crate::text::{contains, ends_with, lemma_split_behind, occurs_at, split};
use vstd::prelude::*;

verus! {

/// The last full stop is where it is, and none comes behind it.
proof fn lemma_last_dot(base: Seq<char>, extension: Seq<char>)
    requires
        !extension.contains('.'),
    ensures
        last_dot(base + seq!['.'] + extension) == base.len(),
    decreases extension.len(),
{
    let name = base + seq!['.'] + extension;
    if extension.len() == 0 {
        assert(name.last() == '.');
    } else {
        let shorter = extension.drop_last();
        assert forall|i: int| 0 <= i < shorter.len() implies shorter[i] != '.' by {
            assert(extension.contains(extension[i]));
        }
        assert(name.last() == extension.last());
        assert(extension.contains(extension.last()));
        assert(name.drop_last() =~= base + seq!['.'] + shorter);
        lemma_last_dot(base, shorter);
    }
}

/// A name that has a last full stop is what comes before it, the full stop and what follows.
proof fn lemma_last_dot_parts(name: Seq<char>)
    ensures
        -1 <= last_dot(name) < name.len(),
        last_dot(name) >= 0 ==> name == name.take(last_dot(name)) + seq!['.'] + name.skip(
            last_dot(name) + 1,
        ),
    decreases name.len(),
{
    if name.len() > 0 {
        if name.last() == '.' {
            assert(name =~= name.take(last_dot(name)) + seq!['.'] + name.skip(last_dot(name) + 1));
        } else {
            let shorter = name.drop_last();
            lemma_last_dot_parts(shorter);
            let at = last_dot(name);
            if at >= 0 {
                assert(shorter[at] == (shorter.take(at) + seq!['.'] + shorter.skip(at + 1))[at]);
                assert(name[at] == '.');
                assert(name =~= name.take(at) + seq!['.'] + name.skip(at + 1));
            }
        }
    }
}

/// What follows the last full stop of a file name is its extension, where something comes before
/// the full stop; a name without a full stop has none.
pub proof fn law_extensions_follow_the_last_stop(base: Seq<char>, extension: Seq<char>)
    requires
        !extension.contains('.'),
    ensures
        base.len() > 0 ==> extension_of(base + seq!['.'] + extension) == Some(extension),
        extension_of(seq!['.'] + extension) is None,
{
    lemma_last_dot(base, extension);
    let name = base + seq!['.'] + extension;
    assert(name.skip(base.len() as int + 1) =~= extension);
    lemma_last_dot(Seq::empty(), extension);
    assert(Seq::<char>::empty() + seq!['.'] + extension =~= seq!['.'] + extension);
}

/// An entry is unpacked just under its file name, and just where that ends with a full stop and the
/// extension behind something else, or is that of the one license.
pub proof fn law_libraries_and_the_license_are_unpacked(
    file_name: Option<Seq<char>>,
    extension: Seq<char>,
    base: Seq<char>,
)
    requires
        !extension.contains('.'),
    ensures
        unpacked_name(file_name, extension) matches Some(name) ==> file_name == Some(name) && (name
            == "Tracy_LICENSE"@ || (name.len() > extension.len() + 1 && ends_with(
            name,
            seq!['.'] + extension,
        ))),
        base.len() > 0 ==> unpacked_name(Some(base + seq!['.'] + extension), extension) == Some(
            base + seq!['.'] + extension,
        ),
        unpacked_name(Some("Tracy_LICENSE"@), extension) == Some("Tracy_LICENSE"@),
{
    law_extensions_follow_the_last_stop(base, extension);
    if let Some(name) = unpacked_name(file_name, extension) {
        if name != "Tracy_LICENSE"@ {
            lemma_last_dot_parts(name);
            let at = last_dot(name);
            assert(name.skip(at + 1) == extension);
            assert(name.subrange(at, name.len() as int) =~= seq!['.'] + extension);
            assert(occurs_at(name, seq!['.'] + extension, at));
        }
    }
}

/// The extension of native libraries is that of the system: `dll` on Windows, `dylib` on macOS and
/// `so` on Linux; on any other system nothing of an archive is unpacked.
pub proof fn law_extensions_by_system(os: Seq<char>, jar: Seq<char>, entries: usize)
    ensures
        os == "windows"@ ==> native_extension(os) == Some("dll"@),
        os == "macos"@ ==> native_extension(os) == Some("dylib"@),
        os == "linux"@ ==> native_extension(os) == Some("so"@),
        os != "windows"@ && os != "macos"@ && os != "linux"@ ==> step_after_opening(
            jar,
            os,
            JarOpening::Entries(entries),
        ) is Finished,
        (os == "windows"@ || os == "macos"@ || os == "linux"@) && entries > 0
            ==> step_after_opening(jar, os, JarOpening::Entries(entries)) == JarStepView::Read(0),
{
    reveal_strlit("windows");
    reveal_strlit("macos");
    reveal_strlit("linux");
    assert("windows"@.len() == 7 && "macos"@.len() == 5 && "linux"@.len() == 5);
    assert("macos"@[0] != "linux"@[0]);
}

/// `part` stands in the text of `step`, which is a failure.
pub open spec fn fails_with(step: JarStepView, part: Seq<char>) -> bool {
    step matches JarStepView::Failed(message) && contains(message, part)
}

/// A text holds its parts.
proof fn lemma_holds(front: Seq<char>, part: Seq<char>, rest: Seq<char>)
    ensures
        contains(front + part + rest, part),
{
    let whole = front + part + rest;
    let at = front.len() as int;
    assert(whole.subrange(at, at + part.len()) =~= part);
    assert(occurs_at(whole, part, at));
}

/// An archive that cannot be opened, an entry that cannot be read and a file that cannot be written
/// end the work, with a message that names the archive, the entry or the file, and the reason.
pub proof fn law_failures_name_their_reason(
    jar: Seq<char>,
    os: Seq<char>,
    name: String,
    error: String,
    at: int,
    entries: int,
)
    ensures
        fails_with(step_after_opening(jar, os, JarOpening::Missing), jar),
        fails_with(step_after_opening(jar, os, JarOpening::Unreadable(error)), jar),
        fails_with(step_after_opening(jar, os, JarOpening::Unreadable(error)), error@),
        fails_with(step_after_opening(jar, os, JarOpening::Damaged(error)), jar),
        fails_with(step_after_opening(jar, os, JarOpening::Damaged(error)), error@),
        fails_with(
            step_after_unpacking(JarUnpacking::ReadFailed(name, error), at, entries),
            name@,
        ),
        fails_with(
            step_after_unpacking(JarUnpacking::ReadFailed(name, error), at, entries),
            error@,
        ),
        fails_with(
            step_after_unpacking(JarUnpacking::WriteFailed(name, error), at, entries),
            name@,
        ),
        fails_with(
            step_after_unpacking(JarUnpacking::WriteFailed(name, error), at, entries),
            error@,
        ),
{
    let again = "\n请重新下载该版本"@;
    let reason = "\n错误: "@;
    lemma_holds("JAR文件不存在: "@, jar, again);
    lemma_reason("无法打开JAR文件"@ + ": "@, jar, reason, error@, again);
    lemma_reason("损坏的JAR文件"@ + ": "@, jar, reason, error@, again);
    lemma_reason("读取文件失败"@ + ": "@, name@, reason, error@, again);
    lemma_reason("写入文件失败: "@, name@, reason, error@, "\n请检查文件权限"@);
}

/// A message holds what it is about and its reason.
proof fn lemma_reason(
    problem: Seq<char>,
    subject: Seq<char>,
    between: Seq<char>,
    error: Seq<char>,
    end: Seq<char>,
)
    ensures
        contains(problem + subject + between + error + end, subject),
        contains(problem + subject + between + error + end, error),
{
    lemma_holds(problem, subject, between + error + end);
    lemma_holds(problem + subject + between, error, end);
    assert(problem + subject + (between + error + end) =~= problem + subject + between + error
        + end);
}

/// With forward slashes, what follows the last slash of a path is its file name, unless it is empty
/// or leads nowhere else.
pub proof fn law_file_names_follow_the_last_slash(directory: Seq<char>, name: Seq<char>)
    requires
        !name.contains('/'),
        name.len() > 0,
        name != seq!['.'],
        name != seq!['.', '.'],
    ensures
        slash_file_name(directory + seq!['/'] + name) == Some(name),
{
    lemma_split_behind(directory, '/', name);
    let pieces = split(directory + seq!['/'] + name, seq!['/']);
    assert(pieces.last() == name);
}

/// The archives that are unpacked are those selected, each at its place in the libraries directory
/// and under the processor that was reported for it.
pub proof fn law_archives_lie_among_the_libraries(
    full: Seq<Selection>,
    selected: Seq<Selection>,
    root: Seq<char>,
    i: int,
)
    requires
        are_full_archives(full, selected, root),
        0 <= i < selected.len(),
    ensures
        full.len() == selected.len(),
        is_path_text(full[i].0, seq![root, "libraries"@, selected[i].0]),
        full[i].1 == selected[i].1,
{
}

} // verus!
