//! Paths of the game's files.
use crate::text::{characters, same_text, split};
use vstd::prelude::*;

verus! {

/// A path as the steps that lead to it: a starting point, then what is joined to it in order.
pub struct GamePath {
    pub parts: Vec<String>,
}

impl View for GamePath {
    type V = Seq<Seq<char>>;

    open spec fn view(&self) -> Seq<Seq<char>> {
        self.parts.deep_view()
    }
}

impl GamePath {
    /// The path that is just its starting point.
    pub fn new(start: &str) -> (path: Self)
        ensures
            path@ == seq![start@],
    {
        let mut parts: Vec<String> = Vec::new();
        parts.push(start.to_owned());
        assert(parts.deep_view() =~= seq![start@]);
        GamePath { parts }
    }

    /// The path with one more step.
    pub fn join(self, part: &str) -> (path: Self)
        ensures
            path@ == self@.push(part@),
    {
        let mut parts = self.parts;
        parts.push(part.to_owned());
        assert(parts.deep_view() =~= self@.push(part@));
        GamePath { parts }
    }
}

/// A text that every platform with forward slashes reads in the same way as a path or a part of
/// one: it has no backslash and no colon, and does not begin with two slashes.
pub open spec fn is_plain(text: Seq<char>) -> bool {
    &&& !text.contains('\\')
    &&& !text.contains(':')
    &&& !(text.len() >= 2 && text[0] == '/' && text[1] == '/')
}

/// All of `parts` are plain.
pub open spec fn are_plain(parts: Seq<Seq<char>>) -> bool {
    forall|i: int| 0 <= i < parts.len() ==> is_plain(#[trigger] parts[i])
}

/// `path` with one more step, where paths are written with forward slashes: an absolute step takes
/// the place of the path, any other follows it, behind a slash unless there already is one.
pub open spec fn slash_step(path: Seq<char>, part: Seq<char>) -> Seq<char> {
    if part.len() > 0 && part[0] == '/' {
        part
    } else if path.len() == 0 || path.last() == '/' {
        path + part
    } else {
        path.push('/') + part
    }
}

/// The path that joins `parts` in order, written with forward slashes.
pub open spec fn slash_path(parts: Seq<Seq<char>>) -> Seq<char>
    decreases parts.len(),
{
    if parts.len() == 0 {
        Seq::empty()
    } else {
        slash_step(slash_path(parts.drop_last()), parts.last())
    }
}

/// The text of the path that joins `parts` in order, by the path rules of the platforms whose
/// main separator is `separator`.
pub uninterp spec fn path_text(separator: char, parts: Seq<Seq<char>>) -> Seq<char>;

/// `text` is how the path that joins `parts` is written on a platform: with forward slashes, or
/// by the rules of the platforms whose main separator is the backslash.
pub open spec fn is_path_text(text: Seq<char>, parts: Seq<Seq<char>>) -> bool {
    ||| text == path_text('/', parts) && (are_plain(parts) ==> text == slash_path(parts))
    ||| text == path_text('\\', parts)
}

/// Writes a path as the platform does.
///
/// Calls `PathBuf::from_iter`, which pushes the parts one after the other. The result is taken to
/// depend on the parts and on the platform's path rules alone, which are fixed within one build.
/// They are named by the main separator, a slash or a backslash. Where it is the slash, plain
/// parts give `slash_path`: an absolute part replaces what was there, any other is added behind a
/// separator; minor platforms may read parts that are not plain in ways of their own. Which rules
/// are in force is not said, nor what the ones with the backslash make of the parts.
#[verifier::external_body]
pub(crate) fn render_path(path: &GamePath) -> (text: String)
    ensures
        (text@ == path_text('/', path@) && (are_plain(path@) ==> text@ == slash_path(path@)))
            || text@ == path_text('\\', path@),
{
    std::path::PathBuf::from_iter(&path.parts).to_string_lossy().into_owned()
}

/// The last of the pieces of a path that names something: neither empty nor a single full stop.
pub open spec fn last_named(pieces: Seq<Seq<char>>) -> Option<Seq<char>>
    decreases pieces.len(),
{
    if pieces.len() == 0 {
        None
    } else if pieces.last().len() == 0 || pieces.last() == seq!['.'] {
        last_named(pieces.drop_last())
    } else {
        Some(pieces.last())
    }
}

/// The file name of a path that is written with forward slashes: its last piece that names
/// something, unless that leads upwards.
pub open spec fn slash_file_name(path: Seq<char>) -> Option<Seq<char>> {
    match last_named(split(path, seq!['/'])) {
        None => None,
        Some(name) => if name == seq!['.', '.'] {
            None
        } else {
            Some(name)
        },
    }
}

/// The final component of a path, by the path rules of the platforms whose main separator is
/// `separator`; none, where the path has no file name.
pub uninterp spec fn path_file_name(separator: char, path: Seq<char>) -> Option<Seq<char>>;

/// `name` is what a platform takes for the file name of `path`: one with forward slashes, or one
/// whose main separator is the backslash.
pub open spec fn is_file_name(name: Option<Seq<char>>, path: Seq<char>) -> bool {
    ||| name == path_file_name('/', path) && (is_plain(path) ==> name == slash_file_name(path))
    ||| name == path_file_name('\\', path)
}

/// The file name of a path.
///
/// Calls `Path::file_name`. The result is taken to depend on the path and on the platform's path
/// rules alone, as for `render_path`. Where the main separator is the forward slash, a plain path
/// gives `slash_file_name`: repeated and trailing separators and single full stops do not count,
/// and a path that ends by leading upwards has no file name.
#[verifier::external_body]
pub(crate) fn file_name(path: &str) -> (name: Option<String>)
    ensures
        (name.deep_view() == path_file_name('/', path@) && (is_plain(path@) ==> name.deep_view()
            == slash_file_name(path@))) || name.deep_view() == path_file_name('\\', path@),
{
    std::path::Path::new(path).file_name().map(|name| name.to_string_lossy().into_owned())
}

/// The position of the last full stop in a file name.
pub open spec fn last_dot(name: Seq<char>) -> int
    decreases name.len(),
{
    if name.len() == 0 {
        -1
    } else if name.last() == '.' {
        name.len() - 1
    } else {
        last_dot(name.drop_last())
    }
}

/// What follows the last full stop of a file name; none, where there is no full stop or where
/// it comes first.
pub open spec fn extension_of(name: Seq<char>) -> Option<Seq<char>> {
    if last_dot(name) <= 0 {
        None
    } else {
        Some(name.skip(last_dot(name) + 1))
    }
}

/// Whether a file name has the extension `extension`.
pub fn has_extension(name: &str, extension: &str) -> (found: bool)
    ensures
        found == (extension_of(name@) == Some(extension@)),
{
    let chars = characters(name);
    let end = chars.len();
    let mut i: usize = end;
    proof {
        assert(name@.take(end as int) =~= name@);
    }
    while i > 0
        invariant
            i <= end == name@.len(),
            chars@ == name@,
            last_dot(name@) == last_dot(name@.take(i as int)),
        decreases i,
    {
        assert(name@.take(i as int).drop_last() =~= name@.take(i - 1));
        if chars[i - 1] == '.' {
            if i == 1 {
                return false;
            }
            let rest = name.substring_char(i, end);
            assert(rest@ =~= name@.skip(i as int));
            return same_text(rest, extension);
        }
        i = i - 1;
    }
    false
}

} // verus!
