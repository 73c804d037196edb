//! What the tasks of the service report.
use crate::text::{join_texts, joined, push_text};
use vstd::prelude::*;

verus! {

/// `text` between quotation marks, with what needs it escaped.
pub uninterp spec fn quoted(text: Seq<char>) -> Seq<char>;

/// Nothing in `text` needs to be escaped: it holds printable ASCII characters only, and neither
/// quotation marks nor backslashes.
pub open spec fn is_plainly_quoted(text: Seq<char>) -> bool {
    forall|i: int|
        0 <= i < text.len() ==> ' ' <= #[trigger] text[i] <= '~' && text[i] != '"' && text[i] != '\\'
}

/// `text` between quotation marks: as it stands where nothing in it needs to be escaped, by its
/// name otherwise.
pub open spec fn quotation(text: Seq<char>) -> Seq<char> {
    if is_plainly_quoted(text) {
        seq!['"'] + text + seq!['"']
    } else {
        quoted(text)
    }
}

/// Writes a text between quotation marks.
///
/// Calls the `Debug` formatting of `str`, whose result is taken to depend on the text alone. A text
/// of printable ASCII characters without quotation marks and backslashes stands between the marks
/// as it is. How other characters are written is not said.
#[verifier::external_body]
pub(crate) fn quote(text: &str) -> (quoted_text: String)
    ensures
        quoted_text@ == quoted(text@),
        is_plainly_quoted(text@) ==> quoted_text@ == seq!['"'] + text@ + seq!['"'],
{
    format!("{:?}", text)
}

/// A list of texts, each between quotation marks.
pub open spec fn quoted_list(texts: Seq<Seq<char>>) -> Seq<char> {
    "["@ + joined(texts.map_values(|text: Seq<char>| quotation(text)), ", "@) + "]"@
}

/// Writes a list of texts, each between quotation marks.
pub fn quote_list(texts: &Vec<String>) -> (list: String)
    ensures
        list@ == quoted_list(texts.deep_view()),
{
    let mut pieces: Vec<String> = Vec::new();
    let ghost all = texts.deep_view().map_values(|text: Seq<char>| quotation(text));
    let mut i: usize = 0;
    assert(pieces.deep_view() =~= all.take(0));
    while i < texts.len()
        invariant
            i <= texts@.len(),
            all == texts.deep_view().map_values(|text: Seq<char>| quotation(text)),
            pieces.deep_view() == all.take(i as int),
        decreases texts@.len() - i,
    {
        push_text(&mut pieces, quote(texts[i].as_str()));
        assert(all.take(i + 1) =~= all.take(i as int).push(all[i as int]));
        i = i + 1;
    }
    assert(all.take(i as int) =~= all);
    bracket_pieces(&pieces)
}

/// Writes a list of texts that stand between quotation marks already.
pub fn bracket_pieces(pieces: &Vec<String>) -> (list: String)
    ensures
        list@ == "["@ + joined(pieces.deep_view(), ", "@) + "]"@,
{
    "[".to_owned().concat(join_texts(pieces, ", ").as_str()).concat("]")
}

/// What the download of a version reports.
pub fn original_download_task(version: &str, outcome: Result<(), String>) -> (report: Result<
    String,
    String,
>)
    ensures
        match outcome {
            Ok(_) => report matches Ok(text) && text@ == "download "@ + version@ + " done"@,
            Err(error) => report == Err::<String, String>(error),
        },
{
    match outcome {
        Ok(_) => Ok("download ".to_owned().concat(version).concat(" done")),
        Err(error) => Err(error),
    }
}

/// The report on the versions of each kind.
pub open spec fn versions_report(
    releases: Seq<Seq<char>>,
    snapshots: Seq<Seq<char>>,
    april_fools: Seq<Seq<char>>,
    old_versions: Seq<Seq<char>>,
) -> Seq<char> {
    "正式版 "@ + quoted_list(releases) + "\n快照版 "@ + quoted_list(snapshots) + "\n愚人节 "@
        + quoted_list(april_fools) + "\n远古版 "@ + quoted_list(old_versions)
}

/// What the sorting of the versions reports.
pub fn classify_versions_task(outcome: Result<[Vec<String>; 4], String>) -> (report: Result<
    String,
    String,
>)
    ensures
        match outcome {
            Ok(lists) => report matches Ok(text) && text@ == versions_report(
                lists@[0].deep_view(),
                lists@[1].deep_view(),
                lists@[2].deep_view(),
                lists@[3].deep_view(),
            ),
            Err(error) => report == Err::<String, String>(error),
        },
{
    match outcome {
        Ok(lists) => Ok(
            "正式版 ".to_owned().concat(quote_list(&lists[0]).as_str()).concat(
                "\n快照版 ",
            ).concat(quote_list(&lists[1]).as_str()).concat("\n愚人节 ").concat(
                quote_list(&lists[2]).as_str(),
            ).concat("\n远古版 ").concat(quote_list(&lists[3]).as_str()),
        ),
        Err(error) => Err(error),
    }
}

/// What a run of the game reports, given how it ended.
pub fn launch_game_task(outcome: Result<String, String>) -> (report: Result<String, String>)
    ensures
        match outcome {
            Ok(status) => report matches Ok(text) && text@ == "game exit: "@ + status@,
            Err(error) => report == Err::<String, String>(error),
        },
{
    match outcome {
        Ok(status) => Ok("game exit: ".to_owned().concat(status.as_str())),
        Err(error) => Err(error),
    }
}

} // verus!
