//! What the reports of jobs hold.
use crate::tasks::{quotation, quoted_list, versions_report};
use crate::text::{contains, joined, lemma_joined_front, occurs_at, starts_with};
use vstd::prelude::*;

verus! {

/// A text of printable ASCII characters without quotation marks and backslashes is quoted by a mark
/// before and a mark behind it.
pub proof fn law_plain_texts_are_quoted(text: Seq<char>)
    requires
        forall|i: int|
            0 <= i < text.len() ==> 32 <= (#[trigger] text[i]) as int <= 126 && text[i] != '"'
                && text[i] != '\\',
    ensures
        quotation(text) == seq!['"'] + text + seq!['"'],
{
}

/// A list is written between brackets, its texts quoted and with commas between them.
pub proof fn law_lists_are_bracketed(texts: Seq<Seq<char>>, text: Seq<char>)
    ensures
        quoted_list(Seq::empty()) == seq!['[', ']'],
        quoted_list(seq![text]) == seq!['['] + quotation(text) + seq![']'],
        texts.len() > 0 ==> quoted_list(seq![text] + texts) == seq!['['] + quotation(text) + seq![
            ',',
            ' ',
        ] + quoted_list(texts).skip(1),
{
    reveal_strlit("[");
    reveal_strlit("]");
    reveal_strlit(", ");
    assert("["@ =~= seq!['[']);
    assert("]"@ =~= seq![']']);
    assert(", "@ =~= seq![',', ' ']);
    let quote = |text: Seq<char>| quotation(text);
    assert(Seq::<Seq<char>>::empty().map_values(quote) =~= Seq::empty());
    assert(quoted_list(Seq::empty()) =~= seq!['[', ']']);
    assert(seq![text].map_values(quote) =~= seq![quotation(text)]);
    assert(joined(seq![quotation(text)], ", "@) == quotation(text));
    if texts.len() > 0 {
        let pieces = texts.map_values(quote);
        assert((seq![text] + texts).map_values(quote) =~= seq![quotation(text)] + pieces);
        lemma_joined_front(quotation(text), pieces, ", "@);
        assert(quoted_list(texts).skip(1) =~= joined(pieces, ", "@) + "]"@);
        assert(quoted_list(seq![text] + texts) =~= seq!['['] + quotation(text) + seq![',', ' ']
            + quoted_list(texts).skip(1));
    }
}

/// The report on the versions gives the releases, the snapshots, the jokes and the old versions,
/// each list behind its own heading and in this order.
pub proof fn law_reports_name_each_kind(
    releases: Seq<Seq<char>>,
    snapshots: Seq<Seq<char>>,
    april_fools: Seq<Seq<char>>,
    old_versions: Seq<Seq<char>>,
)
    ensures
        ({
            let report = versions_report(releases, snapshots, april_fools, old_versions);
            &&& starts_with(report, "正式版 "@ + quoted_list(releases) + "\n快照版 "@)
            &&& contains(report, "\n快照版 "@ + quoted_list(snapshots) + "\n愚人节 "@)
            &&& contains(report, "\n愚人节 "@ + quoted_list(april_fools) + "\n远古版 "@)
            &&& contains(report, "\n远古版 "@ + quoted_list(old_versions))
        }),
{
    let report = versions_report(releases, snapshots, april_fools, old_versions);
    let first = "正式版 "@ + quoted_list(releases);
    let second = "\n快照版 "@ + quoted_list(snapshots);
    let third = "\n愚人节 "@ + quoted_list(april_fools);
    let fourth = "\n远古版 "@ + quoted_list(old_versions);
    assert(report =~= first + second + third + fourth);
    let start = first + "\n快照版 "@;
    assert(report.subrange(0, start.len() as int) =~= start);
    let middle = second + "\n愚人节 "@;
    let at = first.len() as int;
    assert(report.subrange(at, at + middle.len()) =~= middle);
    assert(occurs_at(report, middle, at));
    let jokes = third + "\n远古版 "@;
    let from = first.len() + second.len() as int;
    assert(report.subrange(from, from + jokes.len()) =~= jokes);
    assert(occurs_at(report, jokes, from));
    let end = from + third.len();
    assert(report.subrange(end, end + fourth.len()) =~= fourth);
    assert(occurs_at(report, fourth, end));
}

} // verus!
