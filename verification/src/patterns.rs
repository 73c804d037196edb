//! Regular expressions, and the clearing of placeholders that nothing filled.
use crate::text::{lemma_next_occurrence, next_occurrence, occurs_at};
use vstd::prelude::*;

verus! {

/// `pattern` is a regular expression that compiles.
pub uninterp spec fn pattern_compiles(pattern: Seq<char>) -> bool;

/// The regular expression `pattern` has a match somewhere in `text`.
pub uninterp spec fn pattern_found(pattern: Seq<char>, text: Seq<char>) -> bool;

/// `text` with every match of the regular expression `pattern` exchanged for what `replacement`
/// stands for.
pub uninterp spec fn pattern_replaced(
    pattern: Seq<char>,
    text: Seq<char>,
    replacement: Seq<char>,
) -> Seq<char>;

/// Whether a regular expression compiles.
///
/// Calls `regex::Regex::new`, whose success is taken to depend on the pattern alone. The crate
/// limits the size of a compiled pattern in bytes, so that for patterns close to the limit the
/// answer is the same within one build only.
#[verifier::external_body]
pub(crate) fn compiles(pattern: &str) -> (valid: bool)
    ensures
        valid == pattern_compiles(pattern@),
{
    regex::Regex::new(pattern).is_ok()
}

/// Whether a regular expression has a match in a text.
///
/// Calls `regex::Regex::is_match` on the compiled pattern; the answer is taken to depend on the
/// pattern and the text alone.
#[verifier::external_body]
pub(crate) fn is_match(pattern: &str, text: &str) -> (found: bool)
    requires
        pattern_compiles(pattern@),
    ensures
        found == pattern_found(pattern@, text@),
{
    regex::Regex::new(pattern).unwrap().is_match(text)
}

/// Exchanges every match of a regular expression.
///
/// Calls `regex::Regex::replace_all` on the compiled pattern; the result is taken to depend on
/// the three arguments alone. The pattern for a dollar sign and a pair of braces compiles, its
/// matches are found from the left without overlap, and each runs to the first closing brace:
/// with an empty pair of braces for replacement, the result is `cleared`.
#[verifier::external_body]
pub(crate) fn replace_matches(pattern: &str, text: &str, replacement: &str) -> (changed: String)
    requires
        pattern_compiles(pattern@) || pattern@ == "\\$\\{[^}]*\\}"@,
    ensures
        changed@ == pattern_replaced(pattern@, text@, replacement@),
        pattern@ == "\\$\\{[^}]*\\}"@ && replacement@ == "{}"@ ==> changed@ == cleared(text@),
{
    regex::Regex::new(pattern).unwrap().replace_all(text, replacement).into_owned()
}

/// A placeholder opens at `open` and closes at `close`.
pub open spec fn placeholder_at(text: Seq<char>, open: int, close: int) -> bool {
    occurs_at(text, seq!['$', '{'], open) && open + 2 <= close < text.len() && text[close] == '}'
}

/// Some placeholder, a dollar sign and a pair of braces, stands in `text`.
pub open spec fn has_placeholder(text: Seq<char>) -> bool {
    exists|open: int, close: int| placeholder_at(text, open, close)
}

/// Where the first placeholder of `text` opens and closes.
pub open spec fn first_placeholder(text: Seq<char>) -> Option<(int, int)> {
    match next_occurrence(text, seq!['$', '{'], 0) {
        None => None,
        Some(open) => match next_occurrence(text, seq!['}'], open + 2) {
            None => None,
            Some(close) => Some((open, close)),
        },
    }
}

/// `text` with each placeholder, taken from the left, shrunk to an empty pair of braces.
pub open spec fn cleared(text: Seq<char>) -> Seq<char>
    decreases text.len(),
{
    match first_placeholder(text) {
        None => text,
        Some((open, close)) => {
            proof {
                lemma_first_placeholder(text);
            }
            text.take(open) + seq!['{', '}'] + cleared(text.skip(close + 1))
        },
    }
}

/// One of the placeholders that `cleared` shrinks comes directly after a dollar sign.
pub open spec fn dollar_before_placeholder(text: Seq<char>) -> bool
    decreases text.len(),
{
    match first_placeholder(text) {
        None => false,
        Some((open, close)) => {
            proof {
                lemma_first_placeholder(text);
            }
            (open > 0 && text[open - 1] == '$') || dollar_before_placeholder(text.skip(close + 1))
        },
    }
}

/// What `first_placeholder` reports is a placeholder, and no `${` stands before it; without one,
/// the text has no placeholder at all.
pub proof fn lemma_first_placeholder(text: Seq<char>)
    ensures
        first_placeholder(text) matches Some((open, close)) ==> {
            &&& 0 <= open
            &&& placeholder_at(text, open, close)
            &&& forall|i: int| 0 <= i < open ==> !occurs_at(text, seq!['$', '{'], i)
            &&& forall|i: int| open + 2 <= i < close ==> text[i] != '}'
        },
        first_placeholder(text) is Some <==> has_placeholder(text),
{
    lemma_next_occurrence(text, seq!['$', '{'], 0);
    match next_occurrence(text, seq!['$', '{'], 0) {
        None => {},
        Some(open) => {
            lemma_next_occurrence(text, seq!['}'], open + 2);
            assert forall|i: int| open + 2 <= i < text.len() implies (text[i] == '}' <==> occurs_at(
                text,
                seq!['}'],
                i,
            )) by {
                assert(text.subrange(i, i + 1) =~= seq![text[i]]);
                assert(seq![text[i]][0] == text[i]);
                assert(seq!['}'][0] == '}');
            }
            if let Some(close) = next_occurrence(text, seq!['}'], open + 2) {
                assert(placeholder_at(text, open, close));
            } else {
                assert forall|o: int, c: int| !placeholder_at(text, o, c) by {
                    if placeholder_at(text, o, c) {
                        assert(occurs_at(text, seq!['}'], c));
                    }
                }
            }
        },
    }
}

/// Two characters of a text are a dollar sign and an opening brace.
proof fn lemma_opening(text: Seq<char>, i: int)
    ensures
        occurs_at(text, seq!['$', '{'], i) <==> 0 <= i && i + 2 <= text.len() && text[i] == '$'
            && text[i + 1] == '{',
{
    let mark = seq!['$', '{'];
    if 0 <= i && i + 2 <= text.len() {
        let part = text.subrange(i, i + 2);
        if text[i] == '$' && text[i + 1] == '{' {
            assert(part =~= mark);
        } else {
            assert(part[0] == text[i] && part[1] == text[i + 1]);
            assert(mark[0] == '$' && mark[1] == '{');
        }
    }
}

/// Clearing a text leaves no placeholder in it, unless a placeholder that it shrank came directly
/// after a dollar sign; then it leaves one.
pub proof fn law_clearing_leaves_no_placeholder(text: Seq<char>)
    ensures
        has_placeholder(cleared(text)) <==> dollar_before_placeholder(text),
    decreases text.len(),
{
    lemma_first_placeholder(text);
    match first_placeholder(text) {
        None => {},
        Some((open, close)) => {
            let front = text.take(open);
            let rest = text.skip(close + 1);
            let tail = cleared(rest);
            let whole = front + seq!['{', '}'] + tail;
            assert(cleared(text) == whole);
            law_clearing_leaves_no_placeholder(rest);
            if open > 0 && text[open - 1] == '$' {
                lemma_opening(whole, open - 1);
                assert(whole[open - 1] == '$' && whole[open] == '{' && whole[open + 1] == '}');
                assert(placeholder_at(whole, open - 1, open + 1));
            }
            if has_placeholder(tail) {
                let (o, c) = choose|o: int, c: int| placeholder_at(tail, o, c);
                lemma_opening(tail, o);
                lemma_opening(whole, o + open + 2);
                assert(whole[o + open + 2] == tail[o] && whole[o + open + 3] == tail[o + 1]);
                assert(whole[c + open + 2] == tail[c]);
                assert(placeholder_at(whole, o + open + 2, c + open + 2));
            }
            if has_placeholder(whole) {
                let (o, c) = choose|o: int, c: int| placeholder_at(whole, o, c);
                lemma_opening(whole, o);
                if o + 1 < open {
                    lemma_opening(text, o);
                    assert(whole[o] == text[o] && whole[o + 1] == text[o + 1]);
                } else if o + 1 == open {
                    assert(whole[o] == text[o]);
                } else {
                    assert(whole[open] == '{' && whole[open + 1] == '}');
                    assert(o >= open + 2);
                    lemma_opening(tail, o - open - 2);
                    assert(tail[o - open - 2] == whole[o] && tail[o - open - 1] == whole[o + 1]);
                    assert(tail[c - open - 2] == whole[c]);
                    assert(placeholder_at(tail, o - open - 2, c - open - 2));
                }
            }
        },
    }
}

} // verus!
