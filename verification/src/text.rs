//! Searching, splitting and joining of text.
//!
//! A text is modelled by the sequence of its characters. Patterns are never empty where a text
//! is split or replaced.
use vstd::prelude::*;

verus! {

/// `pattern` stands in `text` at the position `at`.
pub open spec fn occurs_at(text: Seq<char>, pattern: Seq<char>, at: int) -> bool {
    &&& 0 <= at
    &&& at + pattern.len() <= text.len()
    &&& text.subrange(at, at + pattern.len()) == pattern
}

/// `pattern` stands somewhere in `text`.
pub open spec fn contains(text: Seq<char>, pattern: Seq<char>) -> bool {
    exists|at: int| occurs_at(text, pattern, at)
}

/// `text` begins with `prefix`.
pub open spec fn starts_with(text: Seq<char>, prefix: Seq<char>) -> bool {
    occurs_at(text, prefix, 0)
}

/// `text` ends with `suffix`.
pub open spec fn ends_with(text: Seq<char>, suffix: Seq<char>) -> bool {
    occurs_at(text, suffix, text.len() - suffix.len())
}

/// The first position, from `from` on, at which `pattern` stands in `text`.
pub open spec fn next_occurrence(text: Seq<char>, pattern: Seq<char>, from: int) -> Option<int>
    decreases text.len() + 1 - from,
{
    if from < 0 || from + pattern.len() > text.len() {
        None
    } else if occurs_at(text, pattern, from) {
        Some(from)
    } else {
        next_occurrence(text, pattern, from + 1)
    }
}

/// The pieces of `text` between the occurrences of `separator`, taken from the left.
pub open spec fn split(text: Seq<char>, separator: Seq<char>) -> Seq<Seq<char>>
    decreases text.len(),
{
    let first = next_occurrence(text, separator, 0);
    if separator.len() == 0 || first is None {
        seq![text]
    } else {
        proof {
            lemma_next_occurrence(text, separator, 0);
        }
        seq![text.take(first->0)] + split(text.skip(first->0 + separator.len()), separator)
    }
}

/// The pieces one after the other, with `separator` between them.
pub open spec fn joined(pieces: Seq<Seq<char>>, separator: Seq<char>) -> Seq<char>
    decreases pieces.len(),
{
    if pieces.len() == 0 {
        Seq::empty()
    } else if pieces.len() == 1 {
        pieces[0]
    } else {
        joined(pieces.drop_last(), separator) + separator + pieces.last()
    }
}

/// `text` with every occurrence of `pattern` exchanged for `replacement`.
pub open spec fn replaced(text: Seq<char>, pattern: Seq<char>, replacement: Seq<char>) -> Seq<
    char,
> {
    joined(split(text, pattern), replacement)
}

/// The part of `text` in front of the first `mark`; all of it, where there is none.
pub open spec fn before_first(text: Seq<char>, mark: Seq<char>) -> Seq<char> {
    split(text, mark)[0]
}

/// An occurrence that `next_occurrence` reports is one, and none comes before it.
pub proof fn lemma_next_occurrence(text: Seq<char>, pattern: Seq<char>, from: int)
    requires
        0 <= from,
    ensures
        next_occurrence(text, pattern, from) matches Some(at) ==> from <= at && occurs_at(
            text,
            pattern,
            at,
        ) && forall|i: int| from <= i < at ==> !occurs_at(text, pattern, i),
        next_occurrence(text, pattern, from) is None ==> forall|i: int|
            from <= i ==> !occurs_at(text, pattern, i),
    decreases text.len() + 1 - from,
{
    if from + pattern.len() <= text.len() && !occurs_at(text, pattern, from) {
        lemma_next_occurrence(text, pattern, from + 1);
    }
}

/// A text contains a pattern just when a search from its start finds one.
pub proof fn lemma_contains_is_found(text: Seq<char>, pattern: Seq<char>)
    ensures
        contains(text, pattern) <==> next_occurrence(text, pattern, 0) is Some,
{
    lemma_next_occurrence(text, pattern, 0);
}

/// Searching a text from `from` on is searching what is left after `from` characters.
proof fn lemma_next_occurrence_skip(text: Seq<char>, pattern: Seq<char>, from: int, i: int)
    requires
        0 <= from <= text.len(),
        0 <= i,
    ensures
        next_occurrence(text.skip(from), pattern, i) == match next_occurrence(
            text,
            pattern,
            from + i,
        ) {
            Some(at) => Some(at - from),
            None => None::<int>,
        },
    decreases text.len() + 1 - from - i,
{
    let rest = text.skip(from);
    if i + pattern.len() <= rest.len() {
        assert(rest.subrange(i, i + pattern.len()) =~= text.subrange(
            from + i,
            from + i + pattern.len(),
        ));
        lemma_next_occurrence_skip(text, pattern, from, i + 1);
    }
}

/// A split has at least one piece.
pub proof fn lemma_split_is_never_empty(text: Seq<char>, separator: Seq<char>)
    ensures
        split(text, separator).len() >= 1,
{
}

/// Whether two texts hold the same characters.
pub fn same_text(left: &str, right: &str) -> (same: bool)
    ensures
        same == (left@ == right@),
{
    left.to_owned() == right.to_owned()
}

/// The characters of a text, in order.
pub fn characters(text: &str) -> (chars: Vec<char>)
    ensures
        chars@ == text@,
{
    let mut chars: Vec<char> = Vec::new();
    for c in it: text.chars()
        invariant
            chars@ == it.seq().take(it.index() as int),
            it.seq() == text@,
    {
        chars.push(c);
    }
    chars
}

/// Whether `pattern` stands in `text` at `at`.
fn found_at(text: &Vec<char>, pattern: &Vec<char>, at: usize) -> (found: bool)
    requires
        at + pattern@.len() <= text@.len(),
    ensures
        found == occurs_at(text@, pattern@, at as int),
{
    let end = text.len();
    let mut i: usize = 0;
    while i < pattern.len()
        invariant
            i <= pattern@.len(),
            at + pattern@.len() <= end == text@.len(),
            forall|j: int| 0 <= j < i ==> text@[at + j] == pattern@[j],
        decreases pattern@.len() - i,
    {
        if text[at + i] != pattern[i] {
            assert(text@.subrange(at as int, at + pattern@.len())[i as int] != pattern@[i as int]);
            return false;
        }
        i = i + 1;
    }
    assert(text@.subrange(at as int, at + pattern@.len()) =~= pattern@);
    true
}

/// The first position, from `from` on, at which `pattern` stands in `text`.
fn find_from(text: &Vec<char>, pattern: &Vec<char>, from: usize) -> (found: Option<usize>)
    requires
        from <= text@.len(),
    ensures
        match found {
            Some(at) => next_occurrence(text@, pattern@, from as int) == Some(at as int),
            None => next_occurrence(text@, pattern@, from as int) is None,
        },
{
    let mut at: usize = from;
    while pattern.len() <= text.len() - at
        invariant
            from <= at <= text@.len(),
            next_occurrence(text@, pattern@, from as int) == next_occurrence(
                text@,
                pattern@,
                at as int,
            ),
        decreases text@.len() - at,
    {
        if found_at(text, pattern, at) {
            return Some(at);
        }
        assert(at < text@.len()) by {
            if at == text@.len() {
                assert(text@.subrange(at as int, at as int) =~= pattern@);
            }
        }
        at = at + 1;
    }
    None
}

/// Whether `pattern` stands somewhere in `text`.
pub fn has_text(text: &str, pattern: &str) -> (found: bool)
    ensures
        found == contains(text@, pattern@),
{
    proof {
        lemma_contains_is_found(text@, pattern@);
    }
    find_from(&characters(text), &characters(pattern), 0).is_some()
}

/// Whether `text` begins with `prefix`.
pub fn has_prefix(text: &str, prefix: &str) -> (found: bool)
    ensures
        found == starts_with(text@, prefix@),
{
    let text_chars = characters(text);
    let prefix_chars = characters(prefix);
    prefix_chars.len() <= text_chars.len() && found_at(&text_chars, &prefix_chars, 0)
}

/// Whether `text` ends with `suffix`.
pub fn has_suffix(text: &str, suffix: &str) -> (found: bool)
    ensures
        found == ends_with(text@, suffix@),
{
    let text_chars = characters(text);
    let suffix_chars = characters(suffix);
    suffix_chars.len() <= text_chars.len() && found_at(
        &text_chars,
        &suffix_chars,
        text_chars.len() - suffix_chars.len(),
    )
}

/// What follows `prefix` in `text`, where `text` begins with it.
pub fn strip_prefix(text: &str, prefix: &str) -> (rest: Option<String>)
    ensures
        rest is Some <==> starts_with(text@, prefix@),
        rest matches Some(rest) ==> rest@ == text@.skip(prefix@.len() as int),
{
    if has_prefix(text, prefix) {
        let end = text.unicode_len();
        let rest = text.substring_char(prefix.unicode_len(), end);
        assert(rest@ =~= text@.skip(prefix@.len() as int));
        Some(rest.to_owned())
    } else {
        None
    }
}

/// Adds a text to the end of a list.
pub fn push_text(list: &mut Vec<String>, text: String)
    ensures
        final(list).deep_view() == old(list).deep_view().push(text@),
{
    list.push(text);
    assert(list.deep_view() =~= old(list).deep_view().push(text@));
}

/// The pieces of `text` between the occurrences of `separator`.
pub fn split_text(text: &str, separator: &str) -> (pieces: Vec<String>)
    requires
        separator@.len() > 0,
    ensures
        pieces.deep_view() == split(text@, separator@),
{
    let chars = characters(text);
    let end = chars.len();
    let mark = characters(separator);
    let mut pieces: Vec<String> = Vec::new();
    let mut start: usize = 0;
    assert(text@.skip(0) =~= text@);
    assert(pieces.deep_view() + split(text@, separator@) =~= split(text@, separator@));
    loop
        invariant
            chars@ == text@,
            chars@.len() == end,
            mark@ == separator@,
            mark@.len() > 0,
            start <= chars@.len(),
            pieces.deep_view() + split(text@.skip(start as int), separator@) == split(
                text@,
                separator@,
            ),
        decreases chars@.len() - start,
    {
        proof {
            lemma_next_occurrence_skip(text@, separator@, start as int, 0);
            lemma_next_occurrence(text@, separator@, start as int);
        }
        let ghost rest = text@.skip(start as int);
        match find_from(&chars, &mark, start) {
            Some(at) => {
                let piece = text.substring_char(start, at);
                let ghost before = pieces.deep_view();
                pieces.push(piece.to_owned());
                proof {
                    assert(piece@ =~= rest.take(at - start));
                    assert(pieces.deep_view() =~= before.push(piece@));
                    let next = at + mark@.len();
                    assert(rest.skip(next - start) =~= text@.skip(next));
                    assert(before + split(rest, separator@) =~= pieces.deep_view() + split(
                        text@.skip(next),
                        separator@,
                    ));
                }
                start = at + mark.len();
            },
            None => {
                let piece = text.substring_char(start, end);
                let ghost before = pieces.deep_view();
                pieces.push(piece.to_owned());
                proof {
                    assert(piece@ =~= rest);
                    assert(pieces.deep_view() =~= before + seq![rest]);
                }
                return pieces;
            },
        }
    }
}

/// The pieces one after the other, with `separator` between them.
pub fn join_texts(pieces: &Vec<String>, separator: &str) -> (text: String)
    ensures
        text@ == joined(pieces.deep_view(), separator@),
{
    let mut text = String::new();
    let ghost all = pieces.deep_view();
    let mut i: usize = 0;
    while i < pieces.len()
        invariant
            i <= pieces@.len(),
            all == pieces.deep_view(),
            text@ == joined(all.take(i as int), separator@),
        decreases pieces@.len() - i,
    {
        assert(all.take(i + 1).drop_last() =~= all.take(i as int));
        if i > 0 {
            text.append(separator);
        }
        text.append(pieces[i].as_str());
        proof {
            assert(all.take(i + 1).last() == pieces@[i as int]@);
            if i == 0 {
                assert(text@ =~= pieces@[0]@);
            }
        }
        i = i + 1;
    }
    assert(all.take(i as int) =~= all);
    text
}

/// `text` with every occurrence of `pattern` exchanged for `replacement`.
pub fn replace_text(text: &str, pattern: &str, replacement: &str) -> (changed: String)
    requires
        pattern@.len() > 0,
    ensures
        changed@ == replaced(text@, pattern@, replacement@),
{
    join_texts(&split_text(text, pattern), replacement)
}

/// The part of `text` in front of the first `mark`; all of it, where there is none.
pub fn text_before(text: &str, mark: &str) -> (front: String)
    requires
        mark@.len() > 0,
    ensures
        front@ == before_first(text@, mark@),
{
    let pieces = split_text(text, mark);
    proof {
        lemma_split_is_never_empty(text@, mark@);
        assert(pieces.deep_view()[0] == pieces@[0]@);
    }
    pieces[0].clone()
}

/// The decimal digits of a number.
pub open spec fn decimal(number: nat) -> Seq<char>
    decreases number,
{
    if number < 10 {
        seq!["0123456789"@[number as int]]
    } else {
        decimal(number / 10).push("0123456789"@[(number % 10) as int])
    }
}

/// Writes a number in decimal digits.
pub fn decimal_text(number: u64) -> (text: String)
    ensures
        text@ == decimal(number as nat),
    decreases number,
{
    proof {
        reveal_strlit("0123456789");
    }
    let digits = "0123456789";
    let last = (number % 10) as usize;
    let digit = digits.substring_char(last, last + 1);
    assert(digit@ =~= seq![digits@[last as int]]);
    if number < 10 {
        digit.to_owned()
    } else {
        let front = decimal_text(number / 10);
        assert(front@ + digit@ =~= front@.push(digits@[last as int]));
        front.concat(digit)
    }
}

/// `text` in lower case.
pub uninterp spec fn lowercase_text(text: Seq<char>) -> Seq<char>;

/// The lower case form of an ASCII character.
pub open spec fn ascii_lowercase(c: char) -> char {
    if 'A' <= c <= 'Z' {
        (c as u8 + 32) as char
    } else {
        c
    }
}

/// All characters of `text` are ASCII characters.
pub open spec fn is_ascii_text(text: Seq<char>) -> bool {
    forall|i: int| 0 <= i < text.len() ==> (#[trigger] text[i]) as int <= 127
}

/// `text` in lower case: a text of ASCII characters letter by letter, any other by its name.
pub open spec fn lowered(text: Seq<char>) -> Seq<char> {
    if is_ascii_text(text) {
        text.map_values(|c: char| ascii_lowercase(c))
    } else {
        lowercase_text(text)
    }
}

/// Writes a text in lower case.
///
/// Calls `str::to_lowercase`, whose result is taken to depend on the text alone. Of a text of
/// ASCII characters it changes the letters `A` to `Z`, each by itself, and nothing else.
#[verifier::external_body]
pub(crate) fn lowercase(text: &str) -> (lower: String)
    ensures
        lower@ == lowercase_text(text@),
        is_ascii_text(text@) ==> lower@ == text@.map_values(|c: char| ascii_lowercase(c)),
{
    text.to_lowercase()
}

/// The pieces of a split hold no separator.
pub proof fn law_pieces_hold_no_separator(text: Seq<char>, separator: Seq<char>)
    requires
        separator.len() > 0,
    ensures
        forall|i: int|
            0 <= i < split(text, separator).len() ==> !contains(
                #[trigger] split(text, separator)[i],
                separator,
            ),
    decreases text.len(),
{
    lemma_next_occurrence(text, separator, 0);
    match next_occurrence(text, separator, 0) {
        None => {
            assert(split(text, separator) =~= seq![text]);
        },
        Some(first) => {
            let piece = text.take(first);
            let rest = text.skip(first + separator.len());
            law_pieces_hold_no_separator(rest, separator);
            assert(!contains(piece, separator)) by {
                if contains(piece, separator) {
                    let at = choose|at: int| occurs_at(piece, separator, at);
                    assert(text.subrange(at, at + separator.len()) =~= piece.subrange(
                        at,
                        at + separator.len(),
                    ));
                    assert(occurs_at(text, separator, at));
                }
            }
            let pieces = split(text, separator);
            assert(pieces =~= seq![piece] + split(rest, separator));
            assert forall|i: int| 0 <= i < pieces.len() implies !contains(
                #[trigger] pieces[i],
                separator,
            ) by {
                if i > 0 {
                    assert(pieces[i] == split(rest, separator)[i - 1]);
                }
            }
        },
    }
}

/// One more piece in front goes in front of the joined text.
pub proof fn lemma_joined_front(front: Seq<char>, pieces: Seq<Seq<char>>, separator: Seq<char>)
    requires
        pieces.len() > 0,
    ensures
        joined(seq![front] + pieces, separator) == front + separator + joined(pieces, separator),
    decreases pieces.len(),
{
    let all = seq![front] + pieces;
    if pieces.len() == 1 {
        assert(all.drop_last() =~= seq![front]);
        assert(joined(seq![front], separator) == front);
    } else {
        lemma_joined_front(front, pieces.drop_last(), separator);
        assert(all.drop_last() =~= seq![front] + pieces.drop_last());
        assert(joined(all, separator) =~= front + separator + joined(pieces, separator));
    }
}

/// Joining the pieces of a split by the separator gives the text back.
pub proof fn law_join_undoes_split(text: Seq<char>, separator: Seq<char>)
    requires
        separator.len() > 0,
    ensures
        joined(split(text, separator), separator) == text,
    decreases text.len(),
{
    lemma_next_occurrence(text, separator, 0);
    if let Some(first) = next_occurrence(text, separator, 0) {
        let rest = text.skip(first + separator.len());
        law_join_undoes_split(rest, separator);
        lemma_split_is_never_empty(rest, separator);
        lemma_joined_front(text.take(first), split(rest, separator), separator);
        assert(text =~= text.take(first) + separator + rest);
    }
}

/// A joined text holds a character only where a piece or the separator does.
pub proof fn lemma_joined_characters(pieces: Seq<Seq<char>>, separator: Seq<char>, c: char)
    requires
        forall|i: int| 0 <= i < pieces.len() ==> !(#[trigger] pieces[i]).contains(c),
        !separator.contains(c),
    ensures
        !joined(pieces, separator).contains(c),
    decreases pieces.len(),
{
    if pieces.len() > 1 {
        let front = joined(pieces.drop_last(), separator);
        lemma_joined_characters(pieces.drop_last(), separator, c);
        let all = front + separator + pieces.last();
        assert forall|i: int| 0 <= i < all.len() implies all[i] != c by {
            if i < front.len() {
                assert(all[i] == front[i]);
            } else if i < front.len() + separator.len() {
                assert(all[i] == separator[i - front.len()]);
            } else {
                assert(all[i] == pieces.last()[i - front.len() - separator.len()]);
            }
        }
    }
}

/// Exchanging a character for a text that does not hold it leaves none behind.
pub proof fn law_replacing_a_character_removes_it(
    text: Seq<char>,
    c: char,
    replacement: Seq<char>,
)
    requires
        !replacement.contains(c),
    ensures
        !replaced(text, seq![c], replacement).contains(c),
{
    let pieces = split(text, seq![c]);
    law_pieces_hold_no_separator(text, seq![c]);
    assert forall|i: int| 0 <= i < pieces.len() implies !(#[trigger] pieces[i]).contains(c) by {
        if pieces[i].contains(c) {
            let at = choose|at: int| 0 <= at < pieces[i].len() && pieces[i][at] == c;
            assert(pieces[i].subrange(at, at + 1) =~= seq![c]);
            assert(occurs_at(pieces[i], seq![c], at));
        }
    }
    lemma_joined_characters(pieces, replacement, c);
}

/// What stands in front of a separator does not change the last piece of a split.
pub proof fn lemma_last_piece(front: Seq<char>, c: char, text: Seq<char>)
    ensures
        split(front + seq![c] + text, seq![c]).last() == split(text, seq![c]).last(),
    decreases front.len(),
{
    let separator = seq![c];
    let whole = front + separator + text;
    assert(whole.subrange(front.len() as int, front.len() as int + 1) =~= separator);
    assert(occurs_at(whole, separator, front.len() as int));
    lemma_next_occurrence(whole, separator, 0);
    let at = next_occurrence(whole, separator, 0)->0;
    let rest = whole.skip(at + 1);
    assert(at <= front.len());
    lemma_split_is_never_empty(rest, separator);
    assert(split(whole, separator) == seq![whole.take(at)] + split(rest, separator));
    if at == front.len() {
        assert(rest =~= text);
    } else {
        assert(rest =~= front.skip(at + 1) + separator + text);
        lemma_last_piece(front.skip(at + 1), c, text);
    }
}

/// Text behind an occurrence does not change where the first one is.
pub proof fn lemma_next_occurrence_stays(text: Seq<char>, pattern: Seq<char>, more: Seq<char>)
    requires
        next_occurrence(text, pattern, 0) is Some,
    ensures
        next_occurrence(text + more, pattern, 0) == next_occurrence(text, pattern, 0),
{
    let whole = text + more;
    let at = next_occurrence(text, pattern, 0)->0;
    lemma_next_occurrence(text, pattern, 0);
    lemma_next_occurrence(whole, pattern, 0);
    assert(whole.subrange(at, at + pattern.len()) =~= text.subrange(at, at + pattern.len()));
    assert(occurs_at(whole, pattern, at));
    let found = next_occurrence(whole, pattern, 0)->0;
    if found < at {
        assert(text.subrange(found, found + pattern.len()) =~= whole.subrange(
            found,
            found + pattern.len(),
        ));
        assert(occurs_at(text, pattern, found));
    }
}

/// A text stays whole, and nothing in it is exchanged, where the pattern does not stand in it.
pub proof fn lemma_without_pattern(text: Seq<char>, pattern: Seq<char>, replacement: Seq<char>)
    requires
        !contains(text, pattern),
    ensures
        split(text, pattern) == seq![text],
        before_first(text, pattern) == text,
        replaced(text, pattern, replacement) == text,
{
    lemma_contains_is_found(text, pattern);
    assert(joined(seq![text], replacement) == text);
}

/// A text that is just the pattern is exchanged for the replacement.
pub proof fn lemma_only_pattern(pattern: Seq<char>, replacement: Seq<char>)
    requires
        pattern.len() > 0,
    ensures
        replaced(pattern, pattern, replacement) == replacement,
{
    assert(pattern.subrange(0, pattern.len() as int) =~= pattern);
    assert(occurs_at(pattern, pattern, 0));
    assert(next_occurrence(pattern, pattern, 0) == Some(0int));
    let none = Seq::<char>::empty();
    assert(pattern.take(0) =~= none);
    assert(pattern.skip(pattern.len() as int) =~= none);
    assert(next_occurrence(none, pattern, 0) is None);
    assert(split(none, pattern) == seq![none]);
    lemma_joined_front(none, seq![none], replacement);
    assert(split(pattern, pattern) == seq![none] + seq![none]);
    assert(joined(seq![none], replacement) == none);
    assert(none + replacement + none =~= replacement);
}

/// A pattern of one character stands in a text just where the text has the character.
pub proof fn lemma_one_character(text: Seq<char>, c: char)
    ensures
        contains(text, seq![c]) <==> text.contains(c),
{
    if contains(text, seq![c]) {
        let at = choose|at: int| occurs_at(text, seq![c], at);
        assert(text.subrange(at, at + 1)[0] == text[at]);
    }
    if text.contains(c) {
        let at = choose|at: int| 0 <= at < text.len() && text[at] == c;
        assert(text.subrange(at, at + 1) =~= seq![c]);
        assert(occurs_at(text, seq![c], at));
    }
}

/// Where the first separator stands behind a text without one.
pub proof fn lemma_first_separator(front: Seq<char>, c: char, rest: Seq<char>)
    requires
        !front.contains(c),
    ensures
        next_occurrence(front + seq![c] + rest, seq![c], 0) == Some(front.len() as int),
        split(front + seq![c] + rest, seq![c]) == seq![front] + split(rest, seq![c]),
        before_first(front + seq![c] + rest, seq![c]) == front,
{
    let whole = front + seq![c] + rest;
    let end = front.len() as int;
    assert(whole.subrange(end, end + 1) =~= seq![c]);
    assert(occurs_at(whole, seq![c], end));
    lemma_next_occurrence(whole, seq![c], 0);
    let at = next_occurrence(whole, seq![c], 0)->0;
    if at < end {
        assert(whole.subrange(at, at + 1)[0] == front[at]);
    }
    assert(whole.take(end) =~= front);
    assert(whole.skip(end + 1) =~= rest);
}

/// A piece behind the last separator is the last of a split.
pub proof fn lemma_split_behind(front: Seq<char>, c: char, piece: Seq<char>)
    requires
        !piece.contains(c),
    ensures
        split(front + seq![c] + piece, seq![c]) == split(front, seq![c]).push(piece),
    decreases front.len(),
{
    let separator = seq![c];
    lemma_one_character(front, c);
    lemma_one_character(piece, c);
    lemma_without_pattern(piece, separator, separator);
    if !front.contains(c) {
        lemma_without_pattern(front, separator, separator);
        lemma_first_separator(front, c, piece);
        assert(seq![front] + seq![piece] =~= seq![front].push(piece));
    } else {
        lemma_contains_is_found(front, separator);
        lemma_next_occurrence(front, separator, 0);
        let at = next_occurrence(front, separator, 0)->0;
        let head = front.take(at);
        let rest = front.skip(at + 1);
        assert(front.subrange(at, at + 1)[0] == front[at]);
        assert(!head.contains(c)) by {
            if head.contains(c) {
                let i = choose|i: int| 0 <= i < head.len() && head[i] == c;
                assert(front.subrange(i, i + 1) =~= separator);
                assert(occurs_at(front, separator, i));
            }
        }
        lemma_split_behind(rest, c, piece);
        lemma_first_separator(head, c, rest);
        lemma_first_separator(head, c, rest + separator + piece);
        assert(head + separator + rest =~= front);
        assert(head + separator + (rest + separator + piece) =~= front + separator + piece);
        assert(seq![head] + split(rest, separator).push(piece) =~= (seq![head] + split(
            rest,
            separator,
        )).push(piece));
    }
}

/// Splitting gives back the pieces that were joined by a character that none of them has.
pub proof fn law_split_undoes_join(pieces: Seq<Seq<char>>, c: char)
    requires
        pieces.len() > 0,
        forall|i: int| 0 <= i < pieces.len() ==> !(#[trigger] pieces[i]).contains(c),
    ensures
        split(joined(pieces, seq![c]), seq![c]) == pieces,
    decreases pieces.len(),
{
    let last = pieces.last();
    assert(!pieces[pieces.len() - 1].contains(c));
    if pieces.len() == 1 {
        lemma_one_character(last, c);
        lemma_without_pattern(last, seq![c], seq![c]);
        assert(pieces =~= seq![last]);
    } else {
        let front = pieces.drop_last();
        assert forall|i: int| 0 <= i < front.len() implies !(#[trigger] front[i]).contains(c) by {
            assert(front[i] == pieces[i]);
        }
        law_split_undoes_join(front, c);
        lemma_split_behind(joined(front, seq![c]), c, last);
        assert(front.push(last) =~= pieces);
    }
}

/// Exchanging one character for another leaves all others, and the order of all, as they are.
pub proof fn law_exchanging_characters_keeps_the_rest(text: Seq<char>, c: char, d: char)
    ensures
        replaced(text, seq![c], seq![d]).len() == text.len(),
        forall|i: int|
            0 <= i < text.len() ==> #[trigger] replaced(text, seq![c], seq![d])[i] == if text[i]
                == c {
                d
            } else {
                text[i]
            },
    decreases text.len(),
{
    lemma_one_character(text, c);
    if !text.contains(c) {
        lemma_without_pattern(text, seq![c], seq![d]);
    } else {
        lemma_contains_is_found(text, seq![c]);
        lemma_next_occurrence(text, seq![c], 0);
        let at = next_occurrence(text, seq![c], 0)->0;
        let rest = text.skip(at + 1);
        let made = replaced(rest, seq![c], seq![d]);
        assert(text.subrange(at, at + 1)[0] == text[at]);
        law_exchanging_characters_keeps_the_rest(rest, c, d);
        lemma_split_is_never_empty(rest, seq![c]);
        lemma_joined_front(text.take(at), split(rest, seq![c]), seq![d]);
        let whole = replaced(text, seq![c], seq![d]);
        assert(whole == text.take(at) + seq![d] + made);
        assert forall|i: int| 0 <= i < text.len() implies #[trigger] whole[i] == if text[i] == c {
            d
        } else {
            text[i]
        } by {
            if i < at {
                if text[i] == c {
                    assert(text.subrange(i, i + 1) =~= seq![c]);
                    assert(occurs_at(text, seq![c], i));
                }
            } else if i > at {
                assert(whole[i] == made[i - at - 1]);
                assert(rest[i - at - 1] == text[i]);
            }
        }
    }
}

} // verus!
