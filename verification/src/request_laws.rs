//! What holds of the search for the key: what the search for a piece of
//! text finds, what the lines of a request hold, and which line decides the
//! key.

use crate::request::{
    contains, find_from, key_header_name, key_of_line, key_separator, lemma_line_end_bounds,
    line_at, line_end, lines_from, lookup_key, occurs_at, request_lines, scan_lines,
    KeySearch, CARRIAGE_RETURN, LINE_FEED,
};
use vstd::prelude::*;
use vstd::utf8::{is_ascii_chars, is_ascii_chars_encode_utf8};

verus! {

/// The separator is a colon and a space.
pub proof fn lemma_separator_bytes()
    ensures
        key_separator() =~= seq![58u8, 32u8],
{
    reveal_strlit(": ");
    let chars = ": "@;
    assert(is_ascii_chars(chars));
    is_ascii_chars_encode_utf8(chars);
}

/// The header's name in bytes, one for each of its letters.
pub proof fn lemma_header_name_bytes()
    ensures
        key_header_name() =~= seq![
            83, 101, 99, 45, 87, 101, 98, 83, 111, 99, 107, 101, 116, 45, 75, 101, 121,
        ],
{
    reveal_strlit("Sec-WebSocket-Key");
    let chars = "Sec-WebSocket-Key"@;
    assert(is_ascii_chars(chars));
    is_ascii_chars_encode_utf8(chars);
}

/// The header's name has seventeen bytes, none of them a colon, and the
/// separator has two, of which the first is a colon.
pub proof fn lemma_header_name_holds_no_colon()
    ensures
        key_header_name().len() == 17,
        forall|j: int| 0 <= j < 17 ==> #[trigger] key_header_name()[j] != 58u8,
        forall|j: int| 0 <= j < 17 ==> #[trigger] key_header_name()[j] != LINE_FEED,
        key_separator().len() == 2,
        key_separator()[0] == 58u8,
        key_separator()[1] == 32u8,
{
    lemma_header_name_bytes();
    lemma_separator_bytes();
}

/// What `find_from` gives is the least index from `from` on at which
/// `needle` stands in `hay`; it gives none only where there is none.
pub proof fn lemma_find_from_is_least(hay: Seq<u8>, needle: Seq<u8>, from: int)
    requires
        0 <= from,
    ensures
        match find_from(hay, needle, from) {
            Some(at) => from <= at && occurs_at(hay, needle, at) && forall|j: int|
                from <= j < at ==> !occurs_at(hay, needle, j),
            None => forall|j: int| from <= j ==> !occurs_at(hay, needle, j),
        },
    decreases hay.len() - from + 1,
{
    if from + needle.len() <= hay.len() && !occurs_at(hay, needle, from) {
        lemma_find_from_is_least(hay, needle, from + 1);
    }
}

/// An index at which `needle` stands, with none before it from `from` on,
/// is what `find_from` gives.
pub proof fn lemma_find_from_gives(hay: Seq<u8>, needle: Seq<u8>, from: int, at: int)
    requires
        0 <= from <= at,
        occurs_at(hay, needle, at),
        forall|j: int| from <= j < at ==> !occurs_at(hay, needle, j),
    ensures
        find_from(hay, needle, from) == Some(at),
{
    lemma_find_from_is_least(hay, needle, from);
}

/// `contains` holds exactly where `needle` stands at some index of `hay`.
pub proof fn lemma_contains_is_some_occurrence(hay: Seq<u8>, needle: Seq<u8>)
    ensures
        contains(hay, needle) <==> exists|at: int| occurs_at(hay, needle, at),
{
    lemma_find_from_is_least(hay, needle, 0);
    if let Some(at) = find_from(hay, needle, 0) {
        assert(occurs_at(hay, needle, at));
    }
}

/// What a part of a text contains, the text contains.
pub proof fn lemma_part_contains(hay: Seq<u8>, start: int, end: int, needle: Seq<u8>)
    requires
        0 <= start <= end <= hay.len(),
        contains(hay.subrange(start, end), needle),
    ensures
        contains(hay, needle),
{
    let part = hay.subrange(start, end);
    lemma_contains_is_some_occurrence(part, needle);
    let at = choose|at: int| occurs_at(part, needle, at);
    assert(part.subrange(at, at + needle.len()) =~= hay.subrange(
        start + at,
        start + at + needle.len(),
    ));
    assert(occurs_at(hay, needle, start + at));
    lemma_contains_is_some_occurrence(hay, needle);
}

/// An index at which a line feed stands, with none before it from `from`
/// on, is the line's end.
pub proof fn lemma_line_end_gives(s: Seq<u8>, from: int, end: int)
    requires
        0 <= from <= end < s.len(),
        s[end] == LINE_FEED,
        forall|i: int| from <= i < end ==> s[i] != LINE_FEED,
    ensures
        line_end(s, from) == end,
{
    lemma_line_end_bounds(s, from);
}

/// No line holds a line feed.
pub proof fn lemma_lines_hold_no_line_feed(s: Seq<u8>, from: int)
    requires
        0 <= from,
    ensures
        forall|k: int, i: int|
            0 <= k < lines_from(s, from).len() && 0 <= i < lines_from(s, from)[k].len() ==> (
            #[trigger] lines_from(s, from)[k][i]) != LINE_FEED,
    decreases s.len() - from + 1,
{
    if from < s.len() {
        lemma_line_end_bounds(s, from);
        let end = line_end(s, from);
        let rest = lines_from(s, end + 1);
        lemma_lines_hold_no_line_feed(s, end + 1);
        assert forall|k: int, i: int|
            0 <= k < lines_from(s, from).len() && 0 <= i < lines_from(s, from)[k].len() implies (
        #[trigger] lines_from(s, from)[k][i]) != LINE_FEED by {
            if k > 0 {
                assert(lines_from(s, from)[k] == rest[k - 1]);
            } else {
                assert(lines_from(s, from)[0] == line_at(s, from));
                assert(line_at(s, from)[i] == s[from + i]);
            }
        }
    }
}

/// No line of a text contains what the text does not contain.
pub proof fn lemma_lines_lack(s: Seq<u8>, from: int, needle: Seq<u8>)
    requires
        0 <= from,
        !contains(s, needle),
    ensures
        forall|k: int|
            0 <= k < lines_from(s, from).len() ==> !contains(
                #[trigger] lines_from(s, from)[k],
                needle,
            ),
    decreases s.len() - from + 1,
{
    if from < s.len() {
        lemma_line_end_bounds(s, from);
        let end = line_end(s, from);
        let line = line_at(s, from);
        let rest = lines_from(s, end + 1);
        lemma_lines_lack(s, end + 1, needle);
        if contains(line, needle) {
            if end < s.len() && from < end && s[end - 1] == CARRIAGE_RETURN {
                lemma_part_contains(s, from, end - 1, needle);
            } else {
                lemma_part_contains(s, from, end, needle);
            }
        }
        assert forall|k: int| 0 <= k < lines_from(s, from).len() implies !contains(
            #[trigger] lines_from(s, from)[k],
            needle,
        ) by {
            if k > 0 {
                assert(lines_from(s, from)[k] == rest[k - 1]);
            }
        }
    }
}

/// The key of a line holds no separator: it ends where the next one
/// begins.
pub proof fn lemma_key_holds_no_separator(line: Seq<u8>)
    ensures
        key_of_line(line) matches Some(key) ==> !contains(key, key_separator()),
{
    let separator = key_separator();
    lemma_separator_bytes();
    lemma_find_from_is_least(line, separator, 0);
    if let Some(first) = find_from(line, separator, 0) {
        let start = first + separator.len();
        lemma_find_from_is_least(line, separator, start);
        let stop = match find_from(line, separator, start) {
            Some(next) => next,
            None => line.len() as int,
        };
        let key = line.subrange(start, stop);
        lemma_contains_is_some_occurrence(key, separator);
        if contains(key, separator) {
            let at = choose|at: int| occurs_at(key, separator, at);
            assert(key.subrange(at, at + separator.len()) =~= line.subrange(
                start + at,
                start + at + separator.len(),
            ));
            assert(occurs_at(line, separator, start + at));
        }
    }
}

/// A line made of the header's name, the separator and a key that holds no
/// separator mentions the header, and its key is that key.
pub proof fn lemma_key_line_has_its_key(key: Seq<u8>)
    requires
        !contains(key, key_separator()),
    ensures
        contains(key_header_name() + key_separator() + key, key_header_name()),
        key_of_line(key_header_name() + key_separator() + key) == Some(key),
{
    let name = key_header_name();
    let separator = key_separator();
    let line = name + separator + key;
    lemma_header_name_holds_no_colon();
    assert(contains(line, name)) by {
        assert(line.subrange(0, 17) =~= name);
        assert(occurs_at(line, name, 0));
        lemma_contains_is_some_occurrence(line, name);
    }
    assert(find_from(line, separator, 0) == Some(17int)) by {
        assert forall|j: int| 0 <= j < 17 implies !occurs_at(line, separator, j) by {
            if occurs_at(line, separator, j) {
                assert(line.subrange(j, j + 2)[0] == separator[0]);
                assert(line[j] == name[j]);
            }
        }
        assert(line.subrange(17, 19) =~= separator);
        lemma_find_from_gives(line, separator, 0, 17);
    }
    assert(find_from(line, separator, 19) is None) by {
        lemma_contains_is_some_occurrence(key, separator);
        assert forall|j: int| 19 <= j implies !occurs_at(line, separator, j) by {
            if occurs_at(line, separator, j) {
                assert(key.subrange(j - 19, j - 17) =~= line.subrange(j, j + 2));
                assert(occurs_at(key, separator, j - 19));
            }
        }
        lemma_find_from_is_least(line, separator, 19);
    }
    assert(line.subrange(19, line.len() as int) =~= key);
}

/// Whether every line that mentions the key header holds a separator.
pub open spec fn mentions_are_well_formed(lines: Seq<Seq<u8>>) -> bool {
    forall|j: int|
        0 <= j < lines.len() && contains(#[trigger] lines[j], key_header_name()) ==> key_of_line(
            lines[j],
        ) is Some
}

/// Lines that do not mention the key header leave the key missing.
pub proof fn lemma_scan_without_header(lines: Seq<Seq<u8>>)
    requires
        forall|k: int| 0 <= k < lines.len() ==> !contains(#[trigger] lines[k], key_header_name()),
    ensures
        scan_lines(lines) == KeySearch::Missing,
    decreases lines.len(),
{
    if lines.len() > 0 {
        let before = lines.drop_last();
        assert forall|k: int| 0 <= k < before.len() implies !contains(
            #[trigger] before[k],
            key_header_name(),
        ) by {
            assert(before[k] == lines[k]);
        }
        lemma_scan_without_header(before);
        assert(!contains(lines[lines.len() - 1], key_header_name()));
    }
}

/// A line that mentions the key header without a separator spoils the
/// search, wherever it stands; without such a line the search is not
/// spoiled.
pub proof fn lemma_scan_is_spoiled_by_a_line(lines: Seq<Seq<u8>>)
    ensures
        scan_lines(lines) is Malformed <==> !mentions_are_well_formed(lines),
    decreases lines.len(),
{
    if lines.len() > 0 {
        let before = lines.drop_last();
        let line = lines[lines.len() - 1];
        lemma_scan_is_spoiled_by_a_line(before);
        if mentions_are_well_formed(lines) {
            assert forall|j: int|
                0 <= j < before.len() && contains(
                    #[trigger] before[j],
                    key_header_name(),
                ) implies key_of_line(before[j]) is Some by {
                assert(before[j] == lines[j]);
            }
            assert(contains(line, key_header_name()) ==> key_of_line(line) is Some);
        } else {
            let j = choose|j: int|
                0 <= j < lines.len() && contains(#[trigger] lines[j], key_header_name())
                    && !(key_of_line(lines[j]) is Some);
            if j < before.len() {
                assert(before[j] == lines[j]);
                assert(!mentions_are_well_formed(before));
            }
        }
    }
}

/// Where no line spoils the search, the last line that mentions the key
/// header gives the key.
pub proof fn lemma_last_mention_decides(lines: Seq<Seq<u8>>, last: int)
    requires
        mentions_are_well_formed(lines),
        0 <= last < lines.len(),
        contains(lines[last], key_header_name()),
        forall|j: int| last < j < lines.len() ==> !contains(#[trigger] lines[j], key_header_name()),
    ensures
        key_of_line(lines[last]) matches Some(key) && scan_lines(lines) == KeySearch::Found(key),
    decreases lines.len(),
{
    let before = lines.drop_last();
    assert forall|j: int|
        0 <= j < before.len() && contains(#[trigger] before[j], key_header_name()) implies key_of_line(
        before[j],
    ) is Some by {
        assert(before[j] == lines[j]);
    }
    lemma_scan_is_spoiled_by_a_line(before);
    if last < lines.len() - 1 {
        assert(before[last] == lines[last]);
        assert forall|j: int| last < j < before.len() implies !contains(
            #[trigger] before[j],
            key_header_name(),
        ) by {
            assert(before[j] == lines[j]);
        }
        lemma_last_mention_decides(before, last);
        assert(!contains(lines[lines.len() - 1], key_header_name()));
    }
}

/// A request that nowhere mentions the key header has no key.
pub proof fn lemma_request_without_header(request: Seq<u8>)
    requires
        !contains(request, key_header_name()),
    ensures
        lookup_key(request) == KeySearch::Missing,
{
    lemma_lines_lack(request, 0, key_header_name());
    lemma_scan_without_header(request_lines(request));
}

/// Where no line feed stands from `from` on, the line runs to the end of
/// the text.
pub proof fn lemma_line_end_without_line_feed(s: Seq<u8>, from: int)
    requires
        0 <= from <= s.len(),
        forall|i: int| from <= i < s.len() ==> s[i] != LINE_FEED,
    ensures
        line_end(s, from) == s.len(),
{
    lemma_line_end_bounds(s, from);
}

/// Behind a text `a`, the lines of `b` are found as in `b` alone.
pub proof fn lemma_lines_behind(a: Seq<u8>, b: Seq<u8>, from: int)
    requires
        0 <= from <= b.len(),
    ensures
        line_end(a + b, a.len() + from) == a.len() + line_end(b, from),
        from < b.len() ==> line_at(a + b, a.len() + from) == line_at(b, from),
        lines_from(a + b, a.len() + from) == lines_from(b, from),
    decreases b.len() - from,
{
    let s = a + b;
    let shift = a.len() as int;
    lemma_line_end_bounds(b, from);
    let end = line_end(b, from);
    assert forall|i: int| shift + from <= i < shift + end implies s[i] != LINE_FEED by {
        assert(s[i] == b[i - shift]);
    }
    if end < b.len() {
        assert(s[shift + end] == b[end]);
        lemma_line_end_gives(s, shift + from, shift + end);
    } else {
        lemma_line_end_without_line_feed(s, shift + from);
    }
    if from < b.len() {
        if end < b.len() && from < end {
            assert(s[shift + end - 1] == b[end - 1]);
        }
        assert(line_at(s, shift + from) =~= line_at(b, from));
        if end < b.len() {
            lemma_lines_behind(a, b, end + 1);
        } else {
            assert(lines_from(s, shift + end + 1) =~= lines_from(b, end + 1));
        }
    }
}

/// The lines of two texts in a row are the lines of the first and then the
/// lines of the second, provided the first is empty or ends its last line.
pub proof fn lemma_lines_of_texts_in_a_row(a: Seq<u8>, b: Seq<u8>, from: int)
    requires
        0 <= from <= a.len(),
        a.len() == 0 || a[a.len() - 1] == LINE_FEED,
    ensures
        lines_from(a + b, from) == lines_from(a, from) + lines_from(b, 0),
    decreases a.len() - from,
{
    let s = a + b;
    if from == a.len() {
        lemma_lines_behind(a, b, 0);
        assert(lines_from(a, from) + lines_from(b, 0) =~= lines_from(b, 0));
    } else {
        lemma_line_end_bounds(a, from);
        let end = line_end(a, from);
        assert(end < a.len());
        assert forall|i: int| from <= i < end implies s[i] != LINE_FEED by {
            assert(s[i] == a[i]);
        }
        assert(s[end] == a[end]);
        lemma_line_end_gives(s, from, end);
        if from < end {
            assert(s[end - 1] == a[end - 1]);
        }
        assert(line_at(s, from) =~= line_at(a, from));
        lemma_lines_of_texts_in_a_row(a, b, end + 1);
        assert(seq![line_at(a, from)] + (lines_from(a, end + 1) + lines_from(b, 0)) =~= (seq![
            line_at(a, from),
        ] + lines_from(a, end + 1)) + lines_from(b, 0));
    }
}

/// The one line of a text that holds no line feed and is ended by a
/// carriage return and a line feed is that text.
pub proof fn lemma_lines_of_one_line(line: Seq<u8>)
    requires
        forall|i: int| 0 <= i < line.len() ==> line[i] != LINE_FEED,
    ensures
        request_lines(line + seq![CARRIAGE_RETURN, LINE_FEED]) == seq![line],
{
    let s = line + seq![CARRIAGE_RETURN, LINE_FEED];
    let n = line.len() as int;
    assert forall|i: int| 0 <= i < n + 1 implies s[i] != LINE_FEED by {
        if i < n {
            assert(s[i] == line[i]);
        }
    }
    lemma_line_end_gives(s, 0, n + 1);
    assert(line_at(s, 0) =~= line);
    assert(lines_from(s, n + 2) =~= Seq::<Seq<u8>>::empty());
    assert(request_lines(s) =~= seq![line]);
}

/// A request in which one line gives the key has that key: before the
/// line stand whole lines, after it anything, neither mentions the key
/// header, and the line is the header's name, the separator and a key that
/// holds neither a separator nor a line feed, ended by a carriage return
/// and a line feed.
pub proof fn lemma_request_with_one_key_line(before: Seq<u8>, key: Seq<u8>, after: Seq<u8>)
    requires
        before.len() == 0 || before[before.len() - 1] == LINE_FEED,
        !contains(before, key_header_name()),
        !contains(after, key_header_name()),
        !contains(key, key_separator()),
        forall|i: int| 0 <= i < key.len() ==> key[i] != LINE_FEED,
    ensures
        lookup_key(
            before + (key_header_name() + key_separator() + key + seq![CARRIAGE_RETURN, LINE_FEED])
                + after,
        ) == KeySearch::Found(key),
{
    let line = key_header_name() + key_separator() + key;
    let middle = line + seq![CARRIAGE_RETURN, LINE_FEED];
    let request = before + middle + after;
    lemma_header_name_holds_no_colon();
    lemma_key_line_has_its_key(key);
    assert forall|i: int| 0 <= i < line.len() implies line[i] != LINE_FEED by {
        if i < 17 {
            assert(line[i] == key_header_name()[i]);
        } else if i < 19 {
            assert(line[i] == key_separator()[i - 17]);
        } else {
            assert(line[i] == key[i - 19]);
        }
    }
    lemma_lines_of_one_line(line);
    assert(middle[middle.len() - 1] == LINE_FEED);
    assert(request =~= before + (middle + after));
    lemma_lines_of_texts_in_a_row(before, middle + after, 0);
    lemma_lines_of_texts_in_a_row(middle, after, 0);
    let first = request_lines(before);
    let last = request_lines(after);
    let lines = first + (seq![line] + last);
    assert(request_lines(request) == lines);
    lemma_lines_lack(before, 0, key_header_name());
    lemma_lines_lack(after, 0, key_header_name());
    let at = first.len() as int;
    assert(lines[at] == line);
    assert forall|j: int| 0 <= j < lines.len() && j != at implies !contains(
        #[trigger] lines[j],
        key_header_name(),
    ) by {
        if j < at {
            assert(lines[j] == first[j]);
        } else {
            assert(lines[j] == last[j - at - 1]);
        }
    }
    assert(mentions_are_well_formed(lines));
    lemma_last_mention_decides(lines, at);
}

} // verus!
