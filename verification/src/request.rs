//! The search for the client's key in the bytes of an upgrade request.
//!
//! A request is read as lines. Every line that mentions the key header is
//! cut at the separator between a header's name and its value, and the piece
//! after the first separator is the key. The last such line decides.

use vstd::prelude::*;
use vstd::slice::{slice_subrange, slice_to_vec};
use vstd::utf8::encode_utf8;

verus! {

/// The byte that ends a line.
pub const LINE_FEED: u8 = 10;

/// The byte that may precede the line feed and then belongs to the line
/// ending.
pub const CARRIAGE_RETURN: u8 = 13;

/// The name of the header that carries the client's key.
pub open spec fn key_header_name() -> Seq<u8> {
    encode_utf8("Sec-WebSocket-Key"@)
}

/// What stands between a header's name and its value.
pub open spec fn key_separator() -> Seq<u8> {
    encode_utf8(": "@)
}

/// Whether `needle` stands in `hay` at index `at`.
pub open spec fn occurs_at(hay: Seq<u8>, needle: Seq<u8>, at: int) -> bool {
    0 <= at && at + needle.len() <= hay.len() && hay.subrange(at, at + needle.len()) == needle
}

/// The least index from `from` on at which `needle` stands in `hay`.
pub open spec fn find_from(hay: Seq<u8>, needle: Seq<u8>, from: int) -> Option<int>
    decreases hay.len() - from + 1,
{
    if from < 0 || from + needle.len() > hay.len() {
        None
    } else if occurs_at(hay, needle, from) {
        Some(from)
    } else {
        find_from(hay, needle, from + 1)
    }
}

/// Whether `needle` stands anywhere in `hay`.
pub open spec fn contains(hay: Seq<u8>, needle: Seq<u8>) -> bool {
    find_from(hay, needle, 0) is Some
}

/// The index of the first line feed from `from` on, or the length of `s`
/// where there is none.
pub open spec fn line_end(s: Seq<u8>, from: int) -> int
    decreases s.len() - from,
{
    if from < 0 || from >= s.len() {
        s.len() as int
    } else if s[from] == LINE_FEED {
        from
    } else {
        line_end(s, from + 1)
    }
}

/// The line that begins at `from`, without its ending. A carriage return
/// belongs to the ending only where a line feed follows it.
pub open spec fn line_at(s: Seq<u8>, from: int) -> Seq<u8> {
    let end = line_end(s, from);
    if end < s.len() && from < end && s[end - 1] == CARRIAGE_RETURN {
        s.subrange(from, end - 1)
    } else {
        s.subrange(from, end)
    }
}

/// The lines of `s` from index `from` on. Text after the last line feed is
/// a line of its own unless it is empty.
pub open spec fn lines_from(s: Seq<u8>, from: int) -> Seq<Seq<u8>>
    decreases s.len() - from + 1,
    via lines_from_decreases
{
    if from < 0 || from >= s.len() {
        Seq::empty()
    } else {
        seq![line_at(s, from)] + lines_from(s, line_end(s, from) + 1)
    }
}

#[via_fn]
proof fn lines_from_decreases(s: Seq<u8>, from: int) {
    if 0 <= from < s.len() {
        lemma_line_end_bounds(s, from);
    }
}

/// The lines of a request.
pub open spec fn request_lines(s: Seq<u8>) -> Seq<Seq<u8>> {
    lines_from(s, 0)
}

/// A line end lies at or after the index it was looked for from, and within
/// the text; where it lies inside the text, a line feed stands there.
pub proof fn lemma_line_end_bounds(s: Seq<u8>, from: int)
    requires
        0 <= from <= s.len(),
    ensures
        from <= line_end(s, from) <= s.len(),
        line_end(s, from) < s.len() ==> s[line_end(s, from)] == LINE_FEED,
        forall|i: int| from <= i < line_end(s, from) ==> s[i] != LINE_FEED,
    decreases s.len() - from,
{
    if from < s.len() && s[from] != LINE_FEED {
        lemma_line_end_bounds(s, from + 1);
    }
}

/// The piece of `line` between its first separator and the next one, or
/// the line's end where no other follows. A line without a separator has
/// no such piece.
pub open spec fn key_of_line(line: Seq<u8>) -> Option<Seq<u8>> {
    match find_from(line, key_separator(), 0) {
        None => None,
        Some(first) => {
            let start = first + key_separator().len();
            match find_from(line, key_separator(), start) {
                Some(next) => Some(line.subrange(start, next)),
                None => Some(line.subrange(start, line.len() as int)),
            }
        },
    }
}

/// What a search for the key has found, over byte sequences.
pub enum KeySearch {
    /// The key of the last line that mentions the header.
    Found(Seq<u8>),
    /// No line mentions the header.
    Missing,
    /// A line mentions the header and holds no separator.
    Malformed,
}

/// What a search for the key has found.
#[derive(Debug)]
pub enum KeyLookup {
    /// The key of the last line that mentions the header.
    Found(Vec<u8>),
    /// No line mentions the header.
    Missing,
    /// A line mentions the header and holds no separator.
    Malformed,
}

impl View for KeyLookup {
    type V = KeySearch;

    open spec fn view(&self) -> KeySearch {
        match self {
            KeyLookup::Found(key) => KeySearch::Found(key@),
            KeyLookup::Missing => KeySearch::Missing,
            KeyLookup::Malformed => KeySearch::Malformed,
        }
    }
}

/// The search after one more line: a malformed line is never forgotten, a
/// line that does not mention the header changes nothing, and any other
/// line replaces what was found before.
pub open spec fn scan_step(before: KeySearch, line: Seq<u8>) -> KeySearch {
    if before is Malformed {
        KeySearch::Malformed
    } else if !contains(line, key_header_name()) {
        before
    } else {
        match key_of_line(line) {
            Some(key) => KeySearch::Found(key),
            None => KeySearch::Malformed,
        }
    }
}

/// The search after the given lines, taken in order.
pub open spec fn scan_lines(lines: Seq<Seq<u8>>) -> KeySearch
    decreases lines.len(),
{
    if lines.len() == 0 {
        KeySearch::Missing
    } else {
        scan_step(scan_lines(lines.drop_last()), lines.last())
    }
}

/// The outcome of the search for the key in a request.
pub open spec fn lookup_key(request: Seq<u8>) -> KeySearch {
    scan_lines(request_lines(request))
}

/// Whether `needle` stands in `hay` at index `at`.
pub fn matches_at(hay: &[u8], needle: &[u8], at: usize) -> (same: bool)
    ensures
        same == occurs_at(hay@, needle@, at as int),
{
    let n: usize = needle.len();
    let total: usize = hay.len();
    if n > total || at > total - n {
        return false;
    }
    let mut k: usize = 0;
    while k < n
        invariant
            n == needle@.len(),
            total == hay@.len(),
            at + n <= total,
            k <= n,
            forall|j: int| 0 <= j < k ==> hay@[at + j] == needle@[j],
        decreases n - k,
    {
        if hay[at + k] != needle[k] {
            proof {
                let window = hay@.subrange(at as int, at + n);
                assert(window[k as int] == hay@[at + k]);
            }
            return false;
        }
        k = k + 1;
    }
    proof {
        assert(hay@.subrange(at as int, at + n) =~= needle@);
    }
    true
}

/// The least index from `from` on at which `needle` stands in `hay`, if it
/// stands there at all.
pub fn find(hay: &[u8], needle: &[u8], from: usize) -> (found: Option<usize>)
    ensures
        match found {
            Some(at) => {
                &&& find_from(hay@, needle@, from as int) == Some(at as int)
                &&& from <= at
                &&& occurs_at(hay@, needle@, at as int)
                &&& forall|j: int| from <= j < at ==> !occurs_at(hay@, needle@, j)
            },
            None => {
                &&& find_from(hay@, needle@, from as int) is None
                &&& forall|j: int| from <= j ==> !occurs_at(hay@, needle@, j)
            },
        },
{
    if needle.len() > hay.len() {
        return None;
    }
    let last: usize = hay.len() - needle.len();
    if from > last {
        return None;
    }
    let mut at: usize = from;
    loop
        invariant
            from <= at <= last,
            last == hay@.len() - needle@.len(),
            find_from(hay@, needle@, from as int) == find_from(hay@, needle@, at as int),
            forall|j: int| from <= j < at ==> !occurs_at(hay@, needle@, j),
        decreases last - at,
    {
        if matches_at(hay, needle, at) {
            return Some(at);
        }
        if at == last {
            assert(find_from(hay@, needle@, at + 1) is None);
            return None;
        }
        at = at + 1;
    }
}

/// The index of the first line feed from `from` on, or the length of `s`.
pub fn find_line_end(s: &[u8], from: usize) -> (end: usize)
    ensures
        end == line_end(s@, from as int),
        end <= s@.len(),
        from <= s@.len() ==> from <= end,
{
    if from > s.len() {
        return s.len();
    }
    let mut at: usize = from;
    while at < s.len() && s[at] != LINE_FEED
        invariant
            from <= at <= s@.len(),
            line_end(s@, from as int) == line_end(s@, at as int),
        decreases s@.len() - at,
    {
        at = at + 1;
    }
    at
}

/// The key that a line holds: the piece after its first separator.
pub fn line_key(line: &[u8]) -> (key: Option<Vec<u8>>)
    ensures
        match key {
            Some(bytes) => key_of_line(line@) == Some(bytes@),
            None => key_of_line(line@) is None,
        },
{
    let separator: &[u8] = ": ".as_bytes();
    let total: usize = line.len();
    match find(line, separator, 0) {
        None => None,
        Some(first) => {
            let start: usize = first + separator.len();
            let stop: usize = match find(line, separator, start) {
                Some(next) => next,
                None => total,
            };
            Some(slice_to_vec(slice_subrange(line, start, stop)))
        },
    }
}

/// Takes one more line into the search.
pub fn scan_line(before: KeyLookup, line: &[u8]) -> (after: KeyLookup)
    ensures
        after@ == scan_step(before@, line@),
{
    let name: &[u8] = "Sec-WebSocket-Key".as_bytes();
    match before {
        KeyLookup::Malformed => KeyLookup::Malformed,
        _ => {
            if find(line, name, 0).is_none() {
                before
            } else {
                match line_key(line) {
                    Some(key) => KeyLookup::Found(key),
                    None => KeyLookup::Malformed,
                }
            }
        },
    }
}

/// Searches a request for the client's key. The request is read line by
/// line; the last line that mentions the key header gives the key, and a
/// line that mentions it without a separator spoils the search.
pub fn find_key(request: &[u8]) -> (found: KeyLookup)
    ensures
        found@ == lookup_key(request@),
{
    let mut state: KeyLookup = KeyLookup::Missing;
    let mut from: usize = 0;
    let ghost mut done: Seq<Seq<u8>> = Seq::empty();
    while from < request.len()
        invariant
            from <= request@.len(),
            request_lines(request@) == done + lines_from(request@, from as int),
            state@ == scan_lines(done),
        decreases request@.len() - from,
    {
        let end: usize = find_line_end(request, from);
        let terminated: bool = end < request.len();
        let stop: usize = if terminated && from < end && request[end - 1] == CARRIAGE_RETURN {
            end - 1
        } else {
            end
        };
        let line: &[u8] = slice_subrange(request, from, stop);
        proof {
            assert(line@ == line_at(request@, from as int));
            let rest = lines_from(request@, end + 1);
            assert(lines_from(request@, from as int) == seq![line@] + rest);
            assert(done + (seq![line@] + rest) =~= done.push(line@) + rest);
            assert(done.push(line@).drop_last() =~= done);
            if !terminated {
                assert(rest =~= lines_from(request@, end as int));
            }
            done = done.push(line@);
        }
        state = scan_line(state, line);
        from = if terminated { end + 1 } else { end };
    }
    proof {
        assert(request_lines(request@) =~= done);
    }
    state
}

} // verus!
