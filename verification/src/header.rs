//! Header text: the grammar of the free-text header field and its parser.
//!
//! A header text is read line by line. A line is trimmed; an empty line and a
//! line that starts with `#` are skipped. Any other line is split at its first
//! colon into a name and a value, both trimmed. A line without a colon, with
//! an illegal name or with an illegal value is dropped. Of two lines with the
//! same name, whatever the case of its letters, the later one wins.

use crate::http_types::{
    empty_headers, header_fields, is_header_name, is_header_value, name_from_text,
    try_insert_field, value_from_text, HEADER_ROOM,
};
use crate::text::{
    chars_of, find_char, find_in_range, lowercase, string_of, strip_range, trimmed, CharClass,
};
use vstd::prelude::*;
use vstd::utf8::encode_utf8;

verus! {

/// A header as the text gives it: its name as written, and its value.
pub type Entry = (Seq<char>, Seq<char>);

/// The lines of `s`: the pieces between its line feeds.
pub open spec fn split_lines(s: Seq<char>) -> Seq<Seq<char>>
    decreases s.len(),
{
    let i = find_char(s, '\n');
    if i < 0 || i >= s.len() {
        seq![s]
    } else {
        seq![s.take(i)] + split_lines(s.skip(i + 1))
    }
}

/// The name and the value that a line holds, where it is neither blank nor a
/// comment and has a colon.
pub open spec fn split_line(line: Seq<char>) -> Option<Entry> {
    let l = trimmed(line);
    let colon = find_char(l, ':');
    if l.len() == 0 || l[0] == '#' || colon >= l.len() {
        None
    } else {
        Some((trimmed(l.take(colon)), trimmed(l.skip(colon + 1))))
    }
}

/// The header that a line gives: its name and value, where both are legal.
pub open spec fn header_of_line(line: Seq<char>) -> Option<Entry> {
    match split_line(line) {
        Some((name, value)) => if is_header_name(name) && is_header_value(value) {
            Some((name, value))
        } else {
            None
        },
        None => None,
    }
}

/// The headers that a sequence of lines gives, in the order of the lines.
pub open spec fn headers_of_lines(lines: Seq<Seq<char>>) -> Seq<Entry>
    decreases lines.len(),
{
    if lines.len() == 0 {
        Seq::empty()
    } else {
        let before = headers_of_lines(lines.drop_last());
        match header_of_line(lines.last()) {
            Some(entry) => before.push(entry),
            None => before,
        }
    }
}

/// The headers that a text gives, in the order of its lines.
pub open spec fn header_entries(text: Seq<char>) -> Seq<Entry> {
    headers_of_lines(split_lines(text))
}

/// The mapping that a sequence of headers stands for: from each name in lower
/// case to the bytes of the value of the last header with that name.
pub open spec fn field_map(entries: Seq<Entry>) -> Map<Seq<char>, Seq<u8>>
    decreases entries.len(),
{
    if entries.len() == 0 {
        Map::empty()
    } else {
        field_map(entries.drop_last()).insert(
            lowercase(entries.last().0),
            encode_utf8(entries.last().1),
        )
    }
}

/// The mapping that a header text stands for.
pub open spec fn parsed_headers(text: Seq<char>) -> Map<Seq<char>, Seq<u8>> {
    field_map(header_entries(text))
}

/// Whether the headers of a text are sure to fit into one header map.
pub open spec fn headers_fit(text: Seq<char>) -> bool {
    parsed_headers(text).dom().len() <= HEADER_ROOM
}

/// The headers of the lines `a` followed by the lines `b` are those of `a`
/// followed by those of `b`.
pub proof fn lemma_headers_of_lines_concat(a: Seq<Seq<char>>, b: Seq<Seq<char>>)
    ensures
        headers_of_lines(a + b) == headers_of_lines(a) + headers_of_lines(b),
    decreases b.len(),
{
    if b.len() == 0 {
        assert(a + b =~= a);
        assert(headers_of_lines(a) + headers_of_lines(b) =~= headers_of_lines(a));
    } else {
        assert((a + b).drop_last() =~= a + b.drop_last());
        assert((a + b).last() == b.last());
        lemma_headers_of_lines_concat(a, b.drop_last());
        let before = headers_of_lines(a) + headers_of_lines(b.drop_last());
        match header_of_line(b.last()) {
            Some(entry) => {
                assert(before.push(entry) =~= headers_of_lines(a) + headers_of_lines(
                    b.drop_last(),
                ).push(entry));
            },
            None => {},
        }
    }
}

/// A mapping of headers has finitely many names, and keeps every name when
/// more headers follow.
pub proof fn lemma_field_map_grows(a: Seq<Entry>, b: Seq<Entry>)
    ensures
        field_map(a).dom().finite(),
        field_map(a + b).dom().finite(),
        field_map(a).dom().subset_of(field_map(a + b).dom()),
        field_map(a).dom().len() <= field_map(a + b).dom().len(),
    decreases b.len(),
{
    lemma_field_map_finite(a);
    lemma_field_map_finite(a + b);
    if b.len() == 0 {
        assert(a + b =~= a);
    } else {
        assert((a + b).drop_last() =~= a + b.drop_last());
        lemma_field_map_grows(a, b.drop_last());
    }
    vstd::set_lib::lemma_len_subset(field_map(a).dom(), field_map(a + b).dom());
}

/// A mapping of headers has finitely many names.
pub proof fn lemma_field_map_finite(entries: Seq<Entry>)
    ensures
        field_map(entries).dom().finite(),
    decreases entries.len(),
{
    if entries.len() > 0 {
        lemma_field_map_finite(entries.drop_last());
    }
}

/// The name and the value of the line `v[from..to]`, where it has them.
fn parse_line(v: &Vec<char>, from: usize, to: usize) -> (r: Option<(String, String)>)
    requires
        from <= to <= v.len(),
    ensures
        r is Some <==> split_line(v@.subrange(from as int, to as int)) is Some,
        r matches Some(pair) ==> (pair.0@, pair.1@) == split_line(
            v@.subrange(from as int, to as int),
        )->0,
{
    let (a, b) = strip_range(v, from, to, CharClass::Space);
    let ghost l = v@.subrange(a as int, b as int);
    if a == b {
        return None;
    }
    assert(l[0] == v@[a as int]);
    if v[a] == '#' {
        return None;
    }
    let colon = find_in_range(v, ':', a, b);
    if colon == b {
        return None;
    }
    let (ka, kb) = strip_range(v, a, colon, CharClass::Space);
    let (va, vb) = strip_range(v, colon + 1, b, CharClass::Space);
    proof {
        assert(l.take(colon - a) =~= v@.subrange(a as int, colon as int));
        assert(l.skip(colon - a + 1) =~= v@.subrange(colon + 1, b as int));
    }
    Some((string_of(v, ka, kb), string_of(v, va, vb)))
}

/// Reads a header text into a header map, leaving out what the map refuses.
/// The flag says whether the map took every header.
fn parse_all(text: &str) -> (r: (reqwest::header::HeaderMap, bool))
    ensures
        headers_fit(text@) ==> r.1,
        r.1 ==> header_fields(r.0) == parsed_headers(text@),
        header_fields(r.0).dom().subset_of(parsed_headers(text@).dom()),
{
    let v = chars_of(text);
    let n = v.len();
    let mut map = empty_headers();
    let mut complete = true;
    let mut pos: usize = 0;
    let ghost mut done: Seq<Seq<char>> = Seq::empty();
    proof {
        assert(v@.skip(0) =~= v@);
        assert(done + split_lines(v@.skip(0)) =~= split_lines(v@));
    }
    loop
        invariant_except_break
            split_lines(v@) == done + split_lines(v@.skip(pos as int)),
        invariant
            pos <= n == v.len(),
            v@ == text@,
            complete ==> header_fields(map) == field_map(headers_of_lines(done)),
            !complete ==> !headers_fit(text@),
            header_fields(map).dom().subset_of(field_map(headers_of_lines(done)).dom()),
        ensures
            split_lines(v@) == done,
            complete ==> header_fields(map) == field_map(headers_of_lines(done)),
            !complete ==> !headers_fit(text@),
            header_fields(map).dom().subset_of(field_map(headers_of_lines(done)).dom()),
        decreases n - pos,
    {
        let end = find_in_range(&v, '\n', pos, n);
        let ghost rest = v@.skip(pos as int);
        let ghost line = v@.subrange(pos as int, end as int);
        let ghost before = done;
        let ghost tail = if end == n {
            Seq::<Seq<char>>::empty()
        } else {
            split_lines(v@.skip(end + 1))
        };
        proof {
            assert(rest =~= v@.subrange(pos as int, n as int));
            assert(rest.take(end - pos) =~= line);
            if end < n {
                assert(rest.skip(end - pos + 1) =~= v@.skip(end + 1));
            }
            done = before.push(line);
            assert(before + split_lines(rest) =~= done + tail);
            assert(done.drop_last() =~= before);
        }
        let ghost entries = headers_of_lines(before);
        match parse_line(&v, pos, end) {
            Some((name, value)) => {
                let parsed_name = name_from_text(name.as_str());
                let parsed_value = value_from_text(value.as_str());
                match (parsed_name, parsed_value) {
                    (Some(header_name), Some(header_value)) => {
                        let ghost held = header_fields(map);
                        proof {
                            let entry = (name@, value@);
                            assert(header_of_line(line) == Some(entry));
                            assert(headers_of_lines(done) == entries.push(entry));
                            assert(entries.push(entry).drop_last() =~= entries);
                            lemma_field_map_finite(entries);
                        }
                        if !try_insert_field(&mut map, header_name, header_value) {
                            proof {
                                let rest_lines = seq![line] + tail;
                                assert(done + tail =~= before + rest_lines);
                                lemma_headers_of_lines_concat(before, rest_lines);
                                lemma_field_map_grows(entries, headers_of_lines(rest_lines));
                                vstd::set_lib::lemma_len_subset(
                                    held.dom(),
                                    field_map(entries).dom(),
                                );
                            }
                            complete = false;
                        }
                    },
                    _ => {
                        assert(header_of_line(line) is None);
                    },
                }
            },
            None => {
                assert(header_of_line(line) is None);
            },
        }
        proof {
            if end == n {
                assert(done + tail =~= done);
            }
        }
        if end == n {
            break ;
        }
        pos = end + 1;
    }
    (map, complete)
}

/// Parses a header text into a header map, where a header map takes its
/// headers.
///
/// The result is `None` when the map reached its size limit, which cannot
/// happen for a text that gives at most `HEADER_ROOM` names.
pub fn try_parse_headers(text: &str) -> (r: Option<reqwest::header::HeaderMap>)
    ensures
        headers_fit(text@) ==> r is Some,
        r matches Some(map) ==> header_fields(map) == parsed_headers(text@),
{
    let (map, complete) = parse_all(text);
    if complete {
        Some(map)
    } else {
        None
    }
}

/// Parses a header text into a header map.
///
/// Parsing never fails. A header map takes a limited number of names, at
/// least `HEADER_ROOM`; a header that the map refuses is left out like a
/// malformed line. For a text that gives at most `HEADER_ROOM` names the
/// map is exactly the mapping that the text stands for, and for any text it
/// holds no name that the text does not give.
pub fn parse_headers(text: &str) -> (map: reqwest::header::HeaderMap)
    ensures
        headers_fit(text@) ==> header_fields(map) == parsed_headers(text@),
        header_fields(map).dom().subset_of(parsed_headers(text@).dom()),
{
    parse_all(text).0
}

} // verus!
