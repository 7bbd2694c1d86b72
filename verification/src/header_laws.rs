//! What holds of the header grammar, whatever the text.
//!
//! The headers of a text can be written out again, one `Name: value` to a
//! line, and read back: the result is the same. Lines that are blank or
//! comments can be put in or taken out without any effect. Of several headers
//! with one name, the last decides.

use crate::header::{
    field_map, header_entries, header_of_line, headers_fit, headers_of_lines,
    lemma_headers_of_lines_concat, parsed_headers, split_line, split_lines, Entry,
};
use crate::http_types::{is_header_name, is_header_value, is_token_char, is_value_char};
use crate::text::{
    find_char, is_space, is_trimmed, lemma_find_char, lemma_find_char_is, lemma_strip_end_shape,
    lemma_stripped_fixed, lemma_stripped_is_stripped, lemma_stripped_skips_leading,
    lemma_stripped_skips_trailing, lower_char, lowercase, strip_end, strip_start, trimmed,
    CharClass,
};
use vstd::prelude::*;
use vstd::utf8::encode_utf8;

verus! {

/// A text without a line feed.
pub open spec fn is_line(s: Seq<char>) -> bool {
    find_char(s, '\n') == s.len()
}

/// The line that stands for a header.
pub open spec fn render_entry(entry: Entry) -> Seq<char> {
    entry.0 + seq![':', ' '] + entry.1
}

/// The lines `lines`, with a line feed between each two of them.
pub open spec fn join_lines(lines: Seq<Seq<char>>) -> Seq<char>
    decreases lines.len(),
{
    if lines.len() == 0 {
        Seq::empty()
    } else if lines.len() == 1 {
        lines[0]
    } else {
        lines[0] + seq!['\n'] + join_lines(lines.drop_first())
    }
}

/// The header text that stands for a sequence of headers.
pub open spec fn render(entries: Seq<Entry>) -> Seq<char> {
    join_lines(entries.map_values(|e: Entry| render_entry(e)))
}

/// A header that a header text can give: its name and value are legal, the
/// name does not look like a comment, and the value is trimmed.
pub open spec fn is_entry(entry: Entry) -> bool {
    &&& is_header_name(entry.0)
    &&& entry.0[0] != '#'
    &&& is_header_value(entry.1)
    &&& is_trimmed(entry.1)
}

/// The lines of two texts joined by a line feed are the lines of the first
/// followed by the lines of the second.
pub proof fn lemma_split_lines_concat(a: Seq<char>, b: Seq<char>)
    ensures
        split_lines(a + seq!['\n'] + b) == split_lines(a) + split_lines(b),
    decreases a.len(),
{
    let s = a + seq!['\n'] + b;
    let i = find_char(a, '\n');
    lemma_find_char(a, '\n');
    assert forall|j: int| 0 <= j < i implies #[trigger] s[j] != '\n' by {
        assert(s[j] == a[j]);
    }
    if i == a.len() {
        assert(s[i] == '\n');
        lemma_find_char_is(s, '\n', i);
        assert(s.take(i) =~= a);
        assert(s.skip(i + 1) =~= b);
        assert(seq![a] + split_lines(b) =~= split_lines(a) + split_lines(b));
    } else {
        assert(s[i] == a[i]);
        lemma_find_char_is(s, '\n', i);
        assert(s.take(i) =~= a.take(i));
        assert(s.skip(i + 1) =~= a.skip(i + 1) + seq!['\n'] + b);
        lemma_split_lines_concat(a.skip(i + 1), b);
        assert(seq![a.take(i)] + (split_lines(a.skip(i + 1)) + split_lines(b)) =~= (seq![
            a.take(i),
        ] + split_lines(a.skip(i + 1))) + split_lines(b));
    }
}

/// Lines that are joined and split again are the same lines.
pub proof fn lemma_split_join(lines: Seq<Seq<char>>)
    requires
        lines.len() > 0,
        forall|k: int| 0 <= k < lines.len() ==> is_line(#[trigger] lines[k]),
    ensures
        split_lines(join_lines(lines)) == lines,
    decreases lines.len(),
{
    assert(is_line(lines[0]));
    if lines.len() == 1 {
        assert(split_lines(lines[0]) =~= lines);
    } else {
        let rest = lines.drop_first();
        assert forall|k: int| 0 <= k < rest.len() implies is_line(#[trigger] rest[k]) by {
            assert(rest[k] == lines[k + 1]);
        }
        lemma_split_join(rest);
        lemma_split_lines_concat(lines[0], join_lines(rest));
        assert(seq![lines[0]] + rest =~= lines);
    }
}

/// A character of a header name is neither white space nor a colon nor a
/// line feed.
pub proof fn lemma_token_char(c: char)
    requires
        is_token_char(c),
    ensures
        !is_space(c),
        c != ':',
        c != '\n',
{
}

/// The line that stands for a header gives that header back.
pub proof fn lemma_rendered_line(entry: Entry)
    requires
        is_entry(entry),
    ensures
        header_of_line(render_entry(entry)) == Some(entry),
        is_line(render_entry(entry)),
{
    let name = entry.0;
    let value = entry.1;
    let line = render_entry(entry);
    let n = name.len() as int;
    assert forall|j: int| 0 <= j < n implies #[trigger] line[j] == name[j] by {}
    assert(line[n] == ':');
    assert(line[n + 1] == ' ');
    assert forall|j: int| 0 <= j < value.len() implies #[trigger] line[n + 2 + j] == value[j] by {}
    lemma_token_char(name[0]);
    lemma_token_char(name[n - 1]);
    // The line has no line feed.
    assert forall|j: int| 0 <= j < line.len() implies #[trigger] line[j] != '\n' by {
        if j < n {
            lemma_token_char(name[j]);
        } else if j >= n + 2 {
            assert(is_value_char(value[j - n - 2]));
        }
    }
    lemma_find_char_is(line, '\n', line.len() as int);
    // What trimming leaves of the line.
    let l = trimmed(line);
    if value.len() > 0 {
        assert(line.last() == value.last());
        lemma_stripped_fixed(line, CharClass::Space);
    } else {
        let head = name + seq![':'];
        assert(line =~= head + seq![' ']);
        lemma_stripped_skips_trailing(head, seq![' '], CharClass::Space);
        assert(head[0] == name[0]);
        assert(head.last() == ':');
        lemma_stripped_fixed(head, CharClass::Space);
    }
    assert(l.len() >= n + 1);
    assert forall|j: int| 0 <= j < n implies #[trigger] l[j] != ':' by {
        assert(l[j] == name[j]);
        lemma_token_char(name[j]);
    }
    assert(l[n] == ':');
    assert(l[0] == name[0]);
    lemma_find_char_is(l, ':', n);
    // The name.
    assert(l.take(n) =~= name);
    lemma_stripped_fixed(name, CharClass::Space);
    // The value.
    if value.len() > 0 {
        assert(l.skip(n + 1) =~= seq![' '] + value);
        lemma_stripped_skips_leading(seq![' '], value, CharClass::Space);
    } else {
        assert(l.skip(n + 1) =~= value);
    }
    lemma_stripped_fixed(value, CharClass::Space);
    assert(split_line(line) == Some((name, value)));
}

/// The lines that stand for a sequence of headers give those headers back.
pub proof fn lemma_rendered_lines(entries: Seq<Entry>)
    requires
        forall|k: int| 0 <= k < entries.len() ==> is_entry(#[trigger] entries[k]),
    ensures
        headers_of_lines(entries.map_values(|e: Entry| render_entry(e))) == entries,
    decreases entries.len(),
{
    let lines = entries.map_values(|e: Entry| render_entry(e));
    if entries.len() > 0 {
        let before = entries.drop_last();
        assert(lines.drop_last() =~= before.map_values(|e: Entry| render_entry(e)));
        assert forall|k: int| 0 <= k < before.len() implies is_entry(#[trigger] before[k]) by {
            assert(before[k] == entries[k]);
        }
        lemma_rendered_lines(before);
        assert(is_entry(entries[entries.len() - 1]));
        lemma_rendered_line(entries.last());
        assert(lines.last() == render_entry(entries.last()));
        assert(before.push(entries.last()) =~= entries);
    } else {
        assert(headers_of_lines(lines) =~= entries);
    }
}

/// A header text that is written out from headers gives those headers back.
pub proof fn lemma_render_then_parse(entries: Seq<Entry>)
    requires
        forall|k: int| 0 <= k < entries.len() ==> is_entry(#[trigger] entries[k]),
    ensures
        header_entries(render(entries)) == entries,
        parsed_headers(render(entries)) == field_map(entries),
{
    let lines = entries.map_values(|e: Entry| render_entry(e));
    if entries.len() == 0 {
        let empty = Seq::<char>::empty();
        assert(split_lines(empty) =~= seq![empty]);
        assert(split_line(empty) is None);
        lemma_headers_of_one_line(empty);
        assert(headers_of_lines(seq![empty]) =~= entries);
    } else {
        assert forall|k: int| 0 <= k < lines.len() implies is_line(#[trigger] lines[k]) by {
            assert(is_entry(entries[k]));
            lemma_rendered_line(entries[k]);
        }
        lemma_split_join(lines);
        lemma_rendered_lines(entries);
    }
}

/// The header that a line gives is one that a header text can give.
pub proof fn lemma_header_of_line_is_entry(line: Seq<char>)
    ensures
        header_of_line(line) matches Some(entry) ==> is_entry(entry),
{
    if let Some(entry) = header_of_line(line) {
        let l = trimmed(line);
        let colon = find_char(l, ':');
        let head = l.take(colon);
        lemma_find_char(l, ':');
        lemma_stripped_is_stripped(line, CharClass::Space);
        lemma_stripped_is_stripped(l.skip(colon + 1), CharClass::Space);
        assert(entry.0 == trimmed(head));
        if colon == 0 {
            assert(head =~= Seq::<char>::empty());
        } else {
            assert(head[0] == l[0]);
            assert(strip_start(head, CharClass::Space) == head);
            lemma_strip_end_shape(head, CharClass::Space);
            assert(entry.0 == strip_end(head, CharClass::Space));
            assert(entry.0[0] == head[0]);
        }
    }
}

/// Every header that a sequence of lines gives is one that a header text
/// can give.
pub proof fn lemma_headers_are_entries(lines: Seq<Seq<char>>)
    ensures
        forall|k: int|
            0 <= k < headers_of_lines(lines).len() ==> is_entry(
                #[trigger] headers_of_lines(lines)[k],
            ),
    decreases lines.len(),
{
    if lines.len() > 0 {
        lemma_headers_are_entries(lines.drop_last());
        lemma_header_of_line_is_entry(lines.last());
        let all = headers_of_lines(lines);
        let before = headers_of_lines(lines.drop_last());
        assert forall|k: int| 0 <= k < all.len() implies is_entry(#[trigger] all[k]) by {
            if k < before.len() {
                assert(all[k] == before[k]);
            }
        }
    }
}

/// The headers of a single line.
pub proof fn lemma_headers_of_one_line(line: Seq<char>)
    ensures
        headers_of_lines(seq![line]) == match header_of_line(line) {
            Some(entry) => seq![entry],
            None => Seq::<Entry>::empty(),
        },
{
    let lines = seq![line];
    assert(lines.drop_last() =~= Seq::<Seq<char>>::empty());
    assert(headers_of_lines(lines.drop_last()) =~= Seq::<Entry>::empty());
    assert(lines.last() == line);
    match header_of_line(line) {
        Some(entry) => {
            assert(Seq::<Entry>::empty().push(entry) =~= seq![entry]);
        },
        None => {},
    }
}

/// Reading is idempotent: the headers of a text, written out one to a line
/// and read again, are the same headers, and so they stand for the same
/// mapping.
pub proof fn law_reparse(text: Seq<char>)
    ensures
        header_entries(render(header_entries(text))) == header_entries(text),
        parsed_headers(render(header_entries(text))) == parsed_headers(text),
{
    lemma_headers_are_entries(split_lines(text));
    lemma_render_then_parse(header_entries(text));
}

/// A line that is blank or a comment: trimmed, it is empty or starts with `#`.
pub open spec fn is_skipped(line: Seq<char>) -> bool {
    trimmed(line).len() == 0 || trimmed(line)[0] == '#'
}

/// A malformed line: one without a colon, with an illegal name or with an
/// illegal value.
pub open spec fn is_malformed(line: Seq<char>) -> bool {
    match split_line(line) {
        Some((name, value)) => !is_header_name(name) || !is_header_value(value),
        None => !is_skipped(line),
    }
}

/// A line that gives no header, because it is skipped or malformed, can
/// stand anywhere among the lines, or be left out: the other lines give
/// what they give without it.
pub proof fn law_dropped_line(before: Seq<Seq<char>>, line: Seq<char>, after: Seq<Seq<char>>)
    requires
        is_skipped(line) || is_malformed(line),
    ensures
        header_of_line(line) is None,
        headers_of_lines(before + seq![line] + after) == headers_of_lines(before + after),
{
    lemma_headers_of_lines_concat(before + seq![line], after);
    lemma_headers_of_lines_concat(before, seq![line]);
    lemma_headers_of_lines_concat(before, after);
    lemma_headers_of_one_line(line);
    assert(headers_of_lines(before) + Seq::<Entry>::empty() =~= headers_of_lines(before));
}

/// A blank line and a comment give no header, wherever they stand among the
/// lines.
pub proof fn law_skipped_line(before: Seq<Seq<char>>, line: Seq<char>, after: Seq<Seq<char>>)
    requires
        is_skipped(line),
    ensures
        header_of_line(line) is None,
        headers_of_lines(before + seq![line] + after) == headers_of_lines(before + after),
{
    law_dropped_line(before, line, after);
}

/// Every line is skipped, malformed, or gives a header; and only a line of
/// the last kind gives one.
pub proof fn law_line_kinds(line: Seq<char>)
    ensures
        header_of_line(line) is None <==> is_skipped(line) || is_malformed(line),
{
}

/// A blank line or a comment between two texts changes nothing of what the
/// texts give together.
pub proof fn law_skipped_text(before: Seq<char>, line: Seq<char>, after: Seq<char>)
    requires
        is_line(line),
        is_skipped(line),
    ensures
        header_entries(before + seq!['\n'] + line + seq!['\n'] + after) == header_entries(
            before + seq!['\n'] + after,
        ),
        parsed_headers(before + seq!['\n'] + line + seq!['\n'] + after) == parsed_headers(
            before + seq!['\n'] + after,
        ),
{
    let with = before + seq!['\n'] + line + seq!['\n'] + after;
    assert(with =~= before + seq!['\n'] + (line + seq!['\n'] + after));
    lemma_split_lines_concat(before, line + seq!['\n'] + after);
    lemma_split_lines_concat(line, after);
    lemma_split_lines_concat(before, after);
    assert(split_lines(line) =~= seq![line]);
    assert(split_lines(before) + (seq![line] + split_lines(after)) =~= split_lines(before)
        + seq![line] + split_lines(after));
    law_skipped_line(split_lines(before), line, split_lines(after));
}

/// The last header with a name decides what the mapping holds under that
/// name, whatever the case of the letters of the name.
pub proof fn law_last_wins(entries: Seq<Entry>, i: int)
    requires
        0 <= i < entries.len(),
        forall|j: int|
            i < j < entries.len() ==> lowercase(#[trigger] entries[j].0) != lowercase(
                entries[i].0,
            ),
    ensures
        field_map(entries).contains_key(lowercase(entries[i].0)),
        field_map(entries)[lowercase(entries[i].0)] == encode_utf8(entries[i].1),
    decreases entries.len(),
{
    if i < entries.len() - 1 {
        let before = entries.drop_last();
        assert(before[i] == entries[i]);
        assert forall|j: int| i < j < before.len() implies lowercase(#[trigger] before[j].0)
            != lowercase(before[i].0) by {
            assert(before[j] == entries[j]);
        }
        law_last_wins(before, i);
        assert(lowercase(entries[entries.len() - 1].0) != lowercase(entries[i].0));
    }
}

/// The lines of `lines` that are neither blank nor comments, in their order.
pub open spec fn kept_lines(lines: Seq<Seq<char>>) -> Seq<Seq<char>>
    decreases lines.len(),
{
    if lines.len() == 0 {
        Seq::empty()
    } else if is_skipped(lines.last()) {
        kept_lines(lines.drop_last())
    } else {
        kept_lines(lines.drop_last()).push(lines.last())
    }
}

/// The lines that are kept give what all the lines give.
pub proof fn lemma_kept_lines(lines: Seq<Seq<char>>)
    ensures
        headers_of_lines(kept_lines(lines)) == headers_of_lines(lines),
    decreases lines.len(),
{
    if lines.len() > 0 {
        lemma_kept_lines(lines.drop_last());
        if !is_skipped(lines.last()) {
            let kept = kept_lines(lines.drop_last());
            assert(kept.push(lines.last()).drop_last() =~= kept);
        }
    }
}

/// Blank lines and comments have no effect, however many there are and
/// wherever they stand: two texts that differ only in such lines give the
/// same headers, stand for the same mapping, and fit or do not fit alike.
pub proof fn law_skipped_lines(a: Seq<char>, b: Seq<char>)
    requires
        kept_lines(split_lines(a)) == kept_lines(split_lines(b)),
    ensures
        header_entries(a) == header_entries(b),
        parsed_headers(a) == parsed_headers(b),
        headers_fit(a) == headers_fit(b),
{
    lemma_kept_lines(split_lines(a));
    lemma_kept_lines(split_lines(b));
}

/// A text made of blank lines and comments only gives no header.
pub proof fn law_only_skipped_lines(text: Seq<char>)
    requires
        forall|k: int|
            0 <= k < split_lines(text).len() ==> is_skipped(#[trigger] split_lines(text)[k]),
    ensures
        header_entries(text) == Seq::<Entry>::empty(),
        parsed_headers(text) == Map::<Seq<char>, Seq<u8>>::empty(),
        headers_fit(text),
{
    lemma_all_skipped(split_lines(text));
    lemma_kept_lines(split_lines(text));
}

/// Of lines that are all blank or comments none is kept.
pub proof fn lemma_all_skipped(lines: Seq<Seq<char>>)
    requires
        forall|k: int| 0 <= k < lines.len() ==> is_skipped(#[trigger] lines[k]),
    ensures
        kept_lines(lines) == Seq::<Seq<char>>::empty(),
    decreases lines.len(),
{
    if lines.len() > 0 {
        let before = lines.drop_last();
        assert forall|k: int| 0 <= k < before.len() implies is_skipped(#[trigger] before[k]) by {
            assert(before[k] == lines[k]);
        }
        lemma_all_skipped(before);
        assert(is_skipped(lines[lines.len() - 1]));
    }
}

/// The index of the last header of `entries` whose name is `name` in lower
/// case, or -1 where there is none.
pub open spec fn last_index_of(entries: Seq<Entry>, name: Seq<char>) -> int
    decreases entries.len(),
{
    if entries.len() == 0 {
        -1
    } else if lowercase(entries.last().0) == name {
        entries.len() - 1
    } else {
        last_index_of(entries.drop_last(), name)
    }
}

/// The mapping of a sequence of headers holds a name exactly when a header
/// has it, and holds under it the value of the last such header.
pub proof fn lemma_field_map_key(entries: Seq<Entry>, name: Seq<char>)
    ensures
        field_map(entries).contains_key(name) <==> last_index_of(entries, name) >= 0,
        last_index_of(entries, name) < entries.len(),
        last_index_of(entries, name) >= 0 ==> lowercase(
            entries[last_index_of(entries, name)].0,
        ) == name && field_map(entries)[name] == encode_utf8(
            entries[last_index_of(entries, name)].1,
        ),
    decreases entries.len(),
{
    if entries.len() > 0 {
        lemma_field_map_key(entries.drop_last(), name);
        if lowercase(entries.last().0) != name {
            let j = last_index_of(entries.drop_last(), name);
            if j >= 0 {
                assert(entries.drop_last()[j] == entries[j]);
            }
        }
    }
}

/// The mapping of a sequence of headers holds the name of each of them.
pub proof fn lemma_field_map_contains(entries: Seq<Entry>, i: int)
    requires
        0 <= i < entries.len(),
    ensures
        field_map(entries).contains_key(lowercase(entries[i].0)),
    decreases entries.len(),
{
    if i < entries.len() - 1 {
        assert(entries.drop_last()[i] == entries[i]);
        lemma_field_map_contains(entries.drop_last(), i);
    }
}

/// A header name in lower case is a header name, starts with `#` only where
/// the name did, and stays as it is when put in lower case again.
pub proof fn lemma_lowercase_name(name: Seq<char>)
    requires
        is_header_name(name),
    ensures
        is_header_name(lowercase(name)),
        lowercase(name)[0] == '#' <==> name[0] == '#',
        lowercase(lowercase(name)) == lowercase(name),
{
    let low = lowercase(name);
    assert forall|i: int| 0 <= i < low.len() implies is_token_char(#[trigger] low[i]) by {
        assert(is_token_char(name[i]));
        assert(low[i] == lower_char(name[i]));
    }
    assert(low[0] == lower_char(name[0]));
    assert(is_token_char(name[0]));
    assert forall|i: int| 0 <= i < low.len() implies lower_char(low[i]) == low[i] by {
        assert(low[i] == lower_char(name[i]));
    }
    assert(lowercase(low) =~= low);
}

/// Whether `listing` lists the mapping `fields`: every name of the mapping,
/// and no other, each with the text of its value.
pub open spec fn lists(listing: Seq<Entry>, fields: Map<Seq<char>, Seq<u8>>) -> bool {
    &&& forall|i: int|
        0 <= i < listing.len() ==> fields.contains_key(#[trigger] listing[i].0)
            && fields[listing[i].0] == encode_utf8(listing[i].1)
    &&& forall|name: Seq<char>| #[trigger]
        fields.contains_key(name) ==> last_index_of(listing, name) >= 0
}

/// Reading is idempotent on the mapping: the mapping that a text stands for,
/// written out one `name: value` to a line in any order and read again, is
/// the same mapping; and the text that is written out fits where the first
/// text did.
pub proof fn law_reparse_mapping(text: Seq<char>, listing: Seq<Entry>)
    requires
        lists(listing, parsed_headers(text)),
    ensures
        parsed_headers(render(listing)) == parsed_headers(text),
        headers_fit(render(listing)) == headers_fit(text),
{
    let entries = header_entries(text);
    let fields = parsed_headers(text);
    lemma_headers_are_entries(split_lines(text));
    assert forall|i: int| 0 <= i < listing.len() implies is_entry(#[trigger] listing[i])
        && lowercase(listing[i].0) == listing[i].0 by {
        let name = listing[i].0;
        assert(fields.contains_key(listing[i].0));
        lemma_field_map_key(entries, name);
        let j = last_index_of(entries, name);
        assert(is_entry(entries[j]));
        lemma_lowercase_name(entries[j].0);
        vstd::utf8::encode_utf8_decode_utf8(listing[i].1);
        vstd::utf8::encode_utf8_decode_utf8(entries[j].1);
        assert(listing[i].1 == entries[j].1);
    }
    lemma_render_then_parse(listing);
    let again = field_map(listing);
    assert forall|name: Seq<char>| again.contains_key(name) <==> fields.contains_key(name) by {
        lemma_field_map_key(listing, name);
        if again.contains_key(name) {
            let j = last_index_of(listing, name);
            assert(fields.contains_key(listing[j].0));
        }
    }
    assert forall|name: Seq<char>| again.contains_key(name) implies again[name] == fields[name] by {
        lemma_field_map_key(listing, name);
        let j = last_index_of(listing, name);
        assert(fields.contains_key(listing[j].0));
    }
    assert(again =~= fields);
}

} // verus!
