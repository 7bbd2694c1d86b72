use crabipie::header::{parse_headers, try_parse_headers};
use crabipie::http_types::HEADER_ROOM;

fn value(map: &reqwest::header::HeaderMap, name: &str) -> Vec<u8> {
    map.get(name).unwrap().as_bytes().to_vec()
}

#[test]
fn comment_and_blank_lines_are_skipped() {
    let map = parse_headers("# comment\n\nX-Foo: bar");
    assert_eq!(map.len(), 1);
    assert_eq!(map.get("X-Foo").unwrap(), "bar");
}

#[test]
fn default_header_text_gives_no_header() {
    let map = parse_headers("# Add headers as key: value pairs\n# Example:\n# X-Custom-Header: value");
    assert!(map.is_empty());
}

#[test]
fn whitespace_only_lines_are_skipped() {
    let map = parse_headers("   \n\t\nA: 1\n \u{3000} \n");
    assert_eq!(map.len(), 1);
    assert_eq!(map.get("a").unwrap(), "1");
}

#[test]
fn last_duplicate_key_wins() {
    let map = parse_headers("A: 1\nA: 2");
    assert_eq!(map.len(), 1);
    assert_eq!(map.get("a").unwrap(), "2");
}

#[test]
fn names_differ_by_case_only_are_one_header() {
    let map = parse_headers("Content-Type: text/plain\ncontent-type: text/html");
    assert_eq!(map.keys_len(), 1);
    assert_eq!(map.get("CONTENT-TYPE").unwrap(), "text/html");
}

#[test]
fn empty_text_gives_no_header() {
    assert!(parse_headers("").is_empty());
}

#[test]
fn line_is_split_at_first_colon_only() {
    let map = parse_headers("X-Url: http://host:8080/a:b");
    assert_eq!(map.get("x-url").unwrap(), "http://host:8080/a:b");
}

#[test]
fn name_and_value_are_trimmed() {
    let map = parse_headers("   X-A  :   some value \t ");
    assert_eq!(map.len(), 1);
    assert_eq!(map.get("x-a").unwrap(), "some value");
}

#[test]
fn carriage_returns_end_lines_too() {
    let map = parse_headers("A: 1\r\nB: 2\r\n");
    assert_eq!(map.len(), 2);
    assert_eq!(map.get("a").unwrap(), "1");
    assert_eq!(map.get("b").unwrap(), "2");
}

#[test]
fn empty_value_is_kept() {
    let map = parse_headers("X-Empty:");
    assert_eq!(map.len(), 1);
    assert_eq!(map.get("x-empty").unwrap(), "");
}

#[test]
fn line_without_colon_is_dropped() {
    let map = parse_headers("no colon here\nA: 1");
    assert_eq!(map.len(), 1);
    assert_eq!(map.get("a").unwrap(), "1");
}

#[test]
fn illegal_name_is_dropped() {
    let map = parse_headers("bad name: x\n: y\nna(me: z\nGood: 1");
    assert_eq!(map.len(), 1);
    assert_eq!(map.get("good").unwrap(), "1");
}

#[test]
fn illegal_value_is_dropped() {
    let map = parse_headers("A: x\u{1}y\nB: x\u{7f}\nC: fine\tvalue");
    assert_eq!(map.len(), 1);
    assert_eq!(map.get("c").unwrap(), "fine\tvalue");
}

#[test]
fn value_outside_ascii_keeps_its_bytes() {
    let map = parse_headers("X-Name: caf\u{e9}");
    assert_eq!(value(&map, "x-name"), "caf\u{e9}".as_bytes().to_vec());
}

#[test]
fn name_with_marks_is_accepted() {
    let map = parse_headers("!x$%&'*+-.^_`|~9: v");
    assert_eq!(map.len(), 1);
    assert_eq!(map.get("!x$%&'*+-.^_`|~9").unwrap(), "v");
}

#[test]
fn name_that_starts_with_hash_is_a_comment() {
    let map = parse_headers("#X: 1\n X#: 2");
    assert_eq!(map.len(), 1);
    assert_eq!(map.get("x#").unwrap(), "2");
}

#[test]
fn longest_name_is_accepted_and_longer_one_dropped() {
    let longest = "a".repeat(65535);
    let map = parse_headers(&format!("{}: 1\n{}a: 2", longest, longest));
    assert_eq!(map.len(), 1);
    assert_eq!(map.get(longest.as_str()).unwrap(), "1");
}

#[test]
fn try_parse_matches_parse() {
    let map = try_parse_headers("Accept: text/plain").unwrap();
    assert_eq!(map.len(), 1);
    assert_eq!(map.get("accept").unwrap(), "text/plain");
}

#[test]
fn as_many_names_as_fit_are_parsed() {
    let mut text = String::new();
    for i in 0..HEADER_ROOM {
        text.push_str(&format!("x-{}: {}\n", i, i));
    }
    let map = try_parse_headers(&text).unwrap();
    assert_eq!(map.keys_len(), HEADER_ROOM);
    assert_eq!(map.get("x-6552").unwrap(), "6552");
}

#[test]
fn more_names_than_the_map_holds_are_refused() {
    let mut text = String::new();
    for i in 0..30000 {
        text.push_str(&format!("x-{}: {}\n", i, i));
    }
    assert!(try_parse_headers(&text).is_none());
}

#[test]
fn parsing_never_fails() {
    let mut text = String::from("Accept: */*\n");
    for i in 0..30000 {
        text.push_str(&format!("x-{}: {}\n", i, i));
    }
    text.push_str("accept: text/html\n");
    let map = parse_headers(&text);
    assert!(map.keys_len() >= HEADER_ROOM);
    assert!(map.keys_len() <= 30001);
    assert_eq!(map.len(), map.keys_len());
    for (name, value) in map.iter() {
        let name = name.as_str();
        if name == "accept" {
            assert!(value == "*/*" || value == "text/html");
        } else {
            assert_eq!(name.strip_prefix("x-").unwrap(), value.to_str().unwrap());
        }
    }
    assert_eq!(map.get("x-0").unwrap(), "0");
    assert_eq!(map.get("x-6552").unwrap(), "6552");
}

#[test]
fn names_beyond_the_sure_room_are_taken_while_the_map_takes_them() {
    let mut text = String::new();
    for i in 0..HEADER_ROOM + 500 {
        text.push_str(&format!("x-{}: {}\n", i, i));
    }
    if let Some(map) = try_parse_headers(&text) {
        assert_eq!(map.keys_len(), HEADER_ROOM + 500);
        assert_eq!(map.get("x-7000").unwrap(), "7000");
    }
}

#[test]
fn repeated_names_do_not_count_twice() {
    let mut text = String::new();
    for round in 0..3 {
        for i in 0..HEADER_ROOM {
            text.push_str(&format!("x-{}: {}\n", i, round));
        }
    }
    let map = try_parse_headers(&text).unwrap();
    assert_eq!(map.keys_len(), HEADER_ROOM);
    assert_eq!(map.get("x-0").unwrap(), "2");
}

#[test]
fn headers_written_out_and_read_again_are_the_same() {
    let first = parse_headers("# c\nB: 2\n\n  A :1\nbroken\nb: 3\nX-Url: http://h:1/\nE:");
    let mut text = String::new();
    for (name, value) in first.iter() {
        if !text.is_empty() {
            text.push('\n');
        }
        text.push_str(name.as_str());
        text.push_str(": ");
        text.push_str(value.to_str().unwrap());
    }
    let second = parse_headers(&text);
    assert_eq!(first.len(), 4);
    assert_eq!(first, second);
    assert_eq!(second.get("b").unwrap(), "3");
    assert_eq!(second.get("e").unwrap(), "");
}

#[test]
fn headers_written_out_in_any_order_are_the_same() {
    let first = parse_headers("B: 2\nA: 1\nb: 3\nC: x: y\nE:");
    let mut lines: Vec<String> = first
        .iter()
        .map(|(name, value)| format!("{}: {}", name.as_str(), value.to_str().unwrap()))
        .collect();
    for _ in 0..lines.len() {
        lines.rotate_left(1);
        assert_eq!(parse_headers(&lines.join("\n")), first);
        let mut back = lines.clone();
        back.reverse();
        assert_eq!(parse_headers(&back.join("\n")), first);
    }
}

#[test]
fn blank_lines_and_comments_change_nothing_wherever_they_stand() {
    let plain = parse_headers("A: 1\nB: 2");
    for text in [
        "\nA: 1\nB: 2",
        "A: 1\nB: 2\n",
        "#X: 1\nA: 1\n   \n  # X: 1\nB: 2\n#\n\n",
        "\r\nA: 1\r\n\t\r\nB: 2\r\n# B: 3",
    ] {
        assert_eq!(parse_headers(text), plain, "{:?}", text);
    }
    for text in ["", "\n", "   ", "#X: 1", "  # X: 1\n\n#\n \t "] {
        assert!(parse_headers(text).is_empty(), "{:?}", text);
    }
}

fn is_token(c: char) -> bool {
    c.is_ascii_alphanumeric() || "!#$%&'*+-.^_`|~".contains(c)
}

#[test]
fn name_characters_are_the_token_characters() {
    let mut probes: Vec<char> = (0u8..128).map(|b| b as char).collect();
    probes.extend(['\u{80}', '\u{e9}', '\u{3b1}', '\u{2003}', '\u{1f600}']);
    for c in probes {
        if c == '\n' || c == ':' {
            continue;
        }
        let map = parse_headers(&format!("a{}b: v", c));
        let accepted = map.len() == 1;
        assert_eq!(accepted, is_token(c), "U+{:04X}", c as u32);
        if accepted {
            let name = format!("a{}b", c.to_ascii_lowercase());
            assert_eq!(map.keys().next().unwrap().as_str(), name);
        }
    }
}

#[test]
fn value_characters_are_tabs_and_what_is_no_control() {
    for code in 0u32..0x3000 {
        let c = char::from_u32(code).unwrap();
        if c == '\n' {
            continue;
        }
        let map = parse_headers(&format!("a: x{}y", c));
        let legal = c == '\t' || (c >= ' ' && c != '\u{7f}');
        assert_eq!(map.len() == 1, legal, "U+{:04X}", code);
        if legal {
            assert_eq!(value(&map, "a"), format!("x{}y", c).into_bytes());
        }
    }
}
