//! Text, JSON, paths and sorted maps, held against std and serde_json.
use agent_m::dup::{dup_slice, extend_dup};
use agent_m::indexed::find_slot;
use agent_m::json::{self, find_field, Json, Number};
use agent_m::paths;
use agent_m::sorted::{is_before, SortedMap};
use agent_m::text;

fn strings(items: &[&str]) -> Vec<String> {
    items.iter().map(|s| s.to_string()).collect()
}

const SAMPLES: [&str; 14] = [
    "",
    " ",
    "a",
    "héllo wörld",
    "  two  words \t",
    "line one\nline two\r\nthree\n",
    "\n\n",
    "aaa",
    "abcabcabd",
    "ÄÖÜ ß ŒUVRE",
    "日本語 テキスト",
    "\u{a0}nbsp\u{3000}wide\u{2028}",
    "x=y=z",
    "e\u{301}🦀",
];

#[test]
fn characters_are_classed_as_in_std() {
    for c in '\0'..=char::MAX {
        assert_eq!(text::is_whitespace(c), c.is_whitespace(), "{:?}", c);
        assert_eq!(text::is_ascii_alphanumeric(c), c.is_ascii_alphanumeric());
        assert_eq!(text::to_lower_char(c), c.to_ascii_lowercase());
        assert_eq!(text::width_of(c), c.len_utf8());
    }
}

#[test]
fn text_is_cut_as_in_std() {
    for s in SAMPLES {
        assert_eq!(text::trim(s), s.trim(), "{s:?}");
        assert_eq!(text::trim_start(s), s.trim_start());
        assert_eq!(text::trim_end(s), s.trim_end());
        assert_eq!(
            text::words(s),
            s.split_whitespace().map(|w| w.to_string()).collect::<Vec<_>>()
        );
        assert_eq!(text::lines(s), s.lines().map(|l| l.to_string()).collect::<Vec<_>>());
        assert_eq!(text::count(s), s.chars().count());
        assert_eq!(text::byte_len(s), s.len());
        assert_eq!(text::to_ascii_lowercase(s), s.to_ascii_lowercase());
        assert_eq!(text::chars_of(s), s.chars().collect::<Vec<_>>());
        assert_eq!(text::string_of(&s.chars().collect::<Vec<_>>()), s);
        assert_eq!(text::trim_chars(s, &['a', ' ']), s.trim_matches(&['a', ' '][..]));
        assert_eq!(text::trim_start_chars(s, &['a']), s.trim_start_matches('a'));
        assert_eq!(text::trim_end_chars(s, &['\n']), s.trim_end_matches('\n'));
        assert_eq!(
            text::split(s, &['=', ' ']),
            s.split(&['=', ' '][..]).map(|w| w.to_string()).collect::<Vec<_>>()
        );
    }
}

#[test]
fn text_is_searched_as_in_std() {
    for s in SAMPLES {
        for p in ["a", "abc", "\n", "ö", "zzz", "語"] {
            let at = |byte: usize| s[..byte].chars().count();
            assert_eq!(text::find(s, p), s.find(p).map(at), "{s:?} {p:?}");
            assert_eq!(text::rfind(s, p), s.rfind(p).map(at), "{s:?} {p:?}");
            assert_eq!(text::contains(s, p), s.contains(p));
            assert_eq!(text::starts_with(s, p), s.starts_with(p));
            assert_eq!(text::ends_with(s, p), s.ends_with(p));
            assert_eq!(text::strip_prefix(s, p), s.strip_prefix(p).map(|r| r.to_string()));
            assert_eq!(text::strip_suffix(s, p), s.strip_suffix(p).map(|r| r.to_string()));
            assert_eq!(text::replace(s, p, "[]"), s.replace(p, "[]"));
            assert_eq!(text::same(s, p), s == p);
            assert_eq!(text::eq_ignore_ascii_case(s, p), s.eq_ignore_ascii_case(p));
        }
    }
    assert_eq!(text::find("abc", ""), Some(0));
    assert_eq!(text::find_at("abcabc", "abc", 1), Some(3));
    assert_eq!(text::find_set("ab=c d", &[' ', '='], 3), Some(4));
    assert_eq!(text::sub_string("héllo", 1, 3), "él");
    assert_eq!(text::join(&strings(&["a", "b", "c"]), ", "), "a, b, c");
    assert_eq!(text::repeat('─', 3), "───");
    assert!(text::contains_text(&strings(&["a", "b"]), "b"));
    assert_eq!(text::cut_to_bytes("aé日", 3), "aé");
    assert_eq!(text::cut_to_bytes("aé日", 2), "a");
}

#[test]
fn numbers_are_written_and_read() {
    for n in [0, 7, 10, 99, 12345, u64::MAX] {
        assert_eq!(text::decimal(n), n.to_string());
        assert_eq!(text::parse_number(&n.to_string(), u64::MAX), Some(n));
    }
    for s in ["", "+", "-1", "1a", " 1", "18446744073709551616", "007", "+5"] {
        assert_eq!(text::parse_number(s, u64::MAX), s.parse::<u64>().ok(), "{s}");
    }
    assert_eq!(text::parse_number("255", 255), Some(255));
    assert_eq!(text::parse_number("256", 255), None);
}

#[test]
fn json_is_read_and_written_as_by_serde_json() {
    for s in [
        "null",
        "true",
        "0",
        "-5",
        "18446744073709551615",
        "-9223372036854775808",
        "1.5",
        "1e300",
        "\"a\\n\\u00e9\\\"\"",
        "[]",
        "[1,[2,{}],\"x\"]",
        "{\"b\":1,\"a\":{\"z\":null,\"y\":[true,false]}}",
    ] {
        let value: serde_json::Value = serde_json::from_str(s).unwrap();
        let j = json::parse(s).unwrap_or_else(|e| panic!("{e}"));
        assert_eq!(json::render(&j), serde_json::to_string(&value).unwrap());
        assert_eq!(json::render_pretty(&j), serde_json::to_string_pretty(&value).unwrap());
        let again = json::parse(&json::render(&j)).unwrap_or_else(|e| panic!("{e}"));
        assert_eq!(json::render(&again), json::render(&j));
    }
    for s in ["", "{", "[1,]", "nul", "\"", "1 2", "{\"a\" 1}"] {
        let error = serde_json::from_str::<serde_json::Value>(s).unwrap_err().to_string();
        assert_eq!(json::parse(s).err(), Some(error));
    }
}

#[test]
fn json_values_are_looked_into() {
    let j = json::parse("{\"a\":\"x\",\"n\":7,\"b\":true,\"l\":[1],\"r\":1.5,\"m\":-1}")
        .unwrap_or_else(|e| panic!("{e}"));
    assert_eq!(j.get_str("a"), Some("x"));
    assert_eq!(j.get("n").and_then(|v| v.as_u64()), Some(7));
    assert_eq!(j.get("m").and_then(|v| v.as_u64()), None);
    assert_eq!(j.get("b").and_then(|v| v.as_bool()), Some(true));
    assert_eq!(j.get("l").and_then(|v| v.as_array()).map(|l| l.len()), Some(1));
    assert!(j.get("zz").is_none());
    assert!(Json::Null.get("a").is_none());
    assert!(matches!(j.get("r"), Some(Json::Number(Number::Real(r))) if r == "1.5"));
    assert!(matches!(j.get("m"), Some(Json::Number(Number::Negative(-1)))));
    let changed = j.with("a", Json::number(1)).without("n");
    assert_eq!(changed.get("a").and_then(|v| v.as_u64()), Some(1));
    assert!(changed.get("n").is_none());
    let Json::Object(fields) = &changed else { panic!("an object") };
    assert!(find_field(fields, "b").is_some());
    assert_eq!(json::render(&Json::array(vec![Json::text("x"), Json::Null])), "[\"x\",null]");
}

#[test]
fn paths_are_taken_apart_as_in_std() {
    for path in ["/a/b/../c", "a/./b", "/", "", ".", "..", "a//b/", "/..", "./x"] {
        let parts: Vec<String> = std::path::Path::new(path)
            .components()
            .map(|c| c.as_os_str().to_str().unwrap().to_string())
            .collect();
        assert_eq!(paths::components_of(path), parts, "{path}");
        assert_eq!(paths::is_absolute(path), std::path::Path::new(path).is_absolute());
        for other in ["x", "/x", "", "y/z"] {
            assert_eq!(
                paths::join(path, other),
                std::path::Path::new(path).join(other).to_str().unwrap(),
                "{path} {other}"
            );
        }
    }
    assert_eq!(paths::write(&paths::resolve("/a/b/../c/./d")), "/a/c/d");
    assert!(paths::is_under(&paths::resolve("/a/b/c"), &paths::resolve("/a/b")));
    assert!(!paths::is_under(&paths::resolve("/a/b/../c"), &paths::resolve("/a/b")));
    assert!(!paths::is_under(&paths::resolve("/ab"), &paths::resolve("/a")));
}

#[test]
fn names_are_ordered_as_strings_are() {
    for a in SAMPLES {
        for b in SAMPLES {
            assert_eq!(is_before(a, b), a < b, "{a:?} {b:?}");
        }
    }
    let mut map: SortedMap<u64> = SortedMap::new();
    for (name, value) in [("b", 1), ("a", 2), ("c", 3), ("b", 4), ("ä", 5)] {
        map.insert(name, value);
    }
    assert_eq!(map.names(), strings(&["a", "b", "c", "ä"]));
    assert_eq!(map.get("b"), Some(&4));
    assert_eq!(map.get("d"), None);
}

#[test]
fn lists_are_copied_and_searched() {
    let list = strings(&["a", "b"]);
    let mut copy = dup_slice(&list);
    assert_eq!(copy, list);
    extend_dup(&mut copy, &list);
    assert_eq!(copy, strings(&["a", "b", "a", "b"]));
    let items: Vec<(usize, u64)> = vec![(1, 10), (4, 40), (9, 90)];
    assert_eq!(find_slot(&items, 0), 0);
    assert_eq!(find_slot(&items, 4), 1);
    assert_eq!(find_slot(&items, 5), 2);
    assert_eq!(find_slot(&items, 10), 3);
}
