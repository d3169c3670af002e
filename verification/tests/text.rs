use psv::cli::get_argument;
use psv::server::http::https_redirect_target;
use psv::server::https::parse_uri;
use psv::text::{decimal_string, parse_decimal, replace_all_text, replace_first_text};
use psv::util::{dump_bytes, read_bytes};
use psv::{debug_message, program_version, ProgramVersion};

#[test]
fn replace_all_matches_str_replace() {
    let cases = [
        ("a/b/c", "/", "-"),
        ("aaaa", "aa", "b"),
        ("ab", "", "/"),
        ("", "", "x"),
        ("", "a", "x"),
        ("abcabc", "abc", ""),
        ("xyz", "q", "r"),
    ];
    for (s, p, r) in cases {
        assert_eq!(replace_all_text(s, p, r), s.replace(p, r));
    }
    assert_eq!(replace_all_text("ab", "", "/"), "/a/b/");
}

#[test]
fn replace_first_matches_str_replacen() {
    let cases = [
        ("http://x/http://y", "http://", "https://"),
        ("abc", "", "_"),
        ("abc", "d", "_"),
        ("aaa", "a", "b"),
        ("", "", "z"),
    ];
    for (s, p, r) in cases {
        assert_eq!(replace_first_text(s, p, r), s.replacen(p, r, 1));
    }
}

#[test]
fn decimal_notation() {
    assert_eq!(decimal_string(0), "0");
    assert_eq!(decimal_string(3600), "3600");
    assert_eq!(decimal_string(u64::MAX), u64::MAX.to_string());
    for n in [0u64, 7, 10, 99, 65535, 1234567890123] {
        assert_eq!(parse_decimal(&decimal_string(n)), Some(n));
    }
}

#[test]
fn decimal_parsing_matches_std() {
    let cases = ["0", "42", "+42", "", "+", "-1", "4a", "18446744073709551615", "18446744073709551616", "007"];
    for s in cases {
        assert_eq!(parse_decimal(s), s.parse::<u64>().ok(), "{}", s);
    }
}

#[test]
fn hex_round_trip() {
    let bytes: Vec<u8> = vec![0x00, 0x0f, 0xa5, 0xff, 0x10];
    assert_eq!(dump_bytes(&bytes), "000FA5FF10");
    assert_eq!(read_bytes("000FA5FF10"), Some(bytes.clone()));
    assert_eq!(read_bytes("000fa5ff10"), Some(bytes));
    assert_eq!(read_bytes(""), Some(vec![]));
    assert_eq!(read_bytes("abc"), None);
    assert_eq!(read_bytes("0g"), None);
    assert_eq!(dump_bytes(&[]), "");
}

#[test]
fn uris_get_a_leading_slash() {
    assert_eq!(parse_uri("index.html".to_string(), "/static".to_string()), "/index.html");
    assert_eq!(parse_uri("/index.html".to_string(), "/static".to_string()), "/index.html");
    assert_eq!(parse_uri("/static/a.css".to_string(), "/static/".to_string()), "/a.css");
    assert_eq!(parse_uri("abc".to_string(), "a".to_string()), "/bc");
    assert_eq!(parse_uri("ab".to_string(), "".to_string()), "/a/b/");
    assert_eq!(parse_uri("".to_string(), "x".to_string()), "/");
}

#[test]
fn redirect_goes_to_https() {
    assert_eq!(https_redirect_target("example.com"), "https://example.com");
    assert_eq!(https_redirect_target("http://example.com"), "https://example.com");
    assert_eq!(https_redirect_target("https://example.com"), "https://example.com");
    assert_eq!(https_redirect_target("www.http://x"), "https://www.https://x");
    assert_eq!(https_redirect_target(""), "https://");
}

#[test]
fn debug_messages_prefix_every_line() {
    assert_eq!(debug_message("hello", None, None), "[DEBUG] hello\n");
    assert_eq!(debug_message("a\nb", Some("PERFORMANCE"), None), "[PERFORMANCE] a\n[PERFORMANCE] b\n");
    assert_eq!(debug_message("x\n", None, Some("T")), "T [DEBUG] x\nT [DEBUG] \n");
    assert_eq!(debug_message("", None, None), "[DEBUG] \n");
}

#[test]
fn arguments_are_read_after_their_flag() {
    let args: Vec<String> = ["psv", "-title", "My App", "-stars", "4.5"].iter().map(|s| s.to_string()).collect();
    assert_eq!(get_argument("-title", &args, "TITLE"), "My App");
    assert_eq!(get_argument("-stars", &args, "RATING"), "4.5");
    assert_eq!(get_argument("-icon", &args, "ICON"), "ICON");
    let repeated: Vec<String> = ["-q", "first", "-q", "second"].iter().map(|s| s.to_string()).collect();
    assert_eq!(get_argument("-q", &repeated, "none"), "first");
}

#[test]
fn program_versions_are_parsed() {
    assert_eq!(program_version("1", "2", "3"), Some(ProgramVersion { major: 1, minor: 2, patch: 3 }));
    assert_eq!(program_version("0", "10", "+7"), Some(ProgramVersion { major: 0, minor: 10, patch: 7 }));
    assert_eq!(program_version("1", "x", "3"), None);
    assert_eq!(program_version("", "0", "0"), None);
}
