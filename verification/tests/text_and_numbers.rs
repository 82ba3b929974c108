use p2p_tor_chat::decimal::decimal_string;
use p2p_tor_chat::decimal::parse_u16;
use p2p_tor_chat::text::chars_of;
use p2p_tor_chat::text::join_path;
use p2p_tor_chat::text::text_after_last;
use p2p_tor_chat::text::text_contains;
use p2p_tor_chat::text::text_strip_suffix;

#[test]
fn decimal_string_writes_base_ten() {
    assert_eq!(decimal_string(0), "0");
    assert_eq!(decimal_string(7), "7");
    assert_eq!(decimal_string(20001), "20001");
    assert_eq!(decimal_string(u64::MAX), u64::MAX.to_string());
}

#[test]
fn parse_u16_agrees_with_std() {
    let cases = [
        "0", "9050", "65535", "65536", "+80", "+", "-1", "", "12a", " 1", "007", "99999999999",
        "١٢",
    ];
    for c in cases.iter() {
        assert_eq!(parse_u16(c), c.parse::<u16>().ok(), "case {:?}", c);
    }
}

#[test]
fn parse_u16_reads_back_every_written_port() {
    for n in [0u16, 1, 9, 10, 255, 9050, 20001, 65535].iter() {
        assert_eq!(parse_u16(&decimal_string(*n as u64)), Some(*n));
    }
}

#[test]
fn text_contains_finds_markers() {
    let line = "Nov 17 06:30:00.000 [notice] Opened Control listener connection (ready) on /tmp/x";
    assert!(text_contains(line, "Opened Control listener"));
    assert!(!text_contains(line, "Opened Socks listener on"));
    assert!(text_contains("abc", ""));
    assert!(!text_contains("", "a"));
    assert!(text_contains("aab", "ab"));
}

#[test]
fn text_after_last_is_first_rsplit_piece() {
    let cases = ["a:b:c", "abc", ":x", "x:", "", "127.0.0.1:9050"];
    for c in cases.iter() {
        assert_eq!(text_after_last(c, ':'), c.rsplit(":").next().unwrap());
    }
}

#[test]
fn text_strip_suffix_matches_std() {
    let cases = ["abc.onion", ".onion", "onion", "abc", "x.onion.onion", ""];
    for c in cases.iter() {
        assert_eq!(text_strip_suffix(c, ".onion"), c.strip_suffix(".onion"));
    }
}

#[test]
fn chars_and_paths() {
    assert_eq!(chars_of("héllo"), vec!['h', 'é', 'l', 'l', 'o']);
    assert_eq!(join_path("/home/u", "alice"), "/home/u/alice");
}
