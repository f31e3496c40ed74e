use push_relay::decimal::{digit_of, parse_port, render_port};
use push_relay::scan::{decode, find_either};
use push_relay::target::{PushTarget, TargetParseError, DEFAULT_RTMP_PORT};

fn target(host: &str, port: u16, query: Option<&str>) -> PushTarget {
    PushTarget { host: host.to_string(), port, query: query.map(|q| q.to_string()) }
}

#[test]
fn url_without_port_resolves_to_default_port() {
    let resolved = PushTarget::resolve("rtmp://push.example.com/app", DEFAULT_RTMP_PORT);
    assert_eq!(resolved, Ok(target("push.example.com", 1935, None)));
}

#[test]
fn url_with_port_and_query_resolves_to_both() {
    let resolved = PushTarget::resolve("rtmp://push.example.com:1936/app?key=abc", 1935);
    assert_eq!(resolved, Ok(target("push.example.com", 1936, Some("key=abc"))));
}

#[test]
fn default_port_is_the_callers() {
    assert_eq!(DEFAULT_RTMP_PORT, 1935);
    let resolved = PushTarget::resolve("rtmp://push.example.com/app", 8080);
    assert_eq!(resolved, Ok(target("push.example.com", 8080, None)));
    let named = PushTarget::resolve("rtmp://push.example.com:1936/app", 8080);
    assert_eq!(named, Ok(target("push.example.com", 1936, None)));
}

#[test]
fn url_of_host_alone_resolves() {
    assert_eq!(PushTarget::resolve("rtmp://h", 1935), Ok(target("h", 1935, None)));
    assert_eq!(PushTarget::resolve("rtmp://h:7", 1935), Ok(target("h", 7, None)));
    assert_eq!(PushTarget::resolve("rtmp://h/", 1935), Ok(target("h", 1935, None)));
}

#[test]
fn path_has_no_part_in_the_target() {
    let short = PushTarget::resolve("rtmp://h:1936/app", 1935);
    let long = PushTarget::resolve("rtmp://h:1936/app/stream/more", 1935);
    assert_eq!(short, long);
    assert_eq!(long, Ok(target("h", 1936, None)));
}

#[test]
fn query_is_what_follows_the_first_question_mark() {
    assert_eq!(PushTarget::resolve("rtmp://h?x=1", 1935), Ok(target("h", 1935, Some("x=1"))));
    assert_eq!(PushTarget::resolve("rtmp://h/app?", 1935), Ok(target("h", 1935, Some(""))));
    assert_eq!(PushTarget::resolve("rtmp://h/a?b?c", 1935), Ok(target("h", 1935, Some("b?c"))));
    assert_eq!(PushTarget::resolve("rtmp://h?a/b:c", 1935), Ok(target("h", 1935, Some("a/b:c"))));
    assert_eq!(PushTarget::resolve("rtmp://h:9?a", 1935), Ok(target("h", 9, Some("a"))));
}

#[test]
fn colon_after_the_authority_is_no_port() {
    assert_eq!(PushTarget::resolve("rtmp://h/app:1936", 1935), Ok(target("h", 1935, None)));
    assert_eq!(PushTarget::resolve("rtmp://h?k=a:b", 1935), Ok(target("h", 1935, Some("k=a:b"))));
}

#[test]
fn characters_beyond_ascii_are_kept() {
    let resolved = PushTarget::resolve("rtmp://h\u{f6}st.example:1936/\u{e4}pp?k=\u{20ac}\u{1f600}", 1935);
    assert_eq!(resolved, Ok(target("h\u{f6}st.example", 1936, Some("k=\u{20ac}\u{1f600}"))));
}

#[test]
fn other_schemes_are_refused() {
    let refused = Err(TargetParseError::UnsupportedScheme);
    assert_eq!(PushTarget::resolve("http://push.example.com/app", 1935), refused);
    assert_eq!(PushTarget::resolve("rtmps://push.example.com/app", 1935), refused);
    assert_eq!(PushTarget::resolve("RTMP://push.example.com/app", 1935), refused);
    assert_eq!(PushTarget::resolve(" rtmp://push.example.com/app", 1935), refused);
    assert_eq!(PushTarget::resolve("push.example.com:1935", 1935), refused);
    assert_eq!(PushTarget::resolve("rtmp:/", 1935), refused);
    assert_eq!(PushTarget::resolve("", 1935), refused);
}

#[test]
fn missing_host_is_refused() {
    let refused = Err(TargetParseError::MissingHost);
    assert_eq!(PushTarget::resolve("rtmp://", 1935), refused);
    assert_eq!(PushTarget::resolve("rtmp:///app", 1935), refused);
    assert_eq!(PushTarget::resolve("rtmp://:1935/app", 1935), refused);
    assert_eq!(PushTarget::resolve("rtmp://?key=abc", 1935), refused);
    assert_eq!(PushTarget::resolve("rtmp://:x", 1935), refused);
}

#[test]
fn invalid_port_is_refused() {
    let refused = Err(TargetParseError::InvalidPort);
    assert_eq!(PushTarget::resolve("rtmp://h:/app", 1935), refused);
    assert_eq!(PushTarget::resolve("rtmp://h:", 1935), refused);
    assert_eq!(PushTarget::resolve("rtmp://h:abc/app", 1935), refused);
    assert_eq!(PushTarget::resolve("rtmp://h:19x6/app", 1935), refused);
    assert_eq!(PushTarget::resolve("rtmp://h:-1/app", 1935), refused);
    assert_eq!(PushTarget::resolve("rtmp://h:+1/app", 1935), refused);
    assert_eq!(PushTarget::resolve("rtmp://h:65536/app", 1935), refused);
    assert_eq!(PushTarget::resolve("rtmp://h:99999999999999999999999/app", 1935), refused);
    assert_eq!(PushTarget::resolve("rtmp://h:1:2/app", 1935), refused);
    assert_eq!(PushTarget::resolve("rtmp://[::1]:1935/app", 1935), refused);
    assert_eq!(PushTarget::resolve("rtmp://h:\u{661}\u{669}/app", 1935), refused);
}

#[test]
fn port_bounds_are_accepted() {
    assert_eq!(PushTarget::resolve("rtmp://h:0/app", 1935), Ok(target("h", 0, None)));
    assert_eq!(PushTarget::resolve("rtmp://h:65535/app", 1935), Ok(target("h", 65535, None)));
    assert_eq!(PushTarget::resolve("rtmp://h:01936/app", 1935), Ok(target("h", 1936, None)));
    assert_eq!(PushTarget::resolve("rtmp://h:0000000000065535", 1935), Ok(target("h", 65535, None)));
}

#[test]
fn address_is_host_colon_port() {
    assert_eq!(target("push.example.com", 1935, None).address(), "push.example.com:1935");
    assert_eq!(target("h", 0, Some("q")).address(), "h:0");
    assert_eq!(target("h", 65535, None).address(), "h:65535");
    let resolved = PushTarget::resolve("rtmp://push.example.com:01936/app?key=abc", 1935).unwrap();
    assert_eq!(resolved.address(), "push.example.com:1936");
}

#[test]
fn search_is_the_query_behind_a_question_mark() {
    assert_eq!(target("h", 1935, None).search(), None);
    assert_eq!(target("h", 1935, Some("key=abc")).search(), Some("?key=abc".to_string()));
    assert_eq!(target("h", 1935, Some("")).search(), Some("?".to_string()));
}

#[test]
fn written_url_resolves_to_its_target() {
    let targets = vec![
        target("push.example.com", 1935, None),
        target("push.example.com", 1936, Some("key=abc")),
        target("h", 0, Some("")),
        target("10.0.0.1", 65535, Some("a?b/c:d")),
    ];
    for t in targets {
        let url = format!("rtmp://{}{}", t.address(), t.search().unwrap_or_default());
        assert_eq!(PushTarget::resolve(&url, 7), Ok(t));
    }
}

#[test]
fn render_port_writes_decimal_without_leading_zeros() {
    assert_eq!(render_port(0), "0");
    assert_eq!(render_port(9), "9");
    assert_eq!(render_port(10), "10");
    assert_eq!(render_port(1935), "1935");
    assert_eq!(render_port(10000), "10000");
    assert_eq!(render_port(65535), "65535");
}

#[test]
fn render_port_agrees_with_std_on_every_port() {
    for n in 0..=u16::MAX {
        let text = render_port(n);
        assert_eq!(text, n.to_string());
        let chars: Vec<char> = text.chars().collect();
        assert_eq!(parse_port(&chars, 0, chars.len()), Some(n));
    }
}

#[test]
fn parse_port_reads_a_stretch_of_digits() {
    let text: Vec<char> = "ab1936cd".chars().collect();
    assert_eq!(parse_port(&text, 2, 6), Some(1936));
    assert_eq!(parse_port(&text, 2, 5), Some(193));
    assert_eq!(parse_port(&text, 3, 4), Some(9));
    assert_eq!(parse_port(&text, 2, 2), None);
    assert_eq!(parse_port(&text, 1, 6), None);
    assert_eq!(parse_port(&text, 2, 7), None);
    let large: Vec<char> = "65535 65536 0065535 4294967296".chars().collect();
    assert_eq!(parse_port(&large, 0, 5), Some(65535));
    assert_eq!(parse_port(&large, 6, 11), None);
    assert_eq!(parse_port(&large, 12, 19), Some(65535));
    assert_eq!(parse_port(&large, 20, 30), None);
}

#[test]
fn digit_of_knows_the_ten_digits() {
    assert_eq!(digit_of('0'), Some(0));
    assert_eq!(digit_of('7'), Some(7));
    assert_eq!(digit_of('9'), Some(9));
    assert_eq!(digit_of('/'), None);
    assert_eq!(digit_of(':'), None);
    assert_eq!(digit_of('a'), None);
    assert_eq!(digit_of('\u{661}'), None);
}

#[test]
fn decode_gives_the_characters_in_order() {
    assert_eq!(decode(""), Vec::<char>::new());
    assert_eq!(decode("a\u{f6}\u{20ac}b"), vec!['a', '\u{f6}', '\u{20ac}', 'b']);
}

#[test]
fn find_either_stops_at_the_first_of_the_two() {
    let text: Vec<char> = "ab/cd?ef/".chars().collect();
    assert_eq!(find_either(&text, 0, text.len(), '/', '?'), 2);
    assert_eq!(find_either(&text, 0, text.len(), '?', '/'), 2);
    assert_eq!(find_either(&text, 0, text.len(), '?', '?'), 5);
    assert_eq!(find_either(&text, 3, text.len(), '/', '?'), 5);
    assert_eq!(find_either(&text, 6, text.len(), '/', '?'), 8);
    assert_eq!(find_either(&text, 0, text.len(), ':', ':'), text.len());
    assert_eq!(find_either(&text, 0, 2, '/', '?'), 2);
    assert_eq!(find_either(&text, 4, 4, '/', '?'), 4);
}
