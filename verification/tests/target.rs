use certmonitor::target::{parse_target, parse_targets, Target, DEFAULT_PORT};

#[test]
fn parse_target_splits_host_and_port() {
    let t = parse_target("example.com:8443").unwrap();
    assert_eq!(t.host, "example.com");
    assert_eq!(t.port, 8443);
}

#[test]
fn parse_target_defaults_to_443_without_a_port() {
    let t = parse_target("example.com").unwrap();
    assert_eq!(t.host, "example.com");
    assert_eq!(t.port, 443);
}

#[test]
fn parse_target_skips_blank_and_comment_lines() {
    assert!(parse_target("").is_none());
    assert!(parse_target("   ").is_none());
    assert!(parse_target("# a comment").is_none());
}

#[test]
fn parse_target_handles_ipv6_with_port() {
    let t = parse_target("[::1]:443").unwrap();
    assert_eq!(t.port, 443);
    assert!(t.host.contains("::1"));
}

#[test]
fn parse_target_trims_unicode_white_space() {
    let t = parse_target("\u{3000}\t example.com:1\u{a0}\r").unwrap();
    assert_eq!(t.host, "example.com");
    assert_eq!(t.port, 1);
}

#[test]
fn white_space_is_trimmed_and_nothing_else() {
    for n in 0..=0x10ffffu32 {
        if let Some(c) = char::from_u32(n) {
            let line: String = [c, 'h', c].iter().collect();
            let host = parse_target(&line).map(|t| t.host);
            if c.is_whitespace() {
                assert_eq!(host.as_deref(), Some("h"));
            } else if c == '#' || c == ':' {
                assert_eq!(host, None);
            } else {
                assert_eq!(host, Some(line));
            }
        }
    }
}

#[test]
fn parse_target_reads_ports_like_the_standard_library() {
    for port in [
        "", "+", "-1", "+1", "0", "00443", "65535", "65536", "99999999999999999999", "4 43", "4x",
        "\u{661}", "++1", "443",
    ] {
        let line = format!("h:{}", port);
        let expected = line["h:".len()..].trim().parse::<u16>().ok();
        assert_eq!(parse_target(&line).map(|t| t.port), expected, "{}", line);
    }
}

#[test]
fn parse_target_uses_the_last_colon() {
    let t = parse_target("::1:22").unwrap();
    assert_eq!(t.host, "::1");
    assert_eq!(t.port, 22);
    let t = parse_target(":22").unwrap();
    assert_eq!(t.host, "");
    assert_eq!(t.port, 22);
}

#[test]
fn parse_targets_reads_a_list() {
    let list = "example.com\r\nexample.com:8443\n\n  # off\ninternal-app.local:443\nbad:port\nlast";
    let found: Vec<(String, u16)> =
        parse_targets(list).into_iter().map(|t| (t.host, t.port)).collect();
    assert_eq!(
        found,
        vec![
            ("example.com".to_string(), DEFAULT_PORT),
            ("example.com".to_string(), 8443),
            ("internal-app.local".to_string(), 443),
            ("last".to_string(), 443),
        ]
    );
    assert!(parse_targets("").is_empty());
    assert!(parse_targets("\n# only\n\n").is_empty());
}

#[test]
fn parse_targets_agrees_with_lines() {
    let list = "a\r\n\rb:1\r\r\n#c\nd:2\n";
    let one_by_one: Vec<String> =
        list.lines().filter_map(parse_target).map(|t| t.address()).collect();
    let at_once: Vec<String> = parse_targets(list).iter().map(|t| t.address()).collect();
    assert_eq!(at_once, one_by_one);
}

#[test]
fn address_is_read_back() {
    for (host, port) in [("example.com", 0), ("::1", 65535), ("", 7), ("h\u{e9}", 10)] {
        let t = Target { host: host.to_string(), port };
        let back = parse_target(&t.address()).unwrap();
        assert_eq!((back.host.as_str(), back.port), (host, port));
    }
    let t = Target { host: "example.com".to_string(), port: 8443 };
    assert_eq!(t.address(), "example.com:8443");
    assert_eq!(t.clone().address(), "example.com:8443");
}

#[test]
fn leading_white_space_is_ignored() {
    let read = |line: &str| parse_target(line).map(|t| (t.host, t.port));
    for line in ["example.com:8443", "example.com", "# comment", "", "a:b", "[::1]:22", " x "] {
        for c in [' ', '\t', '\r', '\u{a0}', '\u{3000}'] {
            assert_eq!(read(&format!("{c}{line}")), read(line));
            assert_eq!(read(&format!("{c}{c}{line}")), read(line));
        }
    }
}
