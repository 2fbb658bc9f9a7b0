use netwatch::feed_updater::parse_feed;

/// The extraction as the feed updater writes it with std's iterators.
fn by_std(text: &str) -> String {
    let mut output = String::new();
    for line in text.lines() {
        if line.starts_with('#') {
            continue;
        }
        let parts: Vec<&str> = line.split_whitespace().collect();
        if let Some(ip) = parts.first() {
            output.push_str(ip);
            output.push('\n');
        }
    }
    output
}

const SAMPLES: [&str; 14] = [
    "",
    "\n",
    "\r\n",
    "1.2.3.4\t5\n",
    "# comment\n1.2.3.4 3\n5.6.7.8 2",
    "  9.9.9.9   1\n",
    "   \n\t\n",
    "a\r\nb\r\n",
    "x\r",
    "\r",
    "  #indented 1\n",
    "#only",
    "\u{A0}10.0.0.1\u{2003}4\n\n\n11.0.0.2",
    "1.1.1.1\n#2.2.2.2\n3.3.3.3 extra fields here\n",
];

#[test]
fn parse_feed_agrees_with_std_iterators() {
    for text in SAMPLES {
        assert_eq!(parse_feed(text), by_std(text), "input {:?}", text);
    }
}

#[test]
fn parse_feed_ipsum_format() {
    let text = "# IPsum Threat Intelligence Feed\n# (c) 2024\n#\n185.224.128.83\t10\n45.148.10.81\t9\n";
    assert_eq!(parse_feed(text), "185.224.128.83\n45.148.10.81\n");
}

#[test]
fn parse_feed_joined_texts() {
    for a in SAMPLES {
        for b in SAMPLES {
            let joined = format!("{}\n{}", a, b);
            assert_eq!(parse_feed(&joined), format!("{}{}", parse_feed(a), parse_feed(b)));
        }
    }
}

#[test]
fn parse_feed_crlf_like_lf() {
    for a in SAMPLES {
        for b in SAMPLES {
            let crlf = format!("{}\r\n{}", a, b);
            let lf = format!("{}\n{}", a, b);
            assert_eq!(parse_feed(&crlf), parse_feed(&lf));
        }
    }
}

#[test]
fn parse_feed_trailing_whitespace() {
    for a in SAMPLES {
        for c in [' ', '\t', '\n', '\r', '\u{3000}'] {
            let longer = format!("{}{}", a, c);
            assert_eq!(parse_feed(&longer), parse_feed(a));
        }
    }
}

#[test]
fn parse_feed_comment_line_adds_nothing() {
    for b in SAMPLES {
        let text = format!("# 1.1.1.1 listed\n{}", b);
        assert_eq!(parse_feed(&text), parse_feed(b));
    }
}

#[test]
fn parse_feed_reparse_is_stable() {
    for text in SAMPLES {
        if text.contains("#indented") {
            continue;
        }
        let once = parse_feed(text);
        assert_eq!(parse_feed(&once), once);
    }
    let once = parse_feed("  #indented 1\n");
    assert_eq!(once, "#indented\n");
    assert_eq!(parse_feed(&once), "");
}

#[test]
fn parse_feed_writes_one_field_per_line() {
    for text in SAMPLES {
        let out = parse_feed(text);
        assert!(out.is_empty() || out.ends_with('\n'));
        let fields: Vec<&str> = out.split_terminator('\n').collect();
        assert!(fields.len() <= text.lines().count(), "input {:?}", text);
        for f in fields {
            assert!(!f.is_empty());
            assert!(!f.chars().any(|c| c.is_whitespace()), "field {:?}", f);
        }
    }
}
