use site_crawler::header::parse_header;

#[test]
fn parse_header_splits_at_the_colon() {
    let h = parse_header("Accept: text/html").unwrap();
    assert_eq!(h.name, "Accept");
    assert_eq!(h.value, "text/html");
}

#[test]
fn parse_header_trims_both_parts() {
    let h = parse_header("  X-Token \t:   abc def  ").unwrap();
    assert_eq!(h.name, "X-Token");
    assert_eq!(h.value, "abc def");
}

#[test]
fn parse_header_accepts_empty_parts() {
    let h = parse_header(":").unwrap();
    assert_eq!(h.name, "");
    assert_eq!(h.value, "");
    let h = parse_header("a:").unwrap();
    assert_eq!(h.name, "a");
    assert_eq!(h.value, "");
}

#[test]
fn parse_header_wants_exactly_one_colon() {
    assert!(parse_header("no colon").is_none());
    assert!(parse_header("").is_none());
    assert!(parse_header("Host: example.com:8080").is_none());
    assert!(parse_header("a:b:c").is_none());
    assert!(parse_header("::").is_none());
}

#[test]
fn parse_header_agrees_with_split() {
    for line in ["a:b", "a: b ", " a :b", "ab", "a:b:c", ":", "é: ü", "x:\ty\n"] {
        let parts: Vec<&str> = line.split(':').collect();
        match parse_header(line) {
            Some(h) => {
                assert_eq!(parts.len(), 2);
                assert_eq!(h.name, parts[0].trim());
                assert_eq!(h.value, parts[1].trim());
            }
            None => assert_ne!(parts.len(), 2),
        }
    }
}
