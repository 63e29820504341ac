use site_crawler::weburl::{base_url, same_host, Host, PageUrl};

fn host(name: &str, is_domain: bool) -> Option<Host> {
    Some(Host { name: name.to_string(), is_domain })
}

#[test]
fn parse_copies_serialization_path_and_host() {
    let url = PageUrl::parse("https://example.com/a/b?x=1#f").unwrap();
    assert_eq!(url.href, "https://example.com/a/b?x=1#f");
    assert_eq!(url.path, "/a/b");
    let h = url.host.unwrap();
    assert_eq!(h.name, "example.com");
    assert!(h.is_domain);
}

#[test]
fn parse_normalizes() {
    let url = PageUrl::parse("HTTPS://Example.COM").unwrap();
    assert_eq!(url.href, "https://example.com/");
    assert_eq!(url.path, "/");
    assert_eq!(url.host.unwrap().name, "example.com");
}

#[test]
fn parse_tells_addresses_from_names() {
    let v4 = PageUrl::parse("http://127.0.0.1:8080/x").unwrap();
    let h = v4.host.unwrap();
    assert_eq!(h.name, "127.0.0.1");
    assert!(!h.is_domain);
    let v6 = PageUrl::parse("http://[::1]/").unwrap();
    let h = v6.host.unwrap();
    assert_eq!(h.name, "[::1]");
    assert!(!h.is_domain);
}

#[test]
fn parse_rejects_what_is_no_absolute_url() {
    assert!(PageUrl::parse("nonsense").is_none());
    assert!(PageUrl::parse("/relative/path").is_none());
    assert!(PageUrl::parse("").is_none());
    assert!(PageUrl::parse("http://[bad").is_none());
}

#[test]
fn parse_of_a_url_without_host() {
    let url = PageUrl::parse("mailto:someone@example.com").unwrap();
    assert_eq!(url.href, "mailto:someone@example.com");
    assert!(url.host.is_none());
}

#[test]
fn join_resolves_relative_references() {
    let base = PageUrl::parse("https://example.net/a/b.html").unwrap();
    assert_eq!(base.join("c.png").unwrap().href, "https://example.net/a/c.png");
    assert_eq!(base.join("/v1/meta").unwrap().href, "https://example.net/v1/meta");
    assert_eq!(base.join("//eve.com/b").unwrap().href, "https://eve.com/b");
    assert_eq!(base.join("http://eve.com/b").unwrap().href, "http://eve.com/b");
    assert_eq!(base.join("?q=1").unwrap().href, "https://example.net/a/b.html?q=1");
    assert_eq!(base.join("../x").unwrap().path, "/x");
}

#[test]
fn join_fails_where_the_reference_does_not_parse() {
    let base = PageUrl::parse("https://example.net/").unwrap();
    assert!(base.join("http://[bad").is_none());
    let opaque = PageUrl::parse("mailto:a@b.c").unwrap();
    assert!(opaque.join("x").is_none());
}

#[test]
fn base_url_clears_path_and_query() {
    let url = PageUrl::parse("https://example.com/a/b/c.html?x=1&y=2").unwrap();
    let base = base_url(&url).unwrap();
    assert_eq!(base.href, "https://example.com/");
    assert_eq!(base.path, "/");
    assert!(same_host(&base.host, &url.host));
}

#[test]
fn base_url_keeps_scheme_credentials_and_authority() {
    let url = PageUrl::parse("http://user:pw@example.com:8080/a?b").unwrap();
    assert_eq!(base_url(&url).unwrap().href, "http://user:pw@example.com:8080/");
}

#[test]
fn base_url_of_an_origin_is_itself() {
    let url = PageUrl::parse("https://example.com/").unwrap();
    assert_eq!(base_url(&url).unwrap().href, "https://example.com/");
}

#[test]
fn base_url_keeps_the_fragment() {
    let url = PageUrl::parse("https://example.com/a/b?x#frag").unwrap();
    assert_eq!(base_url(&url).unwrap().href, "https://example.com/#frag");
}

#[test]
fn base_url_agrees_with_the_url_crate() {
    for text in ["https://example.com/a/b?x=1", "http://h/", "http://h/p#f", "ftp://h/a/b/c"] {
        let mut theirs = reqwest::Url::parse(text).unwrap();
        theirs.path_segments_mut().unwrap().clear();
        theirs.set_query(None);
        let ours = base_url(&PageUrl::parse(text).unwrap()).unwrap();
        assert_eq!(ours.href, theirs.as_str());
        assert_eq!(ours.path, theirs.path());
    }
}

#[test]
fn base_url_is_none_for_a_url_that_cannot_be_a_base() {
    let url = PageUrl::parse("mailto:someone@example.com").unwrap();
    assert!(base_url(&url).is_none());
    let data = PageUrl::parse("data:text/plain,Stuff").unwrap();
    assert!(base_url(&data).is_none());
}

#[test]
fn same_host_compares_name_and_kind() {
    assert!(same_host(&None, &None));
    assert!(same_host(&host("a.com", true), &host("a.com", true)));
    assert!(!same_host(&host("a.com", true), &host("b.com", true)));
    assert!(!same_host(&host("1.2.3.4", true), &host("1.2.3.4", false)));
    assert!(!same_host(&host("a.com", true), &None));
    assert!(!same_host(&None, &host("a.com", true)));
}

#[test]
fn same_host_agrees_with_the_url_crate() {
    let texts = [
        "http://example.com/",
        "https://example.com/x",
        "http://www.example.com/",
        "http://1.2.3.4/",
        "foo://1.2.3.4/",
        "http://[::1]/",
        "mailto:a@b.c",
    ];
    for a in texts {
        for b in texts {
            let theirs = reqwest::Url::parse(a).unwrap().host() == reqwest::Url::parse(b).unwrap().host();
            let ours = same_host(&PageUrl::parse(a).unwrap().host, &PageUrl::parse(b).unwrap().host);
            assert_eq!(ours, theirs, "{a} and {b}");
        }
    }
}

#[test]
fn clone_keeps_every_part() {
    let url = PageUrl::parse("https://example.com/a?b").unwrap();
    let copy = url.clone();
    assert_eq!(copy.href, url.href);
    assert_eq!(copy.path, url.path);
    assert!(same_host(&copy.host, &url.host));
}
