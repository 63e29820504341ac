use site_crawler::extract::{extract_urls, resolve, LinkExtractor, HREF_PATTERN};
use site_crawler::weburl::PageUrl;

fn origin() -> PageUrl {
    PageUrl::parse("https://example.com/").unwrap()
}

fn hrefs(body: &str) -> Vec<String> {
    extract_urls(&LinkExtractor::new().unwrap(), body, &origin()).into_iter().map(|u| u.href).collect()
}

#[test]
fn pattern_is_a_valid_regex_with_the_groups_in_place() {
    let re = regex::Regex::new(HREF_PATTERN).unwrap();
    let names: Vec<Option<&str>> = re.capture_names().collect();
    assert_eq!(names.len(), 6);
    assert_eq!(names[3], Some("href_a"));
    assert_eq!(names[5], Some("href_b"));
}

#[test]
fn extract_finds_double_quoted_hrefs() {
    assert_eq!(hrefs(r#"<a href="/about">About</a>"#), vec!["https://example.com/about"]);
}

#[test]
fn extract_finds_single_quoted_hrefs() {
    assert_eq!(hrefs("<a href='/about'>About</a>"), vec!["https://example.com/about"]);
}

#[test]
fn extract_allows_other_attributes_and_spacing() {
    let body = "<a class=\"nav\" id='x'\n   href =  \"contact.html\" >C</a>";
    assert_eq!(hrefs(body), vec!["https://example.com/contact.html"]);
}

#[test]
fn extract_ignores_what_is_no_anchor() {
    assert_eq!(hrefs(r#"<link href="/style.css"><img src="/a.png"><area href="/x">"#), Vec::<String>::new());
    assert_eq!(hrefs(r#"<a name="top">no href</a>"#), Vec::<String>::new());
    assert_eq!(hrefs(""), Vec::<String>::new());
    assert_eq!(hrefs("<a href=/unquoted>x</a>"), Vec::<String>::new());
}

#[test]
fn extract_skips_fragment_only_references() {
    assert_eq!(hrefs(r##"<a href="#top">Top</a><a href='#'>x</a>"##), Vec::<String>::new());
    assert_eq!(hrefs(r##"<a href="/page#top">Top</a>"##), vec!["https://example.com/page#top"]);
}

#[test]
fn extract_drops_links_to_other_hosts() {
    let body = r#"<a href="https://other.org/x">o</a><a href="//cdn.example.com/y">c</a><a href="http://example.com.evil.net/">e</a>"#;
    assert_eq!(hrefs(body), Vec::<String>::new());
}

#[test]
fn extract_keeps_absolute_links_to_the_same_host() {
    let body = r#"<a href="https://example.com/abs">a</a> <a href="http://example.com/plain">b</a>"#;
    assert_eq!(hrefs(body), vec!["https://example.com/abs", "http://example.com/plain"]);
}

#[test]
fn extract_drops_hrefs_that_do_not_parse() {
    let body = r#"<a href="http://[bad">x</a><a href="https://">y</a><a href="/fine">z</a>"#;
    assert_eq!(hrefs(body), vec!["https://example.com/fine"]);
}

#[test]
fn extract_drops_links_without_host() {
    let body = r#"<a href="mailto:someone@example.com">m</a><a href="tel:123">t</a><a href="javascript:void(0)">j</a>"#;
    assert_eq!(hrefs(body), Vec::<String>::new());
}

#[test]
fn extract_keeps_order_and_repetitions() {
    let body = r#"<a href="/b">1</a><a href="/c">2</a><a href="/b">3</a><a href='/a'>4</a><a href="/b">5</a>"#;
    assert_eq!(
        hrefs(body),
        vec![
            "https://example.com/b",
            "https://example.com/c",
            "https://example.com/b",
            "https://example.com/a",
            "https://example.com/b",
        ]
    );
}

#[test]
fn extract_takes_the_shortest_quoted_value() {
    let body = r#"<a href="/one" title="two">x</a> <a href='/three' rel="four">y</a>"#;
    assert_eq!(hrefs(body), vec!["https://example.com/one", "https://example.com/three"]);
}

#[test]
fn extract_returns_path_and_host_of_each_link() {
    let links = extract_urls(
        &LinkExtractor::new().unwrap(),
        r#"<a href="/docs/intro?lang=en">d</a>"#,
        &origin(),
    );
    assert_eq!(links.len(), 1);
    assert_eq!(links[0].href, "https://example.com/docs/intro?lang=en");
    assert_eq!(links[0].path, "/docs/intro");
    assert_eq!(links[0].host.as_ref().unwrap().name, "example.com");
}

#[test]
fn extract_filters_by_the_host_of_the_origin_given() {
    let other = PageUrl::parse("https://other.org/").unwrap();
    let body = r#"<a href="https://example.com/a">a</a><a href="https://other.org/b">b</a><a href="/c">c</a>"#;
    let found: Vec<String> = extract_urls(&LinkExtractor::new().unwrap(), body, &other).into_iter().map(|u| u.href).collect();
    assert_eq!(found, vec!["https://other.org/b", "https://other.org/c"]);
    for link in extract_urls(&LinkExtractor::new().unwrap(), body, &other) {
        assert_eq!(link.host.unwrap().name, "other.org");
    }
}

#[test]
fn extract_agrees_with_a_direct_use_of_the_crates() {
    let body = "<p><a href=\"/x\">x</a> <a  data-k='v' href='y/z.html'>y</a>\n<a href=\"#frag\">f</a>\
        <a href='https://example.com/q?a=1'>q</a> <a href=\"https://elsewhere.io/\">e</a>\
        <A HREF=\"/upper\">u</A> <a\thref=\"/tab\">t</a> <a href=\"/x\">again</a></p>";
    let base = reqwest::Url::parse("https://example.com/").unwrap();
    let re = regex::Regex::new(HREF_PATTERN).unwrap();
    let mut expected = Vec::new();
    for c in re.captures_iter(body) {
        let Some(m) = c.name("href_a").or(c.name("href_b")) else { continue };
        let href = m.as_str();
        if href.starts_with('#') {
            continue;
        }
        let url = if href.starts_with("http://") || href.starts_with("https://") {
            reqwest::Url::parse(href).ok()
        } else {
            base.join(href).ok()
        };
        if let Some(url) = url {
            if url.host() == base.host() {
                expected.push(url.as_str().to_string());
            }
        }
    }
    assert_eq!(hrefs(body), expected);
    assert_eq!(
        expected,
        vec![
            "https://example.com/x",
            "https://example.com/y/z.html",
            "https://example.com/q?a=1",
            "https://example.com/tab",
            "https://example.com/x",
        ]
    );
}

#[test]
fn resolve_follows_the_rules_one_by_one() {
    let base = origin();
    assert!(resolve("#top", &base).is_none());
    assert_eq!(resolve("a/b", &base).unwrap().href, "https://example.com/a/b");
    assert_eq!(resolve("https://example.com/z", &base).unwrap().href, "https://example.com/z");
    assert!(resolve("https://other.org/z", &base).is_none());
    assert!(resolve("http://[bad", &base).is_none());
    assert_eq!(resolve("", &base).unwrap().href, "https://example.com/");
    assert_eq!(resolve("ftp://example.com/file", &base).unwrap().href, "ftp://example.com/file");
}
