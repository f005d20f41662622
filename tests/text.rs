use embedbot::html::texts;
use embedbot::json::{json_key, json_path, Json, JsonNavError, Segment, Shape};
use embedbot::scraper::util::{unescape_html, unescape_url, url_path_ends_with, url_path_ends_with_image_extension};
use embedbot::text::{escape_markdown, limit_descr_len, limit_len, replace_all};
use embedbot::web_url::WebUrl;
use std::borrow::Cow;

fn unescape(t: &str) -> String {
    let cs: Vec<char> = t.chars().collect();
    let controls = "`*_{}[]()#+-.!";
    let mut out = String::new();
    for (i, c) in cs.iter().enumerate() {
        let drop = *c == '\\' && i + 1 < cs.len() && controls.contains(cs[i + 1]);
        if !drop {
            out.push(*c);
        }
    }
    out
}

#[test]
fn escape_markdown_inserts_backslashes() {
    assert_eq!(escape_markdown("a*b_c").as_ref(), "a\\*b\\_c");
    assert_eq!(escape_markdown("[x](y) #1 + 2 - 3. ok! `{}`").as_ref(), "\\[x\\]\\(y\\) \\#1 \\+ 2 \\- 3\\. ok\\! \\`\\{\\}\\`");
    assert_eq!(escape_markdown("").as_ref(), "");
}

#[test]
fn escape_markdown_unescapes_to_the_original() {
    for s in ["a\\*b", "\\\\", "**bold** _it_", "plain", "ü-ö.ß!", "\\"] {
        let e = escape_markdown(s);
        assert_eq!(unescape(&e), s);
    }
}

#[test]
fn escape_markdown_borrows_text_without_controls() {
    assert!(matches!(escape_markdown("nothing to escape here"), Cow::Borrowed("nothing to escape here")));
    assert!(matches!(escape_markdown("a.b"), Cow::Owned(_)));
}

#[test]
fn limit_len_keeps_short_text() {
    assert!(matches!(limit_len("hello", 5), Cow::Borrowed("hello")));
    assert!(matches!(limit_len("", 0), Cow::Borrowed("")));
}

#[test]
fn limit_len_cuts_long_text() {
    let r = limit_len("abcdefghijklmnop", 10);
    assert_eq!(r.as_ref(), "abcd [...]");
    assert_eq!(r.len(), 10);
    assert_eq!(limit_len("abcdefg", 3).as_ref(), " [...]");
}

#[test]
fn limit_len_never_splits_a_character() {
    // each "é" takes two bytes; 10 bytes at limit 9 leave 3 bytes, so one character
    let r = limit_len("ééééé", 9);
    assert_eq!(r.as_ref(), "é [...]");
    for n in 0..40 {
        let s = "aé€😀aé€😀aé€😀";
        let r = limit_len(s, n);
        assert!(r.len() <= n.max(6) || r.as_ref() == s);
        let kept = r.strip_suffix(" [...]").unwrap_or(&r);
        assert!(s.starts_with(kept));
    }
}

#[test]
fn limit_descr_len_uses_the_description_limit() {
    let long = "x".repeat(3000);
    let r = limit_descr_len(&long);
    assert_eq!(r.len(), 2048);
    assert!(r.ends_with("x [...]"));
    assert!(matches!(limit_descr_len("short"), Cow::Borrowed("short")));
}

#[test]
fn unescape_html_undoes_entities_in_order() {
    assert_eq!(unescape_html("a &amp; b &gt; c &lt; d &quot;e&quot;"), "a & b > c < d \"e\"");
    assert_eq!(unescape_html("&amp;lt;"), "<");
    assert_eq!(unescape_url("https://x.y/?a=1&amp;b=2"), "https://x.y/?a=1&b=2");
    assert_eq!(replace_all("aaa", "aa", "b"), "ba");
    assert_eq!(replace_all("abc", "", "x"), "abc");
}

#[test]
fn url_path_suffixes() {
    let u = WebUrl::parse("https://i.redd.it/abc.JPG/").unwrap();
    assert!(!url_path_ends_with_image_extension(&u));
    let u = WebUrl::parse("https://i.redd.it/abc.jpeg//?x=1").unwrap();
    assert!(url_path_ends_with_image_extension(&u));
    assert!(url_path_ends_with(&u, "abc.jpeg"));
    assert!(!url_path_ends_with(&u, "x=1"));
}

#[test]
fn web_url_normalises_through_the_url_parser() {
    let u = WebUrl::parse("HTTPS://Example.COM").unwrap();
    assert_eq!(u.as_str(), "https://example.com/");
    assert_eq!(u.domain().as_deref(), Some("example.com"));
    assert_eq!(u.path().as_deref(), Some("/"));
    assert!(WebUrl::parse("not a url").is_none());
    assert_eq!(WebUrl::parse("https://127.0.0.1/x").unwrap().domain(), None);
    let f = WebUrl::parse("https://a.com/p?q=1#frag").unwrap();
    assert_eq!(f.without_fragment().unwrap().as_str(), "https://a.com/p?q=1");
    assert_eq!(f.without_query().unwrap().as_str(), "https://a.com/p#frag");
    assert_eq!(f.with_path("/z").unwrap().as_str(), "https://a.com/z?q=1#frag");
}

#[test]
fn json_navigation_reports_the_failing_step() {
    let doc = Json::parse(r#"{"a":[{"b":"x"}],"n":1.5,"t":true}"#).unwrap();
    let path = vec![Segment::Key("a".to_owned()), Segment::Index(0), Segment::Key("b".to_owned())];
    assert_eq!(json_path(&doc, &path), Ok(&Json::Str("x".to_owned())));
    let missing = vec![Segment::Key("a".to_owned()), Segment::Index(3)];
    assert_eq!(json_path(&doc, &missing), Err(JsonNavError::NotFound { segment: Segment::Index(3) }));
    let wrong = vec![Segment::Key("t".to_owned()), Segment::Key("c".to_owned())];
    assert_eq!(json_path(&doc, &wrong), Err(JsonNavError::TypeMismatch { expected: Shape::Object }));
    assert_eq!(
        json_key(&doc, "zz"),
        Err(JsonNavError::NotFound { segment: Segment::Key("zz".to_owned()) })
    );
    assert_eq!(json_key(&doc, "n"), Ok(&Json::Number("1.5".to_owned())));
    assert!(Json::parse("{not json").is_none());
    assert_eq!(Json::parse_slice(b"[null, false]"), Some(Json::Array(vec![Json::Null, Json::Bool(false)])));
}

#[test]
fn html_texts_of_selected_elements() {
    let page = "<html><head><title>Hello <b>there</b></title></head><body><p>one</p><p>two</p></body></html>";
    assert_eq!(texts(page, "p"), vec!["one".to_owned(), "two".to_owned()]);
    assert_eq!(texts(page, "title"), vec!["Hello <b>there</b>".to_owned()]);
    assert!(texts(page, "[[[").is_empty());
}
