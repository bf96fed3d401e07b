use feedflow::cache::CacheState;
use feedflow::feed::{Content, Entry, Feed, Field};
use feedflow::flow::sanitise_feed;
use feedflow::text::{sanitise_text, text_contains, text_eq};

#[test]
fn sanitise_strips_markup() {
    assert_eq!(sanitise_text("<p onclick=\"x()\">Hi <b>there</b></p><script>"), "Hi there");
    assert_eq!(sanitise_text("a < b"), "a ");
    assert_eq!(sanitise_text("plain"), "plain");
    assert_eq!(sanitise_text(""), "");
    assert_eq!(sanitise_text("a<script>alert(1)</script>b<STYLE>p{}</style>c"), "abc");
    assert_eq!(sanitise_text("x<script src=\"y\">if (a < b) {}</SCRIPT >z"), "xz");
}

#[test]
fn sanitise_is_idempotent() {
    for s in ["<a href='x'>link</a> text", "x > y", "<<b>>", "é <i>ü</i>", "<script>x</script>y", "<style"] {
        let once = sanitise_text(s);
        assert_eq!(sanitise_text(&once), once);
    }
}

#[test]
fn sanitise_feed_rewrites_one_field() {
    let e = Entry {
        id: "1".to_string(),
        title: "<b>T</b>".to_string(),
        summary: None,
        content: Some(Content { value: "<p>C</p>".to_string(), content_type: "html".to_string() }),
        published: Some(5),
        links: Vec::new(),
    };
    let f = Feed { id: "f".to_string(), title: "F".to_string(), entries: vec![e] };
    let out = sanitise_feed(&f, Field::Content);
    assert_eq!(out.entries[0].title, "<b>T</b>");
    assert_eq!(out.entries[0].content.as_ref().unwrap().value, "C");
    assert_eq!(out.entries[0].summary, None);
    let twice = sanitise_feed(&out, Field::Content);
    assert_eq!(twice, out);
}

#[test]
fn substring_search() {
    assert!(text_contains("BELOW IS A SNEAK PEEK drop", "SNEAK PEEK"));
    assert!(text_contains("abc", ""));
    assert!(!text_contains("ab", "abc"));
    assert!(!text_contains("abc", "abd"));
    assert!(text_eq("x", "x"));
    assert!(!text_eq("x", "y"));
}

#[test]
fn cache_freshness() {
    let mut c = CacheState::new(2);
    assert!(!c.is_fresh(0));
    let f = Feed { id: "f".to_string(), title: "F".to_string(), entries: Vec::new() };
    c.store(&f, 10_000);
    assert!(c.is_fresh(10_000));
    assert!(c.is_fresh(11_999));
    assert!(!c.is_fresh(12_000));
    assert!(c.is_fresh(5_000));
    assert_eq!(c.lookup(11_000), Some(f));
    assert_eq!(c.lookup(13_000), None);
}
