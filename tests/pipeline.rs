use feedflow::feed::{Content, Entry, Feed, Field, Link};
use feedflow::filter::{filter_entries, FilterError, FilterKind};
use feedflow::flow::{feed_io, Flow, RunError, Step};
use feedflow::retrieve::{alternate_link, in_flight_limit, retrieve_entries, selector_is_valid};
use feedflow::slot::{Data, DataKind, SlotState};
use feedflow::tree::{BuildError, Node};

fn entry(id: &str, title: &str, summary: &str) -> Entry {
    Entry {
        id: id.to_string(),
        title: title.to_string(),
        summary: Some(summary.to_string()),
        content: None,
        published: None,
        links: Vec::new(),
    }
}

fn feed_of(entries: Vec<Entry>) -> Feed {
    Feed { id: "urn:feed".to_string(), title: "Feed".to_string(), entries }
}

fn terminal_feed(step: Step) -> Feed {
    match step {
        Step::Done(Some(Data::Feed(f))) => f,
        _ => panic!("the run did not finish with a feed"),
    }
}

/// Runs the flow at `now`, answering fetches with `upstream`; returns the
/// output and how many times the upstream was fetched.
fn run_once(flow: &mut Flow, now: u64, upstream: &Feed) -> (Feed, usize) {
    let mut fetches = 0;
    flow.begin(now);
    loop {
        match flow.step(now) {
            Step::Fetch { .. } => {
                fetches += 1;
                flow.deliver_feed(upstream.duplicate()).unwrap();
            }
            Step::Retrieve { .. } => panic!("no retrieve stage here"),
            done => return (terminal_feed(done), fetches),
        }
    }
}

#[test]
fn build_counts_stages_and_slots() {
    let tree = Node::feed("https://example.org/feed".to_string())
        .filter(Field::Summary, FilterKind::Contains("x".to_string()), false)
        .sanitise(Field::Content)
        .cache(60);
    let flow = Flow::build(&tree, 7).unwrap();
    assert_eq!(flow.stage_count(), 4);
    assert_eq!(flow.uuid(), 7);
    for i in 0..4 {
        assert_eq!(flow.slot_state(i), SlotState::Empty);
    }
}

#[test]
fn build_rejects_bad_selector_and_pattern() {
    let bad_selector = Node::feed("https://example.org/u".to_string()).retrieve("[[".to_string());
    assert!(matches!(Flow::build(&bad_selector, 1), Err(BuildError::InvalidSelector)));
    let bad_pattern = Node::feed("https://example.org/u".to_string()).filter(Field::Title, FilterKind::Matches("(".to_string()), false);
    assert!(matches!(Flow::build(&bad_pattern, 1), Err(BuildError::InvalidPattern)));
    let bad_url = Node::feed("not a url".to_string()).cache(5);
    assert!(matches!(Flow::build(&bad_url, 1), Err(BuildError::InvalidUrl)));
    assert!(selector_is_valid(".entry-content"));
    assert!(!selector_is_valid("[["));
}

#[test]
fn cache_hit_fetches_once() {
    let tree = Node::feed("https://example.org/u".to_string()).cache(3600);
    let mut flow = Flow::build(&tree, 1).unwrap();
    let upstream = feed_of(vec![entry("1", "A", "s")]);
    let (first, n1) = run_once(&mut flow, 1_000, &upstream);
    let (second, n2) = run_once(&mut flow, 1_500, &upstream);
    assert_eq!(n1 + n2, 1);
    assert_eq!(first.entries[0].title, "A");
    assert_eq!(second.entries[0].title, "A");
}

#[test]
fn cache_expiry_fetches_twice() {
    let tree = Node::feed("https://example.org/u".to_string()).cache(1);
    let mut flow = Flow::build(&tree, 1).unwrap();
    let upstream = feed_of(vec![entry("1", "A", "s")]);
    let (first, n1) = run_once(&mut flow, 10_000, &upstream);
    let (second, n2) = run_once(&mut flow, 12_000, &upstream);
    assert_eq!(n1 + n2, 2);
    assert_eq!(first, second);
}

#[test]
fn run_leaves_intermediate_slots_empty() {
    let tree = Node::feed("https://example.org/u".to_string())
        .sanitise(Field::Title)
        .filter(Field::Title, FilterKind::Equals("x".to_string()), true);
    let mut flow = Flow::build(&tree, 1).unwrap();
    let upstream = feed_of(vec![entry("1", "<b>A</b>", "s"), entry("2", "x", "s")]);
    let (out, fetches) = run_once(&mut flow, 0, &upstream);
    assert_eq!(fetches, 1);
    assert_eq!(out.entries.len(), 1);
    assert_eq!(out.entries[0].title, "A");
    assert_eq!(flow.slot_state(0), SlotState::Empty);
    assert_eq!(flow.slot_state(1), SlotState::Empty);
    assert_eq!(flow.slot_state(2), SlotState::Clean);
}

#[test]
fn filter_contains_inverted() {
    let tree = Node::feed("https://example.org/u".to_string()).filter(
        Field::Summary,
        FilterKind::Contains("BELOW IS A SNEAK PEEK".to_string()),
        true,
    );
    let mut flow = Flow::build(&tree, 1).unwrap();
    let upstream = feed_of(vec![
        entry("1", "t", "keep"),
        entry("2", "t", "BELOW IS A SNEAK PEEK drop"),
        entry("3", "t", "keep2"),
    ]);
    let (out, _) = run_once(&mut flow, 0, &upstream);
    let summaries: Vec<String> = out.entries.iter().map(|e| e.summary.clone().unwrap()).collect();
    assert_eq!(summaries, vec!["keep".to_string(), "keep2".to_string()]);
}

#[test]
fn filter_and_inverse_partition() {
    let entries = vec![entry("1", "a", "x1"), entry("2", "b", "y"), entry("3", "c", "x2"), entry("4", "d", "")];
    let kind = FilterKind::Contains("x".to_string());
    let kept = filter_entries(&entries, Field::Summary, &kind, false).unwrap();
    let dropped = filter_entries(&entries, Field::Summary, &kind, true).unwrap();
    assert_eq!(kept.len() + dropped.len(), entries.len());
    assert_eq!(kept.iter().map(|e| e.id.as_str()).collect::<Vec<_>>(), vec!["1", "3"]);
    assert_eq!(dropped.iter().map(|e| e.id.as_str()).collect::<Vec<_>>(), vec!["2", "4"]);
}

#[test]
fn filter_matches_uses_regex() {
    let entries = vec![entry("1", "Episode 12", ""), entry("2", "Trailer", "")];
    let kind = FilterKind::Matches("^Episode [0-9]+$".to_string());
    let kept = filter_entries(&entries, Field::Title, &kind, false).unwrap();
    assert_eq!(kept.len(), 1);
    assert_eq!(kept[0].id, "1");
    let bad = FilterKind::Matches("(".to_string());
    assert_eq!(filter_entries(&entries, Field::Title, &bad, false), Err(FilterError::InvalidPattern));
}

#[test]
fn filter_content_reads_text_without_markup() {
    let mut e = entry("1", "t", "");
    e.content = Some(Content { value: "<p>hello <b>world</b></p>".to_string(), content_type: "html".to_string() });
    let entries = vec![e, entry("2", "t", "")];
    let kind = FilterKind::Contains("hello world".to_string());
    let kept = filter_entries(&entries, Field::Content, &kind, false).unwrap();
    assert_eq!(kept.len(), 1);
    assert_eq!(kept[0].id, "1");
}

fn linked(i: usize) -> Entry {
    let mut e = entry(&i.to_string(), "t", "s");
    e.links.push(Link { rel: "self".to_string(), href: format!("https://example.org/self/{i}") });
    e.links.push(Link { rel: "alternate".to_string(), href: format!("https://example.org/{i}") });
    e
}

#[test]
fn retrieve_fan_out_keeps_order() {
    let tree = Node::feed("https://example.org/u".to_string()).retrieve(".e".to_string());
    let mut flow = Flow::build(&tree, 1).unwrap();
    let upstream = feed_of((0..10).map(linked).collect());
    flow.begin(0);
    assert!(matches!(flow.step(0), Step::Fetch { .. }));
    flow.deliver_feed(upstream).unwrap();
    let links = match flow.step(0) {
        Step::Retrieve { links } => links,
        _ => panic!("expected a retrieve step"),
    };
    assert_eq!(links.len(), 10);
    assert_eq!(in_flight_limit(links.len()), 6);
    let documents: Vec<Option<String>> = links
        .iter()
        .map(|l| {
            let href = l.clone().unwrap();
            let i = href.rsplit('/').next().unwrap().to_string();
            Some(format!("<html><body><div class=\"e\">X_{i}</div><div>no</div></body></html>"))
        })
        .collect();
    flow.deliver_documents(&documents).unwrap();
    let out = terminal_feed(flow.step(0));
    assert_eq!(out.entries.len(), 10);
    for (i, e) in out.entries.iter().enumerate() {
        let c = e.content.as_ref().unwrap();
        assert_eq!(c.value, format!("X_{i}"));
        assert_eq!(c.content_type, "html");
    }
}

#[test]
fn retrieve_passes_entries_without_alternate() {
    let entries = vec![entry("plain", "t", "s"), linked(1)];
    assert_eq!(alternate_link(&entries[0]), None);
    assert_eq!(alternate_link(&entries[1]), Some("https://example.org/1".to_string()));
    let docs = vec![None, Some("<p class=\"e\">body</p>".to_string())];
    let out = retrieve_entries(&entries, &docs, ".e").unwrap();
    assert_eq!(out.len(), 2);
    assert_eq!(out[0], entries[0]);
    assert_eq!(out[1].content.as_ref().unwrap().value, "body");
    assert!(retrieve_entries(&entries, &vec![None, None], ".e").is_err());
}

#[test]
fn deliveries_out_of_turn_are_refused() {
    let tree = Node::feed("https://example.org/u".to_string()).cache(5);
    let mut flow = Flow::build(&tree, 1).unwrap();
    flow.begin(0);
    assert_eq!(flow.deliver_documents(&Vec::new()), Err(RunError::NotAwaiting));
    assert!(matches!(flow.step(0), Step::Fetch { .. }));
    flow.deliver_feed(feed_of(Vec::new())).unwrap();
    assert_eq!(flow.deliver_feed(feed_of(Vec::new())), Err(RunError::NotAwaiting));
}

#[test]
fn slot_protocol() {
    let mut slot = feed_io();
    assert_eq!(slot.kind(), DataKind::Feed);
    assert!(slot.get().is_none());
    assert!(slot.accept(Data::WebSub(vec![1, 2])).is_err());
    slot.accept(Data::Feed(feed_of(Vec::new()))).unwrap();
    assert!(slot.is_dirty());
    assert!(slot.accept(Data::Feed(feed_of(Vec::new()))).is_err());
    assert!(slot.get().is_some());
    assert_eq!(slot.state(), SlotState::Clean);
    assert!(slot.get().is_some());
    slot.clear();
    assert_eq!(slot.state(), SlotState::Empty);
}
