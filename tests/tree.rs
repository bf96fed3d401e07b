use feedflow::feed::Field;
use feedflow::filter::FilterKind;
use feedflow::tree::{field_from, field_name, BuildError, Json, Node};

fn sample() -> Node {
    Node::feed("https://www.azaleaellis.com/tag/pgts/feed".to_string())
        .filter(Field::Description, FilterKind::Contains("BELOW IS A SNEAK PEEK OF THIS CONTENT!".to_string()), true)
        .retrieve(".entry-content".to_string())
        .sanitise(Field::Content)
        .cache(60 * 60)
}

#[test]
fn round_trip_through_json() {
    let tree = sample();
    let json = tree.to_json();
    let back = Node::from_json(&json).unwrap();
    assert_eq!(back, tree);
}

#[test]
fn members_in_any_order_are_read() {
    let json = Json::Object(vec![
        ("child".to_string(), Json::Object(vec![
            ("url".to_string(), Json::Str("u".to_string())),
            ("type".to_string(), Json::Str("Feed".to_string())),
        ])),
        ("ttl".to_string(), Json::Number(30)),
        ("type".to_string(), Json::Str("Cache".to_string())),
    ]);
    assert_eq!(Node::from_json(&json).unwrap(), Node::feed("u".to_string()).cache(30));
}

#[test]
fn malformed_trees_are_rejected() {
    let missing_child = Json::Object(vec![
        ("type".to_string(), Json::Str("Sanitise".to_string())),
        ("field".to_string(), Json::Str("Title".to_string())),
    ]);
    assert_eq!(Node::from_json(&missing_child), Err(BuildError::Malformed));
    let unknown = Json::Object(vec![("type".to_string(), Json::Str("Wasm".to_string()))]);
    assert_eq!(Node::from_json(&unknown), Err(BuildError::Malformed));
    assert_eq!(Node::from_json(&Json::Null), Err(BuildError::Malformed));
}

#[test]
fn field_names() {
    for f in [Field::Title, Field::Summary, Field::Content, Field::Description] {
        assert_eq!(field_from(&field_name(f)), Some(f));
    }
    assert_eq!(field_name(Field::Summary), "Summary");
    assert_eq!(field_from("summary"), None);
}

#[test]
fn serde() {
    let node = Node::feed("https://www.azaleaellis.com/tag/pgts/feed".to_string())
        .filter(Field::Description, FilterKind::Contains("BELOW IS A SNEAK PEEK OF THIS CONTENT!".to_string()), true)
        .retrieve(".entry-content".to_string())
        .sanitise(Field::Content)
        .cache(60 * 60);
    let back = Node::from_json(&node.to_json()).unwrap();
    assert_eq!(back, node);
    let flow = feedflow::flow::Flow::build(&back, 0).unwrap();
    assert_eq!(flow.stage_count(), 5);
}

#[test]
fn mod_test() {
    let node = Node::feed("https://www.azaleaellis.com/tag/pgts/feed/atom".to_string())
        .filter(Field::Summary, FilterKind::Contains("BELOW IS A SNEAK PEEK OF THIS CONTENT!".to_string()), true)
        .retrieve(".entry-content".to_string())
        .sanitise(Field::Content)
        .cache(60);
    let json = node.to_json();
    match &json {
        Json::Object(members) => {
            assert_eq!(members[0].0, "type");
            assert!(matches!(&members[0].1, Json::Str(t) if t == "Cache"));
            assert!(members.iter().any(|(k, v)| k == "ttl" && matches!(v, Json::Number(60))));
        }
        _ => panic!("a node is written as an object"),
    }
    assert_eq!(Node::from_json(&json).unwrap(), node);
}
