//! The node tree, the serialized form of a flow, and its JSON encoding.
use vstd::prelude::*;

use crate::feed::Field;
use crate::filter::FilterKind;
use crate::text::text_eq;

verus! {

broadcast use {vstd::std_specs::vec::axiom_vec_index_decreases, vstd::string::group_string_axioms};

/// A JSON value, as the wire form of a node tree is written.
pub enum Json {
    Null,
    Bool(bool),
    /// A non-negative integer; other numbers do not occur in node trees.
    Number(u64),
    Str(String),
    Array(Vec<Json>),
    /// Members in their written order.
    Object(Vec<(String, Json)>),
}

/// The recursive tree in which a flow is written: each non-leaf node carries
/// its configuration and its child; the leaf is a feed.
#[derive(Debug, PartialEq)]
pub enum Node {
    Cache { ttl: u64, child: Box<Node> },
    Feed { url: String },
    Filter { field: Field, filter: FilterKind, invert: bool, child: Box<Node> },
    Retrieve { content: String, child: Box<Node> },
    Sanitise { field: Field, child: Box<Node> },
}

pub enum KindModel {
    Contains(Seq<char>),
    Equals(Seq<char>),
    Matches(Seq<char>),
}

pub enum NodeModel {
    Cache { ttl: u64, child: Box<NodeModel> },
    Feed { url: Seq<char> },
    Filter { field: Field, kind: KindModel, invert: bool, child: Box<NodeModel> },
    Retrieve { content: Seq<char>, child: Box<NodeModel> },
    Sanitise { field: Field, child: Box<NodeModel> },
}

pub open spec fn kind_view(k: FilterKind) -> KindModel {
    match k {
        FilterKind::Contains(s) => KindModel::Contains(s@),
        FilterKind::Equals(s) => KindModel::Equals(s@),
        FilterKind::Matches(s) => KindModel::Matches(s@),
    }
}

pub open spec fn node_view(n: Node) -> NodeModel
    decreases n,
{
    match n {
        Node::Cache { ttl, child } => NodeModel::Cache { ttl, child: Box::new(node_view(*child)) },
        Node::Feed { url } => NodeModel::Feed { url: url@ },
        Node::Filter { field, filter, invert, child } => NodeModel::Filter {
            field,
            kind: kind_view(filter),
            invert,
            child: Box::new(node_view(*child)),
        },
        Node::Retrieve { content, child } => NodeModel::Retrieve { content: content@, child: Box::new(node_view(*child)) },
        Node::Sanitise { field, child } => NodeModel::Sanitise { field, child: Box::new(node_view(*child)) },
    }
}

impl View for Node {
    type V = NodeModel;

    open spec fn view(&self) -> NodeModel {
        node_view(*self)
    }
}

/// The number of nodes in the tree.
pub open spec fn tree_size(m: NodeModel) -> nat
    decreases m,
{
    match m {
        NodeModel::Feed { .. } => 1,
        NodeModel::Cache { child, .. } => 1 + tree_size(*child),
        NodeModel::Filter { child, .. } => 1 + tree_size(*child),
        NodeModel::Retrieve { child, .. } => 1 + tree_size(*child),
        NodeModel::Sanitise { child, .. } => 1 + tree_size(*child),
    }
}

/// `s` parses as an absolute URL.
pub uninterp spec fn url_valid(s: Seq<char>) -> bool;

/// Relies on `url::Url::parse`, which succeeds exactly on absolute URLs that
/// parse; the outcome depends on the text alone.
#[verifier::external_body]
fn url_parses(s: &str) -> (r: bool)
    ensures
        r == url_valid(s@),
{
    url::Url::parse(s).is_ok()
}

/// Whether `s` is a URL that a feed node can fetch.
pub fn url_is_valid(s: &str) -> (r: bool)
    ensures
        r == url_valid(s@),
{
    url_parses(s)
}

/// Member `i` of `ms` is the first one named `key`.
pub open spec fn first_with_key(ms: Seq<(String, Json)>, key: Seq<char>, i: int) -> bool {
    &&& 0 <= i < ms.len()
    &&& ms[i].0@ == key
    &&& forall|k: int| 0 <= k < i ==> (#[trigger] ms[k]).0@ != key
}

pub open spec fn has_key(ms: Seq<(String, Json)>, key: Seq<char>) -> bool {
    exists|i: int| first_with_key(ms, key, i)
}

/// The value of the first member of `j` named `key`, if `j` is an object
/// that has one.
pub open spec fn member(j: Json, key: Seq<char>) -> Option<Json> {
    match j {
        Json::Object(ms) => if has_key(ms@, key) {
            Some(ms@[choose|i: int| first_with_key(ms@, key, i)].1)
        } else {
            None
        },
        _ => None,
    }
}

pub open spec fn str_member(j: Json, key: Seq<char>) -> Option<Seq<char>> {
    match member(j, key) {
        Some(Json::Str(s)) => Some(s@),
        _ => None,
    }
}

pub open spec fn field_named(s: Seq<char>) -> Option<Field> {
    if s == "Title"@ {
        Some(Field::Title)
    } else if s == "Summary"@ {
        Some(Field::Summary)
    } else if s == "Content"@ {
        Some(Field::Content)
    } else if s == "Description"@ {
        Some(Field::Description)
    } else {
        None
    }
}

/// A filter kind is written as an object whose one member names the kind
/// and holds its text.
pub open spec fn decode_kind(j: Json) -> Option<KindModel> {
    if str_member(j, "Contains"@) is Some {
        Some(KindModel::Contains(str_member(j, "Contains"@).unwrap()))
    } else if str_member(j, "Equals"@) is Some {
        Some(KindModel::Equals(str_member(j, "Equals"@).unwrap()))
    } else if str_member(j, "Matches"@) is Some {
        Some(KindModel::Matches(str_member(j, "Matches"@).unwrap()))
    } else {
        None
    }
}

/// The tree that the JSON value `j` writes, if it writes one: an object
/// tagged by its `type` member, with the configuration of that node kind
/// and, but for a feed, a `child` tree.
pub open spec fn decode_tree(j: Json) -> Option<NodeModel>
    decreases j,
{
    match j {
        Json::Object(ms) => {
            let tag = str_member(j, "type"@);
            if tag == Some("Feed"@) {
                match str_member(j, "url"@) {
                    Some(u) => Some(NodeModel::Feed { url: u }),
                    None => None,
                }
            } else if has_key(ms@, "child"@) {
                let i = choose|i: int| first_with_key(ms@, "child"@, i);
                match decode_tree(ms@[i].1) {
                    None => None,
                    Some(c) => {
                        let child = Box::new(c);
                        if tag == Some("Cache"@) {
                            match member(j, "ttl"@) {
                                Some(Json::Number(t)) => Some(NodeModel::Cache { ttl: t, child }),
                                _ => None,
                            }
                        } else if tag == Some("Filter"@) {
                            match (str_member(j, "field"@), member(j, "filter"@), member(j, "invert"@)) {
                                (Some(f), Some(k), Some(Json::Bool(inv))) => match (field_named(f), decode_kind(k)) {
                                    (Some(field), Some(kind)) => Some(NodeModel::Filter { field, kind, invert: inv, child }),
                                    _ => None,
                                },
                                _ => None,
                            }
                        } else if tag == Some("Retrieve"@) {
                            match str_member(j, "content"@) {
                                Some(c) => Some(NodeModel::Retrieve { content: c, child }),
                                None => None,
                            }
                        } else if tag == Some("Sanitise"@) {
                            match str_member(j, "field"@) {
                                Some(f) => match field_named(f) {
                                    Some(field) => Some(NodeModel::Sanitise { field, child }),
                                    None => None,
                                },
                                None => None,
                            }
                        } else {
                            None
                        }
                    },
                }
            } else {
                None
            }
        },
        _ => None,
    }
}

#[derive(Debug, PartialEq, Eq, Structural)]
pub enum BuildError {
    /// The wire form does not write a node tree.
    Malformed,
    /// A retrieve node's selector does not parse.
    InvalidSelector,
    /// A feed's URL does not parse.
    InvalidUrl,
    /// A filter's regular expression does not compile.
    InvalidPattern,
}

proof fn lemma_first_unique(ms: Seq<(String, Json)>, key: Seq<char>, i: int, k: int)
    requires
        first_with_key(ms, key, i),
        first_with_key(ms, key, k),
    ensures
        i == k,
{
    if i < k {
        assert(ms[i].0@ != key);
    } else if k < i {
        assert(ms[k].0@ != key);
    }
}

proof fn lemma_member_at(ms: Seq<(String, Json)>, key: Seq<char>, i: int)
    requires
        first_with_key(ms, key, i),
    ensures
        has_key(ms, key),
        (choose|k: int| first_with_key(ms, key, k)) == i,
{
    let k = choose|k: int| first_with_key(ms, key, k);
    lemma_first_unique(ms, key, i, k);
}

fn find_member(ms: &Vec<(String, Json)>, key: &str) -> (r: Option<usize>)
    ensures
        match r {
            Some(i) => first_with_key(ms@, key@, i as int),
            None => !has_key(ms@, key@),
        },
{
    let mut i: usize = 0;
    while i < ms.len()
        invariant
            i <= ms.len(),
            forall|k: int| 0 <= k < i ==> (#[trigger] ms@[k]).0@ != key@,
        decreases ms.len() - i,
    {
        if text_eq(ms[i].0.as_str(), key) {
            return Some(i);
        }
        i = i + 1;
    }
    assert forall|k: int| !first_with_key(ms@, key@, k) by {
        if 0 <= k < ms.len() {
            assert(ms@[k].0@ != key@);
        }
    }
    None
}

fn get_member<'a>(j: &'a Json, key: &str) -> (r: Option<&'a Json>)
    ensures
        match r {
            Some(v) => member(*j, key@) == Some(*v),
            None => member(*j, key@) is None,
        },
{
    match j {
        Json::Object(ms) => match find_member(ms, key) {
            Some(i) => {
                proof {
                    lemma_member_at(ms@, key@, i as int);
                }
                Some(&ms[i].1)
            },
            None => None,
        },
        _ => None,
    }
}

fn get_str<'a>(j: &'a Json, key: &str) -> (r: Option<&'a String>)
    ensures
        match r {
            Some(v) => str_member(*j, key@) == Some(v@),
            None => str_member(*j, key@) is None,
        },
{
    match get_member(j, key) {
        Some(Json::Str(s)) => Some(s),
        _ => None,
    }
}

/// The field that `s` names, if any.
pub fn field_from(s: &str) -> (r: Option<Field>)
    ensures
        r == field_named(s@),
{
    if text_eq(s, "Title") {
        Some(Field::Title)
    } else if text_eq(s, "Summary") {
        Some(Field::Summary)
    } else if text_eq(s, "Content") {
        Some(Field::Content)
    } else if text_eq(s, "Description") {
        Some(Field::Description)
    } else {
        None
    }
}

proof fn lemma_field_names_distinct()
    ensures
        "Summary"@ != "Title"@,
        "Content"@ != "Title"@,
        "Content"@ != "Summary"@,
        "Description"@ != "Title"@,
        "Description"@ != "Summary"@,
        "Description"@ != "Content"@,
{
    reveal_strlit("Title");
    reveal_strlit("Summary");
    reveal_strlit("Content");
    reveal_strlit("Description");
    assert("Summary"@.len() != "Title"@.len());
    assert("Content"@.len() != "Title"@.len());
    assert("Content"@[0] != "Summary"@[0]);
    assert("Description"@.len() != "Title"@.len());
    assert("Description"@.len() != "Summary"@.len());
    assert("Description"@.len() != "Content"@.len());
}

/// The name under which `f` is written.
pub fn field_name(f: Field) -> (r: String)
    ensures
        field_named(r@) == Some(f),
{
    proof {
        lemma_field_names_distinct();
    }
    match f {
        Field::Title => "Title".to_string(),
        Field::Summary => "Summary".to_string(),
        Field::Content => "Content".to_string(),
        Field::Description => "Description".to_string(),
    }
}

fn kind_from_json(j: &Json) -> (r: Option<FilterKind>)
    ensures
        match r {
            Some(k) => decode_kind(*j) == Some(kind_view(k)),
            None => decode_kind(*j) is None,
        },
{
    if let Some(s) = get_str(j, "Contains") {
        Some(FilterKind::Contains(s.clone()))
    } else if let Some(s) = get_str(j, "Equals") {
        Some(FilterKind::Equals(s.clone()))
    } else if let Some(s) = get_str(j, "Matches") {
        Some(FilterKind::Matches(s.clone()))
    } else {
        None
    }
}

proof fn lemma_wire_names_distinct()
    ensures
        "url"@ != "type"@,
        "ttl"@ != "type"@,
        "child"@ != "type"@,
        "child"@ != "ttl"@,
        "child"@ != "field"@,
        "child"@ != "filter"@,
        "child"@ != "invert"@,
        "child"@ != "content"@,
        "field"@ != "type"@,
        "filter"@ != "type"@,
        "filter"@ != "field"@,
        "invert"@ != "type"@,
        "invert"@ != "field"@,
        "invert"@ != "filter"@,
        "content"@ != "type"@,
        "Cache"@ != "Feed"@,
        "Filter"@ != "Feed"@,
        "Filter"@ != "Cache"@,
        "Retrieve"@ != "Feed"@,
        "Retrieve"@ != "Cache"@,
        "Retrieve"@ != "Filter"@,
        "Sanitise"@ != "Feed"@,
        "Sanitise"@ != "Cache"@,
        "Sanitise"@ != "Filter"@,
        "Sanitise"@ != "Retrieve"@,
        "Equals"@ != "Contains"@,
        "Matches"@ != "Contains"@,
        "Matches"@ != "Equals"@,
{
    reveal_strlit("url");
    reveal_strlit("type");
    reveal_strlit("ttl");
    reveal_strlit("child");
    reveal_strlit("field");
    reveal_strlit("filter");
    reveal_strlit("invert");
    reveal_strlit("content");
    reveal_strlit("Feed");
    reveal_strlit("Cache");
    reveal_strlit("Filter");
    reveal_strlit("Retrieve");
    reveal_strlit("Sanitise");
    reveal_strlit("Contains");
    reveal_strlit("Equals");
    reveal_strlit("Matches");
    assert("child"@[0] != "field"@[0]);
    assert("filter"@[0] != "invert"@[0]);
    assert("Retrieve"@[0] != "Sanitise"@[0]);
    assert("ttl"@.len() != "type"@.len());
    assert("url"@.len() != "type"@.len());
    assert("child"@.len() != "type"@.len());
    assert("child"@.len() != "ttl"@.len());
    assert("child"@.len() != "filter"@.len());
    assert("child"@.len() != "invert"@.len());
    assert("child"@.len() != "content"@.len());
    assert("field"@.len() != "type"@.len());
    assert("filter"@.len() != "type"@.len());
    assert("filter"@.len() != "field"@.len());
    assert("invert"@.len() != "type"@.len());
    assert("invert"@.len() != "field"@.len());
    assert("content"@.len() != "type"@.len());
    assert("Cache"@.len() != "Feed"@.len());
    assert("Filter"@.len() != "Feed"@.len());
    assert("Filter"@.len() != "Cache"@.len());
    assert("Retrieve"@.len() != "Feed"@.len());
    assert("Retrieve"@.len() != "Cache"@.len());
    assert("Retrieve"@.len() != "Filter"@.len());
    assert("Sanitise"@.len() != "Feed"@.len());
    assert("Sanitise"@.len() != "Cache"@.len());
    assert("Sanitise"@.len() != "Filter"@.len());
    assert("Equals"@.len() != "Contains"@.len());
    assert("Matches"@.len() != "Contains"@.len());
    assert("Matches"@.len() != "Equals"@.len());
}

proof fn lemma_no_key(ms: Seq<(String, Json)>, key: Seq<char>)
    requires
        forall|k: int| 0 <= k < ms.len() ==> (#[trigger] ms[k]).0@ != key,
    ensures
        !has_key(ms, key),
{
    assert forall|i: int| !first_with_key(ms, key, i) by {
        if 0 <= i < ms.len() {
            assert(ms[i].0@ != key);
        }
    }
}

fn kind_to_json(k: &FilterKind) -> (r: Json)
    ensures
        decode_kind(r) == Some(kind_view(*k)),
{
    proof {
        lemma_wire_names_distinct();
    }
    let (name, text) = match k {
        FilterKind::Contains(p) => ("Contains".to_string(), p.clone()),
        FilterKind::Equals(p) => ("Equals".to_string(), p.clone()),
        FilterKind::Matches(p) => ("Matches".to_string(), p.clone()),
    };
    let ghost key = name@;
    let ms: Vec<(String, Json)> = vec![(name, Json::Str(text))];
    proof {
        lemma_member_at(ms@, key, 0);
        if key != "Contains"@ {
            lemma_no_key(ms@, "Contains"@);
        }
        if key != "Equals"@ {
            lemma_no_key(ms@, "Equals"@);
        }
    }
    Json::Object(ms)
}

impl Node {
    /// The leaf: the feed at `url`.
    pub fn feed(url: String) -> (r: Node)
        ensures
            r@ == (NodeModel::Feed { url: url@ }),
    {
        Node::Feed { url }
    }

    /// This tree, cached for `ttl` seconds.
    pub fn cache(self, ttl: u64) -> (r: Node)
        ensures
            r@ == (NodeModel::Cache { ttl, child: Box::new(self@) }),
    {
        Node::Cache { ttl, child: Box::new(self) }
    }

    /// This tree, keeping the entries whose `field` satisfies `filter` (or
    /// fails it, when `invert`).
    pub fn filter(self, field: Field, filter: FilterKind, invert: bool) -> (r: Node)
        ensures
            r@ == (NodeModel::Filter { field, kind: kind_view(filter), invert, child: Box::new(self@) }),
    {
        Node::Filter { field, filter, invert, child: Box::new(self) }
    }

    /// This tree, with each entry's content retrieved with the selector `content`.
    pub fn retrieve(self, content: String) -> (r: Node)
        ensures
            r@ == (NodeModel::Retrieve { content: content@, child: Box::new(self@) }),
    {
        Node::Retrieve { content, child: Box::new(self) }
    }

    /// This tree, with `field` of each entry sanitised.
    pub fn sanitise(self, field: Field) -> (r: Node)
        ensures
            r@ == (NodeModel::Sanitise { field, child: Box::new(self@) }),
    {
        Node::Sanitise { field, child: Box::new(self) }
    }

    /// Writes the tree in its JSON form, which reads back as the same tree.
    pub fn to_json(&self) -> (r: Json)
        ensures
            decode_tree(r) == Some(self@),
        decreases self,
    {
        proof {
            lemma_wire_names_distinct();
        }
        match self {
            Node::Feed { url } => {
                let ms: Vec<(String, Json)> = vec![
                    ("type".to_string(), Json::Str("Feed".to_string())),
                    ("url".to_string(), Json::Str(url.clone())),
                ];
                proof {
                    lemma_member_at(ms@, "type"@, 0);
                    lemma_member_at(ms@, "url"@, 1);
                }
                Json::Object(ms)
            },
            Node::Cache { ttl, child } => {
                let c = child.to_json();
                let ms: Vec<(String, Json)> = vec![
                    ("type".to_string(), Json::Str("Cache".to_string())),
                    ("ttl".to_string(), Json::Number(*ttl)),
                    ("child".to_string(), c),
                ];
                proof {
                    lemma_member_at(ms@, "type"@, 0);
                    lemma_member_at(ms@, "ttl"@, 1);
                    lemma_member_at(ms@, "child"@, 2);
                }
                Json::Object(ms)
            },
            Node::Filter { field, filter, invert, child } => {
                let c = child.to_json();
                let ms: Vec<(String, Json)> = vec![
                    ("type".to_string(), Json::Str("Filter".to_string())),
                    ("field".to_string(), Json::Str(field_name(*field))),
                    ("filter".to_string(), kind_to_json(filter)),
                    ("invert".to_string(), Json::Bool(*invert)),
                    ("child".to_string(), c),
                ];
                proof {
                    lemma_member_at(ms@, "type"@, 0);
                    lemma_member_at(ms@, "field"@, 1);
                    lemma_member_at(ms@, "filter"@, 2);
                    lemma_member_at(ms@, "invert"@, 3);
                    lemma_member_at(ms@, "child"@, 4);
                }
                Json::Object(ms)
            },
            Node::Retrieve { content, child } => {
                let c = child.to_json();
                let ms: Vec<(String, Json)> = vec![
                    ("type".to_string(), Json::Str("Retrieve".to_string())),
                    ("content".to_string(), Json::Str(content.clone())),
                    ("child".to_string(), c),
                ];
                proof {
                    lemma_member_at(ms@, "type"@, 0);
                    lemma_member_at(ms@, "content"@, 1);
                    lemma_member_at(ms@, "child"@, 2);
                }
                Json::Object(ms)
            },
            Node::Sanitise { field, child } => {
                let c = child.to_json();
                let ms: Vec<(String, Json)> = vec![
                    ("type".to_string(), Json::Str("Sanitise".to_string())),
                    ("field".to_string(), Json::Str(field_name(*field))),
                    ("child".to_string(), c),
                ];
                proof {
                    lemma_member_at(ms@, "type"@, 0);
                    lemma_member_at(ms@, "field"@, 1);
                    lemma_member_at(ms@, "child"@, 2);
                }
                Json::Object(ms)
            },
        }
    }

    /// Reads a node tree from its JSON form.
    pub fn from_json(j: &Json) -> (r: Result<Node, BuildError>)
        ensures
            match r {
                Ok(n) => decode_tree(*j) == Some(n@),
                Err(e) => decode_tree(*j) is None && e == BuildError::Malformed,
            },
        decreases j,
    {
        let ms = match j {
            Json::Object(ms) => ms,
            _ => return Err(BuildError::Malformed),
        };
        let tag = match get_str(j, "type") {
            Some(t) => t,
            None => {
                proof {
                    reveal_strlit("Feed");
                }
                return Err(BuildError::Malformed);
            },
        };
        if text_eq(tag.as_str(), "Feed") {
            return match get_str(j, "url") {
                Some(u) => Ok(Node::Feed { url: u.clone() }),
                None => Err(BuildError::Malformed),
            };
        }
        let ci = match find_member(ms, "child") {
            Some(i) => i,
            None => return Err(BuildError::Malformed),
        };
        proof {
            lemma_member_at(ms@, "child"@, ci as int);
        }
        let child = match Node::from_json(&ms[ci].1) {
            Ok(c) => Box::new(c),
            Err(e) => return Err(e),
        };
        if text_eq(tag.as_str(), "Cache") {
            match get_member(j, "ttl") {
                Some(Json::Number(t)) => Ok(Node::Cache { ttl: *t, child }),
                _ => Err(BuildError::Malformed),
            }
        } else if text_eq(tag.as_str(), "Filter") {
            let f = match get_str(j, "field") {
                Some(f) => f,
                None => return Err(BuildError::Malformed),
            };
            let k = match get_member(j, "filter") {
                Some(k) => k,
                None => return Err(BuildError::Malformed),
            };
            let invert = match get_member(j, "invert") {
                Some(Json::Bool(b)) => *b,
                _ => return Err(BuildError::Malformed),
            };
            match (field_from(f.as_str()), kind_from_json(k)) {
                (Some(field), Some(filter)) => Ok(Node::Filter { field, filter, invert, child }),
                _ => Err(BuildError::Malformed),
            }
        } else if text_eq(tag.as_str(), "Retrieve") {
            match get_str(j, "content") {
                Some(c) => Ok(Node::Retrieve { content: c.clone(), child }),
                None => Err(BuildError::Malformed),
            }
        } else if text_eq(tag.as_str(), "Sanitise") {
            match get_str(j, "field") {
                Some(f) => match field_from(f.as_str()) {
                    Some(field) => Ok(Node::Sanitise { field, child }),
                    None => Err(BuildError::Malformed),
                },
                None => Err(BuildError::Malformed),
            }
        } else {
            Err(BuildError::Malformed)
        }
    }
}

} // verus!
