//! Content retrieval: which document each entry's full content comes from,
//! and how the fetched documents are folded back into the entries.
use vstd::prelude::*;

use crate::feed::{entries_view, Content, ContentModel, Entry, EntryModel, LinkModel};
use crate::text::text_eq;

verus! {

broadcast use vstd::string::group_string_axioms;

/// The most documents fetched at once for one retrieve node.
pub const MAX_IN_FLIGHT: usize = 6;

/// The CSS selector `css` parses.
pub uninterp spec fn selector_valid(css: Seq<char>) -> bool;

/// The inner HTML of the elements of `document` that `css` selects, in
/// document order, concatenated.
pub uninterp spec fn selected_html(document: Seq<char>, css: Seq<char>) -> Seq<char>;

/// Relies on `scraper::Selector::parse`, which fails exactly on selectors
/// that do not parse, on `scraper::Html::parse_document`, and on
/// `ElementRef::inner_html` of each element that `Html::select` yields in
/// document order; the outcome depends on the document and the selector alone.
#[verifier::external_body]
fn select_inner_html(document: &str, css: &str) -> (r: Option<String>)
    ensures
        r.is_some() == selector_valid(css@),
        r matches Some(s) ==> s@ == selected_html(document@, css@),
{
    let selector = match scraper::Selector::parse(css) {
        Ok(s) => s,
        Err(_) => return None,
    };
    let html = scraper::Html::parse_document(document);
    let mut out = String::new();
    for element in html.select(&selector) {
        out.push_str(&element.inner_html());
    }
    Some(out)
}

/// Whether `css` is a selector that a retrieve node can use.
pub fn selector_is_valid(css: &str) -> (r: bool)
    ensures
        r == selector_valid(css@),
{
    select_inner_html("", css).is_some()
}

/// The content that a fetched document gives an entry, for a valid selector.
pub fn extract_content(document: &str, css: &str) -> (r: String)
    requires
        selector_valid(css@),
    ensures
        r@ == selected_html(document@, css@),
{
    match select_inner_html(document, css) {
        Some(s) => s,
        None => String::new(),
    }
}

/// Member `i` of `links` is the first whose relation is `alternate`.
pub open spec fn first_alternate(links: Seq<LinkModel>, i: int) -> bool {
    &&& 0 <= i < links.len()
    &&& links[i].rel == "alternate"@
    &&& forall|k: int| 0 <= k < i ==> (#[trigger] links[k]).rel != "alternate"@
}

/// The target of the entry's first `alternate` link, if it has one.
pub open spec fn alternate_of(e: EntryModel) -> Option<Seq<char>> {
    if exists|i: int| first_alternate(e.links, i) {
        Some(e.links[choose|i: int| first_alternate(e.links, i)].href)
    } else {
        None
    }
}

/// The entry after retrieval: with an `alternate` link and the fetched
/// `document`, its content is the selected HTML; without such a link it is
/// unchanged.
pub open spec fn enriched(e: EntryModel, document: Seq<char>, css: Seq<char>) -> EntryModel {
    if alternate_of(e) is Some {
        EntryModel {
            content: Some(ContentModel { value: selected_html(document, css), content_type: "html"@ }),
            ..e
        }
    } else {
        e
    }
}

/// The documents needed for `entries` are all there: one per entry, present
/// where the entry has an `alternate` link.
pub open spec fn documents_cover(entries: Seq<EntryModel>, documents: Seq<Option<String>>) -> bool {
    &&& documents.len() == entries.len()
    &&& forall|i: int| 0 <= i < entries.len() && (#[trigger] alternate_of(entries[i])) is Some ==> documents[i] is Some
}

pub open spec fn doc_text(d: Option<String>) -> Seq<char> {
    match d {
        Some(s) => s@,
        None => Seq::empty(),
    }
}

/// How many documents to fetch at once for `n` entries.
pub fn in_flight_limit(n: usize) -> (r: usize)
    ensures
        r == if n < MAX_IN_FLIGHT { n } else { MAX_IN_FLIGHT },
{
    if n < MAX_IN_FLIGHT {
        n
    } else {
        MAX_IN_FLIGHT
    }
}

/// The target of the first `alternate` link of `e`.
pub fn alternate_link(e: &Entry) -> (r: Option<String>)
    ensures
        match r {
            Some(h) => alternate_of(e@) == Some(h@),
            None => alternate_of(e@) is None,
        },
{
    let ghost links = e@.links;
    let mut i: usize = 0;
    while i < e.links.len()
        invariant
            i <= e.links.len(),
            links == e@.links,
            links.len() == e.links.len(),
            forall|k: int| 0 <= k < i ==> (#[trigger] links[k]).rel != "alternate"@,
        decreases e.links.len() - i,
    {
        assert(links[i as int] == e.links@[i as int]@);
        if text_eq(e.links[i].rel.as_str(), "alternate") {
            proof {
                assert(first_alternate(links, i as int));
                let k = choose|k: int| first_alternate(links, k);
                assert(first_alternate(links, k));
                if k < i {
                    assert(links[k].rel != "alternate"@);
                } else if k > i {
                    assert(links[i as int].rel != "alternate"@);
                }
            }
            return Some(e.links[i].href.clone());
        }
        i = i + 1;
    }
    assert forall|k: int| !first_alternate(links, k) by {
        if 0 <= k < links.len() {
            assert(links[k].rel != "alternate"@);
        }
    }
    None
}

/// The document to fetch for each entry, in entry order.
pub fn alternate_links(entries: &Vec<Entry>) -> (r: Vec<Option<String>>)
    ensures
        r.len() == entries.len(),
        forall|i: int| 0 <= i < r.len() ==> match #[trigger] r@[i] {
            Some(h) => alternate_of(entries@[i]@) == Some(h@),
            None => alternate_of(entries@[i]@) is None,
        },
{
    let mut out: Vec<Option<String>> = Vec::new();
    let mut i: usize = 0;
    while i < entries.len()
        invariant
            i <= entries.len(),
            out.len() == i,
            forall|k: int| 0 <= k < i ==> match #[trigger] out@[k] {
                Some(h) => alternate_of(entries@[k]@) == Some(h@),
                None => alternate_of(entries@[k]@) is None,
            },
        decreases entries.len() - i,
    {
        out.push(alternate_link(&entries[i]));
        i = i + 1;
    }
    out
}

#[derive(Debug, PartialEq, Eq, Structural)]
pub enum RetrieveError {
    /// The documents do not match the entries one for one.
    MissingDocument,
}

/// Folds the fetched documents into the entries: entry `i` takes its
/// content from document `i`. Order and count are kept.
pub fn retrieve_entries(entries: &Vec<Entry>, documents: &Vec<Option<String>>, css: &str) -> (r: Result<
    Vec<Entry>,
    RetrieveError,
>)
    requires
        selector_valid(css@),
    ensures
        r is Ok <==> documents_cover(entries_view(entries@), documents@),
        r matches Ok(v) ==> {
            &&& v.len() == entries.len()
            &&& forall|i: int| 0 <= i < v.len() ==> (#[trigger] v@[i])@ == enriched(entries@[i]@, doc_text(documents@[i]), css@)
        },
{
    if documents.len() != entries.len() {
        return Err(RetrieveError::MissingDocument);
    }
    let mut out: Vec<Entry> = Vec::new();
    let mut i: usize = 0;
    while i < entries.len()
        invariant
            selector_valid(css@),
            documents.len() == entries.len(),
            i <= entries.len(),
            out.len() == i,
            forall|k: int| 0 <= k < i ==> (#[trigger] alternate_of(entries@[k]@)) is Some ==> documents@[k] is Some,
            forall|k: int| 0 <= k < i ==> (#[trigger] out@[k])@ == enriched(entries@[k]@, doc_text(documents@[k]), css@),
        decreases entries.len() - i,
    {
        let e = &entries[i];
        match alternate_link(e) {
            None => out.push(e.duplicate()),
            Some(_) => match &documents[i] {
                None => {
                    proof {
                        assert(alternate_of(entries_view(entries@)[i as int]) is Some);
                    }
                    return Err(RetrieveError::MissingDocument);
                },
                Some(d) => {
                    let value = extract_content(d.as_str(), css);
                    let c = e.duplicate();
                    let Entry { id, title, summary, content: _, published, links } = c;
                    let content = Some(Content { value, content_type: "html".to_string() });
                    out.push(Entry { id, title, summary, content, published, links });
                },
            },
        }
        i = i + 1;
    }
    proof {
        assert forall|k: int| 0 <= k < entries.len() && (#[trigger] alternate_of(entries_view(entries@)[k])) is Some
            implies documents@[k] is Some by {
            assert(entries_view(entries@)[k] == entries@[k]@);
        }
    }
    Ok(out)
}

} // verus!
