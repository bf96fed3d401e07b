//! The feed model that flows operate on: entries with named text fields.
use vstd::prelude::*;

use crate::text::{sanitise_text, strip_markup};

verus! {

/// A link of an entry, tagged with its relation (`alternate`, `self`, ...).
#[derive(Debug, PartialEq)]
pub struct Link {
    pub rel: String,
    pub href: String,
}

/// Typed entry content: its text and its type (`text`, `html`).
#[derive(Debug, PartialEq)]
pub struct Content {
    pub value: String,
    pub content_type: String,
}

#[derive(Debug, PartialEq)]
pub struct Entry {
    pub id: String,
    pub title: String,
    pub summary: Option<String>,
    pub content: Option<Content>,
    /// Publication time, in seconds since the Unix epoch.
    pub published: Option<i64>,
    pub links: Vec<Link>,
}

/// An ordered collection of entries with the channel's own metadata.
#[derive(Debug, PartialEq)]
pub struct Feed {
    pub id: String,
    pub title: String,
    pub entries: Vec<Entry>,
}

/// The entry fields that nodes read and rewrite.
#[derive(Clone, Copy, Debug, PartialEq, Eq, Structural)]
pub enum Field {
    Title,
    Summary,
    Content,
    /// A synonym of `Summary`, kept for legacy feeds.
    Description,
}

pub struct LinkModel {
    pub rel: Seq<char>,
    pub href: Seq<char>,
}

pub struct ContentModel {
    pub value: Seq<char>,
    pub content_type: Seq<char>,
}

pub struct EntryModel {
    pub id: Seq<char>,
    pub title: Seq<char>,
    pub summary: Option<Seq<char>>,
    pub content: Option<ContentModel>,
    pub published: Option<i64>,
    pub links: Seq<LinkModel>,
}

pub struct FeedModel {
    pub id: Seq<char>,
    pub title: Seq<char>,
    pub entries: Seq<EntryModel>,
}

impl View for Link {
    type V = LinkModel;

    open spec fn view(&self) -> LinkModel {
        LinkModel { rel: self.rel@, href: self.href@ }
    }
}

impl View for Content {
    type V = ContentModel;

    open spec fn view(&self) -> ContentModel {
        ContentModel { value: self.value@, content_type: self.content_type@ }
    }
}

pub open spec fn opt_view(s: Option<String>) -> Option<Seq<char>> {
    match s {
        Some(t) => Some(t@),
        None => None,
    }
}

pub open spec fn links_view(s: Seq<Link>) -> Seq<LinkModel> {
    s.map_values(|l: Link| l@)
}

pub open spec fn entries_view(s: Seq<Entry>) -> Seq<EntryModel> {
    s.map_values(|e: Entry| e@)
}

impl View for Entry {
    type V = EntryModel;

    open spec fn view(&self) -> EntryModel {
        EntryModel {
            id: self.id@,
            title: self.title@,
            summary: opt_view(self.summary),
            content: match self.content {
                Some(c) => Some(c@),
                None => None,
            },
            published: self.published,
            links: links_view(self.links@),
        }
    }
}

impl View for Feed {
    type V = FeedModel;

    open spec fn view(&self) -> FeedModel {
        FeedModel { id: self.id@, title: self.title@, entries: entries_view(self.entries@) }
    }
}

pub open spec fn opt_text(s: Option<Seq<char>>) -> Seq<char> {
    match s {
        Some(t) => t,
        None => Seq::empty(),
    }
}

/// The text that a predicate sees for `field` of `e`; a missing field reads
/// as the empty text and content is read without its markup.
pub open spec fn field_text(e: EntryModel, field: Field) -> Seq<char> {
    match field {
        Field::Title => e.title,
        Field::Summary | Field::Description => opt_text(e.summary),
        Field::Content => match e.content {
            Some(c) => strip_markup(c.value),
            None => Seq::empty(),
        },
    }
}

pub open spec fn strip_opt(s: Option<Seq<char>>) -> Option<Seq<char>> {
    match s {
        Some(t) => Some(strip_markup(t)),
        None => None,
    }
}

/// `e` with `field` passed through the sanitiser; a missing field stays missing.
pub open spec fn sanitised(e: EntryModel, field: Field) -> EntryModel {
    match field {
        Field::Title => EntryModel { title: strip_markup(e.title), ..e },
        Field::Summary | Field::Description => EntryModel { summary: strip_opt(e.summary), ..e },
        Field::Content => EntryModel {
            content: match e.content {
                Some(c) => Some(ContentModel { value: strip_markup(c.value), ..c }),
                None => None,
            },
            ..e
        },
    }
}

/// Sanitising an entry twice gives what sanitising it once gives.
pub proof fn lemma_sanitise_idempotent(e: EntryModel, field: Field)
    ensures
        sanitised(sanitised(e, field), field) == sanitised(e, field),
{
    crate::text::lemma_strip_idempotent(e.title);
    if e.summary.is_some() {
        crate::text::lemma_strip_idempotent(e.summary.unwrap());
    }
    if e.content.is_some() {
        crate::text::lemma_strip_idempotent(e.content.unwrap().value);
    }
}

/// Passes `field` of `e` through the sanitiser.
pub fn sanitise_entry(e: Entry, field: Field) -> (r: Entry)
    ensures
        r@ == sanitised(e@, field),
{
    let Entry { id, title, summary, content, published, links } = e;
    match field {
        Field::Title => {
            let title = sanitise_text(title.as_str());
            Entry { id, title, summary, content, published, links }
        },
        Field::Summary | Field::Description => {
            let summary = match summary {
                Some(s) => Some(sanitise_text(s.as_str())),
                None => None,
            };
            Entry { id, title, summary, content, published, links }
        },
        Field::Content => {
            let content = match content {
                Some(c) => Some(Content { value: sanitise_text(c.value.as_str()), content_type: c.content_type }),
                None => None,
            };
            Entry { id, title, summary, content, published, links }
        },
    }
}

/// The text that a predicate reads for `field` of `e`.
pub fn read_field(e: &Entry, field: Field) -> (r: String)
    ensures
        r@ == field_text(e@, field),
{
    match field {
        Field::Title => e.title.clone(),
        Field::Summary | Field::Description => match &e.summary {
            Some(s) => s.clone(),
            None => String::new(),
        },
        Field::Content => match &e.content {
            Some(c) => sanitise_text(c.value.as_str()),
            None => String::new(),
        },
    }
}

impl Link {
    pub fn duplicate(&self) -> (r: Link)
        ensures
            r@ == self@,
    {
        Link { rel: self.rel.clone(), href: self.href.clone() }
    }
}

fn duplicate_text(s: &Option<String>) -> (r: Option<String>)
    ensures
        opt_view(r) == opt_view(*s),
{
    match s {
        Some(t) => Some(t.clone()),
        None => None,
    }
}

impl Entry {
    pub fn duplicate(&self) -> (r: Entry)
        ensures
            r@ == self@,
    {
        let mut links: Vec<Link> = Vec::new();
        let mut i: usize = 0;
        while i < self.links.len()
            invariant
                i <= self.links.len(),
                links.len() == i,
                forall|k: int| 0 <= k < i ==> #[trigger] links@[k]@ == self.links@[k]@,
            decreases self.links.len() - i,
        {
            links.push(self.links[i].duplicate());
            i = i + 1;
        }
        assert(links_view(links@) =~= links_view(self.links@));
        let content = match &self.content {
            Some(c) => Some(Content { value: c.value.clone(), content_type: c.content_type.clone() }),
            None => None,
        };
        Entry {
            id: self.id.clone(),
            title: self.title.clone(),
            summary: duplicate_text(&self.summary),
            content,
            published: self.published,
            links,
        }
    }
}

impl Feed {
    pub fn duplicate(&self) -> (r: Feed)
        ensures
            r@ == self@,
    {
        let mut entries: Vec<Entry> = Vec::new();
        let mut i: usize = 0;
        while i < self.entries.len()
            invariant
                i <= self.entries.len(),
                entries.len() == i,
                forall|k: int| 0 <= k < i ==> #[trigger] entries@[k]@ == self.entries@[k]@,
            decreases self.entries.len() - i,
        {
            entries.push(self.entries[i].duplicate());
            i = i + 1;
        }
        assert(entries_view(entries@) =~= entries_view(self.entries@));
        Feed { id: self.id.clone(), title: self.title.clone(), entries }
    }
}

} // verus!
