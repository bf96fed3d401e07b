//! The filter node's predicate and the entry selection it performs.
use vstd::multiset::Multiset;
use vstd::prelude::*;

use crate::feed::{entries_view, field_text, read_field, Entry, EntryModel, Field};
use crate::text::{occurs_in, text_contains};

verus! {

/// How a filter tests the text of an entry field.
#[derive(Debug, PartialEq)]
pub enum FilterKind {
    /// The text holds the string.
    Contains(String),
    /// The text is the string.
    Equals(String),
    /// The regular expression finds a match in the text.
    Matches(String),
}

/// The regular expression `pattern` compiles.
pub uninterp spec fn regex_valid(pattern: Seq<char>) -> bool;

/// The compiled `pattern` finds a match somewhere in `text`.
pub uninterp spec fn regex_matches(pattern: Seq<char>, text: Seq<char>) -> bool;

/// Relies on `regex::Regex::new`, which fails exactly on patterns that do not
/// compile, and on `Regex::is_match`, which searches the whole text; the
/// outcome depends on the pattern and the text alone.
#[verifier::external_body]
fn regex_search(pattern: &str, text: &str) -> (r: Option<bool>)
    ensures
        r.is_some() == regex_valid(pattern@),
        r matches Some(b) ==> b == regex_matches(pattern@, text@),
{
    match regex::Regex::new(pattern) {
        Ok(re) => Some(re.is_match(text)),
        Err(_) => None,
    }
}

#[derive(Debug, PartialEq, Eq, Structural)]
pub enum FilterError {
    /// A `Matches` pattern that does not compile.
    InvalidPattern,
}

pub open spec fn kind_valid(kind: FilterKind) -> bool {
    match kind {
        FilterKind::Matches(p) => regex_valid(p@),
        _ => true,
    }
}

/// Whether the predicate of `kind` holds of `text`.
pub open spec fn holds(kind: FilterKind, text: Seq<char>) -> bool {
    match kind {
        FilterKind::Contains(p) => occurs_in(text, p@),
        FilterKind::Equals(p) => text == p@,
        FilterKind::Matches(p) => regex_matches(p@, text),
    }
}

pub open spec fn keeps(e: EntryModel, field: Field, kind: FilterKind, invert: bool) -> bool {
    holds(kind, field_text(e, field)) != invert
}

/// The entries of `s` that the filter keeps, in their order.
pub open spec fn retained(s: Seq<EntryModel>, field: Field, kind: FilterKind, invert: bool) -> Seq<EntryModel>
    decreases s.len(),
{
    if s.len() == 0 {
        Seq::empty()
    } else {
        let r = retained(s.drop_last(), field, kind, invert);
        if keeps(s.last(), field, kind, invert) {
            r.push(s.last())
        } else {
            r
        }
    }
}

/// Whether `kind` can be evaluated (its pattern, if any, compiles).
pub fn kind_is_valid(kind: &FilterKind) -> (r: bool)
    ensures
        r == kind_valid(*kind),
{
    match kind {
        FilterKind::Matches(p) => regex_search(p.as_str(), "").is_some(),
        _ => true,
    }
}

/// Evaluates the predicate of a valid `kind` on `text`.
pub fn test_text(kind: &FilterKind, text: &str) -> (r: bool)
    requires
        kind_valid(*kind),
    ensures
        r == holds(*kind, text@),
{
    match kind {
        FilterKind::Contains(p) => text_contains(text, p.as_str()),
        FilterKind::Equals(p) => {
            let t = crate::text::chars_of(text);
            let q = crate::text::chars_of(p.as_str());
            crate::text::same_chars(&t, &q)
        },
        FilterKind::Matches(p) => match regex_search(p.as_str(), text) {
            Some(b) => b,
            None => false,
        },
    }
}

/// Keeps the entries whose `field` satisfies `kind` (or fails it, when
/// `invert`), in their order.
pub fn filter_entries(entries: &Vec<Entry>, field: Field, kind: &FilterKind, invert: bool) -> (r: Result<Vec<Entry>, FilterError>)
    ensures
        match r {
            Ok(v) => kind_valid(*kind) && entries_view(v@) == retained(entries_view(entries@), field, *kind, invert),
            Err(e) => !kind_valid(*kind) && e == FilterError::InvalidPattern,
        },
{
    if !kind_is_valid(kind) {
        return Err(FilterError::InvalidPattern);
    }
    let ghost all = entries_view(entries@);
    let mut out: Vec<Entry> = Vec::new();
    let mut i: usize = 0;
    assert(all.subrange(0, 0) =~= Seq::<EntryModel>::empty());
    assert(entries_view(out@) =~= Seq::<EntryModel>::empty());
    while i < entries.len()
        invariant
            kind_valid(*kind),
            i <= entries.len(),
            all == entries_view(entries@),
            entries_view(out@) == retained(all.subrange(0, i as int), field, *kind, invert),
        decreases entries.len() - i,
    {
        let e = &entries[i];
        let t = read_field(e, field);
        let hit = test_text(kind, t.as_str());
        let ghost prefix = all.subrange(0, i as int + 1);
        assert(prefix.drop_last() =~= all.subrange(0, i as int));
        assert(prefix.last() == e@);
        if hit != invert {
            let ghost before = out@;
            out.push(e.duplicate());
            assert(entries_view(out@) =~= entries_view(before).push(e@));
        }
        i = i + 1;
    }
    assert(all.subrange(0, entries.len() as int) =~= all);
    Ok(out)
}

/// A filter and its inverse split any sequence of entries in two: together
/// they hold each entry exactly as often as the input does, the first holds
/// only entries that satisfy the predicate and the second only entries that
/// do not, so no entry is in both.
pub proof fn lemma_filter_partition(s: Seq<EntryModel>, field: Field, kind: FilterKind)
    ensures
        retained(s, field, kind, false).to_multiset().add(retained(s, field, kind, true).to_multiset())
            == s.to_multiset(),
        forall|e: EntryModel| retained(s, field, kind, false).contains(e) ==> holds(kind, field_text(e, field)),
        forall|e: EntryModel| retained(s, field, kind, true).contains(e) ==> !holds(kind, field_text(e, field)),
    decreases s.len(),
{
    broadcast use vstd::seq_lib::group_seq_properties;
    if s.len() == 0 {
        assert(s.to_multiset() =~= Multiset::empty());
        assert(retained(s, field, kind, false).to_multiset().add(retained(s, field, kind, true).to_multiset())
            =~= Multiset::empty());
    } else {
        let init = s.drop_last();
        lemma_filter_partition(init, field, kind);
        assert(s =~= init.push(s.last()));
        init.to_multiset_ensures();
        retained(init, field, kind, false).to_multiset_ensures();
        retained(init, field, kind, true).to_multiset_ensures();
        let kept = retained(init, field, kind, false);
        let dropped = retained(init, field, kind, true);
        if holds(kind, field_text(s.last(), field)) {
            assert(retained(s, field, kind, false) == kept.push(s.last()));
            assert(retained(s, field, kind, true) == dropped);
            assert(kept.push(s.last()).to_multiset().add(dropped.to_multiset()) =~= s.to_multiset());
            assert forall|e: EntryModel| kept.push(s.last()).contains(e) implies holds(kind, field_text(e, field)) by {
                if e != s.last() {
                    let j = choose|j: int| 0 <= j < kept.push(s.last()).len() && kept.push(s.last())[j] == e;
                    assert(kept.contains(e)) by { assert(kept[j] == e); }
                }
            }
        } else {
            assert(retained(s, field, kind, true) == dropped.push(s.last()));
            assert(retained(s, field, kind, false) == kept);
            assert(kept.to_multiset().add(dropped.push(s.last()).to_multiset()) =~= s.to_multiset());
            assert forall|e: EntryModel| dropped.push(s.last()).contains(e) implies !holds(kind, field_text(e, field)) by {
                if e != s.last() {
                    let j = choose|j: int| 0 <= j < dropped.push(s.last()).len() && dropped.push(s.last())[j] == e;
                    assert(dropped.contains(e)) by { assert(dropped[j] == e); }
                }
            }
        }
    }
}

} // verus!
