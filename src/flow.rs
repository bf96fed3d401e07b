//! Built flows: the linear pipeline obtained from a node tree, and the runner
//! that drives it.
use vstd::prelude::*;

use crate::cache::{fresh, CacheModel, CacheState};
use crate::feed::{entries_view, sanitise_entry, sanitised, Entry, EntryModel, Feed, FeedModel, Field};
use crate::filter::{filter_entries, kind_is_valid, kind_valid, retained, regex_valid, FilterKind};
use crate::retrieve::{
    alternate_links, alternate_of, doc_text, documents_cover, enriched, retrieve_entries, selector_is_valid,
    selector_valid,
};
use crate::slot::{Data, DataKind, DataModel, Slot, SlotState};
use crate::tree::{kind_view, tree_size, url_is_valid, url_valid, BuildError, KindModel, Node, NodeModel};

verus! {

/// One node of a built flow.
pub enum Stage {
    /// The source: fetches and parses a feed.
    Feed { url: String },
    Filter { field: Field, filter: FilterKind, invert: bool },
    /// Retrieves each entry's content with the CSS selector `content`.
    Retrieve { content: String },
    Sanitise { field: Field },
    Cache(CacheState),
}

pub open spec fn kind_model_valid(k: KindModel) -> bool {
    match k {
        KindModel::Matches(p) => regex_valid(p),
        _ => true,
    }
}

/// Every URL of the tree parses, every selector parses and every pattern
/// compiles.
pub open spec fn tree_ok(m: NodeModel) -> bool
    decreases m,
{
    match m {
        NodeModel::Feed { url } => url_valid(url),
        NodeModel::Cache { child, .. } => tree_ok(*child),
        NodeModel::Filter { kind, child, .. } => kind_model_valid(kind) && tree_ok(*child),
        NodeModel::Retrieve { content, child } => selector_valid(content) && tree_ok(*child),
        NodeModel::Sanitise { child, .. } => tree_ok(*child),
    }
}

/// The nodes of the tree, leaf first: the order in which they run.
pub open spec fn layers(m: NodeModel) -> Seq<NodeModel>
    decreases m,
{
    match m {
        NodeModel::Feed { .. } => seq![m],
        NodeModel::Cache { child, .. } => layers(*child).push(m),
        NodeModel::Filter { child, .. } => layers(*child).push(m),
        NodeModel::Retrieve { child, .. } => layers(*child).push(m),
        NodeModel::Sanitise { child, .. } => layers(*child).push(m),
    }
}

/// The stage runs the node `m` (and, for a cache, starts empty).
pub open spec fn stage_is(st: Stage, m: NodeModel) -> bool {
    match (st, m) {
        (Stage::Feed { url }, NodeModel::Feed { url: u }) => url@ == u,
        (Stage::Filter { field, filter, invert }, NodeModel::Filter { field: f, kind, invert: i, .. }) => field == f
            && kind_view(filter) == kind && invert == i,
        (Stage::Retrieve { content }, NodeModel::Retrieve { content: c, .. }) => content@ == c,
        (Stage::Sanitise { field }, NodeModel::Sanitise { field: f, .. }) => field == f,
        (Stage::Cache(cs), NodeModel::Cache { ttl, .. }) => cs@.ttl == ttl && cs@.last is None,
        _ => false,
    }
}

pub open spec fn is_source(st: Stage) -> bool {
    st is Feed
}

/// The stage can run: its URL parses, its pattern compiles, its selector
/// parses.
pub open spec fn stage_ok(st: Stage) -> bool {
    match st {
        Stage::Feed { url } => url_valid(url@),
        Stage::Filter { filter, .. } => kind_valid(filter),
        Stage::Retrieve { content } => selector_valid(content@),
        _ => true,
    }
}

proof fn lemma_layers(m: NodeModel)
    ensures
        layers(m).len() == tree_size(m),
        layers(m)[0] is Feed,
        forall|k: int| 0 < k < layers(m).len() ==> !(#[trigger] layers(m)[k] is Feed),
    decreases m,
{
    match m {
        NodeModel::Feed { .. } => {},
        NodeModel::Cache { child, .. } => lemma_layers(*child),
        NodeModel::Filter { child, .. } => lemma_layers(*child),
        NodeModel::Retrieve { child, .. } => lemma_layers(*child),
        NodeModel::Sanitise { child, .. } => lemma_layers(*child),
    }
}

fn copy_kind(k: &FilterKind) -> (r: FilterKind)
    ensures
        kind_view(r) == kind_view(*k),
        kind_valid(r) == kind_valid(*k),
{
    match k {
        FilterKind::Contains(s) => FilterKind::Contains(s.clone()),
        FilterKind::Equals(s) => FilterKind::Equals(s.clone()),
        FilterKind::Matches(s) => FilterKind::Matches(s.clone()),
    }
}

/// Appends the stages of `node`, leaf first.
fn push_stages(node: &Node, stages: &mut Vec<Stage>) -> (r: Result<(), BuildError>)
    ensures
        r is Ok <==> tree_ok(node@),
        r is Ok ==> {
            &&& final(stages)@.len() == old(stages)@.len() + layers(node@).len()
            &&& final(stages)@.subrange(0, old(stages)@.len() as int) == old(stages)@
            &&& forall|k: int| 0 <= k < layers(node@).len() ==> stage_is(
                #[trigger] final(stages)@[old(stages)@.len() + k],
                layers(node@)[k],
            ) && stage_ok(final(stages)@[old(stages)@.len() + k])
        },
        r matches Err(e) ==> e == BuildError::InvalidUrl || e == BuildError::InvalidSelector || e == BuildError::InvalidPattern,
    decreases node,
{
    let ghost before = stages@;
    let child = match node {
        Node::Feed { url } => {
            if !url_is_valid(url.as_str()) {
                return Err(BuildError::InvalidUrl);
            }
            stages.push(Stage::Feed { url: url.clone() });
            proof {
                assert(stages@.subrange(0, before.len() as int) =~= before);
            }
            return Ok(());
        },
        Node::Cache { child, .. } => child,
        Node::Filter { child, .. } => child,
        Node::Retrieve { child, .. } => child,
        Node::Sanitise { child, .. } => child,
    };
    match push_stages(child, stages) {
        Ok(()) => {},
        Err(e) => return Err(e),
    }
    let ghost mid = stages@;
    let st = match node {
        Node::Cache { ttl, .. } => Stage::Cache(CacheState::new(*ttl)),
        Node::Filter { field, filter, invert, .. } => {
            if !kind_is_valid(filter) {
                return Err(BuildError::InvalidPattern);
            }
            Stage::Filter { field: *field, filter: copy_kind(filter), invert: *invert }
        },
        Node::Retrieve { content, .. } => {
            if !selector_is_valid(content.as_str()) {
                return Err(BuildError::InvalidSelector);
            }
            Stage::Retrieve { content: content.clone() }
        },
        Node::Sanitise { field, .. } => Stage::Sanitise { field: *field },
        Node::Feed { .. } => {
            return Ok(());
        },
    };
    stages.push(st);
    proof {
        assert(stages@.subrange(0, before.len() as int) =~= before) by {
            assert(mid.subrange(0, before.len() as int) == before);
        }
        assert forall|k: int| 0 <= k < layers(node@).len() implies stage_is(
            #[trigger] stages@[before.len() + k],
            layers(node@)[k],
        ) && stage_ok(stages@[before.len() + k]) by {
            if k < layers(node@).len() - 1 {
                assert(stages@[before.len() + k] == mid[before.len() + k]);
            }
        }
    }
    Ok(())
}

/// The feed with only the entries that the filter keeps.
pub fn filter_feed(f: &Feed, field: Field, kind: &FilterKind, invert: bool) -> (r: Feed)
    requires
        kind_valid(*kind),
    ensures
        r@.id == f@.id,
        r@.title == f@.title,
        r@.entries == retained(f@.entries, field, *kind, invert),
{
    let entries = match filter_entries(&f.entries, field, kind, invert) {
        Ok(v) => v,
        Err(_) => Vec::new(),
    };
    Feed { id: f.id.clone(), title: f.title.clone(), entries }
}

/// The feed with `field` of every entry sanitised.
pub fn sanitise_feed(f: &Feed, field: Field) -> (r: Feed)
    ensures
        r@.id == f@.id,
        r@.title == f@.title,
        r@.entries == f@.entries.map_values(|e: EntryModel| sanitised(e, field)),
{
    let mut out: Vec<Entry> = Vec::new();
    let mut i: usize = 0;
    while i < f.entries.len()
        invariant
            i <= f.entries.len(),
            out.len() == i,
            forall|k: int| 0 <= k < i ==> (#[trigger] out@[k])@ == sanitised(f.entries@[k]@, field),
        decreases f.entries.len() - i,
    {
        out.push(sanitise_entry(f.entries[i].duplicate(), field));
        i = i + 1;
    }
    assert(entries_view(out@) =~= f@.entries.map_values(|e: EntryModel| sanitised(e, field)));
    Feed { id: f.id.clone(), title: f.title.clone(), entries: out }
}

/// A fresh, empty slot for feeds.
pub fn feed_io() -> (r: Slot)
    ensures
        r.wf(),
        r@.kind == DataKind::Feed,
        r@.state == SlotState::Empty,
{
    Slot::new(DataKind::Feed)
}

/// The leaf is the only source, and every stage can run.
pub open spec fn stages_wf(st: Seq<Stage>) -> bool {
    &&& st.len() >= 1
    &&& st[0] is Feed
    &&& forall|k: int| 0 < k < st.len() ==> !(#[trigger] st[k] is Feed)
    &&& forall|k: int| 0 <= k < st.len() ==> stage_ok(#[trigger] st[k])
}

/// The highest cache stage below `upto` that is fresh at `now`.
pub open spec fn fresh_cache_below(stages: Seq<Stage>, upto: int, now: u64) -> Option<int>
    decreases upto,
{
    if upto <= 0 {
        None
    } else {
        let c = upto - 1;
        match stages[c] {
            Stage::Cache(cs) => if fresh(cs@, now) {
                Some(c)
            } else {
                fresh_cache_below(stages, c, now)
            },
            _ => fresh_cache_below(stages, c, now),
        }
    }
}

proof fn lemma_fresh_below(stages: Seq<Stage>, c: int, upto: int, now: u64)
    requires
        0 <= c < upto <= stages.len(),
        stages[c] matches Stage::Cache(cs) && fresh(cs@, now),
    ensures
        fresh_cache_below(stages, upto, now) matches Some(k) && c <= k < upto,
    decreases upto,
{
    if upto - 1 > c {
        lemma_fresh_below(stages, c, upto - 1, now);
    }
}

/// Once a cache stage has stored its child's feed at `t1`, a run that begins
/// at `t2` within the time to live starts above that cache, so nothing the
/// cache wraps runs again.
pub proof fn lemma_cache_skips_child(stages: Seq<Stage>, c: int, t1: u64, t2: u64)
    requires
        0 <= c < stages.len(),
        stages[c] matches Stage::Cache(cs) && cs@.last is Some && cs@.inserted_at == t1 && t2 - t1 < cs@.ttl
            * 1000,
        t1 <= t2,
    ensures
        fresh_cache_below(stages, stages.len() as int, t2) matches Some(k) && c <= k,
{
    lemma_fresh_below(stages, c, stages.len() as int, t2);
}

/// What the pure stage `st` (a filter, a sanitiser or a cache) makes of
/// `input`.
pub open spec fn stage_result(st: Stage, input: FeedModel) -> FeedModel {
    match st {
        Stage::Filter { field, filter, invert } => FeedModel {
            entries: retained(input.entries, field, filter, invert),
            ..input
        },
        Stage::Sanitise { field } => FeedModel {
            entries: input.entries.map_values(|e: EntryModel| sanitised(e, field)),
            ..input
        },
        _ => input,
    }
}

/// The feed that stages `from .. to` make of `input`, each taking what the
/// one before it produced.
pub open spec fn pipeline(stages: Seq<Stage>, from: int, to: int, input: FeedModel) -> FeedModel
    decreases to - from,
{
    if to <= from {
        input
    } else {
        stage_result(stages[to - 1], pipeline(stages, from, to - 1, input))
    }
}

/// `after` is `before` once stages `from .. to` ran on `input` at time `now`:
/// each cache among them stored what reached it, and every other stage is
/// as it was.
pub open spec fn stages_after_run(
    before: Seq<Stage>,
    after: Seq<Stage>,
    from: int,
    to: int,
    input: FeedModel,
    now: u64,
) -> bool {
    &&& after.len() == before.len()
    &&& forall|k: int|
        0 <= k < before.len() ==> if from <= k < to && before[k] is Cache {
            #[trigger] after[k] matches Stage::Cache(cs) && cs@ == (CacheModel {
                last: Some(pipeline(before, from, k, input)),
                inserted_at: now,
                ..before[k]->Cache_0@
            })
        } else {
            after[k] == before[k]
        }
}

/// What the caller of the runner must do next.
pub enum Step {
    /// Fetch the feed at `url` and hand it to `Flow::deliver_feed`.
    Fetch { url: String },
    /// Fetch the document behind each link (one per entry; none where the
    /// entry has no `alternate` link), `in_flight_limit` of them at a time,
    /// and hand them, in entry order, to `Flow::deliver_documents`.
    Retrieve { links: Vec<Option<String>> },
    /// The run is over; this is the terminal value.
    Done(Option<Data>),
}

#[derive(Debug, PartialEq, Eq, Structural)]
pub enum RunError {
    /// A delivery that the flow was not waiting for.
    NotAwaiting,
    /// The documents do not match the entries one for one.
    MissingDocument,
}

/// A flow built from a node tree: its stages in run order, and the slot
/// after each of them. Stage `k` writes slot `k`, which stage `k + 1` reads;
/// the last slot is the terminal one.
pub struct Flow {
    uuid: u128,
    stages: Vec<Stage>,
    slots: Vec<Slot>,
    /// The stage that runs next.
    next: usize,
}

impl Flow {
    pub closed spec fn stages(&self) -> Seq<Stage> {
        self.stages@
    }

    pub closed spec fn slots(&self) -> Seq<Slot> {
        self.slots@
    }

    pub closed spec fn cursor(&self) -> int {
        self.next as int
    }

    pub closed spec fn uuid_spec(&self) -> u128 {
        self.uuid
    }

    pub open spec fn wf(&self) -> bool {
        let n = self.stages().len();
        &&& stages_wf(self.stages())
        &&& self.slots().len() == n
        &&& forall|k: int| 0 <= k < n ==> (#[trigger] self.slots()[k]).wf() && self.slots()[k]@.kind == DataKind::Feed
        &&& 0 <= self.cursor() <= n
        &&& forall|k: int| 0 <= k < n && k + 1 != self.cursor() ==> (#[trigger] self.slots()[k])@.state == SlotState::Empty
        &&& 0 < self.cursor() < n ==> self.slots()[self.cursor() - 1]@.state == SlotState::Dirty
    }

    /// Builds the flow of `node`: its nodes leaf first, a slot between each
    /// node and the next, and one terminal slot.
    pub fn build(node: &Node, uuid: u128) -> (r: Result<Flow, BuildError>)
        ensures
            r is Ok <==> tree_ok(node@),
            r matches Ok(f) ==> {
                &&& f.wf()
                &&& f.uuid_spec() == uuid
                &&& f.stages().len() == tree_size(node@)
                &&& f.slots().len() == tree_size(node@)
                &&& forall|k: int| 0 <= k < f.stages().len() ==> stage_is(#[trigger] f.stages()[k], layers(node@)[k])
                &&& forall|k: int| 0 <= k < f.slots().len() ==> (#[trigger] f.slots()[k])@.state == SlotState::Empty
                &&& f.cursor() == 0
            },
            r matches Err(e) ==> e == BuildError::InvalidUrl || e == BuildError::InvalidSelector || e == BuildError::InvalidPattern,
    {
        let mut stages: Vec<Stage> = Vec::new();
        match push_stages(node, &mut stages) {
            Ok(()) => {},
            Err(e) => return Err(e),
        }
        proof {
            lemma_layers(node@);
        }
        let mut slots: Vec<Slot> = Vec::new();
        let mut i: usize = 0;
        while i < stages.len()
            invariant
                i <= stages.len(),
                slots.len() == i,
                forall|k: int| 0 <= k < i ==> (#[trigger] slots@[k]).wf() && slots@[k]@.kind == DataKind::Feed
                    && slots@[k]@.state == SlotState::Empty,
            decreases stages.len() - i,
        {
            slots.push(Slot::new(DataKind::Feed));
            i = i + 1;
        }
        let f = Flow { uuid, stages, slots, next: 0 };
        proof {
            assert forall|k: int| 0 <= k < f.stages().len() implies stage_is(#[trigger] f.stages()[k], layers(node@)[k])
                && stage_ok(f.stages()[k]) by {
                assert(f.stages()[k] == f.stages()[0 + k]);
            }
            assert(stage_is(f.stages()[0], layers(node@)[0]));
            assert forall|k: int| 0 < k < f.stages().len() implies !(#[trigger] f.stages()[k] is Feed) by {
                assert(stage_is(f.stages()[k], layers(node@)[k]));
            }
        }
        Ok(f)
    }

    /// Starts a run at time `now`: empties every slot and, where a cache is
    /// fresh, serves its feed so that nothing below the highest fresh cache
    /// runs.
    pub fn begin(&mut self, now: u64)
        requires
            old(self).wf(),
        ensures
            final(self).wf(),
            final(self).stages() == old(self).stages(),
            final(self).uuid_spec() == old(self).uuid_spec(),
            final(self).cursor() == match fresh_cache_below(old(self).stages(), old(self).stages().len() as int, now) {
                Some(c) => c + 1,
                None => 0,
            },
            fresh_cache_below(old(self).stages(), old(self).stages().len() as int, now) matches Some(c) ==> (old(
                self,
            ).stages()[c] matches Stage::Cache(cs) && final(self).slots()[c]@.value == Some(
                DataModel::Feed(cs@.last.unwrap()),
            )),
    {
        let n = self.slots.len();
        let mut i: usize = 0;
        while i < n
            invariant
                n == self.slots().len(),
                self.stages() == old(self).stages(),
                stages_wf(self.stages()),
                self.uuid_spec() == old(self).uuid_spec(),
                i <= n,
                forall|k: int| 0 <= k < n ==> (#[trigger] self.slots()[k]).wf() && self.slots()[k]@.kind == DataKind::Feed,
                forall|k: int| 0 <= k < i ==> (#[trigger] self.slots()[k])@.state == SlotState::Empty,
            decreases n - i,
        {
            self.slots[i].clear();
            i = i + 1;
        }
        self.next = 0;
        let mut c: usize = n;
        while c > 0
            invariant
                n == self.slots().len(),
                n == self.stages().len(),
                self.stages() == old(self).stages(),
                stages_wf(self.stages()),
                self.uuid_spec() == old(self).uuid_spec(),
                c <= n,
                self.next == 0,
                forall|k: int| 0 <= k < n ==> (#[trigger] self.slots()[k]).wf() && self.slots()[k]@.kind == DataKind::Feed,
                forall|k: int| 0 <= k < n ==> (#[trigger] self.slots()[k])@.state == SlotState::Empty,
                fresh_cache_below(self.stages(), n as int, now) == fresh_cache_below(self.stages(), c as int, now),
            decreases c,
        {
            let k = c - 1;
            let hit = match &self.stages[k] {
                Stage::Cache(cs) => cs.lookup(now),
                _ => None,
            };
            if let Some(feed) = hit {
                assert(fresh_cache_below(self.stages(), c as int, now) == Some(k as int));
                let _accepted = self.slots[k].accept(Data::Feed(feed));
                self.next = k + 1;
                return;
            }
            c = k;
        }
    }

    /// The feed in slot `k`.
    pub open spec fn slot_feed(&self, k: int) -> FeedModel {
        match self.slots()[k]@.value {
            Some(DataModel::Feed(f)) => f,
            _ => FeedModel { id: Seq::empty(), title: Seq::empty(), entries: Seq::empty() },
        }
    }

    /// Runs the filter, sanitise or cache stage at the cursor on the feed in
    /// its input slot: the result goes to its output slot, the input slot is
    /// emptied, and a cache stores the feed with time `now`.
    fn run_pure_stage(&mut self, now: u64)
        requires
            old(self).wf(),
            old(self).cursor() < old(self).stages().len(),
            !(old(self).stages()[old(self).cursor()] is Feed),
            !(old(self).stages()[old(self).cursor()] is Retrieve),
        ensures
            final(self).wf(),
            final(self).uuid_spec() == old(self).uuid_spec(),
            final(self).stages().len() == old(self).stages().len(),
            final(self).cursor() == old(self).cursor() + 1,
            forall|k: int| 0 <= k < old(self).stages().len() && k != old(self).cursor() ==> #[trigger] final(self).stages()[k]
                == old(self).stages()[k],
            final(self).slot_feed(old(self).cursor()) == stage_result(
                old(self).stages()[old(self).cursor()],
                old(self).slot_feed(old(self).cursor() - 1),
            ),
            final(self).slots()[old(self).cursor()]@.value is Some,
            old(self).stages()[old(self).cursor()] matches Stage::Cache(before) ==> final(self).stages()[old(
                self,
            ).cursor()] matches Stage::Cache(after) && after@ == (CacheModel {
                last: Some(old(self).slot_feed(old(self).cursor() - 1)),
                inserted_at: now,
                ..before@
            }),
            !(old(self).stages()[old(self).cursor()] is Cache) ==> final(self).stages()[old(self).cursor()] == old(
                self,
            ).stages()[old(self).cursor()],
    {
        let i = self.next;
        let n = self.stages.len();
        let ghost old_slots = self.slots@;
        let ghost old_stages = self.stages@;
        let out = match self.slots[i - 1].peek() {
            Some(Data::Feed(f)) => match &self.stages[i] {
                Stage::Filter { field, filter, invert } => filter_feed(f, *field, filter, *invert),
                Stage::Sanitise { field } => sanitise_feed(f, *field),
                _ => f.duplicate(),
            },
            _ => {
                proof {
                    assert(false);
                }
                return;
            },
        };
        if let Stage::Cache(cs) = &mut self.stages[i] {
            cs.store(&out, now);
        }
        self.slots[i - 1].clear();
        let _accepted = self.slots[i].accept(Data::Feed(out));
        self.next = i + 1;
        proof {
            assert(self.slots@ =~= old_slots.update(i - 1, self.slots@[i - 1]).update(i as int, self.slots@[i as int]));
            assert(self.stages@.len() == old_stages.len());
            assert forall|k: int| 0 < k < n implies !(#[trigger] self.stages()[k] is Feed) by {
                if k != i {
                    assert(self.stages()[k] == old_stages[k]);
                }
            }
            assert forall|k: int| 0 <= k < n implies stage_ok(#[trigger] self.stages()[k]) by {
                if k != i {
                    assert(self.stages()[k] == old_stages[k]);
                }
            }
        }
    }

    /// Runs the flow from the cursor until it needs outside work or is done:
    /// each filter, sanitise and cache stage on the way runs, in order, on
    /// what the stage before it produced, and each cache stores its input.
    /// When done, every slot but the terminal one is empty and the terminal
    /// value is returned.
    pub fn step(&mut self, now: u64) -> (r: Step)
        requires
            old(self).wf(),
        ensures
            final(self).wf(),
            final(self).uuid_spec() == old(self).uuid_spec(),
            old(self).cursor() <= final(self).cursor(),
            stages_after_run(
                old(self).stages(),
                final(self).stages(),
                old(self).cursor(),
                final(self).cursor(),
                old(self).slot_feed(old(self).cursor() - 1),
                now,
            ),
            final(self).cursor() > old(self).cursor() ==> {
                &&& final(self).slots()[final(self).cursor() - 1]@.value is Some
                &&& final(self).slot_feed(final(self).cursor() - 1) == pipeline(
                    old(self).stages(),
                    old(self).cursor(),
                    final(self).cursor(),
                    old(self).slot_feed(old(self).cursor() - 1),
                )
            },
            final(self).cursor() == old(self).cursor() ==> forall|k: int|
                0 <= k < old(self).slots().len() ==> (#[trigger] final(self).slots()[k])@.value == old(
                    self,
                ).slots()[k]@.value,
            r is Fetch ==> *final(self) == *old(self),
            match r {
                Step::Fetch { url } => {
                    &&& final(self).cursor() < final(self).stages().len()
                    &&& final(self).stages()[final(self).cursor()] matches Stage::Feed { url: u }
                    &&& u@ == url@
                },
                Step::Retrieve { links } => {
                    let entries = final(self).slot_feed(final(self).cursor() - 1).entries;
                    &&& 0 < final(self).cursor() < final(self).stages().len()
                    &&& final(self).stages()[final(self).cursor()] is Retrieve
                    &&& links.len() == entries.len()
                    &&& forall|i: int| 0 <= i < links.len() ==> match #[trigger] links@[i] {
                        Some(h) => alternate_of(entries[i]) == Some(h@),
                        None => alternate_of(entries[i]) is None,
                    }
                },
                Step::Done(v) => {
                    let n = final(self).stages().len();
                    &&& final(self).cursor() == n
                    &&& forall|k: int| 0 <= k < n - 1 ==> (#[trigger] final(self).slots()[k])@.state == SlotState::Empty
                    &&& final(self).slots()[n - 1]@.state != SlotState::Dirty
                    &&& match v {
                        Some(d) => final(self).slots()[n - 1]@.value == Some(d@),
                        None => final(self).slots()[n - 1]@.value is None,
                    }
                },
            },
    {
        let n = self.stages.len();
        let ghost c0 = old(self).cursor();
        let ghost input = old(self).slot_feed(c0 - 1);
        while self.next < n
            invariant
                self.wf(),
                n == self.stages().len(),
                n == old(self).stages().len(),
                self.uuid_spec() == old(self).uuid_spec(),
                c0 == old(self).cursor(),
                input == old(self).slot_feed(c0 - 1),
                c0 <= self.cursor(),
                stages_after_run(old(self).stages(), self.stages(), c0, self.cursor(), input, now),
                self.cursor() > c0 ==> {
                    &&& self.slots()[self.cursor() - 1]@.value is Some
                    &&& self.slot_feed(self.cursor() - 1) == pipeline(old(self).stages(), c0, self.cursor(), input)
                },
                self.cursor() == c0 ==> *self == *old(self),
            decreases n - self.next,
        {
            let i = self.next;
            let ghost prev = *self;
            match &self.stages[i] {
                Stage::Feed { url } => {
                    return Step::Fetch { url: url.clone() };
                },
                Stage::Retrieve { .. } => {
                    let links = match self.slots[i - 1].peek() {
                        Some(Data::Feed(f)) => alternate_links(&f.entries),
                        _ => {
                            proof {
                                assert(false);
                            }
                            Vec::new()
                        },
                    };
                    return Step::Retrieve { links };
                },
                _ => {},
            }
            self.run_pure_stage(now);
            proof {
                assert(prev.stages()[i as int] == old(self).stages()[i as int]);
                assert(prev.slot_feed(i - 1) == pipeline(old(self).stages(), c0, i as int, input));
                assert(self.slot_feed(i as int) == pipeline(old(self).stages(), c0, i + 1, input));
                assert forall|k: int| 0 <= k < n implies if c0 <= k < self.cursor() && old(self).stages()[k] is Cache {
                    #[trigger] self.stages()[k] matches Stage::Cache(cs) && cs@ == (CacheModel {
                        last: Some(pipeline(old(self).stages(), c0, k, input)),
                        inserted_at: now,
                        ..old(self).stages()[k]->Cache_0@
                    })
                } else {
                    self.stages()[k] == old(self).stages()[k]
                } by {
                    if k != i {
                        assert(self.stages()[k] == prev.stages()[k]);
                    }
                }
            }
        }
        let ghost before_get = self.slots@;
        let v = self.slots[n - 1].get();
        proof {
            assert forall|k: int| 0 <= k < n implies (#[trigger] self.slots()[k])@.value == before_get[k]@.value by {
                if k != n - 1 {
                    assert(self.slots()[k] == before_get[k]);
                }
            }
        }
        Step::Done(v)
    }

    /// Hands the fetched feed to the source stage at the cursor.
    pub fn deliver_feed(&mut self, feed: Feed) -> (r: Result<(), RunError>)
        requires
            old(self).wf(),
        ensures
            final(self).wf(),
            final(self).uuid_spec() == old(self).uuid_spec(),
            final(self).stages() == old(self).stages(),
            r is Ok <==> old(self).cursor() < old(self).stages().len() && old(self).stages()[old(self).cursor()] is Feed,
            r is Ok ==> {
                &&& final(self).cursor() == old(self).cursor() + 1
                &&& final(self).slots()[old(self).cursor()]@.value == Some(DataModel::Feed(feed@))
            },
            r is Err ==> r == Err::<(), RunError>(RunError::NotAwaiting) && *final(self) == *old(self),
    {
        let i = self.next;
        if i >= self.stages.len() {
            return Err(RunError::NotAwaiting);
        }
        if !matches!(self.stages[i], Stage::Feed { .. }) {
            return Err(RunError::NotAwaiting);
        }
        let ghost old_slots = self.slots@;
        let _accepted = self.slots[i].accept(Data::Feed(feed));
        self.next = i + 1;
        proof {
            assert(self.slots@ =~= old_slots.update(i as int, self.slots@[i as int]));
        }
        Ok(())
    }

    /// Hands the fetched documents to the retrieve stage at the cursor; see
    /// `Step::Retrieve`.
    pub fn deliver_documents(&mut self, documents: &Vec<Option<String>>) -> (r: Result<(), RunError>)
        requires
            old(self).wf(),
        ensures
            final(self).wf(),
            final(self).uuid_spec() == old(self).uuid_spec(),
            final(self).stages() == old(self).stages(),
            !(old(self).cursor() < old(self).stages().len() && old(self).stages()[old(self).cursor()] is Retrieve)
                ==> r == Err::<(), RunError>(RunError::NotAwaiting) && *final(self) == *old(self),
            old(self).cursor() < old(self).stages().len() && old(self).stages()[old(self).cursor()] is Retrieve ==> {
                let c = old(self).cursor();
                let input = old(self).slot_feed(c - 1);
                &&& (r is Ok <==> documents_cover(input.entries, documents@))
                &&& r is Err ==> r == Err::<(), RunError>(RunError::MissingDocument) && *final(self) == *old(self)
                &&& r is Ok ==> {
                    let out = final(self).slot_feed(c);
                    &&& final(self).cursor() == c + 1
                    &&& final(self).slots()[c]@.value is Some
                    &&& out.id == input.id
                    &&& out.title == input.title
                    &&& out.entries.len() == input.entries.len()
                    &&& forall|i: int| 0 <= i < out.entries.len() ==> #[trigger] out.entries[i] == enriched(
                        input.entries[i],
                        doc_text(documents@[i]),
                        old(self).stages()[c]->Retrieve_content@,
                    )
                }
            },
    {
        let i = self.next;
        if i >= self.stages.len() {
            return Err(RunError::NotAwaiting);
        }
        let out = match &self.stages[i] {
            Stage::Retrieve { content } => match self.slots[i - 1].peek() {
                Some(Data::Feed(f)) => match retrieve_entries(&f.entries, documents, content.as_str()) {
                    Ok(entries) => Feed { id: f.id.clone(), title: f.title.clone(), entries },
                    Err(_) => return Err(RunError::MissingDocument),
                },
                _ => {
                    proof {
                        assert(false);
                    }
                    return Err(RunError::NotAwaiting);
                },
            },
            _ => return Err(RunError::NotAwaiting),
        };
        let ghost old_slots = self.slots@;
        self.slots[i - 1].clear();
        let _accepted = self.slots[i].accept(Data::Feed(out));
        self.next = i + 1;
        proof {
            assert(self.slots@ =~= old_slots.update(i - 1, self.slots@[i - 1]).update(i as int, self.slots@[i as int]));
        }
        Ok(())
    }

    pub fn uuid(&self) -> (r: u128)
        ensures
            r == self.uuid_spec(),
    {
        self.uuid
    }

    pub fn stage_count(&self) -> (r: usize)
        ensures
            r == self.stages().len(),
    {
        self.stages.len()
    }

    /// The state of slot `i`; the last slot is the terminal one.
    pub fn slot_state(&self, i: usize) -> (r: SlotState)
        requires
            self.wf(),
            i < self.slots().len(),
        ensures
            r == self.slots()[i as int]@.state,
    {
        self.slots[i].state()
    }
}

} // verus!
