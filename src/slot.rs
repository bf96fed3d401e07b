//! The typed slot that carries a value from one node to the next, with its
//! empty / dirty / clean protocol.
use vstd::prelude::*;

use crate::feed::{Feed, FeedModel};

verus! {

/// The type of value a slot carries.
#[derive(Clone, Copy, Debug, PartialEq, Eq, Structural)]
pub enum DataKind {
    Feed,
    WebSub,
}

/// A value flowing between nodes.
#[derive(Debug, PartialEq)]
pub enum Data {
    Feed(Feed),
    /// The raw body of a WebSub push.
    WebSub(Vec<u8>),
}

pub enum DataModel {
    Feed(FeedModel),
    WebSub(Seq<u8>),
}

impl View for Data {
    type V = DataModel;

    open spec fn view(&self) -> DataModel {
        match self {
            Data::Feed(f) => DataModel::Feed(f@),
            Data::WebSub(b) => DataModel::WebSub(b@),
        }
    }
}

pub open spec fn kind_of(d: DataModel) -> DataKind {
    match d {
        DataModel::Feed(_) => DataKind::Feed,
        DataModel::WebSub(_) => DataKind::WebSub,
    }
}

fn copy_bytes(b: &Vec<u8>) -> (r: Vec<u8>)
    ensures
        r@ == b@,
{
    let mut out: Vec<u8> = Vec::new();
    let mut i: usize = 0;
    while i < b.len()
        invariant
            i <= b.len(),
            out@ == b@.subrange(0, i as int),
        decreases b.len() - i,
    {
        out.push(b[i]);
        i = i + 1;
        assert(out@ =~= b@.subrange(0, i as int));
    }
    assert(out@ =~= b@);
    out
}

impl Data {
    pub fn kind(&self) -> (r: DataKind)
        ensures
            r == kind_of(self@),
    {
        match self {
            Data::Feed(_) => DataKind::Feed,
            Data::WebSub(_) => DataKind::WebSub,
        }
    }

    pub fn duplicate(&self) -> (r: Data)
        ensures
            r@ == self@,
    {
        match self {
            Data::Feed(f) => Data::Feed(f.duplicate()),
            Data::WebSub(b) => Data::WebSub(copy_bytes(b)),
        }
    }
}

/// The three observable states of a slot.
#[derive(Clone, Copy, Debug, PartialEq, Eq, Structural)]
pub enum SlotState {
    /// Holds nothing.
    Empty,
    /// Holds a value that downstream has not read yet.
    Dirty,
    /// Holds a value that downstream has already read.
    Clean,
}

#[derive(Debug, PartialEq, Eq, Structural)]
pub enum SlotError {
    /// The value's kind is not the slot's kind.
    KindMismatch,
    /// The slot already holds a value.
    Occupied,
}

pub struct SlotModel {
    pub kind: DataKind,
    pub state: SlotState,
    pub value: Option<DataModel>,
}

/// A typed cell between a producing and a consuming node.
pub struct Slot {
    kind: DataKind,
    state: SlotState,
    value: Option<Data>,
}

impl View for Slot {
    type V = SlotModel;

    closed spec fn view(&self) -> SlotModel {
        SlotModel {
            kind: self.kind,
            state: self.state,
            value: match self.value {
                Some(d) => Some(d@),
                None => None,
            },
        }
    }
}

impl Slot {
    /// A slot holds a value exactly when it is not empty, and only one of
    /// its own kind.
    pub open spec fn wf(&self) -> bool {
        &&& (self@.state == SlotState::Empty) == self@.value.is_none()
        &&& self@.value matches Some(v) ==> kind_of(v) == self@.kind
    }

    pub fn new(kind: DataKind) -> (r: Slot)
        ensures
            r.wf(),
            r@.kind == kind,
            r@.state == SlotState::Empty,
    {
        Slot { kind, state: SlotState::Empty, value: None }
    }

    pub fn kind(&self) -> (r: DataKind)
        ensures
            r == self@.kind,
    {
        self.kind
    }

    pub fn state(&self) -> (r: SlotState)
        ensures
            r == self@.state,
    {
        self.state
    }

    pub fn is_dirty(&self) -> (r: bool)
        ensures
            r == (self@.state == SlotState::Dirty),
    {
        self.state == SlotState::Dirty
    }

    /// Stores `v` in an empty slot of its kind, which becomes dirty.
    pub fn accept(&mut self, v: Data) -> (r: Result<(), SlotError>)
        requires
            old(self).wf(),
        ensures
            final(self).wf(),
            kind_of(v@) != old(self)@.kind ==> r == Err::<(), SlotError>(SlotError::KindMismatch)
                && final(self)@ == old(self)@,
            kind_of(v@) == old(self)@.kind && old(self)@.state != SlotState::Empty ==> r == Err::<(), SlotError>(
                SlotError::Occupied,
            ) && final(self)@ == old(self)@,
            kind_of(v@) == old(self)@.kind && old(self)@.state == SlotState::Empty ==> r is Ok
                && final(self)@ == (SlotModel { kind: old(self)@.kind, state: SlotState::Dirty, value: Some(v@) }),
    {
        if v.kind() != self.kind {
            return Err(SlotError::KindMismatch);
        }
        if self.state != SlotState::Empty {
            return Err(SlotError::Occupied);
        }
        self.value = Some(v);
        self.state = SlotState::Dirty;
        Ok(())
    }

    /// Reads the value, if any; a dirty slot becomes clean and keeps it.
    pub fn get(&mut self) -> (r: Option<Data>)
        requires
            old(self).wf(),
        ensures
            final(self).wf(),
            final(self)@.kind == old(self)@.kind,
            final(self)@.value == old(self)@.value,
            old(self)@.state == SlotState::Empty ==> r is None && final(self)@.state == SlotState::Empty,
            old(self)@.state != SlotState::Empty ==> r is Some && r.unwrap()@ == old(self)@.value.unwrap()
                && final(self)@.state == SlotState::Clean,
    {
        match &self.value {
            None => None,
            Some(d) => {
                let c = d.duplicate();
                self.state = SlotState::Clean;
                Some(c)
            },
        }
    }

    /// The value held, without reading it (the state is kept).
    pub fn peek(&self) -> (r: Option<&Data>)
        requires
            self.wf(),
        ensures
            match r {
                Some(d) => self@.value == Some(d@),
                None => self@.value is None,
            },
    {
        match &self.value {
            Some(d) => Some(d),
            None => None,
        }
    }

    /// Empties the slot.
    pub fn clear(&mut self)
        requires
            old(self).wf(),
        ensures
            final(self).wf(),
            final(self)@ == (SlotModel { kind: old(self)@.kind, state: SlotState::Empty, value: None }),
    {
        self.value = None;
        self.state = SlotState::Empty;
    }
}

} // verus!
