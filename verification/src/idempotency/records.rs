//! The idempotency records: one per operator and key, either an open
//! reservation or the response that the publish request was answered with.

use crate::authentication::UserId;
use crate::idempotency::key::IdempotencyKey;
use crate::idempotency::response::EnvelopeView;
use crate::idempotency::response::ResponseEnvelope;
use vstd::prelude::*;

verus! {

/// What identifies a record: the operator and the characters of the key.
pub type RecordId = (u128, Seq<char>);

/// What a record holds: `None` while it is a reservation, the saved
/// response once it is completed.
pub type SavedView = Option<EnvelopeView>;

/// What the store says about one operator and key.
#[derive(Debug, PartialEq, Eq)]
pub enum RecordState {
    /// No request was ever admitted under this operator and key.
    Absent,
    /// A request was admitted and has not saved its response.
    Reserved,
    /// The request was answered with this response.
    Completed(ResponseEnvelope),
}

/// Why a response could not be attached to a record.
#[derive(Clone, Copy, Debug, PartialEq, Eq, Structural)]
pub enum AttachError {
    /// There is no record to attach it to.
    NoReservation,
    /// The record already carries a response, which is never overwritten.
    AlreadyCompleted,
}

#[derive(Debug)]
struct IdempotencyRecord {
    user_id: UserId,
    key: String,
    response: Option<ResponseEnvelope>,
}

/// The idempotency records of all operators. Records are never removed,
/// and a response, once attached, is never replaced.
#[derive(Debug)]
pub struct IdempotencyStore {
    records: Vec<IdempotencyRecord>,
}

impl IdempotencyStore {
    spec fn ident(&self, i: int) -> RecordId {
        (self.records@[i].user_id.0, self.records@[i].key@)
    }

    spec fn saved(&self, i: int) -> SavedView {
        match self.records@[i].response {
            Some(response) => Some(response@),
            None => None,
        }
    }

    spec fn holds_at(&self, id: RecordId, i: int) -> bool {
        0 <= i < self.records@.len() && self.ident(i) == id
    }

    /// No operator and key has two records.
    pub closed spec fn wf(&self) -> bool {
        forall|i: int, j: int|
            0 <= i < j < self.records@.len() ==> self.ident(i) != self.ident(j)
    }

    /// The records as a map from operator and key to what is saved.
    pub closed spec fn view(&self) -> Map<RecordId, SavedView> {
        Map::new(
            |id: RecordId| exists|i: int| self.holds_at(id, i),
            |id: RecordId| self.saved(choose|i: int| self.holds_at(id, i)),
        )
    }

    proof fn lemma_view_at(&self, id: RecordId, i: int)
        requires
            self.wf(),
            self.holds_at(id, i),
        ensures
            self@.dom().contains(id),
            self@[id] == self.saved(i),
    {
        let c = choose|c: int| self.holds_at(id, c);
        assert(c == i);
    }

    /// A store without records.
    pub fn new() -> (res: IdempotencyStore)
        ensures
            res.wf(),
            res@ == Map::<RecordId, SavedView>::empty(),
    {
        let res = IdempotencyStore { records: Vec::new() };
        assert(res@ =~= Map::<RecordId, SavedView>::empty());
        res
    }

    fn position(&self, user_id: UserId, key: &IdempotencyKey) -> (res: Option<usize>)
        requires
            self.wf(),
        ensures
            match res {
                Some(i) => self.holds_at((user_id.0, key@), i as int),
                None => !self@.dom().contains((user_id.0, key@)),
            },
    {
        let mut i: usize = 0;
        while i < self.records.len()
            invariant
                i <= self.records@.len(),
                forall|j: int| 0 <= j < i ==> !self.holds_at((user_id.0, key@), j),
            decreases self.records@.len() - i,
        {
            if self.records[i].user_id.0 == user_id.0 && self.records[i].key == *key.as_string() {
                return Some(i);
            }
            i = i + 1;
        }
        None
    }

    /// What is on record for `user_id` and `key`.
    pub fn lookup(&self, user_id: UserId, key: &IdempotencyKey) -> (res: RecordState)
        requires
            self.wf(),
        ensures
            match res {
                RecordState::Absent => !self@.dom().contains((user_id.0, key@)),
                RecordState::Reserved => self@.dom().contains((user_id.0, key@)) && self@[(
                    user_id.0,
                    key@,
                )] is None,
                RecordState::Completed(response) => self@.dom().contains((user_id.0, key@))
                    && self@[(user_id.0, key@)] == Some(response@),
            },
    {
        match self.position(user_id, key) {
            None => RecordState::Absent,
            Some(i) => {
                proof {
                    self.lemma_view_at((user_id.0, key@), i as int);
                }
                match &self.records[i].response {
                    None => RecordState::Reserved,
                    Some(response) => RecordState::Completed(response.duplicate()),
                }
            },
        }
    }

    /// Records a reservation for `user_id` and `key` unless a record
    /// exists already, and says whether it did.
    pub fn reserve(&mut self, user_id: UserId, key: &IdempotencyKey) -> (inserted: bool)
        requires
            old(self).wf(),
        ensures
            final(self).wf(),
            inserted == !old(self)@.dom().contains((user_id.0, key@)),
            inserted ==> final(self)@ == old(self)@.insert((user_id.0, key@), None),
            !inserted ==> final(self)@ == old(self)@,
    {
        match self.position(user_id, key) {
            Some(i) => {
                proof {
                    self.lemma_view_at((user_id.0, key@), i as int);
                }
                false
            },
            None => {
                let ghost before = *self;
                let ghost id = (user_id.0, key@);
                self.records.push(
                    IdempotencyRecord { user_id, key: key.as_str().to_string(), response: None },
                );
                proof {
                    let n = before.records@.len() as int;
                    assert forall|i: int| 0 <= i < n implies self.ident(i) == before.ident(i)
                        && self.saved(i) == before.saved(i) by {}
                    assert(self.ident(n) == id);
                    assert forall|i: int| 0 <= i < n implies self.ident(i) != id by {
                        assert(!before.holds_at(id, i));
                    }
                    assert forall|i: int, j: int| 0 <= i < j < self.records@.len() implies self.ident(
                        i,
                    ) != self.ident(j) by {
                        if j < n {
                            assert(before.ident(i) != before.ident(j));
                        } else {
                            assert(!before.holds_at(id, i));
                        }
                    }
                    assert forall|k: RecordId| #[trigger]
                        self@.dom().contains(k) == before@.insert(id, None).dom().contains(
                            k,
                        ) by {
                        if self@.dom().contains(k) {
                            let i = choose|i: int| self.holds_at(k, i);
                            if i < n {
                                assert(before.holds_at(k, i));
                            }
                        }
                        if before@.dom().contains(k) {
                            let i = choose|i: int| before.holds_at(k, i);
                            assert(self.holds_at(k, i));
                        }
                        if k == id {
                            assert(self.holds_at(k, n));
                        }
                    }
                    assert forall|k: RecordId| #[trigger] self@.dom().contains(k) implies self@[k]
                        == before@.insert(id, None)[k] by {
                        let i = choose|i: int| self.holds_at(k, i);
                        self.lemma_view_at(k, i);
                        if i < n {
                            assert(before.holds_at(k, i));
                            before.lemma_view_at(k, i);
                        }
                    }
                    assert(self@ =~= before@.insert(id, None));
                }
                true
            },
        }
    }

    /// Completes the reservation of `user_id` and `key` with `response`.
    /// Fails, changing nothing, when there is no record or when the record
    /// is completed already.
    pub fn attach(&mut self, user_id: UserId, key: &IdempotencyKey, response: ResponseEnvelope) -> (res:
        Result<(), AttachError>)
        requires
            old(self).wf(),
        ensures
            final(self).wf(),
            match res {
                Ok(()) => old(self)@.dom().contains((user_id.0, key@)) && old(self)@[(
                    user_id.0,
                    key@,
                )] is None && final(self)@ == old(self)@.insert(
                    (user_id.0, key@),
                    Some(response@),
                ),
                Err(AttachError::NoReservation) => !old(self)@.dom().contains((user_id.0, key@))
                    && final(self)@ == old(self)@,
                Err(AttachError::AlreadyCompleted) => old(self)@.dom().contains((user_id.0, key@))
                    && old(self)@[(user_id.0, key@)] is Some && final(self)@ == old(self)@,
            },
    {
        let ghost id = (user_id.0, key@);
        match self.position(user_id, key) {
            None => Err(AttachError::NoReservation),
            Some(i) => {
                proof {
                    self.lemma_view_at(id, i as int);
                }
                if self.records[i].response.is_some() {
                    return Err(AttachError::AlreadyCompleted);
                }
                let ghost before = *self;
                let ghost saved = response@;
                self.records[i].response = Some(response);
                proof {
                    let n = before.records@.len() as int;
                    assert forall|j: int| 0 <= j < n implies self.ident(j) == before.ident(j) by {}
                    assert forall|j: int| 0 <= j < n && j != i implies self.saved(j)
                        == before.saved(j) by {}
                    assert(self.saved(i as int) == Some(saved));
                    assert forall|a: int, b: int| 0 <= a < b < self.records@.len() implies self.ident(
                        a,
                    ) != self.ident(b) by {
                        assert(before.ident(a) != before.ident(b));
                    }
                    assert forall|k: RecordId| #[trigger]
                        self@.dom().contains(k) == before@.insert(id, Some(saved)).dom().contains(
                            k,
                        ) by {
                        if self@.dom().contains(k) {
                            let j = choose|j: int| self.holds_at(k, j);
                            assert(before.holds_at(k, j));
                        }
                        if before@.dom().contains(k) {
                            let j = choose|j: int| before.holds_at(k, j);
                            assert(self.holds_at(k, j));
                        }
                    }
                    assert forall|k: RecordId| #[trigger] self@.dom().contains(k) implies self@[k]
                        == before@.insert(id, Some(saved))[k] by {
                        let j = choose|j: int| self.holds_at(k, j);
                        self.lemma_view_at(k, j);
                        assert(before.holds_at(k, j));
                        before.lemma_view_at(k, j);
                    }
                    assert(self@ =~= before@.insert(id, Some(saved)));
                }
                Ok(())
            },
        }
    }
}

} // verus!
