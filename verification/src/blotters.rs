use vstd::prelude::*;

use crate::errors::RepoError;
use crate::repo::{
    has_rec_id, lemma_push_fresh_id, lemma_remove_matching_ids, lemma_update_same_id,
    remove_matching,
};
use crate::store::{only_blotters_changed, Store};

verus! {

/// An incident (blotter) case record. The status and resolution fields are
/// free text with a mutable lifecycle: a case is typically inserted open and
/// updated in place as it moves toward resolution.
pub struct Blotter {
    pub id: Option<i32>,
    pub type_: String,
    pub reported_by: String,
    pub involved: String,
    pub incident_date: String,
    pub location: String,
    pub zone: String,
    pub status: String,
    pub narrative: String,
    pub action: String,
    pub witnesses: String,
    pub evidence: String,
    pub resolution: String,
    pub hearing_date: String,
}

impl Clone for Blotter {
    fn clone(&self) -> (r: Self)
        ensures
            r == *self,
    {
        Blotter {
            id: self.id,
            type_: self.type_.clone(),
            reported_by: self.reported_by.clone(),
            involved: self.involved.clone(),
            incident_date: self.incident_date.clone(),
            location: self.location.clone(),
            zone: self.zone.clone(),
            status: self.status.clone(),
            narrative: self.narrative.clone(),
            action: self.action.clone(),
            witnesses: self.witnesses.clone(),
            evidence: self.evidence.clone(),
            resolution: self.resolution.clone(),
            hearing_date: self.hearing_date.clone(),
        }
    }
}

/// The id a blotter record carries, as the store's id machinery reads it.
pub open spec fn blotter_id() -> spec_fn(Blotter) -> Option<i32> {
    |b: Blotter| b.id
}

/// Scans the blotters for the record carrying the id.
fn find_blotter_index(bs: &Vec<Blotter>, id: i32) -> (found: Option<usize>)
    ensures
        match found {
            Some(k) => k < bs@.len() && bs@[k as int].id == Some(id),
            None => !has_rec_id(bs@, blotter_id(), id),
        },
{
    let n = bs.len();
    let mut i: usize = 0;
    while i < n
        invariant
            n == bs.len(),
            i <= n,
            forall|j: int| 0 <= j < i ==> #[trigger] bs@[j].id != Some(id),
        decreases n - i,
    {
        let hit = match bs[i].id {
            Some(x) => x == id,
            None => false,
        };
        if hit {
            return Some(i);
        }
        i = i + 1;
    }
    proof {
        assert forall|j: int| 0 <= j < bs@.len() implies #[trigger] blotter_id()(bs@[j]) != Some(
            id,
        ) by {
            assert(blotter_id()(bs@[j]) == bs@[j].id);
        }
    }
    None
}

impl Store {
    /// Every blotter record, in stored (insertion) order; no row is
    /// filtered.
    pub fn fetch_all_blotters(&self) -> (r: Vec<Blotter>)
        ensures
            r@ == self.blotters@,
    {
        let n = self.blotters.len();
        let mut out: Vec<Blotter> = Vec::new();
        let mut i: usize = 0;
        while i < n
            invariant
                n == self.blotters.len(),
                i <= n,
                out@ == self.blotters@.take(i as int),
            decreases n - i,
        {
            out.push(self.blotters[i].clone());
            proof {
                assert(out@ =~= self.blotters@.take(i as int + 1));
            }
            i = i + 1;
        }
        proof {
            assert(self.blotters@.take(n as int) =~= self.blotters@);
        }
        out
    }

    /// Inserts a new blotter record and returns the assigned id. Every field
    /// of a case record is plain text that may still be empty — a case is
    /// often opened before it is resolved — so nothing is rejected by
    /// validation; only an exhausted id space fails, with `Store`.
    pub fn insert_blotter(&mut self, b: &Blotter) -> (res: Result<i32, RepoError>)
        requires
            old(self).wf(),
        ensures
            final(self).wf(),
            only_blotters_changed(*old(self), *final(self)),
            res is Ok <==> old(self).next_blotter_id < i32::MAX,
            match res {
                Ok(id) => {
                    &&& id == old(self).next_blotter_id
                    &&& final(self).blotters@ == old(self).blotters@.push(
                        (Blotter { id: Some(id), ..*b }),
                    )
                    &&& final(self).next_blotter_id == old(self).next_blotter_id + 1
                },
                Err(e) => e == RepoError::Store && *final(self) == *old(self),
            },
    {
        if self.next_blotter_id == i32::MAX {
            return Err(RepoError::Store);
        }
        let id = self.next_blotter_id;
        let mut stored = b.clone();
        stored.id = Some(id);
        proof {
            assert(blotter_id()(stored) == Some(id));
            lemma_push_fresh_id(self.blotters@, blotter_id(), self.next_blotter_id, stored);
        }
        self.blotters.push(stored);
        self.next_blotter_id = id + 1;
        Ok(id)
    }

    /// Upsert dispatch on the case record, returning the affected count: a
    /// record carrying an id replaces the stored record with that id — count
    /// 1, or 0 with the store untouched when no record carries it — and a
    /// record without an id is inserted, count 1. A partial update of a case
    /// (a new status, action or resolution) is sent as the full record.
    pub fn insert_or_update_blotter(&mut self, b: &Blotter) -> (res: Result<usize, RepoError>)
        requires
            old(self).wf(),
        ensures
            final(self).wf(),
            only_blotters_changed(*old(self), *final(self)),
            match res {
                Ok(n) => {
                    if b.id is Some {
                        &&& (n == 1 <==> has_rec_id(
                            old(self).blotters@,
                            blotter_id(),
                            b.id.unwrap(),
                        ))
                        &&& (n == 0 || n == 1)
                        &&& (n == 0 ==> *final(self) == *old(self))
                        &&& (n == 1 ==> exists|k: int|
                            0 <= k < old(self).blotters@.len()
                                && (#[trigger] old(self).blotters@[k].id) == b.id
                                && final(self).blotters@ == old(self).blotters@.update(k, *b))
                        &&& final(self).next_blotter_id == old(self).next_blotter_id
                    } else {
                        &&& n == 1
                        &&& final(self).blotters@ == old(self).blotters@.push(
                            (Blotter { id: Some(old(self).next_blotter_id), ..*b }),
                        )
                        &&& final(self).next_blotter_id == old(self).next_blotter_id + 1
                    }
                },
                Err(e) => e == RepoError::Store && *final(self) == *old(self) && b.id is None
                    && old(self).next_blotter_id == i32::MAX,
            },
            res is Ok <==> (b.id is Some || old(self).next_blotter_id < i32::MAX),
    {
        let has_id = match b.id {
            Some(_) => true,
            None => false,
        };
        if has_id {
            self.update_blotter(b)
        } else {
            match self.insert_blotter(b) {
                Ok(_) => Ok(1),
                Err(e) => Err(e),
            }
        }
    }

    /// Replaces the whole case record carrying the same id and returns the
    /// affected count: 1 when the id was found, 0 — with the store
    /// untouched — when it was not. Fails with `Validation` exactly when
    /// the record carries no id.
    pub fn update_blotter(&mut self, b: &Blotter) -> (res: Result<usize, RepoError>)
        requires
            old(self).wf(),
        ensures
            final(self).wf(),
            only_blotters_changed(*old(self), *final(self)),
            final(self).next_blotter_id == old(self).next_blotter_id,
            res is Ok <==> b.id is Some,
            match res {
                Ok(n) => {
                    &&& (n == 1 <==> has_rec_id(
                        old(self).blotters@,
                        blotter_id(),
                        b.id.unwrap(),
                    ))
                    &&& (n == 0 || n == 1)
                    &&& (n == 0 ==> *final(self) == *old(self))
                    &&& (n == 1 ==> exists|k: int|
                        0 <= k < old(self).blotters@.len()
                            && (#[trigger] old(self).blotters@[k].id) == b.id
                            && final(self).blotters@ == old(self).blotters@.update(k, *b))
                },
                Err(e) => e == RepoError::Validation && *final(self) == *old(self),
            },
    {
        let id = match b.id {
            Some(x) => x,
            None => {
                return Err(RepoError::Validation);
            },
        };
        match find_blotter_index(&self.blotters, id) {
            None => Ok(0),
            Some(k) => {
                proof {
                    assert(blotter_id()(*b) == b.id);
                    assert(blotter_id()(self.blotters@[k as int])
                        == self.blotters@[k as int].id);
                    lemma_update_same_id(
                        self.blotters@,
                        blotter_id(),
                        self.next_blotter_id,
                        k as int,
                        *b,
                    );
                    assert(has_rec_id(self.blotters@, blotter_id(), id));
                }
                self.blotters.set(k, b.clone());
                Ok(1)
            },
        }
    }

    /// Deletes the blotter record carrying the id. Idempotent: an id that no
    /// record carries is matched by zero rows and the call succeeds
    /// silently.
    pub fn delete_blotter(&mut self, id: i32)
        requires
            old(self).wf(),
        ensures
            final(self).wf(),
            only_blotters_changed(*old(self), *final(self)),
            final(self).next_blotter_id == old(self).next_blotter_id,
            final(self).blotters@ == remove_matching(old(self).blotters@, blotter_id(), id),
            forall|i: int|
                0 <= i < final(self).blotters@.len()
                    ==> (#[trigger] final(self).blotters@[i].id) != Some(id),
    {
        let n = self.blotters.len();
        let mut out: Vec<Blotter> = Vec::new();
        let mut i: usize = 0;
        while i < n
            invariant
                n == self.blotters.len(),
                i <= n,
                out@ == remove_matching(self.blotters@.take(i as int), blotter_id(), id),
            decreases n - i,
        {
            proof {
                assert(self.blotters@.take(i as int + 1).drop_last() =~= self.blotters@.take(
                    i as int,
                ));
                assert(self.blotters@.take(i as int + 1).last() == self.blotters@[i as int]);
                assert(blotter_id()(self.blotters@[i as int]) == self.blotters@[i as int].id);
            }
            let keep = match self.blotters[i].id {
                Some(x) => x != id,
                None => true,
            };
            if keep {
                out.push(self.blotters[i].clone());
            }
            i = i + 1;
        }
        proof {
            assert(self.blotters@.take(n as int) =~= self.blotters@);
            lemma_remove_matching_ids(self.blotters@, blotter_id(), self.next_blotter_id, id);
            let rm = remove_matching(self.blotters@, blotter_id(), id);
            assert forall|j: int| 0 <= j < rm.len() implies #[trigger] rm[j].id != Some(id) by {
                assert(blotter_id()(rm[j]) == rm[j].id);
            }
        }
        self.blotters = out;
    }
}

} // verus!
