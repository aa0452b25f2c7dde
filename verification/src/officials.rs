use vstd::prelude::*;

use crate::errors::RepoError;
use crate::repo::{
    has_rec_id, lemma_push_fresh_id, lemma_remove_matching_ids, lemma_update_same_id,
    remove_matching,
};
use crate::store::{only_officials_changed, Store};
use crate::text::clone_opt_string;

verus! {

/// A public officer record with term bounds and a zone/section assignment.
pub struct Official {
    pub id: Option<i32>,
    pub name: String,
    pub role: String,
    pub type_: String,
    pub section: String,
    pub age: i32,
    pub contact: String,
    pub term_start: String,
    pub term_end: String,
    pub zone: String,
    pub image: Option<String>,
}

impl Clone for Official {
    fn clone(&self) -> (r: Self)
        ensures
            r == *self,
    {
        Official {
            id: self.id,
            name: self.name.clone(),
            role: self.role.clone(),
            type_: self.type_.clone(),
            section: self.section.clone(),
            age: self.age,
            contact: self.contact.clone(),
            term_start: self.term_start.clone(),
            term_end: self.term_end.clone(),
            zone: self.zone.clone(),
            image: clone_opt_string(&self.image),
        }
    }
}

/// The id an official record carries, as the store's id machinery reads it.
pub open spec fn official_id() -> spec_fn(Official) -> Option<i32> {
    |o: Official| o.id
}

/// An official record the store accepts: the name must be present and the
/// age cannot be negative.
pub open spec fn official_fields_ok(o: Official) -> bool {
    &&& o.name@.len() > 0
    &&& o.age >= 0
}

/// Validates an official record before any store access.
pub fn check_official(o: &Official) -> (ok: bool)
    ensures
        ok == official_fields_ok(*o),
{
    !o.name.as_str().is_empty() && o.age >= 0
}

/// Scans the officials for the record carrying the id.
fn find_official_index(os: &Vec<Official>, id: i32) -> (found: Option<usize>)
    ensures
        match found {
            Some(k) => k < os@.len() && os@[k as int].id == Some(id),
            None => !has_rec_id(os@, official_id(), id),
        },
{
    let n = os.len();
    let mut i: usize = 0;
    while i < n
        invariant
            n == os.len(),
            i <= n,
            forall|j: int| 0 <= j < i ==> #[trigger] os@[j].id != Some(id),
        decreases n - i,
    {
        let hit = match os[i].id {
            Some(x) => x == id,
            None => false,
        };
        if hit {
            return Some(i);
        }
        i = i + 1;
    }
    proof {
        assert forall|j: int| 0 <= j < os@.len() implies #[trigger] official_id()(os@[j]) != Some(
            id,
        ) by {
            assert(official_id()(os@[j]) == os@[j].id);
        }
    }
    None
}

impl Store {
    /// Every official, in stored (insertion) order; no row is filtered.
    pub fn fetch_all_officials(&self) -> (r: Vec<Official>)
        ensures
            r@ == self.officials@,
    {
        let n = self.officials.len();
        let mut out: Vec<Official> = Vec::new();
        let mut i: usize = 0;
        while i < n
            invariant
                n == self.officials.len(),
                i <= n,
                out@ == self.officials@.take(i as int),
            decreases n - i,
        {
            out.push(self.officials[i].clone());
            proof {
                assert(out@ =~= self.officials@.take(i as int + 1));
            }
            i = i + 1;
        }
        proof {
            assert(self.officials@.take(n as int) =~= self.officials@);
        }
        out
    }

    /// Inserts a new official and returns the assigned id. Fails with
    /// `Validation` exactly when the record is rejected by validation, and
    /// with `Store` exactly when the id space is exhausted.
    pub fn insert_official(&mut self, o: &Official) -> (res: Result<i32, RepoError>)
        requires
            old(self).wf(),
        ensures
            final(self).wf(),
            only_officials_changed(*old(self), *final(self)),
            res is Ok <==> (official_fields_ok(*o) && old(self).next_official_id < i32::MAX),
            match res {
                Ok(id) => {
                    &&& id == old(self).next_official_id
                    &&& final(self).officials@ == old(self).officials@.push(
                        (Official { id: Some(id), ..*o }),
                    )
                    &&& final(self).next_official_id == old(self).next_official_id + 1
                },
                Err(e) => {
                    &&& *final(self) == *old(self)
                    &&& (e == RepoError::Validation <==> !official_fields_ok(*o))
                    &&& (e == RepoError::Store <==> official_fields_ok(*o)
                        && old(self).next_official_id == i32::MAX)
                },
            },
    {
        if !check_official(o) {
            return Err(RepoError::Validation);
        }
        if self.next_official_id == i32::MAX {
            return Err(RepoError::Store);
        }
        let id = self.next_official_id;
        let mut stored = o.clone();
        stored.id = Some(id);
        proof {
            assert(official_id()(stored) == Some(id));
            lemma_push_fresh_id(self.officials@, official_id(), self.next_official_id, stored);
        }
        self.officials.push(stored);
        self.next_official_id = id + 1;
        Ok(id)
    }

    /// Replaces the whole record carrying the same id and returns the
    /// affected count: 1 when the id was found, 0 — with the store
    /// untouched — when it was not. Fails with `Validation` exactly when
    /// the record carries no id or is rejected by validation.
    pub fn update_official(&mut self, o: &Official) -> (res: Result<usize, RepoError>)
        requires
            old(self).wf(),
        ensures
            final(self).wf(),
            only_officials_changed(*old(self), *final(self)),
            final(self).next_official_id == old(self).next_official_id,
            res is Ok <==> (o.id is Some && official_fields_ok(*o)),
            match res {
                Ok(n) => {
                    &&& (n == 1 <==> has_rec_id(
                        old(self).officials@,
                        official_id(),
                        o.id.unwrap(),
                    ))
                    &&& (n == 0 || n == 1)
                    &&& (n == 0 ==> *final(self) == *old(self))
                    &&& (n == 1 ==> exists|k: int|
                        0 <= k < old(self).officials@.len()
                            && (#[trigger] old(self).officials@[k].id) == o.id
                            && final(self).officials@ == old(self).officials@.update(k, *o))
                },
                Err(e) => e == RepoError::Validation && *final(self) == *old(self),
            },
    {
        let has_id = match o.id {
            Some(_) => true,
            None => false,
        };
        if !has_id || !check_official(o) {
            return Err(RepoError::Validation);
        }
        let id = match o.id {
            Some(x) => x,
            None => 0,
        };
        match find_official_index(&self.officials, id) {
            None => Ok(0),
            Some(k) => {
                proof {
                    assert(official_id()(*o) == o.id);
                    assert(official_id()(self.officials@[k as int]) == self.officials@[k as int].id);
                    lemma_update_same_id(
                        self.officials@,
                        official_id(),
                        self.next_official_id,
                        k as int,
                        *o,
                    );
                    assert(has_rec_id(self.officials@, official_id(), id));
                }
                self.officials.set(k, o.clone());
                Ok(1)
            },
        }
    }

    /// Upsert dispatch: a record carrying an id is routed to update — a
    /// missed id is reported as `NotFound` — and a record without one is
    /// routed to insert.
    pub fn save_official(&mut self, o: &Official) -> (res: Result<(), RepoError>)
        requires
            old(self).wf(),
        ensures
            final(self).wf(),
            only_officials_changed(*old(self), *final(self)),
            res is Ok <==> (official_fields_ok(*o) && (if o.id is Some {
                has_rec_id(old(self).officials@, official_id(), o.id.unwrap())
            } else {
                old(self).next_official_id < i32::MAX
            })),
            match res {
                Ok(_) => {
                    if o.id is Some {
                        &&& exists|k: int|
                            0 <= k < old(self).officials@.len()
                                && (#[trigger] old(self).officials@[k].id) == o.id
                                && final(self).officials@ == old(self).officials@.update(k, *o)
                        &&& final(self).next_official_id == old(self).next_official_id
                    } else {
                        &&& final(self).officials@ == old(self).officials@.push(
                            (Official { id: Some(old(self).next_official_id), ..*o }),
                        )
                        &&& final(self).next_official_id == old(self).next_official_id + 1
                    }
                },
                Err(e) => {
                    &&& *final(self) == *old(self)
                    &&& (e == RepoError::Validation <==> !official_fields_ok(*o))
                    &&& (e == RepoError::NotFound <==> official_fields_ok(*o) && o.id is Some
                        && !has_rec_id(old(self).officials@, official_id(), o.id.unwrap()))
                    &&& (e == RepoError::Store <==> official_fields_ok(*o) && o.id is None
                        && old(self).next_official_id == i32::MAX)
                },
            },
    {
        let has_id = match o.id {
            Some(_) => true,
            None => false,
        };
        if has_id {
            match self.update_official(o) {
                Ok(n) => {
                    if n == 0 {
                        Err(RepoError::NotFound)
                    } else {
                        Ok(())
                    }
                },
                Err(e) => Err(e),
            }
        } else {
            match self.insert_official(o) {
                Ok(_) => Ok(()),
                Err(e) => Err(e),
            }
        }
    }

    /// Deletes the official carrying the id. Idempotent: an id that no
    /// record carries is matched by zero rows and the call succeeds
    /// silently.
    pub fn delete_official(&mut self, id: i32)
        requires
            old(self).wf(),
        ensures
            final(self).wf(),
            only_officials_changed(*old(self), *final(self)),
            final(self).next_official_id == old(self).next_official_id,
            final(self).officials@ == remove_matching(old(self).officials@, official_id(), id),
            forall|i: int|
                0 <= i < final(self).officials@.len()
                    ==> (#[trigger] final(self).officials@[i].id) != Some(id),
    {
        let n = self.officials.len();
        let mut out: Vec<Official> = Vec::new();
        let mut i: usize = 0;
        while i < n
            invariant
                n == self.officials.len(),
                i <= n,
                out@ == remove_matching(self.officials@.take(i as int), official_id(), id),
            decreases n - i,
        {
            proof {
                assert(self.officials@.take(i as int + 1).drop_last() =~= self.officials@.take(
                    i as int,
                ));
                assert(self.officials@.take(i as int + 1).last() == self.officials@[i as int]);
                assert(official_id()(self.officials@[i as int]) == self.officials@[i as int].id);
            }
            let keep = match self.officials[i].id {
                Some(x) => x != id,
                None => true,
            };
            if keep {
                out.push(self.officials[i].clone());
            }
            i = i + 1;
        }
        proof {
            assert(self.officials@.take(n as int) =~= self.officials@);
            lemma_remove_matching_ids(self.officials@, official_id(), self.next_official_id, id);
            let rm = remove_matching(self.officials@, official_id(), id);
            assert forall|j: int| 0 <= j < rm.len() implies #[trigger] rm[j].id != Some(id) by {
                assert(official_id()(rm[j]) == rm[j].id);
            }
        }
        self.officials = out;
    }
}

} // verus!
