use vstd::prelude::*;

use crate::errors::RepoError;
use crate::repo::{
    has_rec_id, lemma_push_fresh_id, lemma_remove_matching_ids, lemma_update_same_id,
    remove_matching,
};
use crate::store::{incomes_nonneg, only_residents_changed, Store};
use crate::text::{clone_opt_string, str_eq};

verus! {

/// One resident record: identity, demographics, household linkage,
/// parentage, and status flags. The id is assigned by the store on insert.
pub struct Resident {
    pub id: Option<i32>,
    pub first_name: String,
    pub middle_name: Option<String>,
    pub last_name: String,
    pub suffix: Option<String>,
    pub civil_status: String,
    pub gender: String,
    pub nationality: String,
    pub mobile_number: String,
    pub religion: Option<String>,
    pub occupation: Option<String>,
    pub average_monthly_income: Option<i64>,
    pub date_of_birth: String,
    pub town_of_birth: String,
    pub province_of_birth: String,
    pub zone: String,
    pub barangay: String,
    pub town: String,
    pub province: String,
    pub household_number: Option<String>,
    pub role_in_household: String,
    pub father_first_name: String,
    pub father_middle_name: Option<String>,
    pub father_last_name: String,
    pub father_suffix: String,
    pub mother_first_name: String,
    pub mother_middle_name: Option<String>,
    pub mother_last_name: String,
    pub status: String,
    pub photo: Option<String>,
    pub is_registered_voter: bool,
    pub is_pwd: bool,
    pub is_senior: bool,
    pub is_solo_parent: bool,
}

impl Clone for Resident {
    fn clone(&self) -> (r: Self)
        ensures
            r == *self,
    {
        Resident {
            id: self.id,
            first_name: self.first_name.clone(),
            middle_name: clone_opt_string(&self.middle_name),
            last_name: self.last_name.clone(),
            suffix: clone_opt_string(&self.suffix),
            civil_status: self.civil_status.clone(),
            gender: self.gender.clone(),
            nationality: self.nationality.clone(),
            mobile_number: self.mobile_number.clone(),
            religion: clone_opt_string(&self.religion),
            occupation: clone_opt_string(&self.occupation),
            average_monthly_income: self.average_monthly_income,
            date_of_birth: self.date_of_birth.clone(),
            town_of_birth: self.town_of_birth.clone(),
            province_of_birth: self.province_of_birth.clone(),
            zone: self.zone.clone(),
            barangay: self.barangay.clone(),
            town: self.town.clone(),
            province: self.province.clone(),
            household_number: clone_opt_string(&self.household_number),
            role_in_household: self.role_in_household.clone(),
            father_first_name: self.father_first_name.clone(),
            father_middle_name: clone_opt_string(&self.father_middle_name),
            father_last_name: self.father_last_name.clone(),
            father_suffix: self.father_suffix.clone(),
            mother_first_name: self.mother_first_name.clone(),
            mother_middle_name: clone_opt_string(&self.mother_middle_name),
            mother_last_name: self.mother_last_name.clone(),
            status: self.status.clone(),
            photo: clone_opt_string(&self.photo),
            is_registered_voter: self.is_registered_voter,
            is_pwd: self.is_pwd,
            is_senior: self.is_senior,
            is_solo_parent: self.is_solo_parent,
        }
    }
}

/// The id a resident record carries, as the store's id machinery reads it.
pub open spec fn resident_id() -> spec_fn(Resident) -> Option<i32> {
    |r: Resident| r.id
}

/// The closed set of household roles the store accepts; the stored
/// representation stays text for forward compatibility, but unrecognized
/// values are rejected on write.
pub open spec fn valid_role(role: Seq<char>) -> bool {
    ||| role == "Head"@
    ||| role == "Spouse"@
    ||| role == "Child"@
    ||| role == "Member"@
}

/// A resident record the store accepts: the required name parts are present,
/// the household role is recognized, and a declared income is non-negative.
pub open spec fn resident_fields_ok(r: Resident) -> bool {
    &&& r.first_name@.len() > 0
    &&& r.last_name@.len() > 0
    &&& valid_role(r.role_in_household@)
    &&& (r.average_monthly_income is Some ==> r.average_monthly_income.unwrap() >= 0)
}

/// Validates a resident record before any store access.
pub fn check_resident(r: &Resident) -> (ok: bool)
    ensures
        ok == resident_fields_ok(*r),
{
    let role = r.role_in_household.as_str();
    let role_ok = str_eq(role, "Head") || str_eq(role, "Spouse") || str_eq(role, "Child")
        || str_eq(role, "Member");
    let income_ok = match &r.average_monthly_income {
        Some(v) => *v >= 0,
        None => true,
    };
    !r.first_name.as_str().is_empty() && !r.last_name.as_str().is_empty() && role_ok && income_ok
}

/// Scans the residents for the record carrying the id.
pub(crate) fn find_resident_index(rs: &Vec<Resident>, id: i32) -> (found: Option<usize>)
    ensures
        match found {
            Some(k) => k < rs@.len() && rs@[k as int].id == Some(id),
            None => !has_rec_id(rs@, resident_id(), id),
        },
{
    let n = rs.len();
    let mut i: usize = 0;
    while i < n
        invariant
            n == rs.len(),
            i <= n,
            forall|j: int| 0 <= j < i ==> #[trigger] rs@[j].id != Some(id),
        decreases n - i,
    {
        let hit = match rs[i].id {
            Some(x) => x == id,
            None => false,
        };
        if hit {
            return Some(i);
        }
        i = i + 1;
    }
    proof {
        assert forall|j: int| 0 <= j < rs@.len() implies #[trigger] resident_id()(rs@[j]) != Some(
            id,
        ) by {
            assert(resident_id()(rs@[j]) == rs@[j].id);
        }
    }
    None
}

impl Store {
    /// Every resident, in stored (insertion) order; no row is filtered.
    pub fn fetch_all_residents(&self) -> (r: Vec<Resident>)
        ensures
            r@ == self.residents@,
    {
        let n = self.residents.len();
        let mut out: Vec<Resident> = Vec::new();
        let mut i: usize = 0;
        while i < n
            invariant
                n == self.residents.len(),
                i <= n,
                out@ == self.residents@.take(i as int),
            decreases n - i,
        {
            out.push(self.residents[i].clone());
            proof {
                assert(out@ =~= self.residents@.take(i as int + 1));
            }
            i = i + 1;
        }
        proof {
            assert(self.residents@.take(n as int) =~= self.residents@);
        }
        out
    }

    /// Inserts a new resident and returns the assigned id. Fails with
    /// `Validation` exactly when the record is rejected by validation, and
    /// with `Store` exactly when the id space is exhausted; on success the
    /// record is appended unchanged except for the assigned id.
    pub fn insert_resident(&mut self, r: &Resident) -> (res: Result<i32, RepoError>)
        requires
            old(self).wf(),
        ensures
            final(self).wf(),
            only_residents_changed(*old(self), *final(self)),
            res is Ok <==> (resident_fields_ok(*r) && old(self).next_resident_id < i32::MAX),
            match res {
                Ok(id) => {
                    &&& id == old(self).next_resident_id
                    &&& final(self).residents@ == old(self).residents@.push(
                        Resident { id: Some(id), ..*r },
                    )
                    &&& final(self).next_resident_id == old(self).next_resident_id + 1
                },
                Err(e) => {
                    &&& *final(self) == *old(self)
                    &&& (e == RepoError::Validation <==> !resident_fields_ok(*r))
                    &&& (e == RepoError::Store <==> resident_fields_ok(*r) && old(self).next_resident_id == i32::MAX)
                },
            },
    {
        if !check_resident(r) {
            return Err(RepoError::Validation);
        }
        if self.next_resident_id == i32::MAX {
            return Err(RepoError::Store);
        }
        let id = self.next_resident_id;
        let mut stored = r.clone();
        stored.id = Some(id);
        proof {
            assert(resident_id()(stored) == Some(id));
            lemma_push_fresh_id(self.residents@, resident_id(), self.next_resident_id, stored);
        }
        self.residents.push(stored);
        self.next_resident_id = id + 1;
        proof {
            assert(incomes_nonneg(self.residents@)) by {
                assert forall|i: int|
                    0 <= i < self.residents@.len() && (#[trigger] self.residents@[i].average_monthly_income)
                        is Some implies self.residents@[i].average_monthly_income.unwrap()
                    >= 0 by {
                    if i < old(self).residents@.len() {
                        assert(self.residents@[i] == old(self).residents@[i]);
                    } else {
                        assert(self.residents@[i] == stored);
                    }
                }
            }
        }
        Ok(id)
    }

    /// Replaces the whole record carrying the same id and returns the
    /// affected count: 1 when the id was found, 0 — with the store
    /// untouched — when it was not, so a caller can detect a no-op update.
    /// Fails with `Validation` exactly when the record carries no id or is
    /// rejected by validation.
    pub fn update_resident(&mut self, r: &Resident) -> (res: Result<usize, RepoError>)
        requires
            old(self).wf(),
        ensures
            final(self).wf(),
            only_residents_changed(*old(self), *final(self)),
            final(self).next_resident_id == old(self).next_resident_id,
            res is Ok <==> (r.id is Some && resident_fields_ok(*r)),
            match res {
                Ok(n) => {
                    &&& (n == 1 <==> has_rec_id(
                        old(self).residents@,
                        resident_id(),
                        r.id.unwrap(),
                    ))
                    &&& (n == 0 || n == 1)
                    &&& (n == 0 ==> *final(self) == *old(self))
                    &&& (n == 1 ==> exists|k: int|
                        0 <= k < old(self).residents@.len() && #[trigger] old(self).residents@[k].id == r.id && final(self).residents@ == old(self).residents@.update(k, *r))
                },
                Err(e) => e == RepoError::Validation && *final(self) == *old(self),
            },
    {
        let has_id = match r.id {
            Some(_) => true,
            None => false,
        };
        if !has_id || !check_resident(r) {
            return Err(RepoError::Validation);
        }
        let id = match r.id {
            Some(x) => x,
            None => 0,
        };
        match find_resident_index(&self.residents, id) {
            None => Ok(0),
            Some(k) => {
                proof {
                    assert(resident_id()(*r) == r.id);
                    assert(resident_id()(self.residents@[k as int]) == self.residents@[k as int].id);
                    lemma_update_same_id(
                        self.residents@,
                        resident_id(),
                        self.next_resident_id,
                        k as int,
                        *r,
                    );
                    assert(has_rec_id(self.residents@, resident_id(), id));
                }
                self.residents.set(k, r.clone());
                proof {
                    assert forall|i: int|
                        0 <= i < self.residents@.len() && (#[trigger] self.residents@[i].average_monthly_income)
                            is Some implies self.residents@[i].average_monthly_income.unwrap()
                        >= 0 by {
                        if i != k {
                            assert(self.residents@[i] == old(self).residents@[i]);
                        }
                    }
                }
                Ok(1)
            },
        }
    }

    /// Upsert dispatch: a record carrying an id is routed to update — a
    /// missed id is reported as `NotFound`, never treated as success — and
    /// a record without one is routed to insert.
    pub fn save_resident(&mut self, r: &Resident) -> (res: Result<(), RepoError>)
        requires
            old(self).wf(),
        ensures
            final(self).wf(),
            only_residents_changed(*old(self), *final(self)),
            res is Ok <==> (resident_fields_ok(*r) && (if r.id is Some {
                has_rec_id(old(self).residents@, resident_id(), r.id.unwrap())
            } else {
                old(self).next_resident_id < i32::MAX
            })),
            match res {
                Ok(_) => {
                    if r.id is Some {
                        &&& exists|k: int|
                            0 <= k < old(self).residents@.len() && #[trigger] old(self).residents@[k].id == r.id && final(self).residents@ == old(self).residents@.update(k, *r)
                        &&& final(self).next_resident_id == old(self).next_resident_id
                    } else {
                        &&& final(self).residents@ == old(self).residents@.push(
                            Resident { id: Some(old(self).next_resident_id), ..*r },
                        )
                        &&& final(self).next_resident_id == old(self).next_resident_id + 1
                    }
                },
                Err(e) => {
                    &&& *final(self) == *old(self)
                    &&& (e == RepoError::Validation <==> !resident_fields_ok(*r))
                    &&& (e == RepoError::NotFound <==> resident_fields_ok(*r) && r.id is Some
                        && !has_rec_id(old(self).residents@, resident_id(), r.id.unwrap()))
                    &&& (e == RepoError::Store <==> resident_fields_ok(*r) && r.id is None && old(self).next_resident_id == i32::MAX)
                },
            },
    {
        let has_id = match r.id {
            Some(_) => true,
            None => false,
        };
        if has_id {
            match self.update_resident(r) {
                Ok(n) => {
                    if n == 0 {
                        Err(RepoError::NotFound)
                    } else {
                        Ok(())
                    }
                },
                Err(e) => Err(e),
            }
        } else {
            match self.insert_resident(r) {
                Ok(_) => Ok(()),
                Err(e) => Err(e),
            }
        }
    }

    /// Deletes the resident carrying the id. Idempotent: an id that no
    /// record carries — in particular, one already deleted — is matched by
    /// zero rows and the call succeeds silently.
    pub fn delete_resident(&mut self, id: i32)
        requires
            old(self).wf(),
        ensures
            final(self).wf(),
            only_residents_changed(*old(self), *final(self)),
            final(self).next_resident_id == old(self).next_resident_id,
            final(self).residents@ == remove_matching(old(self).residents@, resident_id(), id),
            forall|i: int|
                0 <= i < final(self).residents@.len()
                    ==> (#[trigger] final(self).residents@[i].id) != Some(id),
    {
        let n = self.residents.len();
        let mut out: Vec<Resident> = Vec::new();
        let mut i: usize = 0;
        while i < n
            invariant
                n == self.residents.len(),
                i <= n,
                out@ == remove_matching(self.residents@.take(i as int), resident_id(), id),
            decreases n - i,
        {
            proof {
                assert(self.residents@.take(i as int + 1).drop_last() =~= self.residents@.take(
                    i as int,
                ));
                assert(self.residents@.take(i as int + 1).last() == self.residents@[i as int]);
                assert(resident_id()(self.residents@[i as int]) == self.residents@[i as int].id);
            }
            let keep = match self.residents[i].id {
                Some(x) => x != id,
                None => true,
            };
            if keep {
                out.push(self.residents[i].clone());
            }
            i = i + 1;
        }
        proof {
            assert(self.residents@.take(n as int) =~= self.residents@);
            lemma_remove_matching_ids(self.residents@, resident_id(), self.next_resident_id, id);
            let rm = remove_matching(self.residents@, resident_id(), id);
            assert forall|j: int| 0 <= j < rm.len() implies #[trigger] rm[j].id != Some(id) by {
                assert(resident_id()(rm[j]) == rm[j].id);
            }
            assert(incomes_nonneg(rm)) by {
                assert forall|j: int|
                    0 <= j < rm.len() && (#[trigger] rm[j].average_monthly_income)
                        is Some implies rm[j].average_monthly_income.unwrap() >= 0 by {
                    assert(self.residents@.contains(rm[j]));
                    let m = choose|m: int|
                        0 <= m < self.residents@.len() && #[trigger] self.residents@[m] == rm[j];
                }
            }
        }
        self.residents = out;
    }
}

/// For any valid resident record, an insert followed by a fetch of all
/// residents yields a listing that contains exactly the stored record: the
/// input unchanged in every field except the assigned id.
pub proof fn lemma_insert_then_fetch_contains(rs: Seq<Resident>, r: Resident, id: i32)
    requires
        resident_fields_ok(r),
    ensures
        rs.push((Resident { id: Some(id), ..r })).contains((Resident { id: Some(id), ..r })),
        rs.push((Resident { id: Some(id), ..r }))[rs.len() as int] == (Resident {
            id: Some(id),
            ..r
        }),
{
    let stored = Resident { id: Some(id), ..r };
    assert(rs.push(stored)[rs.len() as int] == stored);
}

} // verus!
