use vstd::prelude::*;

use crate::errors::RepoError;
use crate::repo::{
    has_rec_id, ids_ok, lemma_push_fresh_id, lemma_remove_matching_ids, lemma_update_same_id,
    remove_matching,
};
use crate::store::{only_expenses_changed, only_incomes_changed, Store};

verus! {

/// A dated financial transaction: one row of the income or the expense
/// ledger. The amount is kept in centavos so money stays exact; `or_number`
/// is the official-receipt or voucher number; `counterparty` is who the
/// amount was received from or paid to, `recorded_by` who received or paid
/// it on the office's behalf.
pub struct LedgerEntry {
    pub id: Option<i32>,
    pub type_: String,
    pub amount: i64,
    pub or_number: i64,
    pub counterparty: String,
    pub recorded_by: String,
    pub category: String,
    pub date: String,
}

impl Clone for LedgerEntry {
    fn clone(&self) -> (r: Self)
        ensures
            r == *self,
    {
        LedgerEntry {
            id: self.id,
            type_: self.type_.clone(),
            amount: self.amount,
            or_number: self.or_number,
            counterparty: self.counterparty.clone(),
            recorded_by: self.recorded_by.clone(),
            category: self.category.clone(),
            date: self.date.clone(),
        }
    }
}

/// The id a ledger entry carries, as the store's id machinery reads it.
pub open spec fn ledger_id() -> spec_fn(LedgerEntry) -> Option<i32> {
    |e: LedgerEntry| e.id
}

/// A ledger entry the store accepts: the amount and the receipt number
/// cannot be negative.
pub open spec fn ledger_fields_ok(e: LedgerEntry) -> bool {
    &&& e.amount >= 0
    &&& e.or_number >= 0
}

/// Validates a ledger entry before any store access.
pub fn check_ledger_entry(e: &LedgerEntry) -> (ok: bool)
    ensures
        ok == ledger_fields_ok(*e),
{
    e.amount >= 0 && e.or_number >= 0
}

/// Scans a ledger for the entry carrying the id.
fn find_ledger_index(entries: &Vec<LedgerEntry>, id: i32) -> (found: Option<usize>)
    ensures
        match found {
            Some(k) => k < entries@.len() && entries@[k as int].id == Some(id),
            None => !has_rec_id(entries@, ledger_id(), id),
        },
{
    let n = entries.len();
    let mut i: usize = 0;
    while i < n
        invariant
            n == entries.len(),
            i <= n,
            forall|j: int| 0 <= j < i ==> #[trigger] entries@[j].id != Some(id),
        decreases n - i,
    {
        let hit = match entries[i].id {
            Some(x) => x == id,
            None => false,
        };
        if hit {
            return Some(i);
        }
        i = i + 1;
    }
    proof {
        assert forall|j: int| 0 <= j < entries@.len() implies #[trigger] ledger_id()(
            entries@[j],
        ) != Some(id) by {
            assert(ledger_id()(entries@[j]) == entries@[j].id);
        }
    }
    None
}

/// Copies a ledger in stored order; the income and the expense repository
/// share one fetch.
fn ledger_fetch(entries: &Vec<LedgerEntry>) -> (r: Vec<LedgerEntry>)
    ensures
        r@ == entries@,
{
    let n = entries.len();
    let mut out: Vec<LedgerEntry> = Vec::new();
    let mut i: usize = 0;
    while i < n
        invariant
            n == entries.len(),
            i <= n,
            out@ == entries@.take(i as int),
        decreases n - i,
    {
        out.push(entries[i].clone());
        proof {
            assert(out@ =~= entries@.take(i as int + 1));
        }
        i = i + 1;
    }
    proof {
        assert(entries@.take(n as int) =~= entries@);
    }
    out
}

/// Appends a validated entry under the next id; the income and the expense
/// repository share one insert.
fn ledger_insert(entries: &mut Vec<LedgerEntry>, next: &mut i32, e: &LedgerEntry) -> (res: Result<
    i32,
    RepoError,
>)
    requires
        ids_ok(old(entries)@, ledger_id(), *old(next)),
    ensures
        ids_ok(final(entries)@, ledger_id(), *final(next)),
        res is Ok <==> (ledger_fields_ok(*e) && *old(next) < i32::MAX),
        match res {
            Ok(id) => {
                &&& id == *old(next)
                &&& final(entries)@ == old(entries)@.push((LedgerEntry { id: Some(id), ..*e }))
                &&& *final(next) == *old(next) + 1
            },
            Err(err) => {
                &&& *final(entries) == *old(entries)
                &&& *final(next) == *old(next)
                &&& (err == RepoError::Validation <==> !ledger_fields_ok(*e))
                &&& (err == RepoError::Store <==> ledger_fields_ok(*e) && *old(next) == i32::MAX)
            },
        },
{
    if !check_ledger_entry(e) {
        return Err(RepoError::Validation);
    }
    if *next == i32::MAX {
        return Err(RepoError::Store);
    }
    let id = *next;
    let mut stored = e.clone();
    stored.id = Some(id);
    proof {
        assert(ledger_id()(stored) == Some(id));
        lemma_push_fresh_id(entries@, ledger_id(), *next, stored);
    }
    entries.push(stored);
    *next = id + 1;
    Ok(id)
}

/// Replaces the entry carrying the same id, reporting the affected count;
/// the income and the expense repository share one update.
fn ledger_update(entries: &mut Vec<LedgerEntry>, next: i32, e: &LedgerEntry) -> (res: Result<
    usize,
    RepoError,
>)
    requires
        ids_ok(old(entries)@, ledger_id(), next),
    ensures
        ids_ok(final(entries)@, ledger_id(), next),
        res is Ok <==> (e.id is Some && ledger_fields_ok(*e)),
        match res {
            Ok(n) => {
                &&& (n == 1 <==> has_rec_id(old(entries)@, ledger_id(), e.id.unwrap()))
                &&& (n == 0 || n == 1)
                &&& (n == 0 ==> *final(entries) == *old(entries))
                &&& (n == 1 ==> exists|k: int|
                    0 <= k < old(entries)@.len() && (#[trigger] old(entries)@[k].id) == e.id
                        && final(entries)@ == old(entries)@.update(k, *e))
            },
            Err(err) => err == RepoError::Validation && *final(entries) == *old(entries),
        },
{
    let has_id = match e.id {
        Some(_) => true,
        None => false,
    };
    if !has_id || !check_ledger_entry(e) {
        return Err(RepoError::Validation);
    }
    let id = match e.id {
        Some(x) => x,
        None => 0,
    };
    match find_ledger_index(entries, id) {
        None => Ok(0),
        Some(k) => {
            proof {
                assert(ledger_id()(*e) == e.id);
                assert(ledger_id()(entries@[k as int]) == entries@[k as int].id);
                lemma_update_same_id(entries@, ledger_id(), next, k as int, *e);
                assert(has_rec_id(entries@, ledger_id(), id));
            }
            entries.set(k, e.clone());
            Ok(1)
        },
    }
}

/// Removes every entry carrying the id; the income and the expense
/// repository share one delete.
fn ledger_delete(entries: &mut Vec<LedgerEntry>, next: i32, id: i32)
    requires
        ids_ok(old(entries)@, ledger_id(), next),
    ensures
        ids_ok(final(entries)@, ledger_id(), next),
        final(entries)@ == remove_matching(old(entries)@, ledger_id(), id),
        forall|i: int|
            0 <= i < final(entries)@.len() ==> (#[trigger] final(entries)@[i].id) != Some(id),
{
    let n = entries.len();
    let mut out: Vec<LedgerEntry> = Vec::new();
    let mut i: usize = 0;
    while i < n
        invariant
            n == entries.len(),
            i <= n,
            out@ == remove_matching(entries@.take(i as int), ledger_id(), id),
        decreases n - i,
    {
        proof {
            assert(entries@.take(i as int + 1).drop_last() =~= entries@.take(i as int));
            assert(entries@.take(i as int + 1).last() == entries@[i as int]);
            assert(ledger_id()(entries@[i as int]) == entries@[i as int].id);
        }
        let keep = match entries[i].id {
            Some(x) => x != id,
            None => true,
        };
        if keep {
            out.push(entries[i].clone());
        }
        i = i + 1;
    }
    proof {
        assert(entries@.take(n as int) =~= entries@);
        lemma_remove_matching_ids(entries@, ledger_id(), next, id);
        let rm = remove_matching(entries@, ledger_id(), id);
        assert forall|j: int| 0 <= j < rm.len() implies #[trigger] rm[j].id != Some(id) by {
            assert(ledger_id()(rm[j]) == rm[j].id);
        }
    }
    *entries = out;
}

impl Store {
    /// Every income entry, in stored (insertion) order; no row is filtered.
    pub fn fetch_all_incomes(&self) -> (r: Vec<LedgerEntry>)
        ensures
            r@ == self.incomes@,
    {
        ledger_fetch(&self.incomes)
    }

    /// Inserts a new income entry and returns the assigned id. Fails with
    /// `Validation` exactly when the entry is rejected by validation, and
    /// with `Store` exactly when the id space is exhausted.
    pub fn insert_income(&mut self, e: &LedgerEntry) -> (res: Result<i32, RepoError>)
        requires
            old(self).wf(),
        ensures
            final(self).wf(),
            only_incomes_changed(*old(self), *final(self)),
            res is Ok <==> (ledger_fields_ok(*e) && old(self).next_income_id < i32::MAX),
            match res {
                Ok(id) => {
                    &&& id == old(self).next_income_id
                    &&& final(self).incomes@ == old(self).incomes@.push(
                        (LedgerEntry { id: Some(id), ..*e }),
                    )
                    &&& final(self).next_income_id == old(self).next_income_id + 1
                },
                Err(err) => {
                    &&& *final(self) == *old(self)
                    &&& (err == RepoError::Validation <==> !ledger_fields_ok(*e))
                    &&& (err == RepoError::Store <==> ledger_fields_ok(*e)
                        && old(self).next_income_id == i32::MAX)
                },
            },
    {
        ledger_insert(&mut self.incomes, &mut self.next_income_id, e)
    }

    /// Replaces the whole income entry carrying the same id and returns the
    /// affected count: 1 when the id was found, 0 — with the store
    /// untouched — when it was not. Fails with `Validation` exactly when
    /// the entry carries no id or is rejected by validation.
    pub fn update_income(&mut self, e: &LedgerEntry) -> (res: Result<usize, RepoError>)
        requires
            old(self).wf(),
        ensures
            final(self).wf(),
            only_incomes_changed(*old(self), *final(self)),
            final(self).next_income_id == old(self).next_income_id,
            res is Ok <==> (e.id is Some && ledger_fields_ok(*e)),
            match res {
                Ok(n) => {
                    &&& (n == 1 <==> has_rec_id(old(self).incomes@, ledger_id(), e.id.unwrap()))
                    &&& (n == 0 || n == 1)
                    &&& (n == 0 ==> *final(self) == *old(self))
                    &&& (n == 1 ==> exists|k: int|
                        0 <= k < old(self).incomes@.len()
                            && (#[trigger] old(self).incomes@[k].id) == e.id
                            && final(self).incomes@ == old(self).incomes@.update(k, *e))
                },
                Err(err) => err == RepoError::Validation && *final(self) == *old(self),
            },
    {
        ledger_update(&mut self.incomes, self.next_income_id, e)
    }

    /// Upsert dispatch on the income ledger: an entry carrying an id is
    /// routed to update — a missed id is reported as `NotFound` — and an
    /// entry without one is routed to insert.
    pub fn save_income(&mut self, e: &LedgerEntry) -> (res: Result<(), RepoError>)
        requires
            old(self).wf(),
        ensures
            final(self).wf(),
            only_incomes_changed(*old(self), *final(self)),
            res is Ok <==> (ledger_fields_ok(*e) && (if e.id is Some {
                has_rec_id(old(self).incomes@, ledger_id(), e.id.unwrap())
            } else {
                old(self).next_income_id < i32::MAX
            })),
            match res {
                Ok(_) => {
                    if e.id is Some {
                        &&& exists|k: int|
                            0 <= k < old(self).incomes@.len()
                                && (#[trigger] old(self).incomes@[k].id) == e.id
                                && final(self).incomes@ == old(self).incomes@.update(k, *e)
                        &&& final(self).next_income_id == old(self).next_income_id
                    } else {
                        &&& final(self).incomes@ == old(self).incomes@.push(
                            (LedgerEntry { id: Some(old(self).next_income_id), ..*e }),
                        )
                        &&& final(self).next_income_id == old(self).next_income_id + 1
                    }
                },
                Err(err) => {
                    &&& *final(self) == *old(self)
                    &&& (err == RepoError::Validation <==> !ledger_fields_ok(*e))
                    &&& (err == RepoError::NotFound <==> ledger_fields_ok(*e) && e.id is Some
                        && !has_rec_id(old(self).incomes@, ledger_id(), e.id.unwrap()))
                    &&& (err == RepoError::Store <==> ledger_fields_ok(*e) && e.id is None && old(
                        self,
                    ).next_income_id == i32::MAX)
                },
            },
    {
        let has_id = match e.id {
            Some(_) => true,
            None => false,
        };
        if has_id {
            match self.update_income(e) {
                Ok(n) => {
                    if n == 0 {
                        Err(RepoError::NotFound)
                    } else {
                        Ok(())
                    }
                },
                Err(err) => Err(err),
            }
        } else {
            match self.insert_income(e) {
                Ok(_) => Ok(()),
                Err(err) => Err(err),
            }
        }
    }

    /// Deletes the income entry carrying the id. Idempotent: an id that no
    /// entry carries is matched by zero rows and the call succeeds silently.
    pub fn delete_income(&mut self, id: i32)
        requires
            old(self).wf(),
        ensures
            final(self).wf(),
            only_incomes_changed(*old(self), *final(self)),
            final(self).next_income_id == old(self).next_income_id,
            final(self).incomes@ == remove_matching(old(self).incomes@, ledger_id(), id),
            forall|i: int|
                0 <= i < final(self).incomes@.len()
                    ==> (#[trigger] final(self).incomes@[i].id) != Some(id),
    {
        ledger_delete(&mut self.incomes, self.next_income_id, id)
    }

    /// Every expense entry, in stored (insertion) order; no row is filtered.
    pub fn fetch_all_expenses(&self) -> (r: Vec<LedgerEntry>)
        ensures
            r@ == self.expenses@,
    {
        ledger_fetch(&self.expenses)
    }

    /// Inserts a new expense entry and returns the assigned id. Fails with
    /// `Validation` exactly when the entry is rejected by validation, and
    /// with `Store` exactly when the id space is exhausted.
    pub fn insert_expense(&mut self, e: &LedgerEntry) -> (res: Result<i32, RepoError>)
        requires
            old(self).wf(),
        ensures
            final(self).wf(),
            only_expenses_changed(*old(self), *final(self)),
            res is Ok <==> (ledger_fields_ok(*e) && old(self).next_expense_id < i32::MAX),
            match res {
                Ok(id) => {
                    &&& id == old(self).next_expense_id
                    &&& final(self).expenses@ == old(self).expenses@.push(
                        (LedgerEntry { id: Some(id), ..*e }),
                    )
                    &&& final(self).next_expense_id == old(self).next_expense_id + 1
                },
                Err(err) => {
                    &&& *final(self) == *old(self)
                    &&& (err == RepoError::Validation <==> !ledger_fields_ok(*e))
                    &&& (err == RepoError::Store <==> ledger_fields_ok(*e)
                        && old(self).next_expense_id == i32::MAX)
                },
            },
    {
        ledger_insert(&mut self.expenses, &mut self.next_expense_id, e)
    }

    /// Replaces the whole expense entry carrying the same id and returns the
    /// affected count: 1 when the id was found, 0 — with the store
    /// untouched — when it was not. Fails with `Validation` exactly when
    /// the entry carries no id or is rejected by validation.
    pub fn update_expense(&mut self, e: &LedgerEntry) -> (res: Result<usize, RepoError>)
        requires
            old(self).wf(),
        ensures
            final(self).wf(),
            only_expenses_changed(*old(self), *final(self)),
            final(self).next_expense_id == old(self).next_expense_id,
            res is Ok <==> (e.id is Some && ledger_fields_ok(*e)),
            match res {
                Ok(n) => {
                    &&& (n == 1 <==> has_rec_id(old(self).expenses@, ledger_id(), e.id.unwrap()))
                    &&& (n == 0 || n == 1)
                    &&& (n == 0 ==> *final(self) == *old(self))
                    &&& (n == 1 ==> exists|k: int|
                        0 <= k < old(self).expenses@.len()
                            && (#[trigger] old(self).expenses@[k].id) == e.id
                            && final(self).expenses@ == old(self).expenses@.update(k, *e))
                },
                Err(err) => err == RepoError::Validation && *final(self) == *old(self),
            },
    {
        ledger_update(&mut self.expenses, self.next_expense_id, e)
    }

    /// Upsert dispatch on the expense ledger: an entry carrying an id is
    /// routed to update — a missed id is reported as `NotFound` — and an
    /// entry without one is routed to insert.
    pub fn save_expense(&mut self, e: &LedgerEntry) -> (res: Result<(), RepoError>)
        requires
            old(self).wf(),
        ensures
            final(self).wf(),
            only_expenses_changed(*old(self), *final(self)),
            res is Ok <==> (ledger_fields_ok(*e) && (if e.id is Some {
                has_rec_id(old(self).expenses@, ledger_id(), e.id.unwrap())
            } else {
                old(self).next_expense_id < i32::MAX
            })),
            match res {
                Ok(_) => {
                    if e.id is Some {
                        &&& exists|k: int|
                            0 <= k < old(self).expenses@.len()
                                && (#[trigger] old(self).expenses@[k].id) == e.id
                                && final(self).expenses@ == old(self).expenses@.update(k, *e)
                        &&& final(self).next_expense_id == old(self).next_expense_id
                    } else {
                        &&& final(self).expenses@ == old(self).expenses@.push(
                            (LedgerEntry { id: Some(old(self).next_expense_id), ..*e }),
                        )
                        &&& final(self).next_expense_id == old(self).next_expense_id + 1
                    }
                },
                Err(err) => {
                    &&& *final(self) == *old(self)
                    &&& (err == RepoError::Validation <==> !ledger_fields_ok(*e))
                    &&& (err == RepoError::NotFound <==> ledger_fields_ok(*e) && e.id is Some
                        && !has_rec_id(old(self).expenses@, ledger_id(), e.id.unwrap()))
                    &&& (err == RepoError::Store <==> ledger_fields_ok(*e) && e.id is None && old(
                        self,
                    ).next_expense_id == i32::MAX)
                },
            },
    {
        let has_id = match e.id {
            Some(_) => true,
            None => false,
        };
        if has_id {
            match self.update_expense(e) {
                Ok(n) => {
                    if n == 0 {
                        Err(RepoError::NotFound)
                    } else {
                        Ok(())
                    }
                },
                Err(err) => Err(err),
            }
        } else {
            match self.insert_expense(e) {
                Ok(_) => Ok(()),
                Err(err) => Err(err),
            }
        }
    }

    /// Deletes the expense entry carrying the id. Idempotent: an id that no
    /// entry carries is matched by zero rows and the call succeeds silently.
    pub fn delete_expense(&mut self, id: i32)
        requires
            old(self).wf(),
        ensures
            final(self).wf(),
            only_expenses_changed(*old(self), *final(self)),
            final(self).next_expense_id == old(self).next_expense_id,
            final(self).expenses@ == remove_matching(old(self).expenses@, ledger_id(), id),
            forall|i: int|
                0 <= i < final(self).expenses@.len()
                    ==> (#[trigger] final(self).expenses@[i].id) != Some(id),
    {
        ledger_delete(&mut self.expenses, self.next_expense_id, id)
    }
}

} // verus!
