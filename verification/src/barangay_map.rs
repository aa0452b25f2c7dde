use vstd::prelude::*;

use crate::errors::RepoError;
use crate::repo::{
    has_rec_id, lemma_push_fresh_id, lemma_remove_matching_ids, lemma_update_same_id,
    remove_matching,
};
use crate::residents::{find_resident_index, resident_id, Resident};
use crate::store::{only_pins_changed, Store};
use crate::text::{full_name, full_name_view, str_eq};

verus! {

/// A household's pin on the barangay map: a named point plus the house
/// number, zone and section it marks. Coordinates are kept as fixed-point
/// map units so positions stay exact. A pin's name is unique among pins —
/// one pin stands for one household's physical location — and the
/// save-from-resident workflow links a pin back to a resident by full name.
pub struct MapPin {
    pub id: Option<i32>,
    pub name: String,
    pub x: i64,
    pub y: i64,
    pub house_number: String,
    pub zone: String,
    pub section: String,
}

impl Clone for MapPin {
    fn clone(&self) -> (r: Self)
        ensures
            r == *self,
    {
        MapPin {
            id: self.id,
            name: self.name.clone(),
            x: self.x,
            y: self.y,
            house_number: self.house_number.clone(),
            zone: self.zone.clone(),
            section: self.section.clone(),
        }
    }
}

/// The id a map pin carries, as the store's id machinery reads it.
pub open spec fn pin_id() -> spec_fn(MapPin) -> Option<i32> {
    |p: MapPin| p.id
}

/// A pin record the store accepts: the name that identifies the household
/// must be present.
pub open spec fn pin_fields_ok(p: MapPin) -> bool {
    p.name@.len() > 0
}

/// Validates a pin record before any store access.
pub fn check_pin(p: &MapPin) -> (ok: bool)
    ensures
        ok == pin_fields_ok(*p),
{
    !p.name.as_str().is_empty()
}

/// Whether some pin already carries the name.
pub open spec fn pin_name_taken(pins: Seq<MapPin>, name: Seq<char>) -> bool {
    exists|i: int| 0 <= i < pins.len() && #[trigger] pins[i].name@ == name
}

/// No two pins share a name.
pub open spec fn pin_names_unique(pins: Seq<MapPin>) -> bool {
    forall|i: int, j: int|
        0 <= i < j < pins.len() ==> #[trigger] pins[i].name@ != #[trigger] pins[j].name@
}

/// Scans the pins for one carrying the name.
pub fn find_pin_name(pins: &Vec<MapPin>, name: &str) -> (found: bool)
    ensures
        found == pin_name_taken(pins@, name@),
{
    let n = pins.len();
    let mut i: usize = 0;
    while i < n
        invariant
            n == pins.len(),
            i <= n,
            forall|j: int| 0 <= j < i ==> #[trigger] pins@[j].name@ != name@,
        decreases n - i,
    {
        if str_eq(pins[i].name.as_str(), name) {
            return true;
        }
        i = i + 1;
    }
    false
}

/// Whether a pin other than the one at index `k` carries the name.
pub open spec fn pin_name_taken_elsewhere(pins: Seq<MapPin>, name: Seq<char>, k: int) -> bool {
    exists|i: int| 0 <= i < pins.len() && i != k && #[trigger] pins[i].name@ == name
}

/// Scans the pins, skipping index `k`, for one carrying the name.
fn find_pin_name_elsewhere(pins: &Vec<MapPin>, name: &str, k: usize) -> (found: bool)
    ensures
        found == pin_name_taken_elsewhere(pins@, name@, k as int),
{
    let n = pins.len();
    let mut i: usize = 0;
    while i < n
        invariant
            n == pins.len(),
            i <= n,
            forall|j: int| 0 <= j < i && j != k ==> #[trigger] pins@[j].name@ != name@,
        decreases n - i,
    {
        if i != k && str_eq(pins[i].name.as_str(), name) {
            return true;
        }
        i = i + 1;
    }
    false
}

/// Scans the pins for the record carrying the id.
fn find_pin_index(pins: &Vec<MapPin>, id: i32) -> (found: Option<usize>)
    ensures
        match found {
            Some(k) => k < pins@.len() && pins@[k as int].id == Some(id),
            None => !has_rec_id(pins@, pin_id(), id),
        },
{
    let n = pins.len();
    let mut i: usize = 0;
    while i < n
        invariant
            n == pins.len(),
            i <= n,
            forall|j: int| 0 <= j < i ==> #[trigger] pins@[j].id != Some(id),
        decreases n - i,
    {
        let hit = match pins[i].id {
            Some(x) => x == id,
            None => false,
        };
        if hit {
            return Some(i);
        }
        i = i + 1;
    }
    proof {
        assert forall|j: int| 0 <= j < pins@.len() implies #[trigger] pin_id()(pins@[j]) != Some(
            id,
        ) by {
            assert(pin_id()(pins@[j]) == pins@[j].id);
        }
    }
    None
}

/// The name the save-from-resident workflow composes for the resident at
/// index `k`: the resident's full name.
pub open spec fn resident_pin_name(rs: Seq<Resident>, k: int) -> Seq<char> {
    full_name_view(rs[k].first_name@, rs[k].last_name@)
}

impl Store {
    /// Every map pin, in stored (insertion) order; no row is filtered.
    pub fn fetch_map_pins(&self) -> (r: Vec<MapPin>)
        ensures
            r@ == self.pins@,
    {
        let n = self.pins.len();
        let mut out: Vec<MapPin> = Vec::new();
        let mut i: usize = 0;
        while i < n
            invariant
                n == self.pins.len(),
                i <= n,
                out@ == self.pins@.take(i as int),
            decreases n - i,
        {
            out.push(self.pins[i].clone());
            proof {
                assert(out@ =~= self.pins@.take(i as int + 1));
            }
            i = i + 1;
        }
        proof {
            assert(self.pins@.take(n as int) =~= self.pins@);
        }
        out
    }

    /// Inserts a new pin and returns the assigned id. Fails with
    /// `Validation` exactly when the record is rejected by validation, with
    /// `Duplicate` exactly when a stored pin already carries the name —
    /// never two successes for one name — and with `Store` exactly when the
    /// id space is exhausted.
    pub fn insert_map_pin(&mut self, p: &MapPin) -> (res: Result<i32, RepoError>)
        requires
            old(self).wf(),
        ensures
            final(self).wf(),
            only_pins_changed(*old(self), *final(self)),
            res is Ok <==> (pin_fields_ok(*p) && !pin_name_taken(old(self).pins@, p.name@)
                && old(self).next_pin_id < i32::MAX),
            match res {
                Ok(id) => {
                    &&& id == old(self).next_pin_id
                    &&& final(self).pins@ == old(self).pins@.push((MapPin { id: Some(id), ..*p }))
                    &&& final(self).next_pin_id == old(self).next_pin_id + 1
                },
                Err(e) => {
                    &&& *final(self) == *old(self)
                    &&& (e == RepoError::Validation <==> !pin_fields_ok(*p))
                    &&& (e == RepoError::Duplicate <==> pin_fields_ok(*p) && pin_name_taken(
                        old(self).pins@,
                        p.name@,
                    ))
                    &&& (e == RepoError::Store <==> pin_fields_ok(*p) && !pin_name_taken(
                        old(self).pins@,
                        p.name@,
                    ) && old(self).next_pin_id == i32::MAX)
                },
            },
    {
        if !check_pin(p) {
            return Err(RepoError::Validation);
        }
        if find_pin_name(&self.pins, p.name.as_str()) {
            return Err(RepoError::Duplicate);
        }
        if self.next_pin_id == i32::MAX {
            return Err(RepoError::Store);
        }
        let id = self.next_pin_id;
        let mut stored = p.clone();
        stored.id = Some(id);
        proof {
            assert(pin_id()(stored) == Some(id));
            lemma_push_fresh_id(self.pins@, pin_id(), self.next_pin_id, stored);
        }
        self.pins.push(stored);
        self.next_pin_id = id + 1;
        proof {
            assert forall|i: int, j: int|
                0 <= i < j < self.pins@.len() implies #[trigger] self.pins@[i].name@
                != #[trigger] self.pins@[j].name@ by {
                if j == self.pins@.len() - 1 {
                    assert(self.pins@[i] == old(self).pins@[i]);
                    assert(self.pins@[j] == stored);
                }
            }
        }
        Ok(id)
    }

    /// Replaces the whole pin carrying the same id and returns the affected
    /// count: 1 when the id was found, 0 — with the store untouched — when
    /// it was not. Fails with `Validation` exactly when the record carries
    /// no id or is rejected by validation, and with `Duplicate` exactly when
    /// the new name is already carried by a different pin, which would break
    /// name uniqueness.
    pub fn update_map_pin(&mut self, p: &MapPin) -> (res: Result<usize, RepoError>)
        requires
            old(self).wf(),
        ensures
            final(self).wf(),
            only_pins_changed(*old(self), *final(self)),
            final(self).next_pin_id == old(self).next_pin_id,
            res is Ok <==> (p.id is Some && pin_fields_ok(*p) && (forall|k: int|
                0 <= k < old(self).pins@.len() && (#[trigger] old(self).pins@[k].id) == p.id
                    ==> !pin_name_taken_elsewhere(old(self).pins@, p.name@, k))),
            match res {
                Ok(n) => {
                    &&& (n == 1 <==> has_rec_id(old(self).pins@, pin_id(), p.id.unwrap()))
                    &&& (n == 0 || n == 1)
                    &&& (n == 0 ==> *final(self) == *old(self))
                    &&& (n == 1 ==> exists|k: int|
                        0 <= k < old(self).pins@.len() && (#[trigger] old(self).pins@[k].id)
                            == p.id && final(self).pins@ == old(self).pins@.update(k, *p))
                },
                Err(e) => {
                    &&& *final(self) == *old(self)
                    &&& (e == RepoError::Validation <==> (p.id is None || !pin_fields_ok(*p)))
                    &&& (e == RepoError::Duplicate <==> p.id is Some && pin_fields_ok(*p)
                        && (exists|k: int|
                        0 <= k < old(self).pins@.len() && (#[trigger] old(self).pins@[k].id)
                            == p.id && pin_name_taken_elsewhere(old(self).pins@, p.name@, k)))
                },
            },
    {
        let has_id = match p.id {
            Some(_) => true,
            None => false,
        };
        if !has_id || !check_pin(p) {
            return Err(RepoError::Validation);
        }
        let id = match p.id {
            Some(x) => x,
            None => 0,
        };
        match find_pin_index(&self.pins, id) {
            None => {
                proof {
                    assert forall|k2: int|
                        0 <= k2 < self.pins@.len() implies (#[trigger] self.pins@[k2].id)
                        != p.id by {
                        assert(pin_id()(self.pins@[k2]) == self.pins@[k2].id);
                    }
                }
                Ok(0)
            },
            Some(k) => {
                if find_pin_name_elsewhere(&self.pins, p.name.as_str(), k) {
                    return Err(RepoError::Duplicate);
                }
                proof {
                    assert(pin_id()(*p) == p.id);
                    assert(pin_id()(self.pins@[k as int]) == self.pins@[k as int].id);
                    lemma_update_same_id(self.pins@, pin_id(), self.next_pin_id, k as int, *p);
                    assert(has_rec_id(self.pins@, pin_id(), id));
                    // the record carrying the id is unique, so the forall in
                    // the success condition comes down to index k
                    assert forall|k2: int|
                        0 <= k2 < self.pins@.len() && (#[trigger] self.pins@[k2].id) == p.id
                            implies k2 == k as int by {
                        if k2 != k as int {
                            assert(pin_id()(self.pins@[k2]) == Some(id));
                            assert(pin_id()(self.pins@[k as int]) == Some(id));
                        }
                    }
                }
                self.pins.set(k, p.clone());
                proof {
                    assert forall|i: int, j: int|
                        0 <= i < j < self.pins@.len() implies #[trigger] self.pins@[i].name@
                        != #[trigger] self.pins@[j].name@ by {
                        if i != k as int && j != k as int {
                            assert(self.pins@[i] == old(self).pins@[i]);
                            assert(self.pins@[j] == old(self).pins@[j]);
                        }
                    }
                }
                Ok(1)
            },
        }
    }

    /// Upsert dispatch: a pin carrying an id is routed to update — a missed
    /// id is reported as `NotFound` — and a pin without one is routed to
    /// insert.
    pub fn save_map_pin(&mut self, p: &MapPin) -> (res: Result<(), RepoError>)
        requires
            old(self).wf(),
        ensures
            final(self).wf(),
            only_pins_changed(*old(self), *final(self)),
            res is Ok <==> (pin_fields_ok(*p) && (if p.id is Some {
                has_rec_id(old(self).pins@, pin_id(), p.id.unwrap()) && (forall|k: int|
                    0 <= k < old(self).pins@.len() && (#[trigger] old(self).pins@[k].id) == p.id
                        ==> !pin_name_taken_elsewhere(old(self).pins@, p.name@, k))
            } else {
                !pin_name_taken(old(self).pins@, p.name@) && old(self).next_pin_id < i32::MAX
            })),
            match res {
                Ok(_) => {
                    if p.id is Some {
                        &&& exists|k: int|
                            0 <= k < old(self).pins@.len() && (#[trigger] old(self).pins@[k].id)
                                == p.id && final(self).pins@ == old(self).pins@.update(k, *p)
                        &&& final(self).next_pin_id == old(self).next_pin_id
                    } else {
                        &&& final(self).pins@ == old(self).pins@.push(
                            (MapPin { id: Some(old(self).next_pin_id), ..*p }),
                        )
                        &&& final(self).next_pin_id == old(self).next_pin_id + 1
                    }
                },
                Err(e) => {
                    &&& *final(self) == *old(self)
                    &&& (e == RepoError::Validation <==> !pin_fields_ok(*p))
                    &&& (e == RepoError::NotFound <==> pin_fields_ok(*p) && p.id is Some
                        && !has_rec_id(old(self).pins@, pin_id(), p.id.unwrap()))
                    &&& (e == RepoError::Duplicate <==> pin_fields_ok(*p) && (if p.id is Some {
                        exists|k: int|
                            0 <= k < old(self).pins@.len() && (#[trigger] old(self).pins@[k].id)
                                == p.id && pin_name_taken_elsewhere(old(self).pins@, p.name@, k)
                    } else {
                        pin_name_taken(old(self).pins@, p.name@)
                    }))
                    &&& (e == RepoError::Store <==> pin_fields_ok(*p) && p.id is None
                        && !pin_name_taken(old(self).pins@, p.name@) && old(self).next_pin_id
                        == i32::MAX)
                },
            },
    {
        proof {
            assert forall|k2: int|
                0 <= k2 < self.pins@.len() implies pin_id()(self.pins@[k2])
                == (#[trigger] self.pins@[k2].id) by {}
        }
        let has_id = match p.id {
            Some(_) => true,
            None => false,
        };
        if has_id {
            match self.update_map_pin(p) {
                Ok(n) => {
                    if n == 0 {
                        Err(RepoError::NotFound)
                    } else {
                        Ok(())
                    }
                },
                Err(e) => Err(e),
            }
        } else {
            match self.insert_map_pin(p) {
                Ok(_) => Ok(()),
                Err(e) => Err(e),
            }
        }
    }

    /// Deletes the pin carrying the id. Idempotent: an id that no pin
    /// carries is matched by zero rows and the call succeeds silently.
    pub fn delete_map_pin(&mut self, id: i32)
        requires
            old(self).wf(),
        ensures
            final(self).wf(),
            only_pins_changed(*old(self), *final(self)),
            final(self).next_pin_id == old(self).next_pin_id,
            final(self).pins@ == remove_matching(old(self).pins@, pin_id(), id),
            forall|i: int|
                0 <= i < final(self).pins@.len() ==> (#[trigger] final(self).pins@[i].id) != Some(
                    id,
                ),
    {
        let n = self.pins.len();
        let mut out: Vec<MapPin> = Vec::new();
        let mut i: usize = 0;
        while i < n
            invariant
                n == self.pins.len(),
                i <= n,
                out@ == remove_matching(self.pins@.take(i as int), pin_id(), id),
            decreases n - i,
        {
            proof {
                assert(self.pins@.take(i as int + 1).drop_last() =~= self.pins@.take(i as int));
                assert(self.pins@.take(i as int + 1).last() == self.pins@[i as int]);
                assert(pin_id()(self.pins@[i as int]) == self.pins@[i as int].id);
            }
            let keep = match self.pins[i].id {
                Some(x) => x != id,
                None => true,
            };
            if keep {
                out.push(self.pins[i].clone());
            }
            i = i + 1;
        }
        proof {
            assert(self.pins@.take(n as int) =~= self.pins@);
            lemma_remove_matching_ids(self.pins@, pin_id(), self.next_pin_id, id);
            let rm = remove_matching(self.pins@, pin_id(), id);
            assert forall|j: int| 0 <= j < rm.len() implies #[trigger] rm[j].id != Some(id) by {
                assert(pin_id()(rm[j]) == rm[j].id);
            }
            assert forall|a: int, b: int|
                0 <= a < b < rm.len() implies #[trigger] rm[a].name@ != #[trigger] rm[b].name@ by {
                assert(self.pins@.contains(rm[a]));
                assert(self.pins@.contains(rm[b]));
                let m1 = choose|m: int| 0 <= m < self.pins@.len() && #[trigger] self.pins@[m] == rm[a];
                let m2 = choose|m: int| 0 <= m < self.pins@.len() && #[trigger] self.pins@[m] == rm[b];
                if m1 == m2 {
                    // the two survivors would be the same stored pin, yet
                    // their ids differ because the surviving ids stay
                    // pairwise distinct
                    assert(pin_id()(rm[a]) != pin_id()(rm[b]));
                } else if m1 < m2 {
                    assert(self.pins@[m1].name@ != self.pins@[m2].name@);
                } else {
                    assert(self.pins@[m2].name@ != self.pins@[m1].name@);
                }
            }
        }
        self.pins = out;
    }

    /// The save-from-resident workflow: looks up the resident by id —
    /// `NotFound` if absent — composes the pin name from the resident's full
    /// name, rejects it as `Duplicate` if a pin already carries that name,
    /// and otherwise inserts a new pin at `(x, y)` under that name,
    /// returning the assigned id. The read-check-then-write runs as one
    /// logical step against this store, so no second save of the same
    /// resident's name can slip between the check and the insert.
    pub fn save_map_pin_from_resident(
        &mut self,
        rid: i32,
        x: i64,
        y: i64,
        house_number: &str,
        zone: &str,
        section: &str,
    ) -> (res: Result<i32, RepoError>)
        requires
            old(self).wf(),
        ensures
            final(self).wf(),
            only_pins_changed(*old(self), *final(self)),
            res is Ok <==> ((exists|k: int|
                0 <= k < old(self).residents@.len() && (#[trigger] old(self).residents@[k].id)
                    == Some(rid) && !pin_name_taken(
                    old(self).pins@,
                    resident_pin_name(old(self).residents@, k),
                )) && old(self).next_pin_id < i32::MAX),
            match res {
                Ok(id) => {
                    &&& id == old(self).next_pin_id
                    &&& final(self).next_pin_id == old(self).next_pin_id + 1
                    &&& final(self).pins@.len() == old(self).pins@.len() + 1
                    &&& (forall|j: int|
                        0 <= j < old(self).pins@.len() ==> #[trigger] final(self).pins@[j] == old(self).pins@[j])
                    &&& (exists|k: int|
                        0 <= k < old(self).residents@.len() && (#[trigger] old(self).residents@[k].id) == Some(rid) && final(self).pins@.last().name@
                            == resident_pin_name(old(self).residents@, k))
                    &&& final(self).pins@.last().id == Some(id)
                    &&& final(self).pins@.last().x == x
                    &&& final(self).pins@.last().y == y
                    &&& final(self).pins@.last().house_number@ == house_number@
                    &&& final(self).pins@.last().zone@ == zone@
                    &&& final(self).pins@.last().section@ == section@
                },
                Err(e) => {
                    &&& *final(self) == *old(self)
                    &&& (e == RepoError::NotFound <==> !has_rec_id(
                        old(self).residents@,
                        resident_id(),
                        rid,
                    ))
                    &&& (e == RepoError::Duplicate <==> exists|k: int|
                        0 <= k < old(self).residents@.len() && (#[trigger] old(self).residents@[k].id) == Some(rid) && pin_name_taken(
                            old(self).pins@,
                            resident_pin_name(old(self).residents@, k),
                        ))
                    &&& (e == RepoError::Store <==> (exists|k: int|
                        0 <= k < old(self).residents@.len() && (#[trigger] old(self).residents@[k].id) == Some(rid) && !pin_name_taken(
                            old(self).pins@,
                            resident_pin_name(old(self).residents@, k),
                        )) && old(self).next_pin_id == i32::MAX)
                },
            },
    {
        match find_resident_index(&self.residents, rid) {
            None => {
                proof {
                    assert forall|k2: int|
                        0 <= k2 < self.residents@.len() implies (#[trigger] self.residents@[k2].id)
                        != Some(rid) by {
                        assert(resident_id()(self.residents@[k2]) == self.residents@[k2].id);
                    }
                }
                Err(RepoError::NotFound)
            },
            Some(k) => {
                proof {
                    // the record carrying the id is unique, so every clause
                    // quantified over it comes down to index k
                    assert(resident_id()(self.residents@[k as int])
                        == self.residents@[k as int].id);
                    assert forall|k2: int|
                        0 <= k2 < self.residents@.len() && (#[trigger] self.residents@[k2].id)
                            == Some(rid) implies k2 == k as int by {
                        if k2 != k as int {
                            assert(resident_id()(self.residents@[k2]) == Some(rid));
                        }
                    }
                }
                let nm = full_name(
                    self.residents[k].first_name.as_str(),
                    self.residents[k].last_name.as_str(),
                );
                let pin = MapPin {
                    id: None,
                    name: nm,
                    x,
                    y,
                    house_number: house_number.to_owned(),
                    zone: zone.to_owned(),
                    section: section.to_owned(),
                };
                proof {
                    assert(pin.name@ == resident_pin_name(self.residents@, k as int));
                    assert(pin_fields_ok(pin));
                }
                match self.insert_map_pin(&pin) {
                    Ok(id) => {
                        proof {
                            assert(self.pins@.last() == (MapPin { id: Some(id), ..pin }));
                            assert((k as int) < old(self).residents@.len());
                            assert(old(self).residents@[k as int].id == Some(rid));
                            assert(self.pins@.last().name@ == resident_pin_name(
                                old(self).residents@,
                                k as int,
                            ));
                            assert(!pin_name_taken(
                                old(self).pins@,
                                resident_pin_name(old(self).residents@, k as int),
                            ));
                        }
                        Ok(id)
                    },
                    Err(e) => {
                        proof {
                            assert((k as int) < old(self).residents@.len());
                            assert(old(self).residents@[k as int].id == Some(rid));
                            assert(pin.name@ == resident_pin_name(
                                old(self).residents@,
                                k as int,
                            ));
                        }
                        Err(e)
                    },
                }
            },
        }
    }
}

/// Map-pin name uniqueness across two inserts: in a store where the name is
/// still free — so a first insert of a pin with that name succeeds and
/// appends it — the name is taken afterwards, and by the insert contract's
/// error clauses any further insert of that name is rejected as `Duplicate`:
/// one success, never two.
pub proof fn lemma_pin_name_uniqueness(pins: Seq<MapPin>, p: MapPin, q: MapPin, id: i32)
    requires
        !pin_name_taken(pins, p.name@),
        q.name@ == p.name@,
    ensures
        pin_name_taken(pins.push((MapPin { id: Some(id), ..p })), q.name@),
{
    let stored = MapPin { id: Some(id), ..p };
    assert(pins.push(stored)[pins.len() as int].name@ == q.name@);
}

} // verus!
