use vstd::prelude::*;

use crate::barangay_map::{pin_id, pin_names_unique, MapPin};
use crate::blotters::{blotter_id, Blotter};
use crate::ledger::{ledger_id, LedgerEntry};
use crate::officials::{official_id, Official};
use crate::repo::ids_ok;
use crate::residents::{resident_id, Resident};
use crate::schema::{tables_distinct, Table};
use crate::settings::Settings;

verus! {

/// The relational store: the schema state plus one table per entity family,
/// each with the next id the store will assign. The handle is passed
/// explicitly into every repository call; nothing is process-global.
pub struct Store {
    pub tables: Vec<Table>,
    pub settings: Option<Settings>,
    pub residents: Vec<Resident>,
    pub next_resident_id: i32,
    pub pins: Vec<MapPin>,
    pub next_pin_id: i32,
    pub officials: Vec<Official>,
    pub next_official_id: i32,
    pub blotters: Vec<Blotter>,
    pub next_blotter_id: i32,
    pub incomes: Vec<LedgerEntry>,
    pub next_income_id: i32,
    pub expenses: Vec<LedgerEntry>,
    pub next_expense_id: i32,
}

/// Every stored resident with a declared income declares it non-negative —
/// established by validation on insert and update, and what makes household
/// income sums meaningful.
pub open spec fn incomes_nonneg(rs: Seq<Resident>) -> bool {
    forall|i: int|
        0 <= i < rs.len() ==> ((#[trigger] rs[i].average_monthly_income) is Some
            ==> rs[i].average_monthly_income.unwrap() >= 0)
}

impl Store {
    /// The store's invariant: each table's ids are well formed, no two map
    /// pins share a name, declared incomes are non-negative, and no table
    /// of the schema exists twice.
    pub open spec fn wf(self) -> bool {
        &&& ids_ok(self.residents@, resident_id(), self.next_resident_id)
        &&& incomes_nonneg(self.residents@)
        &&& ids_ok(self.pins@, pin_id(), self.next_pin_id)
        &&& pin_names_unique(self.pins@)
        &&& ids_ok(self.officials@, official_id(), self.next_official_id)
        &&& ids_ok(self.blotters@, blotter_id(), self.next_blotter_id)
        &&& ids_ok(self.incomes@, ledger_id(), self.next_income_id)
        &&& ids_ok(self.expenses@, ledger_id(), self.next_expense_id)
        &&& tables_distinct(self.tables@)
    }

    /// An empty store: no tables yet, no rows, no settings; ids start at 1.
    pub fn new() -> (s: Store)
        ensures
            s.wf(),
            s.tables@ == Seq::<Table>::empty(),
            s.settings is None,
            s.residents@ == Seq::<Resident>::empty(),
            s.pins@ == Seq::<MapPin>::empty(),
            s.officials@ == Seq::<Official>::empty(),
            s.blotters@ == Seq::<Blotter>::empty(),
            s.incomes@ == Seq::<LedgerEntry>::empty(),
            s.expenses@ == Seq::<LedgerEntry>::empty(),
            s.next_resident_id == 1,
            s.next_pin_id == 1,
            s.next_official_id == 1,
            s.next_blotter_id == 1,
            s.next_income_id == 1,
            s.next_expense_id == 1,
    {
        Store {
            tables: Vec::new(),
            settings: None,
            residents: Vec::new(),
            next_resident_id: 1,
            pins: Vec::new(),
            next_pin_id: 1,
            officials: Vec::new(),
            next_official_id: 1,
            blotters: Vec::new(),
            next_blotter_id: 1,
            incomes: Vec::new(),
            next_income_id: 1,
            expenses: Vec::new(),
            next_expense_id: 1,
        }
    }
}

/// The two stores agree on the resident table.
pub open spec fn same_residents(a: Store, b: Store) -> bool {
    a.residents == b.residents && a.next_resident_id == b.next_resident_id
}

/// The two stores agree on the map-pin table.
pub open spec fn same_pins(a: Store, b: Store) -> bool {
    a.pins == b.pins && a.next_pin_id == b.next_pin_id
}

/// The two stores agree on the officials table.
pub open spec fn same_officials(a: Store, b: Store) -> bool {
    a.officials == b.officials && a.next_official_id == b.next_official_id
}

/// The two stores agree on the blotter table.
pub open spec fn same_blotters(a: Store, b: Store) -> bool {
    a.blotters == b.blotters && a.next_blotter_id == b.next_blotter_id
}

/// The two stores agree on the income ledger.
pub open spec fn same_incomes(a: Store, b: Store) -> bool {
    a.incomes == b.incomes && a.next_income_id == b.next_income_id
}

/// The two stores agree on the expense ledger.
pub open spec fn same_expenses(a: Store, b: Store) -> bool {
    a.expenses == b.expenses && a.next_expense_id == b.next_expense_id
}

/// The two stores agree on the settings record.
pub open spec fn same_settings(a: Store, b: Store) -> bool {
    a.settings == b.settings
}

/// The two stores agree on the schema state.
pub open spec fn same_tables(a: Store, b: Store) -> bool {
    a.tables == b.tables
}

/// Only the resident table may differ: every other part of the store is as
/// it was.
pub open spec fn only_residents_changed(a: Store, b: Store) -> bool {
    &&& same_tables(a, b)
    &&& same_settings(a, b)
    &&& same_pins(a, b)
    &&& same_officials(a, b)
    &&& same_blotters(a, b)
    &&& same_incomes(a, b)
    &&& same_expenses(a, b)
}

/// Only the map-pin table may differ.
pub open spec fn only_pins_changed(a: Store, b: Store) -> bool {
    &&& same_tables(a, b)
    &&& same_settings(a, b)
    &&& same_residents(a, b)
    &&& same_officials(a, b)
    &&& same_blotters(a, b)
    &&& same_incomes(a, b)
    &&& same_expenses(a, b)
}

/// Only the officials table may differ.
pub open spec fn only_officials_changed(a: Store, b: Store) -> bool {
    &&& same_tables(a, b)
    &&& same_settings(a, b)
    &&& same_residents(a, b)
    &&& same_pins(a, b)
    &&& same_blotters(a, b)
    &&& same_incomes(a, b)
    &&& same_expenses(a, b)
}

/// Only the blotter table may differ.
pub open spec fn only_blotters_changed(a: Store, b: Store) -> bool {
    &&& same_tables(a, b)
    &&& same_settings(a, b)
    &&& same_residents(a, b)
    &&& same_pins(a, b)
    &&& same_officials(a, b)
    &&& same_incomes(a, b)
    &&& same_expenses(a, b)
}

/// Only the income ledger may differ.
pub open spec fn only_incomes_changed(a: Store, b: Store) -> bool {
    &&& same_tables(a, b)
    &&& same_settings(a, b)
    &&& same_residents(a, b)
    &&& same_pins(a, b)
    &&& same_officials(a, b)
    &&& same_blotters(a, b)
    &&& same_expenses(a, b)
}

/// Only the expense ledger may differ.
pub open spec fn only_expenses_changed(a: Store, b: Store) -> bool {
    &&& same_tables(a, b)
    &&& same_settings(a, b)
    &&& same_residents(a, b)
    &&& same_pins(a, b)
    &&& same_officials(a, b)
    &&& same_blotters(a, b)
    &&& same_incomes(a, b)
}

/// Only the settings record may differ.
pub open spec fn only_settings_changed(a: Store, b: Store) -> bool {
    &&& same_tables(a, b)
    &&& same_residents(a, b)
    &&& same_pins(a, b)
    &&& same_officials(a, b)
    &&& same_blotters(a, b)
    &&& same_incomes(a, b)
    &&& same_expenses(a, b)
}

/// Only the schema state may differ: no row of any table is touched.
pub open spec fn only_tables_changed(a: Store, b: Store) -> bool {
    &&& same_settings(a, b)
    &&& same_residents(a, b)
    &&& same_pins(a, b)
    &&& same_officials(a, b)
    &&& same_blotters(a, b)
    &&& same_incomes(a, b)
    &&& same_expenses(a, b)
}

} // verus!
