use vstd::prelude::*;

use crate::store::{only_tables_changed, Store};

verus! {

/// The tables of the relational schema.
#[derive(Clone, Copy, Debug, PartialEq, Eq, Structural)]
pub enum Table {
    Settings,
    Residents,
    BarangayMap,
    Officials,
    Blotters,
    Incomes,
    Expenses,
    Events,
    Certificates,
    Logbook,
    Users,
}

/// The canonical creation order. A table that is conceptually referenced by
/// another — residents by map pins and certificates (full-name links),
/// officials by the logbook — is created before its dependents, so the
/// schema documents itself even though no foreign key is enforced.
pub open spec fn catalog() -> Seq<Table> {
    seq![
        Table::Settings,
        Table::Residents,
        Table::BarangayMap,
        Table::Officials,
        Table::Blotters,
        Table::Incomes,
        Table::Expenses,
        Table::Events,
        Table::Certificates,
        Table::Logbook,
        Table::Users,
    ]
}

/// Whether the table already exists in the store.
pub open spec fn table_listed(ts: Seq<Table>, t: Table) -> bool {
    exists|i: int| 0 <= i < ts.len() && #[trigger] ts[i] == t
}

/// No table exists twice.
pub open spec fn tables_distinct(ts: Seq<Table>) -> bool {
    forall|i: int, j: int| 0 <= i < j < ts.len() ==> #[trigger] ts[i] != #[trigger] ts[j]
}

/// One creation step with if-not-exists semantics: the table is appended
/// only if it is absent.
pub open spec fn add_table(ts: Seq<Table>, t: Table) -> Seq<Table> {
    if table_listed(ts, t) {
        ts
    } else {
        ts.push(t)
    }
}

/// The schema after the whole creation batch has run, statement by
/// statement in catalog order.
pub open spec fn add_missing(ts: Seq<Table>, cat: Seq<Table>) -> Seq<Table>
    decreases cat.len(),
{
    if cat.len() == 0 {
        ts
    } else {
        add_table(add_missing(ts, cat.drop_last()), cat.last())
    }
}

/// Schema convergence is purely additive: the existing tables survive, in
/// place and in order, and every listed table stays listed.
pub proof fn lemma_add_missing_additive(ts: Seq<Table>, cat: Seq<Table>)
    ensures
        ts.is_prefix_of(add_missing(ts, cat)),
        forall|t: Table| table_listed(ts, t) ==> table_listed(add_missing(ts, cat), t),
        tables_distinct(ts) ==> tables_distinct(add_missing(ts, cat)),
    decreases cat.len(),
{
    if cat.len() > 0 {
        lemma_add_missing_additive(ts, cat.drop_last());
        let mid = add_missing(ts, cat.drop_last());
        let out = add_missing(ts, cat);
        assert(ts.is_prefix_of(out)) by {
            assert(ts =~= out.subrange(0, ts.len() as int));
        }
        assert forall|t: Table| table_listed(ts, t) implies table_listed(out, t) by {
            let i = choose|i: int| 0 <= i < mid.len() && #[trigger] mid[i] == t;
            assert(out[i] == t);
        }
    }
}

/// After the batch has run, every table of the catalog exists.
pub proof fn lemma_add_missing_complete(ts: Seq<Table>, cat: Seq<Table>)
    ensures
        forall|j: int| 0 <= j < cat.len() ==> table_listed(add_missing(ts, cat), #[trigger] cat[j]),
    decreases cat.len(),
{
    if cat.len() > 0 {
        let pre = cat.drop_last();
        let mid = add_missing(ts, pre);
        let out = add_missing(ts, cat);
        lemma_add_missing_complete(ts, pre);
        assert forall|j: int| 0 <= j < cat.len() implies table_listed(out, #[trigger] cat[j]) by {
            if j < cat.len() - 1 {
                assert(pre[j] == cat[j]);
                assert(table_listed(mid, cat[j]));
                let i = choose|i: int| 0 <= i < mid.len() && #[trigger] mid[i] == cat[j];
                assert(out[i] == cat[j]);
            } else {
                if table_listed(mid, cat.last()) {
                } else {
                    assert(out[mid.len() as int] == cat.last());
                }
            }
        }
    }
}

/// A batch whose tables all exist already changes nothing.
pub proof fn lemma_add_missing_stable(ts: Seq<Table>, cat: Seq<Table>)
    requires
        forall|j: int| 0 <= j < cat.len() ==> table_listed(ts, #[trigger] cat[j]),
    ensures
        add_missing(ts, cat) == ts,
    decreases cat.len(),
{
    if cat.len() > 0 {
        lemma_add_missing_stable(ts, cat.drop_last());
        assert(table_listed(ts, cat.last()));
    }
}

/// Running schema convergence twice in succession — as when a second
/// process start finds the schema a first start already created — leaves
/// exactly the tables the first run left: nothing is duplicated and
/// nothing is dropped.
pub proof fn lemma_schema_convergence_idempotent(ts: Seq<Table>)
    ensures
        add_missing(add_missing(ts, catalog()), catalog()) == add_missing(ts, catalog()),
{
    lemma_add_missing_complete(ts, catalog());
    lemma_add_missing_stable(add_missing(ts, catalog()), catalog());
}

/// The catalog creates each conceptually referenced table before the tables
/// that refer to it: residents before the map pins and certificates that
/// name them, officials before the logbook that names them.
pub proof fn lemma_catalog_dependency_order()
    ensures
        catalog()[1] == Table::Residents,
        catalog()[2] == Table::BarangayMap,
        catalog()[3] == Table::Officials,
        catalog()[8] == Table::Certificates,
        catalog()[9] == Table::Logbook,
{
}

/// The creation order as a list, for a boundary that issues one create
/// statement per table.
pub fn table_catalog() -> (v: Vec<Table>)
    ensures
        v@ == catalog(),
{
    let mut v: Vec<Table> = Vec::new();
    v.push(Table::Settings);
    v.push(Table::Residents);
    v.push(Table::BarangayMap);
    v.push(Table::Officials);
    v.push(Table::Blotters);
    v.push(Table::Incomes);
    v.push(Table::Expenses);
    v.push(Table::Events);
    v.push(Table::Certificates);
    v.push(Table::Logbook);
    v.push(Table::Users);
    proof {
        assert(v@ =~= catalog());
    }
    v
}

/// Scans the existing tables for one equal to `t`.
fn table_present(ts: &Vec<Table>, t: Table) -> (found: bool)
    ensures
        found == table_listed(ts@, t),
{
    let n = ts.len();
    let mut i: usize = 0;
    while i < n
        invariant
            n == ts.len(),
            i <= n,
            forall|j: int| 0 <= j < i ==> #[trigger] ts@[j] != t,
        decreases n - i,
    {
        if ts[i] == t {
            return true;
        }
        i = i + 1;
    }
    false
}

impl Store {
    /// Brings the schema up idempotently: every table of the catalog is
    /// created with if-not-exists semantics, in catalog order; existing
    /// tables and all rows are left untouched. Safe to run on every process
    /// start. In the model this cannot fail; a boundary that runs the
    /// statements against a real store treats any failure here as a fatal
    /// startup error.
    pub fn ensure_schema(&mut self)
        requires
            old(self).wf(),
        ensures
            final(self).wf(),
            only_tables_changed(*old(self), *final(self)),
            final(self).tables@ == add_missing(old(self).tables@, catalog()),
            old(self).tables@.is_prefix_of(final(self).tables@),
            forall|j: int|
                0 <= j < catalog().len() ==> table_listed(
                    final(self).tables@,
                    #[trigger] catalog()[j],
                ),
    {
        let cat = table_catalog();
        let n = cat.len();
        let mut i: usize = 0;
        while i < n
            invariant
                n == catalog().len(),
                cat@ == catalog(),
                i <= n,
                self.tables@ == add_missing(old(self).tables@, catalog().take(i as int)),
                only_tables_changed(*old(self), *self),
                old(self).wf(),
            decreases n - i,
        {
            proof {
                assert(catalog().take(i as int + 1).drop_last() =~= catalog().take(i as int));
                assert(catalog().take(i as int + 1).last() == catalog()[i as int]);
            }
            if !table_present(&self.tables, cat[i]) {
                self.tables.push(cat[i]);
            }
            i = i + 1;
        }
        proof {
            assert(catalog().take(n as int) =~= catalog());
            lemma_add_missing_additive(old(self).tables@, catalog());
            lemma_add_missing_complete(old(self).tables@, catalog());
        }
    }
}

} // verus!
