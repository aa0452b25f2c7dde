use vstd::prelude::*;

use crate::residents::Resident;
use crate::store::Store;
use crate::text::{clone_opt_string, str_eq};

verus! {

/// The head-relevant projection of a resident, as the household listing
/// shows it: identity, household number, zone, birth date and status.
pub struct ResidentHead {
    pub id: Option<i32>,
    pub household_number: String,
    pub first_name: String,
    pub middle_name: Option<String>,
    pub last_name: String,
    pub suffix: Option<String>,
    pub zone: String,
    pub date_of_birth: String,
    pub status: String,
}

/// The mathematical value of a head row: every text field as its character
/// sequence.
pub struct ResidentHeadView {
    pub id: Option<i32>,
    pub household_number: Seq<char>,
    pub first_name: Seq<char>,
    pub middle_name: Option<Seq<char>>,
    pub last_name: Seq<char>,
    pub suffix: Option<Seq<char>>,
    pub zone: Seq<char>,
    pub date_of_birth: Seq<char>,
    pub status: Seq<char>,
}

/// The character sequence of an optional text field.
pub open spec fn opt_view(o: Option<String>) -> Option<Seq<char>> {
    match o {
        Some(s) => Some(s@),
        None => None,
    }
}

impl View for ResidentHead {
    type V = ResidentHeadView;

    open spec fn view(&self) -> ResidentHeadView {
        ResidentHeadView {
            id: self.id,
            household_number: self.household_number@,
            first_name: self.first_name@,
            middle_name: opt_view(self.middle_name),
            last_name: self.last_name@,
            suffix: opt_view(self.suffix),
            zone: self.zone@,
            date_of_birth: self.date_of_birth@,
            status: self.status@,
        }
    }
}

/// The views of a listing of head rows, row by row.
pub open spec fn head_views(hs: Seq<ResidentHead>) -> Seq<ResidentHeadView> {
    Seq::new(hs.len(), |i: int| hs[i]@)
}

/// The views of a list of household numbers, entry by entry.
pub open spec fn string_views(ss: Seq<String>) -> Seq<Seq<char>> {
    Seq::new(ss.len(), |i: int| ss[i]@)
}

/// Whether the resident holds the household role `Head`.
pub open spec fn is_head(r: Resident) -> bool {
    r.role_in_household@ == "Head"@
}

/// The household number a projection shows: the resident's, or empty where
/// none is recorded.
pub open spec fn household_of(r: Resident) -> Seq<char> {
    match r.household_number {
        Some(h) => h@,
        None => Seq::empty(),
    }
}

/// The head projection of one resident.
pub open spec fn head_view_of(r: Resident) -> ResidentHeadView {
    ResidentHeadView {
        id: r.id,
        household_number: household_of(r),
        first_name: r.first_name@,
        middle_name: opt_view(r.middle_name),
        last_name: r.last_name@,
        suffix: opt_view(r.suffix),
        zone: r.zone@,
        date_of_birth: r.date_of_birth@,
        status: r.status@,
    }
}

/// The household-head listing over a resident table: the projections of the
/// residents whose role is `Head`, in stored order; a resident with any
/// other role contributes nothing.
pub open spec fn head_rows(rs: Seq<Resident>) -> Seq<ResidentHeadView>
    decreases rs.len(),
{
    if rs.len() == 0 {
        Seq::empty()
    } else {
        let rest = head_rows(rs.drop_last());
        if is_head(rs.last()) {
            rest.push(head_view_of(rs.last()))
        } else {
            rest
        }
    }
}

/// Whether the resident belongs to the household with this number.
pub open spec fn in_household(r: Resident, hh: Seq<char>) -> bool {
    match r.household_number {
        Some(h) => h@ == hh,
        None => false,
    }
}

/// The residents of one household, in stored order.
pub open spec fn household_rows(rs: Seq<Resident>, hh: Seq<char>) -> Seq<Resident>
    decreases rs.len(),
{
    if rs.len() == 0 {
        Seq::empty()
    } else {
        let rest = household_rows(rs.drop_last(), hh);
        if in_household(rs.last(), hh) {
            rest.push(rs.last())
        } else {
            rest
        }
    }
}

/// Whether the key is already in the list.
pub open spec fn key_listed(keys: Seq<Seq<char>>, k: Seq<char>) -> bool {
    exists|i: int| 0 <= i < keys.len() && #[trigger] keys[i] == k
}

/// The distinct household numbers of the residents the selector marks, in
/// order of first appearance; residents with no household number are
/// excluded.
pub open spec fn marked_households(rs: Seq<Resident>, sel: spec_fn(Resident) -> bool) -> Seq<
    Seq<char>,
>
    decreases rs.len(),
{
    if rs.len() == 0 {
        Seq::empty()
    } else {
        let rest = marked_households(rs.drop_last(), sel);
        if sel(rs.last()) {
            match rs.last().household_number {
                Some(h) => if key_listed(rest, h@) {
                    rest
                } else {
                    rest.push(h@)
                },
                None => rest,
            }
        } else {
            rest
        }
    }
}

/// Marks every resident: the household grouping ignores no one.
pub open spec fn every_resident() -> spec_fn(Resident) -> bool {
    |r: Resident| true
}

/// Marks the residents registered as persons with disability.
pub open spec fn pwd_flag() -> spec_fn(Resident) -> bool {
    |r: Resident| r.is_pwd
}

/// Marks the residents registered as senior citizens.
pub open spec fn senior_flag() -> spec_fn(Resident) -> bool {
    |r: Resident| r.is_senior
}

/// The income a resident contributes to the household total: the declared
/// monthly income, or nothing where none is declared.
pub open spec fn resident_income(r: Resident) -> int {
    match r.average_monthly_income {
        Some(v) => v as int,
        None => 0,
    }
}

/// The summed declared income of one household.
pub open spec fn household_income_sum(rs: Seq<Resident>, hh: Seq<char>) -> int
    decreases rs.len(),
{
    if rs.len() == 0 {
        0
    } else {
        household_income_sum(rs.drop_last(), hh) + if in_household(rs.last(), hh) {
            resident_income(rs.last())
        } else {
            0
        }
    }
}

/// A non-negative total as the store reports it: exact while it fits the
/// machine integer, pinned to the maximum once it cannot.
pub open spec fn clip_i64(v: int) -> i64 {
    if v > i64::MAX {
        i64::MAX
    } else {
        v as i64
    }
}

/// Scans the collected household numbers for the key.
fn key_present(keys: &Vec<String>, k: &str) -> (found: bool)
    ensures
        found == key_listed(string_views(keys@), k@),
{
    let n = keys.len();
    let mut i: usize = 0;
    while i < n
        invariant
            n == keys.len(),
            i <= n,
            forall|j: int| 0 <= j < i ==> #[trigger] string_views(keys@)[j] != k@,
        decreases n - i,
    {
        if str_eq(keys[i].as_str(), k) {
            proof {
                assert(string_views(keys@)[i as int] == k@);
            }
            return true;
        }
        proof {
            assert(string_views(keys@)[i as int] == keys@[i as int]@);
        }
        i = i + 1;
    }
    false
}

impl Store {
    /// The household-head listing: the projections of exactly those
    /// residents whose role is `Head`, in stored order. A pure read; an
    /// empty match yields an empty listing, never an error.
    pub fn household_heads(&self) -> (r: Vec<ResidentHead>)
        ensures
            head_views(r@) == head_rows(self.residents@),
    {
        let n = self.residents.len();
        let mut out: Vec<ResidentHead> = Vec::new();
        let mut i: usize = 0;
        while i < n
            invariant
                n == self.residents.len(),
                i <= n,
                head_views(out@) == head_rows(self.residents@.take(i as int)),
            decreases n - i,
        {
            proof {
                assert(self.residents@.take(i as int + 1).drop_last() =~= self.residents@.take(
                    i as int,
                ));
                assert(self.residents@.take(i as int + 1).last() == self.residents@[i as int]);
            }
            let rr = &self.residents[i];
            if str_eq(rr.role_in_household.as_str(), "Head") {
                let hh = match &rr.household_number {
                    Some(h) => h.clone(),
                    None => String::new(),
                };
                let row = ResidentHead {
                    id: rr.id,
                    household_number: hh,
                    first_name: rr.first_name.clone(),
                    middle_name: clone_opt_string(&rr.middle_name),
                    last_name: rr.last_name.clone(),
                    suffix: clone_opt_string(&rr.suffix),
                    zone: rr.zone.clone(),
                    date_of_birth: rr.date_of_birth.clone(),
                    status: rr.status.clone(),
                };
                proof {
                    assert(row@ == head_view_of(self.residents@[i as int]));
                }
                out.push(row);
                proof {
                    assert(head_views(out@) =~= head_rows(self.residents@.take(i as int + 1)));
                }
            } else {
                proof {
                    assert(head_views(out@) =~= head_rows(self.residents@.take(i as int + 1)));
                }
            }
            i = i + 1;
        }
        proof {
            assert(self.residents@.take(n as int) =~= self.residents@);
        }
        out
    }

    /// The residents whose household number equals the given one, in stored
    /// order. A pure read; an empty match yields an empty list.
    pub fn residents_by_household(&self, household_number: &str) -> (r: Vec<Resident>)
        ensures
            r@ == household_rows(self.residents@, household_number@),
    {
        let n = self.residents.len();
        let mut out: Vec<Resident> = Vec::new();
        let mut i: usize = 0;
        while i < n
            invariant
                n == self.residents.len(),
                i <= n,
                out@ == household_rows(self.residents@.take(i as int), household_number@),
            decreases n - i,
        {
            proof {
                assert(self.residents@.take(i as int + 1).drop_last() =~= self.residents@.take(
                    i as int,
                ));
                assert(self.residents@.take(i as int + 1).last() == self.residents@[i as int]);
            }
            let hit = match &self.residents[i].household_number {
                Some(h) => str_eq(h.as_str(), household_number),
                None => false,
            };
            if hit {
                out.push(self.residents[i].clone());
            }
            i = i + 1;
        }
        proof {
            assert(self.residents@.take(n as int) =~= self.residents@);
        }
        out
    }

    /// The distinct household numbers of the residents the flag selects, in
    /// order of first appearance; residents with no household number are
    /// excluded. Shared by the disability and the senior listing.
    fn households_with_flag(&self, senior: bool) -> (r: Vec<String>)
        ensures
            senior ==> string_views(r@) == marked_households(self.residents@, senior_flag()),
            !senior ==> string_views(r@) == marked_households(self.residents@, pwd_flag()),
    {
        let ghost sel: spec_fn(Resident) -> bool = if senior {
            senior_flag()
        } else {
            pwd_flag()
        };
        let n = self.residents.len();
        let mut out: Vec<String> = Vec::new();
        let mut i: usize = 0;
        while i < n
            invariant
                n == self.residents.len(),
                i <= n,
                sel == (if senior {
                    senior_flag()
                } else {
                    pwd_flag()
                }),
                string_views(out@) == marked_households(self.residents@.take(i as int), sel),
            decreases n - i,
        {
            proof {
                assert(self.residents@.take(i as int + 1).drop_last() =~= self.residents@.take(
                    i as int,
                ));
                assert(self.residents@.take(i as int + 1).last() == self.residents@[i as int]);
                assert(sel(self.residents@[i as int]) == (if senior {
                    self.residents@[i as int].is_senior
                } else {
                    self.residents@[i as int].is_pwd
                }));
            }
            let rr = &self.residents[i];
            let marked = if senior {
                rr.is_senior
            } else {
                rr.is_pwd
            };
            if marked {
                match &rr.household_number {
                    Some(h) => {
                        if !key_present(&out, h.as_str()) {
                            out.push(h.clone());
                            proof {
                                assert(string_views(out@) =~= marked_households(
                                    self.residents@.take(i as int + 1),
                                    sel,
                                ));
                            }
                        }
                    },
                    None => {},
                }
            }
            proof {
                assert(string_views(out@) =~= marked_households(
                    self.residents@.take(i as int + 1),
                    sel,
                ));
            }
            i = i + 1;
        }
        proof {
            assert(self.residents@.take(n as int) =~= self.residents@);
        }
        out
    }

    /// The distinct household numbers with a resident registered as a person
    /// with disability. A pure read; an empty match yields an empty list.
    pub fn households_with_pwd(&self) -> (r: Vec<String>)
        ensures
            string_views(r@) == marked_households(self.residents@, pwd_flag()),
    {
        self.households_with_flag(false)
    }

    /// The distinct household numbers with a resident registered as a senior
    /// citizen. A pure read; an empty match yields an empty list.
    pub fn households_with_senior(&self) -> (r: Vec<String>)
        ensures
            string_views(r@) == marked_households(self.residents@, senior_flag()),
    {
        self.households_with_flag(true)
    }

    /// The declared income summed per household: one row per distinct
    /// household number, in order of first appearance, each with the sum of
    /// its residents' declared incomes; residents with no household number
    /// are excluded. Totals are exact while they fit the machine integer
    /// and pin to its maximum once they cannot. A pure read; an empty store
    /// yields an empty list.
    pub fn household_income_totals(&self) -> (r: Vec<(String, i64)>)
        requires
            self.wf(),
        ensures
            r@.len() == marked_households(self.residents@, every_resident()).len(),
            forall|i: int|
                0 <= i < r@.len() ==> (#[trigger] r@[i].0)@ == marked_households(
                    self.residents@,
                    every_resident(),
                )[i],
            forall|i: int|
                0 <= i < r@.len() ==> (#[trigger] r@[i].1) == clip_i64(
                    household_income_sum(
                        self.residents@,
                        marked_households(self.residents@, every_resident())[i],
                    ),
                ),
    {
        let keys = self.all_household_keys();
        let ghost hks = marked_households(self.residents@, every_resident());
        let m = keys.len();
        let mut out: Vec<(String, i64)> = Vec::new();
        let mut j: usize = 0;
        while j < m
            invariant
                self.wf(),
                m == keys.len(),
                j <= m,
                string_views(keys@) == hks,
                hks == marked_households(self.residents@, every_resident()),
                out@.len() == j,
                forall|i: int| 0 <= i < j ==> (#[trigger] out@[i].0)@ == hks[i],
                forall|i: int|
                    0 <= i < j ==> (#[trigger] out@[i].1) == clip_i64(
                        household_income_sum(self.residents@, hks[i]),
                    ),
            decreases m - j,
        {
            proof {
                assert(string_views(keys@)[j as int] == keys@[j as int]@);
            }
            let total = self.household_total(&keys[j]);
            out.push((keys[j].clone(), total));
            j = j + 1;
        }
        out
    }

    /// The distinct household numbers over all residents, in order of first
    /// appearance.
    fn all_household_keys(&self) -> (r: Vec<String>)
        ensures
            string_views(r@) == marked_households(self.residents@, every_resident()),
    {
        let n = self.residents.len();
        let mut out: Vec<String> = Vec::new();
        let mut i: usize = 0;
        while i < n
            invariant
                n == self.residents.len(),
                i <= n,
                string_views(out@) == marked_households(
                    self.residents@.take(i as int),
                    every_resident(),
                ),
            decreases n - i,
        {
            proof {
                assert(self.residents@.take(i as int + 1).drop_last() =~= self.residents@.take(
                    i as int,
                ));
                assert(self.residents@.take(i as int + 1).last() == self.residents@[i as int]);
                assert(every_resident()(self.residents@[i as int]));
            }
            match &self.residents[i].household_number {
                Some(h) => {
                    if !key_present(&out, h.as_str()) {
                        out.push(h.clone());
                        proof {
                            assert(string_views(out@) =~= marked_households(
                                self.residents@.take(i as int + 1),
                                every_resident(),
                            ));
                        }
                    }
                },
                None => {},
            }
            proof {
                assert(string_views(out@) =~= marked_households(
                    self.residents@.take(i as int + 1),
                    every_resident(),
                ));
            }
            i = i + 1;
        }
        proof {
            assert(self.residents@.take(n as int) =~= self.residents@);
        }
        out
    }

    /// The clipped income total of one household.
    fn household_total(&self, hh: &String) -> (total: i64)
        requires
            self.wf(),
        ensures
            total == clip_i64(household_income_sum(self.residents@, hh@)),
    {
        let n = self.residents.len();
        let mut total: i64 = 0;
        let mut i: usize = 0;
        while i < n
            invariant
                self.wf(),
                n == self.residents.len(),
                i <= n,
                0 <= total,
                total == clip_i64(household_income_sum(self.residents@.take(i as int), hh@)),
                household_income_sum(self.residents@.take(i as int), hh@) >= 0,
            decreases n - i,
        {
            proof {
                assert(self.residents@.take(i as int + 1).drop_last() =~= self.residents@.take(
                    i as int,
                ));
                assert(self.residents@.take(i as int + 1).last() == self.residents@[i as int]);
            }
            let rr = &self.residents[i];
            let hit = match &rr.household_number {
                Some(h) => str_eq(h.as_str(), hh.as_str()),
                None => false,
            };
            if hit {
                let inc: i64 = match rr.average_monthly_income {
                    Some(v) => v,
                    None => 0,
                };
                proof {
                    assert(inc >= 0);
                    assert(inc == resident_income(self.residents@[i as int]));
                }
                total = if total > i64::MAX - inc {
                    i64::MAX
                } else {
                    total + inc
                };
            }
            i = i + 1;
        }
        proof {
            assert(self.residents@.take(n as int) =~= self.residents@);
        }
        total
    }
}

/// The household-head listing is exact: a row appears in it exactly when
/// some resident holds the role `Head` and projects to that row. In
/// particular a resident with any other role value contributes nothing,
/// however its household number reads.
pub proof fn lemma_head_rows_exact(rs: Seq<Resident>)
    ensures
        forall|i: int|
            0 <= i < rs.len() && is_head(#[trigger] rs[i]) ==> head_rows(rs).contains(
                head_view_of(rs[i]),
            ),
        forall|h: ResidentHeadView| #[trigger]
            head_rows(rs).contains(h) ==> exists|i: int|
                0 <= i < rs.len() && is_head(#[trigger] rs[i]) && head_view_of(rs[i]) == h,
    decreases rs.len(),
{
    if rs.len() > 0 {
        let pre = rs.drop_last();
        let hr = head_rows(rs);
        let hp = head_rows(pre);
        lemma_head_rows_exact(pre);
        assert forall|i: int|
            0 <= i < rs.len() && is_head(#[trigger] rs[i]) implies hr.contains(
            head_view_of(rs[i]),
        ) by {
            if i < rs.len() - 1 {
                assert(pre[i] == rs[i]);
                assert(hp.contains(head_view_of(pre[i])));
                let m = choose|m: int| 0 <= m < hp.len() && #[trigger] hp[m] == head_view_of(rs[i]);
                assert(hr[m] == head_view_of(rs[i]));
            } else {
                assert(hr.last() == head_view_of(rs[i]));
            }
        }
        assert forall|h: ResidentHeadView| #[trigger] hr.contains(h) implies exists|i: int|
            0 <= i < rs.len() && is_head(#[trigger] rs[i]) && head_view_of(rs[i]) == h by {
            let m = choose|m: int| 0 <= m < hr.len() && #[trigger] hr[m] == h;
            if is_head(rs.last()) && m == hr.len() - 1 {
                assert(is_head(rs[rs.len() - 1]) && head_view_of(rs[rs.len() - 1]) == h);
            } else {
                assert(hp[m] == h);
                assert(hp.contains(h));
                let i = choose|i: int|
                    0 <= i < pre.len() && is_head(#[trigger] pre[i]) && head_view_of(pre[i]) == h;
                assert(pre[i] == rs[i]);
                assert(is_head(rs[i]) && head_view_of(rs[i]) == h);
            }
        }
    }
}

} // verus!
