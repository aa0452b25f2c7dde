use vstd::prelude::*;

verus! {

/// Well-formed id assignment for one table: every stored record carries an
/// id, every id lies in `1 .. next`, and no two records share an id.
pub open spec fn ids_ok<T>(rs: Seq<T>, idf: spec_fn(T) -> Option<i32>, next: i32) -> bool {
    &&& 1 <= next
    &&& forall|i: int| 0 <= i < rs.len() ==> (#[trigger] idf(rs[i])) is Some
    &&& forall|i: int| 0 <= i < rs.len() ==> 1 <= (#[trigger] idf(rs[i])).unwrap() < next
    &&& forall|i: int, j: int|
        0 <= i < j < rs.len() ==> #[trigger] idf(rs[i]) != #[trigger] idf(rs[j])
}

/// Whether some stored record carries the id.
pub open spec fn has_rec_id<T>(rs: Seq<T>, idf: spec_fn(T) -> Option<i32>, id: i32) -> bool {
    exists|i: int| 0 <= i < rs.len() && #[trigger] idf(rs[i]) == Some(id)
}

/// The table after a delete-by-id: the records that do not carry the id,
/// in their stored order.
pub open spec fn remove_matching<T>(
    rs: Seq<T>,
    idf: spec_fn(T) -> Option<i32>,
    id: i32,
) -> Seq<T>
    decreases rs.len(),
{
    if rs.len() == 0 {
        Seq::empty()
    } else {
        let rest = remove_matching(rs.drop_last(), idf, id);
        if idf(rs.last()) == Some(id) {
            rest
        } else {
            rest.push(rs.last())
        }
    }
}

/// What survives a delete: no surviving record carries the deleted id, every
/// surviving record and id was present before, and a well-formed id
/// assignment stays well formed.
pub proof fn lemma_remove_matching_ids<T>(
    rs: Seq<T>,
    idf: spec_fn(T) -> Option<i32>,
    next: i32,
    id: i32,
)
    ensures
        forall|i: int|
            0 <= i < remove_matching(rs, idf, id).len() ==> idf(
                #[trigger] remove_matching(rs, idf, id)[i],
            ) != Some(id),
        forall|i: int|
            0 <= i < remove_matching(rs, idf, id).len() ==> rs.contains(
                #[trigger] remove_matching(rs, idf, id)[i],
            ),
        forall|x: i32|
            has_rec_id(remove_matching(rs, idf, id), idf, x) ==> has_rec_id(rs, idf, x),
        ids_ok(rs, idf, next) ==> ids_ok(remove_matching(rs, idf, id), idf, next),
    decreases rs.len(),
{
    if rs.len() > 0 {
        let pre = rs.drop_last();
        let rest = remove_matching(pre, idf, id);
        let out = remove_matching(rs, idf, id);
        lemma_remove_matching_ids(pre, idf, next, id);
        assert forall|i: int| 0 <= i < out.len() implies rs.contains(#[trigger] out[i]) by {
            if i < rest.len() {
                assert(pre.contains(rest[i]));
                let m = choose|m: int| 0 <= m < pre.len() && #[trigger] pre[m] == rest[i];
                assert(rs[m] == out[i]);
            } else {
                assert(out[i] == rs.last());
                assert(rs[rs.len() - 1] == out[i]);
            }
        }
        assert forall|x: i32| has_rec_id(out, idf, x) implies has_rec_id(rs, idf, x) by {
            let k = choose|k: int| 0 <= k < out.len() && #[trigger] idf(out[k]) == Some(x);
            if k < rest.len() {
                assert(has_rec_id(rest, idf, x));
                assert(has_rec_id(pre, idf, x));
                let m = choose|m: int| 0 <= m < pre.len() && #[trigger] idf(pre[m]) == Some(x);
                assert(idf(rs[m]) == Some(x));
            } else {
                assert(out[k] == rs.last());
                assert(idf(rs[rs.len() - 1]) == Some(x));
            }
        }
        if ids_ok(rs, idf, next) {
            assert(ids_ok(pre, idf, next)) by {
                assert forall|i: int| 0 <= i < pre.len() implies (#[trigger] idf(pre[i]))
                    is Some && 1 <= idf(pre[i]).unwrap() < next by {
                    assert(pre[i] == rs[i]);
                }
            }
            if idf(rs.last()) != Some(id) {
                // out == rest.push(rs.last()); the pushed id is fresh in rest.
                assert forall|i: int, j: int|
                    0 <= i < j < out.len() implies #[trigger] idf(out[i]) != #[trigger] idf(
                    out[j],
                ) by {
                    if j == out.len() - 1 {
                        assert(out[j] == rs.last());
                        let x = idf(out[i]).unwrap();
                        assert(has_rec_id(rest, idf, x));
                        assert(has_rec_id(pre, idf, x));
                        let m = choose|m: int|
                            0 <= m < pre.len() && #[trigger] idf(pre[m]) == Some(x);
                        assert(idf(rs[m]) == Some(x));
                        assert(idf(rs[m]) != idf(rs[rs.len() - 1]));
                    }
                }
            }
        }
    }
}

/// Appending a record that carries the next id keeps the id assignment well
/// formed, with the next id advanced past it.
pub proof fn lemma_push_fresh_id<T>(rs: Seq<T>, idf: spec_fn(T) -> Option<i32>, next: i32, x: T)
    requires
        ids_ok(rs, idf, next),
        idf(x) == Some(next),
        next < i32::MAX,
    ensures
        ids_ok(rs.push(x), idf, (next + 1) as i32),
{
    let out = rs.push(x);
    assert forall|i: int| 0 <= i < out.len() implies (#[trigger] idf(out[i])) is Some && 1 <= idf(
        out[i],
    ).unwrap() < next + 1 by {
        if i < rs.len() {
            assert(out[i] == rs[i]);
            assert(idf(rs[i]).unwrap() < next);
        } else {
            assert(out[i] == x);
        }
    }
    assert forall|i: int, j: int| 0 <= i < j < out.len() implies #[trigger] idf(out[i])
        != #[trigger] idf(out[j]) by {
        if j == out.len() - 1 {
            assert(out[j] == x);
            assert(out[i] == rs[i]);
            assert(idf(rs[i]).unwrap() < next);
        }
    }
}

/// Replacing a record with one that carries the same id keeps the id
/// assignment well formed.
pub proof fn lemma_update_same_id<T>(
    rs: Seq<T>,
    idf: spec_fn(T) -> Option<i32>,
    next: i32,
    k: int,
    x: T,
)
    requires
        ids_ok(rs, idf, next),
        0 <= k < rs.len(),
        idf(x) == idf(rs[k]),
    ensures
        ids_ok(rs.update(k, x), idf, next),
{
    let out = rs.update(k, x);
    assert forall|i: int| 0 <= i < out.len() implies (#[trigger] idf(out[i])) is Some && 1 <= idf(
        out[i],
    ).unwrap() < next by {
        if i != k {
            assert(out[i] == rs[i]);
        } else {
            assert(out[i] == x);
        }
    }
    assert forall|i: int, j: int| 0 <= i < j < out.len() implies #[trigger] idf(out[i])
        != #[trigger] idf(out[j]) by {
        assert(idf(out[i]) == idf(rs[i]));
        assert(idf(out[j]) == idf(rs[j]));
    }
}

/// A delete aimed at an id that no record carries leaves the table as it was.
pub proof fn lemma_remove_matching_absent<T>(
    rs: Seq<T>,
    idf: spec_fn(T) -> Option<i32>,
    id: i32,
)
    requires
        !has_rec_id(rs, idf, id),
    ensures
        remove_matching(rs, idf, id) == rs,
    decreases rs.len(),
{
    if rs.len() > 0 {
        let pre = rs.drop_last();
        assert(!has_rec_id(pre, idf, id)) by {
            assert forall|i: int| 0 <= i < pre.len() implies #[trigger] idf(pre[i]) != Some(
                id,
            ) by {
                assert(pre[i] == rs[i]);
            }
        }
        lemma_remove_matching_absent(pre, idf, id);
        assert(idf(rs[rs.len() - 1]) != Some(id));
        assert(remove_matching(rs, idf, id) =~= rs);
    }
}

/// Deleting by id is idempotent: a second delete of the same id finds nothing
/// to remove and leaves the table exactly as the first delete left it.
pub proof fn lemma_remove_matching_idempotent<T>(
    rs: Seq<T>,
    idf: spec_fn(T) -> Option<i32>,
    id: i32,
)
    ensures
        remove_matching(remove_matching(rs, idf, id), idf, id) == remove_matching(rs, idf, id),
{
    let out = remove_matching(rs, idf, id);
    lemma_remove_matching_ids(rs, idf, 1, id);
    assert(!has_rec_id(out, idf, id));
    lemma_remove_matching_absent(out, idf, id);
}

} // verus!
