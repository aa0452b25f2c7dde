use vstd::prelude::*;
use vstd::string::StringExecFns;

verus! {

/// Character-for-character equality of two string slices; the comparison
/// goes through owned copies so it rests on the specified `String` equality.
pub fn str_eq(a: &str, b: &str) -> (r: bool)
    ensures
        r == (a@ == b@),
{
    let sa: String = a.to_owned();
    let sb: String = b.to_owned();
    sa == sb
}

/// Duplicates an optional text field; the copy equals the source value.
pub(crate) fn clone_opt_string(o: &Option<String>) -> (r: Option<String>)
    ensures
        r == *o,
{
    match o {
        Some(s) => Some(s.clone()),
        None => None,
    }
}

/// A resident's full name as it labels the household's map pin:
/// first name, one space, last name.
pub open spec fn full_name_view(first: Seq<char>, last: Seq<char>) -> Seq<char> {
    first + " "@ + last
}

/// Composes the full name used to link a resident to a map pin.
pub fn full_name(first: &str, last: &str) -> (r: String)
    ensures
        r@ == full_name_view(first@, last@),
        r@.len() > 0,
{
    proof {
        reveal_strlit(" ");
    }
    let mut s: String = first.to_owned();
    s.append(" ");
    s.append(last);
    s
}

} // verus!
