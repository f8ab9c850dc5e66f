//! Views of what is inside optional values, results and sequences.
use vstd::prelude::*;

verus! {

/// What is in an optional value.
pub open spec fn view_option<T: View>(o: Option<T>) -> Option<T::V> {
    match o {
        Some(t) => Some(t@),
        None => None,
    }
}

/// What is in a result.
pub open spec fn view_result<T: View, E: View>(r: Result<T, E>) -> Result<T::V, E::V> {
    match r {
        Ok(t) => Ok(t@),
        Err(e) => Err(e@),
    }
}

/// What each item of a sequence is.
pub open spec fn view_all<T: View>(s: Seq<T>) -> Seq<T::V> {
    s.map_values(|t: T| t@)
}

pub(crate) proof fn lemma_view_all_push<T: View>(s: Seq<T>, t: T)
    ensures
        view_all(s.push(t)) == view_all(s).push(t@),
{
    assert(view_all(s.push(t)) =~= view_all(s).push(t@));
}

} // verus!
