//! Small facts about element-wise views of sequences of records, used to
//! carry `Vec` mutations over to the model sequences.

use vstd::prelude::*;

use crate::entities::views_of;

verus! {

/// Removing an element commutes with taking element-wise views.
pub proof fn lemma_views_of_remove<T: View>(s: Seq<T>, j: int)
    requires
        0 <= j < s.len(),
    ensures
        views_of(s.remove(j)) == views_of(s).remove(j),
{
    assert(views_of(s.remove(j)) =~= views_of(s).remove(j));
}

/// Appending an element commutes with taking element-wise views.
pub proof fn lemma_views_of_push<T: View>(s: Seq<T>, x: T)
    ensures
        views_of(s.push(x)) == views_of(s).push(x@),
{
    assert(views_of(s.push(x)) =~= views_of(s).push(x@));
}

/// Concatenation commutes with taking element-wise views.
pub proof fn lemma_views_of_add<T: View>(s1: Seq<T>, s2: Seq<T>)
    ensures
        views_of(s1 + s2) == views_of(s1) + views_of(s2),
{
    assert(views_of(s1 + s2) =~= views_of(s1) + views_of(s2));
}

/// Replacing an element commutes with taking element-wise views.
pub proof fn lemma_views_of_update<T: View>(s: Seq<T>, j: int, x: T)
    requires
        0 <= j < s.len(),
    ensures
        views_of(s.update(j, x)) == views_of(s).update(j, x@),
{
    assert(views_of(s.update(j, x)) =~= views_of(s).update(j, x@));
}

} // verus!
