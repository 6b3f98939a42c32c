//! Lists seen through the views of their items.

use vstd::prelude::*;

verus! {

/// The views of the items of a list, in order.
pub open spec fn each<T: View>(list: Seq<T>) -> Seq<T::V> {
    Seq::new(list.len(), |i: int| list[i]@)
}

pub broadcast proof fn each_push<T: View>(list: Seq<T>, item: T)
    ensures
        #[trigger] each(list.push(item)) == each(list).push(item@),
{
    assert(each(list.push(item)) =~= each(list).push(item@));
}

pub broadcast proof fn each_append<T: View>(a: Seq<T>, b: Seq<T>)
    ensures
        #[trigger] each(a + b) == each(a) + each(b),
{
    assert(each(a + b) =~= each(a) + each(b));
}

pub broadcast proof fn each_of_none<T: View>()
    ensures
        #[trigger] each(Seq::<T>::empty()) == Seq::<T::V>::empty(),
{
    assert(each(Seq::<T>::empty()) =~= Seq::<T::V>::empty());
}

pub broadcast group group_each {
    each_push,
    each_append,
    each_of_none,
}

/// A copy of a list whose items copy to items with the same view.
pub fn copy_each<T: View + Clone>(list: &Vec<T>) -> (r: Vec<T>)
    requires
        forall|a: T, b: T| #[trigger] cloned(a, b) ==> a@ == b@,
    ensures
        each(r@) == each(list@),
{
    let mut r: Vec<T> = Vec::new();
    let mut i: usize = 0;
    while i < list.len()
        invariant
            i <= list@.len(),
            r@.len() == i,
            forall|a: T, b: T| #[trigger] cloned(a, b) ==> a@ == b@,
            forall|k: int| 0 <= k < i ==> (#[trigger] r@[k])@ == list@[k]@,
        decreases list@.len() - i,
    {
        let item = list[i].clone();
        assert(cloned(list@[i as int], item));
        r.push(item);
        i = i + 1;
    }
    assert(each(r@) =~= each(list@));
    r
}

/// A copy of a list of plain items.
pub fn copy_plain<T: Copy>(list: &Vec<T>) -> (r: Vec<T>)
    ensures
        r@ == list@,
{
    let mut r: Vec<T> = Vec::new();
    let mut i: usize = 0;
    while i < list.len()
        invariant
            i <= list@.len(),
            r@ == list@.take(i as int),
        decreases list@.len() - i,
    {
        r.push(list[i]);
        i = i + 1;
        assert(r@ =~= list@.take(i as int));
    }
    assert(r@ =~= list@);
    r
}

} // verus!
