//! Lists of what has a name.

use vstd::prelude::*;

use crate::text;

verus! {

/// What has a name.
pub trait Named {
    spec fn spec_name(&self) -> Seq<char>;

    fn name(&self) -> (r: &str)
        ensures
            r@ == self.spec_name(),
    ;
}

/// The names of a list.
pub open spec fn names<T: Named>(items: Seq<T>) -> Seq<Seq<char>> {
    items.map_values(|item: T| item.spec_name())
}

/// Whether the names of a list ascend.
pub fn is_ascending<T: Named>(items: &Vec<T>) -> (r: bool)
    ensures
        r == text::ascends(names(items@)),
{
    let ghost all = names(items@);
    let mut i: usize = 0;
    while i < items.len()
        invariant
            i <= items@.len(),
            all == names(items@),
            text::ascends(all.take(i as int)),
        decreases items@.len() - i,
    {
        proof {
            text::lemma_ascends_further(all, i as int);
        }
        if i > 0 && !text::is_text_lt(items[i - 1].name(), items[i].name()) {
            proof {
                if text::ascends(all) {
                    text::lemma_ascends_start(all, i + 1);
                }
            }
            return false;
        }
        i = i + 1;
    }
    assert(all.take(i as int) =~= all);
    true
}

/// The first of a list with a name.
pub fn find<'a, T: Named>(items: &'a Vec<T>, name: &str) -> (r: Option<&'a T>)
    ensures
        match (r, names(items@).index_of_first(name@)) {
            (Some(item), Some(i)) => *item == items@[i],
            (None, None) => true,
            _ => false,
        },
{
    let ghost all = names(items@);
    let mut i: usize = 0;
    while i < items.len()
        invariant
            i <= items@.len(),
            all == names(items@),
            forall|j: int| 0 <= j < i ==> #[trigger] all[j] != name@,
        decreases items@.len() - i,
    {
        if text::text_eq(items[i].name(), name) {
            proof {
                text::lemma_first_place(all, name@, i as int);
            }
            return Some(&items[i]);
        }
        i = i + 1;
    }
    proof {
        text::lemma_first_place(all, name@, i as int);
    }
    None
}

/// What is found under a name is the first of the list that has it, and nothing is found exactly where
/// none of the list has it.
pub proof fn lemma_first_found<T: Named>(items: Vec<T>, name: &str, k: int, r: Option<&T>)
    requires
        0 <= k <= items@.len(),
        forall|i: int| 0 <= i < k ==> (#[trigger] items@[i]).spec_name() != name@,
        k < items@.len() ==> items@[k].spec_name() == name@,
        call_ensures(find::<T>, (&items, name), r),
    ensures
        k < items@.len() ==> (r matches Some(item) && *item == items@[k]),
        k == items@.len() ==> r is None,
{
    let all = names(items@);
    assert forall|i: int| 0 <= i < k implies #[trigger] all[i] != name@ by {
        assert(items@[i].spec_name() != name@);
    }
    text::lemma_first_place(all, name@, k);
}

/// The names of a list ascend exactly where each comes before all that follow it.
pub proof fn lemma_ascending_iff<T: Named>(items: Vec<T>, r: bool)
    requires
        call_ensures(is_ascending::<T>, (&items,), r),
    ensures
        r <==> forall|i: int, j: int|
            0 <= i < j < items@.len() ==> text::text_lt(
                (#[trigger] items@[i]).spec_name(),
                (#[trigger] items@[j]).spec_name(),
            ),
{
    let all = names(items@);
    if r {
        assert forall|i: int, j: int| 0 <= i < j < items@.len() implies text::text_lt(
            (#[trigger] items@[i]).spec_name(),
            (#[trigger] items@[j]).spec_name(),
        ) by {
            assert(text::text_lt(all[i], all[j]));
        }
    } else {
        let (i, j) = choose|i: int, j: int|
            0 <= i < j < all.len() && !text::text_lt(#[trigger] all[i], #[trigger] all[j]);
        assert(!text::text_lt(items@[i].spec_name(), items@[j].spec_name()));
    }
}

} // verus!
