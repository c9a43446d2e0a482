//! Stable sorting by an arbitrary order.

use vstd::prelude::*;

verus! {

/// An order on items of a type.
pub trait Ranking<T> {
    /// Whether `a` need not stand behind `b`.
    spec fn before(&self, a: T, b: T) -> bool;

    fn is_before(&self, a: &T, b: &T) -> (yes: bool)
        ensures
            yes == self.before(*a, *b),
    ;
}

/// Whether the item at index `i` stands in front of the one at index `j` in a
/// stable sort: where neither has to, the one that came first does.
pub open spec fn goes_first<T>(
    items: Seq<T>,
    before: spec_fn(T, T) -> bool,
    i: int,
    j: int,
) -> bool {
    if i < j {
        before(items[i], items[j])
    } else {
        !before(items[j], items[i])
    }
}

/// Whether a list holds each index below `len` once.
pub open spec fn rearranges(order: Seq<int>, len: nat) -> bool {
    &&& order.len() == len
    &&& order.no_duplicates()
    &&& forall|i: int| 0 <= i < order.len() ==> 0 <= #[trigger] order[i] < len
}

/// Whether `output` holds the items of `input` in the order of their indices in
/// `order`, each in front of its successor as a stable sort puts them.
pub open spec fn arranged<T>(
    input: Seq<T>,
    output: Seq<T>,
    before: spec_fn(T, T) -> bool,
    order: Seq<int>,
) -> bool {
    &&& rearranges(order, input.len())
    &&& output.len() == input.len()
    &&& forall|i: int| 0 <= i < output.len() ==> #[trigger] output[i] == input[order[i]]
    &&& forall|i: int|
        0 <= i < order.len() - 1 ==> goes_first(input, before, #[trigger] order[i], order[i + 1])
}

/// Whether `output` is a stable sort of `input`.
pub open spec fn stable_sort<T>(
    input: Seq<T>,
    output: Seq<T>,
    before: spec_fn(T, T) -> bool,
) -> bool {
    exists|order: Seq<int>| arranged(input, output, before, order)
}

/// Whether an order relates any two items, and chains of related items.
pub open spec fn total_order<T>(before: spec_fn(T, T) -> bool) -> bool {
    &&& forall|a: T, b: T| #[trigger] before(a, b) || before(b, a)
    &&& forall|a: T, b: T, c: T| #[trigger]
        before(a, b) && #[trigger] before(b, c) ==> before(a, c)
}

/// In a stable sort by a total order, every item stands in front of all later
/// ones, and items that rank the same keep the order in which they came.
pub proof fn law_sort_orders_every_pair<T>(
    input: Seq<T>,
    output: Seq<T>,
    before: spec_fn(T, T) -> bool,
    order: Seq<int>,
    i: int,
    j: int,
)
    requires
        total_order(before),
        arranged(input, output, before, order),
        0 <= i < j < output.len(),
    ensures
        before(output[i], output[j]),
        before(output[j], output[i]) ==> order[i] < order[j],
        goes_first(input, before, order[i], order[j]),
    decreases j - i,
{
    let last = j - 1;
    assert(goes_first(input, before, order[last], order[last + 1]));
    assert(order[i] != order[j]);
    if i < last {
        law_sort_orders_every_pair(input, output, before, order, i, last);
        assert(order[i] != order[last]);
        assert(order[last] != order[j]);
        assert(before(input[order[i]], input[order[last]]));
        assert(before(input[order[last]], input[order[j]]));
        assert(before(input[order[i]], input[order[j]]));
        if before(input[order[j]], input[order[i]]) {
            assert(before(input[order[j]], input[order[last]]));
            assert(before(input[order[last]], input[order[i]]));
        }
    }
}

/// A sort neither loses nor invents an item, and keeps each as many times as it came.
pub proof fn law_sort_keeps_every_item<T>(
    input: Seq<T>,
    output: Seq<T>,
    before: spec_fn(T, T) -> bool,
    item: T,
)
    requires
        stable_sort(input, output, before),
    ensures
        output.len() == input.len(),
        output.to_multiset() == input.to_multiset(),
        output.contains(item) <==> input.contains(item),
{
    let order = choose|order: Seq<int>| arranged(input, output, before, order);
    lemma_rearranged(input, output, order);
    if output.contains(item) {
        let i = output.index_of(item);
        assert(input[order[i]] == item);
    }
    if input.contains(item) {
        let i = input.index_of(item);
        lemma_covers(order, input.len(), i);
        let j = order.index_of(i);
        assert(output[j] == item);
    }
}

/// Rearranging a list keeps its items, each as many times as it came.
proof fn lemma_rearranged<T>(input: Seq<T>, output: Seq<T>, order: Seq<int>)
    requires
        rearranges(order, input.len()),
        output.len() == input.len(),
        forall|i: int| 0 <= i < output.len() ==> #[trigger] output[i] == input[order[i]],
    ensures
        output.to_multiset() == input.to_multiset(),
    decreases input.len(),
{
    if input.len() == 0 {
        assert(output =~= input);
    } else {
        let last = order.last();
        let item = input[last];
        let fewer = input.remove(last);
        let front = output.drop_last();
        let closed = Seq::new(
            front.len(),
            |i: int|
                if order[i] > last {
                    order[i] - 1
                } else {
                    order[i]
                },
        );
        assert forall|i: int| 0 <= i < closed.len() implies 0 <= #[trigger] closed[i]
            < fewer.len() && front[i] == fewer[closed[i]] by {
            assert(order[i] != order[order.len() - 1]);
            assert(front[i] == input[order[i]]);
        }
        assert forall|i: int, j: int|
            0 <= i < closed.len() && 0 <= j < closed.len() && i != j implies closed[i]
            != closed[j] by {
            assert(order[i] != order[j]);
            assert(order[i] != order[order.len() - 1]);
            assert(order[j] != order[order.len() - 1]);
        }
        lemma_rearranged(fewer, front, closed);
        assert(output =~= front.push(item));
        assert(fewer.insert(last, item) =~= input);
        vstd::seq_lib::to_multiset_build(front, item);
        vstd::seq_lib::to_multiset_insert(fewer, last, item);
    }
}

/// A stable sort by a total order is the only one.
pub proof fn law_sort_is_unique<T>(
    input: Seq<T>,
    left: Seq<T>,
    right: Seq<T>,
    before: spec_fn(T, T) -> bool,
)
    requires
        total_order(before),
        stable_sort(input, left, before),
        stable_sort(input, right, before),
    ensures
        left == right,
{
    let p = choose|order: Seq<int>| arranged(input, left, before, order);
    let q = choose|order: Seq<int>| arranged(input, right, before, order);
    lemma_same_order(input, left, right, before, p, q, input.len() as int);
    assert(left =~= right);
}

proof fn lemma_covers(order: Seq<int>, len: nat, index: int)
    requires
        rearranges(order, len),
        0 <= index < len,
    ensures
        order.contains(index),
{
    let range = Set::new(|i: int| 0 <= i < len);
    vstd::set_lib::lemma_int_range(0, len as int);
    assert(range =~= vstd::set_lib::set_int_range(0, len as int));
    order.unique_seq_to_set();
    assert(order.to_set().subset_of(range));
    vstd::set_lib::lemma_subset_equality(order.to_set(), range);
    assert(range.contains(index));
}

proof fn lemma_same_order<T>(
    input: Seq<T>,
    left: Seq<T>,
    right: Seq<T>,
    before: spec_fn(T, T) -> bool,
    p: Seq<int>,
    q: Seq<int>,
    count: int,
)
    requires
        total_order(before),
        arranged(input, left, before, p),
        arranged(input, right, before, q),
        0 <= count <= input.len(),
    ensures
        forall|i: int| 0 <= i < count ==> p[i] == q[i],
    decreases count,
{
    if count > 0 {
        let at = count - 1;
        lemma_same_order(input, left, right, before, p, q, at);
        if p[at] != q[at] {
            lemma_covers(q, input.len(), p[at]);
            lemma_covers(p, input.len(), q[at]);
            let i = q.index_of(p[at]);
            let j = p.index_of(q[at]);
            if i < at {
                assert(p[i] == p[at]);
            }
            if j < at {
                assert(q[j] == q[at]);
            }
            law_sort_orders_every_pair(input, right, before, q, at, i);
            law_sort_orders_every_pair(input, left, before, p, at, j);
        }
    }
}

/// Merges two sorted runs of indices, of which the first lies in front.
fn merge<T, R: Ranking<T>>(
    items: &Vec<T>,
    ranking: &R,
    left: &Vec<usize>,
    right: &Vec<usize>,
    low: usize,
    middle: usize,
    high: usize,
) -> (order: Vec<usize>)
    requires
        low <= middle <= high <= items@.len(),
        left@.len() == middle - low,
        right@.len() == high - middle,
        left@.no_duplicates(),
        right@.no_duplicates(),
        forall|i: int| 0 <= i < left@.len() ==> low <= #[trigger] left@[i] < middle,
        forall|i: int| 0 <= i < right@.len() ==> middle <= #[trigger] right@[i] < high,
        in_order(items@, ranking, left@),
        in_order(items@, ranking, right@),
    ensures
        order@.len() == high - low,
        order@.no_duplicates(),
        forall|i: int| 0 <= i < order@.len() ==> low <= #[trigger] order@[i] < high,
        in_order(items@, ranking, order@),
{
    let mut order: Vec<usize> = Vec::new();
    let mut a: usize = 0;
    let mut b: usize = 0;
    while a < left.len() || b < right.len()
        invariant
            low <= middle <= high <= items@.len(),
            left@.len() == middle - low,
            right@.len() == high - middle,
            left@.no_duplicates(),
            right@.no_duplicates(),
            forall|i: int| 0 <= i < left@.len() ==> low <= #[trigger] left@[i] < middle,
            forall|i: int| 0 <= i < right@.len() ==> middle <= #[trigger] right@[i] < high,
            in_order(items@, ranking, left@),
            in_order(items@, ranking, right@),
            a <= left@.len(),
            b <= right@.len(),
            order@.len() == a + b,
            order@.no_duplicates(),
            forall|i: int| 0 <= i < order@.len() ==> low <= #[trigger] order@[i] < high,
            forall|i: int|
                0 <= i < order@.len() && #[trigger] order@[i] < middle ==> left@.take(
                    a as int,
                ).contains(order@[i]),
            forall|i: int|
                0 <= i < order@.len() && #[trigger] order@[i] >= middle ==> right@.take(
                    b as int,
                ).contains(order@[i]),
            in_order(items@, ranking, order@),
            order@.len() > 0 && a < left@.len() ==> index_first(
                items@,
                ranking,
                order@.last(),
                left@[a as int],
            ),
            order@.len() > 0 && b < right@.len() ==> index_first(
                items@,
                ranking,
                order@.last(),
                right@[b as int],
            ),
        decreases left@.len() - a + right@.len() - b,
    {
        let ghost earlier = order@;
        if b >= right.len() || (a < left.len() && ranking.is_before(
            &items[left[a]],
            &items[right[b]],
        )) {
            let next: usize = left[a];
            proof {
                if order@.contains(next) {
                    let i = order@.index_of(next);
                    assert(left@.take(a as int).contains(order@[i]));
                    let x = left@.take(a as int).index_of(next);
                    assert(left@[x] == left@[a as int]);
                }
                assert(left@.take(a + 1)[a as int] == next);
                assert forall|i: int| 0 <= i < earlier.len() && #[trigger] earlier[i]
                    < middle implies left@.take(a + 1).contains(earlier[i]) by {
                    let x = left@.take(a as int).index_of(earlier[i]);
                    assert(left@.take(a + 1)[x] == earlier[i]);
                }
            }
            order.push(next);
            a += 1;
        } else {
            let next: usize = right[b];
            proof {
                if order@.contains(next) {
                    let i = order@.index_of(next);
                    assert(right@.take(b as int).contains(order@[i]));
                    let x = right@.take(b as int).index_of(next);
                    assert(right@[x] == right@[b as int]);
                }
                assert(right@.take(b + 1)[b as int] == next);
                assert forall|i: int| 0 <= i < earlier.len() && #[trigger] earlier[i]
                    >= middle implies right@.take(b + 1).contains(earlier[i]) by {
                    let x = right@.take(b as int).index_of(earlier[i]);
                    assert(right@.take(b + 1)[x] == earlier[i]);
                }
            }
            order.push(next);
            b += 1;
        }
        assert forall|i: int| 0 <= i < order@.len() - 1 implies index_first(
            items@,
            ranking,
            #[trigger] order@[i],
            order@[i + 1],
        ) by {
            if i < earlier.len() - 1 {
                assert(index_first(items@, ranking, earlier[i], earlier[i + 1]));
            }
        }
    }
    order
}

/// [`goes_first`] by a ranking.
spec fn index_first<T, R: Ranking<T>>(items: Seq<T>, ranking: &R, i: usize, j: usize) -> bool {
    if i < j {
        ranking.before(items[i as int], items[j as int])
    } else {
        !ranking.before(items[j as int], items[i as int])
    }
}

/// Whether each index of a list goes in front of its successor.
spec fn in_order<T, R: Ranking<T>>(items: Seq<T>, ranking: &R, order: Seq<usize>) -> bool {
    forall|i: int|
        0 <= i < order.len() - 1 ==> index_first(items, ranking, #[trigger] order[i], order[i + 1])
}

/// The indices from `low` up to `high` in sorted order.
fn sorted_indices<T, R: Ranking<T>>(items: &Vec<T>, ranking: &R, low: usize, high: usize) -> (order:
    Vec<usize>)
    requires
        low <= high <= items@.len(),
    ensures
        order@.len() == high - low,
        order@.no_duplicates(),
        forall|i: int| 0 <= i < order@.len() ==> low <= #[trigger] order@[i] < high,
        in_order(items@, ranking, order@),
    decreases high - low,
{
    if high - low < 2 {
        let mut order: Vec<usize> = Vec::new();
        if high > low {
            order.push(low);
        }
        return order;
    }
    let middle: usize = low + (high - low) / 2;
    let left = sorted_indices(items, ranking, low, middle);
    let right = sorted_indices(items, ranking, middle, high);
    merge(items, ranking, &left, &right, low, middle, high)
}

/// Sorts items by a ranking, keeping the order of those that rank the same.
pub fn sort_items<T, R: Ranking<T>>(items: Vec<T>, ranking: &R) -> (output: Vec<T>)
    ensures
        stable_sort(items@, output@, |a: T, b: T| ranking.before(a, b)),
{
    let ghost input = items@;
    let order = sorted_indices(&items, ranking, 0, items.len());
    let mut rest = items;
    let count: usize = rest.len();
    let mut slots: Vec<Option<T>> = Vec::new();
    while slots.len() < count
        invariant
            count == input.len(),
            slots@.len() <= count,
            rest@.len() == count - slots@.len(),
            forall|i: int| 0 <= i < rest@.len() ==> rest@[i] == input[i],
            forall|i: int|
                0 <= i < slots@.len() ==> #[trigger] slots@[i] == Some(input[count - 1 - i]),
        decreases count - slots@.len(),
    {
        let item = rest.pop();
        slots.push(item);
    }
    let mut output: Vec<T> = Vec::new();
    let mut index: usize = 0;
    while index < count
        invariant
            count == input.len(),
            count == order@.len(),
            slots@.len() == count,
            index <= count,
            output@.len() == index,
            order@.no_duplicates(),
            forall|i: int| 0 <= i < order@.len() ==> 0 <= #[trigger] order@[i] < count,
            forall|i: int| 0 <= i < index ==> #[trigger] output@[i] == input[order@[i] as int],
            forall|i: int|
                index <= i < count ==> slots@[count - 1 - #[trigger] order@[i]] == Some(
                    input[order@[i] as int],
                ),
        decreases count - index,
    {
        let at: usize = count - 1 - order[index];
        let slot = &mut slots[at];
        let item = slot.take();
        match item {
            Some(item) => output.push(item),
            None => {},
        }
        index += 1;
    }
    proof {
        let before = |a: T, b: T| ranking.before(a, b);
        let indices = Seq::new(order@.len(), |i: int| order@[i] as int);
        assert forall|i: int, j: int|
            0 <= i < indices.len() && 0 <= j < indices.len() && i != j implies indices[i]
            != indices[j] by {
            assert(order@[i] != order@[j]);
        }
        assert forall|i: int| 0 <= i < indices.len() - 1 implies goes_first(
            input,
            before,
            #[trigger] indices[i],
            indices[i + 1],
        ) by {
            assert(index_first(input, ranking, order@[i], order@[i + 1]));
        }
        assert forall|i: int| 0 <= i < output@.len() implies #[trigger] output@[i]
            == input[indices[i]] by {}
        assert(arranged(input, output@, before, indices));
    }
    output
}

} // verus!
