//! The to-do list.
//!
//! After every change the list is put in order: what is open before what is
//! done, and within each the earlier deadline first. Items that rank alike
//! keep the order they had.
use vstd::prelude::*;

verus! {

/// One thing to do.
#[derive(Clone, Debug, PartialEq, Eq)]
pub struct TodoWidget {
    pub text: String,
    pub done: bool,
    pub by: String,
    /// The deadline, in milliseconds since the epoch.
    pub deadline: u128,
}

/// Whether `a` ranks strictly before `b`.
pub open spec fn ranks_before(a: TodoWidget, b: TodoWidget) -> bool {
    (!a.done && b.done) || (a.done == b.done && a.deadline < b.deadline)
}

/// Whether the item at index `a` of `list` belongs before the one at index
/// `b`: it ranks before it, or they rank alike and `a` is the smaller index.
pub open spec fn belongs_before(list: Seq<TodoWidget>, a: int, b: int) -> bool {
    ranks_before(list[a], list[b]) || (!ranks_before(list[b], list[a]) && a < b)
}

/// Whether `places` says, for each position of `sorted`, which item of
/// `list` stands there, and the items stand as they belong.
pub open spec fn arranges(places: Seq<int>, sorted: Seq<TodoWidget>, list: Seq<TodoWidget>) -> bool {
    &&& places.len() == list.len()
    &&& sorted.len() == list.len()
    &&& forall|i: int|
        0 <= i < list.len() ==> 0 <= #[trigger] places[i] < list.len() && sorted[i]
            == list[places[i]]
    &&& forall|i: int, j: int|
        0 <= i < j < list.len() ==> belongs_before(list, #[trigger] places[i], #[trigger] places[j])
}

/// Whether `sorted` is `list` put in order: the same items, by rank, and
/// those that rank alike in the order they had in `list`.
pub open spec fn is_sorted_form(sorted: Seq<TodoWidget>, list: Seq<TodoWidget>) -> bool {
    exists|places: Seq<int>| arranges(places, sorted, list)
}

/// Whether the items of `list` stand by rank.
pub open spec fn by_rank(list: Seq<TodoWidget>) -> bool {
    forall|i: int, j: int| 0 <= i < j < list.len() ==> !ranks_before(list[j], list[i])
}

/// A list put in order stands by rank.
pub proof fn lemma_sorted_form_by_rank(sorted: Seq<TodoWidget>, list: Seq<TodoWidget>)
    requires
        is_sorted_form(sorted, list),
    ensures
        by_rank(sorted),
        sorted.len() == list.len(),
{
    let places = choose|places: Seq<int>| arranges(places, sorted, list);
    assert forall|i: int, j: int| 0 <= i < j < sorted.len() implies !ranks_before(
        sorted[j],
        sorted[i],
    ) by {
        assert(belongs_before(list, places[i], places[j]));
    }
}

/// Where `places` holds each of the numbers below its length at most once,
/// it holds each of them.
proof fn lemma_every_place_taken(places: Seq<int>, wanted: int)
    requires
        forall|i: int| 0 <= i < places.len() ==> 0 <= #[trigger] places[i] < places.len(),
        places.no_duplicates(),
        0 <= wanted < places.len(),
    ensures
        exists|k: int| 0 <= k < places.len() && places[k] == wanted,
{
    let n = places.len() as int;
    let taken = places.to_set();
    let all = vstd::set_lib::set_int_range(0, n);
    places.unique_seq_to_set();
    vstd::set_lib::lemma_int_range(0, n);
    assert(taken.subset_of(all)) by {
        assert forall|v: int| taken.contains(v) implies all.contains(v) by {
            let k = choose|k: int| 0 <= k < places.len() && places[k] == v;
        }
    }
    vstd::set_lib::lemma_set_subset_finite(all, taken);
    vstd::set_lib::lemma_subset_equality(taken, all);
    assert(all.contains(wanted));
}

/// An arrangement holds no item twice.
proof fn lemma_arrangement_has_no_duplicates(
    places: Seq<int>,
    sorted: Seq<TodoWidget>,
    list: Seq<TodoWidget>,
)
    requires
        arranges(places, sorted, list),
    ensures
        places.no_duplicates(),
{
    assert forall|i: int, j: int|
        0 <= i < places.len() && 0 <= j < places.len() && i != j implies places[i] != places[j] by {
    }
}

/// A list has one sorted form only.
pub proof fn lemma_sorted_form_unique(
    first: Seq<TodoWidget>,
    second: Seq<TodoWidget>,
    list: Seq<TodoWidget>,
)
    requires
        is_sorted_form(first, list),
        is_sorted_form(second, list),
    ensures
        first == second,
{
    let p = choose|places: Seq<int>| arranges(places, first, list);
    let q = choose|places: Seq<int>| arranges(places, second, list);
    lemma_arrangement_has_no_duplicates(p, first, list);
    lemma_arrangement_has_no_duplicates(q, second, list);
    assert forall|k: int| 0 <= k < list.len() implies first[k] == second[k] by {
        lemma_places_agree(p, first, q, second, list, k);
    }
}

/// Two arrangements of a list agree at every position.
proof fn lemma_places_agree(
    p: Seq<int>,
    first: Seq<TodoWidget>,
    q: Seq<int>,
    second: Seq<TodoWidget>,
    list: Seq<TodoWidget>,
    k: int,
)
    requires
        arranges(p, first, list),
        arranges(q, second, list),
        p.no_duplicates(),
        q.no_duplicates(),
        0 <= k < list.len(),
    ensures
        p[k] == q[k],
    decreases k,
{
    assert forall|j: int| 0 <= j < k implies p[j] == q[j] by {
        lemma_places_agree(p, first, q, second, list, j);
    }
    // What stands at position `k` of the one arrangement stands somewhere
    // in the other, and not before position `k`. Were it behind position
    // `k` in both, each of the two items would belong before the other.
    lemma_every_place_taken(p, q[k]);
    lemma_every_place_taken(q, p[k]);
}

/// Whether `a` ranks strictly before `b`.
pub fn goes_before(a: &TodoWidget, b: &TodoWidget) -> (r: bool)
    ensures
        r == ranks_before(*a, *b),
{
    (!a.done && b.done) || (a.done == b.done && a.deadline < b.deadline)
}

/// Puts the list in order.
pub fn sort(list: &mut Vec<TodoWidget>)
    ensures
        is_sorted_form(final(list)@, old(list)@),
{
    let ghost start = list@;
    let ghost mut places: Seq<int> = Seq::new(list@.len(), |i: int| i);
    let n = list.len();
    let mut k: usize = 0;
    while k < n
        invariant
            k <= n,
            n == start.len(),
            list@.len() == n,
            places.len() == n,
            forall|i: int|
                0 <= i < n ==> 0 <= #[trigger] places[i] < n && list@[i] == start[places[i]],
            forall|i: int| 0 <= i < k ==> #[trigger] places[i] < k,
            forall|i: int| k <= i < n ==> #[trigger] places[i] == i,
            forall|i: int, j: int|
                0 <= i < j < k ==> belongs_before(start, #[trigger] places[i], #[trigger] places[j]),
        decreases n - k,
    {
        let ghost before = list@;
        let ghost old_places = places;
        let item = list.remove(k);
        let mut pos: usize = 0;
        while pos < k && !goes_before(&item, &list[pos])
            invariant
                pos <= k,
                k < n,
                list@ == before.remove(k as int),
                before.len() == n,
                item == before[k as int],
                forall|i: int| 0 <= i < pos ==> !ranks_before(item, #[trigger] list@[i]),
            decreases k - pos,
        {
            pos += 1;
        }
        list.insert(pos, item);
        proof {
            places = old_places.remove(k as int).insert(pos as int, k as int);
            let after = list@;
            assert(old_places[k as int] == k);
            assert forall|i: int| 0 <= i < n implies 0 <= #[trigger] places[i] < n && after[i]
                == start[places[i]] by {
            }
            assert forall|i: int| 0 <= i < k + 1 implies #[trigger] places[i] < k + 1 by {
            }
            assert forall|i: int| k + 1 <= i < n implies #[trigger] places[i] == i by {
            }
            assert forall|i: int, j: int| 0 <= i < j < k + 1 implies belongs_before(
                start,
                #[trigger] places[i],
                #[trigger] places[j],
            ) by {
                // The item that was put in stands behind all that do not
                // rank behind it, and before the first that does.
                if i == pos && j > pos {
                    assert(before[pos as int] == start[old_places[pos as int]]);
                }
            }
        }
        k += 1;
    }
    assert(arranges(places, list@, start));
}

} // verus!
