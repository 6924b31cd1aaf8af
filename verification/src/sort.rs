//! Sorting the process list by a column, stably.

use crate::collector::process_views;
use crate::process::{ProcessInfo, ProcessView};
use crate::text::{lemma_lex_lt_total, lemma_lex_lt_transitive, text_less, text_lt};
use vstd::prelude::*;

verus! {

/// The column by which the process list is sorted.
#[derive(Clone, Copy, Debug, PartialEq, Eq, Structural)]
pub enum SortKey {
    Pid,
    Name,
    Cpu,
    Memory,
    Status,
    User,
    StartTime,
}

impl SortKey {
    /// The heading of the column.
    pub open spec fn heading(self) -> Seq<char> {
        match self {
            SortKey::Pid => "PID"@,
            SortKey::Name => "Name"@,
            SortKey::Cpu => "CPU%"@,
            SortKey::Memory => "Memory"@,
            SortKey::Status => "Status"@,
            SortKey::User => "User"@,
            SortKey::StartTime => "Start Time"@,
        }
    }

    /// The heading of the column.
    pub fn as_str(&self) -> (text: &'static str)
        ensures
            text@ == self.heading(),
    {
        match self {
            SortKey::Pid => "PID",
            SortKey::Name => "Name",
            SortKey::Cpu => "CPU%",
            SortKey::Memory => "Memory",
            SortKey::Status => "Status",
            SortKey::User => "User",
            SortKey::StartTime => "Start Time",
        }
    }
}

/// Whether `a` has the smaller value in column `key`. Numbers compare as
/// numbers, texts by their bytes and statuses by their rank.
pub open spec fn key_lt(a: ProcessView, b: ProcessView, key: SortKey) -> bool {
    match key {
        SortKey::Pid => a.pid < b.pid,
        SortKey::Name => text_lt(a.name, b.name),
        SortKey::Cpu => a.cpu_usage < b.cpu_usage,
        SortKey::Memory => a.memory < b.memory,
        SortKey::Status => a.status.spec_rank() < b.status.spec_rank(),
        SortKey::User => text_lt(a.user, b.user),
        SortKey::StartTime => a.start_time < b.start_time,
    }
}

/// Whether the process at position `i` of `list` belongs before the one at
/// position `j` when the list is sorted by `key`: its value comes first in
/// the direction of the sort, or the values tie and `i` is the earlier
/// position.
pub open spec fn precedes(
    list: Seq<ProcessView>,
    key: SortKey,
    ascending: bool,
    i: int,
    j: int,
) -> bool {
    if ascending {
        key_lt(list[i], list[j], key) || (!key_lt(list[j], list[i], key) && i < j)
    } else {
        key_lt(list[j], list[i], key) || (!key_lt(list[i], list[j], key) && i < j)
    }
}

/// Whether `order` lists the positions `lo..hi` of `list`, each once, in
/// sorted order.
pub open spec fn is_sort_order(
    list: Seq<ProcessView>,
    key: SortKey,
    ascending: bool,
    lo: int,
    hi: int,
    order: Seq<usize>,
) -> bool {
    &&& order.len() == hi - lo
    &&& forall|k: int| 0 <= k < order.len() ==> lo <= #[trigger] order[k] < hi
    &&& forall|a: int, b: int|
        0 <= a < b < order.len() ==> precedes(
            list,
            key,
            ascending,
            #[trigger] order[a] as int,
            #[trigger] order[b] as int,
        )
}

/// Whether `sorted` holds the processes of `list` in the order that `order`
/// gives, and `order` is a sorted order of all positions of `list`.
pub open spec fn is_sorted_along(
    list: Seq<ProcessView>,
    sorted: Seq<ProcessView>,
    key: SortKey,
    ascending: bool,
    order: Seq<usize>,
) -> bool {
    &&& is_sort_order(list, key, ascending, 0, list.len() as int, order)
    &&& sorted.len() == list.len()
    &&& forall|i: int| 0 <= i < sorted.len() ==> #[trigger] sorted[i] == list[order[i] as int]
}

/// Whether `sorted` is `list` sorted stably by `key`: it holds the
/// processes of `list` in an order in which every process belongs before
/// all that follow it, and processes with equal values stay in the order
/// they had.
pub open spec fn is_stable_sort(
    list: Seq<ProcessView>,
    sorted: Seq<ProcessView>,
    key: SortKey,
    ascending: bool,
) -> bool {
    exists|order: Seq<usize>| is_sorted_along(list, sorted, key, ascending, order)
}

/// The values of a column are totally ordered: a value is not smaller than
/// itself, and what is smaller than, or tied with, a value that is smaller
/// than a third is smaller than the third.
pub proof fn lemma_key_order(a: ProcessView, b: ProcessView, c: ProcessView, key: SortKey)
    ensures
        !key_lt(a, a, key),
        !(key_lt(a, b, key) && key_lt(b, a, key)),
        key_lt(a, b, key) && !key_lt(c, b, key) ==> key_lt(a, c, key),
        !key_lt(b, a, key) && key_lt(b, c, key) ==> key_lt(a, c, key),
        !key_lt(b, a, key) && !key_lt(c, b, key) ==> !key_lt(c, a, key),
{
    let (x, y, z) = match key {
        SortKey::Name => (
            vstd::utf8::encode_utf8(a.name),
            vstd::utf8::encode_utf8(b.name),
            vstd::utf8::encode_utf8(c.name),
        ),
        _ => (
            vstd::utf8::encode_utf8(a.user),
            vstd::utf8::encode_utf8(b.user),
            vstd::utf8::encode_utf8(c.user),
        ),
    };
    lemma_lex_lt_total(x, x);
    lemma_lex_lt_total(x, y);
    lemma_lex_lt_total(y, z);
    lemma_lex_lt_total(x, z);
    if text_lt_bytes(x, y) && text_lt_bytes(y, z) {
        lemma_lex_lt_transitive(x, y, z);
    }
    if text_lt_bytes(z, y) && text_lt_bytes(y, x) {
        lemma_lex_lt_transitive(z, y, x);
    }
}

spec fn text_lt_bytes(x: Seq<u8>, y: Seq<u8>) -> bool {
    crate::text::lex_lt(x, y)
}

/// Positions are totally ordered by `precedes`.
pub proof fn lemma_precedes_order(
    list: Seq<ProcessView>,
    key: SortKey,
    ascending: bool,
    i: int,
    j: int,
    k: int,
)
    ensures
        !precedes(list, key, ascending, i, i),
        i != j ==> precedes(list, key, ascending, i, j) || precedes(list, key, ascending, j, i),
        precedes(list, key, ascending, i, j) && precedes(list, key, ascending, j, k) ==> precedes(
            list,
            key,
            ascending,
            i,
            k,
        ),
{
    lemma_key_order(list[i], list[j], list[k], key);
    lemma_key_order(list[k], list[j], list[i], key);
    lemma_key_order(list[i], list[k], list[j], key);
    lemma_key_order(list[j], list[i], list[k], key);
}

/// A sort order names every position of the list, each once.
pub proof fn lemma_sort_order_is_permutation(
    list: Seq<ProcessView>,
    key: SortKey,
    ascending: bool,
    order: Seq<usize>,
)
    requires
        is_sort_order(list, key, ascending, 0, list.len() as int, order),
    ensures
        order.no_duplicates(),
        forall|p: usize| p < list.len() ==> order.contains(p),
{
    let n = list.len() as int;
    let ints = order.map_values(|v: usize| v as int);
    assert forall|i: int, j: int| 0 <= i < order.len() && 0 <= j < order.len() && i != j implies order[i]
        != order[j] by {
        lemma_precedes_order(list, key, ascending, order[i] as int, order[j] as int, 0);
        if i < j {
            assert(precedes(list, key, ascending, order[i] as int, order[j] as int));
        } else {
            assert(precedes(list, key, ascending, order[j] as int, order[i] as int));
        }
    }
    assert(ints.no_duplicates());
    ints.unique_seq_to_set();
    vstd::seq_lib::seq_to_set_is_finite(ints);
    vstd::set_lib::lemma_int_range(0, n);
    assert(ints.to_set().subset_of(vstd::set_lib::set_int_range(0, n))) by {
        assert forall|v: int| ints.to_set().contains(v) implies vstd::set_lib::set_int_range(
            0,
            n,
        ).contains(v) by {
            let at = choose|at: int| 0 <= at < ints.len() && ints[at] == v;
            assert(0 <= order[at] < n);
        }
    }
    vstd::set_lib::lemma_subset_equality(ints.to_set(), vstd::set_lib::set_int_range(0, n));
    assert forall|p: usize| p < list.len() implies order.contains(p) by {
        assert(vstd::set_lib::set_int_range(0, n).contains(p as int));
        assert(ints.to_set().contains(p as int));
        let at = choose|at: int| 0 <= at < ints.len() && ints[at] == p as int;
        assert(order[at] == p);
    }
}

proof fn lemma_sort_orders_agree(
    list: Seq<ProcessView>,
    key: SortKey,
    ascending: bool,
    x: Seq<usize>,
    y: Seq<usize>,
    k: int,
)
    requires
        is_sort_order(list, key, ascending, 0, list.len() as int, x),
        is_sort_order(list, key, ascending, 0, list.len() as int, y),
        0 <= k <= list.len(),
    ensures
        x.take(k) == y.take(k),
    decreases k,
{
    if k == 0 {
        assert(x.take(0) =~= y.take(0));
    } else {
        lemma_sort_orders_agree(list, key, ascending, x, y, k - 1);
        let at = k - 1;
        assert forall|j: int| 0 <= j < at implies x[j] == y[j] by {
            assert(x.take(at)[j] == y.take(at)[j]);
        }
        if x[at] != y[at] {
            lemma_precedes_order(list, key, ascending, x[at] as int, y[at] as int, x[at] as int);
            lemma_precedes_order(list, key, ascending, y[at] as int, x[at] as int, y[at] as int);
            if precedes(list, key, ascending, x[at] as int, y[at] as int) {
                lemma_sort_order_is_permutation(list, key, ascending, y);
                assert(y.contains(x[at]));
                let j = choose|j: int| 0 <= j < y.len() && y[j] == x[at];
                if j < at {
                    assert(precedes(list, key, ascending, x[j] as int, x[at] as int));
                } else if j > at {
                    assert(precedes(list, key, ascending, y[at] as int, y[j] as int));
                }
            } else {
                lemma_sort_order_is_permutation(list, key, ascending, x);
                assert(x.contains(y[at]));
                let j = choose|j: int| 0 <= j < x.len() && x[j] == y[at];
                if j < at {
                    assert(precedes(list, key, ascending, y[j] as int, y[at] as int));
                } else if j > at {
                    assert(precedes(list, key, ascending, x[at] as int, x[j] as int));
                }
            }
        }
        assert(x.take(k) =~= x.take(at).push(x[at]));
        assert(y.take(k) =~= y.take(at).push(y[at]));
    }
}

/// A list has one stable sort by a column and direction, and no other.
pub proof fn lemma_stable_sort_is_unique(
    list: Seq<ProcessView>,
    a: Seq<ProcessView>,
    b: Seq<ProcessView>,
    key: SortKey,
    ascending: bool,
)
    requires
        is_stable_sort(list, a, key, ascending),
        is_stable_sort(list, b, key, ascending),
    ensures
        a == b,
{
    let x = choose|x: Seq<usize>| is_sorted_along(list, a, key, ascending, x);
    let y = choose|y: Seq<usize>| is_sorted_along(list, b, key, ascending, y);
    lemma_sort_orders_agree(list, key, ascending, x, y, list.len() as int);
    assert(x.take(list.len() as int) =~= x);
    assert(y.take(list.len() as int) =~= y);
    assert(a =~= b);
}

/// Whether `a` has the smaller value in column `key`.
pub fn key_less(a: &ProcessInfo, b: &ProcessInfo, key: SortKey) -> (less: bool)
    ensures
        less == key_lt(a@, b@, key),
{
    match key {
        SortKey::Pid => a.pid < b.pid,
        SortKey::Name => text_less(a.name.as_str(), b.name.as_str()),
        SortKey::Cpu => a.cpu_usage < b.cpu_usage,
        SortKey::Memory => a.memory < b.memory,
        SortKey::Status => a.status.rank() < b.status.rank(),
        SortKey::User => text_less(a.user.as_str(), b.user.as_str()),
        SortKey::StartTime => a.start_time < b.start_time,
    }
}

/// Whether the process at position `i` belongs before the one at `j`.
fn comes_before(
    list: &Vec<ProcessInfo>,
    key: SortKey,
    ascending: bool,
    i: usize,
    j: usize,
) -> (before: bool)
    requires
        i < list.len(),
        j < list.len(),
    ensures
        before == precedes(process_views(list@), key, ascending, i as int, j as int),
{
    let a = &list[i];
    let b = &list[j];
    if ascending {
        key_less(a, b, key) || (!key_less(b, a, key) && i < j)
    } else {
        key_less(b, a, key) || (!key_less(a, b, key) && i < j)
    }
}

/// Merges the sorted positions of two adjoining ranges.
fn merge_orders(
    list: &Vec<ProcessInfo>,
    key: SortKey,
    ascending: bool,
    left: &Vec<usize>,
    right: &Vec<usize>,
    lo: usize,
    mid: usize,
    hi: usize,
) -> (merged: Vec<usize>)
    requires
        lo <= mid <= hi <= list.len(),
        is_sort_order(process_views(list@), key, ascending, lo as int, mid as int, left@),
        is_sort_order(process_views(list@), key, ascending, mid as int, hi as int, right@),
    ensures
        is_sort_order(process_views(list@), key, ascending, lo as int, hi as int, merged@),
{
    let ghost views = process_views(list@);
    let mut merged: Vec<usize> = Vec::new();
    let mut i: usize = 0;
    let mut j: usize = 0;
    while i < left.len() || j < right.len()
        invariant
            views == process_views(list@),
            lo <= mid <= hi <= list.len(),
            is_sort_order(views, key, ascending, lo as int, mid as int, left@),
            is_sort_order(views, key, ascending, mid as int, hi as int, right@),
            i <= left.len(),
            j <= right.len(),
            merged.len() == i + j,
            forall|k: int| 0 <= k < merged.len() ==> lo <= #[trigger] merged[k] < hi,
            forall|a: int, b: int|
                0 <= a < b < merged.len() ==> precedes(
                    views,
                    key,
                    ascending,
                    #[trigger] merged[a] as int,
                    #[trigger] merged[b] as int,
                ),
            forall|a: int, b: int|
                0 <= a < merged.len() && i <= b < left.len() ==> precedes(
                    views,
                    key,
                    ascending,
                    #[trigger] merged[a] as int,
                    #[trigger] left[b] as int,
                ),
            forall|a: int, b: int|
                0 <= a < merged.len() && j <= b < right.len() ==> precedes(
                    views,
                    key,
                    ascending,
                    #[trigger] merged[a] as int,
                    #[trigger] right[b] as int,
                ),
        decreases left.len() - i + right.len() - j,
    {
        let take_left: bool = if j >= right.len() {
            true
        } else if i >= left.len() {
            false
        } else {
            !comes_before(list, key, ascending, right[j], left[i])
        };
        if take_left {
            let x: usize = left[i];
            proof {
                assert forall|b: int| j <= b < right.len() implies precedes(
                    views,
                    key,
                    ascending,
                    x as int,
                    #[trigger] right[b] as int,
                ) by {
                    lemma_precedes_order(views, key, ascending, x as int, right[j as int] as int, right[b] as int);
                    lemma_precedes_order(views, key, ascending, right[j as int] as int, x as int, right[b] as int);
                }
            }
            merged.push(x);
            i += 1;
        } else {
            let y: usize = right[j];
            proof {
                assert forall|b: int| i <= b < left.len() implies precedes(
                    views,
                    key,
                    ascending,
                    y as int,
                    #[trigger] left[b] as int,
                ) by {
                    lemma_precedes_order(views, key, ascending, y as int, left[i as int] as int, left[b] as int);
                }
            }
            merged.push(y);
            j += 1;
        }
    }
    merged
}

/// The positions `lo..hi` of `list` in sorted order.
fn sort_range(list: &Vec<ProcessInfo>, key: SortKey, ascending: bool, lo: usize, hi: usize) -> (order:
    Vec<usize>)
    requires
        lo <= hi <= list.len(),
    ensures
        is_sort_order(process_views(list@), key, ascending, lo as int, hi as int, order@),
    decreases hi - lo,
{
    if hi - lo <= 1 {
        let mut order: Vec<usize> = Vec::new();
        if hi > lo {
            order.push(lo);
        }
        return order;
    }
    let mid: usize = lo + (hi - lo) / 2;
    let left = sort_range(list, key, ascending, lo, mid);
    let right = sort_range(list, key, ascending, mid, hi);
    merge_orders(list, key, ascending, &left, &right, lo, mid, hi)
}

/// The positions of `list` in the order of a stable sort by `key`.
pub fn sort_order(list: &Vec<ProcessInfo>, key: SortKey, ascending: bool) -> (order: Vec<usize>)
    ensures
        is_sort_order(process_views(list@), key, ascending, 0, list.len() as int, order@),
{
    sort_range(list, key, ascending, 0, list.len())
}

/// A copy of `list`, sorted stably by `key`.
pub fn sorted_by(list: &Vec<ProcessInfo>, key: SortKey, ascending: bool) -> (sorted: Vec<
    ProcessInfo,
>)
    ensures
        is_stable_sort(process_views(list@), process_views(sorted@), key, ascending),
{
    let order = sort_order(list, key, ascending);
    let mut sorted: Vec<ProcessInfo> = Vec::new();
    let mut i: usize = 0;
    while i < order.len()
        invariant
            i <= order.len(),
            is_sort_order(process_views(list@), key, ascending, 0, list.len() as int, order@),
            sorted.len() == i,
            forall|k: int| 0 <= k < i ==> (#[trigger] sorted[k])@ == list[order[k] as int]@,
        decreases order.len() - i,
    {
        sorted.push(list[order[i]].clone());
        i += 1;
    }
    proof {
        let views = process_views(list@);
        let result = process_views(sorted@);
        assert forall|k: int| 0 <= k < result.len() implies result[k] == views[order@[k] as int] by {
            assert(sorted[k]@ == list[order@[k] as int]@);
        }
        assert(is_sorted_along(views, result, key, ascending, order@));
    }
    sorted
}

} // verus!
