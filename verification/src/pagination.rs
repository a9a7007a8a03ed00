//! Windowed reading of a map: the entries between a start index and an
//! exclusive upper index.
//!
//! A window is given by two optional numbers. `from_index` is the index of
//! the first entry wanted, 0 where it is left out. `limit` is the index at
//! which the window stops, the number of entries where it is left out or
//! larger than that. It is an upper index, not a count: with `from_index` 2
//! and `limit` 4 the window holds the entries 2 and 3.

use crate::collections::{ExactClone, MapKey, UnorderedMap};
use vstd::prelude::*;

verus! {

/// The first index of a window: `from_index`, or 0 where none is given.
pub open spec fn window_start(from_index: Option<u64>) -> int {
    match from_index {
        Some(from) => from as int,
        None => 0,
    }
}

/// The index at which a window over `total` items stops: `limit` cut down to
/// `total`, or `total` where no limit is given.
pub open spec fn window_end(total: int, limit: Option<u64>) -> int {
    match limit {
        Some(bound) => if bound < total {
            bound as int
        } else {
            total
        },
        None => total,
    }
}

/// The items of `items` at the indices from `window_start` up to, and not
/// including, `window_end`, in their order; empty where the start is not
/// below the end.
pub open spec fn window<T>(items: Seq<T>, from_index: Option<u64>, limit: Option<u64>) -> Seq<T> {
    let start = window_start(from_index);
    let end = window_end(items.len() as int, limit);
    if start < end {
        items.subrange(start, end)
    } else {
        Seq::empty()
    }
}

/// A window has as many items as there are indices from its start to its
/// end, none where the start lies beyond the end, and holds the items of
/// those indices in their order.
pub proof fn lemma_window<T>(items: Seq<T>, from_index: Option<u64>, limit: Option<u64>)
    ensures
        window_start(from_index) <= window_end(items.len() as int, limit) ==> window(
            items,
            from_index,
            limit,
        ).len() == window_end(items.len() as int, limit) - window_start(from_index),
        window_start(from_index) > window_end(items.len() as int, limit) ==> window(
            items,
            from_index,
            limit,
        ).len() == 0,
        forall|i: int|
            0 <= i < window(items, from_index, limit).len() ==> #[trigger] window(
                items,
                from_index,
                limit,
            )[i] == items[window_start(from_index) + i],
{
}

/// Reading twice gives the same page: two pages read from the same items
/// with the same bounds are equal.
pub proof fn lemma_window_repeats<T>(
    first: Seq<T>,
    second: Seq<T>,
    items: Seq<T>,
    from_index: Option<u64>,
    limit: Option<u64>,
)
    requires
        first == window(items, from_index, limit),
        second == window(items, from_index, limit),
    ensures
        first == second,
{
}

/// Two windows over the same items agree on every index that both cover.
pub proof fn lemma_windows_agree<T>(
    items: Seq<T>,
    from_index: Option<u64>,
    limit: Option<u64>,
    other_from_index: Option<u64>,
    other_limit: Option<u64>,
    index: int,
)
    requires
        window_start(from_index) <= index < window_end(items.len() as int, limit),
        window_start(other_from_index) <= index < window_end(items.len() as int, other_limit),
    ensures
        window(items, from_index, limit)[index - window_start(from_index)] == window(
            items,
            other_from_index,
            other_limit,
        )[index - window_start(other_from_index)],
{
}

/// The entries of `m` in the window that `from_index` and `limit` give, in
/// the map's order, each with a clone of its value.
pub fn unordered_map_pagination<K: MapKey, V: ExactClone>(
    m: &UnorderedMap<K, V>,
    from_index: Option<u64>,
    limit: Option<u64>,
) -> (page: Vec<(K, V)>)
    ensures
        page@ == window(m@, from_index, limit),
{
    let keys = m.keys_as_vector();
    let values = m.values_as_vector();
    let count = keys.len();
    let total = count as u64;
    let from_index = match from_index {
        Some(from) => from,
        None => 0,
    };
    let limit = match limit {
        Some(bound) => bound,
        None => total,
    };
    let end = if limit < total {
        limit
    } else {
        total
    };
    let mut page: Vec<(K, V)> = Vec::new();
    if from_index >= end {
        return page;
    }
    let mut index = from_index;
    while index < end
        invariant
            from_index <= index <= end <= count,
            count == m@.len(),
            keys@.len() == m@.len(),
            values@.len() == m@.len(),
            forall|i: int| 0 <= i < m@.len() ==> keys@[i] == (#[trigger] m@[i]).0,
            forall|i: int| 0 <= i < m@.len() ==> values@[i] == (#[trigger] m@[i]).1,
            page@ == m@.subrange(from_index as int, index as int),
        decreases end - index,
    {
        let key = keys[index as usize];
        let value = values[index as usize].clone();
        proof {
            V::lemma_clone_is_exact(values@[index as int], value);
            assert(m@[index as int] == (key, value));
            assert(m@.subrange(from_index as int, index + 1) =~= page@.push((key, value)));
        }
        page.push((key, value));
        index += 1;
    }
    page
}

} // verus!
