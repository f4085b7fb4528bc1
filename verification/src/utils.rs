//! Searches for one run of items inside another.

use vstd::prelude::*;
use vstd::std_specs::cmp::PartialEqSpec;

verus! {

/// `==` on `T` follows its specification, and that specification is equality
/// of values. The integer types meet this.
pub open spec fn eq_decides_equality<T: PartialEq>() -> bool {
    &&& T::obeys_eq_spec()
    &&& forall|a: T, b: T| #[trigger] a.eq_spec(&b) <==> a == b
}

/// `needle` stands in `haystack` as a contiguous run that begins at `start`.
pub open spec fn occurs_at<T>(haystack: Seq<T>, needle: Seq<T>, start: int) -> bool {
    &&& 0 <= start
    &&& start + needle.len() <= haystack.len()
    &&& haystack.subrange(start, start + needle.len()) == needle
}

/// `needle` is not empty, it occurs at `start`, and nowhere before.
pub open spec fn is_first_match<T>(haystack: Seq<T>, needle: Seq<T>, start: int) -> bool {
    &&& needle.len() > 0
    &&& occurs_at(haystack, needle, start)
    &&& forall|earlier: int| 0 <= earlier < start ==> !occurs_at(haystack, needle, earlier)
}

/// Where the first occurrence of `needle` in `haystack` begins. There is none
/// for an empty needle.
pub open spec fn first_match<T>(haystack: Seq<T>, needle: Seq<T>) -> Option<int> {
    if exists|start: int| is_first_match(haystack, needle, start) {
        Some(choose|start: int| is_first_match(haystack, needle, start))
    } else {
        None
    }
}

/// The index just behind the first occurrence of `needle`.
pub open spec fn index_after_first_match<T>(haystack: Seq<T>, needle: Seq<T>) -> Option<int> {
    match first_match(haystack, needle) {
        Some(start) => Some(start + needle.len()),
        None => None,
    }
}

/// The items strictly between the first occurrence of `open` and the first
/// occurrence of `close` that begins at or behind the end of that `open`.
pub open spec fn items_between<T>(haystack: Seq<T>, open: Seq<T>, close: Seq<T>) -> Option<Seq<T>> {
    match index_after_first_match(haystack, open) {
        Some(from) => match first_match(haystack.skip(from), close) {
            Some(gap) => Some(haystack.subrange(from, from + gap)),
            None => None,
        },
        None => None,
    }
}

/// Whether `slice`, if it is not empty, occurs in `vec` as a contiguous run.
pub fn vec_contains_slice<T>(vec: &Vec<T>, slice: &[T]) -> (found: bool) where T: Copy + PartialEq
    requires
        eq_decides_equality::<T>(),
    ensures
        found <==> slice@.len() > 0 && exists|start: int| occurs_at(vec@, slice@, start),
        found == first_match(vec@, slice@).is_some(),
{
    let after = find_where_slice_intersects(vec, slice);
    proof {
        if first_match(vec@, slice@) is Some {
            lemma_first_match_found(vec@, slice@);
        } else if slice@.len() > 0 {
            assert forall|start: int| !occurs_at(vec@, slice@, start) by {
                if occurs_at(vec@, slice@, start) {
                    lemma_occurrence_has_first(vec@, slice@, start);
                }
            }
        }
    }
    after.is_some()
}

/// The index just behind the first occurrence of `slice` in `vec`.
pub fn find_where_slice_intersects<T>(vec: &Vec<T>, slice: &[T]) -> (found: Option<usize>) where
    T: Copy + PartialEq,

    requires
        eq_decides_equality::<T>(),
    ensures
        match index_after_first_match(vec@, slice@) {
            Some(after) => found matches Some(index) && index == after,
            None => found is None,
        },
{
    if slice.is_empty() || vec.is_empty() {
        proof {
            lemma_first_match_none(vec@, slice@, 0);
        }
        return None;
    }
    let mut i: usize = 0;
    while i < vec.len()
        invariant
            eq_decides_equality::<T>(),
            slice@.len() > 0,
            i <= vec.len(),
            forall|start: int| 0 <= start < i ==> !occurs_at(vec@, slice@, start),
        decreases vec.len() - i,
    {
        if vec[i] == slice[0] {
            if starts_with_at(vec, slice, i) {
                proof {
                    lemma_first_match_is(vec@, slice@, i as int);
                }
                return Some(i + slice.len());
            }
        }
        i = i + 1;
    }
    proof {
        lemma_first_match_none(vec@, slice@, i as int);
    }
    None
}

/// The index at which the first occurrence of `slice` in `vec` begins.
pub fn find_where_slice_begins<T>(vec: &Vec<T>, slice: &[T]) -> (found: Option<usize>) where
    T: Copy + PartialEq,

    requires
        eq_decides_equality::<T>(),
    ensures
        match first_match(vec@, slice@) {
            Some(start) => found matches Some(index) && index == start,
            None => found is None,
        },
{
    match find_where_slice_intersects(vec, slice) {
        Some(after) => {
            proof {
                lemma_first_match_found(vec@, slice@);
            }
            Some(after - slice.len())
        },
        None => None,
    }
}

/// The items of `vec` between `delimiter_slice` and the `slice` that follows
/// it: see `items_between`.
pub fn locate_items_between_delimiters<T>(
    vec: &Vec<T>,
    delimiter_slice: &[T],
    slice: &[T],
) -> (found: Option<Vec<T>>) where T: Copy + PartialEq
    requires
        eq_decides_equality::<T>(),
    ensures
        match items_between(vec@, delimiter_slice@, slice@) {
            Some(items) => found matches Some(between) && between@ == items,
            None => found is None,
        },
{
    if slice.is_empty() || vec.is_empty() || delimiter_slice.is_empty() {
        proof {
            if vec@.len() == 0 || delimiter_slice@.len() == 0 {
                lemma_first_match_none(vec@, delimiter_slice@, 0);
            } else {
                match index_after_first_match(vec@, delimiter_slice@) {
                    Some(from) => {
                        lemma_first_match_none(vec@.skip(from), slice@, 0);
                    },
                    None => {},
                }
            }
        }
        return None;
    }
    let from = match find_where_slice_intersects(vec, delimiter_slice) {
        Some(after) => after,
        None => {
            return None;
        },
    };
    proof {
        lemma_first_match_found(vec@, delimiter_slice@);
    }
    let mut i: usize = from;
    while i < vec.len()
        invariant
            eq_decides_equality::<T>(),
            slice@.len() > 0,
            from <= i <= vec.len(),
            index_after_first_match(vec@, delimiter_slice@) == Some(from as int),
            forall|gap: int|
                0 <= gap < i - from ==> !occurs_at(vec@.skip(from as int), slice@, gap),
        decreases vec.len() - i,
    {
        proof {
            lemma_occurs_at_skip(vec@, slice@, from as int, i - from);
        }
        if starts_with_at(vec, slice, i) {
            proof {
                lemma_first_match_is(vec@.skip(from as int), slice@, i - from);
            }
            let mut new_vec: Vec<T> = Vec::new();
            let mut x: usize = from;
            while x < i
                invariant
                    from <= x <= i <= vec.len(),
                    new_vec@ == vec@.subrange(from as int, x as int),
                decreases i - x,
            {
                new_vec.push(vec[x]);
                x = x + 1;
            }
            return Some(new_vec);
        }
        i = i + 1;
    }
    proof {
        lemma_first_match_none(vec@.skip(from as int), slice@, i - from);
    }
    None
}

/// Whether `slice` stands in `vec` from index `start` on.
pub(crate) fn starts_with_at<T>(vec: &Vec<T>, slice: &[T], start: usize) -> (found: bool) where
    T: Copy + PartialEq,

    requires
        eq_decides_equality::<T>(),
        start <= vec.len(),
    ensures
        found == occurs_at(vec@, slice@, start as int),
{
    if slice.len() > vec.len() - start {
        return false;
    }
    let mut matched: usize = 0;
    while matched < slice.len()
        invariant
            eq_decides_equality::<T>(),
            start + slice.len() <= vec.len(),
            matched <= slice.len(),
            forall|k: int| 0 <= k < matched ==> vec@[start + k] == slice@[k],
        decreases slice.len() - matched,
    {
        if !(vec[start + matched] == slice[matched]) {
            return false;
        }
        matched = matched + 1;
    }
    assert(vec@.subrange(start as int, start + slice@.len()) =~= slice@);
    true
}

/// Nothing is found in an empty haystack, nor is an empty needle: no
/// occurrence, no index behind one, and nothing between two tokens of which
/// one is empty.
pub proof fn lemma_nothing_found_where_empty<T>(haystack: Seq<T>, needle: Seq<T>, other: Seq<T>)
    requires
        haystack.len() == 0 || needle.len() == 0,
    ensures
        !(needle.len() > 0 && exists|start: int| occurs_at(haystack, needle, start)),
        first_match(haystack, needle) is None,
        index_after_first_match(haystack, needle) is None,
        items_between(haystack, needle, other) is None,
        items_between(haystack, other, needle) is None,
{
    lemma_first_match_none(haystack, needle, 0);
    match index_after_first_match(haystack, other) {
        Some(from) => {
            lemma_first_match_found(haystack, other);
            lemma_first_match_none(haystack.skip(from), needle, 0);
        },
        None => {},
    }
}

/// Where the first occurrence of `needle` begins at `start`, the index behind
/// it is `start` and the needle's length.
pub proof fn lemma_index_after_first_match<T>(haystack: Seq<T>, needle: Seq<T>, start: int)
    requires
        is_first_match(haystack, needle, start),
    ensures
        first_match(haystack, needle) == Some(start),
        index_after_first_match(haystack, needle) == Some(start + needle.len()),
{
    lemma_first_match_is(haystack, needle, start);
}

/// Where the first `open` begins at `start`, and `close` occurs at `end`, at
/// or behind the end of that `open` and nowhere between the two, the items
/// between the tokens are those from the end of `open` up to `end`.
pub proof fn lemma_items_between<T>(
    haystack: Seq<T>,
    open: Seq<T>,
    close: Seq<T>,
    start: int,
    end: int,
)
    requires
        is_first_match(haystack, open, start),
        close.len() > 0,
        start + open.len() <= end,
        occurs_at(haystack, close, end),
        forall|at: int| start + open.len() <= at < end ==> !occurs_at(haystack, close, at),
    ensures
        items_between(haystack, open, close) == Some(haystack.subrange(start + open.len(), end)),
{
    let from = start + open.len();
    lemma_first_match_is(haystack, open, start);
    lemma_occurs_at_skip(haystack, close, from, end - from);
    assert forall|gap: int| 0 <= gap < end - from implies !occurs_at(
        haystack.skip(from),
        close,
        gap,
    ) by {
        lemma_occurs_at_skip(haystack, close, from, gap);
    }
    lemma_first_match_is(haystack.skip(from), close, end - from);
}

/// A first occurrence is the only one: `first_match` names it.
pub proof fn lemma_first_match_is<T>(haystack: Seq<T>, needle: Seq<T>, start: int)
    requires
        is_first_match(haystack, needle, start),
    ensures
        first_match(haystack, needle) == Some(start),
{
}

/// What `first_match` names is a first occurrence.
pub proof fn lemma_first_match_found<T>(haystack: Seq<T>, needle: Seq<T>)
    requires
        first_match(haystack, needle) is Some,
    ensures
        is_first_match(haystack, needle, first_match(haystack, needle)->0),
{
}

/// Where `needle` occurs nowhere below `bound`, and cannot begin at `bound`
/// or behind it, `first_match` finds nothing.
pub proof fn lemma_first_match_none<T>(haystack: Seq<T>, needle: Seq<T>, bound: int)
    requires
        forall|start: int| 0 <= start < bound ==> !occurs_at(haystack, needle, start),
        needle.len() == 0 || bound + needle.len() > haystack.len(),
    ensures
        first_match(haystack, needle) is None,
{
}

/// Where `needle` occurs at all, it has a first occurrence.
pub proof fn lemma_occurrence_has_first<T>(haystack: Seq<T>, needle: Seq<T>, start: int)
    requires
        needle.len() > 0,
        occurs_at(haystack, needle, start),
    ensures
        first_match(haystack, needle) matches Some(first) && first <= start,
    decreases start,
{
    if exists|earlier: int| 0 <= earlier < start && occurs_at(haystack, needle, earlier) {
        let earlier = choose|earlier: int|
            0 <= earlier < start && occurs_at(haystack, needle, earlier);
        lemma_occurrence_has_first(haystack, needle, earlier);
    } else {
        lemma_first_match_is(haystack, needle, start);
    }
}

/// An occurrence in what is left behind the first `from` items is an
/// occurrence in the whole, `from` places further on.
pub proof fn lemma_occurs_at_skip<T>(haystack: Seq<T>, needle: Seq<T>, from: int, start: int)
    requires
        0 <= from <= haystack.len(),
        0 <= start,
    ensures
        occurs_at(haystack.skip(from), needle, start) == occurs_at(haystack, needle, from + start),
{
    if start + needle.len() <= haystack.len() - from {
        assert(haystack.skip(from).subrange(start, start + needle.len()) =~= haystack.subrange(
            from + start,
            from + start + needle.len(),
        ));
    }
}

/// An occurrence that ends within the first `kept` items is an occurrence in
/// those items alone.
pub proof fn lemma_occurs_at_take<T>(haystack: Seq<T>, needle: Seq<T>, kept: int, start: int)
    requires
        0 <= kept <= haystack.len(),
        0 <= start,
        start + needle.len() <= kept,
    ensures
        occurs_at(haystack.take(kept), needle, start) == occurs_at(haystack, needle, start),
{
    assert(haystack.take(kept).subrange(start, start + needle.len()) =~= haystack.subrange(
        start,
        start + needle.len(),
    ));
}

} // verus!
