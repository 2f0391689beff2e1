//! The scan that parts the files which pass a filter from those which do
//! not, and follows the selection through it.

use vstd::prelude::*;
use crate::data::file::{File, FileView};
use crate::data::file_list::FileSort;
use crate::data::filter::{Filter, FilterView};
use crate::data::order::{file_le, file_views, is_sorted};

verus! {

/// The test that a file passes `filter`.
pub open spec fn passes(filter: FilterView) -> spec_fn(FileView) -> bool {
    |file: FileView| filter.matches(file)
}

/// The test that a file does not pass `filter`.
pub open spec fn fails(filter: FilterView) -> spec_fn(FileView) -> bool {
    |file: FileView| !filter.matches(file)
}

/// The files of `pool` that pass `filter`, in their order.
pub open spec fn kept(pool: Seq<FileView>, filter: FilterView) -> Seq<FileView> {
    pool.filter(passes(filter))
}

/// The files of `pool` that do not pass `filter`, in their order.
pub open spec fn rejected(pool: Seq<FileView>, filter: FilterView) -> Seq<FileView> {
    pool.filter(fails(filter))
}

/// Where the selection stands after the scan. If the selected file passes
/// the filter, the selection stays on it. If not, it moves to the nearest
/// file before it that passes, or to the first place if there is none.
pub open spec fn index_after_scan(pool: Seq<FileView>, index: int, filter: FilterView) -> int {
    let before = kept(pool.take(index), filter).len() as int;
    if 0 <= index < pool.len() && filter.matches(pool[index]) {
        before
    } else if before > 0 {
        before - 1
    } else {
        0
    }
}

/// Parts `pool` by `filter`: returns the files that pass, in their order,
/// and where the selection stands among them, and appends the others to
/// `held`.
pub fn scan(pool: Vec<File>, index: usize, filter: &Filter, held: &mut Vec<File>) -> (r: (
    Vec<File>,
    usize,
))
    requires
        index <= pool@.len(),
    ensures
        file_views(r.0@) == kept(file_views(pool@), filter@),
        file_views(final(held)@) == file_views(old(held)@) + rejected(
            file_views(pool@),
            filter@,
        ),
        r.1 == index_after_scan(file_views(pool@), index as int, filter@),
{
    let ghost all = file_views(pool@);
    let n = pool.len();
    let mut visible: Vec<File> = Vec::new();
    let mut before: usize = 0;
    let mut selected_passes = false;
    let mut i: usize = 0;
    proof {
        reveal(Seq::filter);
    }
    for file in it: pool
        invariant
            i == it.index(),
            it.seq() == pool@,
            all == file_views(pool@),
            n == pool@.len(),
            index <= n,
            file_views(visible@) == kept(all.take(i as int), filter@),
            file_views(held@) == file_views(old(held)@) + rejected(all.take(i as int), filter@),
            i > index ==> before == kept(all.take(index as int), filter@).len(),
            i > index ==> selected_passes == filter@.matches(all[index as int]),
            visible@.len() <= i,
    {
        let ghost seen = all.take(i as int);
        let pass = filter.matches(&file);
        proof {
            assert(all.take(i + 1) =~= seen.push(file@));
            seen.lemma_filter_push(file@, passes(filter@));
            seen.lemma_filter_push(file@, fails(filter@));
        }
        if i == index {
            before = visible.len();
            selected_passes = pass;
        }
        if pass {
            visible.push(file);
        } else {
            let ghost held_before = file_views(held@);
            held.push(file);
            assert(file_views(held@) =~= held_before.push(file@));
        }
        i = i + 1;
    }
    proof {
        assert(all.take(n as int) =~= all);
    }
    if index >= n {
        before = visible.len();
    }
    let new_index = if index < n && selected_passes {
        before
    } else if before > 0 {
        before - 1
    } else {
        0
    };
    (visible, new_index)
}

/// The number of files that pass a filter among the first `i` is at most the
/// number among all, and smaller if the file at `i` passes.
pub proof fn lemma_kept_prefix(pool: Seq<FileView>, filter: FilterView, i: int)
    requires
        0 <= i <= pool.len(),
    ensures
        kept(pool.take(i), filter).len() <= kept(pool, filter).len(),
        i < pool.len() && filter.matches(pool[i]) ==> kept(pool.take(i), filter).len() < kept(
            pool,
            filter,
        ).len() && kept(pool, filter)[kept(pool.take(i), filter).len() as int] == pool[i],
{
    assert(pool =~= pool.take(i) + pool.skip(i));
    Seq::filter_distributes_over_add(pool.take(i), pool.skip(i), passes(filter));
    if i < pool.len() && filter.matches(pool[i]) {
        let head = pool.take(i);
        let upto = pool.take(i + 1);
        assert(upto =~= head.push(pool[i]));
        head.lemma_filter_push(pool[i], passes(filter));
        assert(pool =~= upto + pool.skip(i + 1));
        Seq::filter_distributes_over_add(upto, pool.skip(i + 1), passes(filter));
    }
}

/// The files of a sorted sequence that pass a filter are sorted.
pub proof fn lemma_kept_sorted(pool: Seq<FileView>, filter: FilterView, method: FileSort)
    requires
        is_sorted(pool, method),
    ensures
        is_sorted(kept(pool, filter), method),
    decreases pool.len(),
{
    if pool.len() > 0 {
        let rest = pool.drop_last();
        let last = pool.last();
        assert(pool =~= rest.push(last));
        rest.lemma_filter_push(last, passes(filter));
        assert forall|i: int, j: int| 0 <= i < j < rest.len() implies file_le(
            method,
            #[trigger] rest[i],
            #[trigger] rest[j],
        ) by {
        }
        lemma_kept_sorted(rest, filter, method);
        let head = kept(rest, filter);
        let all = kept(pool, filter);
        assert forall|i: int, j: int| 0 <= i < j < all.len() implies file_le(
            method,
            #[trigger] all[i],
            #[trigger] all[j],
        ) by {
            if j >= head.len() {
                rest.lemma_filter_contains_rev(passes(filter), head[i]);
            }
        }
    } else {
        assert(kept(pool, filter).len() <= pool.len()) by {
            pool.lemma_filter_len(passes(filter));
        }
    }
}

} // verus!
