//! What holds of the catalog whatever is done with it: filters compose, no
//! file is lost, and the selection follows the selected file.

use vstd::prelude::*;
use vstd::seq_lib::{lemma_multiset_commutative, to_multiset_len};
use crate::data::file::FileView;
use crate::data::persist::RatingWriteView;
use crate::support::sequence::{ends_with, without};
use crate::systems::events::{AppEventView, FilterChange, Nav};
use vstd::arithmetic::div_mod::{lemma_mod_pos_bound, lemma_mod_self_0, lemma_small_mod};
use crate::data::catalog::FileListView;
use crate::data::file_list::FileSort;
use crate::data::filter::{
    lemma_all_matches, lemma_subset_matches, lemma_subset_reflexive, lemma_subset_transitive,
    FilterView,
};
use crate::data::order::{
    file_le, is_sorted, lemma_sort_files_is_sorted, lemma_sort_files_permutes,
};
use crate::data::scan::{fails, kept, lemma_kept_prefix, lemma_kept_sorted, passes, rejected};

verus! {

/// Where any file is visible, `next` then `prev` leads back to the
/// selection, and so does `prev` then `next`.
pub proof fn lemma_next_prev_round_trip(list: FileListView)
    requires
        list.wf(),
        list.files.len() > 0,
    ensures
        list.next().prev().current_index == list.current_index,
        list.prev().next().current_index == list.current_index,
        list.next().prev() == list,
        list.prev().next() == list,
{
    let n = list.files.len() as int;
    let i = list.current_index;
    lemma_mod_self_0(n);
    if i + 1 < n {
        lemma_small_mod((i + 1) as nat, n as nat);
    }
    lemma_small_mod(i as nat, n as nat);
    lemma_small_mod((n - 1) as nat, n as nat);
    if i > 0 {
        lemma_small_mod((i - 1) as nat, n as nat);
    }
    lemma_small_mod(0, n as nat);
}

/// The scan for a filter leaves the selection and the files held back in
/// order, and the visible files sorted if the filter narrows the current one.
pub proof fn lemma_scanned(list: FileListView, filter: FilterView)
    requires
        list.wf(),
    ensures
        list.scanned(filter).settled(),
        filter.is_subset_of(list.filter) ==> list.scanned(filter).wf(),
{
    broadcast use vstd::seq_lib::group_filter_ensures;

    let pool = list.pool(filter);
    let after = list.scanned(filter);
    lemma_kept_prefix(pool, filter, list.current_index);
    assert forall|i: int| 0 <= i < after.filtered_files.len() implies !filter.matches(
        #[trigger] after.filtered_files[i],
    ) by {
        let file = after.filtered_files[i];
        if filter.is_subset_of(list.filter) && i < list.filtered_files.len() {
            if filter.matches(file) {
                lemma_subset_matches(filter, list.filter, file);
            }
        } else {
            let held = if filter.is_subset_of(list.filter) {
                list.filtered_files
            } else {
                Seq::empty()
            };
            let k = i - held.len();
            pool.lemma_filter_pred(fails(filter), k);
        }
    }
    if filter.is_subset_of(list.filter) && list.current_sort != FileSort::Random {
        lemma_kept_sorted(list.files, filter, list.current_sort);
    }
}

/// The files that pass a test are, counted, those of the whole that pass it.
pub proof fn lemma_filter_to_multiset(s: Seq<FileView>, test: spec_fn(FileView) -> bool)
    ensures
        s.filter(test).to_multiset() == s.to_multiset().filter(test),
    decreases s.len(),
{
    broadcast use vstd::multiset::group_multiset_axioms;
    broadcast use vstd::multiset::group_multiset_properties;
    broadcast use vstd::seq_lib::group_to_multiset_ensures;

    if s.len() == 0 {
        assert(s.filter(test).len() <= s.len()) by {
            s.lemma_filter_len(test);
        }
    } else {
        let rest = s.drop_last();
        let last = s.last();
        assert(s =~= rest.push(last));
        rest.lemma_filter_push(last, test);
        lemma_filter_to_multiset(rest, test);
    }
}

/// Two sequences that hold the same files hold the same files that pass a
/// filter.
pub proof fn lemma_kept_of_same_files(a: Seq<FileView>, b: Seq<FileView>, filter: FilterView)
    requires
        a.to_multiset() == b.to_multiset(),
    ensures
        kept(a, filter).to_multiset() == kept(b, filter).to_multiset(),
{
    lemma_filter_to_multiset(a, passes(filter));
    lemma_filter_to_multiset(b, passes(filter));
}

/// Filtering by a filter and then by a subset of it is filtering by the
/// subset.
pub proof fn lemma_kept_twice(pool: Seq<FileView>, narrow: FilterView, wide: FilterView)
    requires
        narrow.is_subset_of(wide),
    ensures
        kept(kept(pool, wide), narrow) == kept(pool, narrow),
    decreases pool.len(),
{
    if pool.len() == 0 {
        assert(kept(pool, wide).len() <= pool.len()) by {
            pool.lemma_filter_len(passes(wide));
        }
    } else {
        let rest = pool.drop_last();
        let last = pool.last();
        assert(pool =~= rest.push(last));
        rest.lemma_filter_push(last, passes(wide));
        rest.lemma_filter_push(last, passes(narrow));
        lemma_kept_twice(rest, narrow, wide);
        if wide.matches(last) {
            kept(rest, wide).lemma_filter_push(last, passes(narrow));
        } else if narrow.matches(last) {
            lemma_subset_matches(narrow, wide, last);
        }
    }
}

/// Where no file passes a filter, none is kept.
pub proof fn lemma_kept_none(s: Seq<FileView>, filter: FilterView)
    requires
        forall|i: int| 0 <= i < s.len() ==> !filter.matches(#[trigger] s[i]),
    ensures
        kept(s, filter) == Seq::<FileView>::empty(),
    decreases s.len(),
{
    if s.len() == 0 {
        assert(kept(s, filter).len() <= s.len()) by {
            s.lemma_filter_len(passes(filter));
        }
    } else {
        let rest = s.drop_last();
        assert(s =~= rest.push(s.last()));
        rest.lemma_filter_push(s.last(), passes(filter));
        assert forall|i: int| 0 <= i < rest.len() implies !filter.matches(#[trigger] rest[i]) by {
        }
        lemma_kept_none(rest, filter);
    }
}

/// Where every file passes a filter, all are kept.
pub proof fn lemma_kept_all(s: Seq<FileView>, filter: FilterView)
    requires
        forall|i: int| 0 <= i < s.len() ==> filter.matches(#[trigger] s[i]),
    ensures
        kept(s, filter) == s,
        rejected(s, filter) == Seq::<FileView>::empty(),
    decreases s.len(),
{
    if s.len() == 0 {
        assert(kept(s, filter).len() <= s.len()) by {
            s.lemma_filter_len(passes(filter));
        }
        assert(rejected(s, filter).len() <= s.len()) by {
            s.lemma_filter_len(fails(filter));
        }
    } else {
        let rest = s.drop_last();
        assert(s =~= rest.push(s.last()));
        rest.lemma_filter_push(s.last(), passes(filter));
        rest.lemma_filter_push(s.last(), fails(filter));
        assert forall|i: int| 0 <= i < rest.len() implies filter.matches(#[trigger] rest[i]) by {
        }
        lemma_kept_all(rest, filter);
    }
}

/// The files that pass a filter and those that do not are together the
/// files of the pool.
pub proof fn lemma_scan_parts(pool: Seq<FileView>, filter: FilterView)
    ensures
        kept(pool, filter).to_multiset().add(rejected(pool, filter).to_multiset())
            == pool.to_multiset(),
    decreases pool.len(),
{
    broadcast use vstd::multiset::group_multiset_axioms;
    broadcast use vstd::multiset::group_multiset_properties;
    broadcast use vstd::seq_lib::group_to_multiset_ensures;

    if pool.len() == 0 {
        assert(kept(pool, filter).len() <= pool.len()) by {
            pool.lemma_filter_len(passes(filter));
        }
        assert(rejected(pool, filter).len() <= pool.len()) by {
            pool.lemma_filter_len(fails(filter));
        }
    } else {
        let rest = pool.drop_last();
        let last = pool.last();
        assert(pool =~= rest.push(last));
        rest.lemma_filter_push(last, passes(filter));
        rest.lemma_filter_push(last, fails(filter));
        lemma_scan_parts(rest, filter);
    }
}

/// Arranging a catalog anew leaves it well-formed and keeps its files.
pub proof fn lemma_resorted(list: FileListView, after: FileListView)
    requires
        list.settled(),
        list.resorted(after),
    ensures
        after.wf(),
        after.files.to_multiset() == list.files.to_multiset(),
        after.files.len() == list.files.len(),
{
    if list.current_sort != FileSort::Random {
        lemma_sort_files_permutes(list.files, list.current_sort);
        lemma_sort_files_is_sorted(list.files, list.current_sort);
    }
    to_multiset_len(after.files);
    to_multiset_len(list.files);
}

/// Applying a filter leaves the catalog well-formed with that filter, and
/// the visible files are those of the pool that pass it.
pub proof fn lemma_filtered(list: FileListView, filter: FilterView, after: FileListView)
    requires
        list.wf(),
        list.filtered(filter, after),
    ensures
        after.wf(),
        after.filter == filter,
        after.current_sort == list.current_sort,
        after.files.to_multiset() == kept(list.pool(filter), filter).to_multiset(),
        after.filtered_files == list.scanned(filter).filtered_files,
{
    lemma_scanned(list, filter);
    if !filter.is_subset_of(list.filter) {
        lemma_resorted(list.scanned(filter), after);
    }
}

/// A filter change loses no file and makes none up: the visible files and
/// those held back are together the same files as before.
pub proof fn lemma_filter_keeps_files(list: FileListView, filter: FilterView, after: FileListView)
    requires
        list.wf(),
        list.filtered(filter, after),
    ensures
        (after.files + after.filtered_files).to_multiset() == (list.files
            + list.filtered_files).to_multiset(),
{
    broadcast use vstd::multiset::group_multiset_axioms;

    lemma_filtered(list, filter, after);
    let pool = list.pool(filter);
    lemma_scan_parts(pool, filter);
    lemma_multiset_commutative(after.files, after.filtered_files);
    lemma_multiset_commutative(list.files, list.filtered_files);
    if filter.is_subset_of(list.filter) {
        lemma_multiset_commutative(list.filtered_files, rejected(pool, filter));
    } else {
        lemma_multiset_commutative(list.files, list.filtered_files.reverse());
        list.filtered_files.lemma_reverse_to_multiset();
    }
}

/// Applying a filter and then a subset of it shows the same files as
/// applying the subset at once.
pub proof fn lemma_narrowing_in_two_steps(
    list: FileListView,
    wide: FilterView,
    narrow: FilterView,
    between: FileListView,
    twice: FileListView,
    once: FileListView,
)
    requires
        list.wf(),
        narrow.is_subset_of(wide),
        list.filtered(wide, between),
        between.filtered(narrow, twice),
        list.filtered(narrow, once),
    ensures
        twice.files.to_multiset() == once.files.to_multiset(),
{
    lemma_filtered(list, wide, between);
    lemma_filtered(between, narrow, twice);
    lemma_filtered(list, narrow, once);
    // In two steps: the files of the wide pool that pass both filters.
    let wide_pool = list.pool(wide);
    lemma_kept_of_same_files(between.files, kept(wide_pool, wide), narrow);
    lemma_kept_twice(wide_pool, narrow, wide);
    // At once: the narrow pool differs from the wide one at most by files
    // that are held back, and those do not pass the narrow filter.
    if wide.is_subset_of(list.filter) {
        lemma_subset_transitive(narrow, wide, list.filter);
    } else if narrow.is_subset_of(list.filter) {
        let held = list.filtered_files.reverse();
        assert forall|i: int| 0 <= i < held.len() implies !narrow.matches(#[trigger] held[i]) by {
            if narrow.matches(held[i]) {
                lemma_subset_matches(narrow, list.filter, held[i]);
            }
        }
        lemma_kept_none(held, narrow);
        Seq::filter_distributes_over_add(list.files, held, passes(narrow));
    }
}

/// Taking the filter away shows every file of the catalog, in the order of
/// the sort method, and holds none back.
pub proof fn lemma_unfiltered_shows_all(list: FileListView, after: FileListView)
    requires
        list.wf(),
        list.filtered(FilterView::all(), after),
    ensures
        after.wf(),
        after.filter == FilterView::all(),
        after.filtered_files.len() == 0,
        after.files.to_multiset() == (list.files + list.filtered_files).to_multiset(),
        after.current_sort != FileSort::Random ==> is_sorted(after.files, after.current_sort),
{
    let all = FilterView::all();
    lemma_filtered(list, all, after);
    lemma_filter_keeps_files(list, all, after);
    let pool = list.pool(all);
    assert forall|i: int| 0 <= i < pool.len() implies all.matches(#[trigger] pool[i]) by {
        lemma_all_matches(pool[i]);
    }
    lemma_kept_all(pool, all);
    if all.is_subset_of(list.filter) {
        if list.filtered_files.len() > 0 {
            lemma_all_matches(list.filtered_files[0]);
        }
    }
}

/// Taking the filter away a second time changes nothing.
pub proof fn lemma_unfiltered_again(list: FileListView, after: FileListView)
    requires
        list.wf(),
        list.filter == FilterView::all(),
        list.filtered(FilterView::all(), after),
    ensures
        after == list,
{
    let all = FilterView::all();
    lemma_subset_reflexive(all);
    assert forall|i: int| 0 <= i < list.files.len() implies all.matches(#[trigger] list.files[i]) by {
        lemma_all_matches(list.files[i]);
    }
    lemma_kept_all(list.files, all);
    lemma_kept_all(list.files.take(list.current_index), all);
    if list.filtered_files.len() > 0 {
        lemma_all_matches(list.filtered_files[0]);
    }
    if 0 <= list.current_index < list.files.len() {
        lemma_all_matches(list.files[list.current_index]);
    }
}

/// Taking the filter away is idempotent: doing it twice leaves the catalog
/// as doing it once does.
pub proof fn lemma_unfiltered_twice(list: FileListView, once: FileListView, twice: FileListView)
    requires
        list.wf(),
        list.filtered(FilterView::all(), once),
        once.filtered(FilterView::all(), twice),
    ensures
        twice == once,
{
    lemma_unfiltered_shows_all(list, once);
    lemma_unfiltered_again(once, twice);
}

/// Sorting by the method that is already in use changes nothing.
pub proof fn lemma_same_sort_changes_nothing(list: FileListView, after: FileListView)
    requires
        list.sorted_by(list.current_sort, after),
    ensures
        after == list,
{
}

/// A file with the path of a file of `before` is found in a sequence that
/// holds the same files.
proof fn lemma_path_stays(before: Seq<FileView>, after: Seq<FileView>, i: int)
    requires
        0 <= i < before.len(),
        before.to_multiset() == after.to_multiset(),
    ensures
        exists|j: int| 0 <= j < after.len() && (#[trigger] after[j]).path == before[i].path,
{
    broadcast use vstd::seq_lib::group_to_multiset_ensures;

    assert(after.to_multiset().count(before[i]) > 0);
    let j = choose|j: int| 0 <= j < after.len() && after[j] == before[i];
}

/// After a sort the selection is on a file with the path of the file that
/// was selected before.
pub proof fn lemma_sort_keeps_selection(list: FileListView, method: FileSort, after: FileListView)
    requires
        list.wf(),
        list.sorted_by(method, after),
        list.current() is Some,
    ensures
        after.current() is Some,
        after.current()->Some_0.path == list.current()->Some_0.path,
{
    if method != list.current_sort {
        let start = FileListView { current_sort: method, ..list };
        lemma_resorted(start, after);
        lemma_path_stays(list.files, after.files, list.current_index);
    }
}

/// After a filter change the selection is on a file with the path of the
/// file that was selected before, if that file passes the filter. Where the
/// filter narrows the current one, it is on that very file.
pub proof fn lemma_filter_keeps_selection(
    list: FileListView,
    filter: FilterView,
    after: FileListView,
)
    requires
        list.wf(),
        list.filtered(filter, after),
        list.current() is Some,
        filter.matches(list.current()->Some_0),
    ensures
        after.current() is Some,
        after.current()->Some_0.path == list.current()->Some_0.path,
        filter.is_subset_of(list.filter) ==> after.current() == list.current(),
{
    let pool = list.pool(filter);
    let scanned = list.scanned(filter);
    lemma_kept_prefix(pool, filter, list.current_index);
    lemma_scanned(list, filter);
    if !filter.is_subset_of(list.filter) {
        lemma_resorted(scanned, after);
        lemma_path_stays(scanned.files, after.files, scanned.current_index);
    }
}

/// Whatever an event asks for, it leaves a well-formed catalog well-formed.
pub proof fn lemma_applied_keeps_wf(
    list: FileListView,
    event: AppEventView,
    now: u64,
    after: FileListView,
)
    requires
        list.wf(),
        list.applied(event, now, after),
    ensures
        after.wf(),
{
    match event {
        AppEventView::Nav(_) => {
            if list.files.len() > 0 {
                let n = list.files.len() as int;
                assert(0 <= after.current_index < n) by {
                    lemma_mod_pos_bound(list.current_index + 1, n);
                    if list.current_index > 0 {
                        lemma_mod_pos_bound(list.current_index - 1, n);
                    }
                    lemma_mod_pos_bound(n - 1, n);
                    if let AppEventView::Nav(Nav::ImageIndex(index)) = event {
                        lemma_mod_pos_bound(index as int, n);
                    }
                }
            }
        },
        AppEventView::Sort(method) => {
            if method != list.current_sort {
                lemma_resorted(FileListView { current_sort: method, ..list }, after);
            }
        },
        AppEventView::Filter(FilterChange::Text(text)) => {
            lemma_filtered(list, list.filter.with_name(text), after);
        },
        AppEventView::Filter(FilterChange::Rating(rating)) => {
            lemma_filtered(list, list.filter.with_rating(rating), after);
        },
        AppEventView::SetRating(rating) => {
            if list.current() is Some && list.current_sort != FileSort::Random {
                assert forall|i: int, j: int| 0 <= i < j < after.files.len() implies file_le(
                    after.current_sort,
                    #[trigger] after.files[i],
                    #[trigger] after.files[j],
                ) by {
                }
            }
        },
        _ => {},
    }
}

/// After any run of events a well-formed catalog is well-formed.
pub proof fn lemma_ran_keeps_wf(
    list: FileListView,
    events: Seq<AppEventView>,
    now: u64,
    after: FileListView,
    loads: Seq<FileView>,
    writes: Seq<RatingWriteView>,
)
    requires
        list.wf(),
        list.ran(events, now, after, loads, writes),
    ensures
        after.wf(),
    decreases events.len(),
{
    if events.len() > 0 {
        let (mid, load, write) = choose|
            mid: FileListView,
            load: Option<FileView>,
            write: Option<RatingWriteView>,
        |
            #![trigger mid.reacted(events.last(), now, after, load, write)]
            ends_with(loads, load) && ends_with(writes, write) && list.ran(
                events.drop_last(),
                now,
                mid,
                without(loads, load),
                without(writes, write),
            ) && mid.reacted(events.last(), now, after, load, write);
        lemma_ran_keeps_wf(
            list,
            events.drop_last(),
            now,
            mid,
            without(loads, load),
            without(writes, write),
        );
        let changed = FileListView { last_load: mid.last_load, ..after };
        lemma_applied_keeps_wf(mid, events.last(), now, changed);
    }
}

} // verus!
