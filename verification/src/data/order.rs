//! The orders by which the catalog sorts its files, and the stable sort
//! itself.

use vstd::prelude::*;
use vstd::utf8::encode_utf8;
use crate::data::file::{File, FileView};
use crate::data::file_list::FileSort;

verus! {

/// What the catalog's rules read of each file of a sequence.
pub open spec fn file_views(files: Seq<File>) -> Seq<FileView> {
    files.map_values(|f: File| f@)
}

/// `a` comes before `b`, or equals it, in the lexicographic order of bytes.
pub open spec fn bytes_le(a: Seq<u8>, b: Seq<u8>) -> bool
    decreases a.len(),
{
    if a.len() == 0 {
        true
    } else if b.len() == 0 {
        false
    } else if a[0] != b[0] {
        a[0] < b[0]
    } else {
        bytes_le(a.drop_first(), b.drop_first())
    }
}

/// The order of file names: a missing name comes first, and two names
/// compare by the bytes of their UTF-8 encoding, case-sensitive.
pub open spec fn name_le(a: Option<Seq<char>>, b: Option<Seq<char>>) -> bool {
    match (a, b) {
        (None, _) => true,
        (Some(_), None) => false,
        (Some(x), Some(y)) => bytes_le(encode_utf8(x), encode_utf8(y)),
    }
}

/// The order that a sort method puts on files: by name, or by modification
/// time with the oldest first. The random method orders nothing.
pub open spec fn file_le(method: FileSort, a: FileView, b: FileView) -> bool {
    match method {
        FileSort::Name => name_le(a.file_name, b.file_name),
        FileSort::LastModified => a.modified <= b.modified,
        FileSort::Random => true,
    }
}

/// `s` with `x` put behind the last file that `x` does not come before.
pub open spec fn insert_sorted(s: Seq<FileView>, x: FileView, method: FileSort) -> Seq<FileView>
    decreases s.len(),
{
    if s.len() == 0 {
        seq![x]
    } else if file_le(method, s.last(), x) {
        s.push(x)
    } else {
        insert_sorted(s.drop_last(), x, method).push(s.last())
    }
}

/// The files of `s` in the order of `method`, where files that the order
/// does not tell apart keep the order they have in `s`.
pub open spec fn sort_files(s: Seq<FileView>, method: FileSort) -> Seq<FileView>
    decreases s.len(),
{
    if s.len() == 0 {
        s
    } else {
        insert_sorted(sort_files(s.drop_last(), method), s.last(), method)
    }
}

/// No file of `s` stands before one that the order puts strictly before it.
pub open spec fn is_sorted(s: Seq<FileView>, method: FileSort) -> bool {
    forall|i: int, j: int| 0 <= i < j < s.len() ==> file_le(method, #[trigger] s[i], #[trigger] s[j])
}

/// Of two byte sequences, one comes before the other or equals it.
pub proof fn lemma_bytes_le_total(a: Seq<u8>, b: Seq<u8>)
    ensures
        bytes_le(a, b) || bytes_le(b, a),
    decreases a.len(),
{
    if a.len() > 0 && b.len() > 0 && a[0] == b[0] {
        lemma_bytes_le_total(a.drop_first(), b.drop_first());
    }
}

/// The lexicographic order of bytes is transitive.
pub proof fn lemma_bytes_le_transitive(a: Seq<u8>, b: Seq<u8>, c: Seq<u8>)
    requires
        bytes_le(a, b),
        bytes_le(b, c),
    ensures
        bytes_le(a, c),
    decreases a.len(),
{
    if a.len() > 0 && b.len() > 0 && c.len() > 0 && a[0] == b[0] && b[0] == c[0] {
        lemma_bytes_le_transitive(a.drop_first(), b.drop_first(), c.drop_first());
    }
}

/// Of two files, one comes before the other or equals it.
pub proof fn lemma_file_le_total(method: FileSort, a: FileView, b: FileView)
    ensures
        file_le(method, a, b) || file_le(method, b, a),
{
    match (a.file_name, b.file_name) {
        (Some(x), Some(y)) => {
            lemma_bytes_le_total(encode_utf8(x), encode_utf8(y));
        },
        _ => {},
    }
}

/// The order of a sort method is transitive.
pub proof fn lemma_file_le_transitive(method: FileSort, a: FileView, b: FileView, c: FileView)
    requires
        file_le(method, a, b),
        file_le(method, b, c),
    ensures
        file_le(method, a, c),
{
    if method == FileSort::Name {
        match (a.file_name, b.file_name, c.file_name) {
            (Some(x), Some(y), Some(z)) => {
                lemma_bytes_le_transitive(encode_utf8(x), encode_utf8(y), encode_utf8(z));
            },
            _ => {},
        }
    }
}

/// Where `insert_sorted` puts a file: behind the last file that it does not
/// come before.
pub proof fn lemma_insert_position(s: Seq<FileView>, x: FileView, method: FileSort, p: int)
    requires
        0 <= p <= s.len(),
        p == 0 || file_le(method, s[p - 1], x),
        forall|j: int| p <= j < s.len() ==> !file_le(method, #[trigger] s[j], x),
    ensures
        insert_sorted(s, x, method) == s.insert(p, x),
    decreases s.len(),
{
    if p < s.len() {
        let t = s.drop_last();
        assert forall|j: int| p <= j < t.len() implies !file_le(method, #[trigger] t[j], x) by {
        }
        lemma_insert_position(t, x, method, p);
    }
}

/// Inserting a file keeps the others and adds this one.
pub proof fn lemma_insert_sorted_multiset(s: Seq<FileView>, x: FileView, method: FileSort)
    ensures
        insert_sorted(s, x, method).to_multiset() == s.to_multiset().insert(x),
        insert_sorted(s, x, method).len() == s.len() + 1,
    decreases s.len(),
{
    broadcast use vstd::seq_lib::group_to_multiset_ensures;

    if s.len() > 0 && !file_le(method, s.last(), x) {
        let t = s.drop_last();
        lemma_insert_sorted_multiset(t, x, method);
        assert(t.push(s.last()) =~= s);
    }
}

/// Sorting keeps every file, as often as it occurs.
pub proof fn lemma_sort_files_permutes(s: Seq<FileView>, method: FileSort)
    ensures
        sort_files(s, method).to_multiset() == s.to_multiset(),
        sort_files(s, method).len() == s.len(),
    decreases s.len(),
{
    broadcast use vstd::seq_lib::group_to_multiset_ensures;

    if s.len() > 0 {
        let t = s.drop_last();
        lemma_sort_files_permutes(t, method);
        lemma_insert_sorted_multiset(sort_files(t, method), s.last(), method);
        assert(t.push(s.last()) =~= s);
    }
}

/// Inserting into a sorted sequence leaves it sorted.
pub proof fn lemma_insert_sorted_is_sorted(s: Seq<FileView>, x: FileView, method: FileSort)
    requires
        is_sorted(s, method),
    ensures
        is_sorted(insert_sorted(s, x, method), method),
        forall|y: FileView|
            (forall|i: int| 0 <= i < s.len() ==> file_le(method, #[trigger] s[i], y)) && file_le(
                method,
                x,
                y,
            ) ==> (forall|i: int|
                0 <= i < insert_sorted(s, x, method).len() ==> file_le(
                    method,
                    #[trigger] insert_sorted(s, x, method)[i],
                    y,
                )),
    decreases s.len(),
{
    let r = insert_sorted(s, x, method);
    if s.len() == 0 {
    } else if file_le(method, s.last(), x) {
        assert forall|i: int, j: int| 0 <= i < j < r.len() implies file_le(
            method,
            #[trigger] r[i],
            #[trigger] r[j],
        ) by {
            if j == s.len() {
                if i < s.len() - 1 {
                    lemma_file_le_transitive(method, s[i], s.last(), x);
                }
            }
        }
    } else {
        let t = s.drop_last();
        let last = s.last();
        assert forall|i: int, j: int| 0 <= i < j < t.len() implies file_le(
            method,
            #[trigger] t[i],
            #[trigger] t[j],
        ) by {
        }
        lemma_insert_sorted_is_sorted(t, x, method);
        lemma_insert_sorted_multiset(t, x, method);
        lemma_file_le_total(method, last, x);
        assert forall|i: int| 0 <= i < t.len() implies file_le(method, #[trigger] t[i], last) by {
        }
        assert forall|i: int, j: int| 0 <= i < j < r.len() implies file_le(
            method,
            #[trigger] r[i],
            #[trigger] r[j],
        ) by {
        }
        assert forall|y: FileView|
            (forall|i: int| 0 <= i < s.len() ==> file_le(method, #[trigger] s[i], y)) && file_le(
                method,
                x,
                y,
            ) implies (forall|i: int| 0 <= i < r.len() ==> file_le(method, #[trigger] r[i], y)) by {
            assert forall|i: int| 0 <= i < t.len() implies file_le(method, #[trigger] t[i], y) by {
            }
            assert forall|i: int| 0 <= i < r.len() implies file_le(method, #[trigger] r[i], y) by {
            }
        }
    }
}

/// The result of sorting is in order.
pub proof fn lemma_sort_files_is_sorted(s: Seq<FileView>, method: FileSort)
    ensures
        is_sorted(sort_files(s, method), method),
    decreases s.len(),
{
    if s.len() > 0 {
        lemma_sort_files_is_sorted(s.drop_last(), method);
        lemma_insert_sorted_is_sorted(sort_files(s.drop_last(), method), s.last(), method);
    }
}

/// The order does not tell the two files apart.
pub open spec fn same_rank(method: FileSort, a: FileView, b: FileView) -> bool {
    file_le(method, a, b) && file_le(method, b, a)
}

/// The test that the order does not tell a file apart from `x`.
pub open spec fn ranked_like(method: FileSort, x: FileView) -> spec_fn(FileView) -> bool {
    |file: FileView| same_rank(method, file, x)
}

/// A file that is inserted comes behind the files that the order does not
/// tell apart from it, and leaves the others as they stand.
pub proof fn lemma_insert_sorted_is_stable(
    s: Seq<FileView>,
    y: FileView,
    method: FileSort,
    x: FileView,
)
    ensures
        insert_sorted(s, y, method).filter(ranked_like(method, x)) == (if same_rank(
            method,
            y,
            x,
        ) {
            s.filter(ranked_like(method, x)).push(y)
        } else {
            s.filter(ranked_like(method, x))
        }),
    decreases s.len(),
{
    let like = ranked_like(method, x);
    if s.len() == 0 {
        assert(seq![y] =~= s.push(y));
        s.lemma_filter_push(y, like);
    } else if file_le(method, s.last(), y) {
        s.lemma_filter_push(y, like);
    } else {
        let rest = s.drop_last();
        let last = s.last();
        lemma_insert_sorted_is_stable(rest, y, method, x);
        assert(s =~= rest.push(last));
        rest.lemma_filter_push(last, like);
        insert_sorted(rest, y, method).lemma_filter_push(last, like);
        if same_rank(method, y, x) && same_rank(method, last, x) {
            lemma_file_le_transitive(method, last, x, y);
        }
    }
}

/// Sorting is stable: the files that the order does not tell apart from a
/// given one stand in the result as they stand in the input.
pub proof fn lemma_sort_files_is_stable(s: Seq<FileView>, method: FileSort, x: FileView)
    ensures
        sort_files(s, method).filter(ranked_like(method, x)) == s.filter(
            ranked_like(method, x),
        ),
    decreases s.len(),
{
    if s.len() > 0 {
        let rest = s.drop_last();
        lemma_sort_files_is_stable(rest, method, x);
        lemma_insert_sorted_is_stable(sort_files(rest, method), s.last(), method, x);
        assert(s =~= rest.push(s.last()));
        rest.lemma_filter_push(s.last(), ranked_like(method, x));
    }
}

/// Decides `bytes_le`.
fn bytes_le_exec(a: &[u8], b: &[u8]) -> (r: bool)
    ensures
        r == bytes_le(a@, b@),
{
    let mut i: usize = 0;
    assert(a@.skip(0) =~= a@ && b@.skip(0) =~= b@);
    while i < a.len() && i < b.len()
        invariant
            i <= a@.len(),
            i <= b@.len(),
            bytes_le(a@, b@) == bytes_le(a@.skip(i as int), b@.skip(i as int)),
        decreases a@.len() - i,
    {
        let x = a[i];
        let y = b[i];
        proof {
            assert(a@.skip(i as int).drop_first() =~= a@.skip(i + 1));
            assert(b@.skip(i as int).drop_first() =~= b@.skip(i + 1));
        }
        if x != y {
            return x < y;
        }
        i = i + 1;
    }
    i >= a.len()
}

/// Decides `file_le` for the two methods that order files.
pub fn file_le_exec(method: FileSort, a: &File, b: &File) -> (r: bool)
    ensures
        r == file_le(method, a@, b@),
{
    match method {
        FileSort::Name => match (&a.file_name, &b.file_name) {
            (None, _) => true,
            (Some(_), None) => false,
            (Some(x), Some(y)) => bytes_le_exec(x.as_str().as_bytes(), y.as_str().as_bytes()),
        },
        FileSort::LastModified => a.modified <= b.modified,
        FileSort::Random => true,
    }
}

/// Sorts the files by `method`; files that the order does not tell apart
/// keep their order.
pub fn sort_in_place(files: &mut Vec<File>, method: FileSort)
    ensures
        file_views(final(files)@) == sort_files(file_views(old(files)@), method),
{
    let n = files.len();
    let mut i: usize = 0;
    while i < n
        invariant
            i <= n,
            n == files@.len(),
            n == old(files)@.len(),
            file_views(files@).take(i as int) == sort_files(
                file_views(old(files)@).take(i as int),
                method,
            ),
            file_views(files@).skip(i as int) == file_views(old(files)@).skip(i as int),
        decreases n - i,
    {
        let ghost before = files@;
        let ghost done = file_views(before).take(i as int);
        let x = files.remove(i);
        let ghost rest = files@;
        proof {
            assert(x@ == file_views(before).skip(i as int)[0]);
            assert(file_views(rest).take(i as int) =~= done);
        }
        let mut p: usize = i;
        while p > 0 && !file_le_exec(method, &files[p - 1], &x)
            invariant
                p <= i,
                i < n,
                files@ == rest,
                rest.len() == n - 1,
                forall|j: int| p <= j < i ==> !file_le(method, #[trigger] file_views(rest)[j], x@),
            decreases p,
        {
            p = p - 1;
        }
        files.insert(p, x);
        proof {
            lemma_insert_position(done, x@, method, p as int);
            let upto = file_views(old(files)@).take(i + 1);
            assert(upto.drop_last() =~= file_views(old(files)@).take(i as int));
            assert(file_views(files@).skip(i + 1) =~= file_views(before).skip(i + 1));
            assert(file_views(before).skip(i + 1) =~= file_views(before).skip(i as int).skip(1));
        }
        i = i + 1;
    }
    proof {
        assert(file_views(old(files)@).take(n as int) =~= file_views(old(files)@));
    }
}

} // verus!
