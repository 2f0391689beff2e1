//! The catalog as the contracts speak of it: its state, and what each
//! operation makes of it.

use vstd::prelude::*;
use crate::data::file::FileView;
use crate::data::file_list::FileSort;
use crate::data::filter::FilterView;
use crate::data::formats::image_test;
use crate::data::order::{is_sorted, sort_files};
use crate::data::persist::{populated, stored_name, RatingRowView, RatingWriteView};
use crate::data::scan::{index_after_scan, kept, rejected};
use crate::support::clock::elapsed;
use crate::support::sequence::{ends_with, without};
use crate::systems::events::{AppEventView, FilterChange, Nav, Slideshow};

verus! {

/// The event can move the selection: a step, a sort or a change of filter.
pub open spec fn moves_selection(event: AppEventView) -> bool {
    event is Nav || event is Sort || event is Filter
}

/// The requests to load the given files.
pub open spec fn load_events(files: Seq<FileView>) -> Seq<AppEventView> {
    files.map_values(|f: FileView| AppEventView::Load(f))
}

/// Some file of the sequence has the path.
pub open spec fn has_path(files: Seq<FileView>, path: Seq<char>) -> bool {
    exists|i: int| 0 <= i < files.len() && (#[trigger] files[i]).path == path
}

/// The files that the catalog takes from the entries of a directory: the
/// image files, each with the rating that the store holds for it, if the
/// store could be read.
pub open spec fn listing(entries: Seq<FileView>, rows: Option<Seq<RatingRowView>>) -> Seq<
    FileView,
> {
    let images = entries.filter(image_test());
    match rows {
        Some(rows) => images.map_values(|f: FileView| populated(f, rows)),
        None => images,
    }
}

/// The state of the catalog.
pub struct FileListView {
    /// The visible files, in their order.
    pub files: Seq<FileView>,
    /// The position of the selected file among the visible ones.
    pub current_index: int,
    pub current_sort: FileSort,
    pub filter: FilterView,
    /// The files that the filter holds back.
    pub filtered_files: Seq<FileView>,
    /// The interval of the slideshow in milliseconds, while it runs.
    pub slideshow: Option<u64>,
    /// When the slideshow last advanced, in milliseconds.
    pub slideshow_last_update: u64,
    /// The path of the file that the catalog last asked to be loaded.
    pub last_load: Option<Seq<char>>,
}

impl FileListView {
    /// The selection points at a visible file, or at zero if none is
    /// visible, no file that is held back passes the filter, and the
    /// visible files are in the order of the sort method.
    pub open spec fn wf(self) -> bool {
        &&& self.settled()
        &&& self.current_sort != FileSort::Random ==> is_sorted(self.files, self.current_sort)
    }

    /// The selection points at a visible file, or at zero if none is
    /// visible, and no file that is held back passes the filter.
    pub open spec fn settled(self) -> bool {
        &&& 0 <= self.current_index
        &&& self.files.len() > 0 ==> self.current_index < self.files.len()
        &&& self.files.len() == 0 ==> self.current_index == 0
        &&& forall|i: int|
            0 <= i < self.filtered_files.len() ==> !self.filter.matches(
                #[trigger] self.filtered_files[i],
            )
    }

    /// A catalog of the given files: sorted by name, unfiltered, with the
    /// first file selected and no slideshow.
    pub open spec fn fresh(files: Seq<FileView>) -> FileListView {
        FileListView {
            files: sort_files(files, FileSort::Name),
            current_index: 0,
            current_sort: FileSort::Name,
            filter: FilterView::all(),
            filtered_files: Seq::empty(),
            slideshow: None,
            slideshow_last_update: 0,
            last_load: None,
        }
    }

    /// The selected file, if any file is visible.
    pub open spec fn current(self) -> Option<FileView> {
        if 0 <= self.current_index < self.files.len() {
            Some(self.files[self.current_index])
        } else {
            None
        }
    }

    /// The catalog with the selection moved to `target`, counted modulo the
    /// number of visible files.
    pub open spec fn select(self, target: int) -> FileListView {
        FileListView {
            current_index: if self.files.len() == 0 {
                0
            } else {
                target % (self.files.len() as int)
            },
            ..self
        }
    }

    /// The catalog with the selection moved one file on, back to the first
    /// after the last.
    pub open spec fn next(self) -> FileListView {
        self.select(self.current_index + 1)
    }

    /// The catalog with the selection moved one file back, to the last from
    /// the first.
    pub open spec fn prev(self) -> FileListView {
        self.select(
            if self.current_index > 0 {
                self.current_index - 1
            } else if self.files.len() > 0 {
                self.files.len() - 1
            } else {
                0
            },
        )
    }

    /// `index` is where the selection goes when the file with `path` is
    /// looked up among `files`: the first place with that path, or zero if
    /// no file has it.
    pub open spec fn path_index(files: Seq<FileView>, path: Seq<char>, index: int) -> bool {
        if has_path(files, path) {
            &&& 0 <= index < files.len()
            &&& files[index].path == path
            &&& forall|j: int| 0 <= j < index ==> (#[trigger] files[j]).path != path
        } else {
            index == 0
        }
    }

    /// `after` holds the files of `before` as `method` arranges them: in
    /// sorted order, or in any order if the method is random.
    pub open spec fn arranged(before: Seq<FileView>, after: Seq<FileView>, method: FileSort) -> bool {
        match method {
            FileSort::Random => after.to_multiset() == before.to_multiset(),
            _ => after == sort_files(before, method),
        }
    }

    /// `after` is this catalog with its visible files arranged by its sort
    /// method and the selection on the first file that has the path of the
    /// file selected before.
    pub open spec fn resorted(self, after: FileListView) -> bool {
        &&& Self::arranged(self.files, after.files, self.current_sort)
        &&& match self.current() {
            Some(selected) => Self::path_index(after.files, selected.path, after.current_index),
            None => after.current_index == 0,
        }
        &&& after == FileListView {
            files: after.files,
            current_index: after.current_index,
            ..self
        }
    }

    /// `after` is this catalog sorted by `method`: unchanged if that is its
    /// method already, and else arranged anew.
    pub open spec fn sorted_by(self, method: FileSort, after: FileListView) -> bool {
        if method == self.current_sort {
            after == self
        } else {
            FileListView { current_sort: method, ..self }.resorted(after)
        }
    }

    /// The files that a change to `filter` looks through: the visible ones
    /// if the filter narrows the current one, and else the visible ones
    /// followed by those held back, the last held back first.
    pub open spec fn pool(self, filter: FilterView) -> Seq<FileView> {
        if filter.is_subset_of(self.filter) {
            self.files
        } else {
            self.files + self.filtered_files.reverse()
        }
    }

    /// The catalog after the scan for `filter`: the files of the pool that
    /// pass are visible in the order of the pool, the others are held back,
    /// and the selection has followed the selected file.
    pub open spec fn scanned(self, filter: FilterView) -> FileListView {
        let pool = self.pool(filter);
        FileListView {
            files: kept(pool, filter),
            current_index: index_after_scan(pool, self.current_index, filter),
            filter,
            filtered_files: (if filter.is_subset_of(self.filter) {
                self.filtered_files
            } else {
                Seq::empty()
            }) + rejected(pool, filter),
            ..self
        }
    }

    /// `after` is this catalog with `filter` applied: scanned, and arranged
    /// anew unless the filter narrows the current one.
    pub open spec fn filtered(self, filter: FilterView, after: FileListView) -> bool {
        if filter.is_subset_of(self.filter) {
            after == self.scanned(filter)
        } else {
            self.scanned(filter).resorted(after)
        }
    }

    /// The catalog with the rating of the selected file replaced, if a file
    /// is selected.
    pub open spec fn rated(self, rating: Option<int>) -> FileListView {
        match self.current() {
            Some(file) => FileListView {
                files: self.files.update(self.current_index, FileView { rating, ..file }),
                ..self
            },
            None => self,
        }
    }

    /// The catalog with the slideshow started at `now`.
    pub open spec fn slideshow_started(self, interval: u64, now: u64) -> FileListView {
        FileListView { slideshow: Some(interval), slideshow_last_update: now, ..self }
    }

    /// The catalog with the slideshow stopped.
    pub open spec fn slideshow_stopped(self) -> FileListView {
        FileListView { slideshow: None, ..self }
    }

    /// The slideshow runs and its interval has passed at `now`.
    pub open spec fn slideshow_due(self, now: u64) -> bool {
        match self.slideshow {
            Some(interval) => interval <= elapsed(self.slideshow_last_update, now),
            None => false,
        }
    }

    /// The catalog after the slideshow's check at `now`: the clock is set
    /// to `now` if the slideshow is due.
    pub open spec fn ticked(self, now: u64) -> FileListView {
        if self.slideshow_due(now) {
            FileListView { slideshow_last_update: now, ..self }
        } else {
            self
        }
    }

    /// What the slideshow's check at `now` puts on the bus: the step to the
    /// next file if the slideshow is due.
    pub open spec fn tick_events(self, now: u64) -> Seq<AppEventView> {
        if self.slideshow_due(now) {
            seq![AppEventView::Nav(Nav::ImageNext)]
        } else {
            Seq::empty()
        }
    }

    /// The file that is to be loaded: the selected one, if its path is not
    /// the one that the catalog last asked to be loaded.
    pub open spec fn due_load(self) -> Option<FileView> {
        match self.current() {
            Some(file) => if self.last_load != Some(file.path) {
                Some(file)
            } else {
                None
            },
            None => None,
        }
    }

    /// The catalog after it has asked for the file that is to be loaded.
    pub open spec fn announced(self) -> FileListView {
        match self.due_load() {
            Some(file) => FileListView { last_load: Some(file.path), ..self },
            None => self,
        }
    }

    /// `after` is this catalog with the change that `event` asks for. Events
    /// that do not concern the catalog change nothing.
    pub open spec fn applied(self, event: AppEventView, now: u64, after: FileListView) -> bool {
        match event {
            AppEventView::Nav(Nav::ImageNext) => after == self.next(),
            AppEventView::Nav(Nav::ImagePrev) => after == self.prev(),
            AppEventView::Nav(Nav::ImageIndex(index)) => after == self.select(index as int),
            AppEventView::Sort(method) => self.sorted_by(method, after),
            AppEventView::Filter(FilterChange::Text(text)) => self.filtered(
                self.filter.with_name(text),
                after,
            ),
            AppEventView::Filter(FilterChange::Rating(rating)) => self.filtered(
                self.filter.with_rating(rating),
                after,
            ),
            AppEventView::SetRating(rating) => after == self.rated(rating),
            AppEventView::Slideshow(Slideshow::Start(interval)) => after == self.slideshow_started(
                interval,
                now,
            ),
            AppEventView::Slideshow(Slideshow::Stop) => after == self.slideshow_stopped(),
            _ => after == self,
        }
    }

    /// The write to the store that `event` asks for: the new rating of the
    /// selected file, under its name.
    pub open spec fn due_write(self, event: AppEventView) -> Option<RatingWriteView> {
        match event {
            AppEventView::SetRating(rating) => match self.current() {
                Some(file) => Some(RatingWriteView { file_name: stored_name(file), rating }),
                None => None,
            },
            _ => None,
        }
    }

    /// `after` is this catalog once it has handled `event` at `now`, `load`
    /// is the file that it asks to be loaded and `write` what it asks the
    /// store to keep. After an event that can move the selection, the
    /// selected file is to be loaded unless it was asked for last.
    pub open spec fn reacted(
        self,
        event: AppEventView,
        now: u64,
        after: FileListView,
        load: Option<FileView>,
        write: Option<RatingWriteView>,
    ) -> bool {
        let changed = FileListView { last_load: self.last_load, ..after };
        &&& self.applied(event, now, changed)
        &&& if moves_selection(event) {
            after == changed.announced() && load == changed.due_load()
        } else {
            after == changed && load is None
        }
        &&& write == self.due_write(event)
    }

    /// `after` is this catalog once it has handled `events` in their order
    /// at `now`, `loads` are the files that it asked to be loaded on the
    /// way and `writes` what it asked the store to keep.
    pub open spec fn ran(
        self,
        events: Seq<AppEventView>,
        now: u64,
        after: FileListView,
        loads: Seq<FileView>,
        writes: Seq<RatingWriteView>,
    ) -> bool
        decreases events.len(),
    {
        if events.len() == 0 {
            after == self && loads.len() == 0 && writes.len() == 0
        } else {
            exists|mid: FileListView, load: Option<FileView>, write: Option<RatingWriteView>|
                #![trigger mid.reacted(events.last(), now, after, load, write)]
                ends_with(loads, load) && ends_with(writes, write) && self.ran(
                    events.drop_last(),
                    now,
                    mid,
                    without(loads, load),
                    without(writes, write),
                ) && mid.reacted(events.last(), now, after, load, write)
        }
    }
}

} // verus!
