//! The file list: the visible files in their order, the files that the
//! filter holds back, and the current selection.

use vstd::prelude::*;
use vstd::seq_lib::to_multiset_len;
use crate::data::catalog::{has_path, listing, load_events, FileListView};
use crate::data::file::{rating_view, File, FileView, Rating};
use crate::data::filter::Filter;
use crate::data::formats::{image_test, is_image_file};
use crate::data::laws::lemma_scanned;
use crate::data::order::{
    file_views, lemma_sort_files_is_sorted, lemma_sort_files_permutes, sort_in_place,
};
use crate::data::persist::{
    populate_files, row_views, write_views, RatingRow, RatingRowView, RatingWrite,
    RatingWriteView,
};
use crate::data::scan::scan;
use crate::support::clock::elapsed_between;
use crate::support::random::{shuffle, thread_rng};
use crate::support::sequence::{optional, without};
use crate::systems::event_system::EventSystem;
use crate::systems::events::{
    event_views, AppEvent, AppEventView, Filter as FilterEvent, Nav, SetMeta, Slideshow,
};

verus! {

/// How the visible files are ordered.
#[derive(Debug, Copy, Clone, Eq, PartialEq, Structural)]
pub enum FileSort {
    Name,
    LastModified,
    Random,
}

/// The sort methods, in the order in which they are offered.
pub fn file_sort_methods() -> (r: Vec<FileSort>)
    ensures
        r@ == seq![FileSort::Name, FileSort::LastModified, FileSort::Random],
{
    let mut methods = Vec::new();
    methods.push(FileSort::Name);
    methods.push(FileSort::LastModified);
    methods.push(FileSort::Random);
    methods
}

impl FileSort {
    /// The name of the method as it is shown.
    pub fn as_str(&self) -> (r: &'static str)
        ensures
            r@ == (match *self {
                FileSort::Name => "Name"@,
                FileSort::LastModified => "Last Modified"@,
                FileSort::Random => "Random"@,
            }),
    {
        match self {
            FileSort::Name => "Name",
            FileSort::LastModified => "Last Modified",
            FileSort::Random => "Random",
        }
    }
}

/// The rows of the store as the contracts speak of them, if there are any.
pub open spec fn optional_rows(rows: Option<Vec<RatingRow>>) -> Option<Seq<RatingRowView>> {
    match rows {
        Some(rows) => Some(row_views(rows@)),
        None => None,
    }
}

/// What the catalog asks for when it has handled an event.
#[derive(Debug)]
pub struct Reaction {
    /// The request to load the file that is now selected.
    pub load: Option<AppEvent>,
    /// The rating that the store is to keep.
    pub write: Option<RatingWrite>,
}

impl Reaction {
    /// The file that is asked to be loaded, if any.
    pub open spec fn load_view(self) -> Option<FileView> {
        match self.load {
            Some(event) => Some(event@->Load_0),
            None => None,
        }
    }

    /// What the store is asked to keep, if anything.
    pub open spec fn write_view(self) -> Option<RatingWriteView> {
        match self.write {
            Some(write) => Some(write@),
            None => None,
        }
    }
}

/// The catalog: the files of a directory with a selection, a sort order and
/// a filter.
#[derive(Debug)]
pub struct FileList {
    files: Vec<File>,
    current_index: usize,
    current_sort: FileSort,
    filter: Filter,
    filtered_files: Vec<File>,
    slideshow: Option<u64>,
    slideshow_last_update: u64,
    last_load: Option<String>,
}

impl View for FileList {
    type V = FileListView;

    closed spec fn view(&self) -> FileListView {
        FileListView {
            files: file_views(self.files@),
            current_index: self.current_index as int,
            current_sort: self.current_sort,
            filter: self.filter@,
            filtered_files: file_views(self.filtered_files@),
            slideshow: self.slideshow,
            slideshow_last_update: self.slideshow_last_update,
            last_load: match self.last_load {
                Some(path) => Some(path@),
                None => None,
            },
        }
    }
}

impl FileList {
    /// A catalog of the given files: sorted by name, unfiltered, with the
    /// first file selected and no slideshow.
    pub fn from_files(files: Vec<File>) -> (r: FileList)
        ensures
            r@.wf(),
            r@ == FileListView::fresh(file_views(files@)),
    {
        let ghost given = file_views(files@);
        let mut files = files;
        sort_in_place(&mut files, FileSort::Name);
        proof {
            lemma_sort_files_is_sorted(given, FileSort::Name);
            lemma_sort_files_permutes(given, FileSort::Name);
        }
        let list = FileList {
            files,
            current_index: 0,
            current_sort: FileSort::Name,
            filter: Filter::default(),
            filtered_files: Vec::new(),
            slideshow: None,
            slideshow_last_update: 0,
            last_load: None,
        };
        assert(list@.filtered_files =~= Seq::empty());
        list
    }

    /// A catalog of the image files among the entries of a directory, with
    /// the ratings that the store holds for them. `rows` is what the store
    /// holds, or nothing if the store could not be read.
    pub fn from_dir(entries: Vec<File>, rows: &Option<Vec<RatingRow>>) -> (r: FileList)
        ensures
            r@.wf(),
            r@ == FileListView::fresh(listing(file_views(entries@), optional_rows(*rows))),
    {
        let ghost all = file_views(entries@);
        let n = entries.len();
        let mut images: Vec<File> = Vec::new();
        let mut i: usize = 0;
        proof {
            reveal(Seq::filter);
        }
        for entry in it: entries
            invariant
                i == it.index(),
                it.seq() == entries@,
                n == entries@.len(),
                all == file_views(entries@),
                file_views(images@) == all.take(i as int).filter(image_test()),
        {
            let ghost seen = all.take(i as int);
            proof {
                assert(all.take(i + 1) =~= seen.push(entry@));
                seen.lemma_filter_push(entry@, image_test());
            }
            if is_image_file(&entry) {
                images.push(entry);
            }
            i = i + 1;
        }
        proof {
            assert(all.take(entries@.len() as int) =~= all);
        }
        match rows {
            Some(rows) => {
                populate_files(&mut images, rows);
            },
            None => {},
        }
        FileList::from_files(images)
    }

    /// A catalog as `from_dir` makes it, with the selection on the first
    /// file that has the given path. Without such a file there is no
    /// catalog.
    pub fn from_file(entries: Vec<File>, rows: &Option<Vec<RatingRow>>, path: &str) -> (r: Option<
        FileList,
    >)
        ensures
            match r {
                Some(list) => {
                    let fresh = FileListView::fresh(
                        listing(file_views(entries@), optional_rows(*rows)),
                    );
                    &&& list@.wf()
                    &&& has_path(fresh.files, path@)
                    &&& FileListView::path_index(fresh.files, path@, list@.current_index)
                    &&& list@ == FileListView { current_index: list@.current_index, ..fresh }
                },
                None => !has_path(
                    FileListView::fresh(
                        listing(file_views(entries@), optional_rows(*rows)),
                    ).files,
                    path@,
                ),
            },
    {
        let mut list = FileList::from_dir(entries, rows);
        let wanted = path.to_owned();
        match position_of_path(&list.files, &wanted) {
            Some(i) => {
                list.current_index = i;
                Some(list)
            },
            None => None,
        }
    }

    /// The selected file, if any file is visible.
    pub fn current(&self) -> (r: Option<&File>)
        ensures
            match r {
                Some(file) => self@.current() == Some(file@),
                None => self@.current() is None,
            },
    {
        if self.current_index < self.files.len() {
            Some(&self.files[self.current_index])
        } else {
            None
        }
    }

    /// The place of the selected file among the visible ones.
    pub fn current_index(&self) -> (r: usize)
        ensures
            r == self@.current_index,
    {
        self.current_index
    }

    /// The filter in use.
    pub fn get_filter(&self) -> (r: &Filter)
        ensures
            r@ == self@.filter,
    {
        &self.filter
    }

    /// The sort method in use.
    pub fn current_sort(&self) -> (r: &FileSort)
        ensures
            *r == self@.current_sort,
    {
        &self.current_sort
    }

    /// The number of visible files.
    pub fn len(&self) -> (r: usize)
        ensures
            r == self@.files.len(),
    {
        self.files.len()
    }

    /// The visible file at `index`, if there is one.
    pub fn get_file(&self, index: usize) -> (r: Option<&File>)
        ensures
            match r {
                Some(file) => index < self@.files.len() && file@ == self@.files[index as int],
                None => index >= self@.files.len(),
            },
    {
        if index < self.files.len() {
            Some(&self.files[index])
        } else {
            None
        }
    }

    /// Moves the selection to `current`, counted modulo the number of
    /// visible files, and tells whether the selection changed.
    pub fn set_current(&mut self, current: usize) -> (changed: bool)
        requires
            old(self)@.wf(),
        ensures
            final(self)@.wf(),
            final(self)@ == old(self)@.select(current as int),
            changed == (final(self)@.current_index != old(self)@.current_index),
    {
        let i = if self.files.len() == 0 {
            0
        } else {
            current % self.files.len()
        };

        if i != self.current_index {
            self.current_index = i;
            true
        } else {
            false
        }
    }

    /// Sorts the visible files by `property`, keeping the selection on the
    /// selected file. Nothing happens if the files are sorted by `property`
    /// already.
    pub fn sort_by(&mut self, property: FileSort)
        requires
            old(self)@.wf(),
        ensures
            final(self)@.wf(),
            old(self)@.sorted_by(property, final(self)@),
    {
        if self.current_sort == property {
            return ;
        }
        self.current_sort = property;
        assert(self@ == FileListView { current_sort: property, ..old(self)@ });
        self.apply_sort();
    }

    /// Arranges the visible files by the current sort method and puts the
    /// selection back on the file that was selected.
    fn apply_sort(&mut self)
        requires
            old(self)@.settled(),
        ensures
            final(self)@.wf(),
            old(self)@.resorted(final(self)@),
    {
        let selected: Option<String> = if self.current_index < self.files.len() {
            Some(self.files[self.current_index].path.clone())
        } else {
            None
        };

        match self.current_sort {
            FileSort::Random => {
                let mut rng = thread_rng();
                shuffle(&mut self.files, &mut rng);
            },
            _ => {
                sort_in_place(&mut self.files, self.current_sort);
                proof {
                    lemma_sort_files_permutes(file_views(old(self).files@), self.current_sort);
                    lemma_sort_files_is_sorted(file_views(old(self).files@), self.current_sort);
                }
            },
        }
        proof {
            to_multiset_len(file_views(self.files@));
            to_multiset_len(file_views(old(self).files@));
        }

        let new_idx = match selected {
            Some(path) => find_path(&self.files, &path),
            None => 0,
        };
        self.current_index = new_idx;
    }

    /// Makes `filter` the filter of the catalog. Files that do not pass it
    /// are held back, files held back that pass it become visible again, and
    /// the selection stays on the selected file if that file passes.
    pub fn apply_filter(&mut self, filter: Filter)
        requires
            old(self)@.wf(),
        ensures
            final(self)@.wf(),
            old(self)@.filtered(filter@, final(self)@),
    {
        let is_subset = filter.is_subset_of(&self.filter);
        if !is_subset {
            while self.filtered_files.len() > 0
                invariant
                    file_views(self.files@) + file_views(self.filtered_files@).reverse()
                        == file_views(old(self).files@) + file_views(
                        old(self).filtered_files@,
                    ).reverse(),
                    self.current_index == old(self).current_index,
                    self.current_sort == old(self).current_sort,
                    self.filter == old(self).filter,
                    self.slideshow == old(self).slideshow,
                    self.slideshow_last_update == old(self).slideshow_last_update,
                    self.last_load == old(self).last_load,
                decreases self.filtered_files@.len(),
            {
                let file = self.filtered_files.pop().unwrap();
                self.files.push(file);
            }
        }
        let mut pool: Vec<File> = Vec::new();
        std::mem::swap(&mut self.files, &mut pool);
        let (visible, index) = scan(pool, self.current_index, &filter, &mut self.filtered_files);
        self.files = visible;
        self.current_index = index;
        self.filter = filter;
        proof {
            lemma_scanned(old(self)@, filter@);
        }
        if !is_subset {
            self.apply_sort();
        }
    }

    /// Gives the selected file the rating, and returns the write that keeps
    /// it in the store. Without a selected file nothing happens.
    pub fn set_rating(&mut self, rating: Option<Rating>) -> (write: Option<RatingWrite>)
        requires
            old(self)@.wf(),
        ensures
            final(self)@.wf(),
            final(self)@ == old(self)@.rated(rating_view(rating)),
            match write {
                Some(w) => Some(w@) == old(self)@.due_write(
                    AppEventView::SetRating(rating_view(rating)),
                ),
                None => old(self)@.current() is None,
            },
    {
        if self.current_index < self.files.len() {
            let ghost before = self.files@;
            let file_name = self.files[self.current_index].name();
            self.files[self.current_index].rating = rating;
            assert(file_views(self.files@) =~= file_views(before).update(
                self.current_index as int,
                FileView { rating: rating_view(rating), ..before[self.current_index as int]@ },
            ));
            Some(RatingWrite { file_name, rating })
        } else {
            None
        }
    }

    /// Whether the slideshow runs.
    pub fn is_slideshow_enabled(&self) -> (r: bool)
        ensures
            r == self@.slideshow.is_some(),
    {
        self.slideshow.is_some()
    }

    /// Starts the slideshow at `now` with the given interval, both in
    /// milliseconds.
    pub fn slideshow_start(&mut self, interval: u64, now: u64)
        ensures
            final(self)@ == old(self)@.slideshow_started(interval, now),
    {
        self.slideshow = Some(interval);
        self.slideshow_last_update = now;
    }

    /// Stops the slideshow.
    pub fn slideshow_stop(&mut self)
        ensures
            final(self)@ == old(self)@.slideshow_stopped(),
    {
        self.slideshow = None;
    }

    /// Asks for the selected file to be loaded, unless it was asked for
    /// last.
    pub fn announce(&mut self) -> (load: Option<AppEvent>)
        ensures
            final(self)@ == old(self)@.announced(),
            old(self)@.wf() ==> final(self)@.wf(),
            match load {
                Some(event) => event@ is Load && Some(event@->Load_0) == old(self)@.due_load(),
                None => old(self)@.due_load() is None,
            },
    {
        if self.current_index < self.files.len() {
            let file = &self.files[self.current_index];
            let asked = match &self.last_load {
                Some(path) => *path == file.path,
                None => false,
            };
            if asked {
                None
            } else {
                let event = AppEvent::Load(file.clone());
                self.last_load = Some(file.path.clone());
                Some(event)
            }
        } else {
            None
        }
    }

    /// Handles one event of the bus at `now`, a time in milliseconds.
    pub fn handle(&mut self, event: &AppEvent, now: u64) -> (r: Reaction)
        requires
            old(self)@.wf(),
        ensures
            final(self)@.wf(),
            old(self)@.reacted(event@, now, final(self)@, r.load_view(), r.write_view()),
            r.load matches Some(e) ==> e@ is Load,
    {
        let mut write: Option<RatingWrite> = None;
        let mut moved = false;
        match event {
            AppEvent::Nav(nav) => {
                match nav {
                    Nav::ImagePrev => {
                        self.prev();
                    },
                    Nav::ImageNext => {
                        self.next();
                    },
                    Nav::ImageIndex(idx) => {
                        self.set_current(*idx);
                    },
                }
                moved = true;
            },
            AppEvent::Sort(srt) => {
                self.sort_by(*srt);
                moved = true;
            },
            AppEvent::Filter(filter) => {
                let new = match filter {
                    FilterEvent::Text(text) => self.filter.clone().with_name(text.as_str()),
                    FilterEvent::Rating(rating) => self.filter.clone().with_rating(rating),
                };
                self.apply_filter(new);
                moved = true;
            },
            AppEvent::SetMeta(meta) => match meta {
                SetMeta::Rating(rating) => {
                    write = self.set_rating(*rating);
                },
            },
            AppEvent::Slideshow(slideshow) => match slideshow {
                Slideshow::Start(duration) => self.slideshow_start(*duration, now),
                Slideshow::Stop => self.slideshow_stop(),
            },
            _ => {},
        }
        let ghost changed = self@;
        let load = if moved {
            self.announce()
        } else {
            None
        };
        Reaction { load, write }
    }

    /// Handles the current events of the bus in their order at `now`, a
    /// time in milliseconds, and lets the slideshow advance if it is due.
    /// The requests to load a file go to the bus, for the next frame; the
    /// writes to the store are returned.
    pub fn update(&mut self, events: &mut EventSystem, now: u64) -> (writes: Vec<RatingWrite>)
        requires
            old(self)@.wf(),
        ensures
            final(self)@.wf(),
            exists|mid: FileListView, loads: Seq<FileView>|
                #![trigger old(self)@.ran(old(events)@.current, now, mid, loads, write_views(writes@))]
                old(self)@.ran(old(events)@.current, now, mid, loads, write_views(writes@))
                    && final(self)@ == mid.ticked(now) && final(events)@ == old(
                    events,
                )@.pushed_all(load_events(loads) + mid.tick_events(now)),
    {
        let mut new_events: Vec<AppEvent> = Vec::new();
        let mut writes: Vec<RatingWrite> = Vec::new();
        let ghost mut loads: Seq<FileView> = Seq::empty();
        let ghost all = events@.current;
        let current = events.events();
        let n = current.len();
        let mut i: usize = 0;
        while i < n
            invariant
                i <= n,
                n == current@.len(),
                all == event_views(current@),
                self@.wf(),
                old(self)@.ran(all.take(i as int), now, self@, loads, write_views(writes@)),
                event_views(new_events@) == load_events(loads),
            decreases n - i,
        {
            let ghost before = self@;
            let ghost loads_before = loads;
            let ghost writes_before = write_views(writes@);
            let reaction = self.handle(&current[i], now);
            let ghost load = reaction.load_view();
            let ghost write = reaction.write_view();
            let ghost events_before = event_views(new_events@);
            match reaction.load {
                Some(e) => {
                    new_events.push(e);
                    assert(event_views(new_events@) =~= events_before.push(e@));
                },
                None => {},
            }
            match reaction.write {
                Some(w) => {
                    writes.push(w);
                },
                None => {},
            }
            proof {
                loads = loads_before + optional(load);
                let upto = all.take(i + 1);
                assert(upto.drop_last() =~= all.take(i as int));
                assert(upto.last() == current@[i as int]@);
                assert(without(loads, load) =~= loads_before);
                assert(without(write_views(writes@), write) =~= writes_before);
            }
            i = i + 1;
        }
        proof {
            assert(all.take(n as int) =~= all);
        }
        let ghost mid = self@;
        events.push_all(new_events);
        match self.slideshow {
            Some(dur) => {
                if dur <= elapsed_between(self.slideshow_last_update, now) {
                    events.push(AppEvent::Nav(Nav::ImageNext));
                    self.slideshow_last_update = now;
                }
            },
            None => {},
        }
        proof {
            assert(events@.pending =~= old(events)@.pending + (load_events(loads)
                + mid.tick_events(now)));
        }
        writes
    }

    /// Selects the next file, or the first after the last.
    pub fn next(&mut self) -> (changed: bool)
        requires
            old(self)@.wf(),
        ensures
            final(self)@.wf(),
            final(self)@ == old(self)@.next(),
            changed == (final(self)@.current_index != old(self)@.current_index),
    {
        let after = if self.current_index < self.files.len() {
            self.current_index + 1
        } else {
            0
        };
        self.set_current(after)
    }

    /// Selects the previous file, or the last before the first.
    pub fn prev(&mut self) -> (changed: bool)
        requires
            old(self)@.wf(),
        ensures
            final(self)@.wf(),
            final(self)@ == old(self)@.prev(),
            changed == (final(self)@.current_index != old(self)@.current_index),
    {
        let i = if self.current_index > 0 {
            self.current_index - 1
        } else if self.files.len() > 0 {
            self.files.len() - 1
        } else {
            0
        };
        self.set_current(i)
    }
}

/// The first place among `files` of a file with `path`, if there is one.
fn position_of_path(files: &Vec<File>, path: &String) -> (r: Option<usize>)
    ensures
        match r {
            Some(i) => has_path(file_views(files@), path@) && FileListView::path_index(
                file_views(files@),
                path@,
                i as int,
            ),
            None => !has_path(file_views(files@), path@),
        },
{
    let mut i: usize = 0;
    while i < files.len()
        invariant
            i <= files@.len(),
            forall|j: int| 0 <= j < i ==> (#[trigger] file_views(files@)[j]).path != path@,
        decreases files@.len() - i,
    {
        if files[i].path == *path {
            assert(file_views(files@)[i as int].path == path@);
            return Some(i);
        }
        i = i + 1;
    }
    None
}

/// The first place among `files` of a file with `path`, or zero if there is
/// none.
fn find_path(files: &Vec<File>, path: &String) -> (r: usize)
    ensures
        FileListView::path_index(file_views(files@), path@, r as int),
{
    match position_of_path(files, path) {
        Some(i) => i,
        None => 0,
    }
}

} // verus!
