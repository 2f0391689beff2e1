//! The events that travel over the bus.

use vstd::prelude::*;
use vstd::std_specs::convert::FromSpecImpl;
use conrod_core::image::Id;
use crate::data::file::{rating_view, File, FileView, Rating};
use crate::data::file_list::FileSort;

verus! {

/// An event on the bus.
#[derive(Debug)]
pub enum AppEvent {
    Image(Image),
    Load(File),
    Nav(Nav),
    Sort(FileSort),
    Filter(Filter),
    SetMeta(SetMeta),
    Slideshow(Slideshow),
}

/// What the pipeline reports about the image on display.
#[derive(Debug)]
pub enum Image {
    /// A file has been decoded and its first frame is registered under `id`.
    Loaded { id: Id, w: u32, h: u32, file: File },
    /// The frame on display is now the one registered under this handle.
    SwapImageId(Id),
}

/// A step through the visible files, or the choice of one by its place.
#[derive(Debug, Clone, Copy, PartialEq, Eq, Structural)]
pub enum Nav {
    ImageNext,
    ImagePrev,
    ImageIndex(usize),
}

/// A change to one part of the catalog's filter.
#[derive(Debug)]
pub enum Filter {
    Text(String),
    Rating(Option<Rating>),
}

/// A change to what is kept about the selected file.
#[derive(Debug, Clone, Copy, PartialEq, Eq, Structural)]
pub enum SetMeta {
    Rating(Option<Rating>),
}

/// The start or the stop of the slideshow.
#[derive(Debug, Clone, Copy, PartialEq, Eq, Structural)]
pub enum Slideshow {
    /// Start the slideshow with this interval in milliseconds.
    Start(u64),
    Stop,
}

/// A report of the pipeline as the contracts speak of it.
pub enum ImageView {
    Loaded { id: Id, w: u32, h: u32, file: FileView },
    SwapImageId(Id),
}

/// A change to the filter as the contracts speak of it.
pub enum FilterChange {
    Text(Seq<char>),
    Rating(Option<int>),
}

/// An event as the contracts speak of it.
pub enum AppEventView {
    Image(ImageView),
    Load(FileView),
    Nav(Nav),
    Sort(FileSort),
    Filter(FilterChange),
    SetRating(Option<int>),
    Slideshow(Slideshow),
}

impl View for Image {
    type V = ImageView;

    open spec fn view(&self) -> ImageView {
        match *self {
            Image::Loaded { id, w, h, file } => ImageView::Loaded { id, w, h, file: file@ },
            Image::SwapImageId(id) => ImageView::SwapImageId(id),
        }
    }
}

impl View for Filter {
    type V = FilterChange;

    open spec fn view(&self) -> FilterChange {
        match *self {
            Filter::Text(text) => FilterChange::Text(text@),
            Filter::Rating(rating) => FilterChange::Rating(rating_view(rating)),
        }
    }
}

impl View for AppEvent {
    type V = AppEventView;

    open spec fn view(&self) -> AppEventView {
        match *self {
            AppEvent::Image(image) => AppEventView::Image(image@),
            AppEvent::Load(file) => AppEventView::Load(file@),
            AppEvent::Nav(nav) => AppEventView::Nav(nav),
            AppEvent::Sort(sort) => AppEventView::Sort(sort),
            AppEvent::Filter(filter) => AppEventView::Filter(filter@),
            AppEvent::SetMeta(SetMeta::Rating(rating)) => AppEventView::SetRating(
                rating_view(rating),
            ),
            AppEvent::Slideshow(slideshow) => AppEventView::Slideshow(slideshow),
        }
    }
}

/// The events of a sequence as the contracts speak of them.
pub open spec fn event_views(events: Seq<AppEvent>) -> Seq<AppEventView> {
    events.map_values(|e: AppEvent| e@)
}

impl Clone for Image {
    fn clone(&self) -> (r: Image)
        ensures
            r@ == self@,
    {
        match self {
            Image::Loaded { id, w, h, file } => Image::Loaded {
                id: *id,
                w: *w,
                h: *h,
                file: file.clone(),
            },
            Image::SwapImageId(id) => Image::SwapImageId(*id),
        }
    }
}

impl Clone for Filter {
    fn clone(&self) -> (r: Filter)
        ensures
            r@ == self@,
    {
        match self {
            Filter::Text(text) => Filter::Text(text.clone()),
            Filter::Rating(rating) => Filter::Rating(*rating),
        }
    }
}

impl Clone for AppEvent {
    fn clone(&self) -> (r: AppEvent)
        ensures
            r@ == self@,
    {
        match self {
            AppEvent::Image(image) => AppEvent::Image(image.clone()),
            AppEvent::Load(file) => AppEvent::Load(file.clone()),
            AppEvent::Nav(nav) => AppEvent::Nav(*nav),
            AppEvent::Sort(sort) => AppEvent::Sort(*sort),
            AppEvent::Filter(filter) => AppEvent::Filter(filter.clone()),
            AppEvent::SetMeta(meta) => AppEvent::SetMeta(*meta),
            AppEvent::Slideshow(slideshow) => AppEvent::Slideshow(*slideshow),
        }
    }
}

impl From<Image> for AppEvent {
    fn from(image: Image) -> (r: AppEvent) {
        AppEvent::Image(image)
    }
}

impl FromSpecImpl<Image> for AppEvent {
    open spec fn obeys_from_spec() -> bool {
        true
    }

    open spec fn from_spec(image: Image) -> AppEvent {
        AppEvent::Image(image)
    }
}

impl From<Nav> for AppEvent {
    fn from(nav: Nav) -> (r: AppEvent) {
        AppEvent::Nav(nav)
    }
}

impl FromSpecImpl<Nav> for AppEvent {
    open spec fn obeys_from_spec() -> bool {
        true
    }

    open spec fn from_spec(nav: Nav) -> AppEvent {
        AppEvent::Nav(nav)
    }
}

impl From<Filter> for AppEvent {
    fn from(filter: Filter) -> (r: AppEvent) {
        AppEvent::Filter(filter)
    }
}

impl FromSpecImpl<Filter> for AppEvent {
    open spec fn obeys_from_spec() -> bool {
        true
    }

    open spec fn from_spec(filter: Filter) -> AppEvent {
        AppEvent::Filter(filter)
    }
}

impl From<SetMeta> for AppEvent {
    fn from(meta: SetMeta) -> (r: AppEvent) {
        AppEvent::SetMeta(meta)
    }
}

impl FromSpecImpl<SetMeta> for AppEvent {
    open spec fn obeys_from_spec() -> bool {
        true
    }

    open spec fn from_spec(meta: SetMeta) -> AppEvent {
        AppEvent::SetMeta(meta)
    }
}

impl From<Slideshow> for AppEvent {
    fn from(slideshow: Slideshow) -> (r: AppEvent) {
        AppEvent::Slideshow(slideshow)
    }
}

impl FromSpecImpl<Slideshow> for AppEvent {
    open spec fn obeys_from_spec() -> bool {
        true
    }

    open spec fn from_spec(slideshow: Slideshow) -> AppEvent {
        AppEvent::Slideshow(slideshow)
    }
}

} // verus!
