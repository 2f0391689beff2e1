//! The pipeline as the contracts speak of it: its state, and what each
//! step makes of it.

use vstd::prelude::*;
use conrod_core::image::Id;
use crate::data::file::FileView;
use crate::data::formats::is_animated;
use crate::support::clock::elapsed;
use crate::systems::events::{AppEventView, ImageView};
use crate::systems::frames::{frame_delay, usable, DecodedFrame, FrameData, Registered};

verus! {

/// The state of the pipeline.
pub struct ImageSystemView {
    /// The registry: the size registered under each handle.
    pub textures: Map<Id, (u32, u32)>,
    /// The frames of the image on display.
    pub frames: Seq<FrameData>,
    /// The place of the frame on display.
    pub current_frame: int,
    /// When the frame on display was put there, in milliseconds.
    pub last_update: u64,
    /// The file that is being decoded, if any.
    pub in_flight: Option<FileView>,
}

/// The registry after the frames have been registered in their order.
pub open spec fn registered_all(base: Map<Id, (u32, u32)>, frames: Seq<FrameData>) -> Map<
    Id,
    (u32, u32),
>
    decreases frames.len(),
{
    if frames.len() == 0 {
        base
    } else {
        registered_all(base, frames.drop_last()).insert(
            frames.last().id,
            (frames.last().w, frames.last().h),
        )
    }
}

/// The handles of the frames.
pub open spec fn frame_ids(frames: Seq<FrameData>) -> Seq<Id> {
    frames.map_values(|f: FrameData| f.id)
}

/// The registry after the handles have been taken out in their order.
pub open spec fn released_all(base: Map<Id, (u32, u32)>, ids: Seq<Id>) -> Map<Id, (u32, u32)>
    decreases ids.len(),
{
    if ids.len() == 0 {
        base
    } else {
        released_all(base, ids.drop_last()).remove(ids.last())
    }
}

/// Every frame that is registered stays registered when more are.
pub proof fn lemma_registered_all_contains(base: Map<Id, (u32, u32)>, frames: Seq<FrameData>)
    ensures
        forall|i: int|
            0 <= i < frames.len() ==> registered_all(base, frames).dom().contains(
                (#[trigger] frames[i]).id,
            ),
        forall|id: Id| base.dom().contains(id) ==> registered_all(base, frames).dom().contains(id),
    decreases frames.len(),
{
    if frames.len() > 0 {
        lemma_registered_all_contains(base, frames.drop_last());
        assert forall|i: int| 0 <= i < frames.len() implies registered_all(
            base,
            frames,
        ).dom().contains((#[trigger] frames[i]).id) by {
            if i < frames.len() - 1 {
                assert(frames.drop_last()[i] == frames[i]);
            }
        }
    }
}

impl ImageSystemView {
    /// The place of the frame on display is a place of a frame, every frame
    /// is registered, and where there is more than one frame each has a
    /// delay.
    pub open spec fn wf(self) -> bool {
        &&& 0 <= self.current_frame
        &&& self.frames.len() > 0 ==> self.current_frame < self.frames.len()
        &&& self.frames.len() == 0 ==> self.current_frame == 0
        &&& forall|i: int|
            0 <= i < self.frames.len() ==> self.textures.dom().contains((#[trigger] self.frames[i]).id)
        &&& self.frames.len() > 1 ==> forall|i: int|
            0 <= i < self.frames.len() ==> (#[trigger] self.frames[i]).delay > 0
    }

    /// The frame on display, if an image is loaded.
    pub open spec fn current(self) -> Option<FrameData> {
        if 0 <= self.current_frame < self.frames.len() {
            Some(self.frames[self.current_frame])
        } else {
            None
        }
    }

    /// How long the frame on display still has at `now`, in milliseconds.
    /// A still image, or none, has no such time.
    pub open spec fn time_to_next_update(self, now: u64) -> Option<u64> {
        if self.frames.len() < 2 {
            None
        } else {
            let passed = elapsed(self.last_update, now);
            let delay = self.frames[self.current_frame].delay;
            if delay >= passed {
                Some((delay - passed) as u64)
            } else {
                Some(0u64)
            }
        }
    }

    /// A job for the file is under way.
    pub open spec fn decoding(self, path: Seq<char>) -> bool {
        match self.in_flight {
            Some(file) => file.path == path,
            None => false,
        }
    }

    /// The pipeline after the request to load `file`: the file is being
    /// decoded, and a job for another file is abandoned.
    pub open spec fn requested(self, file: FileView) -> ImageSystemView {
        if self.decoding(file.path) {
            self
        } else {
            ImageSystemView { in_flight: Some(file), ..self }
        }
    }

    /// The job that the request to load `file` starts: none if a job for
    /// that path is under way.
    pub open spec fn request_for(self, file: FileView) -> Option<(FileView, bool)> {
        if self.decoding(file.path) {
            None
        } else {
            Some((file, is_animated(file)))
        }
    }

    /// The frame on display has been shown for its time at `now`.
    pub open spec fn frame_due(self, now: u64) -> bool {
        self.frames.len() > 1 && self.frames[self.current_frame].delay <= elapsed(
            self.last_update,
            now,
        )
    }

    /// The pipeline after the clock's check at `now`: the next frame is on
    /// display if the current one is due, the first after the last.
    pub open spec fn ticked(self, now: u64) -> ImageSystemView {
        if self.frame_due(now) {
            ImageSystemView {
                current_frame: (self.current_frame + 1) % (self.frames.len() as int),
                last_update: now,
                ..self
            }
        } else {
            self
        }
    }

    /// What the clock's check at `now` reports: the handle of the new frame,
    /// if the frame changed.
    pub open spec fn tick_event(self, now: u64) -> Option<AppEventView> {
        if self.frame_due(now) {
            Some(
                AppEventView::Image(
                    ImageView::SwapImageId(
                        self.frames[(self.current_frame + 1) % (self.frames.len() as int)].id,
                    ),
                ),
            )
        } else {
            None
        }
    }

    /// `after` is this pipeline once the job for `path` has delivered
    /// `decoded` at `now`, and `event` is what it reports.
    ///
    /// A job that is not the one under way changes nothing. A job that
    /// failed, or that delivers no frame that can be played, ends without a
    /// new image. Otherwise the frames of the old image are taken out of
    /// the registry, the frames that can be played are registered in their
    /// order, the first of them is on display since `now`, and the event
    /// reports it with the file it came from.
    pub open spec fn finished(
        self,
        path: Seq<char>,
        decoded: Option<Seq<DecodedFrame>>,
        now: u64,
        after: ImageSystemView,
        event: Option<AppEventView>,
    ) -> bool {
        if !self.decoding(path) {
            after == self && event is None
        } else {
            let file = self.in_flight->Some_0;
            let animated = is_animated(file);
            let picks = match decoded {
                Some(frames) => usable(frames, animated),
                None => Seq::empty(),
            };
            if picks.len() == 0 {
                after == (ImageSystemView { in_flight: None, ..self }) && event is None
            } else {
                let frames = decoded->Some_0;
                &&& after.frames.len() == picks.len()
                &&& forall|j: int|
                    0 <= j < picks.len() ==> {
                        &&& (#[trigger] after.frames[j]).w == frames[picks[j]].w
                        &&& after.frames[j].h == frames[picks[j]].h
                        &&& after.frames[j].delay == frame_delay(frames[picks[j]], animated)
                    }
                &&& after.textures == registered_all(
                    released_all(self.textures, frame_ids(self.frames)),
                    after.frames,
                )
                &&& after.current_frame == 0
                &&& after.last_update == now
                &&& after.in_flight is None
                &&& event == Some(
                    AppEventView::Image(
                        ImageView::Loaded {
                            id: after.frames[0].id,
                            w: after.frames[0].w,
                            h: after.frames[0].h,
                            file,
                        },
                    ),
                )
            }
        }
    }
}

impl ImageSystemView {
    /// The pipeline after the requests to load a file among `events` have
    /// been taken in their order.
    pub open spec fn asked(self, events: Seq<AppEventView>) -> ImageSystemView
        decreases events.len(),
    {
        if events.len() == 0 {
            self
        } else {
            let before = self.asked(events.drop_last());
            match events.last() {
                AppEventView::Load(file) => before.requested(file),
                _ => before,
            }
        }
    }

    /// The job to start after the requests among `events`: the one that the
    /// last request started which was not for the path under way.
    pub open spec fn job_after(self, events: Seq<AppEventView>) -> Option<(FileView, bool)>
        decreases events.len(),
    {
        if events.len() == 0 {
            None
        } else {
            let before = self.asked(events.drop_last());
            let earlier = self.job_after(events.drop_last());
            match events.last() {
                AppEventView::Load(file) => match before.request_for(file) {
                    Some(job) => Some(job),
                    None => earlier,
                },
                _ => earlier,
            }
        }
    }

    /// `released` and `registered` are what the host is told about the
    /// registry when a job has delivered `decoded`, the pipeline has become
    /// `after` and reports `event`: nothing without a new image, and else
    /// the handles of the old frames and, for each new frame, its handle and
    /// its place among the decoded frames.
    pub open spec fn reported(
        self,
        decoded: Option<Seq<DecodedFrame>>,
        after: ImageSystemView,
        event: Option<AppEventView>,
        released: Seq<Id>,
        registered: Seq<Registered>,
    ) -> bool {
        if event is None {
            released.len() == 0 && registered.len() == 0
        } else {
            &&& released == frame_ids(self.frames)
            &&& registered.len() == after.frames.len()
            &&& forall|j: int|
                0 <= j < registered.len() ==> (#[trigger] registered[j]).id == after.frames[j].id
                    && registered[j].frame == usable(
                    decoded->Some_0,
                    is_animated(self.in_flight->Some_0),
                )[j]
        }
    }

    /// `after` is this pipeline once it has looked for a finished job at
    /// `now`, and `event` is what it reports: as `finished` says if a job
    /// has delivered, and nothing new if none has.
    pub open spec fn polled(
        self,
        delivered: Option<(Seq<char>, Option<Seq<DecodedFrame>>)>,
        now: u64,
        after: ImageSystemView,
        event: Option<AppEventView>,
    ) -> bool {
        match delivered {
            Some((path, decoded)) => self.finished(path, decoded, now, after, event),
            None => after == self && event is None,
        }
    }
}

/// A job that was abandoned for another file reports nothing when it
/// delivers, whatever it delivers, and the job for the other file stays
/// under way.
pub proof fn lemma_abandoned_job_reports_nothing(
    pipeline: ImageSystemView,
    first: FileView,
    second: FileView,
    decoded: Option<Seq<DecodedFrame>>,
    now: u64,
    after: ImageSystemView,
    event: Option<AppEventView>,
)
    requires
        first.path != second.path,
        pipeline.requested(first).requested(second).finished(first.path, decoded, now, after, event),
    ensures
        event is None,
        after == pipeline.requested(first).requested(second),
        after.decoding(second.path),
{
}

/// A second request for the file that is being decoded starts no job and
/// changes nothing.
pub proof fn lemma_repeated_request_is_ignored(pipeline: ImageSystemView, file: FileView)
    ensures
        pipeline.requested(file).requested(file) == pipeline.requested(file),
        pipeline.requested(file).request_for(file) is None,
{
}

/// An image with fewer than two frames never changes its frame.
pub proof fn lemma_still_image_never_swaps(pipeline: ImageSystemView, now: u64)
    requires
        pipeline.frames.len() < 2,
    ensures
        pipeline.ticked(now) == pipeline,
        pipeline.tick_event(now) is None,
        pipeline.time_to_next_update(now) is None,
{
}

} // verus!
