//! The image pipeline: which file is being decoded, which frames are
//! registered as textures, and which of them is on display.
//!
//! Decoding happens outside. The pipeline hands out the request to decode a
//! file, takes the decoded frames when they are ready, and plays them by
//! the clock that the host reads.

use vstd::prelude::*;
use conrod_core::image::Id;
use crate::data::file::{File, FileView};
use crate::support::clock::elapsed_between;
use crate::support::path::ExtensionIs;
use crate::support::sequence::optional;
use crate::systems::event_system::EventSystem;
use crate::systems::events::{event_views, AppEvent, AppEventView, Image};
use crate::systems::frames::{lemma_usable, playable, usable, frame_delay};
use crate::systems::pipeline::{
    frame_ids, lemma_registered_all_contains, registered_all, released_all, ImageSystemView,
};
use crate::systems::textures::{no_textures, texture_at, textures, TextureMap};

pub use crate::systems::frames::{usable_frames, DecodedFrame, FrameData, Registered};

verus! {

/// The request to decode a file in the background.
#[derive(Debug)]
pub struct DecodeRequest {
    pub file: File,
    /// Whether the file is of the format that can hold several frames.
    pub animated: bool,
}

/// What a decoding job delivers: the path of the file and its frames, or no
/// frames if the file could not be read or decoded.
#[derive(Debug)]
pub struct DecodeResult {
    pub path: String,
    pub frames: Option<Vec<DecodedFrame>>,
}

/// What the host has to do after an update of the pipeline.
#[derive(Debug)]
pub struct PipelineActions {
    /// The decoding job to start. Any job started earlier is abandoned.
    pub start: Option<DecodeRequest>,
    /// The handles that are no longer registered.
    pub released: Vec<Id>,
    /// The frames of the finished job that are now registered.
    pub registered: Vec<Registered>,
}

/// The image pipeline.
pub struct ImageSystem {
    image_map: TextureMap,
    frames: Vec<FrameData>,
    current_frame: usize,
    last_update: u64,
    in_flight: Option<File>,
}

/// What a job delivered as the contracts speak of it, if one delivered.
pub open spec fn delivery(finished: Option<DecodeResult>) -> Option<
    (Seq<char>, Option<Seq<DecodedFrame>>),
> {
    match finished {
        Some(result) => Some(
            (
                result.path@,
                match result.frames {
                    Some(frames) => Some(frames@),
                    None => None,
                },
            ),
        ),
        None => None,
    }
}

/// The job of a request as the contracts speak of it, if there is one.
pub open spec fn job_view(request: Option<DecodeRequest>) -> Option<(FileView, bool)> {
    match request {
        Some(request) => Some((request.file@, request.animated)),
        None => None,
    }
}

/// The event of an option as the contracts speak of it.
pub open spec fn event_view(event: Option<AppEvent>) -> Option<AppEventView> {
    match event {
        Some(event) => Some(event@),
        None => None,
    }
}

impl View for ImageSystem {
    type V = ImageSystemView;

    closed spec fn view(&self) -> ImageSystemView {
        ImageSystemView {
            textures: textures(self.image_map),
            frames: self.frames@,
            current_frame: self.current_frame as int,
            last_update: self.last_update,
            in_flight: match self.in_flight {
                Some(file) => Some(file@),
                None => None,
            },
        }
    }
}

impl ImageSystem {
    /// A pipeline without an image.
    pub fn new() -> (r: ImageSystem)
        ensures
            r@.wf(),
            r@.textures == no_textures(),
            r@.frames.len() == 0,
            r@.current_frame == 0,
            r@.last_update == 0,
            r@.in_flight is None,
    {
        ImageSystem {
            image_map: TextureMap::new(),
            frames: Vec::new(),
            current_frame: 0,
            last_update: 0,
            in_flight: None,
        }
    }

    /// The registry of textures.
    pub fn get_map(&self) -> (r: &TextureMap)
        ensures
            textures(*r) == self@.textures,
    {
        &self.image_map
    }

    /// The size registered under a handle, if there is one.
    pub fn texture_size(&self, id: Id) -> (r: Option<(u32, u32)>)
        ensures
            r == texture_at(self@.textures, id),
    {
        self.image_map.get(id)
    }

    /// The frame on display, if an image is loaded.
    pub fn current(&self) -> (r: Option<FrameData>)
        ensures
            r == self@.current(),
    {
        if self.current_frame < self.frames.len() {
            Some(self.frames[self.current_frame])
        } else {
            None
        }
    }

    /// How long the frame on display still has at `now`, in milliseconds.
    pub fn time_to_next_update(&self, now: u64) -> (r: Option<u64>)
        requires
            self@.wf(),
        ensures
            r == self@.time_to_next_update(now),
    {
        if self.frames.len() < 2 {
            return None;
        }
        let frame = &self.frames[self.current_frame];
        let diff = elapsed_between(self.last_update, now);
        if frame.delay >= diff {
            Some(frame.delay - diff)
        } else {
            Some(0)
        }
    }

    /// Registers a texture that belongs to no image, such as an icon, and
    /// returns its handle.
    pub fn load_resource_image(&mut self, size: (u32, u32)) -> (id: Id)
        requires
            old(self)@.wf(),
        ensures
            final(self)@.wf(),
            final(self)@ == (ImageSystemView {
                textures: old(self)@.textures.insert(id, size),
                ..old(self)@
            }),
    {
        self.image_map.insert(size)
    }

    /// Takes the request to load `file`. Returns the job to start, or
    /// nothing if a job for that path is under way.
    pub fn load_file(&mut self, file: &File) -> (r: Option<DecodeRequest>)
        ensures
            final(self)@ == old(self)@.requested(file@),
            old(self)@.wf() ==> final(self)@.wf(),
            job_view(r) == old(self)@.request_for(file@),
    {
        let under_way = match &self.in_flight {
            Some(current) => current.path == file.path,
            None => false,
        };
        if under_way {
            None
        } else {
            self.in_flight = Some(file.clone());
            Some(DecodeRequest { file: file.clone(), animated: file.extension_is("gif") })
        }
    }

    /// Takes the frames of the image on display out of the registry and
    /// returns their handles.
    fn unload_image(&mut self) -> (released: Vec<Id>)
        ensures
            released@ == frame_ids(old(self)@.frames),
            final(self)@ == (ImageSystemView {
                textures: released_all(old(self)@.textures, frame_ids(old(self)@.frames)),
                frames: Seq::empty(),
                current_frame: 0,
                ..old(self)@
            }),
    {
        let mut released: Vec<Id> = Vec::new();
        let n = self.frames.len();
        let mut i: usize = 0;
        while i < n
            invariant
                i <= n,
                n == self.frames@.len(),
                self.frames == old(self).frames,
                self.current_frame == old(self).current_frame,
                self.last_update == old(self).last_update,
                self.in_flight == old(self).in_flight,
                released@ == frame_ids(self.frames@).take(i as int),
                textures(self.image_map) == released_all(
                    textures(old(self).image_map),
                    frame_ids(self.frames@).take(i as int),
                ),
            decreases n - i,
        {
            let id = self.frames[i].id;
            self.image_map.remove(id);
            released.push(id);
            proof {
                let upto = frame_ids(self.frames@).take(i + 1);
                assert(upto.drop_last() =~= frame_ids(self.frames@).take(i as int));
                assert(upto.last() == id);
            }
            i = i + 1;
        }
        self.frames = Vec::new();
        self.current_frame = 0;
        released
    }

    /// Takes what a decoding job delivers at `now`, a time in milliseconds.
    /// Returns the event that reports the new image, if there is one, the
    /// handles that are no longer registered and the frames that are.
    pub fn finish_load(&mut self, result: DecodeResult, now: u64) -> (r: (
        Option<AppEvent>,
        Vec<Id>,
        Vec<Registered>,
    ))
        requires
            old(self)@.wf(),
        ensures
            final(self)@.wf(),
            old(self)@.polled(delivery(Some(result)), now, final(self)@, event_view(r.0)),
            old(self)@.reported(
                delivery(Some(result))->Some_0.1,
                final(self)@,
                event_view(r.0),
                r.1@,
                r.2@,
            ),
    {
        let accepted = match &self.in_flight {
            Some(file) => file.path == result.path,
            None => false,
        };
        if !accepted {
            return (None, Vec::new(), Vec::new());
        }
        let file = match self.in_flight.take() {
            Some(file) => file,
            None => {
                return (None, Vec::new(), Vec::new());
            },
        };
        let animated = file.extension_is("gif");
        let decoded = match result.frames {
            Some(frames) => frames,
            None => {
                return (None, Vec::new(), Vec::new());
            },
        };
        let picks = usable_frames(&decoded, animated);
        if picks.len() == 0 {
            return (None, Vec::new(), Vec::new());
        }
        proof {
            lemma_usable(decoded@, animated);
        }
        let ghost chosen = usable(decoded@, animated);
        let released = self.unload_image();
        let ghost base = textures(self.image_map);
        let mut registered: Vec<Registered> = Vec::new();
        let n = picks.len();
        let mut j: usize = 0;
        while j < n
            invariant
                j <= n,
                n == picks@.len(),
                n > 0,
                picks@.map_values(|i: usize| i as int) == chosen,
                chosen == usable(decoded@, animated),
                forall|k: int|
                    0 <= k < chosen.len() ==> 0 <= (#[trigger] chosen[k]) < decoded@.len()
                        && playable(decoded@[chosen[k]], animated),
                self.frames@.len() == j,
                registered@.len() == j,
                self.current_frame == 0,
                self.last_update == old(self).last_update,
                self.in_flight is None,
                textures(self.image_map) == registered_all(base, self.frames@),
                forall|k: int|
                    0 <= k < j ==> {
                        &&& (#[trigger] self.frames@[k]).w == decoded@[chosen[k]].w
                        &&& self.frames@[k].h == decoded@[chosen[k]].h
                        &&& self.frames@[k].delay == frame_delay(decoded@[chosen[k]], animated)
                    },
                forall|k: int|
                    0 <= k < j ==> (#[trigger] registered@[k]).id == self.frames@[k].id
                        && registered@[k].frame == chosen[k],
            decreases n - j,
        {
            let at = picks[j];
            assert(chosen[j as int] == at);
            let frame = decoded[at];
            let delay: u64 = if animated {
                (frame.delay as u64) * 10
            } else {
                0
            };
            let ghost before = self.frames@;
            let id = self.image_map.insert((frame.w, frame.h));
            self.frames.push(FrameData { id, w: frame.w, h: frame.h, delay });
            registered.push(Registered { frame: at, id });
            proof {
                assert(self.frames@.drop_last() =~= before);
            }
            j = j + 1;
        }
        self.last_update = now;
        let first = self.frames[0];
        let event = AppEvent::Image(Image::Loaded { id: first.id, w: first.w, h: first.h, file });
        proof {
            lemma_registered_all_contains(base, self.frames@);
            assert forall|i: int| 0 <= i < self.frames@.len() && self.frames@.len()
                > 1 implies (#[trigger] self.frames@[i]).delay > 0 by {
            }
        }
        (Some(event), released, registered)
    }

    /// Shows the next frame at `now`, a time in milliseconds, if the
    /// current one has been shown for its time. Returns the event that
    /// reports the change.
    pub fn advance(&mut self, now: u64) -> (r: Option<AppEvent>)
        requires
            old(self)@.wf(),
        ensures
            final(self)@.wf(),
            final(self)@ == old(self)@.ticked(now),
            event_view(r) == old(self)@.tick_event(now),
    {
        if self.frames.len() > 1 {
            let diff = elapsed_between(self.last_update, now);
            let frame = &self.frames[self.current_frame];
            if frame.delay <= diff {
                self.current_frame = (self.current_frame + 1) % self.frames.len();
                self.last_update = now;
                let cur = &self.frames[self.current_frame];
                return Some(AppEvent::Image(Image::SwapImageId(cur.id)));
            }
        }
        None
    }

    /// Runs the pipeline for one frame at `now`, a time in milliseconds:
    /// takes the requests to load a file among the current events of the
    /// bus, then what a decoding job delivered, if one has finished, and
    /// then lets the clock show the next frame if it is due. What the
    /// pipeline reports goes to the bus, for the next frame.
    pub fn update(&mut self, events: &mut EventSystem, finished: Option<DecodeResult>, now: u64) -> (r:
        PipelineActions)
        requires
            old(self)@.wf(),
        ensures
            final(self)@.wf(),
            job_view(r.start) == old(self)@.job_after(old(events)@.current),
            exists|mid: ImageSystemView, loaded: Option<AppEventView>|
                #![trigger old(self)@.asked(old(events)@.current).polled(delivery(finished), now, mid, loaded)]
                old(self)@.asked(old(events)@.current).polled(delivery(finished), now, mid, loaded)
                    && final(self)@ == mid.ticked(now) && final(events)@ == old(
                    events,
                )@.pushed_all(optional(loaded) + optional(mid.tick_event(now))) && (match delivery(
                    finished,
                ) {
                    Some((_, decoded)) => old(self)@.asked(old(events)@.current).reported(
                        decoded,
                        mid,
                        loaded,
                        r.released@,
                        r.registered@,
                    ),
                    None => r.released@.len() == 0 && r.registered@.len() == 0,
                }),
    {
        let mut start: Option<DecodeRequest> = None;
        let ghost all = events@.current;
        let current = events.events();
        let n = current.len();
        let mut i: usize = 0;
        while i < n
            invariant
                i <= n,
                n == current@.len(),
                all == event_views(current@),
                self@.wf(),
                self@ == old(self)@.asked(all.take(i as int)),
                job_view(start) == old(self)@.job_after(all.take(i as int)),
            decreases n - i,
        {
            proof {
                let upto = all.take(i + 1);
                assert(upto.drop_last() =~= all.take(i as int));
            }
            match &current[i] {
                AppEvent::Load(file) => {
                    match self.load_file(file) {
                        Some(request) => {
                            start = Some(request);
                        },
                        None => {},
                    }
                },
                _ => {},
            }
            i = i + 1;
        }
        assert(all.take(n as int) =~= all);
        let ghost asked = self@;
        let mut new_events: Vec<AppEvent> = Vec::new();
        let mut released: Vec<Id> = Vec::new();
        let mut registered: Vec<Registered> = Vec::new();
        let ghost mut loaded: Option<AppEventView> = None;
        match finished {
            Some(result) => {
                let (event, gone, made) = self.finish_load(result, now);
                proof {
                    loaded = event_view(event);
                }
                released = gone;
                registered = made;
                match event {
                    Some(event) => {
                        new_events.push(event);
                    },
                    None => {},
                }
            },
            None => {},
        }
        let ghost mid = self@;
        assert(asked.polled(delivery(finished), now, mid, loaded));
        match self.advance(now) {
            Some(event) => {
                new_events.push(event);
            },
            None => {},
        }
        assert(event_views(new_events@) =~= optional(loaded) + optional(mid.tick_event(now)));
        events.push_all(new_events);
        PipelineActions { start, released, registered }
    }
}

} // verus!
