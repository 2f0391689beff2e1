//! The frames of an image: as a decoder delivers them, and as the pipeline
//! plays them.

use vstd::prelude::*;
use conrod_core::image::Id;

verus! {

/// A frame that is registered as a texture.
#[derive(Debug, Copy, Clone)]
pub struct FrameData {
    /// The handle of the texture.
    pub id: Id,
    pub w: u32,
    pub h: u32,
    /// How long the frame is shown, in milliseconds.
    pub delay: u64,
}

/// A frame as the decoder delivers it.
#[derive(Debug, Copy, Clone)]
pub struct DecodedFrame {
    pub w: u32,
    pub h: u32,
    /// How long the frame is to be shown, in hundredths of a second.
    pub delay: u16,
    /// Whether a texture could be made of the frame's pixels.
    pub has_texture: bool,
}

/// A frame that the pipeline registered: its place among the decoded frames
/// and the handle it got.
#[derive(Debug, Copy, Clone)]
pub struct Registered {
    pub frame: usize,
    pub id: Id,
}

/// The delay of a frame in milliseconds: a hundredth of a second is ten of
/// them. The one frame of a still image has no delay.
pub open spec fn frame_delay(frame: DecodedFrame, animated: bool) -> u64 {
    if animated {
        (frame.delay * 10) as u64
    } else {
        0
    }
}

/// Whether a decoded frame can be played: it has a texture and, in an
/// animated image, a delay.
pub open spec fn playable(frame: DecodedFrame, animated: bool) -> bool {
    frame.has_texture && (animated ==> frame.delay != 0)
}

/// The places of the decoded frames that are played, in their order: every
/// playable frame of an animated image, and the first frame of a still
/// image if it is playable.
pub open spec fn usable(decoded: Seq<DecodedFrame>, animated: bool) -> Seq<int>
    decreases decoded.len(),
{
    if decoded.len() == 0 {
        Seq::empty()
    } else {
        let last = decoded.len() - 1;
        let before = usable(decoded.drop_last(), animated);
        if playable(decoded.last(), animated) && (animated || last == 0) {
            before.push(last)
        } else {
            before
        }
    }
}

/// The places that `usable` gives are places of decoded frames that are
/// playable, in rising order.
pub proof fn lemma_usable(decoded: Seq<DecodedFrame>, animated: bool)
    ensures
        usable(decoded, animated).len() <= decoded.len(),
        forall|j: int|
            0 <= j < usable(decoded, animated).len() ==> 0 <= (#[trigger] usable(
                decoded,
                animated,
            )[j]) < decoded.len() && playable(decoded[usable(decoded, animated)[j]], animated),
        forall|i: int, j: int|
            0 <= i < j < usable(decoded, animated).len() ==> usable(decoded, animated)[i]
                < usable(decoded, animated)[j],
        !animated ==> usable(decoded, animated).len() <= 1,
    decreases decoded.len(),
{
    if decoded.len() > 0 {
        let rest = decoded.drop_last();
        lemma_usable(rest, animated);
        let before = usable(rest, animated);
        assert forall|j: int| 0 <= j < before.len() implies decoded[before[j]] == rest[before[j]] by {
        }
    }
}

/// Picks the decoded frames that are played.
pub fn usable_frames(decoded: &Vec<DecodedFrame>, animated: bool) -> (r: Vec<usize>)
    ensures
        r@.map_values(|i: usize| i as int) == usable(decoded@, animated),
{
    let mut picks: Vec<usize> = Vec::new();
    let n = decoded.len();
    let mut i: usize = 0;
    while i < n
        invariant
            i <= n,
            n == decoded@.len(),
            picks@.map_values(|i: usize| i as int) == usable(decoded@.take(i as int), animated),
        decreases n - i,
    {
        let frame = decoded[i];
        proof {
            let upto = decoded@.take(i + 1);
            assert(upto.drop_last() =~= decoded@.take(i as int));
        }
        if frame.has_texture && (!animated || frame.delay != 0) && (animated || i == 0) {
            picks.push(i);
        }
        i = i + 1;
    }
    assert(decoded@.take(n as int) =~= decoded@);
    picks
}

} // verus!
