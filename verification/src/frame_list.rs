//! Frame lists kept in a `SmallVec` with room for one frame inline, as most images have
//! a single frame.

use vstd::prelude::*;
use smallvec::SmallVec;
use crate::decode::{frame_data_views, DecodedFrame, FrameData};
use crate::sbmc::{frame_views, CacheFrame, FrameModel};

verus! {

/// Decoded frames, in order.
#[verifier::external_body]
pub struct FrameList {
    frames: SmallVec<[DecodedFrame; 1]>,
}

/// The frames that a `FrameList` holds, in order.
pub uninterp spec fn frame_list_items(list: FrameList) -> Seq<FrameData>;

impl FrameList {
    pub open spec fn items(&self) -> Seq<FrameData> {
        frame_list_items(*self)
    }

    /// Calls `SmallVec::new`: no frames.
    #[verifier::external_body]
    pub(crate) fn empty() -> (list: Self)
        ensures
            frame_list_items(list) == Seq::<FrameData>::empty(),
    {
        FrameList { frames: SmallVec::new() }
    }

    /// Calls `SmallVec::push`, which adds the frame at the end. It panics when the length
    /// would overflow, which the `requires` leaves out.
    #[verifier::external_body]
    pub(crate) fn push_frame(&mut self, frame: DecodedFrame)
        requires
            frame_list_items(*old(self)).len() < usize::MAX,
        ensures
            frame_list_items(*final(self)) == frame_list_items(*old(self)).push(frame@),
    {
        self.frames.push(frame)
    }

    /// Calls `SmallVec::len`.
    #[verifier::external_body]
    fn count(&self) -> (n: usize)
        ensures
            n == frame_list_items(*self).len(),
    {
        self.frames.len()
    }

    /// Calls `SmallVec::into_vec`, which keeps the frames in order.
    #[verifier::external_body]
    fn to_vec(self) -> (v: Vec<DecodedFrame>)
        ensures
            frame_data_views(v@) == frame_list_items(self),
    {
        self.frames.into_vec()
    }

    /// The number of frames.
    pub fn len(&self) -> (n: usize)
        ensures
            n == self.items().len(),
    {
        self.count()
    }

    /// The frames, in order.
    pub fn into_vec(self) -> (v: Vec<DecodedFrame>)
        ensures
            frame_data_views(v@) == self.items(),
    {
        self.to_vec()
    }
}

/// Frames read back from a cache file, in order.
#[verifier::external_body]
pub struct CacheFrameList {
    frames: SmallVec<[CacheFrame; 1]>,
}

/// The frames that a `CacheFrameList` holds, in order.
pub uninterp spec fn cache_frame_list_items(list: CacheFrameList) -> Seq<FrameModel>;

impl CacheFrameList {
    pub open spec fn items(&self) -> Seq<FrameModel> {
        cache_frame_list_items(*self)
    }

    /// Calls `SmallVec::new`: no frames.
    #[verifier::external_body]
    pub(crate) fn empty() -> (list: Self)
        ensures
            cache_frame_list_items(list) == Seq::<FrameModel>::empty(),
    {
        CacheFrameList { frames: SmallVec::new() }
    }

    /// Calls `SmallVec::push`, which adds the frame at the end. It panics when the length
    /// would overflow, which the `requires` leaves out.
    #[verifier::external_body]
    pub(crate) fn push_frame(&mut self, frame: CacheFrame)
        requires
            cache_frame_list_items(*old(self)).len() < usize::MAX,
        ensures
            cache_frame_list_items(*final(self)) == cache_frame_list_items(*old(self)).push(frame@),
    {
        self.frames.push(frame)
    }

    /// Calls `SmallVec::len`.
    #[verifier::external_body]
    fn count(&self) -> (n: usize)
        ensures
            n == cache_frame_list_items(*self).len(),
    {
        self.frames.len()
    }

    /// Calls `SmallVec::into_vec`, which keeps the frames in order.
    #[verifier::external_body]
    fn to_vec(self) -> (v: Vec<CacheFrame>)
        ensures
            frame_views(v@) == cache_frame_list_items(self),
    {
        self.frames.into_vec()
    }

    /// The number of frames.
    pub fn len(&self) -> (n: usize)
        ensures
            n == self.items().len(),
    {
        self.count()
    }

    /// The frames, in order.
    pub fn into_vec(self) -> (v: Vec<CacheFrame>)
        ensures
            frame_views(v@) == self.items(),
    {
        self.to_vec()
    }
}

} // verus!
