use super::{Body, BodyView, Frame, FrameView};
use vstd::prelude::*;

verus! {

/// A CANCEL frame, which has no body.
#[derive(Debug, PartialEq, Eq)]
pub struct Cancel {}

/// Builds a CANCEL frame.
pub struct CancelBuilder {
    stream_id: u32,
    flag: u16,
}

impl View for CancelBuilder {
    type V = (u32, u16);

    closed spec fn view(&self) -> (u32, u16) {
        (self.stream_id, self.flag)
    }
}

impl CancelBuilder {
    /// The frame built.
    pub fn build(self) -> (f: Frame)
        ensures
            f@ == (FrameView { stream_id: self@.0, body: BodyView::Cancel, flag: self@.1 }),
    {
        Frame::new(self.stream_id, Body::Cancel(), self.flag)
    }
}

impl Cancel {
    /// A builder of a CANCEL frame with this stream id and these flags.
    pub fn builder(stream_id: u32, flag: u16) -> (b: CancelBuilder)
        ensures
            b@ == (stream_id, flag),
    {
        CancelBuilder { stream_id, flag }
    }
}

} // verus!
