//! Outbound frames: the items carried on a session's delivery queue.

use vstd::prelude::*;

verus! {

/// One item on a session's outbound delivery queue: either a text payload to
/// deliver to the client, or a terminal signal telling the outbound pump
/// that no further frames will follow.
#[derive(Debug, PartialEq, Eq)]
pub enum OutboundFrame {
    Text(String),
    Terminate,
}

/// The mathematical model of an outbound frame: the payload as a character
/// sequence.
pub enum FrameModel {
    Text(Seq<char>),
    Terminate,
}

impl View for OutboundFrame {
    type V = FrameModel;

    open spec fn view(&self) -> FrameModel {
        match self {
            OutboundFrame::Text(s) => FrameModel::Text(s@),
            OutboundFrame::Terminate => FrameModel::Terminate,
        }
    }
}

} // verus!
