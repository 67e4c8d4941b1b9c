//! Which packets of an input a loop over one stream uses.

use vstd::prelude::*;

verus! {

/// What reading the input gave.
#[derive(Clone, Copy, Debug, PartialEq, Eq, Structural)]
pub enum ReadEvent {
    /// A packet of this stream.
    Packet { stream_index: i32 },
    /// The end of the input.
    End,
    /// A failure.
    Failed,
}

/// What follows.
#[derive(Clone, Copy, Debug, PartialEq, Eq, Structural)]
pub enum ReadAction {
    /// Decode the packet.
    Decode,
    /// Read on.
    Skip,
    /// Send the end of the input to the decoder and take what is left.
    Flush,
    /// Give up with the failure.
    Fail,
}

/// What follows a read in a loop over the stream `stream_idx`.
pub open spec fn action_of(event: ReadEvent, stream_idx: int) -> ReadAction {
    match event {
        ReadEvent::Packet { stream_index } => if stream_index == stream_idx {
            ReadAction::Decode
        } else {
            ReadAction::Skip
        },
        ReadEvent::End => ReadAction::Flush,
        ReadEvent::Failed => ReadAction::Fail,
    }
}

/// What follows a read in a loop over the stream `stream_idx`: its packets are decoded, packets of
/// other streams are passed over.
pub fn on_read(event: ReadEvent, stream_idx: usize) -> (r: ReadAction)
    ensures
        r == action_of(event, stream_idx as int),
{
    match event {
        ReadEvent::Packet { stream_index } => {
            if stream_index >= 0 && stream_index as usize == stream_idx {
                ReadAction::Decode
            } else {
                ReadAction::Skip
            }
        },
        ReadEvent::End => ReadAction::Flush,
        ReadEvent::Failed => ReadAction::Fail,
    }
}

/// A loop over a stream decodes exactly the packets of that stream, flushes at the end of the input
/// and gives up on a failure.
pub proof fn law_only_its_packets_are_decoded(index: i32, stream_idx: int)
    ensures
        action_of(ReadEvent::Packet { stream_index: index }, stream_idx) == ReadAction::Decode
            <==> index == stream_idx,
        action_of(ReadEvent::Packet { stream_index: index }, stream_idx) == ReadAction::Skip
            <==> index != stream_idx,
        action_of(ReadEvent::End, stream_idx) == ReadAction::Flush,
        action_of(ReadEvent::Failed, stream_idx) == ReadAction::Fail,
{
}

} // verus!
