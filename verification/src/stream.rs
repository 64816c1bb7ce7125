//! What a subscriber of the state stream is sent.

use vstd::prelude::*;
use vstd::string::StringExecFns;

verus! {

/// One frame of the event stream.
pub enum StreamFrame {
    /// A snapshot of the backends, serialized.
    Data(String),
    /// A remark that carries no snapshot.
    Comment(String),
}

/// The frame for what a subscriber received: the snapshot itself, or, where
/// the subscriber fell behind and snapshots were dropped, a remark that
/// marks the gap. A gap ends nothing: the stream goes on.
pub fn frame_for(received: Option<String>) -> (frame: StreamFrame)
    ensures
        match received {
            Some(snapshot) => frame == StreamFrame::Data(snapshot),
            None => frame matches StreamFrame::Comment(text) && text@ == "missed message"@,
        },
{
    match received {
        Some(snapshot) => StreamFrame::Data(snapshot),
        None => StreamFrame::Comment(String::from_str("missed message")),
    }
}

} // verus!
