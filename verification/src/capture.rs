//! The decisions of the capture thread.
//!
//! The thread itself opens the interface and reads frames; what it does with
//! each outcome is decided here. A frame that yields no pair is skipped and
//! capture goes on. Anything that keeps frames from coming is fatal: the
//! thread stops and reports it.

use crate::classifier::{classify, handle_ethernet_frame, EndpointPair, FrameError};
use vstd::prelude::*;

verus! {

/// What ends the capture thread.
#[derive(Clone, Copy, Debug, PartialEq, Eq, Structural)]
pub enum CaptureError {
    /// No interface has the name that was asked for.
    InterfaceNotFound,
    /// The capture channel could not be opened, or is not an Ethernet channel.
    CaptureChannelOpenFailure,
    /// Reading from the open channel failed.
    FrameReadError,
}

impl CaptureError {
    /// The line that reports the error. The caller may add the interface's
    /// name or the system's own message behind it.
    pub fn describe(&self) -> (line: &'static str)
        ensures
            line@ == match *self {
                CaptureError::InterfaceNotFound => "No such network interface"@,
                CaptureError::CaptureChannelOpenFailure => "unable to create channel"@,
                CaptureError::FrameReadError => "unable to receive packet"@,
            },
    {
        match self {
            CaptureError::InterfaceNotFound => "No such network interface",
            CaptureError::CaptureChannelOpenFailure => "unable to create channel",
            CaptureError::FrameReadError => "unable to receive packet",
        }
    }
}

/// How the attempt to open a capture channel ended.
#[derive(Clone, Copy, Debug, PartialEq, Eq, Structural)]
pub enum ChannelOutcome {
    /// An Ethernet channel is open.
    Ethernet,
    /// A channel of another kind came back.
    Unhandled,
    /// The system refused.
    Failed,
}

/// What one read from the channel gave.
pub enum CaptureEvent<'a> {
    /// A frame arrived.
    Frame(&'a [u8]),
    /// The read failed.
    ReadFailed,
}

/// What the capture thread does next.
#[derive(Debug, PartialEq, Eq)]
pub enum CaptureAction {
    /// Send the pair to the engine and read on.
    Send(EndpointPair),
    /// Drop the frame and read on.
    Skip(FrameError),
    /// Stop and report.
    Stop(CaptureError),
}

/// `name` is the first of `names` that equals `wanted`: it stands at `index`
/// and no earlier name is equal.
pub open spec fn is_first_match(names: Seq<String>, wanted: Seq<char>, index: int) -> bool {
    &&& 0 <= index < names.len()
    &&& names[index]@ == wanted
    &&& forall|j: int| 0 <= j < index ==> (#[trigger] names[j])@ != wanted
}

/// The index of the first interface called `wanted` among the interfaces'
/// names, and `InterfaceNotFound` if none is called so.
pub fn find_interface(names: &Vec<String>, wanted: &String) -> (r: Result<usize, CaptureError>)
    ensures
        match r {
            Ok(index) => is_first_match(names@, wanted@, index as int),
            Err(e) => e == CaptureError::InterfaceNotFound && forall|j: int|
                0 <= j < names@.len() ==> (#[trigger] names@[j])@ != wanted@,
        },
{
    let mut i: usize = 0;
    while i < names.len()
        invariant
            i <= names@.len(),
            forall|j: int| 0 <= j < i ==> (#[trigger] names@[j])@ != wanted@,
        decreases names@.len() - i,
    {
        if names[i].eq(wanted) {
            return Ok(i);
        }
        i = i + 1;
    }
    Err(CaptureError::InterfaceNotFound)
}

/// Whether capture can start on what opening the channel gave: only on an
/// Ethernet channel.
pub fn check_channel(outcome: ChannelOutcome) -> (r: Result<(), CaptureError>)
    ensures
        r.is_ok() <==> outcome == ChannelOutcome::Ethernet,
        r matches Err(e) ==> e == CaptureError::CaptureChannelOpenFailure,
{
    match outcome {
        ChannelOutcome::Ethernet => Ok(()),
        ChannelOutcome::Unhandled => Err(CaptureError::CaptureChannelOpenFailure),
        ChannelOutcome::Failed => Err(CaptureError::CaptureChannelOpenFailure),
    }
}

/// What to do after one read: a frame is classified, and its pair sent or the
/// frame skipped; a failed read stops the thread.
pub fn on_capture_event(event: CaptureEvent) -> (action: CaptureAction)
    ensures
        match action {
            CaptureAction::Send(pair) => event matches CaptureEvent::Frame(frame) && classify(
                frame@,
            ) == Ok::<(Seq<char>, Seq<char>), FrameError>(pair@),
            CaptureAction::Skip(e) => event matches CaptureEvent::Frame(frame) && classify(frame@)
                == Err::<(Seq<char>, Seq<char>), FrameError>(e),
            CaptureAction::Stop(e) => event is ReadFailed && e == CaptureError::FrameReadError,
        },
{
    match event {
        CaptureEvent::Frame(frame) => match handle_ethernet_frame(frame) {
            Ok(pair) => CaptureAction::Send(pair),
            Err(e) => CaptureAction::Skip(e),
        },
        CaptureEvent::ReadFailed => CaptureAction::Stop(CaptureError::FrameReadError),
    }
}

} // verus!
