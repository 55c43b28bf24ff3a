//! The sending ends of the channels that the connection layer hands to the
//! dispatcher: one bounded queue of frames per connected player, and the
//! one-shot signal that releases the tick worker.

use vstd::prelude::*;
use tokio::sync::mpsc::error::TrySendError;
use tokio::sync::mpsc::Sender;
use crate::w3gs::{Frame, FrameView};

verus! {

/// `tokio::sync::mpsc::Sender`, the sending end of a bounded channel. Nothing
/// is claimed of what is inside it.
#[verifier::external_type_specification]
#[verifier::external_body]
#[verifier::reject_recursive_types(T)]
pub struct ExSender<T>(tokio::sync::mpsc::Sender<T>);

/// `tokio::sync::oneshot::Sender`, the sending end of a channel for one
/// value. Nothing is claimed of what is inside it.
#[verifier::external_type_specification]
#[verifier::external_body]
#[verifier::reject_recursive_types(T)]
pub struct ExSignal<T>(tokio::sync::oneshot::Sender<T>);

/// The frames that a queue handle has put on its channel, oldest first. What
/// the receiving side has taken off again plays no part in it, and nothing is
/// known of it for a handle that comes from elsewhere. Only `try_send_frame`
/// speaks of it.
pub uninterp spec fn pushed(tx: Sender<Frame>) -> Seq<FrameView>;

/// Why a frame did not reach a player's queue.
#[derive(Debug)]
pub enum PlayerSendError {
    NotConnected(Frame),
    Closed(Frame),
    ChannelFull,
}

/// `tokio::sync::mpsc::Sender::try_send`, which never waits. On `Ok` the
/// frame has joined the channel behind everything this handle put there
/// before. On an error the channel took nothing: it was closed, and the frame
/// comes back, or it was at capacity.
#[verifier::external_body]
pub(crate) fn try_send_frame(tx: &mut Sender<Frame>, frame: Frame) -> (r: Result<(), PlayerSendError>)
    ensures
        r is Ok ==> pushed(*final(tx)) == pushed(*old(tx)).push(frame@),
        r is Err ==> pushed(*final(tx)) == pushed(*old(tx)),
        r matches Err(e) ==> !(e is NotConnected) && (e matches PlayerSendError::Closed(f) ==> f == frame),
{
    match tx.try_send(frame) {
        Ok(()) => Ok(()),
        Err(TrySendError::Closed(frame)) => Err(PlayerSendError::Closed(frame)),
        Err(TrySendError::Full(_)) => Err(PlayerSendError::ChannelFull),
    }
}

/// `tokio::sync::oneshot::Sender::send` with the unit value. Whether the
/// receiving side was still there is not reported.
#[verifier::external_body]
pub(crate) fn fire(signal: tokio::sync::oneshot::Sender<()>) {
    signal.send(()).ok();
}

} // verus!
