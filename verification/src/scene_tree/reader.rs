//! The channel that carries scene-tree messages from the engine's callbacks to the ECS.

use crossbeam_channel::{Receiver, Sender};
use parking_lot::Mutex;
use vstd::prelude::*;

use crate::scene_tree::message::SceneTreeMessage;

verus! {

/// The receiving end of a channel, `crossbeam_channel::Receiver`. It is only carried through.
#[verifier::external_type_specification]
#[verifier::external_body]
#[verifier::reject_recursive_types(T)]
pub struct ExReceiver<T>(crossbeam_channel::Receiver<T>);

/// The sending end of a channel, `crossbeam_channel::Sender`. It is only carried through.
#[verifier::external_type_specification]
#[verifier::external_body]
#[verifier::reject_recursive_types(T)]
pub struct ExSender<T>(crossbeam_channel::Sender<T>);

/// The raw lock behind `parking_lot::Mutex`.
#[verifier::external_type_specification]
#[verifier::external_body]
pub struct ExRawMutex(parking_lot::RawMutex);

/// The mutex type behind `parking_lot::Mutex`. It is only carried through.
#[verifier::external_type_specification]
#[verifier::external_body]
#[verifier::reject_recursive_types(R)]
#[verifier::reject_recursive_types(T)]
pub struct ExMutex<R, T: ?Sized>(parking_lot::lock_api::Mutex<R, T>);

/// The receiver that `crossbeam_channel::unbounded` opens a channel with, beside this sender.
pub uninterp spec fn other_end(sender: Sender<SceneTreeMessage>) -> Receiver<SceneTreeMessage>;

/// Opens a channel without a bound with `crossbeam_channel::unbounded`. It is claimed that the two
/// ends are those of one channel. What passes between them is up to the threads that hold them.
#[verifier::external_body]
fn unbounded_channel() -> (r: (Sender<SceneTreeMessage>, Receiver<SceneTreeMessage>))
    ensures
        r.1 == other_end(r.0),
{
    crossbeam_channel::unbounded()
}

/// The lock that `parking_lot::Mutex::new` puts around a receiver.
pub uninterp spec fn locked(receiver: Receiver<SceneTreeMessage>) -> Mutex<Receiver<SceneTreeMessage>>;

/// Puts a receiver behind a lock with `parking_lot::Mutex::new`. It is claimed that the lock is made
/// from this receiver and nothing else. What comes out of it later is not visible here.
#[verifier::external_body]
fn lock_receiver(receiver: Receiver<SceneTreeMessage>) -> (r: Mutex<Receiver<SceneTreeMessage>>)
    ensures
        r == locked(receiver),
{
    parking_lot::Mutex::new(receiver)
}

/// Takes the messages that are waiting with `crossbeam_channel::Receiver::try_iter`, under the
/// lock of `parking_lot::Mutex::lock`. Nothing is claimed of them: how many are waiting, and
/// which, is up to the threads that send.
#[verifier::external_body]
fn take_waiting(receiver: &Mutex<Receiver<SceneTreeMessage>>) -> (r: Vec<SceneTreeMessage>) {
    receiver.lock().try_iter().collect()
}

/// The receiving end of the channel that scene-tree messages come through. The lock makes it fit
/// to be shared between threads.
pub struct SceneTreeMessageReader(pub Mutex<Receiver<SceneTreeMessage>>);

impl SceneTreeMessageReader {
    /// A reader of the channel that this receiver belongs to: the receiver behind a lock of its own.
    pub fn new(receiver: Receiver<SceneTreeMessage>) -> (r: SceneTreeMessageReader)
        ensures
            r.0 == locked(receiver),
    {
        SceneTreeMessageReader(lock_receiver(receiver))
    }
}

/// Move the messages of a batch behind those that are queued already, in their order, and say how
/// many they were.
pub fn write_batch(queue: &mut Vec<SceneTreeMessage>, batch: Vec<SceneTreeMessage>) -> (count:
    usize)
    ensures
        final(queue)@ == old(queue)@ + batch@,
        count == batch@.len(),
{
    let mut batch = batch;
    let count: usize = batch.len();
    queue.append(&mut batch);
    count
}

/// Move the messages that are waiting behind those that are queued already, and say how many they
/// were. Which ones they are is up to the threads that send.
pub fn write_scene_tree_messages(
    reader: &SceneTreeMessageReader,
    queue: &mut Vec<SceneTreeMessage>,
) -> (count: usize)
    ensures
        final(queue)@.len() == old(queue)@.len() + count,
        final(queue)@.take(old(queue)@.len() as int) == old(queue)@,
{
    let waiting = take_waiting(&reader.0);
    let ghost before = queue@;
    let count: usize = write_batch(queue, waiting);
    assert(queue@.take(before.len() as int) =~= before);
    count
}

/// Open the channel for a scene-tree watcher: the end that the watcher sends through, and the reader
/// of what is sent there. Where there is a watcher already, it and its channel are left alone.
pub fn register_scene_tree_watcher(has_watcher: bool) -> (r: Option<
    (Sender<SceneTreeMessage>, SceneTreeMessageReader),
>)
    ensures
        r is None <==> has_watcher,
        r matches Some((sender, reader)) ==> reader.0 == locked(other_end(sender)),
{
    if has_watcher {
        return None;
    }
    let (sender, receiver) = unbounded_channel();
    Some((sender, SceneTreeMessageReader::new(receiver)))
}

} // verus!
