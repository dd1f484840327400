//! What is handed to a sender, and the record of it.
use crate::frame::FrameState;
use crate::handle::FrameBox;
use crate::storage::{PduStorageRef, StorageView};
use vstd::prelude::*;

verus! {

/// One frame handed to a sender.
#[verifier::ext_equal]
pub struct SendView {
    /// The place of the frame.
    pub slot: int,
    /// What the storage held.
    pub storage: StorageView,
    /// Whether the frame was sent.
    pub sent: bool,
}

/// The frames that were handed to a sender, the oldest first.
///
/// It takes no space. [`SendLog::absorb`], which takes over what a sender has on record, is the
/// only way to add to it.
pub struct SendLog {
    handed: Ghost<Seq<SendView>>,
}

impl View for SendLog {
    type V = Seq<SendView>;

    closed spec fn view(&self) -> Seq<SendView> {
        self.handed@
    }
}

impl SendLog {
    /// A record of no frames.
    pub fn new() -> (log: SendLog)
        ensures
            log@ == Seq::<SendView>::empty(),
    {
        SendLog { handed: Ghost(Seq::empty()) }
    }

    /// Takes over the record of a sender that is done with.
    pub(crate) fn absorb<F>(&mut self, sender: Sender<F>)
        ensures
            final(self)@ == old(self)@ + sender.handed(),
    {
        self.handed = Ghost(self.handed@ + sender.handed@);
    }
}

/// A function that sends frames, and the record of the frames that it was handed. It is called by
/// [`Sender::hand`] and in no other way, and each such call is on record.
pub struct Sender<F> {
    send: F,
    handed: Ghost<Seq<SendView>>,
}

impl<F> Sender<F> {
    /// The function.
    pub closed spec fn callee(&self) -> F {
        self.send
    }

    /// The frames that the function was handed, the oldest first.
    pub closed spec fn handed(&self) -> Seq<SendView> {
        self.handed@
    }

    /// A sender that calls `send`, and has been handed nothing yet.
    pub fn new(send: F) -> (sender: Sender<F>)
        ensures
            sender.callee() == send,
            sender.handed() == Seq::<SendView>::empty(),
    {
        Sender { send, handed: Ghost(Seq::empty()) }
    }

    /// Hands a frame to the function, and records it with the outcome.
    pub(crate) fn hand<'a, const DATA: usize>(
        &mut self,
        frame: &FrameBox,
        storage: &PduStorageRef<'a, DATA>,
    ) -> (sent: Result<(), ()>) where
        F: FnMut(&FrameBox, &PduStorageRef<'a, DATA>) -> Result<(), ()>,

        requires
            call_requires(old(self).callee(), (frame, storage)),
        ensures
            final(self).handed() == old(self).handed().push(
                SendView { slot: frame.frame as int, storage: storage@, sent: sent is Ok },
            ),
            final(self).callee() == old(self).callee(),
            call_ensures(old(self).callee(), (frame, storage), sent),
    {
        let sent = (self.send)(frame, storage);
        self.handed = Ghost(
            self.handed@.push(
                SendView { slot: frame.frame as int, storage: storage@, sent: sent is Ok },
            ),
        );
        sent
    }
}

/// What a sender is handed that goes round the first `n` places and sends all that it is handed:
/// the sendable frames in the order of their places, each once it has been picked up.
pub open spec fn picks(storage: StorageView, n: int) -> Seq<SendView>
    decreases n,
{
    if n <= 0 {
        Seq::empty()
    } else if storage.slots[n - 1].status == FrameState::Sendable {
        picks(storage, n - 1).push(
            SendView { slot: n - 1, storage: storage.after_claims(n), sent: true },
        )
    } else {
        picks(storage, n - 1)
    }
}

/// What a sender is handed whose first failure is the frame at `slot`.
pub open spec fn picks_until(storage: StorageView, slot: int) -> Seq<SendView> {
    picks(storage, slot).push(
        SendView { slot, storage: storage.after_claims(slot + 1), sent: false },
    )
}

} // verus!
