//! The loop that frames take: out through a sender, and back in.
use crate::frame::{ElementView, FrameState};
use crate::handle::{FrameBox, ReceiveFrameFut, ReceivedFrame, SendableFrame};
use crate::sender::{picks, picks_until, SendLog, SendView, Sender};
use crate::storage::{PduStorageRef, StorageView};
use crate::waker::{clone_of, held, lock_new, lock_read, lock_write, unlocked};
use crate::wakes::WakeView;
use crate::{Command, Error};
use core::task::Waker;
use vstd::prelude::*;

verus! {

/// What a [`PduLoop`] holds.
#[verifier::ext_equal]
pub struct LoopView {
    /// The storage.
    pub storage: StorageView,
    /// The waker of the sender.
    pub tx_waker: Option<Waker>,
    /// The frames that were handed to the sender, the oldest first.
    pub sent: Seq<SendView>,
}

impl LoopView {
    /// Whether a received packet is the reply to a frame that awaits one: its first byte is the
    /// index of the frame.
    pub open spec fn expects(self, packet: Seq<u8>) -> bool {
        packet.len() > 0 && self.storage.awaits(packet[0])
    }

    /// The loop after an expected packet has come in.
    pub open spec fn after_rx(self, packet: Seq<u8>) -> LoopView {
        let slot = packet[0] as int;
        LoopView {
            storage: self.storage.in_state(slot, FrameState::RxBusy).after_received(slot),
            ..self
        }
    }
}

/// That the sender was woken, with the elements as `slots` says, if it had left its waker, and
/// that no one else was.
pub open spec fn sender_woken(
    tx_waker: Option<Waker>,
    slots: Seq<ElementView>,
    before: Seq<WakeView>,
    after: Seq<WakeView>,
) -> bool {
    match tx_waker {
        Some(waker) => {
            &&& after.len() == before.len() + 1
            &&& after.drop_last() == before
            &&& after.last().slots == slots
            &&& cloned(waker, after.last().waker)
        },
        None => after == before,
    }
}

/// That `send`, handed the frame at `slot` of a storage that is as `storage` says, can end in
/// `Ok`, or in an error.
pub open spec fn can_end<'a, const DATA: usize, F>(
    send: F,
    slot: int,
    storage: StorageView,
    ok: bool,
) -> bool where F: FnMut(&FrameBox, &PduStorageRef<'a, DATA>) -> Result<(), ()> {
    exists|frame: FrameBox, at: PduStorageRef<'a, DATA>, sent: Result<(), ()>|
        #![trigger call_ensures(send, (&frame, &at), sent)]
        frame.frame == slot && at.wf() && at@ == storage && sent is Ok == ok && call_ensures(
            send,
            (&frame, &at),
            sent,
        )
}

/// That `send` can end as it did for each of the frames that it was handed.
pub open spec fn outcomes_of<'a, const DATA: usize, F>(send: F, handed: Seq<SendView>) -> bool where
    F: FnMut(&FrameBox, &PduStorageRef<'a, DATA>) -> Result<(), ()>,
 {
    forall|i: int|
        #![trigger handed[i]]
        0 <= i < handed.len() ==> can_end(
            send,
            handed[i].slot,
            handed[i].storage,
            handed[i].sent,
        )
}

/// That `send` can be called for each sendable frame of a storage, once it and those before it
/// have been picked up.
pub open spec fn takes_picks<'a, const DATA: usize, F>(send: F, storage: StorageView) -> bool where
    F: FnMut(&FrameBox, &PduStorageRef<'a, DATA>) -> Result<(), ()>,
 {
    forall|frame: FrameBox, at: PduStorageRef<'a, DATA>|
        frame.frame < storage.slots.len() && storage.slots[frame.frame as int].status
            == FrameState::Sendable && at.wf() && at@ == storage.after_claims(frame.frame + 1)
            ==> #[trigger] call_requires(send, (&frame, &at))
}

/// What a round of the sender does to the loop.
///
/// In a round that gets through, `send` is handed each sendable frame once, in the order of their
/// places, and no other; all of them are picked up, and a clone of `waker` is left if no waker
/// was. Otherwise the round ends with the first frame that `send` fails on, which is picked up as
/// those before it are, and no waker is left.
pub open spec fn sent_round<'a, const DATA: usize, F>(
    send: F,
    waker: Waker,
    before: LoopView,
    after: LoopView,
    res: Result<(), Error>,
) -> bool where F: FnMut(&FrameBox, &PduStorageRef<'a, DATA>) -> Result<(), ()> {
    match res {
        Ok(_) => {
            let n = before.storage.slots.len() as int;
            &&& after.sent == before.sent + picks(before.storage, n)
            &&& outcomes_of(send, picks(before.storage, n))
            &&& after.storage == before.storage.after_claims(n)
            &&& before.tx_waker is Some ==> after.tx_waker == before.tx_waker
            &&& before.tx_waker is None ==> clone_of(Some(waker), after.tx_waker)
        },
        Err(error) => {
            &&& error == Error::SendFailed
            &&& after.tx_waker == before.tx_waker
            &&& exists|slot: int|
                {
                    &&& 0 <= slot < before.storage.slots.len()
                    &&& before.storage.slots[slot].status == FrameState::Sendable
                    &&& after.sent == before.sent + #[trigger] picks_until(before.storage, slot)
                    &&& outcomes_of(send, picks(before.storage, slot))
                    &&& can_end(send, slot, after.storage, false)
                    &&& after.storage == before.storage.after_claims(slot + 1)
                }
        },
    }
}

/// The loop that frames take through a storage.
pub struct PduLoop<'a, const DATA: usize> {
    pub storage: PduStorageRef<'a, DATA>,
    pub tx_waker: spin::RwLock<Option<Waker>>,
    pub sent: SendLog,
}

impl<'a, const DATA: usize> View for PduLoop<'a, DATA> {
    type V = LoopView;

    open spec fn view(&self) -> LoopView {
        LoopView { storage: self.storage@, tx_waker: held(self.tx_waker), sent: self.sent@ }
    }
}

impl<'a, const DATA: usize> PduLoop<'a, DATA> {
    /// The storage is as it should be, and the lock of the sender's waker is free.
    pub open spec fn wf(&self) -> bool {
        &&& self.storage.wf()
        &&& unlocked(self.tx_waker)
    }

    /// A loop through a storage. The sender has not left its waker yet.
    pub fn new(storage: PduStorageRef<'a, DATA>) -> (pdu_loop: Self)
        requires
            storage.wf(),
        ensures
            pdu_loop.wf(),
            pdu_loop@ == (LoopView {
                storage: storage@,
                tx_waker: None,
                sent: Seq::empty(),
            }),
            pdu_loop.storage == storage,
    {
        PduLoop { storage, tx_waker: lock_new(None), sent: SendLog::new() }
    }

    /// Tell the packet sender there is data ready to send.
    pub fn wake_sender(&mut self)
        requires
            old(self).wf(),
        ensures
            final(self).wf(),
            sender_woken(
                old(self)@.tx_waker,
                old(self)@.storage.slots,
                old(self)@.storage.woken,
                final(self)@.storage.woken,
            ),
            old(self)@.tx_waker matches Some(waker) ==> {
                &&& final(self)@.storage.woken.len() == old(self)@.storage.woken.len() + 1
                &&& cloned(waker, final(self)@.storage.woken.last().waker)
            },
            final(self)@ == (LoopView {
                storage: StorageView {
                    woken: final(self)@.storage.woken,
                    ..old(self)@.storage
                },
                ..old(self)@
            }),
            final(final(self).storage.frames)@ == final(old(self).storage.frames)@,
    {
        if let Some(waker) = lock_read(&mut self.tx_waker) {
            self.storage.woken.wake_by_ref(&waker, &*self.storage.frames);
            assert(self@.storage.woken.drop_last() =~= old(self)@.storage.woken);
        }
    }

    /// Hands every sendable frame to `send`, in the order of their places, until one is not
    /// sent. The first sender that gets through leaves its waker.
    pub fn send_frames_blocking<F>(&mut self, waker: &Waker, send: F) -> (res: Result<
        (),
        Error,
    >) where F: FnMut(&FrameBox, &PduStorageRef<'a, DATA>) -> Result<(), ()>
        requires
            old(self).wf(),
            takes_picks(send, old(self)@.storage),
        ensures
            final(self).wf(),
            final(final(self).storage.frames)@ == final(old(self).storage.frames)@,
            sent_round(send, *waker, old(self)@, final(self)@, res),
            forall|i: int|
                0 <= i < old(self)@.storage.slots.len() ==> {
                    &&& (#[trigger] final(self)@.storage.slots[i]).frame
                        == old(self)@.storage.slots[i].frame
                    &&& final(self)@.storage.slots[i].buffer == old(self)@.storage.slots[i].buffer
                    &&& old(self)@.storage.slots[i].status != FrameState::Sendable
                        ==> final(self)@.storage.slots[i] == old(self)@.storage.slots[i]
                },
    {
        self.send_round(waker, Sender::new(send))
    }

    /// Takes a sender round the frames, which it is handed as [`PduLoop::send_frames_blocking`]
    /// says. What the loop has on record afterwards is all that the sender was handed.
    pub fn send_round<F>(&mut self, waker: &Waker, sender: Sender<F>) -> (res: Result<
        (),
        Error,
    >) where F: FnMut(&FrameBox, &PduStorageRef<'a, DATA>) -> Result<(), ()>
        requires
            old(self).wf(),
            takes_picks(sender.callee(), old(self)@.storage),
            sender.handed() == Seq::<SendView>::empty(),
        ensures
            final(self).wf(),
            final(final(self).storage.frames)@ == final(old(self).storage.frames)@,
            sent_round(sender.callee(), *waker, old(self)@, final(self)@, res),
            forall|i: int|
                0 <= i < old(self)@.storage.slots.len() ==> {
                    &&& (#[trigger] final(self)@.storage.slots[i]).frame
                        == old(self)@.storage.slots[i].frame
                    &&& final(self)@.storage.slots[i].buffer == old(self)@.storage.slots[i].buffer
                    &&& old(self)@.storage.slots[i].status != FrameState::Sendable
                        ==> final(self)@.storage.slots[i] == old(self)@.storage.slots[i]
                },
    {
        let ghost before = self@.storage;
        let ghost send = sender.callee();
        let mut hands = sender;
        assert(before.after_claims(0) =~= before);

        let mut idx: usize = 0;
        while idx < self.storage.len
            invariant
                self.wf(),
                idx <= self.storage.len,
                self.storage.len == before.slots.len(),
                self@.tx_waker == old(self)@.tx_waker,
                self@.storage == before.after_claims(idx as int),
                self@.sent == old(self)@.sent,
                hands.handed() == picks(before, idx as int),
                before == old(self)@.storage,
                send == sender.callee(),
                hands.callee() == send,
                takes_picks(send, before),
                outcomes_of(send, picks(before, idx as int)),
                final(self.storage.frames)@ == final(old(self).storage.frames)@,
            decreases self.storage.len - idx,
        {
            let claimed = self.storage.element_mut(idx).claim_sending();
            assert(self@.storage =~= before.after_claims(idx + 1));
            if claimed.is_some() {
                let frame = FrameBox { frame: idx };
                let ghost at = self.storage;
                let sent = hands.hand(&frame, &self.storage);
                assert(call_ensures(send, (&frame, &at), sent));
                assert(can_end(send, idx as int, before.after_claims(idx + 1), sent is Ok));

                let res = SendableFrame::new(frame).complete(&mut self.storage, sent);
                assert(self@.storage =~= before.after_claims(idx + 1));
                if res.is_err() {
                    assert(hands.handed() == picks_until(before, idx as int));
                    self.sent.absorb(hands);
                    return res;
                }
            }
            idx += 1;
        }
        self.sent.absorb(hands);

        if lock_read(&mut self.tx_waker).is_none() {
            lock_write(&mut self.tx_waker, Some(waker.clone()));
        }
        Ok(())
    }

    /// Sends `payload_length` zeroes to a register of every device. What comes back waits for
    /// the reply.
    pub fn pdu_broadcast_zeros(&mut self, _register: u16, payload_length: u16) -> (res: Result<
        ReceiveFrameFut,
        Error,
    >)
        requires
            old(self).wf(),
            payload_length <= old(self)@.storage.data_len ==> old(self)@.storage.slots.len() > 0,
        ensures
            final(self).wf(),
            final(self)@.tx_waker == old(self)@.tx_waker,
            final(self)@.sent == old(self)@.sent,
            final(final(self).storage.frames)@ == final(old(self).storage.frames)@,
            match old(self)@.storage.alloc_result(payload_length as nat) {
                Ok(slot) => {
                    &&& res is Ok
                    &&& res->Ok_0.slot() == Some(slot as nat)
                    &&& res->Ok_0.polls() == 0
                    &&& sender_woken(
                        old(self)@.tx_waker,
                        final(self)@.storage.slots,
                        old(self)@.storage.woken,
                        final(self)@.storage.woken,
                    )
                    &&& old(self)@.tx_waker matches Some(waker) ==> {
                        &&& final(self)@.storage.woken.len() == old(self)@.storage.woken.len() + 1
                        &&& cloned(waker, final(self)@.storage.woken.last().waker)
                    }
                    &&& final(self)@.storage == (StorageView {
                        woken: final(self)@.storage.woken,
                        ..old(self)@.storage.after_alloc(payload_length as nat).in_state(
                            slot,
                            FrameState::Sendable,
                        )
                    })
                },
                Err(error) => {
                    &&& res is Err
                    &&& res->Err_0 == error
                    &&& final(self)@.storage == old(self)@.storage.after_alloc(
                        payload_length as nat,
                    )
                },
            },
    {
        let frame = match self.storage.alloc_frame(Command::Whatever, payload_length) {
            Ok(frame) => frame,
            Err(error) => return Err(error),
        };

        // The buffer is initialised with zeroes.
        let fut = frame.mark_sendable(&mut self.storage);

        self.wake_sender();

        Ok(fut)
    }

    /// Ends a broadcast with what the wait for its reply came to. The frame of a reply is given
    /// back: it is free again.
    pub fn end_broadcast(&mut self, reply: Result<ReceivedFrame, Error>) -> (res: Result<
        (),
        Error,
    >)
        requires
            old(self).wf(),
            reply matches Ok(frame) ==> frame.slot() < old(self)@.storage.slots.len(),
        ensures
            final(self).wf(),
            res is Ok <==> reply is Ok,
            res matches Err(error) ==> error == reply->Err_0,
            final(self)@ == match reply {
                Ok(frame) => LoopView {
                    storage: old(self)@.storage.in_state(frame.slot() as int, FrameState::Free),
                    ..old(self)@
                },
                Err(_) => old(self)@,
            },
            final(final(self).storage.frames)@ == final(old(self).storage.frames)@,
    {
        match reply {
            Ok(frame) => {
                frame.release(&mut self.storage);
                Ok(())
            },
            Err(error) => Err(error),
        }
    }

    /// Whether a received packet is the reply to a frame that awaits one.
    pub fn expects(&self, ethernet_frame: &[u8]) -> (res: bool)
        requires
            self.wf(),
        ensures
            res == self@.expects(ethernet_frame@),
    {
        if ethernet_frame.len() == 0 {
            return false;
        }
        let index: usize = ethernet_frame[0] as usize;
        index < self.storage.len && self.storage.element(index).state() == FrameState::Sending
    }

    /// Takes a received packet in: wakes the task that waits for it, if any does.
    pub fn pdu_rx(&mut self, ethernet_frame: &[u8]) -> (res: Result<(), Error>)
        requires
            old(self).wf(),
            old(self)@.expects(ethernet_frame@),
        ensures
            res is Ok,
            final(self).wf(),
            final(self)@ == old(self)@.after_rx(ethernet_frame@),
            final(final(self).storage.frames)@ == final(old(self).storage.frames)@,
    {
        // A packet is just the index of its frame.
        let index: u8 = ethernet_frame[0];

        let rxin_frame = self.storage.get_receiving(index).expect("no frame awaits this packet");

        let _ = rxin_frame.mark_received(&mut self.storage);

        Ok(())
    }
}

} // verus!
