//! Handles on the frames of a storage, one kind for each stage of a frame's life.
//!
//! A handle names a frame by its place. The storage that the frame lives in is handed to each
//! operation.
use crate::frame::{FrameState, PduFrame};
use crate::storage::PduStorageRef;
use crate::Error;
use core::task::Waker;
use vstd::prelude::*;

verus! {

/// Length of a packet.
pub const PACKET_LEN: usize = 16;

/// A frame, named by its place in the storage, whatever the size of its buffer.
#[derive(Debug)]
pub struct FrameBox {
    pub frame: usize,
}

impl FrameBox {
    /// Stores the waker of the task that waits for the frame, in place of any stored before.
    pub fn replace_waker<const DATA: usize>(
        &self,
        storage: &mut PduStorageRef<'_, DATA>,
        waker: Waker,
    )
        requires
            old(storage).wf(),
            self.frame < old(storage)@.slots.len(),
        ensures
            final(storage).wf(),
            final(storage)@ == old(storage)@.with_waker(self.frame as int, Some(waker)),
            final(final(storage).frames)@ == final(old(storage).frames)@,
    {
        storage.element_mut(self.frame).replace_waker(waker);
    }

    /// Takes the stored waker out, if there is one.
    pub fn take_waker<const DATA: usize>(&self, storage: &mut PduStorageRef<'_, DATA>) -> (waker:
        Option<Waker>)
        requires
            old(storage).wf(),
            self.frame < old(storage)@.slots.len(),
        ensures
            final(storage).wf(),
            waker == old(storage)@.slots[self.frame as int].frame.waker,
            final(storage)@ == old(storage)@.with_waker(self.frame as int, None),
            final(final(storage).frames)@ == final(old(storage).frames)@,
    {
        storage.element_mut(self.frame).take_waker()
    }

    /// The header of the frame.
    pub fn frame<'s, const DATA: usize>(&self, storage: &'s PduStorageRef<'_, DATA>) -> (frame:
        &'s PduFrame)
        requires
            storage.wf(),
            self.frame < storage@.slots.len(),
        ensures
            frame@ == storage@.slots[self.frame as int].frame,
    {
        storage.element(self.frame).frame()
    }

    /// The header of the frame, to be changed. The storage is as it should be afterwards if the
    /// length still fits the buffer and the lock of the waker is free.
    pub fn frame_mut<'s, const DATA: usize>(
        &self,
        storage: &'s mut PduStorageRef<'_, DATA>,
    ) -> (frame: &'s mut PduFrame)
        requires
            old(storage).wf(),
            self.frame < old(storage)@.slots.len(),
        ensures
            frame@ == old(storage)@.slots[self.frame as int].frame,
            final(storage)@ == old(storage)@.with_slot(
                self.frame as int,
                old(storage)@.slots[self.frame as int].with_frame(final(frame)@),
            ),
            final(frame)@.len <= old(storage)@.data_len && final(frame)@.unlocked
                ==> final(storage).wf(),
            final(final(storage).frames)@ == final(old(storage).frames)@,
    {
        storage.element_mut(self.frame).frame_mut()
    }

    /// The header of the frame, and its data.
    pub fn frame_and_buf<'s, const DATA: usize>(
        &self,
        storage: &'s PduStorageRef<'_, DATA>,
    ) -> (parts: (&'s PduFrame, &'s [u8]))
        requires
            storage.wf(),
            self.frame < storage@.slots.len(),
        ensures
            parts.0@ == storage@.slots[self.frame as int].frame,
            parts.1@ == storage@.slots[self.frame as int].data(),
    {
        (self.frame(storage), self.buf(storage))
    }

    /// The header of the frame, and its data, both to be changed. The storage is as it should be
    /// afterwards if the length still fits the buffer and the lock of the waker is free.
    pub fn frame_and_buf_mut<'s, const DATA: usize>(
        &mut self,
        storage: &'s mut PduStorageRef<'_, DATA>,
    ) -> (parts: (&'s mut PduFrame, &'s mut [u8]))
        requires
            old(storage).wf(),
            old(self).frame < old(storage)@.slots.len(),
        ensures
            *final(self) == *old(self),
            parts.0@ == old(storage)@.slots[old(self).frame as int].frame,
            parts.1@ == old(storage)@.slots[old(self).frame as int].data(),
            final(storage)@ == old(storage)@.with_slot(
                old(self).frame as int,
                old(storage)@.slots[old(self).frame as int].with_data(final(parts.1)@).with_frame(
                    final(parts.0)@,
                ),
            ),
            final(parts.0)@.len <= old(storage)@.data_len && final(parts.0)@.unlocked
                && final(parts.1)@.len() == parts.1@.len() ==> final(storage).wf(),
            final(final(storage).frames)@ == final(old(storage).frames)@,
    {
        storage.element_mut(self.frame).frame_and_buf_mut()
    }

    /// The data of the frame.
    pub fn buf<'s, const DATA: usize>(&self, storage: &'s PduStorageRef<'_, DATA>) -> (buf:
        &'s [u8])
        requires
            storage.wf(),
            self.frame < storage@.slots.len(),
        ensures
            buf@ == storage@.slots[self.frame as int].data(),
    {
        storage.element(self.frame).buf()
    }

    /// The data of the frame, to be changed.
    pub fn buf_mut<'s, const DATA: usize>(
        &mut self,
        storage: &'s mut PduStorageRef<'_, DATA>,
    ) -> (buf: &'s mut [u8])
        requires
            old(storage).wf(),
            old(self).frame < old(storage)@.slots.len(),
        ensures
            *final(self) == *old(self),
            buf@ == old(storage)@.slots[old(self).frame as int].data(),
            final(storage)@ == old(storage)@.with_slot(
                old(self).frame as int,
                old(storage)@.slots[old(self).frame as int].with_data(final(buf)@),
            ),
            final(buf)@.len() == buf@.len() ==> final(storage).wf(),
            final(final(storage).frames)@ == final(old(storage).frames)@,
    {
        storage.element_mut(self.frame).buf_mut()
    }

    /// Puts the frame in a state, whatever state it is in.
    fn set_state<const DATA: usize>(
        &self,
        storage: &mut PduStorageRef<'_, DATA>,
        state: FrameState,
    )
        requires
            old(storage).wf(),
            self.frame < old(storage)@.slots.len(),
        ensures
            final(storage).wf(),
            final(storage)@ == old(storage)@.in_state(self.frame as int, state),
            final(final(storage).frames)@ == final(old(storage).frames)@,
    {
        storage.element_mut(self.frame).set_state(state);
    }
}

/// A frame that has been allocated, and is being filled.
#[derive(Debug)]
pub struct CreatedFrame {
    inner: FrameBox,
}

impl CreatedFrame {
    /// The place of the frame in the storage.
    pub closed spec fn slot(&self) -> nat {
        self.inner.frame as nat
    }

    /// A handle on an allocated frame.
    pub(crate) fn new(inner: FrameBox) -> (frame: CreatedFrame)
        ensures
            frame.slot() == inner.frame,
    {
        CreatedFrame { inner }
    }

    /// Hands the frame over to the sender. What comes back waits for the reply.
    pub fn mark_sendable<const DATA: usize>(
        self,
        storage: &mut PduStorageRef<'_, DATA>,
    ) -> (fut: ReceiveFrameFut)
        requires
            old(storage).wf(),
            self.slot() < old(storage)@.slots.len(),
        ensures
            final(storage).wf(),
            final(storage)@ == old(storage)@.in_state(self.slot() as int, FrameState::Sendable),
            fut.slot() == Some(self.slot()),
            fut.polls() == 0,
            final(final(storage).frames)@ == final(old(storage).frames)@,
    {
        self.inner.set_state(storage, FrameState::Sendable);
        ReceiveFrameFut { frame: Some(self.inner), count: 0 }
    }
}

/// A frame that the sender has picked up.
#[derive(Debug)]
pub struct SendableFrame {
    inner: FrameBox,
}

impl SendableFrame {
    /// The place of the frame in the storage.
    pub closed spec fn slot(&self) -> nat {
        self.inner.frame as nat
    }

    /// A frame to be sent.
    pub fn new(inner: FrameBox) -> (frame: SendableFrame)
        ensures
            frame.slot() == inner.frame,
    {
        SendableFrame { inner }
    }

    /// Marks the frame as sent.
    pub fn mark_sent<const DATA: usize>(self, storage: &mut PduStorageRef<'_, DATA>)
        requires
            old(storage).wf(),
            self.slot() < old(storage)@.slots.len(),
        ensures
            final(storage).wf(),
            final(storage)@ == old(storage)@.in_state(self.slot() as int, FrameState::Sending),
            final(final(storage).frames)@ == final(old(storage).frames)@,
    {
        self.inner.set_state(storage, FrameState::Sending);
    }

    /// Records how the attempt to send the frame ended. A frame that was not sent stays with the
    /// sender.
    pub fn complete<const DATA: usize>(
        self,
        storage: &mut PduStorageRef<'_, DATA>,
        sent: Result<(), ()>,
    ) -> (res: Result<(), Error>)
        requires
            old(storage).wf(),
            self.slot() < old(storage)@.slots.len(),
        ensures
            final(storage).wf(),
            res is Ok <==> sent is Ok,
            res matches Err(error) ==> error == Error::SendFailed,
            final(storage)@ == if sent is Ok {
                old(storage)@.in_state(self.slot() as int, FrameState::Sending)
            } else {
                old(storage)@
            },
            final(final(storage).frames)@ == final(old(storage).frames)@,
    {
        match sent {
            Ok(_) => {
                self.mark_sent(storage);
                Ok(())
            },
            Err(_) => Err(Error::SendFailed),
        }
    }

    /// Writes the packet of the frame to the start of a buffer: its index, over and over.
    pub fn write_ethernet_packet<'buf, const DATA: usize>(
        &self,
        storage: &PduStorageRef<'_, DATA>,
        buf: &'buf mut [u8],
    ) -> (res: Result<&'buf [u8], Error>)
        requires
            storage.wf(),
            self.slot() < storage@.slots.len(),
        ensures
            res is Ok <==> old(buf)@.len() >= PACKET_LEN,
            res matches Err(error) ==> error == Error::BufferTooShort && final(buf)@ == old(buf)@,
            res matches Ok(packet) ==> {
                &&& packet@ == packet_of(storage@.slots[self.slot() as int].frame.index)
                &&& packet@.len() == 16
                &&& forall|j: int|
                    0 <= j < 16 ==> #[trigger] packet@[j]
                        == storage@.slots[self.slot() as int].frame.index
                &&& final(buf)@ == packet@ + old(buf)@.skip(PACKET_LEN as int)
            },
    {
        if buf.len() < PACKET_LEN {
            return Err(Error::BufferTooShort);
        }
        let index: u8 = self.inner.frame(storage).index;

        let (chunk, _rest) = buf.split_at_mut(PACKET_LEN);
        let mut i: usize = 0;
        while i < PACKET_LEN
            invariant
                i <= PACKET_LEN,
                chunk@.len() == PACKET_LEN,
                forall|j: int| 0 <= j < i ==> chunk@[j] == index,
            decreases PACKET_LEN - i,
        {
            chunk[i] = index;
            i += 1;
        }
        assert(chunk@ =~= packet_of(index));
        Ok(chunk)
    }
}

/// The packet of a frame of this index.
pub open spec fn packet_of(index: u8) -> Seq<u8> {
    Seq::new(PACKET_LEN as nat, |i: int| index)
}

/// A frame whose reply is being taken in.
#[derive(Debug)]
pub struct ReceivingFrame {
    inner: FrameBox,
}

impl ReceivingFrame {
    /// The place of the frame in the storage.
    pub closed spec fn slot(&self) -> nat {
        self.inner.frame as nat
    }

    /// A handle on a frame whose reply has come.
    pub(crate) fn new(inner: FrameBox) -> (frame: ReceivingFrame)
        ensures
            frame.slot() == inner.frame,
    {
        ReceivingFrame { inner }
    }

    /// Completes the frame and wakes the task that waits for it. It is an error if none does,
    /// possibly because it has given up; the frame then stays as it is.
    pub fn mark_received<const DATA: usize>(self, storage: &mut PduStorageRef<'_, DATA>) -> (res:
        Result<(), Error>)
        requires
            old(storage).wf(),
            self.slot() < old(storage)@.slots.len(),
        ensures
            final(storage).wf(),
            res is Ok <==> old(storage)@.slots[self.slot() as int].frame.waker is Some,
            res matches Err(error) ==> error == Error::InvalidFrameState,
            final(storage)@ == old(storage)@.after_received(self.slot() as int),
            final(storage)@.slots[self.slot() as int].buffer
                == old(storage)@.slots[self.slot() as int].buffer,
            final(storage)@.slots[self.slot() as int].frame.len
                == old(storage)@.slots[self.slot() as int].frame.len,
            final(storage)@.slots[self.slot() as int].frame.index
                == old(storage)@.slots[self.slot() as int].frame.index,
            forall|i: int|
                0 <= i < old(storage)@.slots.len() && i != self.slot()
                    ==> #[trigger] final(storage)@.slots[i] == old(storage)@.slots[i],
            final(final(storage).frames)@ == final(old(storage).frames)@,
    {
        let waker = match self.inner.take_waker(storage) {
            Some(waker) => waker,
            None => {
                assert(storage@ =~= old(storage)@);
                return Err(Error::InvalidFrameState);
            },
        };

        self.inner.set_state(storage, FrameState::RxDone);

        storage.woken.wake(waker, &*storage.frames);

        Ok(())
    }

    /// The data of the frame, to be changed.
    pub fn buf_mut<'s, const DATA: usize>(
        &mut self,
        storage: &'s mut PduStorageRef<'_, DATA>,
    ) -> (buf: &'s mut [u8])
        requires
            old(storage).wf(),
            old(self).slot() < old(storage)@.slots.len(),
        ensures
            *final(self) == *old(self),
            buf@ == old(storage)@.slots[old(self).slot() as int].data(),
            final(storage)@ == old(storage)@.with_slot(
                old(self).slot() as int,
                old(storage)@.slots[old(self).slot() as int].with_data(final(buf)@),
            ),
            final(buf)@.len() == buf@.len() ==> final(storage).wf(),
            final(final(storage).frames)@ == final(old(storage).frames)@,
    {
        self.inner.buf_mut(storage)
    }

    /// Gives the frame up: it is free again.
    pub fn reset_readable<const DATA: usize>(self, storage: &mut PduStorageRef<'_, DATA>)
        requires
            old(storage).wf(),
            self.slot() < old(storage)@.slots.len(),
        ensures
            final(storage).wf(),
            final(storage)@ == old(storage)@.in_state(self.slot() as int, FrameState::Free),
            final(final(storage).frames)@ == final(old(storage).frames)@,
    {
        self.inner.set_state(storage, FrameState::Free);
    }
}

/// How far a frame that is waited for has come.
#[derive(Debug)]
pub enum FramePoll {
    /// The wait is over.
    Ready(Result<ReceivedFrame, Error>),
    /// The waker that was left will tell.
    Pending,
}

/// The wait for the reply to a frame.
pub struct ReceiveFrameFut {
    frame: Option<FrameBox>,
    count: usize,
}

impl ReceiveFrameFut {
    /// The place of the frame that is waited for, until the wait is over.
    pub closed spec fn slot(&self) -> Option<nat> {
        match self.frame {
            Some(inner) => Some(inner.frame as nat),
            None => None,
        }
    }

    /// How often the frame has been asked for.
    pub closed spec fn polls(&self) -> nat {
        self.count as nat
    }

    /// How often the frame has been asked for.
    pub fn count(&self) -> (count: usize)
        ensures
            count == self.polls(),
    {
        self.count
    }

    /// Asks for the reply. While the frame is on its way, a clone of `waker` is left with it.
    pub fn poll<const DATA: usize>(
        &mut self,
        storage: &mut PduStorageRef<'_, DATA>,
        waker: &Waker,
    ) -> (res: FramePoll)
        requires
            old(storage).wf(),
            old(self).slot() matches Some(slot) ==> slot < old(storage)@.slots.len(),
            old(self).polls() < usize::MAX,
        ensures
            final(storage).wf(),
            final(self).polls() == old(self).polls() + 1,
            final(final(storage).frames)@ == final(old(storage).frames)@,
            match old(self).slot() {
                None => {
                    &&& res == FramePoll::Ready(Err(Error::NoFrame))
                    &&& final(self).slot() is None
                    &&& final(storage)@ == old(storage)@
                },
                Some(slot) => match old(storage)@.slots[slot as int].status {
                    FrameState::RxDone => {
                        &&& res matches FramePoll::Ready(Ok(frame)) && frame.slot() == slot
                        &&& final(self).slot() is None
                        &&& final(storage)@ == old(storage)@.in_state(
                            slot as int,
                            FrameState::RxProcessing,
                        )
                    },
                    FrameState::Sendable | FrameState::Sending => {
                        &&& res is Pending
                        &&& final(self).slot() == Some(slot)
                        &&& exists|left: Waker|
                            #![trigger old(storage)@.with_waker(slot as int, Some(left))]
                            cloned(*waker, left) && final(storage)@ == old(storage)@.with_waker(
                                slot as int,
                                Some(left),
                            )
                    },
                    _ => {
                        &&& res == FramePoll::Ready(Err(Error::InvalidFrameState))
                        &&& final(self).slot() is None
                        &&& final(storage)@ == old(storage)@
                    },
                },
            },
    {
        self.count += 1;

        let rxin = match self.frame.take() {
            Some(r) => r,
            None => return FramePoll::Ready(Err(Error::NoFrame)),
        };

        let swappy = storage.element_mut(rxin.frame).swap_state(
            FrameState::RxDone,
            FrameState::RxProcessing,
        );
        let was = match swappy {
            Ok(_) => return FramePoll::Ready(Ok(ReceivedFrame { inner: rxin })),
            Err(e) => e,
        };
        assert(storage@ =~= old(storage)@);

        match was {
            FrameState::Sendable | FrameState::Sending => {
                let left = waker.clone();
                let ghost left_view = left;
                rxin.replace_waker(storage, left);
                assert(storage@ == old(storage)@.with_waker(rxin.frame as int, Some(left_view)));

                self.frame = Some(rxin);

                FramePoll::Pending
            },
            _ => FramePoll::Ready(Err(Error::InvalidFrameState)),
        }
    }
}

/// A frame whose reply is there to be read.
///
/// It does not borrow the storage, which can be used while the frame is read. So it takes
/// [`ReceivedFrame::release`] to give the frame back: one that goes out of scope stays taken.
#[derive(Debug)]
#[must_use]
pub struct ReceivedFrame {
    inner: FrameBox,
}

impl ReceivedFrame {
    /// The place of the frame in the storage.
    pub closed spec fn slot(&self) -> nat {
        self.inner.frame as nat
    }

    /// Length of the packet.
    pub fn len(&self) -> (len: usize)
        ensures
            len == PACKET_LEN,
    {
        PACKET_LEN
    }

    /// The data of the reply.
    pub fn deref<'s, const DATA: usize>(&self, storage: &'s PduStorageRef<'_, DATA>) -> (buf:
        &'s [u8])
        requires
            storage.wf(),
            self.slot() < storage@.slots.len(),
        ensures
            buf@ == storage@.slots[self.slot() as int].data(),
    {
        self.inner.buf(storage)
    }

    /// Gives the frame back: it is free again.
    pub fn release<const DATA: usize>(self, storage: &mut PduStorageRef<'_, DATA>)
        requires
            old(storage).wf(),
            self.slot() < old(storage)@.slots.len(),
        ensures
            final(storage).wf(),
            final(storage)@ == old(storage)@.in_state(self.slot() as int, FrameState::Free),
            final(final(storage).frames)@ == final(old(storage).frames)@,
    {
        self.inner.set_state(storage, FrameState::Free);
    }
}

} // verus!
