//! Frames: their states, their headers and the elements that a storage is made of.
use crate::waker::{held, lock_new, lock_try_write, unlocked};
use crate::Error;
use core::task::Waker;
use vstd::prelude::*;

verus! {

/// Where a frame is in its life.
#[derive(Clone, Copy, Debug, PartialEq, Eq, Structural)]
pub enum FrameState {
    /// The element is free.
    Free,
    /// Allocated, and being filled.
    Created,
    /// Ready for the sender to pick up.
    Sendable,
    /// Picked up by the sender; its reply is awaited.
    Sending,
    /// Its reply is being taken in.
    RxBusy,
    /// Its reply has been taken in.
    RxDone,
    /// Its reply is in the hands of the one who waited for it.
    RxProcessing,
}

impl FrameState {
    /// Whether a frame in this state can be in `next` after one step of its life. The states
    /// follow one another round; a frame whose reply is being taken in can also be given up.
    pub open spec fn leads_to(self, next: FrameState) -> bool {
        match self {
            FrameState::Free => next == FrameState::Created,
            FrameState::Created => next == FrameState::Sendable,
            FrameState::Sendable => next == FrameState::Sending,
            FrameState::Sending => next == FrameState::RxBusy,
            FrameState::RxBusy => next == FrameState::RxDone || next == FrameState::Free,
            FrameState::RxDone => next == FrameState::RxProcessing,
            FrameState::RxProcessing => next == FrameState::Free,
        }
    }
}

impl Default for FrameState {
    fn default() -> (state: FrameState)
        ensures
            state == FrameState::Free,
    {
        FrameState::Free
    }
}

/// What a [`PduFrame`] holds.
#[verifier::ext_equal]
pub struct FrameView {
    /// Length of the data.
    pub len: nat,
    /// Index of the packet.
    pub index: u8,
    /// The waker of the task that waits for the reply.
    pub waker: Option<Waker>,
    /// Whether the lock of the waker is free.
    pub unlocked: bool,
}

/// The header of a frame.
#[derive(Debug)]
pub struct PduFrame {
    /// Data length.
    pub len: usize,
    /// Index of the packet.
    pub index: u8,
    /// The waker of the task that waits for the reply.
    pub waker: spin::RwLock<Option<Waker>>,
}

impl View for PduFrame {
    type V = FrameView;

    open spec fn view(&self) -> FrameView {
        FrameView {
            len: self.len as nat,
            index: self.index,
            waker: held(self.waker),
            unlocked: unlocked(self.waker),
        }
    }
}

impl PduFrame {
    /// A header for `len` bytes of data, with no waker.
    fn new(index: u8, len: usize) -> (frame: PduFrame)
        ensures
            frame@ == (FrameView { len: len as nat, index, waker: None, unlocked: true }),
    {
        PduFrame { len, index, waker: lock_new(None) }
    }
}

/// What a [`FrameElement`] holds.
#[verifier::ext_equal]
pub struct ElementView {
    /// The header.
    pub frame: FrameView,
    /// The state.
    pub status: FrameState,
    /// The data buffer, whole.
    pub buffer: Seq<u8>,
}

impl ElementView {
    /// The data fits the buffer, which is `capacity` bytes long, and the lock of the waker is
    /// free.
    pub open spec fn wf(self, capacity: nat) -> bool {
        &&& self.buffer.len() == capacity
        &&& self.frame.len <= capacity
        &&& self.frame.unlocked
    }

    /// A free element of `capacity` bytes, as a new storage holds it.
    pub open spec fn vacant(capacity: nat) -> ElementView {
        ElementView {
            frame: FrameView { len: 0, index: 0, waker: None, unlocked: true },
            status: FrameState::Free,
            buffer: Seq::new(capacity, |i: int| 0u8),
        }
    }

    /// The same element in another state.
    pub open spec fn in_state(self, status: FrameState) -> ElementView {
        ElementView { status, ..self }
    }

    /// The element moved from one state to another, if it is in the first.
    pub open spec fn swapped(self, from: FrameState, to: FrameState) -> ElementView {
        if self.status == from {
            self.in_state(to)
        } else {
            self
        }
    }

    /// The same element with another header.
    pub open spec fn with_frame(self, frame: FrameView) -> ElementView {
        ElementView { frame, ..self }
    }

    /// The same element with another waker, or none.
    pub open spec fn with_waker(self, waker: Option<Waker>) -> ElementView {
        self.with_frame(FrameView { waker, ..self.frame })
    }

    /// The element prepared for `len` bytes of data, all of them zero. The rest of the buffer is
    /// as it was.
    pub open spec fn initialised(self, index: u8, len: nat) -> ElementView {
        ElementView {
            frame: FrameView { len, index, waker: None, unlocked: true },
            status: self.status,
            buffer: Seq::new(len, |i: int| 0u8) + self.buffer.skip(len as int),
        }
    }

    /// The data: the part of the buffer that the header's length covers.
    pub open spec fn data(self) -> Seq<u8> {
        self.buffer.take(self.frame.len as int)
    }

    /// The same element with other data of the same length.
    pub open spec fn with_data(self, data: Seq<u8>) -> ElementView {
        ElementView { buffer: data + self.buffer.skip(self.frame.len as int), ..self }
    }
}

/// An individual frame state, PDU header config, and data buffer.
#[derive(Debug)]
pub struct FrameElement<const N: usize> {
    frame: PduFrame,
    status: FrameState,
    buffer: [u8; N],
}

impl<const N: usize> View for FrameElement<N> {
    type V = ElementView;

    closed spec fn view(&self) -> ElementView {
        ElementView { frame: self.frame@, status: self.status, buffer: self.buffer@ }
    }
}

impl<const N: usize> FrameElement<N> {
    /// A free element.
    pub(crate) fn vacant() -> (element: FrameElement<N>)
        ensures
            element@ == ElementView::vacant(N as nat),
    {
        let element = FrameElement {
            frame: PduFrame::new(0, 0),
            status: FrameState::Free,
            buffer: [0u8; N],
        };
        assert(element@.buffer =~= Seq::new(N as nat, |i: int| 0u8));
        element
    }

    /// The state.
    pub(crate) fn state(&self) -> (state: FrameState)
        ensures
            state == self@.status,
    {
        self.status
    }

    /// Puts the element in a state, whatever state it is in.
    pub(crate) fn set_state(&mut self, state: FrameState)
        ensures
            final(self)@ == old(self)@.in_state(state),
    {
        self.status = state;
    }

    /// Moves the element from one state to another, if it is in the first. Otherwise the error is
    /// the state that it is in, and stays in.
    pub(crate) fn swap_state(&mut self, from: FrameState, to: FrameState) -> (res: Result<
        (),
        FrameState,
    >)
        ensures
            res is Ok <==> old(self)@.status == from,
            res matches Err(was) ==> was == old(self)@.status,
            final(self)@ == old(self)@.swapped(from, to),
    {
        if self.status == from {
            self.status = to;
            Ok(())
        } else {
            Err(self.status)
        }
    }

    /// Attempt to claim a frame element as CREATED. Succeeds if the selected FrameElement is
    /// currently in the FREE state.
    pub fn claim_created(&mut self) -> (res: Result<(), Error>)
        ensures
            res is Ok <==> old(self)@.status == FrameState::Free,
            res matches Err(error) ==> error == Error::SwapState,
            final(self)@ == old(self)@.swapped(FrameState::Free, FrameState::Created),
    {
        match self.swap_state(FrameState::Free, FrameState::Created) {
            Ok(_) => Ok(()),
            Err(_) => Err(Error::SwapState),
        }
    }

    /// Attempt to claim a frame element as SENDING. Succeeds if it is currently in the SENDABLE
    /// state.
    pub fn claim_sending(&mut self) -> (claimed: Option<()>)
        ensures
            claimed is Some <==> old(self)@.status == FrameState::Sendable,
            final(self)@ == old(self)@.swapped(FrameState::Sendable, FrameState::Sending),
    {
        self.swap_state(FrameState::Sendable, FrameState::Sending).ok()
    }

    /// Attempt to claim a frame element as RX_BUSY. Succeeds if it is currently in the SENDING
    /// state.
    pub fn claim_receiving(&mut self) -> (claimed: Option<()>)
        ensures
            claimed is Some <==> old(self)@.status == FrameState::Sending,
            final(self)@ == old(self)@.swapped(FrameState::Sending, FrameState::RxBusy),
    {
        self.swap_state(FrameState::Sending, FrameState::RxBusy).ok()
    }

    /// Prepares the element for `len` bytes of data, which are set to zero.
    pub(crate) fn initialise(&mut self, index: u8, len: usize)
        requires
            len <= N,
        ensures
            final(self)@ == old(self)@.initialised(index, len as nat),
    {
        self.frame = PduFrame::new(index, len);

        let mut i: usize = 0;
        while i < len
            invariant
                i <= len <= N,
                self.frame@ == (FrameView {
                    len: len as nat,
                    index,
                    waker: None,
                    unlocked: true,
                }),
                self.status == old(self).status,
                forall|j: int| 0 <= j < i ==> self.buffer@[j] == 0u8,
                forall|j: int| i <= j < N ==> self.buffer@[j] == old(self).buffer@[j],
            decreases len - i,
        {
            self.buffer[i] = 0;
            i += 1;
        }
        assert(self@.buffer =~= old(self)@.initialised(index, len as nat).buffer);
    }

    /// Stores the waker of the task that waits for the reply, in place of any stored before.
    pub(crate) fn replace_waker(&mut self, waker: Waker)
        requires
            old(self)@.frame.unlocked,
        ensures
            final(self)@ == old(self)@.with_waker(Some(waker)),
    {
        let was = lock_try_write(&mut self.frame.waker, Some(waker));
        was.expect("Contention replace_waker");
    }

    /// Takes the stored waker out, if there is one.
    pub(crate) fn take_waker(&mut self) -> (waker: Option<Waker>)
        requires
            old(self)@.frame.unlocked,
        ensures
            waker == old(self)@.frame.waker,
            final(self)@ == old(self)@.with_waker(None),
    {
        let was = lock_try_write(&mut self.frame.waker, None);
        was.expect("Contention take_waker")
    }

    /// The header.
    pub(crate) fn frame(&self) -> (frame: &PduFrame)
        ensures
            frame@ == self@.frame,
    {
        &self.frame
    }

    /// The header, to be changed.
    pub(crate) fn frame_mut(&mut self) -> (frame: &mut PduFrame)
        ensures
            frame@ == old(self)@.frame,
            final(self)@ == old(self)@.with_frame(final(frame)@),
    {
        &mut self.frame
    }

    /// The data.
    pub(crate) fn buf(&self) -> (buf: &[u8])
        requires
            self@.wf(N as nat),
        ensures
            buf@ == self@.data(),
    {
        vstd::slice::slice_subrange(self.buffer.as_slice(), 0, self.frame.len)
    }

    /// The data, to be changed.
    pub(crate) fn buf_mut(&mut self) -> (buf: &mut [u8])
        requires
            old(self)@.wf(N as nat),
        ensures
            buf@ == old(self)@.data(),
            final(self)@ == old(self)@.with_data(final(buf)@),
    {
        let (buf, _rest) = self.buffer.split_at_mut(self.frame.len);
        buf
    }

    /// The header and the data, both to be changed.
    pub(crate) fn frame_and_buf_mut(&mut self) -> (parts: (&mut PduFrame, &mut [u8]))
        requires
            old(self)@.wf(N as nat),
        ensures
            parts.0@ == old(self)@.frame,
            parts.1@ == old(self)@.data(),
            final(self)@ == old(self)@.with_data(final(parts.1)@).with_frame(final(parts.0)@),
    {
        let len: usize = self.frame.len;
        let (buf, _rest) = self.buffer.split_at_mut(len);
        (&mut self.frame, buf)
    }
}

} // verus!
