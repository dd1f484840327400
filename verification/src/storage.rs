//! The storage that frames live in.
//!
//! A [`PduStorageRef`] borrows the frames. Each operation on one promises, in a clause on
//! `final(final(..).frames)`, that it keeps that borrow: what the reference holds when it is done
//! with is what the storage holds from then on.
use crate::frame::{ElementView, FrameElement, FrameState};
use crate::handle::{CreatedFrame, FrameBox, ReceivingFrame};
use crate::wakes::{FrameWakes, WakeView};
use crate::{Command, Error};
use core::task::Waker;
use vstd::prelude::*;

verus! {

/// What each of a sequence of elements holds.
pub open spec fn elements<const DATA: usize>(frames: Seq<FrameElement<DATA>>) -> Seq<ElementView> {
    frames.map_values(|element: FrameElement<DATA>| element@)
}

/// `N` frames, each with a buffer of `DATA` bytes.
pub struct PduStorage<const N: usize, const DATA: usize> {
    pub frames: Vec<FrameElement<DATA>>,
}

impl<const N: usize, const DATA: usize> View for PduStorage<N, DATA> {
    type V = Seq<ElementView>;

    open spec fn view(&self) -> Seq<ElementView> {
        elements(self.frames@)
    }
}

impl<const N: usize, const DATA: usize> PduStorage<N, DATA> {
    /// There are `N` elements, and each is as it should be.
    pub open spec fn wf(&self) -> bool {
        &&& self@.len() == N
        &&& forall|i: int| 0 <= i < N ==> (#[trigger] self@[i]).wf(DATA as nat)
    }

    /// A storage of free frames.
    pub fn new() -> (storage: Self)
        ensures
            storage.wf(),
            storage@ == StorageView::fresh(N as nat, DATA as nat).slots,
    {
        let mut frames: Vec<FrameElement<DATA>> = Vec::new();
        while frames.len() < N
            invariant
                frames@.len() <= N,
                forall|i: int|
                    0 <= i < frames@.len() ==> (#[trigger] frames@[i])@ == ElementView::vacant(
                        DATA as nat,
                    ),
            decreases N - frames@.len(),
        {
            frames.push(FrameElement::vacant());
        }
        let storage = PduStorage { frames };
        assert(storage@ =~= StorageView::fresh(N as nat, DATA as nat).slots);
        storage
    }

    /// A way to the frames for as long as the storage is borrowed. Its count of allocations
    /// starts at zero; the frames are as they are.
    pub fn as_ref<'a>(&'a mut self) -> (storage: PduStorageRef<'a, DATA>)
        requires
            old(self).wf(),
        ensures
            storage.wf(),
            storage@ == (StorageView {
                slots: old(self)@,
                idx: 0,
                data_len: DATA as nat,
                woken: Seq::empty(),
            }),
            final(storage.frames)@ == final(self).frames@,
    {
        let len: usize = self.frames.len();
        PduStorageRef {
            frames: self.frames.as_mut_slice(),
            len,
            frame_data_len: DATA,
            idx: 0,
            woken: FrameWakes::new(),
        }
    }
}

/// What a storage holds, as seen through a [`PduStorageRef`].
#[verifier::ext_equal]
pub struct StorageView {
    /// The elements.
    pub slots: Seq<ElementView>,
    /// The index that the next packet gets.
    pub idx: u8,
    /// How many bytes of data a frame has room for.
    pub data_len: nat,
    /// The wakers that were woken, the oldest first, each with what the elements held then.
    pub woken: Seq<WakeView>,
}

impl StorageView {
    /// What is seen through the first reference to a new storage of `n` frames.
    pub open spec fn fresh(n: nat, data_len: nat) -> StorageView {
        StorageView {
            slots: Seq::new(n, |i: int| ElementView::vacant(data_len)),
            idx: 0,
            data_len,
            woken: Seq::empty(),
        }
    }

    /// Each element is as it should be.
    pub open spec fn wf(self) -> bool {
        forall|i: int| 0 <= i < self.slots.len() ==> (#[trigger] self.slots[i]).wf(self.data_len)
    }

    /// The storage with one element replaced.
    pub open spec fn with_slot(self, slot: int, element: ElementView) -> StorageView {
        StorageView { slots: self.slots.update(slot, element), ..self }
    }

    /// The storage with one element in another state.
    pub open spec fn in_state(self, slot: int, status: FrameState) -> StorageView {
        self.with_slot(slot, self.slots[slot].in_state(status))
    }

    /// The storage with one element's waker replaced or removed.
    pub open spec fn with_waker(self, slot: int, waker: Option<Waker>) -> StorageView {
        self.with_slot(slot, self.slots[slot].with_waker(waker))
    }

    /// The element that the next allocation tries.
    pub open spec fn next_slot(self) -> int {
        self.idx as int % self.slots.len() as int
    }

    /// The storage once the next packet index has been handed out.
    pub open spec fn counted(self) -> StorageView {
        StorageView { idx: ((self.idx + 1) % 256) as u8, ..self }
    }

    /// The element that an allocation of `len` bytes yields, or why it yields none.
    pub open spec fn alloc_result(self, len: nat) -> Result<int, Error> {
        if len > self.data_len {
            Err(Error::DataTooLong)
        } else if self.slots[self.next_slot()].status != FrameState::Free {
            Err(Error::SwapState)
        } else {
            Ok(self.next_slot())
        }
    }

    /// The storage after an allocation of `len` bytes. Data that is too long changes nothing;
    /// otherwise an index is handed out, also where no frame is.
    pub open spec fn after_alloc(self, len: nat) -> StorageView {
        match self.alloc_result(len) {
            Ok(slot) => self.counted().with_slot(
                slot,
                self.slots[slot].in_state(FrameState::Created).initialised(self.idx, len),
            ),
            Err(Error::SwapState) => self.counted(),
            Err(_) => self,
        }
    }

    /// Whether the reply to a packet of this index is awaited.
    pub open spec fn awaits(self, index: u8) -> bool {
        index < self.slots.len() && self.slots[index as int].status == FrameState::Sending
    }

    /// The storage after the reply to a frame has been taken in: the frame is done, and then the
    /// one who waits is woken, if anyone does.
    pub open spec fn after_received(self, slot: int) -> StorageView {
        match self.slots[slot].frame.waker {
            Some(waker) => {
                let done = self.with_waker(slot, None).in_state(slot, FrameState::RxDone);
                let wake = WakeView { waker, slots: done.slots };
                StorageView { woken: self.woken.push(wake), ..done }
            },
            None => self,
        }
    }

    /// The storage once the sender has picked up every sendable frame of the first `n` elements.
    pub open spec fn after_claims(self, n: int) -> StorageView {
        StorageView {
            slots: Seq::new(
                self.slots.len(),
                |i: int|
                    if i < n && self.slots[i].status == FrameState::Sendable {
                        self.slots[i].in_state(FrameState::Sending)
                    } else {
                        self.slots[i]
                    },
            ),
            ..self
        }
    }
}

/// A way to the frames of a storage, whatever their number, and the count of allocations made by
/// it.
pub struct PduStorageRef<'a, const DATA: usize> {
    pub frames: &'a mut [FrameElement<DATA>],
    pub len: usize,
    pub frame_data_len: usize,
    pub idx: u8,
    pub woken: FrameWakes,
}

impl<'a, const DATA: usize> View for PduStorageRef<'a, DATA> {
    type V = StorageView;

    open spec fn view(&self) -> StorageView {
        StorageView {
            slots: elements(self.frames@),
            idx: self.idx,
            data_len: self.frame_data_len as nat,
            woken: self.woken@,
        }
    }
}

impl<'a, const DATA: usize> PduStorageRef<'a, DATA> {
    /// The lengths agree with the frames, and each frame is as it should be.
    pub open spec fn wf(&self) -> bool {
        &&& self.len == self.frames@.len()
        &&& self.frame_data_len == DATA
        &&& self@.wf()
    }

    /// An element.
    pub(crate) fn element(&self, slot: usize) -> (element: &FrameElement<DATA>)
        requires
            self.wf(),
            slot < self@.slots.len(),
        ensures
            element@ == self@.slots[slot as int],
            element@.wf(DATA as nat),
            self@.data_len == DATA,
    {
        assert(self@.slots[slot as int].wf(self@.data_len));
        &self.frames[slot]
    }

    /// An element, to be changed. The storage is as it should be once the element is.
    pub(crate) fn element_mut(&mut self, slot: usize) -> (element: &mut FrameElement<DATA>)
        requires
            old(self).wf(),
            slot < old(self)@.slots.len(),
        ensures
            element@ == old(self)@.slots[slot as int],
            element@.wf(DATA as nat),
            final(self)@ == old(self)@.with_slot(slot as int, final(element)@),
            final(element)@.wf(DATA as nat) ==> final(self).wf(),
            final(final(self).frames)@ == final(old(self).frames)@,
    {
        assert(self@.slots[slot as int].wf(self@.data_len));
        let ghost before = self@;
        let ghost after = *final(self);
        let element = &mut self.frames[slot];
        assert(after@.slots =~= before.slots.update(slot as int, final(element)@));
        element
    }

    /// Allocates the next frame for `data_length` bytes of data, all zero.
    pub fn alloc_frame(&mut self, _command: Command, data_length: u16) -> (res: Result<
        CreatedFrame,
        Error,
    >)
        requires
            old(self).wf(),
            data_length <= old(self)@.data_len ==> old(self)@.slots.len() > 0,
        ensures
            final(self).wf(),
            final(self)@ == old(self)@.after_alloc(data_length as nat),
            match old(self)@.alloc_result(data_length as nat) {
                Ok(slot) => res is Ok && res->Ok_0.slot() == slot,
                Err(error) => res is Err && res->Err_0 == error,
            },
            res matches Ok(frame) ==> frame.slot() == old(self)@.idx as int
                % old(self)@.slots.len() as int,
            final(final(self).frames)@ == final(old(self).frames)@,
    {
        let data_length: usize = data_length as usize;

        if data_length > self.frame_data_len {
            return Err(Error::DataTooLong);
        }
        let idx_u8: u8 = self.idx;
        self.idx = idx_u8.wrapping_add(1);

        let idx: usize = idx_u8 as usize % self.len;

        if let Err(error) = self.element_mut(idx).claim_created() {
            assert(self@ =~= old(self)@.counted());
            return Err(error);
        }
        self.element_mut(idx).initialise(idx_u8, data_length);
        assert(self@ =~= old(self)@.after_alloc(data_length as nat));

        Ok(CreatedFrame::new(FrameBox { frame: idx }))
    }

    /// Updates state from SENDING -> RX_BUSY
    pub fn get_receiving(&mut self, idx: u8) -> (res: Option<ReceivingFrame>)
        requires
            old(self).wf(),
        ensures
            final(self).wf(),
            res is Some <==> old(self)@.awaits(idx),
            res matches Some(frame) ==> frame.slot() == idx,
            final(self)@ == if old(self)@.awaits(idx) {
                old(self)@.in_state(idx as int, FrameState::RxBusy)
            } else {
                old(self)@
            },
            final(final(self).frames)@ == final(old(self).frames)@,
    {
        let idx: usize = idx as usize;

        if idx >= self.len {
            return None;
        }
        match self.element_mut(idx).claim_receiving() {
            Some(_) => Some(ReceivingFrame::new(FrameBox { frame: idx })),
            None => None,
        }
    }
}

} // verus!
