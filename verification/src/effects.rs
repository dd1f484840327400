//! What each operation changes, element by element and byte by byte, and what it leaves alone.
use crate::frame::{ElementView, FrameState, FrameView, PduFrame};
use crate::handle::{packet_of, FrameBox, PACKET_LEN};
use crate::laws::{law_indices_count_up, law_picks_are_the_sendable_frames};
use crate::laws::{after_allocs, all_fit};
use crate::pdu_loop::{can_end, outcomes_of, sender_woken, sent_round, takes_picks};
use crate::pdu_loop::{LoopView, PduLoop};
use crate::sender::{picks, picks_until};
use crate::storage::{PduStorage, PduStorageRef, StorageView};
use crate::waker::{clone_of, held, unlocked};
use crate::wakes::WakeView;
use crate::Error;
use core::task::Waker;
use vstd::arithmetic::div_mod::{lemma_fundamental_div_mod, lemma_fundamental_div_mod_converse};
use vstd::arithmetic::div_mod::{lemma_mod_bound, lemma_small_mod};
use vstd::prelude::*;

verus! {

/// The view of a header is what its fields hold.
pub proof fn law_header_is_its_fields(frame: PduFrame)
    ensures
        frame@.len == frame.len,
        frame@.index == frame.index,
        frame@.waker == held(frame.waker),
        frame@.unlocked == unlocked(frame.waker),
{
}

/// The view of a reference to a storage shows its elements in their order, the index of the next
/// packet, and the wakes on record. It is as it should be if the lengths agree, every length fits
/// the buffer and every lock is free; nothing else is asked of it.
pub proof fn law_storage_is_its_elements<'a, const DATA: usize>(storage: PduStorageRef<'a, DATA>)
    ensures
        storage@.slots.len() == old(storage.frames)@.len(),
        forall|i: int|
            0 <= i < old(storage.frames)@.len() ==> #[trigger] storage@.slots[i]
                == old(storage.frames)@[i]@,
        storage@.idx == storage.idx,
        storage@.data_len == storage.frame_data_len,
        storage@.woken == storage.woken@,
        storage.wf() <==> {
            &&& storage.len == old(storage.frames)@.len()
            &&& storage.frame_data_len == DATA
            &&& forall|i: int|
                0 <= i < old(storage.frames)@.len() ==> {
                    &&& (#[trigger] old(storage.frames)@[i])@.buffer.len() == DATA
                    &&& old(storage.frames)@[i]@.frame.len <= DATA
                    &&& old(storage.frames)@[i]@.frame.unlocked
                }
        },
{
    assert forall|i: int| 0 <= i < storage.frames@.len() implies #[trigger] storage@.slots[i]
        == storage.frames@[i]@ by {}
    if storage.wf() {
        assert forall|i: int| 0 <= i < storage.frames@.len() implies {
            &&& (#[trigger] storage.frames@[i])@.buffer.len() == DATA
            &&& storage.frames@[i]@.frame.len <= DATA
            &&& storage.frames@[i]@.frame.unlocked
        } by {
            assert(storage@.slots[i].wf(storage@.data_len));
        }
    }
}

/// The view of a storage shows its elements in their order. It is as it should be if there are as
/// many as its type says, every length fits the buffer and every lock is free.
pub proof fn law_owned_storage_is_its_elements<const N: usize, const DATA: usize>(
    storage: PduStorage<N, DATA>,
)
    ensures
        storage@.len() == storage.frames@.len(),
        forall|i: int|
            0 <= i < storage.frames@.len() ==> #[trigger] storage@[i] == storage.frames@[i]@,
        storage.wf() <==> {
            &&& storage.frames@.len() == N
            &&& forall|i: int|
                0 <= i < storage.frames@.len() ==> {
                    &&& (#[trigger] storage.frames@[i])@.buffer.len() == DATA
                    &&& storage.frames@[i]@.frame.len <= DATA
                    &&& storage.frames@[i]@.frame.unlocked
                }
        },
{
    assert forall|i: int| 0 <= i < storage.frames@.len() implies #[trigger] storage@[i]
        == storage.frames@[i]@ by {}
    if storage.wf() {
        assert forall|i: int| 0 <= i < storage.frames@.len() implies {
            &&& (#[trigger] storage.frames@[i])@.buffer.len() == DATA
            &&& storage.frames@[i]@.frame.len <= DATA
            &&& storage.frames@[i]@.frame.unlocked
        } by {
            assert(storage@[i].wf(DATA as nat));
        }
    }
}

/// The view of a loop is what its parts hold. It is as it should be if its storage is, and the
/// lock of the sender's waker is free.
pub proof fn law_loop_is_its_parts<'a, const DATA: usize>(pdu_loop: PduLoop<'a, DATA>)
    ensures
        pdu_loop@.storage == pdu_loop.storage@,
        pdu_loop@.tx_waker == held(pdu_loop.tx_waker),
        pdu_loop@.sent == pdu_loop.sent@,
        pdu_loop.wf() <==> pdu_loop.storage.wf() && unlocked(pdu_loop.tx_waker),
{
}

/// The storage is as it should be if every length fits the buffer and every lock is free.
pub proof fn law_storage_asks_no_more(storage: StorageView)
    ensures
        storage.wf() <==> forall|i: int|
            0 <= i < storage.slots.len() ==> {
                &&& (#[trigger] storage.slots[i]).buffer.len() == storage.data_len
                &&& storage.slots[i].frame.len <= storage.data_len
                &&& storage.slots[i].frame.unlocked
            },
{
    if storage.wf() {
        assert forall|i: int| 0 <= i < storage.slots.len() implies {
            &&& (#[trigger] storage.slots[i]).buffer.len() == storage.data_len
            &&& storage.slots[i].frame.len <= storage.data_len
            &&& storage.slots[i].frame.unlocked
        } by {
            assert(storage.slots[i].wf(storage.data_len));
        }
    }
}

/// A clone of a waker is there if and only if the waker is, and then comes from it.
pub proof fn law_clone_is_of_its_waker(a: Option<Waker>, b: Option<Waker>)
    ensures
        clone_of(a, b) ==> (a is Some <==> b is Some),
        clone_of(a, b) && a is Some ==> cloned(a->0, b->0),
        a is None && b is None ==> clone_of(a, b),
        a is Some && b is Some && cloned(a->0, b->0) ==> clone_of(a, b),
{
}

/// A frame that changes its state keeps its header, its waker and its whole buffer. A swap changes
/// the state only of a frame that is in the state it swaps from.
pub proof fn law_state_is_apart_from_contents(
    element: ElementView,
    from: FrameState,
    to: FrameState,
)
    ensures
        element.in_state(to).status == to,
        element.in_state(to).frame == element.frame,
        element.in_state(to).buffer == element.buffer,
        element.status == from ==> element.swapped(from, to).status == to,
        element.status != from ==> element.swapped(from, to).status == element.status,
        element.swapped(from, to).frame == element.frame,
        element.swapped(from, to).buffer == element.buffer,
{
}

/// A frame that gets another header keeps its state and its whole buffer. If only the waker is
/// another, length, index and lock stay as they are too.
pub proof fn law_header_is_apart_from_contents(
    element: ElementView,
    frame: FrameView,
    waker: Option<Waker>,
)
    ensures
        element.with_frame(frame).frame == frame,
        element.with_frame(frame).status == element.status,
        element.with_frame(frame).buffer == element.buffer,
        element.with_waker(waker).frame.waker == waker,
        element.with_waker(waker).frame.len == element.frame.len,
        element.with_waker(waker).frame.index == element.frame.index,
        element.with_waker(waker).frame.unlocked == element.frame.unlocked,
        element.with_waker(waker).status == element.status,
        element.with_waker(waker).buffer == element.buffer,
{
}

/// The data of a frame is the start of its buffer, as long as the header says. Data that is
/// written is read back, whatever its bytes; header, state and the rest of the buffer stay.
pub proof fn law_data_is_read_back(element: ElementView, data: Seq<u8>)
    requires
        element.frame.len <= element.buffer.len(),
        data.len() == element.frame.len,
    ensures
        element.data().len() == element.frame.len,
        forall|j: int| 0 <= j < element.frame.len ==> #[trigger] element.data()[j]
            == element.buffer[j],
        element.with_data(data).data() == data,
        element.with_data(data).frame == element.frame,
        element.with_data(data).status == element.status,
        element.with_data(data).buffer.len() == element.buffer.len(),
        forall|j: int| 0 <= j < data.len() ==> #[trigger] element.with_data(data).buffer[j]
            == data[j],
        forall|j: int|
            data.len() <= j < element.buffer.len() ==> #[trigger] element.with_data(data).buffer[j]
                == element.buffer[j],
{
    assert(element.with_data(data).data() =~= data);
}

/// A new storage has as many frames as it was asked for. All are free, without a waker, and hold
/// zeroes. The first packet gets the index zero, and no one has been woken.
pub proof fn law_new_storage_is_free(n: nat, data_len: nat)
    ensures
        ({
            let storage = StorageView::fresh(n, data_len);
            &&& storage.slots.len() == n
            &&& storage.idx == 0
            &&& storage.data_len == data_len
            &&& storage.woken.len() == 0
            &&& forall|i: int|
                0 <= i < n ==> {
                    &&& (#[trigger] storage.slots[i]).status == FrameState::Free
                    &&& storage.slots[i].frame.len == 0
                    &&& storage.slots[i].frame.index == 0
                    &&& storage.slots[i].frame.waker is None
                    &&& storage.slots[i].frame.unlocked
                    &&& storage.slots[i].buffer.len() == data_len
                }
            &&& forall|i: int, j: int|
                0 <= i < n && 0 <= j < data_len ==> #[trigger] storage.slots[i].buffer[j] == 0u8
        }),
{
}

/// What is done to one frame of a storage is done to no other, and neither moves the index of the
/// next packet nor wakes anyone.
pub proof fn law_frames_are_apart(
    storage: StorageView,
    slot: int,
    element: ElementView,
    status: FrameState,
    waker: Option<Waker>,
)
    requires
        0 <= slot < storage.slots.len(),
    ensures
        forall|after: StorageView|
            after == storage.with_slot(slot, element) || after == storage.in_state(slot, status)
                || after == #[trigger] storage.with_waker(slot, waker) ==> {
                &&& after.slots.len() == storage.slots.len()
                &&& after.idx == storage.idx
                &&& after.data_len == storage.data_len
                &&& after.woken == storage.woken
                &&& forall|i: int|
                    0 <= i < storage.slots.len() && i != slot ==> #[trigger] after.slots[i]
                        == storage.slots[i]
            },
        storage.with_slot(slot, element).slots[slot] == element,
        storage.in_state(slot, status).slots[slot].status == status,
        storage.in_state(slot, status).slots[slot].frame == storage.slots[slot].frame,
        storage.in_state(slot, status).slots[slot].buffer == storage.slots[slot].buffer,
        storage.with_waker(slot, waker).slots[slot].frame.waker == waker,
        storage.with_waker(slot, waker).slots[slot].frame.len == storage.slots[slot].frame.len,
        storage.with_waker(slot, waker).slots[slot].frame.index
            == storage.slots[slot].frame.index,
        storage.with_waker(slot, waker).slots[slot].frame.unlocked
            == storage.slots[slot].frame.unlocked,
        storage.with_waker(slot, waker).slots[slot].status == storage.slots[slot].status,
        storage.with_waker(slot, waker).slots[slot].buffer == storage.slots[slot].buffer,
{
}

/// An allocation fails if and only if the data is too long for a frame, or the frame at the
/// remainder of the next packet index by the number of frames is not free. Otherwise it is that
/// frame that is allocated.
pub proof fn law_place_is_the_remainder(storage: StorageView, len: nat)
    requires
        storage.slots.len() > 0,
    ensures
        ({
            let place = storage.idx as int % storage.slots.len() as int;
            &&& 0 <= place < storage.slots.len()
            &&& storage.alloc_result(len) == Err::<int, Error>(Error::DataTooLong) <==> len
                > storage.data_len
            &&& storage.alloc_result(len) == Err::<int, Error>(Error::SwapState) <==> len
                <= storage.data_len && storage.slots[place].status != FrameState::Free
            &&& storage.alloc_result(len) == Ok::<int, Error>(place) <==> len <= storage.data_len
                && storage.slots[place].status == FrameState::Free
        }),
        storage.next_slot() == storage.idx as int % storage.slots.len() as int,
        exists|q: int|
            storage.idx == #[trigger] (storage.slots.len() * q) + storage.next_slot(),
{
    let n = storage.slots.len() as int;
    lemma_mod_bound(storage.idx as int, n);
    lemma_fundamental_div_mod(storage.idx as int, n);
    let q = storage.idx as int / n;
    assert(storage.idx == (storage.slots.len() * q) + storage.next_slot());
}

/// Allocations go round the storage: the first of all tries the first place, and the next one
/// tries the place after it, or the first again after the last. When the packet indices have all
/// been used, they and the places start anew.
pub proof fn law_allocations_go_round(storage: StorageView, len: nat)
    requires
        storage.slots.len() > 0,
        len <= storage.data_len,
    ensures
        storage.idx == 0 ==> storage.next_slot() == 0,
        storage.idx < 255 ==> storage.after_alloc(len).next_slot() == if storage.next_slot() + 1
            == storage.slots.len() {
            0
        } else {
            storage.next_slot() + 1
        },
        storage.idx == 255 ==> storage.after_alloc(len).next_slot() == 0,
{
    let n = storage.slots.len() as int;
    let after = storage.after_alloc(len);
    lemma_small_mod(0, storage.slots.len());
    lemma_mod_bound(storage.idx as int, n);
    if storage.idx < 255 {
        lemma_next_remainder(storage.idx as int, n);
    }
}

/// The remainder of the next number.
proof fn lemma_next_remainder(x: int, n: int)
    requires
        n > 0,
    ensures
        (x + 1) % n == if x % n + 1 == n {
            0
        } else {
            x % n + 1
        },
{
    lemma_fundamental_div_mod(x, n);
    lemma_mod_bound(x, n);
    if x % n + 1 == n {
        assert(x + 1 == n * (x / n + 1)) by (nonlinear_arith)
            requires
                x == n * (x / n) + x % n,
                x % n + 1 == n,
        ;
        assert(x + 1 == (x / n + 1) * n + 0) by (nonlinear_arith)
            requires
                x + 1 == n * (x / n + 1),
        ;
        lemma_fundamental_div_mod_converse(x + 1, n, x / n + 1, 0);
    } else {
        assert(x + 1 == (x / n) * n + (x % n + 1)) by (nonlinear_arith)
            requires
                x == n * (x / n) + x % n,
        ;
        lemma_fundamental_div_mod_converse(x + 1, n, x / n, x % n + 1);
    }
}

/// As many allocations in a row as there are frames, with no wrap of the packet index between
/// them, try as many different places, one after the other round the storage. So a frame that has
/// been given back is tried again when the others have been.
pub proof fn law_allocations_in_a_row_try_different_places(storage: StorageView, lens: Seq<nat>)
    requires
        storage.slots.len() > 0,
        all_fit(storage, lens),
        lens.len() < storage.slots.len(),
        storage.idx + lens.len() <= 255,
    ensures
        after_allocs(storage, lens).next_slot() == if storage.next_slot() + lens.len()
            < storage.slots.len() {
            storage.next_slot() + lens.len()
        } else {
            storage.next_slot() + lens.len() - storage.slots.len()
        },
        forall|k: int|
            0 <= k < lens.len() ==> after_allocs(storage, #[trigger] lens.take(k)).next_slot()
                != after_allocs(storage, lens).next_slot(),
    decreases lens.len(),
{
    lemma_mod_bound(storage.idx as int, storage.slots.len() as int);
    if lens.len() > 0 {
        let fewer = lens.drop_last();
        assert(all_fit(storage, fewer));
        law_allocations_in_a_row_try_different_places(storage, fewer);
        law_indices_count_up(storage, fewer);
        assert(lens.last() <= storage.data_len);
        law_allocations_go_round(after_allocs(storage, fewer), lens.last());
    }
    assert forall|k: int| 0 <= k < lens.len() implies after_allocs(
        storage,
        #[trigger] lens.take(k),
    ).next_slot() != after_allocs(storage, lens).next_slot() by {
        let some = lens.take(k);
        assert(all_fit(storage, some)) by {
            assert forall|i: int| 0 <= i < some.len() implies #[trigger] some[i]
                <= storage.data_len by {
                assert(lens[i] <= storage.data_len);
            }
        }
        law_allocations_in_a_row_try_different_places(storage, some);
    }
}

/// Data that is too long for a frame changes nothing. Otherwise the next packet index moves on by
/// one, and starts again after 255. Only a frame that is allocated changes: it is created, has the
/// length that was asked for and the index that was next, no waker, zeroes as far as the data
/// goes, and the bytes that it had beyond. No one is woken.
pub proof fn law_allocation_touches_one_frame(storage: StorageView, len: nat)
    requires
        storage.wf(),
        storage.slots.len() > 0,
    ensures
        ({
            let place = storage.idx as int % storage.slots.len() as int;
            let after = storage.after_alloc(len);
            let allocated = len <= storage.data_len && storage.slots[place].status
                == FrameState::Free;
            &&& after.slots.len() == storage.slots.len()
            &&& after.data_len == storage.data_len
            &&& after.woken == storage.woken
            &&& len > storage.data_len ==> after.idx == storage.idx
            &&& len <= storage.data_len && storage.idx < 255 ==> after.idx == storage.idx + 1
            &&& len <= storage.data_len && storage.idx == 255 ==> after.idx == 0
            &&& forall|i: int|
                0 <= i < storage.slots.len() && (i != place || !allocated)
                    ==> #[trigger] after.slots[i] == storage.slots[i]
            &&& allocated ==> {
                &&& after.slots[place].status == FrameState::Created
                &&& after.slots[place].frame.len == len
                &&& after.slots[place].frame.index == storage.idx
                &&& after.slots[place].frame.waker is None
                &&& after.slots[place].frame.unlocked
                &&& after.slots[place].buffer.len() == storage.slots[place].buffer.len()
                &&& forall|j: int| 0 <= j < len ==> #[trigger] after.slots[place].buffer[j] == 0u8
                &&& forall|j: int|
                    len <= j < storage.data_len ==> #[trigger] after.slots[place].buffer[j]
                        == storage.slots[place].buffer[j]
            }
        }),
{
    let place = storage.idx as int % storage.slots.len() as int;
    lemma_mod_bound(storage.idx as int, storage.slots.len() as int);
    assert(storage.slots[place].wf(storage.data_len));
}

/// A frame is prepared for data by giving it a new header and zeroes as far as the data goes; its
/// state and the bytes beyond stay.
pub proof fn law_prepared_frame_is_zeroed(element: ElementView, index: u8, len: nat)
    requires
        len <= element.buffer.len(),
    ensures
        ({
            let after = element.initialised(index, len);
            &&& after.status == element.status
            &&& after.frame.len == len
            &&& after.frame.index == index
            &&& after.frame.waker is None
            &&& after.frame.unlocked
            &&& after.buffer.len() == element.buffer.len()
            &&& forall|j: int| 0 <= j < len ==> #[trigger] after.buffer[j] == 0u8
            &&& forall|j: int|
                len <= j < element.buffer.len() ==> #[trigger] after.buffer[j]
                    == element.buffer[j]
        }),
{
}

/// A reply is awaited for the frames that have been sent and for no others: those in state
/// Sending, found by their place. A packet names the frame by its first byte, whatever follows.
pub proof fn law_sent_frames_await_replies(pdu_loop: LoopView, packet: Seq<u8>, index: u8)
    ensures
        pdu_loop.storage.awaits(index) <==> (index as int) < pdu_loop.storage.slots.len()
            && pdu_loop.storage.slots[index as int].status == FrameState::Sending,
        pdu_loop.expects(packet) <==> packet.len() > 0 && (packet[0] as int)
            < pdu_loop.storage.slots.len() && pdu_loop.storage.slots[packet[0] as int].status
            == FrameState::Sending,
{
}

/// The completion of a reply keeps the data: length, index and the whole buffer of the frame are
/// the same afterwards, whatever they hold, and every other frame is as it was. If anyone waits,
/// the frame is done, its waker is gone, and the wakes on record are one more: that waker, woken
/// when the frame was done already. If no one does, nothing changes at all.
pub proof fn law_completion_keeps_the_data(storage: StorageView, slot: int)
    requires
        0 <= slot < storage.slots.len(),
    ensures
        ({
            let after = storage.after_received(slot);
            let waker = storage.slots[slot].frame.waker;
            &&& after.slots.len() == storage.slots.len()
            &&& after.idx == storage.idx
            &&& after.data_len == storage.data_len
            &&& after.slots[slot].frame.len == storage.slots[slot].frame.len
            &&& after.slots[slot].frame.index == storage.slots[slot].frame.index
            &&& after.slots[slot].frame.unlocked == storage.slots[slot].frame.unlocked
            &&& after.slots[slot].frame.waker is None
            &&& after.slots[slot].buffer == storage.slots[slot].buffer
            &&& forall|i: int|
                0 <= i < storage.slots.len() && i != slot ==> #[trigger] after.slots[i]
                    == storage.slots[i]
            &&& forall|k: int|
                0 <= k < storage.woken.len() ==> #[trigger] after.woken[k] == storage.woken[k]
            &&& waker is Some ==> {
                &&& after.slots[slot].status == FrameState::RxDone
                &&& after.woken.len() == storage.woken.len() + 1
                &&& after.woken[storage.woken.len() as int].waker == waker->0
                &&& after.woken[storage.woken.len() as int].slots == after.slots
            }
            &&& waker is None ==> {
                &&& after.slots[slot].status == storage.slots[slot].status
                &&& after.woken.len() == storage.woken.len()
            }
        }),
{
}

/// The reply that is put in is the reply that is read. Whatever bytes are written to a frame that
/// is being received and waited for, they are what is read of it once it is done, also after
/// rounds of the sender over any number of places and an allocation of any length in between.
pub proof fn law_reply_is_read_as_written(
    storage: StorageView,
    slot: int,
    reply: Seq<u8>,
    n: int,
    len: nat,
)
    requires
        storage.wf(),
        0 <= slot < storage.slots.len(),
        storage.slots[slot].status == FrameState::RxBusy,
        storage.slots[slot].frame.waker is Some,
        reply.len() == storage.slots[slot].frame.len,
    ensures
        ({
            let written = storage.with_slot(slot, storage.slots[slot].with_data(reply));
            let done = written.after_received(slot);
            let later = done.after_claims(n).after_alloc(len);
            let read = later.in_state(slot, FrameState::RxProcessing);
            &&& done.slots[slot].status == FrameState::RxDone
            &&& later.slots[slot].status == FrameState::RxDone
            &&& read.slots[slot].data() == reply
            &&& forall|j: int| 0 <= j < reply.len() ==> #[trigger] read.slots[slot].buffer[j]
                == reply[j]
        }),
{
    assert(storage.slots[slot].wf(storage.data_len));
    let written = storage.with_slot(slot, storage.slots[slot].with_data(reply));
    let done = written.after_received(slot);
    law_data_is_read_back(storage.slots[slot], reply);
    law_completion_keeps_the_data(written, slot);
    law_done_frame_is_left_alone(done, slot, slot, n, len, FrameState::RxDone, None);
    law_done_frame_is_left_alone(
        done.after_claims(n),
        slot,
        slot,
        n,
        len,
        FrameState::RxDone,
        None,
    );
    let read = done.after_claims(n).after_alloc(len).in_state(slot, FrameState::RxProcessing);
    assert(read.slots[slot].data() =~= reply);
}

/// A frame whose reply is done stays as it is, with all that it holds, until the one who waits
/// picks it up: neither a round of the sender nor an allocation touches it, nor anything that is
/// done to another frame, and no packet that comes in is taken for its reply.
pub proof fn law_done_frame_is_left_alone(
    storage: StorageView,
    slot: int,
    other: int,
    n: int,
    len: nat,
    status: FrameState,
    waker: Option<Waker>,
)
    requires
        0 <= slot < storage.slots.len(),
        0 <= other < storage.slots.len(),
        storage.slots[slot].status == FrameState::RxDone,
    ensures
        storage.after_claims(n).slots[slot] == storage.slots[slot],
        storage.after_alloc(len).slots[slot] == storage.slots[slot],
        other != slot ==> storage.after_received(other).slots[slot] == storage.slots[slot],
        other != slot ==> storage.in_state(other, status).slots[slot] == storage.slots[slot],
        other != slot ==> storage.with_waker(other, waker).slots[slot] == storage.slots[slot],
        forall|index: u8| index == slot ==> !#[trigger] storage.awaits(index),
{
    lemma_mod_bound(storage.idx as int, storage.slots.len() as int);
}

/// A packet that comes in touches the frame that it names and no other. The frame keeps length,
/// index and the whole buffer. If it is waited for, it is done and the one who waits is woken;
/// otherwise it is left being received. The sender's waker and the frames on record as handed to
/// it stay.
pub proof fn law_packet_touches_its_frame(pdu_loop: LoopView, packet: Seq<u8>)
    requires
        pdu_loop.expects(packet),
    ensures
        ({
            let slot = packet[0] as int;
            let before = pdu_loop.storage;
            let after = pdu_loop.after_rx(packet).storage;
            let waker = before.slots[slot].frame.waker;
            &&& pdu_loop.after_rx(packet).tx_waker == pdu_loop.tx_waker
            &&& pdu_loop.after_rx(packet).sent == pdu_loop.sent
            &&& after.slots.len() == before.slots.len()
            &&& after.idx == before.idx
            &&& after.data_len == before.data_len
            &&& after.slots[slot].frame.len == before.slots[slot].frame.len
            &&& after.slots[slot].frame.index == before.slots[slot].frame.index
            &&& after.slots[slot].frame.unlocked == before.slots[slot].frame.unlocked
            &&& after.slots[slot].frame.waker is None
            &&& after.slots[slot].buffer == before.slots[slot].buffer
            &&& forall|i: int|
                0 <= i < before.slots.len() && i != slot ==> #[trigger] after.slots[i]
                    == before.slots[i]
            &&& forall|k: int|
                0 <= k < before.woken.len() ==> #[trigger] after.woken[k] == before.woken[k]
            &&& waker is Some ==> {
                &&& after.slots[slot].status == FrameState::RxDone
                &&& after.woken.len() == before.woken.len() + 1
                &&& after.woken[before.woken.len() as int].waker == waker->0
                &&& after.woken[before.woken.len() as int].slots == after.slots
            }
            &&& waker is None ==> {
                &&& after.slots[slot].status == FrameState::RxBusy
                &&& after.woken.len() == before.woken.len()
            }
        }),
{
    let slot = packet[0] as int;
    law_completion_keeps_the_data(pdu_loop.storage.in_state(slot, FrameState::RxBusy), slot);
}

/// The sender changes the sendable frames that it has come to, and of these only the state, which
/// is Sending then. Every other frame is exactly as before, whatever its state, and so are the
/// index of the next packet and the wakes on record.
pub proof fn law_sender_touches_sendable_frames_only(storage: StorageView, n: int)
    ensures
        ({
            let after = storage.after_claims(n);
            &&& after.slots.len() == storage.slots.len()
            &&& after.idx == storage.idx
            &&& after.data_len == storage.data_len
            &&& after.woken == storage.woken
            &&& forall|i: int|
                0 <= i < storage.slots.len() ==> {
                    &&& (#[trigger] after.slots[i]).frame == storage.slots[i].frame
                    &&& after.slots[i].buffer == storage.slots[i].buffer
                    &&& i < n && storage.slots[i].status == FrameState::Sendable
                        ==> after.slots[i].status == FrameState::Sending
                    &&& i >= n || storage.slots[i].status != FrameState::Sendable
                        ==> after.slots[i] == storage.slots[i]
                }
        }),
{
}

/// With a stored waker of the sender, a wake of the sender makes the record of wakes exactly one
/// longer, whatever states the frames are in. The new wake is a clone of the stored waker, with
/// the frames as they are, and what was on record before stays. Without one, no one is woken.
pub proof fn law_stored_sender_is_always_woken(
    tx_waker: Option<Waker>,
    slots: Seq<ElementView>,
    before: Seq<WakeView>,
    after: Seq<WakeView>,
)
    requires
        sender_woken(tx_waker, slots, before, after),
    ensures
        tx_waker is Some ==> {
            &&& after.len() == before.len() + 1
            &&& cloned(tx_waker->0, after[before.len() as int].waker)
            &&& after[before.len() as int].slots == slots
        },
        tx_waker is None ==> after.len() == before.len(),
        forall|k: int| 0 <= k < before.len() ==> #[trigger] after[k] == before[k],
{
    if tx_waker is Some {
        assert forall|k: int| 0 <= k < before.len() implies #[trigger] after[k] == before[k] by {
            assert(after.drop_last()[k] == after[k]);
        }
    }
}

/// Every byte of a packet is the index of its frame, and there are sixteen, whatever the index. So
/// two frames have the same packet only if they have the same index.
pub proof fn law_packet_repeats_the_index(index: u8, other: u8)
    ensures
        PACKET_LEN == 16,
        packet_of(index).len() == 16,
        forall|j: int| 0 <= j < 16 ==> #[trigger] packet_of(index)[j] == index,
        packet_of(index) == packet_of(other) ==> index == other,
{
    assert(packet_of(index)[0] == index);
    assert(packet_of(other)[0] == other);
}

/// A function that can be handed any frame that has been picked up can be taken round any
/// storage.
pub proof fn law_any_storage_can_be_gone_round<'a, const DATA: usize, F>(
    send: F,
    storage: StorageView,
) where F: FnMut(&FrameBox, &PduStorageRef<'a, DATA>) -> Result<(), ()>
    requires
        forall|frame: FrameBox, at: PduStorageRef<'a, DATA>|
            at.wf() && frame.frame < at@.slots.len() && at@.slots[frame.frame as int].status
                == FrameState::Sending ==> #[trigger] call_requires(send, (&frame, &at)),
    ensures
        takes_picks(send, storage),
{
    assert forall|frame: FrameBox, at: PduStorageRef<'a, DATA>|
        frame.frame < storage.slots.len() && storage.slots[frame.frame as int].status
            == FrameState::Sendable && at.wf() && at@ == storage.after_claims(
            frame.frame + 1,
        ) implies #[trigger] call_requires(send, (&frame, &at)) by {
        law_sender_touches_sendable_frames_only(storage, frame.frame + 1);
        assert(at@.slots[frame.frame as int].status == FrameState::Sending);
    }
}

/// Whatever becomes of a round of the sender, it touches the sendable frames only, and of these
/// only the state. One that gets through leaves none sendable, and leaves a clone of the sender's
/// waker if none was left before. One that does not ends with an error at a frame that was
/// sendable: those up to it have been picked up, those behind it are as before, and no waker is
/// left.
pub proof fn law_round_touches_sendable_frames_only<'a, const DATA: usize, F>(
    send: F,
    waker: Waker,
    before: LoopView,
    after: LoopView,
    res: Result<(), Error>,
) where F: FnMut(&FrameBox, &PduStorageRef<'a, DATA>) -> Result<(), ()>
    requires
        sent_round(send, waker, before, after, res),
    ensures
        after.storage.slots.len() == before.storage.slots.len(),
        after.storage.idx == before.storage.idx,
        after.storage.data_len == before.storage.data_len,
        after.storage.woken == before.storage.woken,
        forall|i: int|
            0 <= i < before.storage.slots.len() ==> {
                &&& (#[trigger] after.storage.slots[i]).frame == before.storage.slots[i].frame
                &&& after.storage.slots[i].buffer == before.storage.slots[i].buffer
                &&& after.storage.slots[i].status == before.storage.slots[i].status
                    || before.storage.slots[i].status == FrameState::Sendable
                    && after.storage.slots[i].status == FrameState::Sending
                &&& res is Ok ==> after.storage.slots[i].status != FrameState::Sendable
            },
        before.tx_waker is Some ==> after.tx_waker == before.tx_waker,
        res is Ok && before.tx_waker is None ==> after.tx_waker is Some && cloned(
            waker,
            after.tx_waker->0,
        ),
        res is Err ==> res->Err_0 == Error::SendFailed && after.tx_waker == before.tx_waker,
        res is Err ==> exists|slot: int|
            {
                &&& 0 <= slot < before.storage.slots.len()
                &&& (#[trigger] before.storage.slots[slot]).status == FrameState::Sendable
                &&& forall|i: int|
                    0 <= i <= slot ==> (#[trigger] after.storage.slots[i]).status
                        != FrameState::Sendable
                &&& forall|i: int|
                    slot < i < before.storage.slots.len() ==> #[trigger] after.storage.slots[i]
                        == before.storage.slots[i]
            },
{
    let n = before.storage.slots.len() as int;
    if res is Ok {
        law_sender_touches_sendable_frames_only(before.storage, n);
    } else {
        let slot = choose|slot: int|
            {
                &&& 0 <= slot < before.storage.slots.len()
                &&& before.storage.slots[slot].status == FrameState::Sendable
                &&& after.sent == before.sent + #[trigger] picks_until(before.storage, slot)
                &&& outcomes_of(send, picks(before.storage, slot))
                &&& can_end(send, slot, after.storage, false)
                &&& after.storage == before.storage.after_claims(slot + 1)
            };
        law_sender_touches_sendable_frames_only(before.storage, slot + 1);
        assert(before.storage.slots[slot].status == FrameState::Sendable);
    }
}

/// What a round adds to the record of the frames handed to the sender is the frames that it
/// touched, each once, in the order of their places. Each was handed over as it was when it had
/// just been picked up, with those behind it untouched, and the function ended as the record says:
/// it sent them all, but for the last one of a round that ends with an error, behind which nothing
/// was touched.
pub proof fn law_round_hands_over_what_it_touches<'a, const DATA: usize, F>(
    send: F,
    waker: Waker,
    before: LoopView,
    after: LoopView,
    res: Result<(), Error>,
) where F: FnMut(&FrameBox, &PduStorageRef<'a, DATA>) -> Result<(), ()>
    requires
        sent_round(send, waker, before, after, res),
    ensures
        before.sent.len() <= after.sent.len(),
        res is Err ==> before.sent.len() < after.sent.len(),
        forall|k: int| 0 <= k < before.sent.len() ==> #[trigger] after.sent[k] == before.sent[k],
        forall|k: int|
            before.sent.len() <= k < after.sent.len() ==> {
                let handed = #[trigger] after.sent[k];
                &&& 0 <= handed.slot < before.storage.slots.len()
                &&& before.storage.slots[handed.slot].status == FrameState::Sendable
                &&& after.storage.slots[handed.slot].status == FrameState::Sending
                &&& handed.sent <==> res is Ok || k + 1 < after.sent.len()
                &&& handed.storage.slots.len() == before.storage.slots.len()
                &&& handed.storage.idx == before.storage.idx
                &&& handed.storage.data_len == before.storage.data_len
                &&& handed.storage.woken == before.storage.woken
            },
        forall|k: int|
            before.sent.len() <= k < after.sent.len() ==> {
                let handed = #[trigger] after.sent[k];
                exists|frame: FrameBox, at: PduStorageRef<'a, DATA>, sent: Result<(), ()>|
                    #![trigger call_ensures(send, (&frame, &at), sent)]
                    frame.frame == handed.slot && at@ == handed.storage && sent is Ok
                        == handed.sent && call_ensures(send, (&frame, &at), sent)
            },
        forall|j: int, k: int|
            before.sent.len() <= j < k < after.sent.len() ==> (#[trigger] after.sent[j]).slot < (
            #[trigger] after.sent[k]).slot,
        forall|k: int, i: int|
            before.sent.len() <= k < after.sent.len() && 0 <= i < before.storage.slots.len() ==> {
                let shown = #[trigger] after.sent[k].storage.slots[i];
                &&& shown.frame == before.storage.slots[i].frame
                &&& shown.buffer == before.storage.slots[i].buffer
                &&& shown.status == if i <= after.sent[k].slot && before.storage.slots[i].status
                    == FrameState::Sendable {
                    FrameState::Sending
                } else {
                    before.storage.slots[i].status
                }
            },
        forall|i: int|
            0 <= i < before.storage.slots.len() && #[trigger] after.storage.slots[i]
                != before.storage.slots[i] ==> exists|k: int|
                before.sent.len() <= k < after.sent.len() && (#[trigger] after.sent[k]).slot == i,
        res is Err ==> forall|i: int|
            after.sent.last().slot < i < before.storage.slots.len()
                ==> #[trigger] after.storage.slots[i] == before.storage.slots[i],
        res is Err ==> forall|i: int|
            0 <= i <= after.sent.last().slot ==> (#[trigger] after.storage.slots[i]).status
                != FrameState::Sendable,
{
    let m = before.sent.len() as int;
    let n = before.storage.slots.len() as int;
    let upto = if res is Ok {
        n
    } else {
        choose|slot: int|
            {
                &&& 0 <= slot < before.storage.slots.len()
                &&& before.storage.slots[slot].status == FrameState::Sendable
                &&& after.sent == before.sent + #[trigger] picks_until(before.storage, slot)
                &&& outcomes_of(send, picks(before.storage, slot))
                &&& can_end(send, slot, after.storage, false)
                &&& after.storage == before.storage.after_claims(slot + 1)
            }
    };
    let picked = picks(before.storage, upto);
    law_picks_are_the_sendable_frames(before.storage, upto);
    law_sender_touches_sendable_frames_only(before.storage, upto);
    law_sender_touches_sendable_frames_only(before.storage, upto + 1);
    assert forall|k: int| m <= k < m + picked.len() implies #[trigger] after.sent[k] == picked[k
        - m] by {}
    assert forall|k: int, i: int|
        m <= k < after.sent.len() && 0 <= i < n implies {
        let shown = #[trigger] after.sent[k].storage.slots[i];
        &&& shown.frame == before.storage.slots[i].frame
        &&& shown.buffer == before.storage.slots[i].buffer
        &&& shown.status == if i <= after.sent[k].slot && before.storage.slots[i].status
            == FrameState::Sendable {
            FrameState::Sending
        } else {
            before.storage.slots[i].status
        }
    } by {
        if k < m + picked.len() {
            assert(after.sent[k].storage.slots[i] == picked[k - m].storage.slots[i]);
        } else {
            assert(after.sent[k].storage == before.storage.after_claims(upto + 1));
        }
    }
    assert forall|k: int| m <= k < after.sent.len() implies {
        let handed = #[trigger] after.sent[k];
        can_end(send, handed.slot, handed.storage, handed.sent)
    } by {
        if k < m + picked.len() {
            assert(after.sent[k] == picked[k - m]);
        }
    }
    assert forall|i: int|
        0 <= i < n && #[trigger] after.storage.slots[i]
            != before.storage.slots[i] implies exists|k: int|
        m <= k < after.sent.len() && (#[trigger] after.sent[k]).slot == i by {
        if i < upto {
            assert(before.storage.slots[i].status == FrameState::Sendable);
            let j = choose|j: int| 0 <= j < picked.len() && (#[trigger] picked[j]).slot == i;
            assert(after.sent[m + j] == picked[j]);
        } else {
            assert(after.sent[m + picked.len()].slot == i);
        }
    }
}

/// A round with a function that never fails gets through. One with a function that always fails
/// does so only if no frame is sendable; otherwise the function is handed one frame, the first
/// that is.
pub proof fn law_round_ends_as_the_sender_does<'a, const DATA: usize, F>(
    send: F,
    waker: Waker,
    before: LoopView,
    after: LoopView,
    res: Result<(), Error>,
) where F: FnMut(&FrameBox, &PduStorageRef<'a, DATA>) -> Result<(), ()>
    requires
        sent_round(send, waker, before, after, res),
    ensures
        (forall|frame: FrameBox, at: PduStorageRef<'a, DATA>, sent: Result<(), ()>| #[trigger]
            call_ensures(send, (&frame, &at), sent) ==> sent is Ok) ==> res is Ok,
        (forall|frame: FrameBox, at: PduStorageRef<'a, DATA>, sent: Result<(), ()>| #[trigger]
            call_ensures(send, (&frame, &at), sent) ==> sent is Err) ==> {
            &&& res is Ok <==> forall|i: int|
                0 <= i < before.storage.slots.len() ==> (
                #[trigger] before.storage.slots[i]).status != FrameState::Sendable
            &&& res is Err ==> {
                &&& after.sent.len() == before.sent.len() + 1
                &&& forall|i: int|
                    0 <= i < after.sent.last().slot ==> (
                    #[trigger] before.storage.slots[i]).status != FrameState::Sendable
            }
        },
{
    let m = before.sent.len() as int;
    law_round_hands_over_what_it_touches(send, waker, before, after, res);
    law_round_touches_sendable_frames_only(send, waker, before, after, res);
    if forall|frame: FrameBox, at: PduStorageRef<'a, DATA>, sent: Result<(), ()>| #[trigger]
        call_ensures(send, (&frame, &at), sent) ==> sent is Ok {
        if res is Err {
            assert(!after.sent[after.sent.len() - 1].sent);
        }
    }
    if forall|frame: FrameBox, at: PduStorageRef<'a, DATA>, sent: Result<(), ()>| #[trigger]
        call_ensures(send, (&frame, &at), sent) ==> sent is Err {
        if m < after.sent.len() {
            assert(!after.sent[m].sent);
        }
        if res is Ok {
            assert forall|i: int| 0 <= i < before.storage.slots.len() implies (
            #[trigger] before.storage.slots[i]).status != FrameState::Sendable by {
                assert(after.storage.slots[i] == before.storage.slots[i]);
            }
        } else {
            let slot = after.sent[m].slot;
            assert(before.storage.slots[slot].status == FrameState::Sendable);
            assert forall|i: int| 0 <= i < slot implies (
            #[trigger] before.storage.slots[i]).status != FrameState::Sendable by {
                if before.storage.slots[i].status == FrameState::Sendable {
                    assert(after.storage.slots[i] != before.storage.slots[i]);
                }
            }
        }
    }
}

} // verus!
