//! What holds of a storage and of a loop across operations.
use crate::frame::{ElementView, FrameState};
use crate::handle::{packet_of, PACKET_LEN};
use crate::pdu_loop::LoopView;
use crate::sender::{picks, SendView};
use crate::storage::StorageView;
use crate::wakes::WakeView;
use crate::Error;
use core::task::Waker;
use vstd::prelude::*;

verus! {

/// The storage after allocations of the given lengths, one after the other.
pub open spec fn after_allocs(storage: StorageView, lens: Seq<nat>) -> StorageView
    decreases lens.len(),
{
    if lens.len() == 0 {
        storage
    } else {
        after_allocs(storage, lens.drop_last()).after_alloc(lens.last())
    }
}

/// That each of the given lengths fits a frame of the storage.
pub open spec fn all_fit(storage: StorageView, lens: Seq<nat>) -> bool {
    forall|i: int| 0 <= i < lens.len() ==> #[trigger] lens[i] <= storage.data_len
}

/// How many frames of a new storage of `n` can be allocated before one is given back: all of
/// them, but no more than there are packet indices.
pub open spec fn spare_frames(n: nat) -> nat {
    if n < 256 {
        n
    } else {
        256
    }
}

/// Every operation keeps the storage as it should be, and keeps the number of frames and their
/// size. Only an allocation moves the index of the next packet on.
pub proof fn law_shape_is_kept(
    storage: StorageView,
    slot: int,
    status: FrameState,
    waker: Option<Waker>,
    len: nat,
    n: int,
)
    requires
        storage.wf(),
        0 <= slot < storage.slots.len(),
    ensures
        storage.after_alloc(len).wf(),
        storage.after_alloc(len).slots.len() == storage.slots.len(),
        storage.after_alloc(len).data_len == storage.data_len,
        storage.in_state(slot, status).wf(),
        storage.in_state(slot, status).slots.len() == storage.slots.len(),
        storage.in_state(slot, status).data_len == storage.data_len,
        storage.in_state(slot, status).idx == storage.idx,
        storage.with_waker(slot, waker).wf(),
        storage.with_waker(slot, waker).slots.len() == storage.slots.len(),
        storage.with_waker(slot, waker).data_len == storage.data_len,
        storage.with_waker(slot, waker).idx == storage.idx,
        storage.after_received(slot).wf(),
        storage.after_received(slot).slots.len() == storage.slots.len(),
        storage.after_received(slot).data_len == storage.data_len,
        storage.after_received(slot).idx == storage.idx,
        storage.after_claims(n).wf(),
        storage.after_claims(n).slots.len() == storage.slots.len(),
        storage.after_claims(n).data_len == storage.data_len,
        storage.after_claims(n).idx == storage.idx,
{
    assert(storage.slots[slot].wf(storage.data_len));
    assert(storage.slots[storage.next_slot()].wf(storage.data_len));
    assert forall|i: int| 0 <= i < storage.slots.len() implies (#[trigger] storage.after_claims(
        n,
    ).slots[i]).wf(storage.data_len) by {
        assert(storage.slots[i].wf(storage.data_len));
    }
}

/// A claim is exclusive: once a frame has been moved out of a state, no one else can claim it
/// from that state.
pub proof fn law_claim_is_exclusive(element: ElementView, from: FrameState, to: FrameState)
    requires
        from != to,
    ensures
        element.swapped(from, to).status != from,
        element.swapped(from, to).swapped(from, to) == element.swapped(from, to),
{
}

/// That each frame either is in the state that it was in, or has taken one step of its life.
pub open spec fn one_step(before: StorageView, after: StorageView) -> bool {
    &&& after.slots.len() == before.slots.len()
    &&& forall|i: int|
        0 <= i < before.slots.len() ==> (#[trigger] after.slots[i]).status
            == before.slots[i].status || before.slots[i].status.leads_to(after.slots[i].status)
}

/// Frames go through their states in order. An allocation, a round of the sender, the arrival of
/// a reply, its completion and its pick-up each move a frame by one step or not at all. So do the
/// operations of a handle on a frame that is in the state the handle stands for: to make a
/// created frame sendable, to mark a frame as sent, to give up one that is being received, and to
/// give back one that has been read.
pub proof fn law_states_go_in_order(storage: StorageView, slot: int, len: nat, n: int)
    requires
        storage.wf(),
        0 <= slot < storage.slots.len(),
    ensures
        one_step(storage, storage.after_alloc(len)),
        one_step(storage, storage.after_claims(n)),
        storage.slots[slot].status == FrameState::Sending ==> one_step(
            storage,
            storage.in_state(slot, FrameState::RxBusy),
        ),
        storage.slots[slot].status == FrameState::RxBusy ==> one_step(
            storage,
            storage.after_received(slot),
        ),
        storage.slots[slot].status == FrameState::RxDone ==> one_step(
            storage,
            storage.in_state(slot, FrameState::RxProcessing),
        ),
        storage.slots[slot].status == FrameState::Created ==> one_step(
            storage,
            storage.in_state(slot, FrameState::Sendable),
        ),
        storage.slots[slot].status == FrameState::Sending ==> one_step(
            storage,
            storage.in_state(slot, FrameState::Sending),
        ),
        storage.slots[slot].status == FrameState::RxBusy || storage.slots[slot].status
            == FrameState::RxProcessing ==> one_step(
            storage,
            storage.in_state(slot, FrameState::Free),
        ),
{
}

/// Packet indices are handed out one after the other, modulo 256, whether or not a frame is
/// free. An index comes again only after all others.
pub proof fn law_indices_count_up(storage: StorageView, lens: Seq<nat>)
    requires
        storage.slots.len() > 0,
        all_fit(storage, lens),
    ensures
        after_allocs(storage, lens).idx == (storage.idx + lens.len()) % 256,
        0 < lens.len() < 256 ==> after_allocs(storage, lens).idx != storage.idx,
        after_allocs(storage, lens).slots.len() == storage.slots.len(),
        after_allocs(storage, lens).data_len == storage.data_len,
    decreases lens.len(),
{
    if lens.len() > 0 {
        assert(all_fit(storage, lens.drop_last()));
        law_indices_count_up(storage, lens.drop_last());
        assert(lens.last() <= storage.data_len);
    }
}

/// The frames of a new storage can be allocated as often as there are spare ones, each in its
/// turn; from then on every allocation fails until a frame is given back.
pub proof fn law_no_spare_frames(n: nat, data_len: nat, lens: Seq<nat>, len: nat)
    requires
        n > 0,
        all_fit(StorageView::fresh(n, data_len), lens),
        len <= data_len,
    ensures
        after_allocs(StorageView::fresh(n, data_len), lens).alloc_result(len) == if lens.len()
            < spare_frames(n) {
            Ok::<int, Error>(lens.len() as int)
        } else {
            Err::<int, Error>(Error::SwapState)
        },
{
    lemma_allocated(n, data_len, lens);
    law_indices_count_up(StorageView::fresh(n, data_len), lens);
    let storage = after_allocs(StorageView::fresh(n, data_len), lens);
    lemma_next_slot(n, lens.len(), storage);
}

/// The place that an allocation tries, when `k` have gone before.
proof fn lemma_next_slot(n: nat, k: nat, storage: StorageView)
    requires
        n > 0,
        storage.slots.len() == n,
        storage.idx == k % 256,
    ensures
        k < spare_frames(n) ==> storage.next_slot() == k,
        k >= spare_frames(n) ==> 0 <= storage.next_slot() < spare_frames(n),
{
    let i = storage.idx as int;
    if i < n {
        vstd::arithmetic::div_mod::lemma_small_mod(i as nat, n);
    } else {
        vstd::arithmetic::div_mod::lemma_mod_bound(i, n as int);
    }
}

/// Which frames of a new storage are taken after a number of allocations.
proof fn lemma_allocated(n: nat, data_len: nat, lens: Seq<nat>)
    requires
        n > 0,
        all_fit(StorageView::fresh(n, data_len), lens),
    ensures
        forall|i: int|
            0 <= i < n ==> (#[trigger] after_allocs(
                StorageView::fresh(n, data_len),
                lens,
            ).slots[i]).status == if i < lens.len() && i < spare_frames(n) {
                FrameState::Created
            } else {
                FrameState::Free
            },
    decreases lens.len(),
{
    if lens.len() > 0 {
        let fewer = lens.drop_last();
        assert(all_fit(StorageView::fresh(n, data_len), fewer));
        lemma_allocated(n, data_len, fewer);
        law_indices_count_up(StorageView::fresh(n, data_len), fewer);
        lemma_next_slot(n, fewer.len(), after_allocs(StorageView::fresh(n, data_len), fewer));
        assert(lens.last() <= data_len);
    }
}

/// A frame that is given back can be allocated again once its turn comes.
pub proof fn law_released_frame_is_spare(storage: StorageView, len: nat)
    requires
        storage.wf(),
        storage.slots.len() > 0,
        len <= storage.data_len,
    ensures
        storage.in_state(storage.next_slot(), FrameState::Free).alloc_result(len) == Ok::<
            int,
            Error,
        >(storage.next_slot()),
{
}

/// An allocated frame holds zeroes, as many as were asked for, no waker, and the index that was
/// next; the other frames are untouched.
pub proof fn law_new_frame_is_zeroed(storage: StorageView, len: nat)
    requires
        storage.wf(),
        storage.slots.len() > 0,
        storage.alloc_result(len) is Ok,
    ensures
        ({
            let slot = storage.next_slot();
            let after = storage.after_alloc(len);
            &&& after.slots[slot].status == FrameState::Created
            &&& after.slots[slot].data() == Seq::new(len, |i: int| 0u8)
            &&& after.slots[slot].frame.index == storage.idx
            &&& after.slots[slot].frame.waker is None
            &&& forall|i: int|
                0 <= i < storage.slots.len() && i != slot ==> after.slots[i] == storage.slots[i]
        }),
{
    let slot = storage.next_slot();
    assert(storage.slots[slot].wf(storage.data_len));
    assert(storage.after_alloc(len).slots[slot].data() =~= Seq::new(len, |i: int| 0u8));
}

/// A frame that is in use is never allocated.
pub proof fn law_frame_in_use_is_not_allocated(storage: StorageView, slot: int, len: nat)
    requires
        0 <= slot < storage.slots.len(),
        storage.slots[slot].status != FrameState::Free,
    ensures
        storage.alloc_result(len) != Ok::<int, Error>(slot),
        storage.after_alloc(len).slots[slot] == storage.slots[slot],
{
}

/// The sender picks a frame up once: when it has been round, no frame is left to send. Going round
/// again hands it none, and changes nothing.
pub proof fn law_frames_are_sent_once(storage: StorageView)
    ensures
        ({
            let n = storage.slots.len() as int;
            let sent = storage.after_claims(n);
            &&& forall|i: int|
                0 <= i < n ==> (#[trigger] sent.slots[i]).status != FrameState::Sendable
            &&& picks(sent, n) == Seq::<SendView>::empty()
            &&& sent.after_claims(n) == sent
        }),
{
    let n = storage.slots.len() as int;
    let sent = storage.after_claims(n);
    assert(sent.after_claims(n).slots =~= sent.slots);
    lemma_nothing_to_pick(sent, n);
}

/// Where no frame is sendable, none is picked.
proof fn lemma_nothing_to_pick(storage: StorageView, n: int)
    requires
        forall|i: int|
            0 <= i < n ==> (#[trigger] storage.slots[i]).status != FrameState::Sendable,
    ensures
        picks(storage, n) == Seq::<SendView>::empty(),
    decreases n,
{
    if n > 0 {
        assert(storage.slots[n - 1].status != FrameState::Sendable);
        lemma_nothing_to_pick(storage, n - 1);
    }
}

/// What a round hands to the sender is the sendable frames and no others, each once, in the order
/// of their places, and each as it is when it has just been picked up: those up to it are being
/// sent, those behind it wait as before, and nothing else has changed.
pub proof fn law_picks_are_the_sendable_frames(storage: StorageView, n: int)
    requires
        0 <= n <= storage.slots.len(),
    ensures
        forall|k: int|
            0 <= k < picks(storage, n).len() ==> {
                let pick = #[trigger] picks(storage, n)[k];
                &&& 0 <= pick.slot < n
                &&& storage.slots[pick.slot].status == FrameState::Sendable
                &&& pick.storage.slots[pick.slot] == storage.slots[pick.slot].in_state(
                    FrameState::Sending,
                )
            },
        forall|k: int|
            0 <= k < picks(storage, n).len() ==> {
                let pick = #[trigger] picks(storage, n)[k];
                &&& pick.sent
                &&& pick.storage.slots.len() == storage.slots.len()
                &&& pick.storage.idx == storage.idx
                &&& pick.storage.data_len == storage.data_len
                &&& pick.storage.woken == storage.woken
            },
        forall|k: int, i: int|
            0 <= k < picks(storage, n).len() && 0 <= i < storage.slots.len() ==> {
                let shown = #[trigger] picks(storage, n)[k].storage.slots[i];
                &&& shown.frame == storage.slots[i].frame
                &&& shown.buffer == storage.slots[i].buffer
                &&& shown.status == if i <= picks(storage, n)[k].slot && storage.slots[i].status
                    == FrameState::Sendable {
                    FrameState::Sending
                } else {
                    storage.slots[i].status
                }
            },
        forall|j: int, k: int|
            0 <= j < k < picks(storage, n).len() ==> (#[trigger] picks(storage, n)[j]).slot < (
            #[trigger] picks(storage, n)[k]).slot,
        forall|i: int|
            0 <= i < n && (#[trigger] storage.slots[i]).status == FrameState::Sendable
                ==> exists|k: int|
                0 <= k < picks(storage, n).len() && (#[trigger] picks(storage, n)[k]).slot == i,
    decreases n,
{
    if n > 0 {
        law_picks_are_the_sendable_frames(storage, n - 1);
        let fewer = picks(storage, n - 1);
        let all = picks(storage, n);
        assert forall|i: int|
            0 <= i < n && (#[trigger] storage.slots[i]).status
                == FrameState::Sendable implies exists|k: int|
            0 <= k < all.len() && (#[trigger] all[k]).slot == i by {
            if i < n - 1 {
                let k = choose|k: int|
                    0 <= k < fewer.len() && (#[trigger] fewer[k]).slot == i;
                assert(all[k] == fewer[k]);
            } else {
                assert(all[all.len() - 1].slot == i);
            }
        }
        assert forall|k: int| 0 <= k < fewer.len() implies all[k] == #[trigger] fewer[k] by {}
    }
}

/// A round that was cut short and the round that follows hand to the sender, together, the frames
/// that one round would have: a frame that was not sent is not tried again, and the rest are.
pub proof fn law_rounds_add_up(storage: StorageView, k: int, n: int)
    requires
        0 <= k <= n <= storage.slots.len(),
    ensures
        picks(storage, k) + picks(storage.after_claims(k), n) == picks(storage, n),
        storage.after_claims(k).after_claims(n) == storage.after_claims(n),
    decreases n,
{
    let cut = storage.after_claims(k);
    assert(cut.after_claims(n).slots =~= storage.after_claims(n).slots);
    if n == k {
        lemma_nothing_to_pick(cut, n);
        assert(picks(storage, k) + picks(cut, n) =~= picks(storage, n));
    } else {
        law_rounds_add_up(storage, k, n - 1);
        assert(picks(storage, k) + picks(cut, n) =~= picks(storage, n));
    }
}

/// A reply is taken in once: whether or not anyone waits for it, the same packet is not expected
/// a second time.
pub proof fn law_reply_is_taken_once(pdu_loop: LoopView, packet: Seq<u8>)
    requires
        pdu_loop.expects(packet),
    ensures
        !pdu_loop.after_rx(packet).expects(packet),
{
}

/// A reply that comes while nobody waits wakes no one, and its frame cannot be awaited any more:
/// it stays in a state that ends a wait with an error.
pub proof fn law_early_reply_is_lost(pdu_loop: LoopView, packet: Seq<u8>)
    requires
        pdu_loop.expects(packet),
        pdu_loop.storage.slots[packet[0] as int].frame.waker is None,
    ensures
        pdu_loop.after_rx(packet).storage == pdu_loop.storage.in_state(
            packet[0] as int,
            FrameState::RxBusy,
        ),
        pdu_loop.after_rx(packet).storage.woken == pdu_loop.storage.woken,
{
}

/// Of the wakers that were left with a frame, the reply wakes the last, and takes it away.
pub proof fn law_last_waker_is_woken(
    storage: StorageView,
    slot: int,
    earlier: Waker,
    last: Waker,
)
    requires
        0 <= slot < storage.slots.len(),
    ensures
        ({
            let left = storage.with_waker(slot, Some(earlier)).with_waker(slot, Some(last));
            let after = left.after_received(slot);
            &&& left == storage.with_waker(slot, Some(last))
            &&& after.woken == storage.woken.push(WakeView { waker: last, slots: after.slots })
            &&& after.slots[slot].frame.waker is None
            &&& after.slots[slot].status == FrameState::RxDone
        }),
{
    let left = storage.with_waker(slot, Some(earlier)).with_waker(slot, Some(last));
    assert(left.slots =~= storage.with_waker(slot, Some(last)).slots);
}

/// The packet of a frame whose index is not the place of a frame is never expected.
pub proof fn law_index_beyond_storage_is_not_expected(pdu_loop: LoopView, index: u8)
    requires
        index >= pdu_loop.storage.slots.len(),
    ensures
        !pdu_loop.expects(packet_of(index)),
{
}

/// A frame goes out and comes back. Where the packet index is also the place of the frame, a
/// frame that is allocated, made sendable, waited for and sent is found by its own packet. Its
/// reply wakes the one who waits, who finds the zeroes that went out. Given back, the frame is
/// free, and no frame has changed but for those that were sent along with it.
pub proof fn law_round_trip(pdu_loop: LoopView, len: nat, waker: Waker)
    requires
        pdu_loop.storage.wf(),
        pdu_loop.storage.idx < pdu_loop.storage.slots.len(),
        pdu_loop.storage.alloc_result(len) is Ok,
    ensures
        ({
            let before = pdu_loop.storage;
            let n = before.slots.len() as int;
            let slot = before.idx as int;
            let waiting = before.after_alloc(len).in_state(slot, FrameState::Sendable).with_waker(
                slot,
                Some(waker),
            );
            let sent = LoopView { storage: waiting.after_claims(n), ..pdu_loop };
            let packet = packet_of(sent.storage.slots[slot].frame.index);
            let received = sent.after_rx(packet);
            let read = received.storage.in_state(slot, FrameState::RxProcessing);
            let released = read.in_state(slot, FrameState::Free);
            &&& before.alloc_result(len) == Ok::<int, Error>(slot)
            &&& sent.expects(packet)
            &&& received.storage.slots[slot].status == FrameState::RxDone
            &&& received.storage.woken == before.woken.push(
                WakeView { waker, slots: received.storage.slots },
            )
            &&& read.slots[slot].data() == Seq::new(len, |i: int| 0u8)
            &&& released.slots[slot].status == FrameState::Free
            &&& released.slots[slot].frame.waker is None
            &&& forall|i: int|
                0 <= i < n && i != slot ==> #[trigger] released.slots[i] == before.after_claims(
                    n,
                ).slots[i]
        }),
{
    let before = pdu_loop.storage;
    let n = before.slots.len() as int;
    let slot = before.idx as int;
    vstd::arithmetic::div_mod::lemma_small_mod(slot as nat, n as nat);
    law_new_frame_is_zeroed(before, len);
    let waiting = before.after_alloc(len).in_state(slot, FrameState::Sendable).with_waker(
        slot,
        Some(waker),
    );
    let sent = LoopView { storage: waiting.after_claims(n), ..pdu_loop };
    let packet = packet_of(sent.storage.slots[slot].frame.index);
    assert(packet.len() == PACKET_LEN && packet[0] == before.idx);
    let received = sent.after_rx(packet);
    let read = received.storage.in_state(slot, FrameState::RxProcessing);
    assert(read.slots[slot].buffer == before.after_alloc(len).slots[slot].buffer);
    assert(read.slots[slot].frame.len == len);
}

/// One broadcast that is answered: how many bytes it sends, the waker that is left with its
/// frame, and the wakes on record once the sender has been told.
pub struct Broadcast {
    pub len: nat,
    pub waker: Waker,
    pub woken: Seq<WakeView>,
}

/// The storage after a broadcast, from its start to its end: a frame is allocated, made sendable,
/// waited for, sent, answered, read and given back. Where none is allocated, that is all.
pub open spec fn after_broadcast(storage: StorageView, broadcast: Broadcast) -> StorageView {
    match storage.alloc_result(broadcast.len) {
        Ok(slot) => {
            let started = StorageView {
                woken: broadcast.woken,
                ..storage.after_alloc(broadcast.len).in_state(slot, FrameState::Sendable)
            };
            let waiting = started.with_waker(slot, Some(broadcast.waker));
            let sent = waiting.after_claims(waiting.slots.len() as int);
            let received = sent.in_state(slot, FrameState::RxBusy).after_received(slot);
            received.in_state(slot, FrameState::RxProcessing).in_state(slot, FrameState::Free)
        },
        Err(_) => storage.after_alloc(broadcast.len),
    }
}

/// The storage after broadcasts, one after the other.
pub open spec fn after_broadcasts(
    storage: StorageView,
    broadcasts: Seq<Broadcast>,
) -> StorageView
    decreases broadcasts.len(),
{
    if broadcasts.len() == 0 {
        storage
    } else {
        after_broadcast(
            after_broadcasts(storage, broadcasts.drop_last()),
            broadcasts.last(),
        )
    }
}

/// An answered broadcast frees its frame: the frames that are free after it are those that were
/// free before.
pub proof fn law_broadcast_frees_its_frame(storage: StorageView, broadcast: Broadcast)
    requires
        storage.slots.len() > 0,
    ensures
        ({
            let after = after_broadcast(storage, broadcast);
            &&& after.slots.len() == storage.slots.len()
            &&& after.data_len == storage.data_len
            &&& forall|i: int|
                0 <= i < storage.slots.len() ==> ((#[trigger] after.slots[i]).status
                    == FrameState::Free <==> storage.slots[i].status == FrameState::Free)
        }),
{
}

/// Any number of answered broadcasts, one after the other, leaves the storage as able to
/// allocate as it was: an allocation fails for want of a free frame only where the frame whose
/// turn it is was taken before the first of them.
pub proof fn law_broadcasts_never_exhaust(
    storage: StorageView,
    broadcasts: Seq<Broadcast>,
    len: nat,
)
    requires
        storage.slots.len() > 0,
    ensures
        ({
            let after = after_broadcasts(storage, broadcasts);
            &&& after.slots.len() == storage.slots.len()
            &&& after.data_len == storage.data_len
            &&& forall|i: int|
                0 <= i < storage.slots.len() ==> ((#[trigger] after.slots[i]).status
                    == FrameState::Free <==> storage.slots[i].status == FrameState::Free)
            &&& after.alloc_result(len) == Err::<int, Error>(Error::SwapState) <==> len
                <= storage.data_len && storage.slots[after.next_slot()].status
                != FrameState::Free
        }),
    decreases broadcasts.len(),
{
    if broadcasts.len() > 0 {
        law_broadcasts_never_exhaust(storage, broadcasts.drop_last(), len);
        law_broadcast_frees_its_frame(
            after_broadcasts(storage, broadcasts.drop_last()),
            broadcasts.last(),
        );
    }
    let after = after_broadcasts(storage, broadcasts);
    vstd::arithmetic::div_mod::lemma_mod_bound(after.idx as int, after.slots.len() as int);
    assert(after.slots[after.next_slot()].status == FrameState::Free
        <==> storage.slots[after.next_slot()].status == FrameState::Free);
}

} // verus!
