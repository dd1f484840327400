//! The record of the wakers that a storage has woken, each with the frames as they were then.
use crate::frame::{ElementView, FrameElement};
use crate::storage::elements;
use crate::waker::{wake, wake_by_ref, WakeLog};
use core::task::Waker;
use vstd::prelude::*;

verus! {

/// One wake.
#[verifier::ext_equal]
pub struct WakeView {
    /// The waker that was woken.
    pub waker: Waker,
    /// What the frames held when it was.
    pub slots: Seq<ElementView>,
}

/// The wakers that were woken, the oldest first, each with what the frames held at the time.
///
/// It takes no space, and [`FrameWakes::wake`] and [`FrameWakes::wake_by_ref`] are the only ways
/// to add to it.
pub struct FrameWakes {
    log: WakeLog,
    slots: Ghost<Map<int, Seq<ElementView>>>,
}

impl View for FrameWakes {
    type V = Seq<WakeView>;

    closed spec fn view(&self) -> Seq<WakeView> {
        Seq::new(
            self.log@.len(),
            |i: int| WakeView { waker: self.log@[i], slots: self.slots@[i] },
        )
    }
}

impl FrameWakes {
    /// What is on record is the wakers that were woken, all of them and in their order.
    proof fn law_record_is_the_wakers(&self)
        ensures
            self@.len() == self.log@.len(),
            forall|i: int| 0 <= i < self.log@.len() ==> (#[trigger] self@[i]).waker == self.log@[i],
    {
    }

    /// A record of no wakes.
    pub fn new() -> (wakes: FrameWakes)
        ensures
            wakes@ == Seq::<WakeView>::empty(),
    {
        let wakes = FrameWakes { log: WakeLog::new(), slots: Ghost(Map::empty()) };
        assert(wakes@ =~= Seq::<WakeView>::empty());
        wakes
    }

    /// Wakes, with the frames as they are.
    pub(crate) fn wake<const DATA: usize>(&mut self, waker: Waker, frames: &[FrameElement<DATA>])
        ensures
            final(self)@ == old(self)@.push(WakeView { waker, slots: elements(frames@) }),
    {
        self.slots = Ghost(self.slots@.insert(self.log@.len() as int, elements(frames@)));
        wake(&mut self.log, waker);
        assert(self@ =~= old(self)@.push(WakeView { waker, slots: elements(frames@) }));
    }

    /// Wakes by reference, with the frames as they are.
    pub(crate) fn wake_by_ref<const DATA: usize>(
        &mut self,
        waker: &Waker,
        frames: &[FrameElement<DATA>],
    )
        ensures
            final(self)@ == old(self)@.push(
                WakeView { waker: *waker, slots: elements(frames@) },
            ),
    {
        self.slots = Ghost(self.slots@.insert(self.log@.len() as int, elements(frames@)));
        wake_by_ref(&mut self.log, waker);
        assert(self@ =~= old(self)@.push(WakeView { waker: *waker, slots: elements(frames@) }));
    }
}

} // verus!
