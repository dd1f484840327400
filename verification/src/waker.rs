//! Wakers, the lock that a waker waits in, and the record of the wakers that were woken.
use core::task::Waker;
use vstd::prelude::*;

verus! {

/// `core::task::Waker`, carried as an opaque value.
#[verifier::external_type_specification]
#[verifier::external_body]
pub struct ExWaker(core::task::Waker);

/// `spin::Spin`, the strategy by which a `spin` lock waits unless told otherwise.
#[verifier::external_type_specification]
#[verifier::external_body]
pub struct ExSpin(spin::Spin);

/// `spin::rwlock::RwLock`, carried as an opaque value. [`held`] and [`unlocked`] name what the
/// contracts say of one that holds a waker.
#[verifier::external_type_specification]
#[verifier::external_body]
#[verifier::reject_recursive_types(T)]
#[verifier::reject_recursive_types(R)]
pub struct ExRwLock<T: ?Sized, R>(spin::rwlock::RwLock<T, R>);

/// What a waker lock holds.
pub uninterp spec fn held(lock: spin::RwLock<Option<Waker>>) -> Option<Waker>;

/// Whether a waker lock is free: no guard of it is outstanding.
pub uninterp spec fn unlocked(lock: spin::RwLock<Option<Waker>>) -> bool;

/// `spin::RwLock::new`: the lock holds the value that it was made with, and is free.
#[verifier::external_body]
pub(crate) fn lock_new(waker: Option<Waker>) -> (lock: spin::RwLock<Option<Waker>>)
    ensures
        held(lock) == waker,
        unlocked(lock),
{
    spin::RwLock::new(waker)
}

/// `spin::RwLock::try_write`, and one write through the guard, which is dropped again.
///
/// A free lock grants the guard: `waker` goes in, what was held comes out, and the lock is free
/// once more. A lock that is not free grants none: the result is `None` and the lock keeps what
/// it held. The exclusive borrow rules out that anyone else takes or frees the lock meanwhile.
#[verifier::external_body]
pub(crate) fn lock_try_write(
    lock: &mut spin::RwLock<Option<Waker>>,
    waker: Option<Waker>,
) -> (was: Option<Option<Waker>>)
    ensures
        unlocked(*final(lock)) == unlocked(*old(lock)),
        unlocked(*old(lock)) ==> was == Some(held(*old(lock))) && held(*final(lock)) == waker,
        !unlocked(*old(lock)) ==> was is None && held(*final(lock)) == held(*old(lock)),
{
    match lock.try_write() {
        Some(mut guard) => Some(core::mem::replace(&mut *guard, waker)),
        None => None,
    }
}

/// `spin::RwLock::write`, and one write through the guard, which is dropped again.
///
/// `write` waits until the lock is free, so only a free lock is handed to it. `waker` goes in,
/// what was held comes out, and the lock is free once more.
#[verifier::external_body]
pub(crate) fn lock_write(
    lock: &mut spin::RwLock<Option<Waker>>,
    waker: Option<Waker>,
) -> (was: Option<Waker>)
    requires
        unlocked(*old(lock)),
    ensures
        was == held(*old(lock)),
        held(*final(lock)) == waker,
        unlocked(*final(lock)),
{
    core::mem::replace(&mut *lock.write(), waker)
}

/// `spin::RwLock::read`, and a clone of what the guard shows. The guard is dropped again.
///
/// `read` waits for a writer to leave, so only a free lock is handed to it. The lock keeps what
/// it holds and stays free; the result is a waker if and only if one is held, and then a clone
/// of that one.
#[verifier::external_body]
pub(crate) fn lock_read(lock: &mut spin::RwLock<Option<Waker>>) -> (waker: Option<Waker>)
    requires
        unlocked(*old(lock)),
    ensures
        held(*final(lock)) == held(*old(lock)),
        unlocked(*final(lock)),
        clone_of(held(*old(lock)), waker),
{
    lock.read().clone()
}

/// That `b` is a clone of `a`: none of none, and of a waker one that `Waker::clone` can give.
pub open spec fn clone_of(a: Option<Waker>, b: Option<Waker>) -> bool {
    match a {
        Some(x) => b is Some && cloned(x, b->0),
        None => b is None,
    }
}

/// `Waker::clone`. Nothing is claimed of the clone beyond its being one.
pub assume_specification[ <Waker as Clone>::clone ](waker: &Waker) -> (res: Waker);

/// The wakers that were woken through an owner of this record, the oldest first.
///
/// It takes no space: what was woken is known to proofs only. [`wake`] and [`wake_by_ref`] are
/// the only ways to add to it.
pub struct WakeLog {
    woken: Ghost<Seq<Waker>>,
}

impl View for WakeLog {
    type V = Seq<Waker>;

    closed spec fn view(&self) -> Seq<Waker> {
        self.woken@
    }
}

impl WakeLog {
    /// A record of no wakers.
    pub fn new() -> (log: WakeLog)
        ensures
            log@ == Seq::<Waker>::empty(),
    {
        WakeLog { woken: Ghost(Seq::empty()) }
    }
}

/// `Waker::wake`: the waker that goes in is the one that the record gains.
#[verifier::external_body]
pub(crate) fn wake(log: &mut WakeLog, waker: Waker)
    ensures
        final(log)@ == old(log)@.push(waker),
{
    waker.wake()
}

/// `Waker::wake_by_ref`: the waker that goes in is the one that the record gains.
#[verifier::external_body]
pub(crate) fn wake_by_ref(log: &mut WakeLog, waker: &Waker)
    ensures
        final(log)@ == old(log)@.push(*waker),
{
    waker.wake_by_ref()
}

} // verus!
