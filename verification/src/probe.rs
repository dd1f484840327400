//! A client whose task waits for good, and is woken whenever another task takes its place.
use crate::waker::{clone_of, wake, WakeLog};
use core::task::Waker;
use vstd::prelude::*;

verus! {

/// A thing to point at.
pub struct PtrThing {
    pub foo: u8,
}

/// A thing that points at another.
pub struct MyThing<'a> {
    pub ptr: &'a PtrThing,
}

/// A wait that never ends.
pub struct MyFut<'a> {
    pub waker: Option<Waker>,
    pub thing: MyThing<'a>,
    pub woken: WakeLog,
}

impl<'a> MyFut<'a> {
    /// Asks for the outcome, of which there is none. A clone of `waker` is kept, and the one kept
    /// before is woken.
    pub fn poll(&mut self, waker: &Waker) -> (res: Option<Result<u8, ()>>)
        ensures
            res is None,
            clone_of(Some(*waker), final(self).waker),
            final(self).thing == old(self).thing,
            final(self).woken@ == match old(self).waker {
                Some(before) => old(self).woken@.push(before),
                None => old(self).woken@,
            },
    {
        let before = self.waker.take();
        self.waker = Some(waker.clone());
        if let Some(w) = before {
            wake(&mut self.woken, w);
        }
        None
    }
}

/// A client of two things.
pub struct Client {
    pub ptr_things: [PtrThing; 2],
}

impl Client {
    /// Starts to wait on the first thing.
    pub fn do_something<'a>(&'a self) -> (fut: MyFut<'a>)
        ensures
            *fut.thing.ptr == self.ptr_things[0],
            fut.waker is None,
            fut.woken@ == Seq::<Waker>::empty(),
    {
        let ptr_thing = &self.ptr_things[0];

        let thing = MyThing { ptr: ptr_thing };

        MyFut { waker: None, thing, woken: WakeLog::new() }
    }

    /// What the client makes of an outcome of the wait.
    pub fn did_something(outcome: Result<u8, ()>) -> (res: Result<u8, ()>)
        ensures
            res is Ok <==> outcome is Ok,
            res matches Ok(value) ==> value == 0xff,
    {
        match outcome {
            Ok(_) => Ok(0xffu8),
            Err(_) => Err(()),
        }
    }
}

} // verus!
