use ethercat_pdu::probe::{Client, PtrThing};
use std::sync::atomic::{AtomicUsize, Ordering};
use std::sync::Arc;
use std::task::{Wake, Waker};

struct Count(AtomicUsize);

impl Wake for Count {
    fn wake(self: Arc<Self>) {
        self.0.fetch_add(1, Ordering::SeqCst);
    }
}

#[test]
fn wait_never_ends() {
    let client = Client {
        ptr_things: [PtrThing { foo: 0x01u8 }, PtrThing { foo: 0x02u8 }],
    };
    let a = Arc::new(Count(AtomicUsize::new(0)));
    let b = Arc::new(Count(AtomicUsize::new(0)));

    let mut fut = client.do_something();
    assert_eq!(fut.thing.ptr.foo, 0x01);
    assert_eq!(fut.poll(&Waker::from(a.clone())), None);
    assert_eq!(a.0.load(Ordering::SeqCst), 0);
    assert_eq!(fut.poll(&Waker::from(b.clone())), None);
    assert_eq!(a.0.load(Ordering::SeqCst), 1);
    assert_eq!(b.0.load(Ordering::SeqCst), 0);
}

#[test]
fn outcomes_of_the_wait() {
    assert_eq!(Client::did_something(Ok(3)), Ok(0xff));
    assert_eq!(Client::did_something(Err(())), Err(()));
}
