use ethercat_pdu::frame::FrameState;
use ethercat_pdu::handle::{FrameBox, FramePoll, SendableFrame};
use ethercat_pdu::storage::PduStorage;
use ethercat_pdu::{Command, Error};
use std::sync::atomic::{AtomicUsize, Ordering};
use std::sync::Arc;
use std::task::{Wake, Waker};

struct Count(AtomicUsize);

impl Wake for Count {
    fn wake(self: Arc<Self>) {
        self.0.fetch_add(1, Ordering::SeqCst);
    }
}

impl Count {
    fn new() -> Arc<Count> {
        Arc::new(Count(AtomicUsize::new(0)))
    }

    fn get(&self) -> usize {
        self.0.load(Ordering::SeqCst)
    }
}

#[test]
fn no_spare_frames() {
    const NUM_FRAMES: usize = 16;

    let mut storage: PduStorage<NUM_FRAMES, 128> = PduStorage::new();
    let mut s = storage.as_ref();

    for _ in 0..NUM_FRAMES {
        assert!(s.alloc_frame(Command::Whatever, 128).is_ok());
    }

    assert!(s.alloc_frame(Command::Whatever, 128).is_err());
}

#[test]
fn too_long() {
    const NUM_FRAMES: usize = 16;

    let mut storage: PduStorage<NUM_FRAMES, 128> = PduStorage::new();
    let mut s = storage.as_ref();

    assert!(s.alloc_frame(Command::Whatever, 129).is_err());
}

#[test]
fn allocation_errors() {
    let mut storage: PduStorage<1, 4> = PduStorage::new();
    let mut s = storage.as_ref();

    assert_eq!(s.alloc_frame(Command::Whatever, 5).err(), Some(Error::DataTooLong));
    assert_eq!(s.idx, 0);
    assert!(s.alloc_frame(Command::Whatever, 4).is_ok());
    assert_eq!(s.alloc_frame(Command::Whatever, 4).err(), Some(Error::SwapState));
    assert_eq!(s.idx, 2);
}

#[test]
fn default_state_is_free() {
    assert_eq!(FrameState::default(), FrameState::Free);
}

#[test]
fn element_claims() {
    let mut storage: PduStorage<1, 4> = PduStorage::new();
    let element = &mut storage.frames[0];

    assert!(element.claim_sending().is_none());
    assert!(element.claim_receiving().is_none());
    assert_eq!(element.claim_created(), Ok(()));
    assert_eq!(element.claim_created(), Err(Error::SwapState));
    assert!(element.claim_sending().is_none());
}

#[test]
fn indices_wrap_after_all_have_been_used() {
    let mut storage: PduStorage<300, 1> = PduStorage::new();
    let mut s = storage.as_ref();

    for _ in 0..256 {
        assert!(s.alloc_frame(Command::Whatever, 1).is_ok());
    }
    assert_eq!(s.idx, 0);
    // Frames are left, but the index has come round to a frame that is taken.
    assert_eq!(s.alloc_frame(Command::Whatever, 1).err(), Some(Error::SwapState));
    assert_eq!(FrameBox { frame: 255 }.frame(&s).index, 255);
}

#[test]
fn new_frame_is_zeroed() {
    let mut storage: PduStorage<1, 4> = PduStorage::new();
    let mut s = storage.as_ref();
    let mut inner = FrameBox { frame: 0 };

    assert!(s.alloc_frame(Command::Whatever, 4).is_ok());
    inner.buf_mut(&mut s).copy_from_slice(&[1, 2, 3, 4]);
    assert_eq!(inner.buf(&s), &[1, 2, 3, 4]);
    SendableFrame::new(FrameBox { frame: 0 }).mark_sent(&mut s);
    s.get_receiving(0).unwrap().reset_readable(&mut s);

    assert!(s.alloc_frame(Command::Whatever, 3).is_ok());
    assert_eq!(inner.buf(&s), &[0, 0, 0]);

    // Only what was asked for is set to zero.
    inner.frame_mut(&mut s).len = 4;
    assert_eq!(inner.buf(&s), &[0, 0, 0, 4]);
}

#[test]
fn second_reference_starts_over() {
    let mut storage: PduStorage<2, 4> = PduStorage::new();
    assert!(storage.as_ref().alloc_frame(Command::Whatever, 4).is_ok());

    let mut s = storage.as_ref();
    assert_eq!(s.idx, 0);
    assert_eq!(s.len, 2);
    assert_eq!(s.frame_data_len, 4);
    assert_eq!(s.alloc_frame(Command::Whatever, 4).err(), Some(Error::SwapState));
    assert!(s.alloc_frame(Command::Whatever, 4).is_ok());
}

#[test]
fn receiving_takes_a_frame_that_is_sending() {
    let mut storage: PduStorage<2, 4> = PduStorage::new();
    let mut s = storage.as_ref();

    assert!(s.get_receiving(0).is_none());
    assert!(s.get_receiving(2).is_none());
    SendableFrame::new(FrameBox { frame: 1 }).mark_sent(&mut s);
    assert!(s.get_receiving(0).is_none());
    assert!(s.get_receiving(1).is_some());
    assert!(s.get_receiving(1).is_none());
}

#[test]
fn packet_is_the_index_over_and_over() {
    let mut storage: PduStorage<2, 4> = PduStorage::new();
    let mut s = storage.as_ref();
    assert!(s.alloc_frame(Command::Whatever, 4).is_ok());
    assert!(s.alloc_frame(Command::Whatever, 4).is_ok());

    let frame = SendableFrame::new(FrameBox { frame: 1 });

    let mut short = [7u8; 15];
    assert_eq!(frame.write_ethernet_packet(&s, &mut short).err(), Some(Error::BufferTooShort));
    assert_eq!(short, [7u8; 15]);

    let mut buf = [7u8; 18];
    assert_eq!(frame.write_ethernet_packet(&s, &mut buf).unwrap(), &[1u8; 16]);
    assert_eq!(buf[..16], [1u8; 16]);
    assert_eq!(buf[16..], [7u8; 2]);
}

#[test]
fn completion_of_a_send() {
    let mut storage: PduStorage<1, 4> = PduStorage::new();
    let mut s = storage.as_ref();

    let frame = SendableFrame::new(FrameBox { frame: 0 });
    assert_eq!(frame.complete(&mut s, Err(())), Err(Error::SendFailed));
    assert!(s.get_receiving(0).is_none());

    let frame = SendableFrame::new(FrameBox { frame: 0 });
    assert_eq!(frame.complete(&mut s, Ok(())), Ok(()));
    assert!(s.get_receiving(0).is_some());
}

#[test]
fn wakers_come_and_go() {
    let mut storage: PduStorage<1, 4> = PduStorage::new();
    let mut s = storage.as_ref();
    let inner = FrameBox { frame: 0 };
    let (a, b) = (Count::new(), Count::new());

    assert!(inner.take_waker(&mut s).is_none());
    inner.replace_waker(&mut s, Waker::from(a.clone()));
    inner.replace_waker(&mut s, Waker::from(b.clone()));
    inner.take_waker(&mut s).unwrap().wake();
    assert_eq!((a.get(), b.get()), (0, 1));
    assert!(inner.take_waker(&mut s).is_none());
}

#[test]
fn header_and_data_can_be_changed() {
    let mut storage: PduStorage<1, 4> = PduStorage::new();
    let mut s = storage.as_ref();
    assert!(s.alloc_frame(Command::Whatever, 2).is_ok());
    let mut inner = FrameBox { frame: 0 };

    {
        let (frame, buf) = inner.frame_and_buf_mut(&mut s);
        frame.index = 9;
        buf[1] = 5;
    }
    let (frame, buf) = inner.frame_and_buf(&s);
    assert_eq!(frame.index, 9);
    assert_eq!(buf, &[0, 5]);
}

#[test]
fn reply_without_a_waker_is_an_error() {
    let mut storage: PduStorage<1, 4> = PduStorage::new();
    let mut s = storage.as_ref();
    let count = Count::new();
    let waker = Waker::from(count.clone());

    let mut fut = s.alloc_frame(Command::Whatever, 4).unwrap().mark_sendable(&mut s);
    SendableFrame::new(FrameBox { frame: 0 }).mark_sent(&mut s);
    let frame = s.get_receiving(0).unwrap();
    assert_eq!(frame.mark_received(&mut s), Err(Error::InvalidFrameState));

    assert!(matches!(
        fut.poll(&mut s, &waker),
        FramePoll::Ready(Err(Error::InvalidFrameState))
    ));
    assert!(matches!(fut.poll(&mut s, &waker), FramePoll::Ready(Err(Error::NoFrame))));
    assert_eq!(count.get(), 0);
}

#[test]
fn last_waker_is_woken() {
    let mut storage: PduStorage<1, 4> = PduStorage::new();
    let mut s = storage.as_ref();
    let (a, b) = (Count::new(), Count::new());

    let mut fut = s.alloc_frame(Command::Whatever, 4).unwrap().mark_sendable(&mut s);
    assert!(matches!(fut.poll(&mut s, &Waker::from(a.clone())), FramePoll::Pending));
    SendableFrame::new(FrameBox { frame: 0 }).mark_sent(&mut s);
    assert!(matches!(fut.poll(&mut s, &Waker::from(b.clone())), FramePoll::Pending));

    let mut frame = s.get_receiving(0).unwrap();
    frame.buf_mut(&mut s)[3] = 8;
    assert_eq!(frame.mark_received(&mut s), Ok(()));
    assert_eq!((a.get(), b.get()), (0, 1));

    match fut.poll(&mut s, &Waker::from(a)) {
        FramePoll::Ready(Ok(frame)) => {
            assert_eq!(frame.len(), 16);
            assert_eq!(frame.deref(&s), &[0, 0, 0, 8]);
            frame.release(&mut s);
        }
        _ => panic!("the reply is there"),
    }
    assert!(s.alloc_frame(Command::Whatever, 4).is_ok());
}

#[test]
fn shape_is_kept() {
    let mut storage: PduStorage<2, 4> = PduStorage::new();
    let mut s = storage.as_ref();
    let waker = Waker::from(Count::new());

    let mut fut = s.alloc_frame(Command::Whatever, 4).unwrap().mark_sendable(&mut s);
    assert!(matches!(fut.poll(&mut s, &waker), FramePoll::Pending));
    assert_eq!(fut.count(), 1);
    SendableFrame::new(FrameBox { frame: 0 }).mark_sent(&mut s);
    assert_eq!(s.get_receiving(0).unwrap().mark_received(&mut s), Ok(()));

    assert_eq!(s.len, 2);
    assert_eq!(s.frames.len(), 2);
    assert_eq!(s.frame_data_len, 4);
    assert_eq!(storage.frames.len(), 2);
}
