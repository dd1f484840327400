use ethercat_pdu::handle::{FrameBox, FramePoll, ReceiveFrameFut, SendableFrame};
use ethercat_pdu::pdu_loop::PduLoop;
use ethercat_pdu::sender::Sender;
use ethercat_pdu::storage::{PduStorage, PduStorageRef};
use ethercat_pdu::{Command, Error};
use std::sync::atomic::{AtomicUsize, Ordering};
use std::sync::Arc;
use std::task::{Wake, Waker};

struct Count(AtomicUsize);

impl Wake for Count {
    fn wake(self: Arc<Self>) {
        self.0.fetch_add(1, Ordering::SeqCst);
    }
}

impl Count {
    fn new() -> Arc<Count> {
        Arc::new(Count(AtomicUsize::new(0)))
    }

    fn get(&self) -> usize {
        self.0.load(Ordering::SeqCst)
    }
}

fn transmit<const DATA: usize>(
    pdu_loop: &mut PduLoop<'_, DATA>,
    waker: &Waker,
) -> (Result<(), Error>, Vec<Vec<u8>>) {
    let mut packets = Vec::new();
    let res = pdu_loop.send_frames_blocking(waker, |frame: &FrameBox, storage| {
        packets.push(vec![frame.frame(storage).index; 16]);
        Ok(())
    });
    (res, packets)
}

fn pending<const DATA: usize>(
    fut: &mut ReceiveFrameFut,
    pdu_loop: &mut PduLoop<'_, DATA>,
    waker: &Waker,
) -> bool {
    matches!(fut.poll(&mut pdu_loop.storage, waker), FramePoll::Pending)
}

#[test]
fn broadcast_zeros() {
    let mut storage = PduStorage::<16, 128>::new();
    let mut pdu_loop = PduLoop::new(storage.as_ref());
    let (tx, task) = (Count::new(), Count::new());
    let tx_waker = Waker::from(tx.clone());
    let waker = Waker::from(task.clone());

    // The sender goes round once before there is anything to send.
    let (res, packets) = transmit(&mut pdu_loop, &tx_waker);
    assert_eq!(res, Ok(()));
    assert!(packets.is_empty());

    let mut fut = pdu_loop.pdu_broadcast_zeros(0x1234, 16).unwrap();
    assert_eq!(tx.get(), 1);
    assert!(pending(&mut fut, &mut pdu_loop, &waker));

    let (res, packets) = transmit(&mut pdu_loop, &tx_waker);
    assert_eq!(res, Ok(()));
    assert_eq!(packets, vec![vec![0u8; 16]]);

    for packet in packets {
        assert!(pdu_loop.expects(&packet));
        pdu_loop.pdu_rx(&packet).expect("RX");
        assert!(!pdu_loop.expects(&packet));
    }
    assert_eq!(task.get(), 1);

    match fut.poll(&mut pdu_loop.storage, &waker) {
        FramePoll::Ready(Ok(frame)) => {
            assert_eq!(frame.deref(&pdu_loop.storage), &[0u8; 16]);
            frame.release(&mut pdu_loop.storage);
        }
        _ => panic!("the reply is there"),
    }
    assert_eq!(task.get(), 1);
    assert_eq!(tx.get(), 1);
}

#[test]
fn broadcast_reports_what_allocation_reports() {
    let mut storage = PduStorage::<1, 8>::new();
    let mut pdu_loop = PduLoop::new(storage.as_ref());

    assert_eq!(pdu_loop.pdu_broadcast_zeros(0, 9).err(), Some(Error::DataTooLong));
    assert!(pdu_loop.pdu_broadcast_zeros(0, 8).is_ok());
    assert_eq!(pdu_loop.pdu_broadcast_zeros(0, 8).err(), Some(Error::SwapState));
}

#[test]
fn first_sender_waker_is_kept() {
    let mut storage = PduStorage::<2, 8>::new();
    let mut pdu_loop = PduLoop::new(storage.as_ref());
    let (a, b) = (Count::new(), Count::new());

    pdu_loop.wake_sender();
    assert_eq!(transmit(&mut pdu_loop, &Waker::from(a.clone())).0, Ok(()));
    assert_eq!(transmit(&mut pdu_loop, &Waker::from(b.clone())).0, Ok(()));
    pdu_loop.wake_sender();
    pdu_loop.wake_sender();
    assert_eq!((a.get(), b.get()), (2, 0));
}

#[test]
fn frames_are_sent_once_and_in_order() {
    let mut storage = PduStorage::<3, 8>::new();
    let mut pdu_loop = PduLoop::new(storage.as_ref());
    let waker = Waker::from(Count::new());

    for _ in 0..3 {
        assert!(pdu_loop.pdu_broadcast_zeros(0, 8).is_ok());
    }
    let (res, packets) = transmit(&mut pdu_loop, &waker);
    assert_eq!(res, Ok(()));
    assert_eq!(packets, vec![vec![0u8; 16], vec![1u8; 16], vec![2u8; 16]]);
    assert!(transmit(&mut pdu_loop, &waker).1.is_empty());
}

#[test]
fn failed_send_stops_the_sender() {
    let mut storage = PduStorage::<3, 8>::new();
    let mut pdu_loop = PduLoop::new(storage.as_ref());
    let tx = Count::new();
    let waker = Waker::from(tx.clone());

    for _ in 0..3 {
        assert!(pdu_loop.pdu_broadcast_zeros(0, 8).is_ok());
    }
    let res = pdu_loop.send_frames_blocking(&waker, |frame: &FrameBox, _: &PduStorageRef<'_, 8>| {
        if frame.frame == 1 {
            Err(())
        } else {
            Ok(())
        }
    });
    assert_eq!(res, Err(Error::SendFailed));

    // No waker was left, and the frame that was not sent is not tried again.
    pdu_loop.wake_sender();
    assert_eq!(tx.get(), 0);
    assert_eq!(transmit(&mut pdu_loop, &waker).1, vec![vec![2u8; 16]]);
}

#[test]
fn packets_that_are_not_expected() {
    let mut storage = PduStorage::<2, 8>::new();
    let mut pdu_loop = PduLoop::new(storage.as_ref());
    let waker = Waker::from(Count::new());

    assert!(!pdu_loop.expects(&[]));
    assert!(!pdu_loop.expects(&[0; 16]));
    assert!(pdu_loop.pdu_broadcast_zeros(0, 8).is_ok());
    assert!(!pdu_loop.expects(&[0; 16]));
    assert_eq!(transmit(&mut pdu_loop, &waker).0, Ok(()));
    assert!(pdu_loop.expects(&[0; 16]));
    assert!(!pdu_loop.expects(&[1; 16]));
    assert!(!pdu_loop.expects(&[2; 16]));
}

#[test]
fn reply_before_anyone_waits_is_lost() {
    let mut storage = PduStorage::<2, 8>::new();
    let mut pdu_loop = PduLoop::new(storage.as_ref());
    let task = Count::new();
    let waker = Waker::from(task.clone());

    let mut fut = pdu_loop.pdu_broadcast_zeros(0, 8).unwrap();
    assert_eq!(transmit(&mut pdu_loop, &waker).0, Ok(()));
    assert_eq!(pdu_loop.pdu_rx(&[0; 16]), Ok(()));
    assert!(!pdu_loop.expects(&[0; 16]));
    assert!(matches!(
        fut.poll(&mut pdu_loop.storage, &waker),
        FramePoll::Ready(Err(Error::InvalidFrameState))
    ));
    assert_eq!(task.get(), 0);
}

#[test]
fn index_beyond_the_storage_is_not_expected() {
    let mut storage = PduStorage::<1, 8>::new();
    let mut pdu_loop = PduLoop::new(storage.as_ref());
    let waker = Waker::from(Count::new());

    // The first frame is given back; the second lies in its place, under the next index.
    assert!(pdu_loop.pdu_broadcast_zeros(0, 8).is_ok());
    assert_eq!(transmit(&mut pdu_loop, &waker).0, Ok(()));
    pdu_loop.storage.get_receiving(0).unwrap().reset_readable(&mut pdu_loop.storage);
    assert!(pdu_loop.pdu_broadcast_zeros(0, 8).is_ok());

    let mut buf = [0u8; 16];
    let frame = SendableFrame::new(FrameBox { frame: 0 });
    let packet = frame.write_ethernet_packet(&pdu_loop.storage, &mut buf).unwrap().to_vec();
    assert_eq!(packet, vec![1u8; 16]);
    assert_eq!(transmit(&mut pdu_loop, &waker).1, vec![packet.clone()]);
    assert!(!pdu_loop.expects(&packet));
}

#[test]
fn only_sendable_frames_are_sent() {
    let mut storage = PduStorage::<4, 16>::new();
    let mut pdu_loop = PduLoop::new(storage.as_ref());
    let tx = Count::new();
    let waker = Waker::from(tx.clone());

    let a = pdu_loop.storage.alloc_frame(Command::Whatever, 16).unwrap();
    let _b = pdu_loop.storage.alloc_frame(Command::Whatever, 16).unwrap();
    let c = pdu_loop.storage.alloc_frame(Command::Whatever, 16).unwrap();
    c.mark_sendable(&mut pdu_loop.storage);
    a.mark_sendable(&mut pdu_loop.storage);

    let (res, packets) = transmit(&mut pdu_loop, &waker);
    assert_eq!(res, Ok(()));
    assert_eq!(packets, vec![vec![0u8; 16], vec![2u8; 16]]);
}

#[test]
fn each_round_goes_on_after_the_frame_that_failed() {
    let mut storage = PduStorage::<3, 16>::new();
    let mut pdu_loop = PduLoop::new(storage.as_ref());
    let waker = Waker::from(Count::new());

    for _ in 0..3 {
        pdu_loop
            .storage
            .alloc_frame(Command::Whatever, 16)
            .unwrap()
            .mark_sendable(&mut pdu_loop.storage);
    }

    let mut calls = Vec::new();
    let send = |frame: &FrameBox, storage: &PduStorageRef<'_, 16>| {
        let index = frame.frame(storage).index;
        calls.push(index);
        if index == 1 {
            Err(())
        } else {
            Ok(())
        }
    };
    assert_eq!(pdu_loop.send_round(&waker, Sender::new(send)), Err(Error::SendFailed));
    assert_eq!(calls, vec![0, 1]);
    assert_eq!(transmit(&mut pdu_loop, &waker).1, vec![vec![2u8; 16]]);
}

#[test]
fn nothing_to_send_is_no_failure() {
    let mut storage = PduStorage::<16, 128>::new();
    let mut pdu_loop = PduLoop::new(storage.as_ref());
    let tx = Count::new();
    let waker = Waker::from(tx.clone());

    let mut calls = 0;
    let res = pdu_loop.send_frames_blocking(&waker, |_: &FrameBox, _: &PduStorageRef<'_, 128>| {
        calls += 1;
        Err(())
    });
    assert_eq!(res, Ok(()));
    assert_eq!(calls, 0);
    pdu_loop.wake_sender();
    assert_eq!(tx.get(), 1);
}

#[test]
fn answered_broadcasts_never_exhaust() {
    let mut storage = PduStorage::<3, 8>::new();
    let mut pdu_loop = PduLoop::new(storage.as_ref());
    let waker = Waker::from(Count::new());

    for i in 0..600usize {
        let mut fut = pdu_loop.pdu_broadcast_zeros(0, 8).unwrap();
        assert!(pending(&mut fut, &mut pdu_loop, &waker));
        assert_eq!(transmit(&mut pdu_loop, &waker).1.len(), 1);
        assert_eq!(pdu_loop.pdu_rx(&[(i % 256 % 3) as u8]), Ok(()));
        let reply = match fut.poll(&mut pdu_loop.storage, &waker) {
            FramePoll::Ready(reply) => reply,
            FramePoll::Pending => panic!("the reply is there"),
        };
        assert_eq!(pdu_loop.end_broadcast(reply), Ok(()));
    }
}

#[test]
fn broadcast_ends_with_the_error_of_the_wait() {
    let mut storage = PduStorage::<1, 8>::new();
    let mut pdu_loop = PduLoop::new(storage.as_ref());

    assert_eq!(
        pdu_loop.end_broadcast(Err(Error::InvalidFrameState)),
        Err(Error::InvalidFrameState)
    );
    assert!(pdu_loop.pdu_broadcast_zeros(0, 8).is_ok());
}
