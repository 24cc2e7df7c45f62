use vt_muxer::poll::Poll;
use vt_muxer::poll_mutex::{LockPlan, LockStep, PollMutex};

type TestMutex = PollMutex<&'static str, u8>;

#[test]
fn a_free_mutex_is_locked_at_once() {
    let mut mutex: TestMutex = PollMutex::new("m");
    assert!(matches!(mutex.poll_lock::<char>(), LockStep::TryLock));
    assert!(matches!(mutex.tried(Ok('g')), LockStep::Return(Poll::Ready('g'))));
    assert_eq!(mutex.fut, None);
    assert_eq!(mutex.mutex, "m");
}

#[test]
fn a_place_in_the_queue_is_kept_until_it_gives_the_lock() {
    let mut mutex: TestMutex = PollMutex::new("m");
    assert!(matches!(mutex.tried::<char>(Err(1)), LockStep::PollFuture));
    assert!(matches!(mutex.polled::<char>(Poll::Pending), LockStep::Return(Poll::Pending)));
    assert_eq!(mutex.fut, Some(1));
    assert!(matches!(mutex.poll_lock::<char>(), LockStep::PollFuture));
    assert!(matches!(mutex.polled(Poll::Ready('g')), LockStep::Return(Poll::Ready('g'))));
    assert_eq!(mutex.fut, None);
}

#[test]
fn a_place_in_the_queue_can_be_passed_on_and_used_up() {
    let mut mutex: TestMutex = PollMutex::new("m");
    assert!(matches!(mutex.lock(), LockPlan::Lock));
    mutex.tried::<char>(Err(1));
    let mut token = mutex.take_token();
    assert_eq!((mutex.mutex, mutex.fut), ("m", None));
    assert_eq!((token.mutex, token.fut), ("m", Some(1)));
    assert!(matches!(token.lock(), LockPlan::Await(1)));
    assert_eq!(token.fut, None);
}

#[test]
fn a_clone_has_no_place_in_the_queue() {
    let mut mutex: TestMutex = PollMutex::new("m");
    mutex.tried::<char>(Err(1));
    let copy = mutex.clone();
    assert_eq!((copy.mutex, copy.fut), ("m", None));

    let other: TestMutex = PollMutex::new("n");
    mutex.clone_from(&other, false);
    assert_eq!((mutex.mutex, mutex.fut), ("n", None));
    mutex.tried::<char>(Err(2));
    mutex.clone_from(&other, true);
    assert_eq!((mutex.mutex, mutex.fut), ("n", None));
}
